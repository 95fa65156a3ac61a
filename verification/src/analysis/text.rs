//! Lines, columns and words of a source text. Columns count bytes.

use crate::lexer::char_bytes;
use crate::text::chars_of;
use vstd::prelude::*;
use vstd::utf8::*;

verus! {

// ---------- characters ----------

/// Whether a character is a letter or a digit of some script.
pub uninterp spec fn alphanumeric(c: char) -> bool;

pub open spec fn ascii_alphanumeric(c: char) -> bool {
    (c >= 'a' && c <= 'z') || (c >= 'A' && c <= 'Z') || (c >= '0' && c <= '9')
}

/// `char::is_alphanumeric`: whether the character has the Alphabetic property
/// or one of the numeric general categories. Of the ASCII characters these are
/// the letters and the digits.
pub assume_specification[ char::is_alphanumeric ](c: char) -> (r: bool)
    ensures
        r == alphanumeric(c),
        (c as u32) < 128 ==> r == ascii_alphanumeric(c),
;

/// Characters that words are made of.
pub open spec fn word_char(c: char) -> bool {
    alphanumeric(c) || c == '_'
}

pub fn is_word_char(c: char) -> (r: bool)
    ensures
        r == word_char(c),
        (c as u32) < 128 ==> r == (ascii_alphanumeric(c) || c == '_'),
{
    c.is_alphanumeric() || c == '_'
}

/// White space: the characters with the White_Space property.
pub open spec fn white(c: char) -> bool {
    let n = c as u32;
    (9 <= n && n <= 13) || n == 0x20 || n == 0x85 || n == 0xA0 || n == 0x1680 || (0x2000 <= n && n
        <= 0x200A) || n == 0x2028 || n == 0x2029 || n == 0x202F || n == 0x205F || n == 0x3000
}

pub fn is_white(c: char) -> (r: bool)
    ensures
        r == white(c),
{
    let n: u32 = c as u32;
    (9 <= n && n <= 13) || n == 0x20 || n == 0x85 || n == 0xA0 || n == 0x1680 || (0x2000 <= n && n
        <= 0x200A) || n == 0x2028 || n == 0x2029 || n == 0x202F || n == 0x205F || n == 0x3000
}

/// The number of bytes that encode a character.
pub open spec fn width(c: char) -> nat {
    let n = c as u32;
    if n < 0x80 {
        1
    } else if n < 0x800 {
        2
    } else if n < 0x10000 {
        3
    } else {
        4
    }
}

/// The width of a character is the length of its encoding.
pub proof fn width_counts_bytes(c: char)
    ensures
        width(c) == char_bytes(c).len(),
{
    reveal_with_fuel(encode_utf8, 2);
    assert(seq![c].drop_first() =~= Seq::empty());
    assert(char_bytes(c) =~= encode_scalar(c as u32));
}

fn width_of(c: char) -> (r: usize)
    ensures
        r as nat == width(c),
        1 <= r <= 4,
{
    let n: u32 = c as u32;
    if n < 0x80 {
        1
    } else if n < 0x800 {
        2
    } else if n < 0x10000 {
        3
    } else {
        4
    }
}

/// The number of bytes that encode a text.
pub open spec fn byte_len(s: Seq<char>) -> nat
    decreases s.len(),
{
    if s.len() == 0 {
        0
    } else {
        byte_len(s.drop_last()) + width(s.last())
    }
}

/// A number as a `usize`, the largest one for numbers beyond it.
pub open spec fn clamp(n: nat) -> usize {
    if n <= usize::MAX {
        n as usize
    } else {
        usize::MAX
    }
}

/// The number of bytes of the first `n` characters.
pub fn bytes_before(s: &Vec<char>, n: usize) -> (r: usize)
    requires
        n <= s@.len(),
    ensures
        r == clamp(byte_len(s@.take(n as int))),
{
    let mut total: usize = 0;
    let mut i: usize = 0;
    assert(s@.take(0) =~= Seq::empty());
    while i < n
        invariant
            i <= n <= s@.len(),
            total == clamp(byte_len(s@.take(i as int))),
        decreases n - i,
    {
        assert(s@.take(i + 1).drop_last() =~= s@.take(i as int));
        total = total.saturating_add(width_of(s[i]));
        i += 1;
    }
    total
}

// ---------- lines ----------

/// The place of the first occurrence of `c`, or the length when there is none.
pub open spec fn first_at(s: Seq<char>, c: char) -> int
    decreases s.len(),
{
    if s.len() == 0 {
        0
    } else if s[0] == c {
        0
    } else {
        1 + first_at(s.drop_first(), c)
    }
}

proof fn lemma_first_at(s: Seq<char>, c: char, i: int)
    requires
        0 <= i <= s.len(),
        forall|k: int| 0 <= k < i ==> s[k] != c,
        i < s.len() ==> s[i] == c,
    ensures
        first_at(s, c) == i,
    decreases s.len(),
{
    if i > 0 {
        assert forall|k: int| 0 <= k < i - 1 implies s.drop_first()[k] != c by {
            assert(s[k + 1] != c);
        }
        lemma_first_at(s.drop_first(), c, i - 1);
    }
}

proof fn lemma_first_at_bounds(s: Seq<char>, c: char)
    ensures
        0 <= first_at(s, c) <= s.len(),
        first_at(s, c) < s.len() ==> s[first_at(s, c)] == c,
    decreases s.len(),
{
    if s.len() > 0 && s[0] != c {
        lemma_first_at_bounds(s.drop_first(), c);
    }
}

/// The first occurrence of `c` from `from` on.
pub fn find_char(s: &Vec<char>, from: usize, c: char) -> (r: usize)
    requires
        from <= s@.len(),
    ensures
        r as int == from + first_at(s@.skip(from as int), c),
        from <= r <= s@.len(),
        r < s@.len() ==> s@[r as int] == c,
{
    let ghost rest = s@.skip(from as int);
    let mut i: usize = from;
    while i < s.len()
        invariant
            from <= i <= s@.len(),
            rest == s@.skip(from as int),
            forall|k: int| 0 <= k < i - from ==> rest[k] != c,
        decreases s@.len() - i,
    {
        if s[i] == c {
            proof {
                lemma_first_at(rest, c, i - from);
            }
            return i;
        }
        i += 1;
    }
    proof {
        lemma_first_at(rest, c, i - from);
    }
    i
}

/// A line that a newline ends, without a carriage return at its end.
pub open spec fn chomped(l: Seq<char>) -> Seq<char> {
    if l.len() > 0 && l.last() == '\r' {
        l.drop_last()
    } else {
        l
    }
}

/// The lines of a text. A newline at the end starts no further line.
pub open spec fn lines(s: Seq<char>) -> Seq<Seq<char>>
    decreases s.len(),
    via lines_decreases
{
    if s.len() == 0 {
        Seq::empty()
    } else {
        let k = first_at(s, '\n');
        if k < s.len() {
            seq![chomped(s.take(k))] + lines(s.skip(k + 1))
        } else {
            seq![s]
        }
    }
}

#[via_fn]
proof fn lines_decreases(s: Seq<char>) {
    lemma_first_at_bounds(s, '\n');
}

/// Rows of characters as mathematical values.
pub open spec fn rows(v: Seq<Vec<char>>) -> Seq<Seq<char>> {
    Seq::new(v.len(), |i: int| v[i]@)
}

/// The characters from `start` up to `end`.
pub fn slice_of(s: &Vec<char>, start: usize, end: usize) -> (r: Vec<char>)
    requires
        start <= end <= s@.len(),
    ensures
        r@ == s@.subrange(start as int, end as int),
{
    let mut out: Vec<char> = Vec::new();
    let mut i: usize = start;
    assert(s@.subrange(start as int, start as int) =~= Seq::<char>::empty());
    while i < end
        invariant
            start <= i <= end <= s@.len(),
            out@ == s@.subrange(start as int, i as int),
        decreases end - i,
    {
        out.push(s[i]);
        assert(s@.subrange(start as int, i + 1) =~= s@.subrange(start as int, i as int).push(
            s@[i as int],
        ));
        i += 1;
    }
    out
}

/// Splits a text into its lines.
pub fn split_lines(source: &str) -> (r: Vec<Vec<char>>)
    ensures
        rows(r@) == lines(source@),
{
    let chars = chars_of(source);
    let mut out: Vec<Vec<char>> = Vec::new();
    let mut start: usize = 0;
    assert(chars@.skip(0) =~= chars@);
    assert(rows(out@) + lines(chars@) =~= lines(chars@));
    while start < chars.len()
        invariant
            start <= chars@.len(),
            chars@ == source@,
            rows(out@) + lines(chars@.skip(start as int)) == lines(chars@),
        decreases chars@.len() - start,
    {
        let ghost rest = chars@.skip(start as int);
        let ghost before = out@;
        let k: usize = find_char(&chars, start, '\n');
        if k < chars.len() {
            let mut end: usize = k;
            if end > start && chars[end - 1] == '\r' {
                end -= 1;
            }
            let row = slice_of(&chars, start, end);
            assert(row@ =~= chomped(rest.take(k - start)));
            out.push(row);
            assert(rest.skip(k - start + 1) =~= chars@.skip(k + 1));
            assert(rows(out@) =~= rows(before).push(row@));
            assert(rows(before) + (seq![row@] + lines(chars@.skip(k + 1))) =~= rows(out@) + lines(
                chars@.skip(k + 1),
            ));
            start = k + 1;
        } else {
            let row = slice_of(&chars, start, k);
            assert(row@ =~= rest);
            out.push(row);
            assert(rows(out@) =~= rows(before).push(row@));
            assert(rows(before) + seq![row@] =~= rows(out@));
            assert(chars@.skip(k as int) =~= Seq::empty());
            assert(rows(out@) + lines(chars@.skip(k as int)) =~= rows(out@));
            start = k;
        }
    }
    assert(chars@.skip(start as int) =~= Seq::empty());
    assert(rows(out@) + lines(chars@.skip(start as int)) =~= rows(out@));
    out
}

/// A line of a text, counting from zero.
pub open spec fn line_of(source: Seq<char>, line: usize) -> Option<Seq<char>> {
    if line < lines(source).len() {
        Some(lines(source)[line as int])
    } else {
        None
    }
}

pub open spec fn row_of(r: Option<Vec<char>>) -> Option<Seq<char>> {
    match r {
        Some(l) => Some(l@),
        None => None,
    }
}

pub fn nth_line(source: &str, line: usize) -> (r: Option<Vec<char>>)
    ensures
        row_of(r) == line_of(source@, line),
{
    let all = split_lines(source);
    if line < all.len() {
        assert(rows(all@)[line as int] == all@[line as int]@);
        let row = &all[line];
        let copy = slice_of(row, 0, row.len());
        assert(copy@ =~= row@);
        Some(copy)
    } else {
        None
    }
}

/// The bytes of the first `n` lines, with one for the end of each.
pub open spec fn lines_bytes(ls: Seq<Seq<char>>, n: nat) -> nat
    decreases n,
{
    if n == 0 || n > ls.len() {
        0
    } else {
        lines_bytes(ls, (n - 1) as nat) + byte_len(ls[n - 1]) + 1
    }
}

/// The byte offset at which a line starts, where every line ends in a single
/// newline: each line before it counts with its bytes and one for its end.
pub open spec fn line_start(source: Seq<char>, line: usize) -> usize {
    let ls = lines(source);
    clamp(
        lines_bytes(
            ls,
            if line < ls.len() {
                line as nat
            } else {
                ls.len()
            },
        ),
    )
}

/// Byte offset of the start of `line` within `source`. Each prior line
/// contributes its content and one byte for its end, so that a line past the
/// last one starts after an end of the last; a carriage return at the end of a
/// line is no part of either.
pub fn line_offset_at(source: &str, line: usize) -> (r: usize)
    ensures
        r == line_start(source@, line),
{
    let all = split_lines(source);
    let ghost ls = lines(source@);
    let mut total: usize = 0;
    let mut i: usize = 0;
    while i < line && i < all.len()
        invariant
            ls == rows(all@),
            i <= line,
            i <= all@.len(),
            total == clamp(lines_bytes(ls, i as nat)),
        decreases all@.len() - i,
    {
        let row = &all[i];
        assert(ls[i as int] == row@);
        assert(row@.take(row@.len() as int) =~= row@);
        total = total.saturating_add(bytes_before(row, row.len())).saturating_add(1);
        i += 1;
    }
    total
}

// ---------- columns ----------

/// The number of characters that end before a byte column.
pub open spec fn cut(l: Seq<char>, col: nat) -> int
    decreases l.len(),
{
    if l.len() == 0 {
        0
    } else if width(l[0]) <= col {
        1 + cut(l.drop_first(), (col - width(l[0])) as nat)
    } else {
        0
    }
}

proof fn lemma_cut_bounds(l: Seq<char>, col: nat)
    ensures
        0 <= cut(l, col) <= l.len(),
    decreases l.len(),
{
    if l.len() > 0 && width(l[0]) <= col {
        lemma_cut_bounds(l.drop_first(), (col - width(l[0])) as nat);
    }
}

/// The number of characters of a line before a byte column.
pub fn chars_before(l: &Vec<char>, col: usize) -> (r: usize)
    ensures
        r as int == cut(l@, col as nat),
        r <= l@.len(),
{
    let mut i: usize = 0;
    let mut left: usize = col;
    assert(l@.skip(0) =~= l@);
    while i < l.len()
        invariant
            i <= l@.len(),
            cut(l@, col as nat) == i + cut(l@.skip(i as int), left as nat),
        decreases l@.len() - i,
    {
        let w: usize = width_of(l[i]);
        assert(l@.skip(i as int).drop_first() =~= l@.skip(i + 1));
        if w > left {
            return i;
        }
        left -= w;
        i += 1;
    }
    i
}

/// What stands before a byte column.
pub open spec fn before_col(l: Seq<char>, col: usize) -> Seq<char> {
    l.take(cut(l, col as nat))
}

/// The place of the last character that is no part of a word, or -1.
pub open spec fn last_break(s: Seq<char>) -> int
    decreases s.len(),
{
    if s.len() == 0 {
        -1
    } else if !word_char(s.last()) {
        s.len() - 1
    } else {
        last_break(s.drop_last())
    }
}

/// The last break is no part of a word, and everything behind it is.
pub proof fn words_have_no_breaks(s: Seq<char>)
    ensures
        -1 <= last_break(s) < s.len(),
        last_break(s) >= 0 ==> !word_char(s[last_break(s)]),
        forall|i: int| last_break(s) < i < s.len() ==> word_char(#[trigger] s[i]),
    decreases s.len(),
{
    if s.len() > 0 && word_char(s.last()) {
        words_have_no_breaks(s.drop_last());
        assert forall|i: int| last_break(s) < i < s.len() implies word_char(#[trigger] s[i]) by {
            if i < s.len() - 1 {
                assert(s.drop_last()[i] == s[i]);
            }
        }
    }
}

/// The place after the last character before `end` that is no part of a word.
pub fn word_begin(l: &Vec<char>, end: usize) -> (r: usize)
    requires
        end <= l@.len(),
    ensures
        r as int == last_break(l@.take(end as int)) + 1,
        r <= end,
{
    let mut i: usize = end;
    while i > 0
        invariant
            i <= end <= l@.len(),
            last_break(l@.take(end as int)) == last_break(l@.take(i as int)),
        decreases i,
    {
        let ghost here = l@.take(i as int);
        assert(here.drop_last() =~= l@.take(i - 1));
        assert(here.last() == l@[i - 1]);
        if !is_word_char(l[i - 1]) {
            return i;
        }
        i -= 1;
    }
    assert(l@.take(0) =~= Seq::empty());
    0
}

/// The byte column where the word around a column starts: after the last
/// character before the column that is no part of a word.
pub open spec fn word_start(l: Seq<char>, col: usize) -> usize {
    let before = before_col(l, col);
    clamp(byte_len(before.take(last_break(before) + 1)))
}

/// Given a line and a column, the byte offset of the start of the word
/// containing that column.
pub fn word_start_in_line(line: &Vec<char>, col: usize) -> (r: usize)
    ensures
        r == word_start(line@, col),
{
    let c: usize = chars_before(line, col);
    let b: usize = word_begin(line, c);
    let ghost before = before_col(line@, col);
    assert(before == line@.take(c as int));
    assert(before.take(b as int) =~= line@.take(b as int));
    bytes_before(line, b)
}

/// The place of the first character from `from` on that is no part of a word.
pub open spec fn next_break(s: Seq<char>, from: int) -> int
    decreases s.len() - from,
{
    if from < 0 || from >= s.len() {
        from
    } else if !word_char(s[from]) {
        from
    } else {
        next_break(s, from + 1)
    }
}

pub fn word_end(l: &Vec<char>, from: usize) -> (r: usize)
    requires
        from <= l@.len(),
    ensures
        r as int == next_break(l@, from as int),
        from <= r <= l@.len(),
{
    let mut i: usize = from;
    while i < l.len()
        invariant
            from <= i <= l@.len(),
            next_break(l@, from as int) == next_break(l@, i as int),
        decreases l@.len() - i,
    {
        if !is_word_char(l[i]) {
            return i;
        }
        i += 1;
    }
    i
}

// ---------- white space ----------

/// The number of white characters at the start.
pub open spec fn leading(s: Seq<char>) -> int
    decreases s.len(),
{
    if s.len() == 0 || !white(s[0]) {
        0
    } else {
        1 + leading(s.drop_first())
    }
}

/// The length without the white characters at the end.
pub open spec fn trailing(s: Seq<char>) -> int
    decreases s.len(),
{
    if s.len() == 0 || !white(s.last()) {
        s.len() as int
    } else {
        trailing(s.drop_last())
    }
}

/// A text without the white space at its start.
pub open spec fn trimmed_start(s: Seq<char>) -> Seq<char> {
    s.skip(leading(s))
}

/// A text without the white space around it.
pub open spec fn trimmed(s: Seq<char>) -> Seq<char> {
    let t = trimmed_start(s);
    t.take(trailing(t))
}

proof fn lemma_leading(s: Seq<char>)
    ensures
        0 <= leading(s) <= s.len(),
    decreases s.len(),
{
    if s.len() > 0 && white(s[0]) {
        lemma_leading(s.drop_first());
    }
}

proof fn lemma_trailing(s: Seq<char>)
    ensures
        0 <= trailing(s) <= s.len(),
    decreases s.len(),
{
    if s.len() > 0 && white(s.last()) {
        lemma_trailing(s.drop_last());
    }
}

/// The place of the first character from `from` on that is not white.
pub fn skip_white(s: &Vec<char>, from: usize) -> (r: usize)
    requires
        from <= s@.len(),
    ensures
        r as int == from + leading(s@.skip(from as int)),
        from <= r <= s@.len(),
        s@.skip(r as int) == trimmed_start(s@.skip(from as int)),
{
    let ghost rest = s@.skip(from as int);
    let mut i: usize = from;
    assert(rest.skip(0) =~= rest);
    while i < s.len()
        invariant
            from <= i <= s@.len(),
            rest == s@.skip(from as int),
            leading(rest) == i - from + leading(s@.skip(i as int)),
        decreases s@.len() - i,
    {
        assert(s@.skip(i as int).drop_first() =~= s@.skip(i + 1));
        if !is_white(s[i]) {
            assert(s@.skip(i as int) =~= rest.skip(i - from));
            return i;
        }
        i += 1;
    }
    assert(s@.skip(i as int) =~= rest.skip(i - from));
    i
}

/// The text without the white space around it.
pub fn trim(s: &Vec<char>) -> (r: Vec<char>)
    ensures
        r@ == trimmed(s@),
{
    assert(s@.skip(0) =~= s@);
    let start: usize = skip_white(s, 0);
    let ghost t = trimmed_start(s@);
    let mut end: usize = s.len();
    assert(t.take(t.len() as int) =~= t);
    while end > start
        invariant
            start <= end <= s@.len(),
            t == s@.skip(start as int),
            t == trimmed_start(s@),
            trailing(t) == trailing(t.take(end - start)),
        decreases end,
    {
        let ghost here = t.take(end - start);
        assert(here.drop_last() =~= t.take(end - start - 1));
        assert(here.last() == s@[end - 1]);
        if !is_white(s[end - 1]) {
            assert(trailing(t) == end - start);
            let r = slice_of(s, start, end);
            assert(r@ =~= t.take(trailing(t)));
            return r;
        }
        end -= 1;
    }
    let r = slice_of(s, start, end);
    assert(r@ =~= t.take(trailing(t)));
    r
}

// ---------- prefixes ----------

/// Whether `s` has the characters of `p` from `from` on.
pub open spec fn has_at(s: Seq<char>, from: int, p: Seq<char>) -> bool {
    0 <= from && from + p.len() <= s.len() && s.subrange(from, from + p.len()) == p
}

/// Whether the characters of `p` stand from `from` on.
pub fn stands_at(s: &Vec<char>, from: usize, p: &str) -> (r: bool)
    requires
        from <= s@.len(),
    ensures
        r == has_at(s@, from as int, p@),
{
    let want = chars_of(p);
    if want.len() > s.len() - from {
        return false;
    }
    let mut i: usize = 0;
    while i < want.len()
        invariant
            i <= want@.len(),
            s@.len() <= usize::MAX,
            want@ == p@,
            from + want@.len() <= s@.len(),
            forall|k: int| 0 <= k < i ==> s@[from + k] == want@[k],
        decreases want@.len() - i,
    {
        if s[from + i] != want[i] {
            assert(s@.subrange(from as int, from + p@.len())[i as int] != p@[i as int]);
            return false;
        }
        i += 1;
    }
    assert(s@.subrange(from as int, from + p@.len()) =~= p@);
    true
}

/// Whether two rows have the same characters.
pub fn same_chars(a: &Vec<char>, b: &Vec<char>) -> (r: bool)
    ensures
        r == (a@ == b@),
{
    if a.len() != b.len() {
        return false;
    }
    let mut i: usize = 0;
    while i < a.len()
        invariant
            i <= a@.len(),
            a@.len() == b@.len(),
            forall|k: int| 0 <= k < i ==> a@[k] == b@[k],
        decreases a@.len() - i,
    {
        if a[i] != b[i] {
            return false;
        }
        i += 1;
    }
    assert(a@ =~= b@);
    true
}

/// The place of the first occurrence of `p`, if there is one.
pub open spec fn found_at(s: Seq<char>, p: Seq<char>, from: int) -> Option<int>
    decreases s.len() + 1 - from,
{
    if from < 0 || from > s.len() {
        None
    } else if has_at(s, from, p) {
        Some(from)
    } else {
        found_at(s, p, from + 1)
    }
}

pub fn find_text(s: &Vec<char>, p: &str) -> (r: Option<usize>)
    ensures
        r is Some <==> found_at(s@, p@, 0) is Some,
        r matches Some(i) ==> i <= s@.len() && found_at(s@, p@, 0) == Some(i as int),
{
    let mut i: usize = 0;
    while i < s.len()
        invariant
            i <= s@.len(),
            found_at(s@, p@, 0) == found_at(s@, p@, i as int),
        decreases s@.len() - i,
    {
        if stands_at(s, i, p) {
            return Some(i);
        }
        i += 1;
    }
    if stands_at(s, i, p) {
        return Some(i);
    }
    assert(found_at(s@, p@, i + 1) is None);
    None
}

/// Whether a character occurs.
pub fn has_char(s: &Vec<char>, c: char) -> (r: bool)
    ensures
        r == s@.contains(c),
{
    let mut i: usize = 0;
    while i < s.len()
        invariant
            i <= s@.len(),
            forall|k: int| 0 <= k < i ==> s@[k] != c,
        decreases s@.len() - i,
    {
        if s[i] == c {
            return true;
        }
        i += 1;
    }
    false
}

} // verus!
