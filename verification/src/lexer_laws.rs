//! What holds of the lexer on every text.

use crate::diagnostic::{DiagnosticView, Pos, Severity};
use crate::lexer::{
    ahead, among, applied, at, block_end, char_bytes, countable, eof, flushed, in_class, interp_end,
    is_keyword, lemma_char_bytes, lemma_encode_concat, lex_errors, lexed_from, no_parts,
    nothing_read, offsets_count_bytes, offsets_grow, pos_at, punct_at, scan, scan_ident,
    scan_moves_on, scan_number, scan_string, span, str_rest, tokens_of, CharClass, Lexed, PartView,
    StrAcc, StrEnd, TokenKind, TokenView, ValueView, KEYWORDS, THREE_CHAR_OPS, TWO_CHAR_OPS,
};
use vstd::prelude::*;
use vstd::utf8::encode_utf8;

verus! {

/// A list of tokens that covers, in order, stretches of the text between two
/// of its characters, without the end marker.
pub open spec fn in_order(chars: Seq<char>, tokens: Seq<TokenView>, upto: int) -> bool {
    &&& forall|k: int|
        0 <= k < tokens.len() ==> (#[trigger] tokens[k]).kind != TokenKind::Eof
            && tokens[k].start.offset < tokens[k].end.offset && tokens[k].end.offset <= pos_at(
            chars,
            upto,
        ).offset
    &&& forall|k: int, l: int|
        0 <= k < l < tokens.len() ==> (#[trigger] tokens[k]).end.offset <= (
        #[trigger] tokens[l]).start.offset
}

proof fn lemma_lexed_in_order(chars: Seq<char>, file: Seq<char>, st: Lexed)
    requires
        countable(chars),
        0 <= st.next <= chars.len(),
        in_order(chars, st.tokens, st.next),
    ensures
        lexed_from(chars, file, st).next == chars.len(),
        in_order(chars, lexed_from(chars, file, st).tokens, chars.len() as int),
    decreases chars.len() - st.next,
{
    if st.next < chars.len() {
        let sc = scan(chars, file, st.next);
        scan_moves_on(chars, file, st.next);
        let after = applied(st, sc);
        offsets_grow(chars, st.next, sc.next);
        assert forall|k: int| 0 <= k < after.tokens.len() implies (
        #[trigger] after.tokens[k]).kind != TokenKind::Eof && after.tokens[k].start.offset
            < after.tokens[k].end.offset && after.tokens[k].end.offset <= pos_at(
            chars,
            after.next,
        ).offset by {
            if k < st.tokens.len() {
                assert(after.tokens[k] == st.tokens[k]);
            } else {
                assert(after.tokens[k] == sc.tokens[0]);
            }
        }
        assert forall|k: int, l: int| 0 <= k < l < after.tokens.len() implies (
        #[trigger] after.tokens[k]).end.offset <= (#[trigger] after.tokens[l]).start.offset by {
            assert(after.tokens[k] == st.tokens[k]);
            if l < st.tokens.len() {
                assert(after.tokens[l] == st.tokens[l]);
            } else {
                assert(after.tokens[l] == sc.tokens[0]);
            }
        }
        lemma_lexed_in_order(chars, file, after);
    }
}

/// Every text ends in exactly one end marker, placed behind its last byte.
pub proof fn one_end_marker(chars: Seq<char>, file: Seq<char>)
    requires
        countable(chars),
    ensures
        ({
            let tokens = tokens_of(chars, file);
            &&& tokens.len() > 0
            &&& tokens.last().kind == TokenKind::Eof
            &&& tokens.last().start.offset == encode_utf8(chars).len()
            &&& forall|k: int|
                0 <= k < tokens.len() - 1 ==> (#[trigger] tokens[k]).kind != TokenKind::Eof
        }),
{
    lemma_lexed_in_order(chars, file, nothing_read());
    offsets_count_bytes(chars, chars.len() as int);
    assert(chars.take(chars.len() as int) =~= chars);
}

/// Tokens cover stretches of the text that do not overlap, in the order of the
/// text.
pub proof fn tokens_in_text_order(chars: Seq<char>, file: Seq<char>, k: int, l: int)
    requires
        countable(chars),
        0 <= k < l < tokens_of(chars, file).len(),
    ensures
        tokens_of(chars, file)[k].start.offset < tokens_of(chars, file)[k].end.offset,
        tokens_of(chars, file)[k].end.offset <= tokens_of(chars, file)[l].start.offset,
        tokens_of(chars, file)[l].end.offset <= encode_utf8(chars).len(),
{
    lemma_lexed_in_order(chars, file, nothing_read());
    offsets_count_bytes(chars, chars.len() as int);
    let read = lexed_from(chars, file, nothing_read()).tokens;
    assert(tokens_of(chars, file)[k] == read[k]);
    if l < read.len() {
        assert(tokens_of(chars, file)[l] == read[l]);
    }
}

/// A character that stands for itself inside a string quoted by `q`.
pub open spec fn plain_in(chars: Seq<char>, q: char, m: int) -> bool {
    &&& chars[m] != q
    &&& chars[m] != '\\'
    &&& chars[m] != '\n'
    &&& !(chars[m] == '$' && at(chars, m + 1) == Some('{'))
}

proof fn lemma_plain_rest(
    chars: Seq<char>,
    file: Seq<char>,
    start: int,
    q: char,
    j: int,
    k: int,
    acc: StrAcc,
)
    requires
        0 <= j <= k < chars.len(),
        chars[k] == q,
        forall|m: int| j <= m < k ==> #[trigger] plain_in(chars, q, m),
    ensures
        str_rest(chars, file, start, q, j, acc) == (StrEnd {
            next: k + 1,
            closed: true,
            acc: StrAcc { literal: acc.literal + chars.subrange(j, k), ..acc },
        }),
    decreases k - j,
{
    if j < k {
        assert(plain_in(chars, q, j));
        let acc1 = StrAcc { literal: acc.literal.push(chars[j]), ..acc };
        lemma_plain_rest(chars, file, start, q, j + 1, k, acc1);
        assert(acc1.literal + chars.subrange(j + 1, k) =~= acc.literal + chars.subrange(j, k));
    } else {
        assert(acc.literal + chars.subrange(j, k) =~= acc.literal);
    }
}

/// Text between quotes that needs no escapes lexes to one string token whose
/// value is that text, character for character.
pub proof fn plain_string_round_trips(s: Seq<char>, q: char, file: Seq<char>)
    requires
        q == '"' || q == '\'',
        countable(seq![q] + s + seq![q]),
        forall|m: int| 0 <= m < s.len() ==> #[trigger] plain_in(s, q, m),
    ensures
        ({
            let chars = seq![q] + s + seq![q];
            &&& lex_errors(chars, file) == Seq::<DiagnosticView>::empty()
            &&& tokens_of(chars, file) == seq![
                TokenView {
                    kind: TokenKind::Str,
                    text: chars,
                    start: pos_at(chars, 0),
                    end: pos_at(chars, chars.len() as int),
                    value: Some(ValueView::Str(s)),
                },
                eof(chars),
            ]
        }),
{
    let chars = seq![q] + s + seq![q];
    let k: int = s.len() as int + 1;
    assert forall|m: int| 1 <= m < k implies #[trigger] plain_in(chars, q, m) by {
        assert(plain_in(s, q, m - 1));
        assert(chars[m] == s[m - 1]);
        if m < s.len() {
            assert(chars[m + 1] == s[m]);
        } else {
            assert(chars[m + 1] == q);
        }
    }
    lemma_plain_rest(chars, file, 0, q, 1, k, no_parts());
    assert(chars.subrange(1, k) =~= s);
    assert(no_parts().literal + s =~= s);
    assert(chars.subrange(0, k + 1) =~= chars);
    let sc = scan(chars, file, 0);
    assert(sc == scan_string(chars, file, 0));
    let st = applied(nothing_read(), sc);
    assert(lexed_from(chars, file, st) == st);
    assert(lexed_from(chars, file, nothing_read()) == st);
    assert(st.diags =~= Seq::empty());
    assert(tokens_of(chars, file) =~= seq![sc.tokens[0], eof(chars)]);
}

/// A text that one step of the lexer reads to its end.
pub proof fn lemma_alone(chars: Seq<char>, file: Seq<char>)
    requires
        chars.len() > 0,
        scan(chars, file, 0).next == chars.len(),
    ensures
        tokens_of(chars, file) == scan(chars, file, 0).tokens.push(eof(chars)),
        lex_errors(chars, file) == scan(chars, file, 0).diags,
{
    let sc = scan(chars, file, 0);
    let st = applied(nothing_read(), sc);
    assert(lexed_from(chars, file, st) == st);
    assert(lexed_from(chars, file, nothing_read()) == st);
    assert(st.tokens =~= sc.tokens);
    assert(st.diags =~= sc.diags);
}

proof fn lemma_span_all(chars: Seq<char>, i: int, class: CharClass)
    requires
        0 <= i <= chars.len(),
        forall|m: int| i <= m < chars.len() ==> in_class(#[trigger] chars[m], class),
    ensures
        span(chars, i, class) == chars.len(),
    decreases chars.len() - i,
{
    if i < chars.len() {
        lemma_span_all(chars, i + 1, class);
    }
}

pub proof fn lemma_span_run(chars: Seq<char>, i: int, k: int, class: CharClass)
    requires
        0 <= i <= k <= chars.len(),
        forall|m: int| i <= m < k ==> in_class(#[trigger] chars[m], class),
        k < chars.len() ==> !in_class(chars[k], class),
    ensures
        span(chars, i, class) == k,
    decreases k - i,
{
    if i < k {
        lemma_span_run(chars, i + 1, k, class);
    }
}

// ---------- words ----------

pub open spec fn letter(c: char) -> bool {
    ('a' <= c && c <= 'z') || ('A' <= c && c <= 'Z') || c == '_'
}

pub open spec fn digit(c: char) -> bool {
    '0' <= c && c <= '9'
}

/// A word: a letter or underscore, then letters, underscores and digits.
pub open spec fn word(w: Seq<char>) -> bool {
    w.len() > 0 && letter(w[0]) && forall|m: int|
        0 <= m < w.len() ==> letter(#[trigger] w[m]) || digit(w[m])
}

/// Whether a text holds nothing but digits, and at least one.
pub open spec fn digits(w: Seq<char>) -> bool {
    w.len() > 0 && forall|m: int| 0 <= m < w.len() ==> digit(#[trigger] w[m])
}

/// Whether a text is a single token, read without complaint, and which: its
/// kind, the text it shows and the value it carries.
pub open spec fn lexes_to(
    chars: Seq<char>,
    file: Seq<char>,
    kind: TokenKind,
    text: Seq<char>,
    value: Option<ValueView>,
) -> bool {
    let tokens = tokens_of(chars, file);
    &&& lex_errors(chars, file).len() == 0
    &&& tokens.len() == 2
    &&& tokens[0].kind == kind
    &&& tokens[0].text == text
    &&& tokens[0].value == value
    &&& tokens[0].start == (Pos { offset: 0, line: 1, col: 1 })
    &&& tokens[1].kind == TokenKind::Eof
}

/// Whether a text holds nothing that becomes a token, and nothing to report.
pub open spec fn lexes_to_nothing(chars: Seq<char>, file: Seq<char>) -> bool {
    &&& lex_errors(chars, file).len() == 0
    &&& tokens_of(chars, file).len() == 1
    &&& tokens_of(chars, file)[0].kind == TokenKind::Eof
}

/// A word lexes to one token that holds it: a keyword exactly when it is one
/// of the keywords, an identifier otherwise.
pub proof fn word_is_one_token(w: Seq<char>, file: Seq<char>)
    requires
        word(w),
    ensures
        lex_errors(w, file) == Seq::<DiagnosticView>::empty(),
        lexes_to(
            w,
            file,
            if is_keyword(w) {
                TokenKind::Kw
            } else {
                TokenKind::Ident
            },
            w,
            None,
        ),
{
    assert forall|m: int| 0 <= m < w.len() implies in_class(#[trigger] w[m], CharClass::IdentCont) by {
        assert(letter(w[m]) || digit(w[m]));
    }
    lemma_span_run(w, 0, w.len() as int, CharClass::IdentCont);
    assert(w.subrange(0, w.len() as int) =~= w);
    assert(scan(w, file, 0) == scan_ident(w, 0));
    lemma_alone(w, file);
    assert(lex_errors(w, file) =~= Seq::<DiagnosticView>::empty());
}

/// The keywords are these words and no others.
pub proof fn keywords_are_these(w: Seq<char>)
    ensures
        is_keyword(w) <==> (w == "var"@ || w == "array"@ || w == "buffer"@ || w == "chip"@ || w
            == "callback"@ || w == "fn"@ || w == "on"@ || w == "in"@ || w == "out"@ || w == "emit"@
            || w == "let"@ || w == "if"@ || w == "else"@ || w == "then"@ || w == "match"@ || w
            == "return"@ || w == "true"@ || w == "false"@ || w == "ref"@ || w == "open"@ || w
            == "mod"@ || w == "import"@ || w == "from"@ || w == "as"@ || w == "static"@ || w
            == "type"@ || w == "await"@),
{
    let k = KEYWORDS@;
    assert(k[0]@ == "var"@ && k[1]@ == "array"@ && k[2]@ == "buffer"@ && k[3]@ == "chip"@);
    assert(k[4]@ == "callback"@ && k[5]@ == "fn"@ && k[6]@ == "on"@ && k[7]@ == "in"@);
    assert(k[8]@ == "out"@ && k[9]@ == "emit"@ && k[10]@ == "let"@ && k[11]@ == "if"@);
    assert(k[12]@ == "else"@ && k[13]@ == "then"@ && k[14]@ == "match"@ && k[15]@ == "return"@);
    assert(k[16]@ == "true"@ && k[17]@ == "false"@ && k[18]@ == "ref"@ && k[19]@ == "open"@);
    assert(k[20]@ == "mod"@ && k[21]@ == "import"@ && k[22]@ == "from"@ && k[23]@ == "as"@);
    assert(k[24]@ == "static"@ && k[25]@ == "type"@ && k[26]@ == "await"@);
}

// ---------- numbers ----------

/// Digits alone are an integer.
pub proof fn digits_are_an_int(a: Seq<char>, file: Seq<char>)
    requires
        digits(a),
    ensures
        lexes_to(a, file, TokenKind::Int, a, None),
{
    let n = a.len() as int;
    assert(digit(a[0]));
    if n > 1 {
        assert(digit(a[1]));
    }
    lemma_span_all(a, 0, CharClass::DigitOrGap);
    assert(a.subrange(0, n) =~= a);
    assert(scan(a, file, 0) == scan_number(a, 0));
    lemma_alone(a, file);
}

/// Underscores may stand between the digits of an integer, which is one token.
pub proof fn gaps_stay_in_the_number(a: Seq<char>, file: Seq<char>)
    requires
        a.len() > 0,
        digit(a[0]),
        forall|m: int| 0 <= m < a.len() ==> digit(#[trigger] a[m]) || a[m] == '_',
    ensures
        lexes_to(a, file, TokenKind::Int, a, None),
{
    let n = a.len() as int;
    if n > 1 {
        assert(digit(a[1]) || a[1] == '_');
    }
    lemma_span_run(a, 0, n, CharClass::DigitOrGap);
    assert(a.subrange(0, n) =~= a);
    assert(scan(a, file, 0) == scan_number(a, 0));
    lemma_alone(a, file);
}

/// Digits, a dot and digits are one number with a fraction.
pub proof fn decimal_is_a_float(a: Seq<char>, b: Seq<char>, file: Seq<char>)
    requires
        digits(a),
        digits(b),
    ensures
        lexes_to(a + "."@ + b, file, TokenKind::Float, a + "."@ + b, None),
{
    reveal_strlit(".");
    let chars = a + "."@ + b;
    let n = chars.len() as int;
    let k = a.len() as int;
    assert(chars[k] == '.');
    assert forall|m: int| 0 <= m < n && m != k implies digit(#[trigger] chars[m]) by {
        if m < k {
            assert(chars[m] == a[m]);
        } else {
            assert(chars[m] == b[m - k - 1]);
        }
    }
    assert(digit(chars[0]) && digit(chars[k + 1]));
    if k > 1 {
        assert(digit(chars[1]));
    }
    lemma_span_run(chars, 0, k, CharClass::DigitOrGap);
    lemma_span_run(chars, k + 1, n, CharClass::DigitOrGap);
    assert(chars.subrange(0, n) =~= chars);
    assert(scan(chars, file, 0) == scan_number(chars, 0));
    lemma_alone(chars, file);
}

/// Digits, a mark for an exponent, perhaps a sign, and digits are one number.
pub proof fn exponent_is_a_float(
    a: Seq<char>,
    mark: char,
    sign: Seq<char>,
    b: Seq<char>,
    file: Seq<char>,
)
    requires
        digits(a),
        digits(b),
        mark == 'e' || mark == 'E',
        sign == ""@ || sign == "+"@ || sign == "-"@,
    ensures
        lexes_to(
            a + seq![mark] + sign + b,
            file,
            TokenKind::Float,
            a + seq![mark] + sign + b,
            None,
        ),
{
    reveal_strlit("");
    reveal_strlit("+");
    reveal_strlit("-");
    let chars = a + seq![mark] + sign + b;
    let n = chars.len() as int;
    let k = a.len() as int;
    let f = k + 1 + sign.len() as int;
    assert(chars[k] == mark);
    assert forall|m: int| 0 <= m < k || f <= m < n implies digit(#[trigger] chars[m]) by {
        if m < k {
            assert(chars[m] == a[m]);
        } else {
            assert(chars[m] == b[m - f]);
        }
    }
    if sign.len() > 0 {
        assert(chars[k + 1] == sign[0]);
    } else {
        assert(digit(chars[k + 1]));
    }
    assert(digit(chars[0]));
    if k > 1 {
        assert(digit(chars[1]));
    }
    lemma_span_run(chars, 0, k, CharClass::DigitOrGap);
    lemma_span_run(chars, f, n, CharClass::Digit);
    assert(chars.subrange(0, n) =~= chars);
    assert(scan(chars, file, 0) == scan_number(chars, 0));
    lemma_alone(chars, file);
}

/// A number may have both a fraction and an exponent.
pub proof fn fraction_and_exponent_are_one_float(
    a: Seq<char>,
    b: Seq<char>,
    d: Seq<char>,
    file: Seq<char>,
)
    requires
        digits(a),
        digits(b),
        digits(d),
    ensures
        lexes_to(a + "."@ + b + "e"@ + d, file, TokenKind::Float, a + "."@ + b + "e"@ + d, None),
{
    reveal_strlit(".");
    reveal_strlit("e");
    let chars = a + "."@ + b + "e"@ + d;
    let n = chars.len() as int;
    let k = a.len() as int;
    let f = k + 1 + b.len() as int;
    assert(chars[k] == '.' && chars[f] == 'e');
    assert forall|m: int| 0 <= m < n && m != k && m != f implies digit(#[trigger] chars[m]) by {
        if m < k {
            assert(chars[m] == a[m]);
        } else if m < f {
            assert(chars[m] == b[m - k - 1]);
        } else {
            assert(chars[m] == d[m - f - 1]);
        }
    }
    assert(digit(chars[0]) && digit(chars[k + 1]) && digit(chars[f + 1]));
    if k > 1 {
        assert(digit(chars[1]));
    }
    lemma_span_run(chars, 0, k, CharClass::DigitOrGap);
    lemma_span_run(chars, k + 1, f, CharClass::DigitOrGap);
    lemma_span_run(chars, f + 1, n, CharClass::Digit);
    assert(chars.subrange(0, n) =~= chars);
    assert(scan(chars, file, 0) == scan_number(chars, 0));
    lemma_alone(chars, file);
}

/// Numbers may be written in hexadecimal, binary and octal digits.
pub proof fn other_bases_are_ints(mark: char, d: Seq<char>, file: Seq<char>)
    requires
        d.len() > 0,
        mark == 'x' || mark == 'X' || mark == 'b' || mark == 'B' || mark == 'o' || mark == 'O',
        forall|m: int|
            0 <= m < d.len() ==> if mark == 'x' || mark == 'X' {
                digit(#[trigger] d[m]) || ('a' <= d[m] && d[m] <= 'f') || ('A' <= d[m] && d[m]
                    <= 'F') || d[m] == '_'
            } else if mark == 'b' || mark == 'B' {
                d[m] == '0' || d[m] == '1' || d[m] == '_'
            } else {
                ('0' <= d[m] && d[m] <= '7') || d[m] == '_'
            },
    ensures
        lexes_to("0"@ + seq![mark] + d, file, TokenKind::Int, "0"@ + seq![mark] + d, None),
{
    reveal_strlit("0");
    let chars = "0"@ + seq![mark] + d;
    let n = chars.len() as int;
    assert(chars[0] == '0' && chars[1] == mark);
    assert forall|m: int| 2 <= m < n implies chars[m] == #[trigger] d[m - 2] by {}
    let class = if mark == 'x' || mark == 'X' {
        CharClass::HexOrGap
    } else if mark == 'b' || mark == 'B' {
        CharClass::BinOrGap
    } else {
        CharClass::OctOrGap
    };
    assert forall|m: int| 2 <= m < n implies in_class(#[trigger] chars[m], class) by {
        assert(chars[m] == d[m - 2]);
    }
    lemma_span_run(chars, 2, n, class);
    assert(chars.subrange(0, n) =~= chars);
    assert(scan(chars, file, 0) == scan_number(chars, 0));
    lemma_alone(chars, file);
}

// ---------- what becomes no token ----------

proof fn lemma_blank(chars: Seq<char>, file: Seq<char>, st: Lexed)
    requires
        0 <= st.next <= chars.len(),
        forall|m: int|
            0 <= m < chars.len() ==> #[trigger] chars[m] == ' ' || chars[m] == '\t' || chars[m]
                == '\r',
    ensures
        lexed_from(chars, file, st).tokens == st.tokens,
        lexed_from(chars, file, st).diags == st.diags,
    decreases chars.len() - st.next,
{
    if st.next < chars.len() {
        let sc = scan(chars, file, st.next);
        assert(chars[st.next] == ' ' || chars[st.next] == '\t' || chars[st.next] == '\r');
        assert(sc.next == st.next + 1);
        let after = applied(st, sc);
        assert(after.tokens =~= st.tokens && after.diags =~= st.diags);
        lemma_blank(chars, file, after);
    }
}

/// Spaces, tabs and carriage returns are skipped.
pub proof fn blanks_are_skipped(chars: Seq<char>, file: Seq<char>)
    requires
        forall|m: int|
            0 <= m < chars.len() ==> #[trigger] chars[m] == ' ' || chars[m] == '\t' || chars[m]
                == '\r',
    ensures
        lexes_to_nothing(chars, file),
{
    lemma_blank(chars, file, nothing_read());
}

/// A comment up to the end of its line is skipped.
pub proof fn line_comments_are_skipped(s: Seq<char>, file: Seq<char>)
    requires
        forall|m: int| 0 <= m < s.len() ==> #[trigger] s[m] != '\n',
        s.len() > 0 ==> s[0] != '/',
    ensures
        lexes_to_nothing("//"@ + s, file),
{
    reveal_strlit("//");
    let chars = "//"@ + s;
    assert(chars[0] == '/' && chars[1] == '/');
    assert forall|m: int| 0 <= m < chars.len() implies in_class(
        #[trigger] chars[m],
        CharClass::NotNewline,
    ) by {
        if m >= 2 {
            assert(chars[m] == s[m - 2]);
        }
    }
    if s.len() > 0 {
        assert(chars[2] == s[0]);
    }
    lemma_span_run(chars, 0, chars.len() as int, CharClass::NotNewline);
    lemma_alone(chars, file);
}

/// A doc comment is one token that shows the comment without its mark and the
/// space behind the mark.
pub proof fn doc_comments_are_kept(s: Seq<char>, file: Seq<char>)
    requires
        forall|m: int| 0 <= m < s.len() ==> #[trigger] s[m] != '\n',
    ensures
        lexes_to("/// "@ + s, file, TokenKind::DocComment, s, None),
        (s.len() == 0 || s[0] != ' ') ==> lexes_to(
            "///"@ + s,
            file,
            TokenKind::DocComment,
            s,
            None,
        ),
{
    reveal_strlit("/// ");
    reveal_strlit("///");
    let a = "/// "@ + s;
    let b = "///"@ + s;
    assert(a[0] == '/' && a[1] == '/' && a[2] == '/' && a[3] == ' ');
    assert(b[0] == '/' && b[1] == '/' && b[2] == '/');
    assert forall|m: int| 4 <= m < a.len() implies in_class(#[trigger] a[m], CharClass::NotNewline) by {
        assert(a[m] == s[m - 4]);
    }
    assert forall|m: int| 3 <= m < b.len() implies in_class(#[trigger] b[m], CharClass::NotNewline) by {
        assert(b[m] == s[m - 3]);
    }
    lemma_span_run(a, 4, a.len() as int, CharClass::NotNewline);
    lemma_span_run(b, 3, b.len() as int, CharClass::NotNewline);
    assert(a.subrange(4, a.len() as int) =~= s);
    assert(b.subrange(3, b.len() as int) =~= s);
    lemma_alone(a, file);
    if s.len() > 0 {
        assert(b[3] == s[0]);
    }
    if s.len() == 0 || s[0] != ' ' {
        assert(scan(b, file, 0).next == b.len());
        lemma_alone(b, file);
    }
}

proof fn lemma_block_run(chars: Seq<char>, j: int, k: int, depth: nat)
    requires
        0 <= j <= k <= chars.len(),
        depth > 0,
        forall|m: int| j <= m < k ==> #[trigger] chars[m] != '/' && chars[m] != '*',
    ensures
        block_end(chars, j, depth) == block_end(chars, k, depth),
    decreases k - j,
{
    if j < k {
        assert(chars[j] != '/' && chars[j] != '*');
        lemma_block_run(chars, j + 1, k, depth);
    }
}

/// Whether a text holds no mark of a block comment.
pub open spec fn no_marks(s: Seq<char>) -> bool {
    forall|m: int| 0 <= m < s.len() ==> #[trigger] s[m] != '/' && s[m] != '*'
}

/// A block comment is skipped, with the comments nested in it.
pub proof fn block_comments_nest(a: Seq<char>, b: Seq<char>, c: Seq<char>, file: Seq<char>)
    requires
        no_marks(a),
        no_marks(b),
        no_marks(c),
    ensures
        lexes_to_nothing("/*"@ + a + "*/"@, file),
        lexes_to_nothing("/*"@ + a + "/*"@ + b + "*/"@ + c + "*/"@, file),
{
    reveal_strlit("/*");
    reveal_strlit("*/");
    let x = "/*"@ + a + "*/"@;
    let k = 2 + a.len() as int;
    assert(x[0] == '/' && x[1] == '*' && x[k] == '*' && x[k + 1] == '/');
    assert forall|m: int| 2 <= m < k implies #[trigger] x[m] != '/' && x[m] != '*' by {
        assert(x[m] == a[m - 2]);
    }
    lemma_block_run(x, 2, k, 1);
    assert(block_end(x, k, 1) == block_end(x, k + 2, 0));
    assert(scan(x, file, 0).next == x.len());
    lemma_alone(x, file);
    let y = "/*"@ + a + "/*"@ + b + "*/"@ + c + "*/"@;
    let l = k + 2 + b.len() as int;
    let n = l + 2 + c.len() as int;
    assert(y[0] == '/' && y[1] == '*' && y[k] == '/' && y[k + 1] == '*');
    assert(y[l] == '*' && y[l + 1] == '/' && y[n] == '*' && y[n + 1] == '/');
    assert forall|m: int| 2 <= m < k implies #[trigger] y[m] != '/' && y[m] != '*' by {
        assert(y[m] == a[m - 2]);
    }
    assert forall|m: int| k + 2 <= m < l implies #[trigger] y[m] != '/' && y[m] != '*' by {
        assert(y[m] == b[m - k - 2]);
    }
    assert forall|m: int| l + 2 <= m < n implies #[trigger] y[m] != '/' && y[m] != '*' by {
        assert(y[m] == c[m - l - 2]);
    }
    lemma_block_run(y, 2, k, 1);
    assert(block_end(y, k, 1) == block_end(y, k + 2, 2));
    lemma_block_run(y, k + 2, l, 2);
    assert(block_end(y, l, 2) == block_end(y, l + 2, 1));
    lemma_block_run(y, l + 2, n, 1);
    assert(block_end(y, n, 1) == block_end(y, n + 2, 0));
    assert(scan(y, file, 0).next == y.len());
    lemma_alone(y, file);
}

/// A block comment that is not closed is reported.
pub proof fn open_block_comments_are_reported(a: Seq<char>, file: Seq<char>)
    requires
        no_marks(a),
    ensures
        tokens_of("/*"@ + a, file).len() == 1,
        lex_errors("/*"@ + a, file).len() == 1,
        lex_errors("/*"@ + a, file)[0].message == "unterminated block comment"@,
        lex_errors("/*"@ + a, file)[0].code == "WSP001"@,
        lex_errors("/*"@ + a, file)[0].severity == Severity::Error,
{
    reveal_strlit("/*");
    let x = "/*"@ + a;
    assert(x[0] == '/' && x[1] == '*');
    assert forall|m: int| 2 <= m < x.len() implies #[trigger] x[m] != '/' && x[m] != '*' by {
        assert(x[m] == a[m - 2]);
    }
    lemma_block_run(x, 2, x.len() as int, 1);
    assert(scan(x, file, 0).next == x.len());
    lemma_alone(x, file);
}

// ---------- punctuation ----------

/// A line break is a token.
pub proof fn line_breaks_are_tokens(file: Seq<char>)
    ensures
        lexes_to(seq!['\n'], file, TokenKind::Newline, seq!['\n'], None),
{
    let chars = seq!['\n'];
    assert(chars.subrange(0, 1) =~= chars);
    lemma_alone(chars, file);
}

proof fn lemma_punct(chars: Seq<char>, file: Seq<char>)
    requires
        1 <= chars.len() <= 3,
        punct_at(chars, 0) matches Some(p) && p.1 == chars.len(),
        chars[0] != ' ' && chars[0] != '\t' && chars[0] != '\r' && chars[0] != '\n' && chars[0] != '"'
            && chars[0] != '\'' && !digit(chars[0]) && !letter(chars[0]) && chars[0] != '@',
        chars[0] == '/' ==> chars.len() == 1 || chars[1] == '=',
        chars[0] == '$' ==> chars.len() == 1,
    ensures
        lexes_to(chars, file, (punct_at(chars, 0)->0).0, chars, None),
{
    assert(chars.subrange(0, chars.len() as int) =~= chars);
    lemma_alone(chars, file);
}

pub open spec fn single_kind(c: char) -> Option<TokenKind> {
    match c {
        '(' => Some(TokenKind::LParen),
        ')' => Some(TokenKind::RParen),
        '{' => Some(TokenKind::LBrace),
        '}' => Some(TokenKind::RBrace),
        '[' => Some(TokenKind::LBracket),
        ']' => Some(TokenKind::RBracket),
        ',' => Some(TokenKind::Comma),
        ';' => Some(TokenKind::Semi),
        ':' => Some(TokenKind::Colon),
        '.' => Some(TokenKind::Dot),
        '?' => Some(TokenKind::Question),
        '$' => Some(TokenKind::Dollar),
        '&' | '|' | '^' | '~' | '+' | '-' | '*' | '/' | '%' | '=' | '<' | '>' | '!' => Some(
            TokenKind::Op,
        ),
        _ => None,
    }
}

/// Each mark of one character is a token of its own kind.
pub proof fn marks_are_tokens(c: char, file: Seq<char>)
    requires
        single_kind(c) is Some,
    ensures
        lexes_to(seq![c], file, single_kind(c)->0, seq![c], None),
{
    let chars = seq![c];
    lemma_not_listed(chars);
    lemma_punct(chars, file);
}

pub proof fn lemma_not_listed(chars: Seq<char>)
    requires
        chars.len() == 1,
    ensures
        punct_at(chars, 0) == match single_kind(chars[0]) {
            Some(kind) => Some((kind, 1int)),
            None => None,
        },
{
    reveal_strlit("->");
    reveal_strlit("=>");
    assert("->"@.len() == 2 && "=>"@.len() == 2);
    assert(ahead(chars, 0, 2).len() == 0 && ahead(chars, 0, 3).len() == 0);
    lemma_op_lengths(ahead(chars, 0, 2));
    lemma_op_lengths(ahead(chars, 0, 3));
}

/// Operators have two or three characters.
proof fn lemma_op_lengths(t: Seq<char>)
    ensures
        among(TWO_CHAR_OPS@, t) ==> t.len() == 2,
        among(THREE_CHAR_OPS@, t) ==> t.len() == 3,
{
    reveal_op_texts();
}

proof fn reveal_op_texts()
    ensures
        forall|i: int| 0 <= i < 19 ==> (#[trigger] TWO_CHAR_OPS@[i])@.len() == 2,
        forall|i: int| 0 <= i < 3 ==> (#[trigger] THREE_CHAR_OPS@[i])@.len() == 3,
{
    reveal_strlit("&&");
    reveal_strlit("||");
    reveal_strlit("^^");
    reveal_strlit("==");
    reveal_strlit("!=");
    reveal_strlit("<=");
    reveal_strlit(">=");
    reveal_strlit("<<");
    reveal_strlit(">>");
    reveal_strlit("**");
    reveal_strlit("..");
    reveal_strlit("+=");
    reveal_strlit("-=");
    reveal_strlit("*=");
    reveal_strlit("/=");
    reveal_strlit("%=");
    reveal_strlit("&=");
    reveal_strlit("|=");
    reveal_strlit("^=");
    reveal_strlit("...");
    reveal_strlit("<<=");
    reveal_strlit(">>=");
}

/// Whether a text is an operator of two characters.
pub open spec fn two_char_op(t: Seq<char>) -> bool {
    t == "&&"@ || t == "||"@ || t == "^^"@ || t == "=="@ || t == "!="@ || t == "<="@ || t == ">="@
        || t == "<<"@ || t == ">>"@ || t == "**"@ || t == ".."@ || t == "+="@ || t == "-="@ || t
        == "*="@ || t == "/="@ || t == "%="@ || t == "&="@ || t == "|="@ || t == "^="@
}

/// Whether a text is an operator of three characters.
pub open spec fn three_char_op(t: Seq<char>) -> bool {
    t == "..."@ || t == "<<="@ || t == ">>="@
}

proof fn lemma_op_lists(t: Seq<char>)
    ensures
        two_char_op(t) <==> among(TWO_CHAR_OPS@, t),
        three_char_op(t) <==> among(THREE_CHAR_OPS@, t),
{
    let k = TWO_CHAR_OPS@;
    assert(k[0]@ == "&&"@ && k[1]@ == "||"@ && k[2]@ == "^^"@ && k[3]@ == "=="@ && k[4]@ == "!="@);
    assert(k[5]@ == "<="@ && k[6]@ == ">="@ && k[7]@ == "<<"@ && k[8]@ == ">>"@ && k[9]@ == "**"@);
    assert(k[10]@ == ".."@ && k[11]@ == "+="@ && k[12]@ == "-="@ && k[13]@ == "*="@);
    assert(k[14]@ == "/="@ && k[15]@ == "%="@ && k[16]@ == "&="@ && k[17]@ == "|="@);
    assert(k[18]@ == "^="@);
    let m = THREE_CHAR_OPS@;
    assert(m[0]@ == "..."@ && m[1]@ == "<<="@ && m[2]@ == ">>="@);
}

/// The longest operator is taken: each of these texts is one token.
pub proof fn operators_are_tokens(t: Seq<char>, file: Seq<char>)
    ensures
        two_char_op(t) || three_char_op(t) ==> lexes_to(t, file, TokenKind::Op, t, None),
        t == "->"@ ==> lexes_to(t, file, TokenKind::Arrow, t, None),
        t == "=>"@ ==> lexes_to(t, file, TokenKind::FatArrow, t, None),
{
    reveal_strlit("->");
    reveal_strlit("=>");
    reveal_strlit("&&");
    reveal_strlit("||");
    reveal_strlit("^^");
    reveal_strlit("==");
    reveal_strlit("!=");
    reveal_strlit("<=");
    reveal_strlit(">=");
    reveal_strlit("<<");
    reveal_strlit(">>");
    reveal_strlit("**");
    reveal_strlit("..");
    reveal_strlit("+=");
    reveal_strlit("-=");
    reveal_strlit("*=");
    reveal_strlit("/=");
    reveal_strlit("%=");
    reveal_strlit("&=");
    reveal_strlit("|=");
    reveal_strlit("^=");
    reveal_strlit("...");
    reveal_strlit("<<=");
    reveal_strlit(">>=");
    if two_char_op(t) || three_char_op(t) || t == "->"@ || t == "=>"@ {
        assert(ahead(t, 0, t.len() as int) =~= t);
        lemma_op_lists(t);
        if t.len() == 2 {
            lemma_op_lengths(ahead(t, 0, 3));
        } else {
            assert(ahead(t, 0, 2) != "->"@) by {
                assert(ahead(t, 0, 2)[0] == t[0]);
                assert("->"@[0] == '-');
            }
            assert(ahead(t, 0, 2) != "=>"@) by {
                assert(ahead(t, 0, 2)[0] == t[0]);
                assert("=>"@[0] == '=');
            }
        }
        lemma_punct(t, file);
    }
}

// ---------- references and annotations ----------

/// A reference is one token that carries the path behind its mark.
pub proof fn references_carry_their_path(path: Seq<char>, file: Seq<char>)
    requires
        path.len() > 0,
        letter(path[0]) || path[0] == '.' || path[0] == '/',
        forall|m: int|
            0 <= m < path.len() ==> letter(#[trigger] path[m]) || digit(path[m]) || path[m] == '/'
                || path[m] == '.' || path[m] == '-',
    ensures
        lexes_to("$"@ + path, file, TokenKind::AssetRef, "$"@ + path, Some(ValueView::Str(path))),
{
    reveal_strlit("$");
    let chars = "$"@ + path;
    let n = chars.len() as int;
    assert(chars[0] == '$' && chars[1] == path[0]);
    assert forall|m: int| 1 <= m < n implies in_class(#[trigger] chars[m], CharClass::Path) by {
        assert(chars[m] == path[m - 1]);
        assert(letter(path[m - 1]) || digit(path[m - 1]) || path[m - 1] == '/' || path[m - 1]
            == '.' || path[m - 1] == '-');
    }
    lemma_span_run(chars, 1, n, CharClass::Path);
    assert(chars.subrange(0, n) =~= chars);
    assert(chars.subrange(1, n) =~= path);
    lemma_alone(chars, file);
}

/// An annotation is one token that shows the word behind its mark.
pub proof fn annotations_show_their_word(w: Seq<char>, file: Seq<char>)
    requires
        word(w),
    ensures
        lexes_to("@"@ + w, file, TokenKind::Annotation, w, None),
{
    reveal_strlit("@");
    let chars = "@"@ + w;
    let n = chars.len() as int;
    assert(chars[0] == '@' && chars[1] == w[0]);
    assert forall|m: int| 1 <= m < n implies in_class(#[trigger] chars[m], CharClass::IdentCont) by {
        assert(chars[m] == w[m - 1]);
        assert(letter(w[m - 1]) || digit(w[m - 1]));
    }
    lemma_span_run(chars, 1, n, CharClass::IdentCont);
    assert(chars.subrange(1, n) =~= w);
    lemma_alone(chars, file);
}

// ---------- strings ----------

/// How a character is written inside a string quoted by `q`.
pub open spec fn written(c: char, q: char) -> Seq<char> {
    if c == '\n' {
        "\\n"@
    } else if c == '\t' {
        "\\t"@
    } else if c == '\\' {
        "\\\\"@
    } else if c == '$' {
        "\\$"@
    } else if c == q {
        "\\"@ + seq![q]
    } else if q == '"' && c == '\r' {
        "\\r"@
    } else if q == '"' && c == '\0' {
        "\\0"@
    } else {
        seq![c]
    }
}

/// How a text is written inside a string quoted by `q`.
pub open spec fn escaped(s: Seq<char>, q: char) -> Seq<char>
    decreases s.len(),
{
    if s.len() == 0 {
        Seq::empty()
    } else {
        written(s[0], q) + escaped(s.drop_first(), q)
    }
}

proof fn lemma_escaped_rest(
    chars: Seq<char>,
    file: Seq<char>,
    start: int,
    q: char,
    j: int,
    s: Seq<char>,
    acc: StrAcc,
)
    requires
        q == '"' || q == '\'',
        0 <= j <= chars.len(),
        chars.skip(j) == escaped(s, q) + seq![q],
    ensures
        str_rest(chars, file, start, q, j, acc) == (StrEnd {
            next: chars.len() as int,
            closed: true,
            acc: StrAcc { literal: acc.literal + s, ..acc },
        }),
    decreases s.len(),
{
    let rest = chars.skip(j);
    if s.len() == 0 {
        assert(rest.len() == 1 && rest[0] == q);
        assert(chars[j] == rest[0]);
        assert(acc.literal + s =~= acc.literal);
    } else {
        reveal_strlit("\\n");
        reveal_strlit("\\t");
        reveal_strlit("\\\\");
        reveal_strlit("\\$");
        reveal_strlit("\\r");
        reveal_strlit("\\0");
        reveal_strlit("\\");
        let c = s[0];
        let w = written(c, q);
        let k = w.len() as int;
        let tail = escaped(s.drop_first(), q) + seq![q];
        assert(rest == w + escaped(s.drop_first(), q) + seq![q]);
        assert(rest =~= w + tail);
        assert(chars.skip(j + k) =~= tail) by {
            assert forall|m: int| 0 <= m < tail.len() implies chars.skip(j + k)[m] == tail[m] by {
                assert(rest[k + m] == tail[m]);
            }
        }
        assert(chars[j] == rest[0] && rest[0] == w[0]);
        if k == 2 {
            assert(chars[j + 1] == rest[1] && rest[1] == w[1]);
        }
        let acc1 = StrAcc { literal: acc.literal.push(c), ..acc };
        lemma_escaped_rest(chars, file, start, q, j + k, s.drop_first(), acc1);
        assert(acc1.literal + s.drop_first() =~= acc.literal + s);
    }
}

/// What is written into a string comes out of it: a text with every special
/// character escaped lexes to one string token whose value is that text.
pub proof fn escaped_string_round_trips(s: Seq<char>, q: char, file: Seq<char>)
    requires
        q == '"' || q == '\'',
    ensures
        ({
            let chars = seq![q] + escaped(s, q) + seq![q];
            lexes_to(chars, file, TokenKind::Str, chars, Some(ValueView::Str(s)))
        }),
{
    let chars = seq![q] + escaped(s, q) + seq![q];
    assert(chars.skip(1) =~= escaped(s, q) + seq![q]);
    lemma_escaped_rest(chars, file, 0, q, 1, s, no_parts());
    assert(no_parts().literal + s =~= s);
    assert(chars.subrange(0, chars.len() as int) =~= chars);
    assert(scan(chars, file, 0) == scan_string(chars, file, 0));
    lemma_alone(chars, file);
}

/// An escape that stands for nothing is reported in a double-quoted string and
/// dropped; in a single-quoted one it stays as it is written.
pub proof fn unknown_escapes(c: char, file: Seq<char>)
    requires
        c != 'n' && c != 't' && c != '\\' && c != '$' && c != '"' && c != '\'',
    ensures
        c != 'r' && c != '0' ==> ({
            let chars = seq!['"', '\\', c, '"'];
            &&& tokens_of(chars, file).len() == 2
            &&& tokens_of(chars, file)[0].value == Some(ValueView::Str(Seq::empty()))
            &&& lex_errors(chars, file).len() == 1
            &&& lex_errors(chars, file)[0].message == "unknown string escape '\\"@ + seq![c] + "'"@
        }),
        ({
            let chars = seq!['\'', '\\', c, '\''];
            lexes_to(chars, file, TokenKind::Str, chars, Some(ValueView::Str(seq!['\\', c])))
        }),
{
    let a = seq!['"', '\\', c, '"'];
    let b = seq!['\'', '\\', c, '\''];
    reveal_with_fuel(str_rest, 3);
    if c != 'r' && c != '0' {
        assert(scan(a, file, 0).next == 4);
        lemma_alone(a, file);
    }
    assert(Seq::<char>::empty().push('\\').push(c) =~= seq!['\\', c]);
    assert(b.subrange(0, 4) =~= b);
    assert(scan(b, file, 0).next == 4);
    lemma_alone(b, file);
}

pub proof fn lemma_plain_run(
    chars: Seq<char>,
    file: Seq<char>,
    start: int,
    q: char,
    j: int,
    k: int,
    acc: StrAcc,
)
    requires
        0 <= j <= k <= chars.len(),
        forall|m: int| j <= m < k ==> #[trigger] plain_in(chars, q, m),
    ensures
        str_rest(chars, file, start, q, j, acc) == str_rest(
            chars,
            file,
            start,
            q,
            k,
            StrAcc { literal: acc.literal + chars.subrange(j, k), ..acc },
        ),
    decreases k - j,
{
    if j < k {
        assert(plain_in(chars, q, j));
        let acc1 = StrAcc { literal: acc.literal.push(chars[j]), ..acc };
        lemma_plain_run(chars, file, start, q, j + 1, k, acc1);
        assert(acc1.literal + chars.subrange(j + 1, k) =~= acc.literal + chars.subrange(j, k));
    } else {
        assert(acc.literal + chars.subrange(j, k) =~= acc.literal);
    }
}

/// Whether every character stands for itself inside any string.
pub open spec fn plain_text(s: Seq<char>) -> bool {
    forall|m: int|
        0 <= m < s.len() ==> #[trigger] s[m] != '"' && s[m] != '\'' && s[m] != '\\' && s[m] != '\n'
            && s[m] != '$'
}

/// A string that is not closed becomes no token, and is reported.
pub proof fn open_strings_are_reported(s: Seq<char>, q: char, file: Seq<char>)
    requires
        q == '"' || q == '\'',
        plain_text(s),
    ensures
        tokens_of(seq![q] + s, file).len() == 1,
        lex_errors(seq![q] + s, file).len() == 1,
        lex_errors(seq![q] + s, file)[0].message == "unterminated string at end of file"@,
        lex_errors(seq![q] + s, file)[0].range.start.offset == 0,
{
    let chars = seq![q] + s;
    let n = chars.len() as int;
    assert forall|m: int| 1 <= m < n implies #[trigger] plain_in(chars, q, m) by {
        assert(chars[m] == s[m - 1]);
    }
    lemma_plain_run(chars, file, 0, q, 1, n, no_parts());
    assert(scan(chars, file, 0).next == n);
    lemma_alone(chars, file);
}

proof fn lemma_interp_run(chars: Seq<char>, q: char, j: int, k: int)
    requires
        0 <= j <= k < chars.len(),
        chars[k] == '}',
        forall|m: int|
            j <= m < k ==> #[trigger] chars[m] != '{' && chars[m] != '}' && chars[m] != '"'
                && chars[m] != '\'',
    ensures
        interp_end(chars, q, j, 1) == (k, true),
    decreases k - j,
{
    if j < k {
        assert(chars[j] != '{' && chars[j] != '}' && chars[j] != '"' && chars[j] != '\'');
        lemma_interp_run(chars, q, j + 1, k);
    }
}

/// The parts of an interpolated string: the text before, the source of the
/// expression, the text behind. An empty text is no part.
pub open spec fn interp_shape(
    chars: Seq<char>,
    parts: Seq<PartView>,
    a: Seq<char>,
    e: Seq<char>,
    b: Seq<char>,
) -> bool {
    let at_expr: int = if a.len() > 0 {
        1
    } else {
        0
    };
    let behind: int = if b.len() > 0 {
        1
    } else {
        0
    };
    &&& parts.len() == at_expr + 1 + behind
    &&& a.len() > 0 ==> parts[0] == PartView::Lit(a)
    &&& parts[at_expr] matches PartView::Expr { source, start, .. } && source == e && start == pos_at(
        chars,
        a.len() as int + 3,
    )
    &&& b.len() > 0 ==> parts[at_expr + 1] == PartView::Lit(b)
}

/// Whether a text has no braces and no quotes.
pub open spec fn simple_source(e: Seq<char>) -> bool {
    forall|m: int|
        0 <= m < e.len() ==> #[trigger] e[m] != '{' && e[m] != '}' && e[m] != '"' && e[m] != '\''
}

/// An expression inside a string is kept as it is written, between the texts
/// around it.
pub proof fn interpolation_keeps_its_parts(
    a: Seq<char>,
    e: Seq<char>,
    b: Seq<char>,
    q: char,
    file: Seq<char>,
)
    requires
        q == '"' || q == '\'',
        plain_text(a),
        plain_text(b),
        simple_source(e),
    ensures
        ({
            let chars = seq![q] + a + "${"@ + e + "}"@ + b + seq![q];
            &&& lex_errors(chars, file).len() == 0
            &&& tokens_of(chars, file).len() == 2
            &&& tokens_of(chars, file)[0].kind == TokenKind::StrInterp
            &&& tokens_of(chars, file)[0].text == chars
            &&& tokens_of(chars, file)[0].value matches Some(ValueView::Interp(parts))
                && interp_shape(chars, parts, a, e, b)
        }),
{
    reveal_strlit("${");
    reveal_strlit("}");
    let chars = seq![q] + a + "${"@ + e + "}"@ + b + seq![q];
    let n = chars.len() as int;
    let k = 1 + a.len() as int;
    let f = k + 2 + e.len() as int;
    assert(chars[0] == q && chars[k] == '$' && chars[k + 1] == '{' && chars[f] == '}' && chars[n
        - 1] == q);
    assert forall|m: int| 1 <= m < k implies #[trigger] plain_in(chars, q, m) by {
        assert(chars[m] == a[m - 1]);
    }
    assert forall|m: int| k + 2 <= m < f implies #[trigger] chars[m] != '{' && chars[m] != '}'
        && chars[m] != '"' && chars[m] != '\'' by {
        assert(chars[m] == e[m - k - 2]);
    }
    assert forall|m: int| f + 1 <= m < n - 1 implies #[trigger] plain_in(chars, q, m) by {
        assert(chars[m] == b[m - f - 1]);
    }
    let acc = no_parts();
    lemma_plain_run(chars, file, 0, q, 1, k, acc);
    assert(chars.subrange(1, k) =~= a);
    assert(acc.literal + a =~= a);
    let acc1 = StrAcc { literal: a, ..acc };
    lemma_interp_run(chars, q, k + 2, f);
    assert(chars.subrange(k + 2, f) =~= e);
    let expr = PartView::Expr { source: e, start: pos_at(chars, k + 2), end: pos_at(chars, f) };
    let acc2 = StrAcc {
        parts: flushed(acc1).push(expr),
        literal: Seq::empty(),
        interp: true,
        ..acc1
    };
    assert(str_rest(chars, file, 0, q, k, acc1) == str_rest(chars, file, 0, q, f + 1, acc2));
    lemma_plain_rest(chars, file, 0, q, f + 1, n - 1, acc2);
    assert(chars.subrange(f + 1, n - 1) =~= b);
    assert(acc2.literal + b =~= b);
    assert(chars.subrange(0, n) =~= chars);
    assert(scan(chars, file, 0) == scan_string(chars, file, 0));
    lemma_alone(chars, file);
    let parts = flushed(StrAcc { literal: b, ..acc2 });
    assert(acc1.parts.len() == 0);
    assert(tokens_of(chars, file)[0].value == Some(ValueView::Interp(parts)));
    assert(interp_shape(chars, parts, a, e, b));
}

// ---------- places ----------

pub open spec fn line_breaks(s: Seq<char>) -> nat
    decreases s.len(),
{
    if s.len() == 0 {
        0
    } else {
        line_breaks(s.drop_last()) + if s.last() == '\n' {
            1nat
        } else {
            0nat
        }
    }
}

/// A place is on the line after as many line breaks as stand before it.
pub proof fn lines_count_their_breaks(chars: Seq<char>, i: int)
    requires
        countable(chars),
        0 <= i <= chars.len(),
    ensures
        pos_at(chars, i).line == 1 + line_breaks(chars.take(i)),
    decreases i,
{
    offsets_count_bytes(chars, i);
    if i > 0 {
        lines_count_their_breaks(chars, i - 1);
        offsets_count_bytes(chars, i - 1);
        assert(chars.take(i).drop_last() =~= chars.take(i - 1));
        assert(chars.take(i).last() == chars[i - 1]);
        offsets_grow(chars, i - 1, i);
    }
}

/// Columns count the bytes from the start of the line, from one on.
pub proof fn columns_count_from_the_line(chars: Seq<char>, j: int, i: int)
    requires
        countable(chars),
        0 <= j <= i <= chars.len(),
        j > 0 ==> chars[j - 1] == '\n',
        forall|m: int| j <= m < i ==> #[trigger] chars[m] != '\n',
    ensures
        pos_at(chars, i).col == 1 + pos_at(chars, i).offset - pos_at(chars, j).offset,
    decreases i,
{
    offsets_count_bytes(chars, i);
    if i > j {
        columns_count_from_the_line(chars, j, i - 1);
        offsets_count_bytes(chars, i - 1);
        offsets_grow(chars, i - 1, i);
        lemma_char_bytes(chars[i - 1]);
        assert(chars[i - 1] != '\n');
        lemma_encode_concat(chars.take(i - 1), seq![chars[i - 1]]);
        assert(chars.take(i - 1) + seq![chars[i - 1]] =~= chars.take(i));
    }
}

// ---------- several tokens ----------

/// Words are parted by blanks: each is a token, in order.
pub proof fn words_are_parted_by_blanks(v: Seq<char>, w: Seq<char>, file: Seq<char>)
    requires
        word(v),
        word(w),
    ensures
        ({
            let tokens = tokens_of(v + " "@ + w, file);
            &&& lex_errors(v + " "@ + w, file).len() == 0
            &&& tokens.len() == 3
            &&& tokens[0].text == v
            &&& tokens[1].text == w
            &&& tokens[2].kind == TokenKind::Eof
        }),
{
    reveal_strlit(" ");
    let chars = v + " "@ + w;
    let n = chars.len() as int;
    let k = v.len() as int;
    assert(chars[k] == ' ' && chars[0] == v[0] && chars[k + 1] == w[0]);
    assert forall|m: int| 0 <= m < n && m != k implies in_class(
        #[trigger] chars[m],
        CharClass::IdentCont,
    ) by {
        if m < k {
            assert(chars[m] == v[m]);
            assert(letter(v[m]) || digit(v[m]));
        } else {
            assert(chars[m] == w[m - k - 1]);
            assert(letter(w[m - k - 1]) || digit(w[m - k - 1]));
        }
    }
    lemma_span_run(chars, 0, k, CharClass::IdentCont);
    lemma_span_run(chars, k + 1, n, CharClass::IdentCont);
    assert(chars.subrange(0, k) =~= v);
    assert(chars.subrange(k + 1, n) =~= w);
    let s1 = applied(nothing_read(), scan(chars, file, 0));
    let s2 = applied(s1, scan(chars, file, k));
    let s3 = applied(s2, scan(chars, file, k + 1));
    assert(s1.next == k && s2.next == k + 1 && s3.next == n);
    assert(lexed_from(chars, file, s3) == s3);
    assert(lexed_from(chars, file, s2) == s3);
    assert(lexed_from(chars, file, s1) == s3);
    assert(lexed_from(chars, file, nothing_read()) == s3);
}

/// A dot behind digits belongs to the number only where a digit follows.
pub proof fn dot_before_a_word_is_no_fraction(a: Seq<char>, w: Seq<char>, file: Seq<char>)
    requires
        digits(a),
        word(w),
    ensures
        ({
            let tokens = tokens_of(a + "."@ + w, file);
            &&& lex_errors(a + "."@ + w, file).len() == 0
            &&& tokens.len() == 4
            &&& tokens[0].kind == TokenKind::Int && tokens[0].text == a
            &&& tokens[1].kind == TokenKind::Dot
            &&& tokens[2].text == w
        }),
{
    reveal_strlit(".");
    reveal_strlit("->");
    reveal_strlit("=>");
    let chars = a + "."@ + w;
    let n = chars.len() as int;
    let k = a.len() as int;
    assert(chars[k] == '.' && chars[k + 1] == w[0] && letter(w[0]));
    assert forall|m: int| 0 <= m < k implies digit(#[trigger] chars[m]) by {
        assert(chars[m] == a[m]);
    }
    assert forall|m: int| k + 1 <= m < n implies in_class(#[trigger] chars[m], CharClass::IdentCont) by {
        assert(chars[m] == w[m - k - 1]);
        assert(letter(w[m - k - 1]) || digit(w[m - k - 1]));
    }
    assert(digit(chars[0]));
    if k > 1 {
        assert(digit(chars[1]));
    }
    lemma_span_run(chars, 0, k, CharClass::DigitOrGap);
    lemma_span_run(chars, k + 1, n, CharClass::IdentCont);
    assert(chars.subrange(0, k) =~= a);
    assert(chars.subrange(k + 1, n) =~= w);
    let two = ahead(chars, k, 2);
    let three = ahead(chars, k, 3);
    assert(two.len() == 2 && two[0] == '.' && two[1] == w[0]);
    lemma_op_lists(two);
    lemma_op_lists(three);
    reveal_ops();
    assert(three.len() == 3 ==> three[1] == w[0]);
    let s1 = applied(nothing_read(), scan(chars, file, 0));
    let s2 = applied(s1, scan(chars, file, k));
    let s3 = applied(s2, scan(chars, file, k + 1));
    assert(s1.next == k);
    assert(punct_at(chars, k) == Some((TokenKind::Dot, 1int)));
    assert(s2.next == k + 1 && s3.next == n);
    assert(lexed_from(chars, file, s3) == s3);
    assert(lexed_from(chars, file, s2) == s3);
    assert(lexed_from(chars, file, s1) == s3);
    assert(lexed_from(chars, file, nothing_read()) == s3);
}

proof fn reveal_ops()
    ensures
        forall|t: Seq<char>| #[trigger] two_char_op(t) && t[0] == '.' ==> t[1] == '.',
        forall|t: Seq<char>| #[trigger] three_char_op(t) && t[0] == '.' ==> t[1] == '.',
        forall|t: Seq<char>| #[trigger] three_char_op(t) ==> t.len() == 3,
{
    reveal_strlit("&&");
    reveal_strlit("||");
    reveal_strlit("^^");
    reveal_strlit("==");
    reveal_strlit("!=");
    reveal_strlit("<=");
    reveal_strlit(">=");
    reveal_strlit("<<");
    reveal_strlit(">>");
    reveal_strlit("**");
    reveal_strlit("..");
    reveal_strlit("+=");
    reveal_strlit("-=");
    reveal_strlit("*=");
    reveal_strlit("/=");
    reveal_strlit("%=");
    reveal_strlit("&=");
    reveal_strlit("|=");
    reveal_strlit("^=");
    reveal_strlit("...");
    reveal_strlit("<<=");
    reveal_strlit(">>=");
}

/// A character that starts nothing is reported, and becomes no token.
pub proof fn stray_characters_are_reported(c: char, file: Seq<char>)
    requires
        (c as u32) < 128,
        single_kind(c) is None,
        !letter(c) && !digit(c),
        c != ' ' && c != '\t' && c != '\r' && c != '\n' && c != '"' && c != '\'',
    ensures
        tokens_of(seq![c], file).len() == 1,
        lex_errors(seq![c], file).len() == 1,
        lex_errors(seq![c], file)[0].message == "unexpected character '"@ + seq![c] + "'"@,
{
    let chars = seq![c];
    lemma_char_bytes(c);
    lemma_not_listed(chars);
    lemma_alone(chars, file);
    let x = c as u32;
    assert(x & 0x7F == x) by (bit_vector)
        requires
            x < 128,
    ;
    assert(char_bytes(c)[0] == c as u8);
    assert(c as u8 as char == c);
}

} // verus!
