//! Lexer.
//!
//! Newlines are tokens (significant for statement termination in the
//! parser). Horizontal whitespace is skipped. Block and line comments are
//! discarded; block comments may nest.

use crate::diagnostic::{
    lemma_views_push, views, Diagnostic, DiagnosticView, Pos, RangeView, Severity, SourceRange,
};
use crate::text::{cat3, chars_of, owned, str_eq, string_of};
use vstd::prelude::*;
use vstd::string::*;
use vstd::utf8::*;

verus! {

#[derive(Clone, Copy, Debug, PartialEq, Eq, Structural)]
pub enum TokenKind {
    Int,
    Float,
    Str,
    /// A string with `${...}` interpolation segments. The lexer captures
    /// the raw contents; the parser re-tokenises the embedded expressions.
    StrInterp,
    Ident,
    Kw,
    LParen,
    RParen,
    LBrace,
    RBrace,
    LBracket,
    RBracket,
    Comma,
    Semi,
    Colon,
    Dot,
    Question,
    Dollar,
    /// Asset reference literal `$AssetType/AssetName`. The `Str` value holds the
    /// path without the leading `$`.
    AssetRef,
    /// `@word` annotation (`@left` etc.). `text` holds the word without `@`;
    /// the parser validates it.
    Annotation,
    /// `->`
    Arrow,
    /// `=>`
    FatArrow,
    Op,
    Newline,
    DocComment,
    Eof,
}

#[derive(Debug)]
pub struct Token {
    pub kind: TokenKind,
    pub text: String,
    pub start: Pos,
    pub end: Pos,
    pub value: Option<TokenValue>,
}

#[derive(Debug)]
pub enum TokenValue {
    Str(String),
    Interp(Vec<InterpPart>),
}

#[derive(Debug)]
pub enum InterpPart {
    Lit(String),
    /// Embedded expression — captured as raw source + its range; the
    /// parser re-lexes & re-parses this slice at parse time.
    Expr { source: String, start: Pos, end: Pos },
}

pub enum PartView {
    Lit(Seq<char>),
    Expr { source: Seq<char>, start: Pos, end: Pos },
}

pub enum ValueView {
    Str(Seq<char>),
    Interp(Seq<PartView>),
}

#[verifier::ext_equal]
pub struct TokenView {
    pub kind: TokenKind,
    pub text: Seq<char>,
    pub start: Pos,
    pub end: Pos,
    pub value: Option<ValueView>,
}

impl View for InterpPart {
    type V = PartView;

    open spec fn view(&self) -> PartView {
        match self {
            InterpPart::Lit(s) => PartView::Lit(s@),
            InterpPart::Expr { source, start, end } => PartView::Expr {
                source: source@,
                start: *start,
                end: *end,
            },
        }
    }
}

impl View for TokenValue {
    type V = ValueView;

    open spec fn view(&self) -> ValueView {
        match self {
            TokenValue::Str(s) => ValueView::Str(s@),
            TokenValue::Interp(parts) => ValueView::Interp(views(parts@)),
        }
    }
}

impl View for Token {
    type V = TokenView;

    open spec fn view(&self) -> TokenView {
        TokenView {
            kind: self.kind,
            text: self.text@,
            start: self.start,
            end: self.end,
            value: match self.value {
                Some(v) => Some(v@),
                None => None,
            },
        }
    }
}

pub const KEYWORDS: [&'static str; 27] = [
    "var",
    "array",
    "buffer",
    "chip",
    "callback",
    "fn",
    "on",
    "in",
    "out",
    "emit",
    "let",
    "if",
    "else",
    "then",
    "match",
    "return",
    "true",
    "false",
    "ref",
    "open",
    "mod",
    "import",
    "from",
    "as",
    "static",
    "type",
    "await",
];

pub const TWO_CHAR_OPS: [&'static str; 19] = [
    "&&",
    "||",
    "^^",
    "==",
    "!=",
    "<=",
    ">=",
    "<<",
    ">>",
    "**",
    "..",
    "+=",
    "-=",
    "*=",
    "/=",
    "%=",
    "&=",
    "|=",
    "^=",
];

pub const THREE_CHAR_OPS: [&'static str; 3] = ["...", "<<=", ">>="];

/// Whether a text is one of the given words.
pub open spec fn among(words: Seq<&'static str>, s: Seq<char>) -> bool {
    exists|i: int| 0 <= i < words.len() && (#[trigger] words[i])@ == s
}

/// Whether a text is a keyword.
pub open spec fn is_keyword(s: Seq<char>) -> bool {
    among(KEYWORDS@, s)
}

/// The keywords, for membership tests.
pub struct KeywordSet {
    words: Vec<&'static str>,
}

impl KeywordSet {
    pub closed spec fn words(self) -> Seq<&'static str> {
        self.words@
    }

    pub fn len(&self) -> (r: usize)
        ensures
            r == self.words().len(),
    {
        self.words.len()
    }

    pub fn contains(&self, s: &str) -> (r: bool)
        ensures
            r == among(self.words(), s@),
    {
        let mut i: usize = 0;
        while i < self.words.len()
            invariant
                i <= self.words@.len(),
                forall|k: int| 0 <= k < i ==> (#[trigger] self.words@[k])@ != s@,
            decreases self.words.len() - i,
        {
            if str_eq(self.words[i], s) {
                assert(self.words@[i as int]@ == s@);
                return true;
            }
            i += 1;
        }
        false
    }
}

/// The set of all keywords.
pub fn keyword_set() -> (r: KeywordSet)
    ensures
        r.words() == KEYWORDS@,
{
    let mut words: Vec<&'static str> = Vec::new();
    let mut i: usize = 0;
    while i < KEYWORDS.len()
        invariant
            i <= KEYWORDS@.len(),
            words@ == KEYWORDS@.take(i as int),
        decreases KEYWORDS@.len() - i,
    {
        words.push(KEYWORDS[i]);
        assert(words@ =~= KEYWORDS@.take(i + 1));
        i += 1;
    }
    assert(KEYWORDS@.take(i as int) =~= KEYWORDS@);
    KeywordSet { words }
}

// ---------- characters and positions ----------

pub open spec fn is_alpha(c: char) -> bool {
    'a' <= c <= 'z' || 'A' <= c <= 'Z'
}

pub open spec fn is_digit(c: char) -> bool {
    '0' <= c <= '9'
}

/// Classes of characters that runs are made of.
#[derive(Clone, Copy, Debug, PartialEq, Eq, Structural)]
pub enum CharClass {
    IdentStart,
    IdentCont,
    Digit,
    DigitOrGap,
    HexOrGap,
    BinOrGap,
    OctOrGap,
    Path,
    NotNewline,
}

pub open spec fn in_class(c: char, class: CharClass) -> bool {
    match class {
        CharClass::IdentStart => is_alpha(c) || c == '_',
        CharClass::IdentCont => is_alpha(c) || is_digit(c) || c == '_',
        CharClass::Digit => is_digit(c),
        CharClass::DigitOrGap => is_digit(c) || c == '_',
        CharClass::HexOrGap => is_digit(c) || 'a' <= c <= 'f' || 'A' <= c <= 'F' || c == '_',
        CharClass::BinOrGap => c == '0' || c == '1' || c == '_',
        CharClass::OctOrGap => '0' <= c <= '7' || c == '_',
        CharClass::Path => is_alpha(c) || is_digit(c) || c == '_' || c == '/' || c == '.' || c
            == '-',
        CharClass::NotNewline => c != '\n',
    }
}

fn alpha(c: char) -> (r: bool)
    ensures
        r == is_alpha(c),
{
    (c >= 'a' && c <= 'z') || (c >= 'A' && c <= 'Z')
}

fn digit(c: char) -> (r: bool)
    ensures
        r == is_digit(c),
{
    c >= '0' && c <= '9'
}

pub fn is_ident_start(c: char) -> (r: bool)
    ensures
        r == in_class(c, CharClass::IdentStart),
{
    alpha(c) || c == '_'
}

pub fn is_ident_cont(c: char) -> (r: bool)
    ensures
        r == in_class(c, CharClass::IdentCont),
{
    alpha(c) || digit(c) || c == '_'
}

fn belongs(c: char, class: CharClass) -> (r: bool)
    ensures
        r == in_class(c, class),
{
    match class {
        CharClass::IdentStart => is_ident_start(c),
        CharClass::IdentCont => is_ident_cont(c),
        CharClass::Digit => digit(c),
        CharClass::DigitOrGap => digit(c) || c == '_',
        CharClass::HexOrGap => digit(c) || (c >= 'a' && c <= 'f') || (c >= 'A' && c <= 'F') || c
            == '_',
        CharClass::BinOrGap => c == '0' || c == '1' || c == '_',
        CharClass::OctOrGap => (c >= '0' && c <= '7') || c == '_',
        CharClass::Path => alpha(c) || digit(c) || c == '_' || c == '/' || c == '.' || c == '-',
        CharClass::NotNewline => c != '\n',
    }
}

/// The bytes that encode a character.
pub open spec fn char_bytes(c: char) -> Seq<u8> {
    encode_utf8(seq![c])
}

/// The place behind a character that stands at `p`. Columns count bytes.
pub open spec fn step(p: Pos, c: char) -> Pos {
    if c == '\n' {
        Pos { offset: (p.offset + 1) as usize, line: (p.line + 1) as usize, col: 1 }
    } else {
        Pos {
            offset: (p.offset + char_bytes(c).len()) as usize,
            line: p.line,
            col: (p.col + char_bytes(c).len()) as usize,
        }
    }
}

/// The place of the `i`-th character.
pub open spec fn pos_at(chars: Seq<char>, i: int) -> Pos
    decreases i,
{
    if i <= 0 {
        Pos { offset: 0, line: 1, col: 1 }
    } else {
        step(pos_at(chars, i - 1), chars[i - 1])
    }
}

/// The place `k` bytes further on the same line.
pub open spec fn shifted(p: Pos, k: int) -> Pos {
    Pos { offset: (p.offset + k) as usize, line: p.line, col: (p.col + k) as usize }
}

/// Texts whose places can be counted.
pub open spec fn countable(chars: Seq<char>) -> bool {
    encode_utf8(chars).len() < usize::MAX
}

pub proof fn lemma_encode_concat(a: Seq<char>, b: Seq<char>)
    ensures
        encode_utf8(a + b) == encode_utf8(a) + encode_utf8(b),
    decreases a.len(),
{
    if a.len() == 0 {
        assert(a + b =~= b);
        assert(encode_utf8(a) + encode_utf8(b) =~= encode_utf8(b));
    } else {
        assert((a + b).drop_first() =~= a.drop_first() + b);
        lemma_encode_concat(a.drop_first(), b);
        assert((a + b)[0] == a[0]);
        assert(encode_utf8(a + b) =~= encode_utf8(a) + encode_utf8(b));
    }
}

pub proof fn lemma_char_bytes(c: char)
    ensures
        char_bytes(c) == encode_scalar(c as u32),
        1 <= char_bytes(c).len() <= 4,
        c == '\n' ==> char_bytes(c).len() == 1,
{
    reveal_with_fuel(encode_utf8, 2);
    assert(seq![c].drop_first() =~= Seq::empty());
    assert(char_bytes(c) =~= encode_scalar(c as u32));
}

/// Offsets count the bytes before a place; lines and columns never exceed
/// them by more than one.
pub proof fn offsets_count_bytes(chars: Seq<char>, i: int)
    requires
        countable(chars),
        0 <= i <= chars.len(),
    ensures
        pos_at(chars, i).offset == encode_utf8(chars.take(i)).len(),
        pos_at(chars, i).offset <= encode_utf8(chars).len(),
        1 <= pos_at(chars, i).line <= pos_at(chars, i).offset + 1,
        1 <= pos_at(chars, i).col <= pos_at(chars, i).offset + 1,
    decreases i,
{
    lemma_encode_concat(chars.take(i), chars.skip(i));
    assert(chars.take(i) + chars.skip(i) =~= chars);
    if i > 0 {
        offsets_count_bytes(chars, i - 1);
        let c = chars[i - 1];
        lemma_encode_concat(chars.take(i - 1), seq![c]);
        assert(chars.take(i - 1) + seq![c] =~= chars.take(i));
        lemma_char_bytes(c);
    } else {
        assert(chars.take(0) =~= Seq::empty());
    }
}

/// Later characters stand at later offsets.
pub proof fn offsets_grow(chars: Seq<char>, i: int, j: int)
    requires
        countable(chars),
        0 <= i <= j <= chars.len(),
    ensures
        pos_at(chars, i).offset <= pos_at(chars, j).offset,
        i < j ==> pos_at(chars, i).offset < pos_at(chars, j).offset,
    decreases j,
{
    if i < j {
        offsets_grow(chars, i, j - 1);
        offsets_count_bytes(chars, j - 1);
        offsets_count_bytes(chars, j);
        lemma_char_bytes(chars[j - 1]);
        lemma_encode_concat(chars.take(j - 1), seq![chars[j - 1]]);
        assert(chars.take(j - 1) + seq![chars[j - 1]] =~= chars.take(j));
    }
}

// ---------- what is read ----------

/// The character at a place, if there is one.
pub open spec fn at(chars: Seq<char>, i: int) -> Option<char> {
    if 0 <= i < chars.len() {
        Some(chars[i])
    } else {
        None
    }
}

pub open spec fn class_at(chars: Seq<char>, i: int, class: CharClass) -> bool {
    0 <= i < chars.len() && in_class(chars[i], class)
}

/// Where the run of characters of a class that starts at `i` ends.
pub open spec fn span(chars: Seq<char>, i: int, class: CharClass) -> int
    decreases chars.len() - i,
{
    if 0 <= i < chars.len() && in_class(chars[i], class) {
        span(chars, i + 1, class)
    } else {
        i
    }
}

proof fn lemma_span(chars: Seq<char>, i: int, class: CharClass)
    requires
        0 <= i <= chars.len(),
    ensures
        i <= span(chars, i, class) <= chars.len(),
    decreases chars.len() - i,
{
    if i < chars.len() && in_class(chars[i], class) {
        lemma_span(chars, i + 1, class);
    }
}

/// What one step of the lexer reads: up to where, which tokens it adds, and
/// what it reports.
pub struct Scan {
    pub next: int,
    pub tokens: Seq<TokenView>,
    pub diags: Seq<DiagnosticView>,
}

pub open spec fn skipped(next: int) -> Scan {
    Scan { next, tokens: Seq::empty(), diags: Seq::empty() }
}

/// A token made of the characters from `from` to `to`, placed from `i` on.
pub open spec fn token(
    chars: Seq<char>,
    kind: TokenKind,
    i: int,
    from: int,
    to: int,
    value: Option<ValueView>,
) -> Scan {
    Scan {
        next: to,
        tokens: seq![
            TokenView {
                kind,
                text: chars.subrange(from, to),
                start: pos_at(chars, i),
                end: pos_at(chars, to),
                value,
            },
        ],
        diags: Seq::empty(),
    }
}

pub open spec fn lex_error(file: Seq<char>, message: Seq<char>, start: Pos, end: Pos) -> DiagnosticView {
    DiagnosticView {
        severity: Severity::Error,
        code: "WSP001"@,
        message,
        range: RangeView { file, start, end },
    }
}

/// Where a block comment ends, and how many levels are still open there.
pub open spec fn block_end(chars: Seq<char>, j: int, depth: nat) -> (int, nat)
    decreases chars.len() - j,
{
    if j >= chars.len() || depth == 0 {
        (j, depth)
    } else if chars[j] == '/' && at(chars, j + 1) == Some('*') {
        block_end(chars, j + 2, depth + 1)
    } else if chars[j] == '*' && at(chars, j + 1) == Some('/') {
        block_end(chars, j + 2, (depth - 1) as nat)
    } else {
        block_end(chars, j + 1, depth)
    }
}

/// Where a string nested in an interpolation ends.
pub open spec fn nested_end(chars: Seq<char>, j: int, quote: char) -> int
    decreases chars.len() + 2 - j,
{
    if j >= chars.len() {
        chars.len() as int
    } else if chars[j] == quote {
        j
    } else if chars[j] == '\\' {
        nested_end(chars, j + 2, quote)
    } else {
        nested_end(chars, j + 1, quote)
    }
}

/// Quotes that open a nested string inside an interpolation of a string
/// quoted by `q`.
pub open spec fn nests(q: char, c: char) -> bool {
    c == '"' || (q == '\'' && c == '\'')
}

/// Where the expression of an interpolation ends, and whether it is closed
/// there.
pub open spec fn interp_end(chars: Seq<char>, q: char, j: int, depth: nat) -> (int, bool)
    decreases chars.len() + 2 - j,
    via interp_end_decreases
{
    if j >= chars.len() {
        (chars.len() as int, false)
    } else if chars[j] == '{' {
        interp_end(chars, q, j + 1, depth + 1)
    } else if chars[j] == '}' {
        if depth <= 1 {
            (j, true)
        } else {
            interp_end(chars, q, j + 1, (depth - 1) as nat)
        }
    } else if nests(q, chars[j]) {
        interp_end(chars, q, nested_end(chars, j + 1, chars[j]) + 1, depth)
    } else {
        interp_end(chars, q, j + 1, depth)
    }
}

#[via_fn]
proof fn interp_end_decreases(chars: Seq<char>, q: char, j: int, depth: nat) {
    if j < chars.len() {
        lemma_nested_end(chars, j + 1, chars[j]);
    }
}

pub proof fn lemma_nested_end(chars: Seq<char>, j: int, quote: char)
    ensures
        j <= chars.len() ==> j <= nested_end(chars, j, quote) <= chars.len(),
        j > chars.len() ==> nested_end(chars, j, quote) == chars.len(),
    decreases chars.len() + 2 - j,
{
    if j < chars.len() && chars[j] != quote {
        if chars[j] == '\\' {
            lemma_nested_end(chars, j + 2, quote);
        } else {
            lemma_nested_end(chars, j + 1, quote);
        }
    }
}

pub proof fn lemma_interp_end(chars: Seq<char>, q: char, j: int, depth: nat)
    requires
        0 <= j,
    ensures
        j <= chars.len() ==> j <= interp_end(chars, q, j, depth).0,
        interp_end(chars, q, j, depth).0 <= chars.len(),
        interp_end(chars, q, j, depth).1 ==> interp_end(chars, q, j, depth).0 < chars.len(),
    decreases chars.len() + 2 - j,
{
    if j < chars.len() {
        if chars[j] == '{' {
            lemma_interp_end(chars, q, j + 1, depth + 1);
        } else if chars[j] == '}' {
            if depth > 1 {
                lemma_interp_end(chars, q, j + 1, (depth - 1) as nat);
            }
        } else if nests(q, chars[j]) {
            lemma_nested_end(chars, j + 1, chars[j]);
            lemma_interp_end(chars, q, nested_end(chars, j + 1, chars[j]) + 1, depth);
        } else {
            lemma_interp_end(chars, q, j + 1, depth);
        }
    }
}

/// What an escape stands for in a string quoted by `q`.
pub open spec fn escape(q: char, c: char) -> Option<char> {
    if c == 'n' {
        Some('\n')
    } else if c == 't' {
        Some('\t')
    } else if c == '\\' {
        Some('\\')
    } else if c == '$' {
        Some('$')
    } else if c == q {
        Some(q)
    } else if q == '"' && c == 'r' {
        Some('\r')
    } else if q == '"' && c == '0' {
        Some('\0')
    } else {
        None
    }
}

/// What has been read of a string.
pub struct StrAcc {
    pub parts: Seq<PartView>,
    pub literal: Seq<char>,
    pub interp: bool,
    pub diags: Seq<DiagnosticView>,
}

pub open spec fn no_parts() -> StrAcc {
    StrAcc { parts: Seq::empty(), literal: Seq::empty(), interp: false, diags: Seq::empty() }
}

/// The parts with a pending literal behind them.
pub open spec fn flushed(acc: StrAcc) -> Seq<PartView> {
    if acc.literal.len() > 0 {
        acc.parts.push(PartView::Lit(acc.literal))
    } else {
        acc.parts
    }
}

pub struct StrEnd {
    pub next: int,
    pub closed: bool,
    pub acc: StrAcc,
}

pub open spec fn str_failed(
    chars: Seq<char>,
    file: Seq<char>,
    start: int,
    acc: StrAcc,
    next: int,
    message: Seq<char>,
) -> StrEnd {
    StrEnd {
        next,
        closed: false,
        acc: StrAcc {
            diags: acc.diags.push(
                lex_error(file, message, pos_at(chars, start), pos_at(chars, next)),
            ),
            ..acc
        },
    }
}

/// The rest of a string that starts at `start`, read from `j` on.
pub open spec fn str_rest(
    chars: Seq<char>,
    file: Seq<char>,
    start: int,
    q: char,
    j: int,
    acc: StrAcc,
) -> StrEnd
    decreases chars.len() - j,
    via str_rest_decreases
{
    if j < 0 || j >= chars.len() {
        str_failed(chars, file, start, acc, j, "unterminated string at end of file"@)
    } else if chars[j] == q {
        StrEnd { next: j + 1, closed: true, acc }
    } else if chars[j] == '\\' {
        if j + 1 >= chars.len() {
            str_failed(chars, file, start, acc, j + 1, "unterminated string at end of file"@)
        } else {
            let c = chars[j + 1];
            match escape(q, c) {
                Some(meant) => str_rest(
                    chars,
                    file,
                    start,
                    q,
                    j + 2,
                    StrAcc { literal: acc.literal.push(meant), ..acc },
                ),
                None => if q == '"' {
                    str_rest(
                        chars,
                        file,
                        start,
                        q,
                        j + 2,
                        StrAcc {
                            diags: acc.diags.push(
                                lex_error(
                                    file,
                                    "unknown string escape '\\"@ + seq![c] + "'"@,
                                    pos_at(chars, j + 1),
                                    pos_at(chars, j + 1),
                                ),
                            ),
                            ..acc
                        },
                    )
                } else {
                    str_rest(
                        chars,
                        file,
                        start,
                        q,
                        j + 2,
                        StrAcc { literal: acc.literal.push('\\').push(c), ..acc },
                    )
                },
            }
        }
    } else if chars[j] == '$' && at(chars, j + 1) == Some('{') {
        let (e, closed) = interp_end(chars, q, j + 2, 1);
        let opened = StrAcc { parts: flushed(acc), literal: Seq::empty(), interp: true, ..acc };
        if closed {
            str_rest(
                chars,
                file,
                start,
                q,
                e + 1,
                StrAcc {
                    parts: opened.parts.push(
                        PartView::Expr {
                            source: chars.subrange(j + 2, e),
                            start: pos_at(chars, j + 2),
                            end: pos_at(chars, e),
                        },
                    ),
                    ..opened
                },
            )
        } else {
            str_failed(chars, file, start, opened, e, "unterminated string interpolation"@)
        }
    } else if chars[j] == '\n' {
        str_failed(chars, file, start, acc, j, "unterminated string"@)
    } else {
        str_rest(
            chars,
            file,
            start,
            q,
            j + 1,
            StrAcc { literal: acc.literal.push(chars[j]), ..acc },
        )
    }
}

#[via_fn]
proof fn str_rest_decreases(
    chars: Seq<char>,
    file: Seq<char>,
    start: int,
    q: char,
    j: int,
    acc: StrAcc,
) {
    if 0 <= j < chars.len() {
        lemma_interp_end(chars, q, j + 2, 1);
    }
}

/// A string that starts at `i`. Only a closed string becomes a token.
pub open spec fn scan_string(chars: Seq<char>, file: Seq<char>, i: int) -> Scan {
    let r = str_rest(chars, file, i, chars[i], i + 1, no_parts());
    if r.closed {
        Scan {
            diags: r.acc.diags,
            ..token(
                chars,
                if r.acc.interp {
                    TokenKind::StrInterp
                } else {
                    TokenKind::Str
                },
                i,
                i,
                r.next,
                Some(
                    if r.acc.interp {
                        ValueView::Interp(flushed(r.acc))
                    } else {
                        ValueView::Str(r.acc.literal)
                    },
                ),
            )
        }
    } else {
        Scan { next: r.next, tokens: Seq::empty(), diags: r.acc.diags }
    }
}

/// Where the fraction behind an integer part ends.
pub open spec fn fraction_end(chars: Seq<char>, j: int) -> int {
    if at(chars, j) == Some('.') && class_at(chars, j + 1, CharClass::Digit) {
        span(chars, j + 1, CharClass::DigitOrGap)
    } else {
        j
    }
}

/// Where the exponent behind a number ends.
pub open spec fn exponent_end(chars: Seq<char>, j: int) -> int {
    if at(chars, j) == Some('e') || at(chars, j) == Some('E') {
        if at(chars, j + 1) == Some('+') || at(chars, j + 1) == Some('-') {
            span(chars, j + 2, CharClass::Digit)
        } else {
            span(chars, j + 1, CharClass::Digit)
        }
    } else {
        j
    }
}

/// A number: hexadecimal, binary, octal, or decimal with an optional fraction
/// and exponent.
pub open spec fn scan_number(chars: Seq<char>, i: int) -> Scan {
    let mark = at(chars, i + 1);
    if chars[i] == '0' && (mark == Some('x') || mark == Some('X')) {
        token(chars, TokenKind::Int, i, i, span(chars, i + 2, CharClass::HexOrGap), None)
    } else if chars[i] == '0' && (mark == Some('b') || mark == Some('B')) {
        token(chars, TokenKind::Int, i, i, span(chars, i + 2, CharClass::BinOrGap), None)
    } else if chars[i] == '0' && (mark == Some('o') || mark == Some('O')) {
        token(chars, TokenKind::Int, i, i, span(chars, i + 2, CharClass::OctOrGap), None)
    } else {
        let whole = span(chars, i, CharClass::DigitOrGap);
        let fraction = fraction_end(chars, whole);
        let exponent = exponent_end(chars, fraction);
        token(
            chars,
            if exponent > whole {
                TokenKind::Float
            } else {
                TokenKind::Int
            },
            i,
            i,
            exponent,
            None,
        )
    }
}

pub open spec fn scan_ident(chars: Seq<char>, i: int) -> Scan {
    let e = span(chars, i, CharClass::IdentCont);
    token(
        chars,
        if is_keyword(chars.subrange(i, e)) {
            TokenKind::Kw
        } else {
            TokenKind::Ident
        },
        i,
        i,
        e,
        None,
    )
}

pub open spec fn single_punct(c: char) -> Option<TokenKind> {
    if c == '(' {
        Some(TokenKind::LParen)
    } else if c == ')' {
        Some(TokenKind::RParen)
    } else if c == '{' {
        Some(TokenKind::LBrace)
    } else if c == '}' {
        Some(TokenKind::RBrace)
    } else if c == '[' {
        Some(TokenKind::LBracket)
    } else if c == ']' {
        Some(TokenKind::RBracket)
    } else if c == ',' {
        Some(TokenKind::Comma)
    } else if c == ';' {
        Some(TokenKind::Semi)
    } else if c == ':' {
        Some(TokenKind::Colon)
    } else if c == '.' {
        Some(TokenKind::Dot)
    } else if c == '?' {
        Some(TokenKind::Question)
    } else if c == '$' {
        Some(TokenKind::Dollar)
    } else if c == '&' || c == '|' || c == '^' || c == '~' || c == '+' || c == '-' || c == '*' || c
        == '/' || c == '%' || c == '=' || c == '<' || c == '>' || c == '!' {
        Some(TokenKind::Op)
    } else {
        None
    }
}

/// The text of `n` characters from `i` on, or none where fewer are left.
pub open spec fn ahead(chars: Seq<char>, i: int, n: int) -> Seq<char> {
    if i + n <= chars.len() {
        chars.subrange(i, i + n)
    } else {
        Seq::empty()
    }
}

/// The punctuation at a place and its length: arrows first, then the longest
/// operator.
pub open spec fn punct_at(chars: Seq<char>, i: int) -> Option<(TokenKind, int)> {
    if ahead(chars, i, 2) == "->"@ {
        Some((TokenKind::Arrow, 2))
    } else if ahead(chars, i, 2) == "=>"@ {
        Some((TokenKind::FatArrow, 2))
    } else if among(THREE_CHAR_OPS@, ahead(chars, i, 3)) {
        Some((TokenKind::Op, 3))
    } else if among(TWO_CHAR_OPS@, ahead(chars, i, 2)) {
        Some((TokenKind::Op, 2))
    } else {
        match single_punct(chars[i]) {
            Some(kind) => Some((kind, 1)),
            None => None,
        }
    }
}

/// A character that starts nothing is reported byte by byte.
pub open spec fn stray(chars: Seq<char>, file: Seq<char>, i: int) -> Scan {
    let bytes = char_bytes(chars[i]);
    Scan {
        next: i + 1,
        tokens: Seq::empty(),
        diags: Seq::new(
            bytes.len(),
            |k: int|
                lex_error(
                    file,
                    "unexpected character '"@ + seq![bytes[k] as char] + "'"@,
                    shifted(pos_at(chars, i), k),
                    shifted(pos_at(chars, i), k + 1),
                ),
        ),
    }
}

/// What is read at a place.
pub open spec fn scan(chars: Seq<char>, file: Seq<char>, i: int) -> Scan {
    let c = chars[i];
    let next = at(chars, i + 1);
    if c == '/' && next == Some('/') {
        if at(chars, i + 2) == Some('/') {
            let from = if at(chars, i + 3) == Some(' ') {
                i + 4
            } else {
                i + 3
            };
            token(
                chars,
                TokenKind::DocComment,
                i,
                from,
                span(chars, from, CharClass::NotNewline),
                None,
            )
        } else {
            skipped(span(chars, i, CharClass::NotNewline))
        }
    } else if c == '/' && next == Some('*') {
        let (e, depth) = block_end(chars, i + 2, 1);
        Scan {
            next: e,
            tokens: Seq::empty(),
            diags: if depth > 0 {
                seq![
                    lex_error(
                        file,
                        "unterminated block comment"@,
                        pos_at(chars, i),
                        pos_at(chars, e),
                    ),
                ]
            } else {
                Seq::empty()
            },
        }
    } else if c == ' ' || c == '\t' || c == '\r' {
        skipped(i + 1)
    } else if c == '\n' {
        token(chars, TokenKind::Newline, i, i, i + 1, None)
    } else if c == '"' || c == '\'' {
        scan_string(chars, file, i)
    } else if is_digit(c) {
        scan_number(chars, i)
    } else if in_class(c, CharClass::IdentStart) {
        scan_ident(chars, i)
    } else if c == '$' && (class_at(chars, i + 1, CharClass::IdentStart) || next == Some('.')
        || next == Some('/')) {
        let e = span(chars, i + 1, CharClass::Path);
        token(
            chars,
            TokenKind::AssetRef,
            i,
            i,
            e,
            Some(ValueView::Str(chars.subrange(i + 1, e))),
        )
    } else if c == '@' && class_at(chars, i + 1, CharClass::IdentStart) {
        token(
            chars,
            TokenKind::Annotation,
            i,
            i + 1,
            span(chars, i + 1, CharClass::IdentCont),
            None,
        )
    } else {
        match punct_at(chars, i) {
            Some((kind, n)) => token(chars, kind, i, i, i + n, None),
            None => stray(chars, file, i),
        }
    }
}

/// What has been read so far.
#[verifier::ext_equal]
pub struct Lexed {
    pub next: int,
    pub tokens: Seq<TokenView>,
    pub diags: Seq<DiagnosticView>,
}

pub open spec fn applied(st: Lexed, sc: Scan) -> Lexed {
    Lexed { next: sc.next, tokens: st.tokens + sc.tokens, diags: st.diags + sc.diags }
}

/// Everything from a place on, up to the end of the text.
pub open spec fn lexed_from(chars: Seq<char>, file: Seq<char>, st: Lexed) -> Lexed
    decreases chars.len() - st.next,
{
    let sc = scan(chars, file, st.next);
    if !(0 <= st.next < sc.next <= chars.len()) {
        st
    } else {
        lexed_from(chars, file, applied(st, sc))
    }
}

pub open spec fn nothing_read() -> Lexed {
    Lexed { next: 0, tokens: Seq::empty(), diags: Seq::empty() }
}

/// The token at the end of every text.
pub open spec fn eof(chars: Seq<char>) -> TokenView {
    let p = pos_at(chars, chars.len() as int);
    TokenView { kind: TokenKind::Eof, text: Seq::empty(), start: p, end: p, value: None }
}

/// The tokens of a text.
pub open spec fn tokens_of(chars: Seq<char>, file: Seq<char>) -> Seq<TokenView> {
    lexed_from(chars, file, nothing_read()).tokens.push(eof(chars))
}

/// What the lexer reports of a text.
pub open spec fn lex_errors(chars: Seq<char>, file: Seq<char>) -> Seq<DiagnosticView> {
    lexed_from(chars, file, nothing_read()).diags
}

// ---------- progress ----------

proof fn lemma_three_char_ops(t: Seq<char>)
    requires
        among(THREE_CHAR_OPS@, t),
    ensures
        t.len() == 3,
{
    reveal_strlit("...");
    reveal_strlit("<<=");
    reveal_strlit(">>=");
    let i = choose|i: int| 0 <= i < THREE_CHAR_OPS@.len() && (#[trigger] THREE_CHAR_OPS@[i])@ == t;
    assert(i == 0 || i == 1 || i == 2);
}

proof fn lemma_two_char_ops(t: Seq<char>)
    requires
        among(TWO_CHAR_OPS@, t),
    ensures
        t.len() == 2,
{
    reveal_strlit("&&");
    reveal_strlit("||");
    reveal_strlit("^^");
    reveal_strlit("==");
    reveal_strlit("!=");
    reveal_strlit("<=");
    reveal_strlit(">=");
    reveal_strlit("<<");
    reveal_strlit(">>");
    reveal_strlit("**");
    reveal_strlit("..");
    reveal_strlit("+=");
    reveal_strlit("-=");
    reveal_strlit("*=");
    reveal_strlit("/=");
    reveal_strlit("%=");
    reveal_strlit("&=");
    reveal_strlit("|=");
    reveal_strlit("^=");
    let i = choose|i: int| 0 <= i < TWO_CHAR_OPS@.len() && (#[trigger] TWO_CHAR_OPS@[i])@ == t;
    assert(0 <= i < 19);
}

/// A punctuation fits into what is left of the text.
proof fn lemma_punct_fits(chars: Seq<char>, i: int)
    requires
        0 <= i < chars.len(),
    ensures
        punct_at(chars, i) matches Some((kind, n)) ==> 1 <= n && i + n <= chars.len() && kind
            != TokenKind::Eof,
{
    reveal_strlit("->");
    reveal_strlit("=>");
    assert("->"@.len() == 2);
    assert("=>"@.len() == 2);
    if among(THREE_CHAR_OPS@, ahead(chars, i, 3)) {
        lemma_three_char_ops(ahead(chars, i, 3));
    }
    if among(TWO_CHAR_OPS@, ahead(chars, i, 2)) {
        lemma_two_char_ops(ahead(chars, i, 2));
    }
}

proof fn lemma_block_end(chars: Seq<char>, j: int, depth: nat)
    requires
        0 <= j <= chars.len(),
    ensures
        j <= block_end(chars, j, depth).0 <= chars.len(),
    decreases chars.len() - j,
{
    if j < chars.len() && depth > 0 {
        if chars[j] == '/' && at(chars, j + 1) == Some('*') {
            lemma_block_end(chars, j + 2, depth + 1);
        } else if chars[j] == '*' && at(chars, j + 1) == Some('/') {
            lemma_block_end(chars, j + 2, (depth - 1) as nat);
        } else {
            lemma_block_end(chars, j + 1, depth);
        }
    }
}

proof fn lemma_str_rest(
    chars: Seq<char>,
    file: Seq<char>,
    start: int,
    q: char,
    j: int,
    acc: StrAcc,
)
    requires
        0 <= j <= chars.len(),
    ensures
        j <= str_rest(chars, file, start, q, j, acc).next <= chars.len(),
    decreases chars.len() - j,
{
    if j < chars.len() && chars[j] != q {
        if chars[j] == '\\' {
            if j + 1 < chars.len() {
                let c = chars[j + 1];
                match escape(q, c) {
                    Some(meant) => lemma_str_rest(
                        chars,
                        file,
                        start,
                        q,
                        j + 2,
                        StrAcc { literal: acc.literal.push(meant), ..acc },
                    ),
                    None => if q == '"' {
                        lemma_str_rest(
                            chars,
                            file,
                            start,
                            q,
                            j + 2,
                            StrAcc {
                                diags: acc.diags.push(
                                    lex_error(
                                        file,
                                        "unknown string escape '\\"@ + seq![c] + "'"@,
                                        pos_at(chars, j + 1),
                                        pos_at(chars, j + 1),
                                    ),
                                ),
                                ..acc
                            },
                        );
                    } else {
                        lemma_str_rest(
                            chars,
                            file,
                            start,
                            q,
                            j + 2,
                            StrAcc { literal: acc.literal.push('\\').push(c), ..acc },
                        );
                    },
                }
            }
        } else if chars[j] == '$' && at(chars, j + 1) == Some('{') {
            lemma_interp_end(chars, q, j + 2, 1);
            let (e, closed) = interp_end(chars, q, j + 2, 1);
            let opened = StrAcc {
                parts: flushed(acc),
                literal: Seq::empty(),
                interp: true,
                ..acc
            };
            if closed {
                lemma_str_rest(
                    chars,
                    file,
                    start,
                    q,
                    e + 1,
                    StrAcc {
                        parts: opened.parts.push(
                            PartView::Expr {
                                source: chars.subrange(j + 2, e),
                                start: pos_at(chars, j + 2),
                                end: pos_at(chars, e),
                            },
                        ),
                        ..opened
                    },
                );
            }
        } else if chars[j] != '\n' {
            lemma_str_rest(
                chars,
                file,
                start,
                q,
                j + 1,
                StrAcc { literal: acc.literal.push(chars[j]), ..acc },
            );
        }
    }
}

proof fn lemma_exponent_end(chars: Seq<char>, j: int)
    requires
        0 <= j <= chars.len(),
    ensures
        j <= exponent_end(chars, j) <= chars.len(),
{
    if j < chars.len() {
        lemma_span(chars, j + 1, CharClass::Digit);
        if j + 1 < chars.len() {
            lemma_span(chars, j + 2, CharClass::Digit);
        }
    }
}

proof fn lemma_fraction_end(chars: Seq<char>, j: int)
    requires
        0 <= j <= chars.len(),
    ensures
        j <= fraction_end(chars, j) <= chars.len(),
{
    if j < chars.len() {
        lemma_span(chars, j + 1, CharClass::DigitOrGap);
    }
}

/// A step that reads at least one character and at most what is left, and adds
/// at most one token, which covers what was read and is not the end marker.
pub open spec fn moves_on(chars: Seq<char>, i: int, sc: Scan) -> bool {
    &&& i < sc.next <= chars.len()
    &&& sc.tokens.len() <= 1
    &&& sc.tokens.len() == 1 ==> {
        &&& sc.tokens[0].start == pos_at(chars, i)
        &&& sc.tokens[0].end == pos_at(chars, sc.next)
        &&& sc.tokens[0].kind != TokenKind::Eof
    }
}

proof fn lemma_number_moves_on(chars: Seq<char>, i: int)
    requires
        0 <= i < chars.len(),
        is_digit(chars[i]),
    ensures
        moves_on(chars, i, scan_number(chars, i)),
{
    if i + 1 < chars.len() {
        lemma_span(chars, i + 2, CharClass::HexOrGap);
        lemma_span(chars, i + 2, CharClass::BinOrGap);
        lemma_span(chars, i + 2, CharClass::OctOrGap);
    }
    let whole = span(chars, i, CharClass::DigitOrGap);
    lemma_span(chars, i + 1, CharClass::DigitOrGap);
    lemma_fraction_end(chars, whole);
    lemma_exponent_end(chars, fraction_end(chars, whole));
}

/// Every step of the lexer moves on.
pub proof fn scan_moves_on(chars: Seq<char>, file: Seq<char>, i: int)
    requires
        0 <= i < chars.len(),
    ensures
        moves_on(chars, i, scan(chars, file, i)),
{
    let c = chars[i];
    let next = at(chars, i + 1);
    if c == '/' && next == Some('/') {
        if at(chars, i + 2) == Some('/') {
            if at(chars, i + 3) == Some(' ') {
                lemma_span(chars, i + 4, CharClass::NotNewline);
            } else {
                lemma_span(chars, i + 3, CharClass::NotNewline);
            }
        } else {
            lemma_span(chars, i + 1, CharClass::NotNewline);
        }
    } else if c == '/' && next == Some('*') {
        lemma_block_end(chars, i + 2, 1);
    } else if c == ' ' || c == '\t' || c == '\r' || c == '\n' {
    } else if c == '"' || c == '\'' {
        lemma_str_rest(chars, file, i, c, i + 1, no_parts());
    } else if is_digit(c) {
        lemma_number_moves_on(chars, i);
    } else if in_class(c, CharClass::IdentStart) {
        lemma_span(chars, i + 1, CharClass::IdentCont);
    } else {
        lemma_span(chars, i + 1, CharClass::Path);
        lemma_span(chars, i + 1, CharClass::IdentCont);
        lemma_punct_fits(chars, i);
    }
}

// ---------- the lexer ----------

pub struct LexResult {
    pub tokens: Vec<Token>,
    pub diagnostics: Vec<Diagnostic>,
}

struct Lexer {
    chars: Vec<char>,
    file: String,
    pos: usize,
    place: Pos,
    tokens: Vec<Token>,
    diagnostics: Vec<Diagnostic>,
}

impl View for Lexer {
    type V = Lexed;

    closed spec fn view(&self) -> Lexed {
        Lexed {
            next: self.pos as int,
            tokens: views(self.tokens@),
            diags: views(self.diagnostics@),
        }
    }
}

impl Lexer {
    /// The place is the one of the next character, and places can be counted.
    closed spec fn wf(self) -> bool {
        &&& self.pos <= self.chars@.len()
        &&& self.place == pos_at(self.chars@, self.pos as int)
        &&& countable(self.chars@)
    }

    /// Nothing but the place differs.
    closed spec fn moved_from(self, before: Lexer) -> bool {
        &&& self.wf()
        &&& self.chars == before.chars
        &&& self.file == before.file
        &&& self.tokens == before.tokens
        &&& self.diagnostics == before.diagnostics
    }

    fn new(source: &str, file: &str) -> (r: Lexer)
        requires
            countable(source@),
        ensures
            r.wf(),
            r@ == nothing_read(),
            r.chars@ == source@,
            r.file@ == file@,
    {
        let r = Lexer {
            chars: chars_of(source),
            file: owned(file),
            pos: 0,
            place: Pos { offset: 0, line: 1, col: 1 },
            tokens: Vec::new(),
            diagnostics: Vec::new(),
        };
        assert(r@ =~= nothing_read());
        r
    }

    fn peek_char(&self, off: usize) -> (r: Option<char>)
        requires
            self.wf(),
            off < 4,
        ensures
            r == at(self.chars@, self.pos + off),
    {
        let left: usize = self.chars.len() - self.pos;
        if off < left {
            Some(self.chars[self.pos + off])
        } else {
            None
        }
    }

    fn snapshot(&self) -> (r: Pos)
        requires
            self.wf(),
        ensures
            r == pos_at(self.chars@, self.pos as int),
    {
        self.place
    }

    fn advance(&mut self)
        requires
            old(self).wf(),
            old(self).pos < old(self).chars@.len(),
        ensures
            final(self).moved_from(*old(self)),
            final(self).pos == old(self).pos + 1,
    {
        let n: usize = self.chars.len();
        let c = self.chars[self.pos];
        proof {
            offsets_count_bytes(self.chars@, self.pos as int);
            offsets_count_bytes(self.chars@, self.pos + 1);
            lemma_char_bytes(c);
            lemma_encode_concat(self.chars@.take(self.pos as int), seq![c]);
            assert(self.chars@.take(self.pos as int) + seq![c] =~= self.chars@.take(self.pos + 1));
        }
        if c == '\n' {
            self.place = Pos {
                offset: self.place.offset + 1,
                line: self.place.line + 1,
                col: 1,
            };
        } else {
            let w: usize = char_width(c);
            self.place = Pos {
                offset: self.place.offset + w,
                line: self.place.line,
                col: self.place.col + w,
            };
        }
        self.pos = self.pos + 1;
    }

    fn skip(&mut self, class: CharClass)
        requires
            old(self).wf(),
        ensures
            final(self).moved_from(*old(self)),
            final(self).pos == span(old(self).chars@, old(self).pos as int, class),
    {
        while self.pos < self.chars.len() && belongs(self.chars[self.pos], class)
            invariant
                self.moved_from(*old(self)),
                span(self.chars@, self.pos as int, class) == span(
                    old(self).chars@,
                    old(self).pos as int,
                    class,
                ),
            decreases self.chars@.len() - self.pos,
        {
            self.advance();
        }
    }

    /// The characters from `from` up to the next one.
    fn slice(&self, from: usize) -> (r: String)
        requires
            from <= self.pos <= self.chars@.len(),
        ensures
            r@ == self.chars@.subrange(from as int, self.pos as int),
    {
        string_of(&self.chars, from, self.pos)
    }

    fn emit(&mut self, kind: TokenKind, text: String, start: Pos, value: Option<TokenValue>)
        requires
            old(self).wf(),
        ensures
            final(self).wf(),
            final(self).chars == old(self).chars,
            final(self).file == old(self).file,
            final(self).pos == old(self).pos,
            final(self).diagnostics == old(self).diagnostics,
            views(final(self).tokens@) == views(old(self).tokens@).push(
                TokenView {
                    kind,
                    text: text@,
                    start,
                    end: pos_at(old(self).chars@, old(self).pos as int),
                    value: match value {
                        Some(v) => Some(v@),
                        None => None,
                    },
                },
            ),
    {
        let t = Token { kind, text, start, end: self.place, value };
        proof {
            lemma_views_push(self.tokens@, t);
        }
        self.tokens.push(t);
    }

    fn diag(&mut self, message: String, start: Pos, end: Pos)
        requires
            old(self).wf(),
        ensures
            final(self).wf(),
            final(self).chars == old(self).chars,
            final(self).file == old(self).file,
            final(self).pos == old(self).pos,
            final(self).tokens == old(self).tokens,
            views(final(self).diagnostics@) == views(old(self).diagnostics@).push(
                lex_error(old(self).file@, message@, start, end),
            ),
    {
        let d = Diagnostic {
            severity: Severity::Error,
            code: owned("WSP001"),
            message,
            range: SourceRange { file: self.file.clone(), start, end },
        };
        proof {
            lemma_views_push(self.diagnostics@, d);
        }
        self.diagnostics.push(d);
    }

    /// Emits a token that covers the characters from `from` on.
    fn emit_from(&mut self, kind: TokenKind, start: Pos, from: usize, value: Option<TokenValue>, i: Ghost<int>)
        requires
            old(self).wf(),
            from <= old(self).pos,
            start == pos_at(old(self).chars@, i@),
        ensures
            final(self).wf(),
            final(self).chars == old(self).chars,
            final(self).file == old(self).file,
            final(self)@ == applied(
                old(self)@,
                token(
                    old(self).chars@,
                    kind,
                    i@,
                    from as int,
                    old(self).pos as int,
                    match value {
                        Some(v) => Some(v@),
                        None => None,
                    },
                ),
            ),
    {
        let text = self.slice(from);
        self.emit(kind, text, start, value);
        assert(self@ =~= applied(
            old(self)@,
            token(
                old(self).chars@,
                kind,
                i@,
                from as int,
                old(self).pos as int,
                match value {
                    Some(v) => Some(v@),
                    None => None,
                },
            ),
        ));
    }

    /// Read an asset reference into a [`TokenKind::AssetRef`] token. Two forms
    /// share the token; the parser distinguishes them by the leading char:
    /// - `$AssetType/AssetName` — an embedded external asset (a single `/`
    ///   separates type from name).
    /// - `$./rel/path.brz` or `$/abs/path.brz` — a prefab file reference (path
    ///   begins with `.` or `/`). `.` and `-` are allowed so file names and
    ///   relative segments lex.
    fn read_asset_ref(&mut self)
        requires
            old(self).wf(),
            old(self).pos < old(self).chars@.len(),
        ensures
            final(self).wf(),
            final(self).chars == old(self).chars,
            final(self).file == old(self).file,
            ({
                let i = old(self).pos as int;
                let e = span(old(self).chars@, i + 1, CharClass::Path);
                final(self)@ == applied(
                    old(self)@,
                    token(
                        old(self).chars@,
                        TokenKind::AssetRef,
                        i,
                        i,
                        e,
                        Some(ValueView::Str(old(self).chars@.subrange(i + 1, e))),
                    ),
                )
            }),
    {
        let start = self.snapshot();
        let from: usize = self.pos;
        self.advance();
        proof {
            lemma_span(self.chars@, self.pos as int, CharClass::Path);
        }
        self.skip(CharClass::Path);
        let path = self.slice(from + 1);
        let ghost i = from as int;
        self.emit_from(TokenKind::AssetRef, start, from, Some(TokenValue::Str(path)), Ghost(i));
    }

    fn read_block_comment(&mut self)
        requires
            old(self).wf(),
            old(self).pos + 1 < old(self).chars@.len(),
        ensures
            final(self).wf(),
            final(self).chars == old(self).chars,
            final(self).file == old(self).file,
            final(self).tokens == old(self).tokens,
            ({
                let i = old(self).pos as int;
                let (e, depth) = block_end(old(self).chars@, i + 2, 1);
                &&& final(self).pos == e
                &&& views(final(self).diagnostics@) == views(old(self).diagnostics@)
                    + if depth > 0 {
                    seq![
                        lex_error(
                            old(self).file@,
                            "unterminated block comment"@,
                            pos_at(old(self).chars@, i),
                            pos_at(old(self).chars@, e),
                        ),
                    ]
                } else {
                    Seq::empty()
                }
            }),
    {
        let start = self.snapshot();
        self.advance();
        self.advance();
        let ghost from = self.pos as int;
        let mut depth: usize = 1;
        while self.pos < self.chars.len() && depth > 0
            invariant
                self.moved_from(*old(self)),
                depth <= self.pos,
                block_end(self.chars@, self.pos as int, depth as nat) == block_end(
                    self.chars@,
                    from,
                    1,
                ),
            decreases self.chars@.len() - self.pos,
        {
            let c = self.chars[self.pos];
            let n = self.peek_char(1);
            if c == '/' && n == Some('*') {
                depth += 1;
                self.advance();
                self.advance();
            } else if c == '*' && n == Some('/') {
                depth -= 1;
                self.advance();
                self.advance();
            } else {
                self.advance();
            }
        }
        if depth > 0 {
            let end = self.snapshot();
            self.diag(owned("unterminated block comment"), start, end);
            assert(views(self.diagnostics@) =~= views(old(self).diagnostics@) + seq![
                views(self.diagnostics@).last(),
            ]);
        } else {
            assert(views(self.diagnostics@) =~= views(old(self).diagnostics@)
                + Seq::<DiagnosticView>::empty());
        }
    }

    /// Skips a string nested in an interpolation up to its closing quote.
    fn skip_nested(&mut self, quote: char)
        requires
            old(self).wf(),
        ensures
            final(self).moved_from(*old(self)),
            final(self).pos == nested_end(old(self).chars@, old(self).pos as int, quote),
    {
        while self.pos < self.chars.len() && self.chars[self.pos] != quote
            invariant
                self.moved_from(*old(self)),
                nested_end(self.chars@, self.pos as int, quote) == nested_end(
                    old(self).chars@,
                    old(self).pos as int,
                    quote,
                ),
            decreases self.chars@.len() - self.pos,
        {
            let escaped = self.chars[self.pos] == '\\';
            proof {
                lemma_nested_end(self.chars@, self.pos + 2, quote);
                lemma_nested_end(self.chars@, self.pos + 1, quote);
            }
            self.advance();
            if escaped && self.pos < self.chars.len() {
                self.advance();
            }
        }
    }

    /// Skips the expression of an interpolation up to its closing brace.
    fn skip_interp(&mut self, q: char) -> (closed: bool)
        requires
            old(self).wf(),
            old(self).pos >= 1,
        ensures
            final(self).moved_from(*old(self)),
            (final(self).pos as int, closed) == interp_end(
                old(self).chars@,
                q,
                old(self).pos as int,
                1,
            ),
    {
        let mut depth: usize = 1;
        while self.pos < self.chars.len()
            invariant
                self.moved_from(*old(self)),
                1 <= depth <= self.pos,
                interp_end(self.chars@, q, self.pos as int, depth as nat) == interp_end(
                    old(self).chars@,
                    q,
                    old(self).pos as int,
                    1,
                ),
            decreases self.chars@.len() - self.pos,
        {
            let c = self.chars[self.pos];
            if c == '{' {
                depth += 1;
                self.advance();
            } else if c == '}' {
                if depth == 1 {
                    return true;
                }
                depth -= 1;
                self.advance();
            } else if c == '"' || (q == '\'' && c == '\'') {
                self.advance();
                proof {
                    lemma_nested_end(self.chars@, self.pos as int, c);
                }
                self.skip_nested(c);
                if self.pos < self.chars.len() {
                    self.advance();
                } else {
                    proof {
                        let n = self.chars@.len() as int;
                        assert(interp_end(self.chars@, q, n + 1, depth as nat) == (n, false));
                        assert(interp_end(self.chars@, q, n, depth as nat) == (n, false));
                    }
                }
            } else {
                self.advance();
            }
        }
        false
    }

    /// A quoted string. The caller is at the opening quote `q`.
    fn read_quoted(&mut self, q: char)
        requires
            old(self).wf(),
            old(self).pos < old(self).chars@.len(),
            old(self).chars@[old(self).pos as int] == q,
        ensures
            final(self).wf(),
            final(self).chars == old(self).chars,
            final(self).file == old(self).file,
            final(self)@ == applied(
                old(self)@,
                scan_string(old(self).chars@, old(self).file@, old(self).pos as int),
            ),
    {
        let start = self.snapshot();
        let from: usize = self.pos;
        let ghost chars = self.chars@;
        let ghost file = self.file@;
        let ghost had = views(self.diagnostics@);
        let ghost whole = str_rest(chars, file, from as int, q, from + 1, no_parts());
        self.advance();
        let mut parts: Vec<InterpPart> = Vec::new();
        let mut literal = String::new();
        let mut has_interp = false;
        let ghost mut acc = no_parts();
        assert(views(parts@) =~= acc.parts);
        assert(had + acc.diags =~= had);
        while self.pos < self.chars.len()
            invariant_except_break
                self.wf(),
                self.chars == old(self).chars,
                self.file == old(self).file,
                self.tokens == old(self).tokens,
                chars == self.chars@,
                file == self.file@,
                had == views(old(self).diagnostics@),
                from == old(self).pos,
                from < self.pos,
                q == chars[from as int],
                start == pos_at(chars, from as int),
                whole == str_rest(chars, file, from as int, q, from + 1, no_parts()),
                whole == str_rest(chars, file, from as int, q, self.pos as int, acc),
                acc.parts == views(parts@),
                acc.literal == literal@,
                acc.interp == has_interp,
                views(self.diagnostics@) == had + acc.diags,
            ensures
                self.wf(),
                self.chars == old(self).chars,
                self.file == old(self).file,
                self.tokens == old(self).tokens,
                self.pos == self.chars@.len(),
                views(self.diagnostics@) == had + acc.diags,
                whole == str_failed(
                    chars,
                    file,
                    from as int,
                    acc,
                    chars.len() as int,
                    "unterminated string at end of file"@,
                ),
            decreases self.chars@.len() - self.pos,
        {
            let c = self.chars[self.pos];
            if c == q {
                self.advance();
                if has_interp {
                    if !literal.as_str().is_empty() {
                        proof {
                            lemma_views_push(parts@, InterpPart::Lit(literal));
                        }
                        parts.push(InterpPart::Lit(literal));
                    }
                    assert(views(parts@) == flushed(acc));
                    let text = self.slice(from);
                    self.emit(
                        TokenKind::StrInterp,
                        text,
                        start,
                        Some(TokenValue::Interp(parts)),
                    );
                } else {
                    let text = self.slice(from);
                    self.emit(TokenKind::Str, text, start, Some(TokenValue::Str(literal)));
                }
                assert(self@ =~= applied(
                    old(self)@,
                    scan_string(old(self).chars@, old(self).file@, old(self).pos as int),
                ));
                return ;
            }
            if c == '\\' {
                self.advance();
                if self.pos >= self.chars.len() {
                    break ;
                }
                let e = self.chars[self.pos];
                match meaning(q, e) {
                    Some(m) => {
                        literal.push(m);
                        proof {
                            acc = StrAcc { literal: acc.literal.push(m), ..acc };
                        }
                    },
                    None => {
                        if q == '"' {
                            let p = self.snapshot();
                            let mut shown = String::new();
                            shown.push(e);
                            assert(shown@ =~= seq![e]);
                            self.diag(
                                cat3("unknown string escape '\\", shown.as_str(), "'"),
                                p,
                                p,
                            );
                            proof {
                                let d = lex_error(
                                    file,
                                    "unknown string escape '\\"@ + seq![e] + "'"@,
                                    p,
                                    p,
                                );
                                assert((had + acc.diags).push(d) =~= had + acc.diags.push(d));
                                acc = StrAcc { diags: acc.diags.push(d), ..acc };
                            }
                        } else {
                            literal.push('\\');
                            literal.push(e);
                            proof {
                                acc = StrAcc { literal: acc.literal.push('\\').push(e), ..acc };
                            }
                        }
                    },
                }
                self.advance();
                continue ;
            }
            if c == '$' && self.peek_char(1) == Some('{') {
                let ghost opened = StrAcc {
                    parts: flushed(acc),
                    literal: Seq::empty(),
                    interp: true,
                    ..acc
                };
                has_interp = true;
                if !literal.as_str().is_empty() {
                    proof {
                        lemma_views_push(parts@, InterpPart::Lit(literal));
                    }
                    parts.push(InterpPart::Lit(literal));
                    literal = String::new();
                } else {
                    assert(literal@ =~= Seq::empty());
                }
                self.advance();
                self.advance();
                let expr_start = self.snapshot();
                let expr_from: usize = self.pos;
                proof {
                    lemma_interp_end(chars, q, self.pos as int, 1);
                }
                let closed = self.skip_interp(q);
                let expr_end = self.snapshot();
                if !closed {
                    self.diag(owned("unterminated string interpolation"), start, expr_end);
                    proof {
                        let d = lex_error(
                            file,
                            "unterminated string interpolation"@,
                            start,
                            expr_end,
                        );
                        assert((had + acc.diags).push(d) =~= had + acc.diags.push(d));
                        assert(whole == str_failed(
                            chars,
                            file,
                            from as int,
                            opened,
                            self.pos as int,
                            "unterminated string interpolation"@,
                        ));
                    }
                    assert(self@ =~= applied(
                        old(self)@,
                        scan_string(old(self).chars@, old(self).file@, old(self).pos as int),
                    ));
                    return ;
                }
                let source = self.slice(expr_from);
                let part = InterpPart::Expr { source, start: expr_start, end: expr_end };
                proof {
                    lemma_views_push(parts@, part);
                }
                parts.push(part);
                proof {
                    acc = StrAcc { parts: opened.parts.push(part@), ..opened };
                }
                self.advance();
                continue ;
            }
            if c == '\n' {
                let end = self.snapshot();
                self.diag(owned("unterminated string"), start, end);
                proof {
                    let d = lex_error(file, "unterminated string"@, start, end);
                    assert((had + acc.diags).push(d) =~= had + acc.diags.push(d));
                }
                assert(self@ =~= applied(
                    old(self)@,
                    scan_string(old(self).chars@, old(self).file@, old(self).pos as int),
                ));
                return ;
            }
            literal.push(c);
            proof {
                acc = StrAcc { literal: acc.literal.push(c), ..acc };
            }
            self.advance();
        }
        let end = self.snapshot();
        self.diag(owned("unterminated string at end of file"), start, end);
        proof {
            let d = lex_error(file, "unterminated string at end of file"@, start, end);
            assert((had + acc.diags).push(d) =~= had + acc.diags.push(d));
        }
        assert(self@ =~= applied(
            old(self)@,
            scan_string(old(self).chars@, old(self).file@, old(self).pos as int),
        ));
    }

    fn read_string(&mut self)
        requires
            old(self).wf(),
            old(self).pos < old(self).chars@.len(),
            old(self).chars@[old(self).pos as int] == '"',
        ensures
            final(self).wf(),
            final(self).chars == old(self).chars,
            final(self).file == old(self).file,
            final(self)@ == applied(
                old(self)@,
                scan_string(old(self).chars@, old(self).file@, old(self).pos as int),
            ),
    {
        self.read_quoted('"');
    }

    fn read_single_quote_string(&mut self)
        requires
            old(self).wf(),
            old(self).pos < old(self).chars@.len(),
            old(self).chars@[old(self).pos as int] == '\'',
        ensures
            final(self).wf(),
            final(self).chars == old(self).chars,
            final(self).file == old(self).file,
            final(self)@ == applied(
                old(self)@,
                scan_string(old(self).chars@, old(self).file@, old(self).pos as int),
            ),
    {
        self.read_quoted('\'');
    }

    fn read_number(&mut self)
        requires
            old(self).wf(),
            old(self).pos < old(self).chars@.len(),
            is_digit(old(self).chars@[old(self).pos as int]),
        ensures
            final(self).wf(),
            final(self).chars == old(self).chars,
            final(self).file == old(self).file,
            final(self)@ == applied(
                old(self)@,
                scan_number(old(self).chars@, old(self).pos as int),
            ),
    {
        let start = self.snapshot();
        let from: usize = self.pos;
        let ghost i = from as int;
        let zero = self.chars[self.pos] == '0';
        let mark = self.peek_char(1);
        let radix = if zero && (mark == Some('x') || mark == Some('X')) {
            Some(CharClass::HexOrGap)
        } else if zero && (mark == Some('b') || mark == Some('B')) {
            Some(CharClass::BinOrGap)
        } else if zero && (mark == Some('o') || mark == Some('O')) {
            Some(CharClass::OctOrGap)
        } else {
            None
        };
        if let Some(class) = radix {
            self.advance();
            self.advance();
            proof {
                lemma_span(self.chars@, self.pos as int, class);
            }
            self.skip(class);
            self.emit_from(TokenKind::Int, start, from, None, Ghost(i));
            return ;
        }
        proof {
            lemma_span(self.chars@, i, CharClass::DigitOrGap);
        }
        self.skip(CharClass::DigitOrGap);
        let whole: usize = self.pos;
        proof {
            lemma_fraction_end(self.chars@, self.pos as int);
        }
        if self.peek_char(0) == Some('.') {
            if let Some(d) = self.peek_char(1) {
                if digit(d) {
                    self.advance();
                    self.skip(CharClass::DigitOrGap);
                }
            }
        }
        proof {
            lemma_exponent_end(self.chars@, self.pos as int);
        }
        if self.peek_char(0) == Some('e') || self.peek_char(0) == Some('E') {
            self.advance();
            if self.peek_char(0) == Some('+') || self.peek_char(0) == Some('-') {
                self.advance();
            }
            self.skip(CharClass::Digit);
        }
        let kind = if self.pos > whole {
            TokenKind::Float
        } else {
            TokenKind::Int
        };
        self.emit_from(kind, start, from, None, Ghost(i));
    }

    fn read_ident(&mut self)
        requires
            old(self).wf(),
            old(self).pos < old(self).chars@.len(),
        ensures
            final(self).wf(),
            final(self).chars == old(self).chars,
            final(self).file == old(self).file,
            final(self)@ == applied(
                old(self)@,
                scan_ident(old(self).chars@, old(self).pos as int),
            ),
    {
        let start = self.snapshot();
        let from: usize = self.pos;
        let ghost i = from as int;
        proof {
            lemma_span(self.chars@, i, CharClass::IdentCont);
        }
        self.skip(CharClass::IdentCont);
        let text = self.slice(from);
        let kind = if keyword_set().contains(text.as_str()) {
            TokenKind::Kw
        } else {
            TokenKind::Ident
        };
        self.emit_from(kind, start, from, None, Ghost(i));
    }

    /// The text of the next `n` characters, or none where fewer are left.
    fn look_ahead(&self, n: usize) -> (r: String)
        requires
            self.wf(),
            n < 4,
        ensures
            r@ == ahead(self.chars@, self.pos as int, n as int),
    {
        let left: usize = self.chars.len() - self.pos;
        if n <= left {
            string_of(&self.chars, self.pos, self.pos + n)
        } else {
            String::new()
        }
    }

    fn find_punct(&self) -> (r: Option<(TokenKind, usize)>)
        requires
            self.wf(),
            self.pos < self.chars@.len(),
        ensures
            r is Some <==> punct_at(self.chars@, self.pos as int) is Some,
            r matches Some(p) ==> punct_at(self.chars@, self.pos as int) == Some(
                (p.0, p.1 as int),
            ),
    {
        let two = self.look_ahead(2);
        let three = self.look_ahead(3);
        if str_eq(two.as_str(), "->") {
            return Some((TokenKind::Arrow, 2));
        }
        if str_eq(two.as_str(), "=>") {
            return Some((TokenKind::FatArrow, 2));
        }
        if is_three_char_op(three.as_str()) {
            return Some((TokenKind::Op, 3));
        }
        if is_two_char_op(two.as_str()) {
            return Some((TokenKind::Op, 2));
        }
        match single_kind(self.chars[self.pos]) {
            Some(kind) => Some((kind, 1)),
            None => None,
        }
    }

    fn read_punct(&mut self) -> (r: bool)
        requires
            old(self).wf(),
            old(self).pos < old(self).chars@.len(),
        ensures
            final(self).wf(),
            final(self).chars == old(self).chars,
            final(self).file == old(self).file,
            r == (punct_at(old(self).chars@, old(self).pos as int) is Some),
            !r ==> *final(self) == *old(self),
            punct_at(old(self).chars@, old(self).pos as int) matches Some((kind, n))
                ==> final(self)@ == applied(
                old(self)@,
                token(
                    old(self).chars@,
                    kind,
                    old(self).pos as int,
                    old(self).pos as int,
                    old(self).pos + n,
                    None,
                ),
            ),
    {
        let start = self.snapshot();
        let from: usize = self.pos;
        let ghost i = from as int;
        match self.find_punct() {
            None => false,
            Some((kind, n)) => {
                proof {
                    lemma_punct_fits(self.chars@, i);
                }
                let mut k: usize = 0;
                while k < n
                    invariant
                        k <= n,
                        self.moved_from(*old(self)),
                        self.pos == i + k,
                        i + n <= self.chars@.len(),
                    decreases n - k,
                {
                    self.advance();
                    k += 1;
                }
                self.emit_from(kind, start, from, None, Ghost(i));
                true
            },
        }
    }

    fn read_stray(&mut self)
        requires
            old(self).wf(),
            old(self).pos < old(self).chars@.len(),
            old(self).chars@[old(self).pos as int] != '\n',
        ensures
            final(self).wf(),
            final(self).chars == old(self).chars,
            final(self).file == old(self).file,
            final(self)@ == applied(
                old(self)@,
                stray(old(self).chars@, old(self).file@, old(self).pos as int),
            ),
    {
        let ghost i = self.pos as int;
        let start = self.snapshot();
        let c = self.chars[self.pos];
        proof {
            offsets_count_bytes(self.chars@, i);
            offsets_count_bytes(self.chars@, i + 1);
            lemma_char_bytes(c);
            lemma_encode_concat(self.chars@.take(i), seq![c]);
            assert(self.chars@.take(i) + seq![c] =~= self.chars@.take(i + 1));
        }
        let bytes = bytes_of(c);
        let ghost had = views(self.diagnostics@);
        let ghost all = stray(self.chars@, self.file@, i).diags;
        let mut k: usize = 0;
        assert(had =~= had + all.take(0));
        while k < bytes.len()
            invariant
                k <= bytes@.len(),
                self.wf(),
                self.pos == i,
                i == old(self).pos,
                c == self.chars@[i],
                self.chars == old(self).chars,
                self.file == old(self).file,
                self.tokens == old(self).tokens,
                start == pos_at(self.chars@, i),
                start.offset + bytes@.len() < usize::MAX,
                start.col <= start.offset + 1,
                bytes@ == char_bytes(c),
                all == stray(self.chars@, self.file@, i).diags,
                views(self.diagnostics@) == had + all.take(k as int),
            decreases bytes.len() - k,
        {
            let mut shown = String::new();
            shown.push(bytes[k] as char);
            assert(shown@ =~= seq![bytes@[k as int] as char]);
            let from = Pos { offset: start.offset + k, line: start.line, col: start.col + k };
            let to = Pos {
                offset: start.offset + k + 1,
                line: start.line,
                col: start.col + k + 1,
            };
            self.diag(cat3("unexpected character '", shown.as_str(), "'"), from, to);
            assert((had + all.take(k as int)).push(all[k as int]) =~= had + all.take(k + 1));
            k += 1;
        }
        assert(all.take(k as int) =~= all);
        self.advance();
        assert(self@ =~= applied(old(self)@, stray(old(self).chars@, old(self).file@, i)));
    }

    /// Reads what stands at the current place.
    fn read_one(&mut self)
        requires
            old(self).wf(),
            old(self).pos < old(self).chars@.len(),
        ensures
            final(self).wf(),
            final(self).chars == old(self).chars,
            final(self).file == old(self).file,
            final(self)@ == applied(
                old(self)@,
                scan(old(self).chars@, old(self).file@, old(self).pos as int),
            ),
    {
        let ghost i = self.pos as int;
        let ghost sc = scan(self.chars@, self.file@, i);
        proof {
            scan_moves_on(self.chars@, self.file@, i);
        }
        let c = self.chars[self.pos];
        let next = self.peek_char(1);
        if c == '/' && next == Some('/') {
            let start = self.snapshot();
            if self.peek_char(2) == Some('/') {
                self.advance();
                self.advance();
                self.advance();
                if self.peek_char(0) == Some(' ') {
                    self.advance();
                }
                let from: usize = self.pos;
                proof {
                    lemma_span(self.chars@, self.pos as int, CharClass::NotNewline);
                }
                self.skip(CharClass::NotNewline);
                self.emit_from(TokenKind::DocComment, start, from, None, Ghost(i));
            } else {
                self.skip(CharClass::NotNewline);
                assert(self@ =~= applied(old(self)@, sc));
            }
            return ;
        }
        if c == '/' && next == Some('*') {
            self.read_block_comment();
            assert(self@ =~= applied(old(self)@, sc));
            return ;
        }
        if c == ' ' || c == '\t' || c == '\r' {
            self.advance();
            assert(self@ =~= applied(old(self)@, sc));
            return ;
        }
        if c == '\n' {
            let start = self.snapshot();
            let from: usize = self.pos;
            self.advance();
            self.emit_from(TokenKind::Newline, start, from, None, Ghost(i));
            return ;
        }
        if c == '"' {
            self.read_string();
            return ;
        }
        if c == '\'' {
            self.read_single_quote_string();
            return ;
        }
        if digit(c) {
            self.read_number();
            return ;
        }
        if is_ident_start(c) {
            self.read_ident();
            return ;
        }
        let word_follows = match next {
            Some(n) => is_ident_start(n),
            None => false,
        };
        if c == '$' && (word_follows || next == Some('.') || next == Some('/')) {
            self.read_asset_ref();
            return ;
        }
        if c == '@' && word_follows {
            let start = self.snapshot();
            self.advance();
            let from: usize = self.pos;
            proof {
                lemma_span(self.chars@, self.pos as int, CharClass::IdentCont);
            }
            self.skip(CharClass::IdentCont);
            self.emit_from(TokenKind::Annotation, start, from, None, Ghost(i));
            return ;
        }
        if self.read_punct() {
            return ;
        }
        self.read_stray();
    }

    fn run(self) -> (r: LexResult)
        requires
            self.wf(),
            self@ == nothing_read(),
        ensures
            views(r.tokens@) == tokens_of(self.chars@, self.file@),
            views(r.diagnostics@) == lex_errors(self.chars@, self.file@),
    {
        let mut lx = self;
        let ghost chars = lx.chars@;
        let ghost file = lx.file@;
        while lx.pos < lx.chars.len()
            invariant
                lx.wf(),
                lx.chars@ == chars,
                lx.file@ == file,
                lexed_from(chars, file, lx@) == lexed_from(chars, file, nothing_read()),
            decreases lx.chars@.len() - lx.pos,
        {
            proof {
                scan_moves_on(chars, file, lx.pos as int);
            }
            lx.read_one();
        }
        let p = lx.snapshot();
        let t = Token { kind: TokenKind::Eof, text: String::new(), start: p, end: p, value: None };
        proof {
            lemma_views_push(lx.tokens@, t);
            assert(t@ =~= eof(chars));
        }
        let mut tokens = lx.tokens;
        tokens.push(t);
        LexResult { tokens, diagnostics: lx.diagnostics }
    }
}

fn char_width(c: char) -> (r: usize)
    ensures
        r == char_bytes(c).len(),
{
    bytes_of(c).len()
}

fn bytes_of(c: char) -> (r: Vec<u8>)
    ensures
        r@ == char_bytes(c),
{
    let mut s = String::new();
    s.push(c);
    assert(s@ =~= seq![c]);
    s.as_str().as_bytes_vec()
}

fn meaning(q: char, c: char) -> (r: Option<char>)
    ensures
        r == escape(q, c),
{
    if c == 'n' {
        Some('\n')
    } else if c == 't' {
        Some('\t')
    } else if c == '\\' {
        Some('\\')
    } else if c == '$' {
        Some('$')
    } else if c == q {
        Some(q)
    } else if q == '"' && c == 'r' {
        Some('\r')
    } else if q == '"' && c == '0' {
        Some('\0')
    } else {
        None
    }
}

fn is_three_char_op(s: &str) -> (r: bool)
    ensures
        r == among(THREE_CHAR_OPS@, s@),
{
    let mut i: usize = 0;
    while i < THREE_CHAR_OPS.len()
        invariant
            i <= THREE_CHAR_OPS@.len(),
            forall|k: int| 0 <= k < i ==> (#[trigger] THREE_CHAR_OPS@[k])@ != s@,
        decreases THREE_CHAR_OPS@.len() - i,
    {
        if str_eq(THREE_CHAR_OPS[i], s) {
            assert(THREE_CHAR_OPS@[i as int]@ == s@);
            return true;
        }
        i += 1;
    }
    false
}

fn is_two_char_op(s: &str) -> (r: bool)
    ensures
        r == among(TWO_CHAR_OPS@, s@),
{
    let mut i: usize = 0;
    while i < TWO_CHAR_OPS.len()
        invariant
            i <= TWO_CHAR_OPS@.len(),
            forall|k: int| 0 <= k < i ==> (#[trigger] TWO_CHAR_OPS@[k])@ != s@,
        decreases TWO_CHAR_OPS@.len() - i,
    {
        if str_eq(TWO_CHAR_OPS[i], s) {
            assert(TWO_CHAR_OPS@[i as int]@ == s@);
            return true;
        }
        i += 1;
    }
    false
}

fn single_kind(c: char) -> (r: Option<TokenKind>)
    ensures
        r == single_punct(c),
{
    if c == '(' {
        Some(TokenKind::LParen)
    } else if c == ')' {
        Some(TokenKind::RParen)
    } else if c == '{' {
        Some(TokenKind::LBrace)
    } else if c == '}' {
        Some(TokenKind::RBrace)
    } else if c == '[' {
        Some(TokenKind::LBracket)
    } else if c == ']' {
        Some(TokenKind::RBracket)
    } else if c == ',' {
        Some(TokenKind::Comma)
    } else if c == ';' {
        Some(TokenKind::Semi)
    } else if c == ':' {
        Some(TokenKind::Colon)
    } else if c == '.' {
        Some(TokenKind::Dot)
    } else if c == '?' {
        Some(TokenKind::Question)
    } else if c == '$' {
        Some(TokenKind::Dollar)
    } else if c == '&' || c == '|' || c == '^' || c == '~' || c == '+' || c == '-' || c == '*' || c
        == '/' || c == '%' || c == '=' || c == '<' || c == '>' || c == '!' {
        Some(TokenKind::Op)
    } else {
        None
    }
}

/// Splits a source text into tokens.
pub fn lex(source: &str, file: &str) -> (r: LexResult)
    requires
        countable(source@),
    ensures
        views(r.tokens@) == tokens_of(source@, file@),
        views(r.diagnostics@) == lex_errors(source@, file@),
{
    Lexer::new(source, file).run()
}

} // verus!
