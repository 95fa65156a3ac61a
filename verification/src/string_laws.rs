//! What is read inside strings, and what is reported of a text.

use crate::diagnostic::{DiagnosticView, Severity};
use crate::lexer::{
    applied, at, char_bytes, escape, flushed, interp_end, lemma_interp_end, lex_errors, lexed_from,
    nested_end, no_parts, nothing_read, pos_at, scan, scan_number, scan_string, str_rest, stray,
    tokens_of, CharClass, Lexed, PartView, StrAcc, TokenKind, ValueView,
};
use crate::lexer_laws::{
    digit, digits, lemma_alone, lemma_not_listed, lemma_plain_run, lemma_span_run, lexes_to,
    plain_in, plain_text,
};
use vstd::prelude::*;

verus! {

// ---------- numbers ----------

/// Gaps in a fraction are part of the number.
pub proof fn gaps_stay_in_the_fraction(a: Seq<char>, b: Seq<char>, file: Seq<char>)
    requires
        digits(a),
        b.len() > 0,
        digit(b[0]),
        forall|m: int| 0 <= m < b.len() ==> digit(#[trigger] b[m]) || b[m] == '_',
    ensures
        lexes_to(a + "."@ + b, file, TokenKind::Float, a + "."@ + b, None),
{
    reveal_strlit(".");
    let chars = a + "."@ + b;
    let n = chars.len() as int;
    let k = a.len() as int;
    assert(chars[k] == '.');
    assert forall|m: int| 0 <= m < k implies digit(#[trigger] chars[m]) by {
        assert(chars[m] == a[m]);
    }
    assert forall|m: int| k < m < n implies digit(#[trigger] chars[m]) || chars[m] == '_' by {
        assert(chars[m] == b[m - k - 1]);
    }
    assert(digit(chars[0]));
    assert(chars[k + 1] == b[0]);
    if k > 1 {
        assert(digit(chars[1]));
    }
    lemma_span_run(chars, 0, k, CharClass::DigitOrGap);
    lemma_span_run(chars, k + 1, n, CharClass::DigitOrGap);
    assert(chars.subrange(0, n) =~= chars);
    assert(scan(chars, file, 0) == scan_number(chars, 0));
    lemma_alone(chars, file);
}

// ---------- escapes ----------

/// What escapes stand for; a carriage return and a zero are known in
/// double-quoted strings only.
pub proof fn escapes_stand_for_characters(q: char, c: char, meant: char, file: Seq<char>)
    requires
        q == '"' || q == '\'',
        (c == 'n' && meant == '\n') || (c == 't' && meant == '\t') || (c == '\\' && meant == '\\')
            || (c == '$' && meant == '$') || (c == q && meant == q) || (q == '"' && c == 'r' && meant
            == '\r') || (q == '"' && c == '0' && meant == '\0'),
    ensures
        ({
            let chars = seq![q, '\\', c, q];
            lexes_to(chars, file, TokenKind::Str, chars, Some(ValueView::Str(seq![meant])))
        }),
{
    let chars = seq![q, '\\', c, q];
    reveal_with_fuel(str_rest, 3);
    assert(Seq::<char>::empty().push(meant) =~= seq![meant]);
    assert(chars.subrange(0, 4) =~= chars);
    assert(scan(chars, file, 0).next == 4);
    lemma_alone(chars, file);
}

/// A string ends at its line: one that is still open there is reported.
pub proof fn strings_end_with_their_line(s: Seq<char>, q: char, file: Seq<char>)
    requires
        q == '"' || q == '\'',
        plain_text(s),
    ensures
        ({
            let chars = seq![q] + s + seq!['\n'];
            &&& lex_errors(chars, file).len() > 0
            &&& lex_errors(chars, file)[0].message == "unterminated string"@
            &&& lex_errors(chars, file)[0].range.start == pos_at(chars, 0)
            &&& lex_errors(chars, file)[0].range.end == pos_at(chars, s.len() as int + 1)
        }),
{
    let chars = seq![q] + s + seq!['\n'];
    let n = chars.len() as int;
    assert forall|m: int| 1 <= m < n - 1 implies #[trigger] plain_in(chars, q, m) by {
        assert(chars[m] == s[m - 1]);
    }
    lemma_plain_run(chars, file, 0, q, 1, n - 1, no_parts());
    assert(chars[n - 1] == '\n');
    let sc = scan(chars, file, 0);
    assert(sc.next == n - 1);
    let st = applied(nothing_read(), sc);
    assert(lexed_from(chars, file, nothing_read()) == lexed_from(chars, file, st));
    lemma_diags_grow(chars, file, st);
    assert(st.diags =~= sc.diags);
    assert(st.diags[0] == lexed_from(chars, file, st).diags[0]);
}

proof fn lemma_diags_grow(chars: Seq<char>, file: Seq<char>, st: Lexed)
    ensures
        lexed_from(chars, file, st).diags.len() >= st.diags.len(),
        forall|i: int|
            0 <= i < st.diags.len() ==> #[trigger] st.diags[i] == lexed_from(
                chars,
                file,
                st,
            ).diags[i],
    decreases chars.len() - st.next,
{
    let sc = scan(chars, file, st.next);
    if 0 <= st.next < sc.next <= chars.len() {
        let after = applied(st, sc);
        lemma_diags_grow(chars, file, after);
        assert forall|i: int| 0 <= i < st.diags.len() implies #[trigger] st.diags[i] == lexed_from(
            chars,
            file,
            st,
        ).diags[i] by {
            assert(after.diags[i] == st.diags[i]);
        }
    }
}

// ---------- expressions in strings ----------

/// Whether a text is a string with one expression and nothing around it.
pub open spec fn only_expression(chars: Seq<char>, src: Seq<char>, file: Seq<char>) -> bool {
    &&& lex_errors(chars, file).len() == 0
    &&& tokens_of(chars, file).len() == 2
    &&& tokens_of(chars, file)[0].kind == TokenKind::StrInterp
    &&& tokens_of(chars, file)[0].value matches Some(ValueView::Interp(parts)) && parts.len() == 1
        && (parts[0] matches PartView::Expr { source, start, end } && source == src && start
        == pos_at(chars, 3) && end == pos_at(chars, src.len() as int + 3))
}

proof fn lemma_only(q: char, src: Seq<char>, file: Seq<char>)
    requires
        q == '"' || q == '\'',
        interp_end(seq![q, '$', '{'] + src + seq!['}', q], q, 3, 1) == (src.len() as int + 3, true),
    ensures
        only_expression(seq![q, '$', '{'] + src + seq!['}', q], src, file),
{
    let chars = seq![q, '$', '{'] + src + seq!['}', q];
    let f = src.len() as int + 3;
    assert(chars[0] == q && chars[1] == '$' && chars[2] == '{' && chars[f] == '}' && chars[f + 1]
        == q);
    assert(chars.subrange(3, f) =~= src);
    reveal_with_fuel(str_rest, 3);
    let r = str_rest(chars, file, 0, q, 1, no_parts());
    assert(r.next == f + 2 && r.closed);
    assert(scan(chars, file, 0) == scan_string(chars, file, 0));
    lemma_alone(chars, file);
}

proof fn lemma_run_to(chars: Seq<char>, q: char, j: int, k: int, depth: nat)
    requires
        0 <= j <= k <= chars.len(),
        forall|m: int|
            j <= m < k ==> #[trigger] chars[m] != '{' && chars[m] != '}' && chars[m] != '"'
                && chars[m] != '\'',
    ensures
        interp_end(chars, q, j, depth) == interp_end(chars, q, k, depth),
    decreases k - j,
{
    if j < k {
        lemma_run_to(chars, q, j + 1, k, depth);
    }
}

/// Braces inside an expression belong to it.
pub proof fn braces_nest_in_expressions(
    q: char,
    a: Seq<char>,
    b: Seq<char>,
    c: Seq<char>,
    file: Seq<char>,
)
    requires
        q == '"' || q == '\'',
        crate::lexer_laws::simple_source(a),
        crate::lexer_laws::simple_source(b),
        crate::lexer_laws::simple_source(c),
    ensures
        ({
            let src = a + seq!['{'] + b + seq!['}'] + c;
            only_expression(seq![q, '$', '{'] + src + seq!['}', q], src, file)
        }),
{
    let src = a + seq!['{'] + b + seq!['}'] + c;
    let chars = seq![q, '$', '{'] + src + seq!['}', q];
    let i = a.len() as int + 3;
    let k = i + 1 + b.len() as int;
    let f = src.len() as int + 3;
    assert(chars[i] == '{' && chars[k] == '}' && chars[f] == '}');
    assert forall|m: int| 3 <= m < i implies #[trigger] chars[m] != '{' && chars[m] != '}'
        && chars[m] != '"' && chars[m] != '\'' by {
        assert(chars[m] == a[m - 3]);
    }
    assert forall|m: int| i + 1 <= m < k implies #[trigger] chars[m] != '{' && chars[m] != '}'
        && chars[m] != '"' && chars[m] != '\'' by {
        assert(chars[m] == b[m - i - 1]);
    }
    assert forall|m: int| k + 1 <= m < f implies #[trigger] chars[m] != '{' && chars[m] != '}'
        && chars[m] != '"' && chars[m] != '\'' by {
        assert(chars[m] == c[m - k - 1]);
    }
    lemma_run_to(chars, q, 3, i, 1);
    lemma_run_to(chars, q, i + 1, k, 2);
    lemma_run_to(chars, q, k + 1, f, 1);
    assert(interp_end(chars, q, f, 1) == (f, true));
    assert(interp_end(chars, q, k, 2) == interp_end(chars, q, k + 1, 1));
    assert(interp_end(chars, q, i, 1) == interp_end(chars, q, i + 1, 2));
    lemma_only(q, src, file);
}

proof fn lemma_nested_run(chars: Seq<char>, j: int, k: int, quote: char)
    requires
        0 <= j <= k < chars.len(),
        chars[k] == quote,
        forall|m: int| j <= m < k ==> #[trigger] chars[m] != quote && chars[m] != '\\',
    ensures
        nested_end(chars, j, quote) == k,
    decreases k - j,
{
    if j < k {
        lemma_nested_run(chars, j + 1, k, quote);
    }
}

/// A string inside an expression hides its braces; an escaped quote does not end
/// it.
pub proof fn strings_hide_their_braces(q: char, s: Seq<char>, t: Seq<char>, file: Seq<char>)
    requires
        q == '"' || q == '\'',
        forall|m: int| 0 <= m < s.len() ==> #[trigger] s[m] != '"' && s[m] != '\\',
        forall|m: int| 0 <= m < t.len() ==> #[trigger] t[m] != '"' && t[m] != '\\',
    ensures
        ({
            let src = seq!['"'] + s + seq!['\\', '"'] + t + seq!['"'];
            only_expression(seq![q, '$', '{'] + src + seq!['}', q], src, file)
        }),
{
    let src = seq!['"'] + s + seq!['\\', '"'] + t + seq!['"'];
    let chars = seq![q, '$', '{'] + src + seq!['}', q];
    let i = s.len() as int + 4;
    let k = i + 2 + t.len() as int;
    assert(chars[3] == '"' && chars[i] == '\\' && chars[i + 1] == '"' && chars[k] == '"' && chars[k
        + 1] == '}');
    assert forall|m: int| i + 2 <= m < k implies #[trigger] chars[m] != '"' && chars[m] != '\\' by {
        assert(chars[m] == t[m - i - 2]);
    }
    lemma_nested_run(chars, i + 2, k, '"');
    assert(nested_end(chars, i, '"') == k);
    assert forall|m: int| 4 <= m < i implies #[trigger] chars[m] != '"' && chars[m] != '\\' by {
        assert(chars[m] == s[m - 4]);
    }
    lemma_nested_to(chars, 4, i, '"');
    assert(interp_end(chars, q, 3, 1) == interp_end(chars, q, k + 1, 1));
    assert(k + 1 == src.len() + 3);
    lemma_only(q, src, file);
}

proof fn lemma_nested_to(chars: Seq<char>, j: int, k: int, quote: char)
    requires
        0 <= j <= k <= chars.len(),
        forall|m: int| j <= m < k ==> #[trigger] chars[m] != quote && chars[m] != '\\',
    ensures
        nested_end(chars, j, quote) == nested_end(chars, k, quote),
    decreases k - j,
{
    if j < k {
        lemma_nested_to(chars, j + 1, k, quote);
    }
}

/// In a single-quoted string a single-quoted string inside an expression hides
/// its braces too; in a double-quoted one a single quote starts nothing.
pub proof fn single_quotes_in_expressions(s: Seq<char>, file: Seq<char>)
    requires
        forall|m: int|
            0 <= m < s.len() ==> #[trigger] s[m] != '"' && s[m] != '\'' && s[m] != '\\' && s[m]
                != '{',
    ensures
        ({
            let src = seq!['\''] + s + seq!['\''];
            only_expression(seq!['\'', '$', '{'] + src + seq!['}', '\''], src, file)
        }),
        crate::lexer_laws::simple_source(s) ==> ({
            let src = seq!['\''] + s;
            only_expression(seq!['"', '$', '{'] + src + seq!['}', '"'], src, file)
        }),
{
    let src = seq!['\''] + s + seq!['\''];
    let chars = seq!['\'', '$', '{'] + src + seq!['}', '\''];
    let k = s.len() as int + 4;
    assert(chars[3] == '\'' && chars[k] == '\'' && chars[k + 1] == '}');
    assert forall|m: int| 4 <= m < k implies #[trigger] chars[m] != '\'' && chars[m] != '\\' by {
        assert(chars[m] == s[m - 4]);
    }
    lemma_nested_run(chars, 4, k, '\'');
    assert(interp_end(chars, '\'', 3, 1) == interp_end(chars, '\'', k + 1, 1));
    lemma_only('\'', src, file);
    if crate::lexer_laws::simple_source(s) {
        let src2 = seq!['\''] + s;
        let chars2 = seq!['"', '$', '{'] + src2 + seq!['}', '"'];
        let f = src2.len() as int + 3;
        assert(chars2[3] == '\'' && chars2[f] == '}');
        assert forall|m: int| 4 <= m < f implies #[trigger] chars2[m] != '{' && chars2[m] != '}'
            && chars2[m] != '"' && chars2[m] != '\'' by {
            assert(chars2[m] == s[m - 4]);
        }
        lemma_run_to(chars2, '"', 4, f, 1);
        assert(interp_end(chars2, '"', 3, 1) == interp_end(chars2, '"', 4, 1));
        assert(interp_end(chars2, '"', f, 1) == (f, true));
        lemma_only('"', src2, file);
    }
}

/// An expression that is not closed is reported, from the start of its string.
pub proof fn open_expressions_are_reported(q: char, e: Seq<char>, file: Seq<char>)
    requires
        q == '"' || q == '\'',
        crate::lexer_laws::simple_source(e),
    ensures
        ({
            let chars = seq![q, '$', '{'] + e;
            &&& tokens_of(chars, file).len() == 1
            &&& lex_errors(chars, file).len() == 1
            &&& lex_errors(chars, file)[0].message == "unterminated string interpolation"@
            &&& lex_errors(chars, file)[0].range.start == pos_at(chars, 0)
            &&& lex_errors(chars, file)[0].range.end == pos_at(chars, chars.len() as int)
        }),
{
    let chars = seq![q, '$', '{'] + e;
    let n = chars.len() as int;
    assert(chars[0] == q && chars[1] == '$' && chars[2] == '{');
    assert forall|m: int| 3 <= m < n implies #[trigger] chars[m] != '{' && chars[m] != '}'
        && chars[m] != '"' && chars[m] != '\'' by {
        assert(chars[m] == e[m - 3]);
    }
    lemma_run_to(chars, q, 3, n, 1);
    assert(interp_end(chars, q, n, 1) == (n, false));
    assert(scan(chars, file, 0).next == n);
    lemma_alone(chars, file);
}

// ---------- reports ----------

/// Whether a report is an error of the lexer in a file.
pub open spec fn lexer_error(d: DiagnosticView, file: Seq<char>) -> bool {
    d.severity == Severity::Error && d.code == "WSP001"@ && d.range.file == file
}

/// Whatever the lexer reports is an error, under one code, in the file that it
/// reads.
pub proof fn reports_are_errors(chars: Seq<char>, file: Seq<char>, i: int)
    requires
        0 <= i < lex_errors(chars, file).len(),
    ensures
        lexer_error(lex_errors(chars, file)[i], file),
{
    lemma_reports(chars, file, nothing_read(), i);
}

proof fn lemma_reports(chars: Seq<char>, file: Seq<char>, st: Lexed, i: int)
    requires
        forall|k: int| 0 <= k < st.diags.len() ==> lexer_error(#[trigger] st.diags[k], file),
        0 <= i < lexed_from(chars, file, st).diags.len(),
    ensures
        lexer_error(lexed_from(chars, file, st).diags[i], file),
    decreases chars.len() - st.next,
{
    let sc = scan(chars, file, st.next);
    if 0 <= st.next < sc.next <= chars.len() {
        let c = chars[st.next];
        if c == '"' || c == '\'' {
            lemma_string_reports(chars, file, st.next, c, st.next + 1, no_parts());
        }
        assert forall|k: int| 0 <= k < sc.diags.len() implies lexer_error(
            #[trigger] sc.diags[k],
            file,
        ) by {}
        let after = applied(st, sc);
        assert forall|k: int| 0 <= k < after.diags.len() implies lexer_error(
            #[trigger] after.diags[k],
            file,
        ) by {
            if k < st.diags.len() {
                assert(after.diags[k] == st.diags[k]);
            } else {
                assert(after.diags[k] == sc.diags[k - st.diags.len()]);
            }
        }
        lemma_reports(chars, file, after, i);
    }
}

proof fn lemma_string_reports(
    chars: Seq<char>,
    file: Seq<char>,
    start: int,
    q: char,
    j: int,
    acc: StrAcc,
)
    requires
        forall|k: int| 0 <= k < acc.diags.len() ==> lexer_error(#[trigger] acc.diags[k], file),
    ensures
        ({
            let r = str_rest(chars, file, start, q, j, acc);
            forall|k: int| 0 <= k < r.acc.diags.len() ==> lexer_error(#[trigger] r.acc.diags[k], file)
        }),
    decreases chars.len() - j,
{
    let r = str_rest(chars, file, start, q, j, acc);
    if j < 0 || j >= chars.len() || (chars[j] != q && ((chars[j] == '\\' && j + 1 >= chars.len()) || (
    chars[j] == '$' && at(chars, j + 1) == Some('{') && !interp_end(chars, q, j + 2, 1).1)
        || chars[j] == '\n')) {
        assert(r.acc.diags.drop_last() =~= acc.diags);
        assert forall|k: int| 0 <= k < r.acc.diags.len() implies lexer_error(
            #[trigger] r.acc.diags[k],
            file,
        ) by {
            if k < acc.diags.len() {
                assert(r.acc.diags[k] == acc.diags[k]);
            }
        }
    } else if chars[j] != q {
        let (to, more) = if chars[j] == '\\' {
            let c = chars[j + 1];
            match escape(q, c) {
                Some(meant) => (j + 2, StrAcc { literal: acc.literal.push(meant), ..acc }),
                None => if q == '"' {
                    let d = crate::lexer::lex_error(
                        file,
                        "unknown string escape '\\"@ + seq![c] + "'"@,
                        pos_at(chars, j + 1),
                        pos_at(chars, j + 1),
                    );
                    (j + 2, StrAcc { diags: acc.diags.push(d), ..acc })
                } else {
                    (j + 2, StrAcc { literal: acc.literal.push('\\').push(c), ..acc })
                },
            }
        } else if chars[j] == '$' && at(chars, j + 1) == Some('{') {
            let e = interp_end(chars, q, j + 2, 1).0;
            let part = PartView::Expr {
                source: chars.subrange(j + 2, e),
                start: pos_at(chars, j + 2),
                end: pos_at(chars, e),
            };
            (
                e + 1,
                StrAcc {
                    parts: flushed(acc).push(part),
                    literal: Seq::empty(),
                    interp: true,
                    ..acc
                },
            )
        } else {
            (j + 1, StrAcc { literal: acc.literal.push(chars[j]), ..acc })
        };
        lemma_interp_end(chars, q, j + 2, 1);
        assert(r == str_rest(chars, file, start, q, to, more));
        lemma_string_reports(chars, file, start, q, to, more);
    }
}

/// A character outside the language is reported byte by byte, each byte at its
/// own place.
pub proof fn stray_bytes_are_reported(c: char, file: Seq<char>, k: int)
    requires
        (c as u32) >= 128,
        0 <= k < char_bytes(c).len(),
    ensures
        tokens_of(seq![c], file).len() == 1,
        lex_errors(seq![c], file).len() == char_bytes(c).len(),
        ({
            let d = lex_errors(seq![c], file)[k];
            &&& d.message == "unexpected character '"@ + seq![char_bytes(c)[k] as char] + "'"@
            &&& d.range.start.offset == k && d.range.end.offset == k + 1
            &&& d.range.start.line == 1 && d.range.end.line == 1
            &&& d.range.start.col == k + 1 && d.range.end.col == k + 2
        }),
{
    let chars = seq![c];
    crate::lexer::lemma_char_bytes(c);
    lemma_not_listed(chars);
    assert(scan(chars, file, 0) == stray(chars, file, 0));
    lemma_alone(chars, file);
}

/// The last token is the end, at the end of the text.
pub proof fn texts_end_with_the_end(chars: Seq<char>, file: Seq<char>)
    ensures
        tokens_of(chars, file).len() > 0,
        ({
            let last = tokens_of(chars, file).last();
            &&& last.kind == TokenKind::Eof
            &&& last.text == Seq::<char>::empty()
            &&& last.start == pos_at(chars, chars.len() as int)
            &&& last.end == last.start
            &&& last.value is None
        }),
{
}

} // verus!
