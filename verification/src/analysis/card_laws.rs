//! What hover cards say.

use crate::analysis::fields::{
    field_card, field_parts, member_type, pieces, record_field_text, turn, typed_as,
};
use crate::analysis::hover::{
    asset_card, behind_dot, call_hover, call_params, call_parts, callable, chip_card, decl_card,
    decl_estimate, decl_head, disk_text, documented, estimate_text, event_data, event_hover,
    event_signature, hover_card, if_card, if_hover, method_hover, names_argument, namespace_card,
    namespace_members, object_span, output_texts, outputs_text, param_card, param_from, port_notes,
    prefab_card, read_note, scope_estimate, signature_text, symbol_hover, target_of, typed_field,
    under, word_card, word_offset, EstimateKind, OnDisk, Site, TargetView,
};
use crate::analysis::symbols::{
    gate_doc, port_doc, symbol_from, Estimates, GateDoc, PortDoc, ResourceEstimate, SymbolDef,
};
use crate::analysis::text::{
    byte_len, chomped, cut, first_at, last_break, leading, line_of, lines, next_break, trailing,
    trimmed, trimmed_start, white, width, word_char, word_start,
};
use crate::catalog::{CallSpec, Catalog, EventDataField, OutputSpec, ParamSpec};
use crate::text::{decimal, joined};
use crate::text_laws::parts_are_joined;
use crate::types::{type_text, TypeView};
use vstd::prelude::*;
use vstd::utf8::encode_utf8;

verus! {

// ---------- texts and lines ----------

/// The length of a text in bytes is that of its encoding.
pub proof fn bytes_are_counted(s: Seq<char>)
    ensures
        byte_len(s) == encode_utf8(s).len(),
    decreases s.len(),
{
    if s.len() > 0 {
        bytes_are_counted(s.drop_last());
        crate::analysis::text::width_counts_bytes(s.last());
        crate::lexer::lemma_encode_concat(s.drop_last(), seq![s.last()]);
        assert(s.drop_last() + seq![s.last()] =~= s);
    }
}

pub proof fn lemma_byte_concat(a: Seq<char>, b: Seq<char>)
    ensures
        byte_len(a + b) == byte_len(a) + byte_len(b),
{
    bytes_are_counted(a);
    bytes_are_counted(b);
    bytes_are_counted(a + b);
    crate::lexer::lemma_encode_concat(a, b);
}

/// The first place of a character is behind everything that is not it.
pub proof fn first_place_is_found(a: Seq<char>, c: char, b: Seq<char>)
    requires
        !a.contains(c),
    ensures
        first_at(a + seq![c] + b, c) == a.len(),
        first_at(a, c) == a.len(),
    decreases a.len(),
{
    let s = a + seq![c] + b;
    if a.len() > 0 {
        assert(a.contains(a[0]));
        assert(!a.drop_first().contains(c)) by {
            if a.drop_first().contains(c) {
                let i = choose|i: int| 0 <= i < a.drop_first().len() && a.drop_first()[i] == c;
                assert(a[i + 1] == c);
            }
        }
        first_place_is_found(a.drop_first(), c, b);
        assert(s.drop_first() =~= a.drop_first() + seq![c] + b);
        assert(s[0] == a[0]);
    } else {
        assert(s[0] == c);
    }
}

/// Lines end at line breaks; a carriage return before one is no part of the
/// line.
pub proof fn lines_end_at_breaks(a: Seq<char>, b: Seq<char>)
    requires
        !a.contains('\n'),
    ensures
        a.len() > 0 ==> lines(a) == seq![a],
        lines(Seq::empty()) == Seq::<Seq<char>>::empty(),
        lines(a + seq!['\n'] + b).len() == 1 + lines(b).len(),
        lines(a + seq!['\n'] + b)[0] == if a.len() > 0 && a.last() == '\r' {
            a.drop_last()
        } else {
            a
        },
        forall|i: int|
            0 <= i < lines(b).len() ==> #[trigger] lines(b)[i] == lines(a + seq!['\n'] + b)[i + 1],
{
    let s = a + seq!['\n'] + b;
    first_place_is_found(a, '\n', b);
    assert(s.take(a.len() as int) =~= a);
    assert(s.skip(a.len() as int + 1) =~= b);
    assert(lines(s) == seq![chomped(a)] + lines(b));
}

/// A column at the end of some characters has those characters before it.
pub proof fn columns_cut_between_characters(l: Seq<char>, i: int)
    requires
        0 <= i <= l.len(),
    ensures
        cut(l, byte_len(l.take(i))) == i,
    decreases l.len(),
{
    if i > 0 {
        let rest = l.drop_first();
        columns_cut_between_characters(rest, i - 1);
        lemma_byte_concat(seq![l[0]], rest.take(i - 1));
        assert(seq![l[0]] + rest.take(i - 1) =~= l.take(i));
        assert(byte_len(seq![l[0]]) == width(l[0])) by {
            assert(seq![l[0]].drop_last() =~= Seq::empty());
            assert(byte_len(Seq::empty()) == 0);
        }
    } else {
        assert(l.take(0) =~= Seq::empty());
        assert(byte_len(Seq::empty()) == 0);
    }
}

/// Whether a text is made of characters of words.
pub open spec fn all_word(w: Seq<char>) -> bool {
    forall|m: int| 0 <= m < w.len() ==> word_char(#[trigger] w[m])
}

pub proof fn lemma_last_break(a: Seq<char>, w: Seq<char>)
    requires
        all_word(w),
        a.len() > 0 ==> !word_char(a.last()),
    ensures
        last_break(a + w) == a.len() - 1,
    decreases w.len(),
{
    let s = a + w;
    if w.len() > 0 {
        assert(s.drop_last() =~= a + w.drop_last());
        assert(s.last() == w.last() && word_char(w[w.len() - 1]));
        assert(all_word(w.drop_last())) by {
            assert forall|m: int| 0 <= m < w.drop_last().len() implies word_char(
                #[trigger] w.drop_last()[m],
            ) by {
                assert(w.drop_last()[m] == w[m]);
            }
        }
        lemma_last_break(a, w.drop_last());
    } else {
        assert(s =~= a);
    }
}

pub proof fn lemma_next_break(s: Seq<char>, from: int, k: int)
    requires
        0 <= from <= k <= s.len(),
        forall|m: int| from <= m < k ==> word_char(#[trigger] s[m]),
        k < s.len() ==> !word_char(s[k]),
    ensures
        next_break(s, from) == k,
    decreases k - from,
{
    if from < k {
        lemma_next_break(s, from + 1, k);
    }
}

/// The word around a column starts behind the last character that is no part of
/// a word, and ends before the next one.
pub proof fn words_are_found(a: Seq<char>, w: Seq<char>, b: Seq<char>, i: int)
    requires
        0 <= i <= w.len(),
        all_word(w),
        a.len() > 0 ==> !word_char(a.last()),
        b.len() > 0 ==> !word_char(b[0]),
        byte_len(a + w + b) <= usize::MAX,
    ensures
        ({
            let l = a + w + b;
            let col = byte_len(l.take(a.len() + i)) as usize;
            &&& word_start(l, col) == byte_len(a)
            &&& next_break(l, cut(l, col as nat)) == a.len() + w.len()
        }),
{
    let l = a + w + b;
    let k = a.len() + i;
    lemma_byte_concat(l.take(k), l.skip(k));
    assert(l.take(k) + l.skip(k) =~= l);
    columns_cut_between_characters(l, k);
    assert(l.take(k) =~= a + w.take(i));
    assert(all_word(w.take(i))) by {
        assert forall|m: int| 0 <= m < w.take(i).len() implies word_char(#[trigger] w.take(i)[m]) by {
            assert(w.take(i)[m] == w[m]);
        }
    }
    lemma_last_break(a, w.take(i));
    assert(l.take(k).take(a.len() as int) =~= a);
    lemma_byte_concat(a, w.take(i));
    assert forall|m: int| k <= m < a.len() + w.len() implies word_char(#[trigger] l[m]) by {
        assert(l[m] == w[m - a.len()]);
    }
    if b.len() > 0 {
        assert(l[(a.len() + w.len()) as int] == b[0]);
    }
    lemma_next_break(l, k, (a.len() + w.len()) as int);
}

/// A word behind a dot is recognised, and so is the object before the dot.
pub proof fn members_are_recognised(a: Seq<char>, obj: Seq<char>, w: Seq<char>, b: Seq<char>)
    requires
        all_word(obj),
        all_word(w),
        !word_char('.'),
        a.len() > 0 ==> !word_char(a.last()),
        byte_len(a + obj + seq!['.'] + w + b) <= usize::MAX,
    ensures
        ({
            let l = a + obj + seq!['.'] + w + b;
            let col = byte_len(a + obj + seq!['.'] + w) as usize;
            behind_dot(l, col) && object_span(l, col) == Some(
                (a.len() as int, (a.len() + obj.len()) as int),
            )
        }),
{
    let head = a + obj + seq!['.'];
    let l = head + w + b;
    let k = (head.len() + w.len()) as int;
    assert(l.take(k) =~= head + w);
    lemma_byte_concat(head + w, b);
    columns_cut_between_characters(l, k);
    assert(head.last() == '.');
    lemma_last_break(head, w);
    let d = (a.len() + obj.len()) as int;
    assert(l[d] == '.');
    assert(l.take(d) =~= a + obj);
    lemma_last_break(a, obj);
}

/// White space around a text is trimmed off.
pub proof fn texts_are_trimmed(a: Seq<char>, t: Seq<char>, b: Seq<char>)
    requires
        forall|m: int| 0 <= m < a.len() ==> #[trigger] a[m] == ' ' || a[m] == '\t',
        forall|m: int| 0 <= m < b.len() ==> #[trigger] b[m] == ' ' || b[m] == '\t',
        t.len() > 0 && !white(t[0]) && !white(t.last()),
    ensures
        trimmed(a + t + b) == t,
        trimmed_start(a + t) == t,
{
    lemma_leading(a, t + b);
    assert(a + t + b =~= a + (t + b));
    assert((a + (t + b)).skip(a.len() as int) =~= t + b);
    lemma_trailing(t, b);
    assert((t + b).take(t.len() as int) =~= t);
    lemma_leading(a, t);
    assert((a + t).skip(a.len() as int) =~= t);
}

proof fn lemma_leading(a: Seq<char>, t: Seq<char>)
    requires
        forall|m: int| 0 <= m < a.len() ==> #[trigger] a[m] == ' ' || a[m] == '\t',
        t.len() > 0 && !white(t[0]),
    ensures
        leading(a + t) == a.len(),
    decreases a.len(),
{
    let s = a + t;
    if a.len() > 0 {
        assert(a[0] == ' ' || a[0] == '\t');
        assert(s.drop_first() =~= a.drop_first() + t);
        assert forall|m: int| 0 <= m < a.drop_first().len() implies #[trigger] a.drop_first()[m]
            == ' ' || a.drop_first()[m] == '\t' by {
            assert(a.drop_first()[m] == a[m + 1]);
        }
        lemma_leading(a.drop_first(), t);
    } else {
        assert(s =~= t);
    }
}

proof fn lemma_trailing(t: Seq<char>, b: Seq<char>)
    requires
        forall|m: int| 0 <= m < b.len() ==> #[trigger] b[m] == ' ' || b[m] == '\t',
        t.len() > 0 && !white(t.last()),
    ensures
        trailing(t + b) == t.len(),
    decreases b.len(),
{
    let s = t + b;
    if b.len() > 0 {
        assert(b[b.len() - 1] == ' ' || b[b.len() - 1] == '\t');
        assert(s.drop_last() =~= t + b.drop_last());
        assert forall|m: int| 0 <= m < b.drop_last().len() implies #[trigger] b.drop_last()[m] == ' '
            || b.drop_last()[m] == '\t' by {
            assert(b.drop_last()[m] == b[m]);
        }
        lemma_trailing(t, b.drop_last());
    } else {
        assert(s =~= t);
    }
}

// ---------- events and calls ----------

/// In the card of an event each piece of its data is shown with its own name
/// and its own type.
pub proof fn event_data_is_shown(data: Seq<EventDataField>, i: int)
    ensures
        event_data(data).len() == data.len(),
        0 <= i < data.len() ==> event_data(data)[i] == data[i].name@ + ": "@ + type_text(data[i].ty@),
        data.len() == 0 ==> event_signature(data) == Seq::<char>::empty(),
        data.len() > 0 ==> event_signature(data) == "("@ + joined(event_data(data), ", "@) + ")"@,
        data.len() == 1 ==> event_signature(data) == "("@ + (data[0].name@ + ": "@ + type_text(
            data[0].ty@,
        )) + ")"@,
        data.len() == 2 ==> event_signature(data) == "("@ + ((data[0].name@ + ": "@ + type_text(
            data[0].ty@,
        )) + ", "@ + (data[1].name@ + ": "@ + type_text(data[1].ty@))) + ")"@,
{
    let shown = event_data(data);
    if data.len() == 1 {
        assert(shown =~= seq![shown[0]]);
        parts_are_joined(shown, shown[0], shown[0], ", "@);
    }
    if data.len() == 2 {
        assert(shown =~= seq![shown[0], shown[1]]);
        parts_are_joined(shown, shown[0], shown[1], ", "@);
    }
}

/// The card of an event starts with `on`, its name and its data; a word that is
/// no event has none.
pub proof fn event_cards(word: Seq<char>, catalog: Catalog)
    ensures
        catalog.event(word) is None ==> event_hover(word, catalog) is None,
        catalog.event(word) matches Some(e) ==> e.data@.len() == 0 ==> event_hover(word, catalog)
            == Some("```wirescript\non "@ + e.surface_name@ + "\n```"@),
        catalog.event(word) matches Some(e) ==> e.data@.len() == 2 ==> event_hover(word, catalog)
            == Some(
            "```wirescript\non "@ + e.surface_name@ + ("("@ + ((e.data@[0].name@ + ": "@ + type_text(
                e.data@[0].ty@,
            )) + ", "@ + (e.data@[1].name@ + ": "@ + type_text(e.data@[1].ty@))) + ")"@) + "\n```"@,
        ),
{
    if let Some(e) = catalog.event(word) {
        event_data_is_shown(e.data@, 0);
        let head = "```wirescript\non "@ + e.surface_name@;
        assert(head + Seq::<char>::empty() =~= head);
    }
}

/// A parameter is shown with its own name and type, and a question mark where it
/// may be left out; a call on a pulse has `exec` in front.
pub proof fn call_parameters_are_shown(f: CallSpec, i: int)
    ensures
        f.needs_exec ==> call_params(f).len() == f.params@.len() + 1 && call_params(f)[0] == "exec"@,
        !f.needs_exec ==> call_params(f).len() == f.params@.len(),
        0 <= i < f.params@.len() ==> ({
            let p = f.params@[i];
            let shown = call_params(f)[if f.needs_exec {
                i + 1
            } else {
                i
            }];
            &&& p.optional ==> shown == p.name@ + "?: "@ + type_text(p.ty@)
            &&& !p.optional ==> shown == p.name@ + ": "@ + type_text(p.ty@)
        }),
{
}

/// What a call gives is shown behind an arrow: a single type, or each output
/// with its own port and type.
pub proof fn call_outputs_are_shown(outs: Seq<OutputSpec>)
    ensures
        outs.len() == 0 ==> outputs_text(outs) == Seq::<char>::empty(),
        outs.len() == 1 ==> outputs_text(outs) == " -> "@ + type_text(outs[0].ty@),
        outs.len() == 2 ==> outputs_text(outs) == " -> ("@ + ((outs[0].port@ + ": "@ + type_text(
            outs[0].ty@,
        )) + ", "@ + (outs[1].port@ + ": "@ + type_text(outs[1].ty@))) + ")"@,
        forall|i: int|
            0 <= i < outs.len() ==> #[trigger] output_texts(outs)[i] == outs[i].port@ + ": "@
                + type_text(outs[i].ty@),
{
    if outs.len() == 2 {
        let shown = output_texts(outs);
        assert(shown =~= seq![shown[0], shown[1]]);
        parts_are_joined(shown, shown[0], shown[1], ", "@);
    }
}

/// The card of a call without documentation is its title and its signature.
pub proof fn call_cards(f: CallSpec)
    ensures
        call_parts(f, None).len() == 1,
        call_parts(f, None)[0] == "### "@ + f.name@ + "\n```wirescript\n"@ + f.name@ + "("@ + joined(
            call_params(f),
            ", "@,
        ) + ")"@ + outputs_text(f.outputs@) + "\n```"@,
        f.params@.len() == 0 && !f.needs_exec && f.outputs@.len() == 0 ==> call_parts(f, None)[0]
            == "### "@ + f.name@ + "\n```wirescript\n"@ + f.name@ + "("@ + ")"@ + "\n```"@,
        f.params@.len() == 1 && !f.needs_exec && !f.params@[0].optional && f.outputs@.len() == 1
            ==> call_parts(f, None)[0] == "### "@ + f.name@ + "\n```wirescript\n"@ + f.name@ + "("@ + (
        f.params@[0].name@ + ": "@ + type_text(f.params@[0].ty@)) + ")"@ + (" -> "@ + type_text(
            f.outputs@[0].ty@,
        )) + "\n```"@,
{
    let params = call_params(f);
    call_outputs_are_shown(f.outputs@);
    if f.params@.len() == 0 && !f.needs_exec && f.outputs@.len() == 0 {
        assert(params =~= Seq::empty());
        let head = "### "@ + f.name@ + "\n```wirescript\n"@ + f.name@ + "("@;
        assert(head + joined(params, ", "@) =~= head);
        let all = head + ")"@;
        assert(all + Seq::<char>::empty() =~= all);
    }
    if f.params@.len() == 1 && !f.needs_exec && !f.params@[0].optional {
        call_parameters_are_shown(f, 0);
        assert(params =~= seq![params[0]]);
        parts_are_joined(params, params[0], params[0], ", "@);
    }
}

/// A documented call is shown under its display name, with its description and
/// what is said of its parameters as paragraphs.
pub proof fn documented_calls(f: CallSpec, g: GateDoc)
    ensures
        call_parts(f, Some(g))[0] == "### "@ + g.display_name@ + "\n```wirescript\n"@ + f.name@ + "("@
            + joined(call_params(f), ", "@) + ")"@ + outputs_text(f.outputs@) + "\n```"@,
        g.description@.len() > 0 ==> call_parts(f, Some(g)).len() >= 2 && call_parts(f, Some(g))[1]
            == g.description@,
        ({
            let notes = port_notes(f.params@, g, f.params@.len());
            &&& notes.len() > 0 ==> call_parts(f, Some(g)).last() == "**Parameters:**\n"@ + joined(
                notes,
                "\n"@,
            )
            &&& notes.len() == 0 && g.description@.len() == 0 ==> call_parts(f, Some(g)).len() == 1
            &&& notes.len() == 0 && g.description@.len() > 0 ==> call_parts(f, Some(g)).len() == 2
        }),
{
}

/// A parameter with a tooltip is noted under its display name, any other is not.
pub proof fn parameters_are_noted(params: Seq<ParamSpec>, g: GateDoc, n: nat)
    requires
        0 < n <= params.len(),
    ensures
        ({
            let before = port_notes(params, g, (n - 1) as nat);
            let all = port_notes(params, g, n);
            &&& port_doc(g, params[n - 1].port@) is None ==> all == before
            &&& port_doc(g, params[n - 1].port@) matches Some(d) ==> d.tooltip@.len() == 0 ==> all
                == before
            &&& port_doc(g, params[n - 1].port@) matches Some(d) ==> d.tooltip@.len() > 0 ==> all
                == before.push("- **"@ + d.display_name@ + "** - "@ + d.tooltip@)
        }),
{
}

/// A call card comes only where something is called; a word that is no call has
/// none.
pub proof fn call_cards_need_a_call(
    source: Seq<char>,
    word: Seq<char>,
    catalog: Catalog,
    docs: Seq<(String, GateDoc)>,
    line: usize,
    col: usize,
)
    ensures
        catalog.call(word) is None ==> call_hover(source, word, catalog, docs, line, col) is None,
        !crate::analysis::hover::calls_something(source, line, col) ==> call_hover(
            source,
            word,
            catalog,
            docs,
            line,
            col,
        ) is None,
        catalog.call(word) is Some && crate::analysis::hover::calls_something(source, line, col)
            ==> call_hover(source, word, catalog, docs, line, col) is Some,
{
}

/// The card of a parameter shows its name and type, its display name where it
/// is documented, and its tooltip as a paragraph.
pub proof fn parameter_cards(p: ParamSpec, d: PortDoc)
    ensures
        !p.optional ==> param_card(p, None) == "**"@ + p.name@ + "** `"@ + p.name@ + ": "@ + type_text(
            p.ty@,
        ) + "`"@,
        p.optional ==> param_card(p, None) == "**"@ + p.name@ + "** `"@ + p.name@ + ": "@ + type_text(
            p.ty@,
        ) + "`"@ + " *(optional)*"@,
        !p.optional && d.tooltip@.len() > 0 ==> param_card(p, Some(d)) == "**"@ + d.display_name@
            + "** `"@ + p.name@ + ": "@ + type_text(p.ty@) + "`"@ + "\n\n"@ + d.tooltip@,
{
}

/// A parameter is found by its name, the first of several.
pub proof fn parameters_are_found(params: Seq<ParamSpec>, name: Seq<char>, from: int, i: int)
    requires
        0 <= from <= i < params.len(),
        params[i].name@ == name,
        forall|k: int| from <= k < i ==> (#[trigger] params[k]).name@ != name,
    ensures
        param_from(params, name, from) == Some(params[i]),
    decreases i - from,
{
    if from < i {
        parameters_are_found(params, name, from + 1, i);
    }
}

/// The card of an array method shows its name, signature and documentation, and
/// comes behind a dot only.
pub proof fn method_cards(
    source: Seq<char>,
    word: Seq<char>,
    catalog: Catalog,
    line: usize,
    col: usize,
    l: Seq<char>,
)
    requires
        line_of(source, line) == Some(l),
    ensures
        catalog.method(word) matches Some(m) ==> behind_dot(l, col) ==> method_hover(
            source,
            word,
            catalog,
            line,
            col,
        ) == Some("**array."@ + m.name@ + "**\n\n"@ + m.name@ + m.signature@ + " - "@ + m.doc@),
        !behind_dot(l, col) ==> method_hover(source, word, catalog, line, col) is None,
{
}

// ---------- declarations ----------

/// A value is shown as its kind, its name and its type; a callable as its kind,
/// its name and its signature, with `exec` in front where it runs on a pulse.
pub proof fn declaration_heads(sym: SymbolDef)
    ensures
        sym.kind@ == "mod"@ || sym.kind@ == "chip"@ || sym.kind@ == "fn"@ <==> callable(sym.kind@),
        !callable(sym.kind@) ==> (sym.ty matches Some(t) ==> decl_head(sym) == "```wirescript\n"@
            + sym.kind@ + " "@ + sym.name@ + ": "@ + t@ + "\n```"@),
        !callable(sym.kind@) && sym.ty is None ==> decl_head(sym) == "```wirescript\n"@ + sym.kind@
            + " "@ + sym.name@ + ": "@ + "unknown"@ + "\n```"@,
        callable(sym.kind@) && !sym.is_exec ==> (sym.ty matches Some(t) ==> decl_head(sym)
            == "```wirescript\n"@ + sym.kind@ + " "@ + sym.name@ + t@ + "\n```"@),
{
}

/// `exec` goes in front of the parameters of a signature.
pub proof fn exec_goes_in_front(rest: Seq<char>)
    requires
        byte_len(seq!['('] + rest) > 2,
    ensures
        signature_text(true, seq!['('] + rest) == "(exec, "@ + rest,
        signature_text(false, seq!['('] + rest) == seq!['('] + rest,
        signature_text(true, "()"@) == "(exec)"@,
{
    reveal_strlit("()");
    assert((seq!['('] + rest).skip(1) =~= rest);
    bytes_are_counted("()"@);
    let two = "()"@;
    assert(two.len() == 2 && two[0] == '(' && two[1] == ')');
    assert(two.drop_last() =~= seq!['(']);
    assert(seq!['('].drop_last() =~= Seq::empty());
    assert(byte_len(Seq::empty()) == 0);
    assert(byte_len(seq!['(']) == 1);
    assert(byte_len(two) == 2);
}

/// A card is followed by the documentation of its place, as a paragraph.
pub proof fn cards_are_documented(card: Seq<char>, docs: Map<usize, Seq<char>>, at: usize)
    ensures
        docs.contains_key(at) ==> documented(card, docs, at) == card + "\n\n"@ + docs[at],
        !docs.contains_key(at) ==> documented(card, docs, at) == card,
{
}

/// The card of a declaration that is no callable is its head with its
/// documentation.
pub proof fn declaration_cards(
    sym: SymbolDef,
    docs: Map<usize, Seq<char>>,
    estimates: Estimates,
)
    ensures
        !callable(sym.kind@) && docs.contains_key(sym.range.start.offset) ==> decl_card(
            sym,
            docs,
            estimates,
        ) == decl_head(sym) + "\n\n"@ + docs[sym.range.start.offset],
        !callable(sym.kind@) && !docs.contains_key(sym.range.start.offset) ==> decl_card(
            sym,
            docs,
            estimates,
        ) == decl_head(sym),
        callable(sym.kind@) && !docs.contains_key(sym.range.start.offset) && decl_estimate(
            estimates,
            sym,
        ) is None ==> decl_card(sym, docs, estimates) == decl_head(sym),
{
}

/// The first symbol of a name is the one that is found.
pub proof fn symbols_are_found(symbols: Seq<SymbolDef>, name: Seq<char>, from: int, i: int)
    requires
        0 <= from <= i < symbols.len(),
        symbols[i].name@ == name,
        forall|k: int| from <= k < i ==> (#[trigger] symbols[k]).name@ != name,
    ensures
        symbol_from(symbols, name, from) == Some(symbols[i]),
    decreases i - from,
{
    if from < i {
        symbols_are_found(symbols, name, from + 1, i);
    }
}

/// A name that no symbol has is not found.
pub proof fn unknown_symbols_are_not_found(symbols: Seq<SymbolDef>, name: Seq<char>, from: int)
    requires
        forall|k: int| 0 <= k < symbols.len() ==> (#[trigger] symbols[k]).name@ != name,
    ensures
        symbol_from(symbols, name, from) is None,
    decreases symbols.len() - from,
{
    if 0 <= from < symbols.len() {
        unknown_symbols_are_not_found(symbols, name, from + 1);
    }
}

/// How a variable is read is said under its card.
pub proof fn reads_are_noted(reads: Map<(Seq<char>, usize), bool>, file: Seq<char>, at: usize)
    ensures
        !reads.contains_key((file, at)) ==> read_note(reads, file, at) == Seq::<char>::empty(),
        reads.contains_key((file, at)) && reads[(file, at)] ==> read_note(reads, file, at)
            == "\n\n*(exec) reads current value via Var\\_Get*"@,
        reads.contains_key((file, at)) && !reads[(file, at)] ==> read_note(reads, file, at)
            == "\n\n*(pure) reads previous tick's value via Value field*"@,
{
}

/// The members of a namespace are the symbols behind its name and a dot.
pub proof fn namespace_members_are_listed(
    symbols: Seq<SymbolDef>,
    ns: Seq<char>,
    member: Seq<char>,
    n: nat,
)
    requires
        0 < n <= symbols.len(),
        symbols[n - 1].name@ == ns + "."@ + member,
        !member.contains('.'),
    ensures
        namespace_members(symbols, ns + "."@, n).len() > 0,
        namespace_members(symbols, ns + "."@, n).last() == member,
{
    let prefix = ns + "."@;
    let name = symbols[n - 1].name@;
    assert(name == prefix + member);
    assert(name.subrange(0, prefix.len() as int) =~= prefix);
    assert(name.skip(prefix.len() as int) =~= member);
}

/// A field is shown with its name and its type, and one of a declared type with
/// the name of the type.
pub proof fn field_cards(owner: Seq<char>, field: Seq<char>, ty: Seq<char>)
    ensures
        typed_field(field, ty) == "```wirescript\nfield "@ + field + ": "@ + ty + "\n```"@,
        field_card(owner, field, ty) == "```wirescript\n"@ + owner + "."@ + field + ": "@ + ty
            + "\n```"@,
{
}

/// The type of a field of a value: of a record by name, of a vector, color or
/// rotator a float, and of a reference that of what is behind it.
pub proof fn members_are_typed(t: TypeView, f: Seq<char>)
    ensures
        f == "x"@ || f == "y"@ || f == "z"@ || f == "X"@ || f == "Y"@ || f == "Z"@ ==> member_type(
            TypeView::Vector,
            f,
        ) == Some(TypeView::Float),
        f == "r"@ || f == "g"@ || f == "b"@ || f == "a"@ || f == "R"@ || f == "G"@ || f == "B"@ || f
            == "A"@ ==> member_type(TypeView::Color, f) == Some(TypeView::Float),
        f == "pitch"@ || f == "yaw"@ || f == "roll"@ ==> member_type(TypeView::Rotator, f) == Some(
            TypeView::Float,
        ),
        f == "Value"@ || f == "prev"@ || f == "VarRef"@ ==> member_type(
            TypeView::Ref(Box::new(t)),
            f,
        ) == Some(t),
        f != "Value"@ && f != "prev"@ && f != "VarRef"@ ==> member_type(
            TypeView::Ref(Box::new(t)),
            f,
        ) == member_type(t, f),
        t is Int || t is Float || t is Bool || t is String || t is Exec ==> member_type(t, f) is None,
{
}

/// A field of a record is that of the first field of its name.
pub proof fn record_members_are_typed(fields: crate::types::Fields, name: Seq<char>, i: int)
    requires
        0 <= i < fields.len(),
        fields[i].0 == name,
        forall|k: int| 0 <= k < i ==> (#[trigger] fields[k]).0 != name,
    ensures
        member_type(TypeView::Record(fields), name) == Some(fields[i].1),
{
    crate::typecheck::typing::fields_are_found_by_name(fields, name, i);
}

// ---------- records in surface form ----------

/// Whether a text has no commas and no brackets.
pub open spec fn flat(s: Seq<char>) -> bool {
    forall|m: int|
        0 <= m < s.len() ==> #[trigger] s[m] != ',' && s[m] != '{' && s[m] != '}' && s[m] != '('
            && s[m] != ')' && s[m] != '[' && s[m] != ']'
}

proof fn lemma_flat_run(s: Seq<char>, start: int, i: int, k: int)
    requires
        0 <= start <= i <= k <= s.len(),
        forall|m: int|
            i <= m < k ==> #[trigger] s[m] != ',' && s[m] != '{' && s[m] != '}' && s[m] != '('
                && s[m] != ')' && s[m] != '[' && s[m] != ']',
    ensures
        pieces(s, start, i, 0) == pieces(s, start, k, 0),
    decreases k - i,
{
    if i < k {
        lemma_flat_run(s, start, i + 1, k);
    }
}

/// The fields of a record are parted at the commas outside brackets.
pub proof fn fields_are_parted_at_commas(p: Seq<char>, q: Seq<char>)
    requires
        flat(p),
        flat(q),
        p.len() > 0,
        q.len() > 0,
    ensures
        field_parts(p) == seq![p],
        field_parts(p + ","@ + q) == seq![p, q],
{
    reveal_strlit(",");
    lemma_flat_run(p, 0, 0, p.len() as int);
    assert(p.subrange(0, p.len() as int) =~= p);
    let s = p + ","@ + q;
    let k = p.len() as int;
    let n = s.len() as int;
    assert(s[k] == ',');
    assert forall|m: int| 0 <= m < k implies #[trigger] s[m] != ',' && s[m] != '{' && s[m] != '}'
        && s[m] != '(' && s[m] != ')' && s[m] != '[' && s[m] != ']' by {
        assert(s[m] == p[m]);
    }
    assert forall|m: int| k + 1 <= m < n implies #[trigger] s[m] != ',' && s[m] != '{' && s[m] != '}'
        && s[m] != '(' && s[m] != ')' && s[m] != '[' && s[m] != ']' by {
        assert(s[m] == q[m - k - 1]);
    }
    lemma_flat_run(s, 0, 0, k);
    lemma_flat_run(s, k + 1, k + 1, n);
    assert(s.subrange(0, k) =~= p);
    assert(s.subrange(k + 1, n) =~= q);
    assert(seq![p] + seq![q] =~= seq![p, q]);
}

/// Brackets around commas keep a field together.
pub proof fn brackets_are_counted(c: char)
    ensures
        c == '{' || c == '(' || c == '[' ==> turn(c) == 1,
        c == '}' || c == ')' || c == ']' ==> turn(c) == -1,
        c != '{' && c != '(' && c != '[' && c != '}' && c != ')' && c != ']' ==> turn(c) == 0,
{
}

/// The type of the only field of a record in surface form is what is written
/// behind its name.
pub proof fn surface_fields_are_typed(n: Seq<char>, t: Seq<char>)
    requires
        flat(n) && flat(t),
        n.len() > 0 && !white(n[0]) && !white(n.last()) && !n.contains(':'),
        t.len() > 0 && !white(t[0]) && !white(t.last()),
    ensures
        record_field_text("{"@ + n + ": "@ + t + "}"@, n) == Some(t),
{
    reveal_strlit("{");
    reveal_strlit("}");
    reveal_strlit(": ");
    let inner = n + ": "@ + t;
    let ty = "{"@ + n + ": "@ + t + "}"@;
    assert(ty.subrange(1, ty.len() - 1) =~= inner);
    assert(flat(inner)) by {
        assert forall|m: int| 0 <= m < inner.len() implies #[trigger] inner[m] != ',' && inner[m]
            != '{' && inner[m] != '}' && inner[m] != '(' && inner[m] != ')' && inner[m] != '['
            && inner[m] != ']' by {
            if m < n.len() {
                assert(inner[m] == n[m]);
            } else if m >= n.len() + 2 {
                assert(inner[m] == t[m - n.len() - 2]);
            }
        }
    }
    lemma_flat_run(inner, 0, 0, inner.len() as int);
    assert(inner.subrange(0, inner.len() as int) =~= inner);
    assert(field_parts(inner) =~= seq![inner]);
    let none = Seq::<char>::empty();
    assert(inner[0] == n[0] && inner.last() == t.last());
    texts_are_trimmed(none, inner, none);
    assert(none + inner + none =~= inner);
    let k = n.len() as int;
    first_place_is_found(n, ':', " "@ + t);
    reveal_strlit(" ");
    assert(inner =~= n + seq![':'] + (" "@ + t));
    assert(inner.take(k) =~= n);
    assert(inner.skip(k + 1) =~= seq![' '] + t);
    texts_are_trimmed(none, n, none);
    assert(none + n + none =~= n);
    texts_are_trimmed(seq![' '], t, none);
    assert(seq![' '] + t + none =~= seq![' '] + t);
    assert(typed_as(inner, n) == Some(t));
}

// ---------- references, estimates, conditionals ----------

/// A prefab reference leads beside the file, or from the root where it starts
/// with a slash.
pub proof fn prefab_targets(rest: Seq<char>)
    ensures
        target_of("./"@ + rest) == TargetView::Beside(rest),
        target_of("/"@ + rest) == TargetView::Absolute("/"@ + rest),
        rest.len() > 0 && rest[0] != '.' && rest[0] != '/' ==> target_of(rest)
            == TargetView::Beside(rest),
{
    reveal_strlit("./");
    reveal_strlit("/");
    let a = "./"@ + rest;
    assert(a.subrange(0, 2) =~= "./"@);
    assert(a.skip(2) =~= rest);
    let b = "/"@ + rest;
    assert(b[0] == '/');
    if b.len() >= 2 {
        assert(b.subrange(0, 2)[0] == '/');
    }
    if rest.len() > 1 {
        assert(rest.subrange(0, 2)[0] == rest[0]);
    }
}

/// The card of a prefab shows the reference, where it leads, and what is on
/// disk; one that is no `.brz` file is warned of.
pub proof fn prefab_cards(stem: Seq<char>, resolved: Seq<char>, n: u64)
    ensures
        prefab_card(stem + ".brz"@, resolved, OnDisk::Unchecked)
            == "**Prefab file reference**\n\nEmbeds a `.brz` archive into `SpawnPrefab`.\n\n- Reference: `$"@
            + (stem + ".brz"@) + "`\n- Resolves to: `"@ + resolved + "`\n"@,
        disk_text(OnDisk::Bytes(n)) == "- On disk: "@ + decimal(n as nat) + " bytes\n"@,
        disk_text(OnDisk::Missing) == "- ⚠️ Not found on disk\n"@,
{
    let path = stem + ".brz"@;
    crate::text_laws::texts_start_and_end(stem, ".brz"@);
    let head =
        "**Prefab file reference**\n\nEmbeds a `.brz` archive into `SpawnPrefab`.\n\n- Reference: `$"@
        + path + "`\n- Resolves to: `"@ + resolved + "`\n"@;
    assert(head + Seq::<char>::empty() =~= head);
}

/// The card of an asset shows its type and its name, parted at the first slash.
pub proof fn asset_cards(ty: Seq<char>, name: Seq<char>)
    requires
        !ty.contains('/'),
    ensures
        asset_card(ty + "/"@ + name)
            == "**Asset reference**\n\nAn external Brickadia asset, inlined into the "@
            + "gate's data.\n\n"@ + "- Type: `"@ + ty + "`\n- Name: `"@ + name + "`\n"@,
{
    reveal_strlit("/");
    let path = ty + "/"@ + name;
    first_place_is_found(ty, '/', name);
    assert(path =~= ty + seq!['/'] + name);
    assert(path.take(ty.len() as int) =~= ty);
    assert(path.skip(ty.len() as int + 1) =~= name);
}

/// An estimate names its gates and chips; a chip counts itself, and a mod is
/// said to be inlined.
pub proof fn estimates_are_shown(est: ResourceEstimate)
    ensures
        ({
            let gates = "~"@ + decimal(est.gates as nat) + " gates"@;
            &&& estimate_text(est, EstimateKind::Scope) == "*"@ + (gates + ", "@ + (decimal(
                est.total_microchips as nat,
            ) + " chips"@)) + "*"@
            &&& estimate_text(est, EstimateKind::Chip) == "*"@ + (gates + ", "@ + (decimal(
                (est.total_microchips + 1) as nat,
            ) + " chips"@)) + "*"@
            &&& estimate_text(est, EstimateKind::Mod) == "*"@ + (gates + ", "@ + (decimal(
                est.total_microchips as nat,
            ) + " chips"@) + ", "@ + "inlined per call"@) + "*"@
        }),
{
    let gates = "~"@ + decimal(est.gates as nat) + " gates"@;
    let chips = decimal(est.total_microchips as nat) + " chips"@;
    let more = decimal((est.total_microchips + 1) as nat) + " chips"@;
    parts_are_joined(seq![gates, chips], gates, chips, ", "@);
    parts_are_joined(seq![gates, more], gates, more, ", "@);
    parts_are_joined(seq![gates, chips], gates, "inlined per call"@, ", "@);
}

/// An estimate stands under its card, as a paragraph.
pub proof fn estimates_stand_under_cards(card: Seq<char>, est: ResourceEstimate, kind: EstimateKind)
    ensures
        under(card, Some(est), kind) == card + "\n\n"@ + estimate_text(est, kind),
        under(card, None, kind) == card,
{
}

/// The card of an `if` says whether it branches the flow or selects a value.
pub proof fn if_cards(
    source: Seq<char>,
    file: Seq<char>,
    ifs: Map<(Seq<char>, usize), bool>,
    estimates: Estimates,
    line: usize,
    col: usize,
    l: Seq<char>,
)
    requires
        line_of(source, line) == Some(l),
        scope_estimate(estimates, word_offset(source, line, l, col)) is None,
    ensures
        ({
            let key = (file, word_offset(source, line, l, col));
            let card = if_hover(source, file, "if"@, ifs, estimates, line, col);
            &&& !ifs.contains_key(key) ==> card is None
            &&& ifs.contains_key(key) && ifs[key] ==> card == Some(
                "```wirescript\nif (exec) → Branch gate\n```\nExec-context conditional. Produces an **Exec_Branch** gate that routes the exec chain to the true or false arm."@,
            )
            &&& ifs.contains_key(key) && !ifs[key] ==> card == Some(
                "```wirescript\nif (pure) → Select gate\n```\nPure-context conditional. Produces a **Select** gate that picks one of two values based on the condition."@,
            )
        }),
{
}

/// The card of a chip keyword says what the chip is called and how it runs.
pub proof fn chip_cards(sym: SymbolDef)
    ensures
        sym.name@.len() > 0 && sym.name@[0] != '_' && sym.is_exec ==> chip_card(sym)
            == "```wirescript\n"@ + sym.kind@ + " "@ + sym.name@
            + " (exec)\n```\n\nExec context - body runs as sequential exec chain"@,
        sym.name@.len() > 0 && sym.name@[0] != '_' && !sym.is_exec ==> chip_card(sym)
            == "```wirescript\n"@ + sym.kind@ + " "@ + sym.name@
            + " (pure)\n```\n\nPure context - body is evaluated as signal-flow (combinational)"@,
        sym.name@.len() == 0 && sym.is_exec ==> chip_card(sym) == "```wirescript\n"@ + sym.kind@
            + " "@ + "(anonymous)"@ + " (exec)\n```\n\nExec context - body runs as sequential exec chain"@,
{
}

/// A reference under the cursor has the first word, whatever else is there.
pub proof fn references_come_first(
    source: Seq<char>,
    file: Seq<char>,
    symbols: Seq<SymbolDef>,
    types: crate::analysis::fields::Types,
    comments: Map<usize, Seq<char>>,
    ifs: Map<(Seq<char>, usize), bool>,
    reads: Map<(Seq<char>, usize), bool>,
    estimates: Estimates,
    site: Site,
    catalog: Catalog,
    docs: Seq<(String, GateDoc)>,
    line: usize,
    col: usize,
    obj: Option<TypeView>,
)
    ensures
        ({
            let card = hover_card(
                source,
                file,
                symbols,
                types,
                comments,
                ifs,
                reads,
                estimates,
                site,
                catalog,
                docs,
                line,
                col,
                obj,
            );
            &&& site.asset matches Some(a) ==> a.is_file ==> card == Some(
                prefab_card(a.path@, site.resolved@, site.disk),
            )
            &&& site.asset matches Some(a) ==> !a.is_file ==> card == Some(asset_card(a.path@))
            &&& site.asset is None && site.word is None ==> card is None
        }),
{
}

/// The card of an event wins over that of a symbol of the same name, and a
/// symbol is shown where nothing else is.
pub proof fn cards_have_an_order(
    source: Seq<char>,
    file: Seq<char>,
    symbols: Seq<SymbolDef>,
    types: crate::analysis::fields::Types,
    comments: Map<usize, Seq<char>>,
    ifs: Map<(Seq<char>, usize), bool>,
    reads: Map<(Seq<char>, usize), bool>,
    estimates: Estimates,
    site: Site,
    catalog: Catalog,
    docs: Seq<(String, GateDoc)>,
    line: usize,
    col: usize,
    obj: Option<TypeView>,
    word: Seq<char>,
)
    requires
        if_hover(source, file, word, ifs, estimates, line, col) is None,
        crate::analysis::hover::param_hover(
            source,
            word,
            crate::ast_view::text_of(site.call),
            catalog,
            docs,
            line,
            col,
        ) is None,
        method_hover(source, word, catalog, line, col) is None,
    ensures
        ({
            let card = word_card(
                source,
                file,
                symbols,
                types,
                comments,
                ifs,
                reads,
                estimates,
                site,
                catalog,
                docs,
                line,
                col,
                obj,
                word,
            );
            &&& catalog.event(word) is Some ==> card == event_hover(word, catalog)
            &&& catalog.event(word) is None && call_hover(
                source,
                word,
                catalog,
                docs,
                line,
                col,
            ) is Some ==> card == call_hover(source, word, catalog, docs, line, col)
            &&& symbol_hover(
                source,
                file,
                symbols,
                comments,
                reads,
                estimates,
                word,
                line,
                col,
            ) is Some ==> card is Some
        }),
{
}

/// The card of a symbol: a namespace lists its members, a variable says how it
/// is read, and everything else is its declaration.
pub proof fn symbol_cards(
    source: Seq<char>,
    file: Seq<char>,
    symbols: Seq<SymbolDef>,
    docs: Map<usize, Seq<char>>,
    reads: Map<(Seq<char>, usize), bool>,
    estimates: Estimates,
    word: Seq<char>,
    line: usize,
    col: usize,
    i: int,
    l: Seq<char>,
)
    requires
        0 <= i < symbols.len(),
        symbols[i].name@ == word,
        forall|k: int| 0 <= k < i ==> (#[trigger] symbols[k]).name@ != word,
        line_of(source, line) == Some(l),
    ensures
        ({
            let card = symbol_hover(
                source,
                file,
                symbols,
                docs,
                reads,
                estimates,
                word,
                line,
                col,
            );
            let sym = symbols[i];
            &&& sym.kind@ == "namespace"@ ==> card == Some(namespace_card(symbols, sym))
            &&& sym.kind@ == "var"@ ==> card == Some(
                decl_card(sym, docs, estimates) + read_note(
                    reads,
                    file,
                    word_offset(source, line, l, col),
                ),
            )
            &&& sym.kind@ == "let"@ || sym.kind@ == "mod"@ || sym.kind@ == "in"@ ==> card == Some(
                decl_card(sym, docs, estimates),
            )
        }),
{
    symbols_are_found(symbols, word, 0, i);
    reveal_strlit("namespace");
    reveal_strlit("var");
    reveal_strlit("let");
    reveal_strlit("mod");
    reveal_strlit("in");
    assert("namespace"@.len() == 9 && "var"@.len() == 3 && "let"@.len() == 3 && "mod"@.len() == 3);
    assert("in"@.len() == 2 && "var"@[0] == 'v' && "let"@[0] == 'l' && "mod"@[0] == 'm');
}

/// The card of a namespace names it and, where it has members, counts and lists
/// them.
pub proof fn namespace_cards(symbols: Seq<SymbolDef>, sym: SymbolDef, members: Seq<Seq<char>>)
    requires
        members == namespace_members(symbols, sym.name@ + "."@, symbols.len()),
    ensures
        members.len() == 0 ==> namespace_card(symbols, sym) == "```wirescript\nnamespace "@ + sym.name@
            + "\n```"@,
        members.len() == 1 ==> namespace_card(symbols, sym) == "```wirescript\nnamespace "@ + sym.name@
            + "\n```"@ + "\n\n"@ + decimal(1) + " member: "@ + members[0],
        members.len() == 2 ==> namespace_card(symbols, sym) == "```wirescript\nnamespace "@ + sym.name@
            + "\n```"@ + "\n\n"@ + decimal(2) + " members: "@ + (members[0] + ", "@ + members[1]),
        members.len() > 1 ==> namespace_card(symbols, sym) == "```wirescript\nnamespace "@ + sym.name@
            + "\n```"@ + "\n\n"@ + decimal(members.len()) + " members: "@ + joined(members, ", "@),
{
    if members.len() == 1 {
        assert(members =~= seq![members[0]]);
        parts_are_joined(members, members[0], members[0], ", "@);
    }
    if members.len() == 2 {
        assert(members =~= seq![members[0], members[1]]);
        parts_are_joined(members, members[0], members[1], ", "@);
    }
}

/// A symbol of another name is no member of a namespace, and neither is one of a
/// namespace inside it.
pub proof fn other_names_are_no_members(
    symbols: Seq<SymbolDef>,
    prefix: Seq<char>,
    member: Seq<char>,
    n: nat,
)
    requires
        0 < n <= symbols.len(),
    ensures
        symbols[n - 1].name@ == prefix + member && member.contains('.') ==> namespace_members(
            symbols,
            prefix,
            n,
        ) == namespace_members(symbols, prefix, (n - 1) as nat),
        symbols[n - 1].name@.len() < prefix.len() ==> namespace_members(symbols, prefix, n)
            == namespace_members(symbols, prefix, (n - 1) as nat),
        namespace_members(symbols, prefix, 0).len() == 0,
{
    if symbols[n - 1].name@ == prefix + member {
        assert((prefix + member).skip(prefix.len() as int) =~= member);
    }
}

/// The card of a named argument is that of the parameter of the call that it
/// stands in; a word that names no argument has none.
pub proof fn argument_cards(
    source: Seq<char>,
    word: Seq<char>,
    call: Seq<char>,
    catalog: Catalog,
    docs: Seq<(String, GateDoc)>,
    line: usize,
    col: usize,
    f: CallSpec,
    i: int,
)
    requires
        catalog.call(call) == Some(f),
        0 <= i < f.params@.len(),
        f.params@[i].name@ == word,
        forall|k: int| 0 <= k < i ==> (#[trigger] f.params@[k]).name@ != word,
    ensures
        !names_argument(source, line, col) ==> crate::analysis::hover::param_hover(
            source,
            word,
            Some(call),
            catalog,
            docs,
            line,
            col,
        ) is None,
        names_argument(source, line, col) && gate_doc(docs, f.gate_class@) is None
            ==> crate::analysis::hover::param_hover(
            source,
            word,
            Some(call),
            catalog,
            docs,
            line,
            col,
        ) == Some(param_card(f.params@[i], None)),
        names_argument(source, line, col) ==> (gate_doc(docs, f.gate_class@) matches Some(g)
            ==> crate::analysis::hover::param_hover(
            source,
            word,
            Some(call),
            catalog,
            docs,
            line,
            col,
        ) == Some(param_card(f.params@[i], port_doc(g, f.params@[i].port@)))),
        crate::analysis::hover::param_hover(source, word, None, catalog, docs, line, col) is None,
{
    parameters_are_found(f.params@, word, 0, i);
}

/// A prefab that is no `.brz` file is warned of in its card.
pub proof fn other_prefabs_are_warned_of(path: Seq<char>, resolved: Seq<char>)
    requires
        path.len() > 0 && path.last() != 'z',
    ensures
        prefab_card(path, resolved, OnDisk::Missing)
            == "**Prefab file reference**\n\nEmbeds a `.brz` archive into `SpawnPrefab`.\n\n- Reference: `$"@
            + path + "`\n- Resolves to: `"@ + resolved + "`\n"@
            + "\n⚠️ Prefab references must end in `.brz` (WS019).\n"@ + "- ⚠️ Not found on disk\n"@,
{
    reveal_strlit(".brz");
    assert(".brz"@.last() == 'z');
    if path.len() >= 4 {
        assert(path.subrange(path.len() - 4, path.len() as int).last() == path.last());
    }
}

/// A chip whose name starts with an underscore is anonymous.
pub proof fn hidden_names_are_anonymous(sym: SymbolDef)
    requires
        sym.name@.len() > 0 && sym.name@[0] == '_',
    ensures
        !sym.is_exec ==> chip_card(sym) == "```wirescript\n"@ + sym.kind@ + " "@ + "(anonymous)"@
            + " (pure)\n```\n\nPure context - body is evaluated as signal-flow (combinational)"@,
        sym.is_exec ==> chip_card(sym) == "```wirescript\n"@ + sym.kind@ + " "@ + "(anonymous)"@
            + " (exec)\n```\n\nExec context - body runs as sequential exec chain"@,
{
}

/// The card of a callable ends with what it costs: a mod as a mod, anything else
/// as a chip.
pub proof fn callables_show_their_cost(
    sym: SymbolDef,
    docs: Map<usize, Seq<char>>,
    estimates: Estimates,
    est: ResourceEstimate,
)
    requires
        decl_estimate(estimates, sym) == Some(est),
        !docs.contains_key(sym.range.start.offset),
    ensures
        sym.kind@ == "mod"@ ==> decl_card(sym, docs, estimates) == decl_head(sym) + "\n\n"@
            + estimate_text(est, EstimateKind::Mod),
        sym.kind@ == "chip"@ || sym.kind@ == "fn"@ ==> decl_card(sym, docs, estimates) == decl_head(
            sym,
        ) + "\n\n"@ + estimate_text(est, EstimateKind::Chip),
{
    reveal_strlit("mod");
    reveal_strlit("chip");
    reveal_strlit("fn");
    assert("mod"@.len() == 3 && "chip"@.len() == 4 && "fn"@.len() == 2);
}

/// An `if` shows what it costs under its card.
pub proof fn ifs_show_their_cost(
    source: Seq<char>,
    file: Seq<char>,
    ifs: Map<(Seq<char>, usize), bool>,
    estimates: Estimates,
    line: usize,
    col: usize,
    l: Seq<char>,
    est: ResourceEstimate,
)
    requires
        line_of(source, line) == Some(l),
        scope_estimate(estimates, word_offset(source, line, l, col)) == Some(est),
        ifs.contains_key((file, word_offset(source, line, l, col))),
    ensures
        if_hover(source, file, "if"@, ifs, estimates, line, col) == Some(
            if_card(ifs[(file, word_offset(source, line, l, col))]) + "\n\n"@ + estimate_text(
                est,
                EstimateKind::Scope,
            ),
        ),
{
}

/// Of all that can be said of a word the first is said: conditionals, arguments,
/// methods, events, calls, chips, handlers, declared fields, members of
/// namespaces, fields of values, and last of all symbols.
pub proof fn first_card_is_shown(
    source: Seq<char>,
    file: Seq<char>,
    symbols: Seq<SymbolDef>,
    types: crate::analysis::fields::Types,
    comments: Map<usize, Seq<char>>,
    ifs: Map<(Seq<char>, usize), bool>,
    reads: Map<(Seq<char>, usize), bool>,
    estimates: Estimates,
    site: Site,
    catalog: Catalog,
    docs: Seq<(String, GateDoc)>,
    line: usize,
    col: usize,
    obj: Option<TypeView>,
    word: Seq<char>,
    i: int,
)
    ensures
        ({
            let cards = seq![
                if_hover(source, file, word, ifs, estimates, line, col),
                crate::analysis::hover::param_hover(
                    source,
                    word,
                    crate::ast_view::text_of(site.call),
                    catalog,
                    docs,
                    line,
                    col,
                ),
                method_hover(source, word, catalog, line, col),
                event_hover(word, catalog),
                call_hover(source, word, catalog, docs, line, col),
                crate::analysis::hover::chip_hover(source, word, symbols, estimates, line),
                crate::analysis::hover::on_hover(source, word, estimates, line),
                crate::analysis::hover::field_decl_hover(
                    source,
                    symbols,
                    comments,
                    word,
                    line,
                    col,
                ),
                crate::analysis::hover::member_hover(
                    source,
                    symbols,
                    comments,
                    estimates,
                    word,
                    line,
                    col,
                ),
                crate::analysis::hover::field_hover(
                    source,
                    file,
                    types,
                    symbols,
                    line,
                    col,
                    word,
                    obj,
                ),
                symbol_hover(
                    source,
                    file,
                    symbols,
                    comments,
                    reads,
                    estimates,
                    word,
                    line,
                    col,
                ),
            ];
            let card = word_card(
                source,
                file,
                symbols,
                types,
                comments,
                ifs,
                reads,
                estimates,
                site,
                catalog,
                docs,
                line,
                col,
                obj,
                word,
            );
            &&& 0 <= i < cards.len() && cards[i] is Some && (forall|k: int|
                0 <= k < i ==> (#[trigger] cards[k]) is None) ==> card == cards[i]
            &&& (forall|k: int| 0 <= k < cards.len() ==> (#[trigger] cards[k]) is None) ==> card
                is None
        }),
{
    let cards = seq![
        if_hover(source, file, word, ifs, estimates, line, col),
        crate::analysis::hover::param_hover(
            source,
            word,
            crate::ast_view::text_of(site.call),
            catalog,
            docs,
            line,
            col,
        ),
        method_hover(source, word, catalog, line, col),
        event_hover(word, catalog),
        call_hover(source, word, catalog, docs, line, col),
        crate::analysis::hover::chip_hover(source, word, symbols, estimates, line),
        crate::analysis::hover::on_hover(source, word, estimates, line),
        crate::analysis::hover::field_decl_hover(source, symbols, comments, word, line, col),
        crate::analysis::hover::member_hover(
            source,
            symbols,
            comments,
            estimates,
            word,
            line,
            col,
        ),
        crate::analysis::hover::field_hover(source, file, types, symbols, line, col, word, obj),
        symbol_hover(source, file, symbols, comments, reads, estimates, word, line, col),
    ];
    assert(cards.len() == 11);
    if forall|k: int| 0 <= k < cards.len() ==> (#[trigger] cards[k]) is None {
        assert(cards[0] is None && cards[1] is None && cards[2] is None && cards[3] is None);
        assert(cards[4] is None && cards[5] is None && cards[6] is None && cards[7] is None);
        assert(cards[8] is None && cards[9] is None && cards[10] is None);
    }
    if 0 <= i < cards.len() && cards[i] is Some && (forall|k: int|
        0 <= k < i ==> (#[trigger] cards[k]) is None) {
        assert(i > 0 ==> cards[0] is None);
        assert(i > 1 ==> cards[1] is None);
        assert(i > 2 ==> cards[2] is None);
        assert(i > 3 ==> cards[3] is None);
        assert(i > 4 ==> cards[4] is None);
        assert(i > 5 ==> cards[5] is None);
        assert(i > 6 ==> cards[6] is None);
        assert(i > 7 ==> cards[7] is None);
        assert(i > 8 ==> cards[8] is None);
        assert(i > 9 ==> cards[9] is None);
    }
}

} // verus!
