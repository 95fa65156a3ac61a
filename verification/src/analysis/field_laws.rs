//! What is known of a field, a word and its place.

use crate::analysis::card_laws::{
    all_word, first_place_is_found, lines_end_at_breaks, surface_fields_are_typed,
    symbols_are_found, texts_are_trimmed, words_are_found,
};
use crate::analysis::fields::{
    alias_field_from, declared_field_from, ending_type, expr_field_from, found_type, let_type,
    literal_field, member_type, name_end, param_field_text, record_field_text, record_interior,
    starts_last, symbol_field, Types,
};
use crate::analysis::hover::{
    after_word, calls_something, chip_between, chip_card, chip_hover, decl_card, decl_estimate,
    documented, estimate_kind, field_hover, line_end, member_hover, names_argument, object_span,
    offset_of, on_column, on_hover, param_doc, scope_estimate, spans_line, start_column,
    type_field_from, under, word_offset, EstimateKind,
};
use crate::analysis::symbols::{
    gate_doc, kind_from, kind_named, port_doc, symbol_named, Estimates, GateDoc, SymbolDef,
};
use crate::analysis::text::{
    byte_len, clamp, cut, found_at, leading, line_of, line_start, lines, lines_bytes, next_break,
    trimmed, trimmed_start, white, word_char,
};
use crate::ast::{RecordTypeField, Script, TopDecl, TypeExpr};
use crate::type_expr::type_expr_text;
use crate::types::{type_text, TypeView};
use vstd::prelude::*;

verus! {

// ---------- places ----------

/// A line starts behind the bytes of the lines before it and their breaks.
pub proof fn lines_start_behind_breaks(a: Seq<char>, b: Seq<char>)
    requires
        !a.contains('\n'),
        a.len() > 0 ==> a.last() != '\r',
        b.len() > 0,
        !b.contains('\n'),
        byte_len(a) < usize::MAX,
    ensures
        ({
            let source = a + seq!['\n'] + b;
            &&& line_of(source, 0) == Some(a)
            &&& line_of(source, 1) == Some(b)
            &&& line_of(source, 2) is None
            &&& line_start(source, 0) == 0
            &&& line_start(source, 1) == byte_len(a) + 1
        }),
{
    let source = a + seq!['\n'] + b;
    lines_end_at_breaks(a, b);
    lines_end_at_breaks(b, b);
    let ls = lines(source);
    assert(lines(b)[0] == ls[1]);
    assert(lines_bytes(ls, 0) == 0);
    assert(lines_bytes(ls, 1) == byte_len(a) + 1);
}

/// A place is as far from the start of the script as its line and column are
/// together.
pub proof fn places_are_added_up(source: Seq<char>, line: usize, at: usize)
    requires
        line_start(source, line) + at <= usize::MAX,
    ensures
        offset_of(source, line, at) == line_start(source, line) + at,
{
}

/// The first place of a text is found.
pub proof fn texts_are_found(s: Seq<char>, p: Seq<char>, from: int, i: int)
    requires
        0 <= from <= i,
        i + p.len() <= s.len(),
        s.subrange(i, i + p.len()) == p,
        forall|k: int|
            from <= k < i && k + p.len() <= s.len() ==> #[trigger] s.subrange(k, k + p.len()) != p,
    ensures
        found_at(s, p, from) == Some(i),
    decreases i - from,
{
    if from < i {
        assert(s.subrange(from, from + p.len()) != p);
        texts_are_found(s, p, from + 1, i);
    }
}

proof fn lemma_skip_white(a: Seq<char>, t: Seq<char>)
    requires
        forall|m: int| 0 <= m < a.len() ==> #[trigger] a[m] == ' ',
        t.len() > 0,
        !white(t[0]),
    ensures
        trimmed_start(a + t) == t,
    decreases a.len(),
{
    let s = a + t;
    lemma_leading_spaces(a, t);
    assert(s.skip(a.len() as int) =~= t);
}

proof fn lemma_leading_spaces(a: Seq<char>, t: Seq<char>)
    requires
        forall|m: int| 0 <= m < a.len() ==> #[trigger] a[m] == ' ',
        t.len() > 0,
        !white(t[0]),
    ensures
        leading(a + t) == a.len(),
    decreases a.len(),
{
    let s = a + t;
    if a.len() > 0 {
        assert(a[0] == ' ' && s[0] == ' ');
        let b = a.drop_first();
        assert forall|m: int| 0 <= m < b.len() implies #[trigger] b[m] == ' ' by {
            assert(b[m] == a[m + 1]);
        }
        assert(s.drop_first() =~= b + t);
        lemma_leading_spaces(b, t);
    } else {
        assert(s =~= t);
    }
}

/// What stands behind the word at the cursor, less the blanks between.
pub proof fn words_are_followed(
    a: Seq<char>,
    w: Seq<char>,
    blanks: Seq<char>,
    rest: Seq<char>,
    i: int,
)
    requires
        0 <= i <= w.len(),
        all_word(w),
        a.len() > 0 ==> !word_char(a.last()),
        forall|m: int| 0 <= m < blanks.len() ==> #[trigger] blanks[m] == ' ',
        !word_char(' '),
        rest.len() > 0 && !word_char(rest[0]) && !white(rest[0]),
        byte_len(a + w + (blanks + rest)) <= usize::MAX,
    ensures
        ({
            let l = a + w + (blanks + rest);
            after_word(l, byte_len(l.take(a.len() + i)) as usize) == rest
        }),
{
    let b = blanks + rest;
    let l = a + w + b;
    if blanks.len() > 0 {
        assert(blanks[0] == ' ');
    }
    words_are_found(a, w, b, i);
    assert(l.skip((a.len() + w.len()) as int) =~= b);
    lemma_skip_white(blanks, rest);
}

/// A word before a single equals sign names an argument; before a double one it
/// is compared, and before a bracket it is called.
pub proof fn signs_behind_words(source: Seq<char>, line: usize, col: usize, l: Seq<char>, rest: Seq<char>)
    requires
        line_of(source, line) == Some(l),
        after_word(l, col) == rest,
        rest.len() > 0,
    ensures
        rest[0] == '=' && (rest.len() == 1 || rest[1] != '=') ==> names_argument(source, line, col),
        rest[0] == '=' && rest.len() > 1 && rest[1] == '=' ==> !names_argument(source, line, col),
        rest[0] != '=' ==> !names_argument(source, line, col),
        rest[0] == '(' ==> calls_something(source, line, col),
        rest[0] != '(' && !crate::analysis::hover::behind_dot(l, col) ==> !calls_something(
            source,
            line,
            col,
        ),
        crate::analysis::hover::behind_dot(l, col) ==> calls_something(source, line, col),
{
    reveal_strlit("=");
    reveal_strlit("==");
    reveal_strlit("(");
    assert("="@.len() == 1 && "="@[0] == '=' && "=="@.len() == 2 && "=="@[0] == '=' && "=="@[1]
        == '=');
    assert("("@.len() == 1 && "("@[0] == '(');
    assert(rest.subrange(0, 1)[0] == rest[0]);
    if rest[0] == '=' {
        assert(rest.subrange(0, 1) =~= "="@);
    }
    if rest[0] == '(' {
        assert(rest.subrange(0, 1) =~= "("@);
    }
    if rest.len() > 1 {
        assert(rest.subrange(0, 2)[1] == rest[1]);
        if rest[0] == '=' && rest[1] == '=' {
            assert(rest.subrange(0, 2) =~= "=="@);
        }
    }
}

// ---------- fields of written types ----------

/// A field of a record type is found by its name, with its own type.
pub proof fn fields_of_record_types(
    fields: Seq<RecordTypeField>,
    field: Seq<char>,
    from: int,
    i: int,
)
    requires
        0 <= from <= i < fields.len(),
        fields[i].name@ == field,
        forall|k: int| from <= k < i ==> (#[trigger] fields[k]).name@ != field,
    ensures
        expr_field_from(fields, field, from) == Some(type_expr_text(fields[i].typ@)),
    decreases i - from,
{
    if from < i {
        fields_of_record_types(fields, field, from + 1, i);
    }
}

/// A field of a named type is that of the first record declared under the name.
pub proof fn fields_of_declared_types(
    decls: Seq<TopDecl>,
    name: Seq<char>,
    field: Seq<char>,
    from: int,
    i: int,
)
    requires
        0 <= from <= i < decls.len(),
        decls[i] matches TopDecl::TypeAlias(ta) && ta.name@ == name && ta.typ is Record,
        forall|k: int|
            from <= k < i ==> !(#[trigger] decls[k] matches TopDecl::TypeAlias(ta) && ta.name@
                == name && ta.typ is Record),
    ensures
        alias_field_from(decls, name, field, from) == expr_field_from(
            decls[i]->TypeAlias_0.typ->Record_fields@,
            field,
            0,
        ),
    decreases i - from,
{
    if from < i {
        fields_of_declared_types(decls, name, field, from + 1, i);
    }
}

/// A parameter has the fields of its record, or of the record that its type
/// names, and none otherwise.
pub proof fn fields_of_parameters(script: Script, t: TypeExpr, field: Seq<char>)
    ensures
        t matches TypeExpr::Record { fields, .. } ==> param_field_text(script, t, field)
            == expr_field_from(fields@, field, 0),
        t matches TypeExpr::Name { name, .. } ==> param_field_text(script, t, field)
            == alias_field_from(script.decls@, name@, field, 0),
        !(t is Record) && !(t is Name) ==> param_field_text(script, t, field) is None,
{
}

/// A symbol of a record type has the fields that its type shows.
pub proof fn fields_of_symbols(
    symbols: Seq<SymbolDef>,
    obj: Seq<char>,
    i: int,
    n: Seq<char>,
    t: Seq<char>,
)
    requires
        0 <= i < symbols.len(),
        symbols[i].name@ == obj,
        forall|k: int| 0 <= k < i ==> (#[trigger] symbols[k]).name@ != obj,
        symbols[i].ty matches Some(ty) && ty@ == "{"@ + n + ": "@ + t + "}"@,
        kind_named(symbols, "type"@, "{"@ + n + ": "@ + t + "}"@) is None,
        crate::analysis::card_laws::flat(n) && crate::analysis::card_laws::flat(t),
        n.len() > 0 && !white(n[0]) && !white(n.last()) && !n.contains(':'),
        t.len() > 0 && !white(t[0]) && !white(t.last()),
    ensures
        symbol_field(symbols, obj, n) == Some(t),
{
    symbols_are_found(symbols, obj, 0, i);
    surface_fields_are_typed(n, t);
    reveal_strlit("{");
    assert(("{"@ + n + ": "@ + t + "}"@)[0] == '{');
}

/// A symbol without a type, and a name that is no symbol, has no fields.
pub proof fn untyped_symbols_have_no_fields(
    symbols: Seq<SymbolDef>,
    obj: Seq<char>,
    field: Seq<char>,
)
    ensures
        symbol_named(symbols, obj) is None ==> symbol_field(symbols, obj, field) is None,
        symbol_named(symbols, obj) matches Some(s) ==> s.ty is None ==> symbol_field(
            symbols,
            obj,
            field,
        ) is None,
{
}

/// A symbol is found by its kind and its name together.
pub proof fn kinds_are_found(
    symbols: Seq<SymbolDef>,
    kind: Seq<char>,
    name: Seq<char>,
    from: int,
    i: int,
)
    requires
        0 <= from <= i < symbols.len(),
        symbols[i].kind@ == kind && symbols[i].name@ == name,
        forall|k: int|
            from <= k < i ==> (#[trigger] symbols[k]).kind@ != kind || symbols[k].name@ != name,
    ensures
        kind_from(symbols, kind, name, from) == Some(symbols[i]),
    decreases i - from,
{
    if from < i {
        kinds_are_found(symbols, kind, name, from + 1, i);
    }
}

proof fn lemma_name_end(t: Seq<char>, rest: Seq<char>, i: int)
    requires
        0 <= i <= t.len(),
        forall|m: int| 0 <= m < t.len() ==> !white(#[trigger] t[m]) && t[m] != '=',
        rest.len() > 0 ==> white(rest[0]) || rest[0] == '=',
    ensures
        name_end(t + rest, i) == t.len(),
    decreases t.len() - i,
{
    let s = t + rest;
    if i < t.len() {
        assert(s[i] == t[i]);
        lemma_name_end(t, rest, i + 1);
    } else if rest.len() > 0 {
        assert(s[i] == rest[0]);
    }
}

/// The type that a `let` names stands between the colon and the next blank.
pub proof fn lets_name_their_type(name: Seq<char>, ty: Seq<char>, rest: Seq<char>)
    requires
        !name.contains(':'),
        ty.len() > 0,
        forall|m: int| 0 <= m < ty.len() ==> !white(#[trigger] ty[m]) && ty[m] != '=',
        rest.len() > 0 && !white(rest.last()),
    ensures
        let_type("let "@ + name + ": "@ + ty + " = "@ + rest) == Some(ty),
{
    reveal_strlit("let ");
    reveal_strlit(": ");
    reveal_strlit(" = ");
    reveal_strlit(" ");
    let s = "let "@ + name + ": "@ + ty + " = "@ + rest;
    assert("let "@.len() == 4);
    assert(s.subrange(0, 4) =~= "let "@);
    let tail = ty + (" = "@ + rest);
    let r = name + ": "@ + ty + " = "@ + rest;
    assert(s.skip(4) =~= r);
    first_place_is_found(name, ':', " "@ + tail);
    assert(r =~= name + seq![':'] + (" "@ + tail));
    assert(r.skip(name.len() as int + 1) =~= seq![' '] + tail);
    let none = Seq::<char>::empty();
    assert(tail[0] == ty[0] && tail.last() == rest.last());
    texts_are_trimmed(seq![' '], tail, none);
    assert(seq![' '] + tail + none =~= seq![' '] + tail);
    assert((" = "@ + rest)[0] == ' ');
    lemma_name_end(ty, " = "@ + rest, 0);
    assert(tail.take(ty.len() as int) =~= ty);
}

/// A line that is no `let` names no type.
pub proof fn other_lines_name_no_type(t: Seq<char>)
    requires
        t.len() > 0 && t[0] != 'l',
    ensures
        let_type(t) is None,
{
    reveal_strlit("let ");
    assert("let "@.len() == 4 && "let "@[0] == 'l');
    if t.len() >= 4 {
        assert(t.subrange(0, 4)[0] == t[0]);
    }
}

/// A field of a declared type is that of the first type that has it.
pub proof fn declared_fields_are_found(
    symbols: Seq<SymbolDef>,
    name: Seq<char>,
    field: Seq<char>,
    from: int,
    i: int,
    ty: Seq<char>,
)
    requires
        0 <= from <= i < symbols.len(),
        symbols[i].kind@ == "type"@ && symbols[i].name@ == name,
        symbols[i].ty matches Some(t) && record_field_text(t@, field) == Some(ty),
        forall|k: int|
            from <= k < i ==> (#[trigger] symbols[k]).kind@ != "type"@ || symbols[k].name@ != name,
    ensures
        declared_field_from(symbols, name, field, from) == Some(ty),
    decreases i - from,
{
    if from < i {
        declared_fields_are_found(symbols, name, field, from + 1, i, ty);
    }
}

/// Which lines lie inside a record: empty ones, comments, spreads, and those
/// with a colon, a comma or a brace at the end.
pub proof fn lines_inside_records(t: Seq<char>)
    ensures
        t.len() == 0 ==> record_interior(t),
        t.contains(':') || t.contains(',') ==> record_interior(t),
        t.len() > 0 && (t.last() == '{' || t.last() == '}') ==> record_interior(t),
        t.len() >= 2 && t[0] == '/' && t[1] == '/' ==> record_interior(t),
        t.len() >= 3 && t[0] == '.' && t[1] == '.' && t[2] == '.' ==> record_interior(t),
        t.len() > 0 && !t.contains(':') && !t.contains(',') && t.last() != '{' && t.last() != '}'
            && t[0] != '/' && t[0] != '.' ==> !record_interior(t),
{
    reveal_strlit("//");
    reveal_strlit("...");
    assert("//"@.len() == 2 && "//"@[0] == '/' && "//"@[1] == '/');
    assert("..."@.len() == 3 && "..."@[0] == '.' && "..."@[1] == '.' && "..."@[2] == '.');
    if t.len() >= 2 {
        assert(t.subrange(0, 2)[0] == t[0]);
        if t[0] == '/' && t[1] == '/' {
            assert(t.subrange(0, 2) =~= "//"@);
        }
    }
    if t.len() >= 3 {
        assert(t.subrange(0, 3)[0] == t[0]);
        if t[0] == '.' && t[1] == '.' && t[2] == '.' {
            assert(t.subrange(0, 3) =~= "..."@);
        }
    }
}

/// The field of a record literal is that of the type that the nearest `let`
/// above it names; other lines of the record are passed over.
pub proof fn fields_of_literals(
    ls: Seq<Seq<char>>,
    symbols: Seq<SymbolDef>,
    field: Seq<char>,
    line: int,
    name: Seq<char>,
    ty: Seq<char>,
)
    requires
        0 <= line < ls.len(),
    ensures
        let_type(trimmed(ls[line])) == Some(name) && name.len() > 0 && declared_field_from(
            symbols,
            name,
            field,
            0,
        ) == Some(ty) ==> literal_field(ls, symbols, field, line) == Some(
            "```wirescript\n"@ + name + "."@ + field + ": "@ + ty + "\n```"@,
        ),
        let_type(trimmed(ls[line])) is None && record_interior(trimmed(ls[line])) ==> literal_field(
            ls,
            symbols,
            field,
            line,
        ) == literal_field(ls, symbols, field, line - 1),
        let_type(trimmed(ls[line])) is None && !record_interior(trimmed(ls[line]))
            ==> literal_field(ls, symbols, field, line) is None,
        literal_field(ls, symbols, field, -1) is None,
{
}

// ---------- types by place ----------

/// The type of an expression is the one noted for just its place.
pub proof fn exact_places_come_first(
    types: Types,
    file: Seq<char>,
    start: usize,
    end: usize,
    t: Option<TypeView>,
)
    requires
        found_type(types, file, start, end, t),
    ensures
        types.contains_key((file, start, end)) ==> t == Some(types[(file, start, end)]),
        t matches Some(ty) ==> exists|e: usize| #[trigger]
            types.contains_key((file, start, e)) && types[(file, start, e)] == ty,
        t is None ==> forall|e: usize| !(#[trigger] types.contains_key((file, start, e))),
        !types.contains_key((file, start, end)) && end > 0 && types.contains_key(
            (file, start, (end - 1) as usize),
        ) ==> t == Some(types[(file, start, (end - 1) as usize)]),
{
}

/// Of the expressions that end at a place the shortest counts.
pub proof fn shortest_expressions_count(types: Types, file: Seq<char>, end: usize, start: usize)
    requires
        types.contains_key((file, start, end)),
        forall|s: usize| #[trigger] types.contains_key((file, s, end)) ==> s <= start,
    ensures
        ending_type(types, file, end) == Some(types[(file, start, end)]),
{
    assert(starts_last(types, file, end, start));
    let s = choose|s: usize| starts_last(types, file, end, s);
    assert(starts_last(types, file, end, s));
    assert(s <= start && start <= s);
}

/// The card of a field: what was checked at its place comes first, then the
/// field of the object's type.
pub proof fn checked_fields_come_first(
    source: Seq<char>,
    file: Seq<char>,
    types: Types,
    symbols: Seq<SymbolDef>,
    line: usize,
    col: usize,
    field: Seq<char>,
    obj: Option<TypeView>,
    l: Seq<char>,
    a: int,
    b: int,
)
    requires
        line_of(source, line) == Some(l),
        object_span(l, col) == Some((a, b)),
    ensures
        ({
            let start = offset_of(source, line, start_column(l, a));
            let end = offset_of(
                source,
                line,
                clamp(byte_len(l.take(next_break(l, cut(l, col as nat))))),
            );
            let card = field_hover(source, file, types, symbols, line, col, field, obj);
            &&& types.contains_key((file, start, end)) ==> card == Some(
                "```wirescript\nfield "@ + field + ": "@ + type_text(types[(file, start, end)])
                    + "\n```"@,
            )
            &&& !types.contains_key((file, start, end)) ==> (obj matches Some(t) ==> (member_type(
                t,
                field,
            ) matches Some(ft) ==> card == Some(
                "```wirescript\nfield "@ + field + ": "@ + type_text(ft) + "\n```"@,
            )))
        }),
{
}

/// The card of a member of a namespace is that of its declaration.
pub proof fn members_of_namespaces(
    source: Seq<char>,
    symbols: Seq<SymbolDef>,
    docs: Map<usize, Seq<char>>,
    estimates: Estimates,
    word: Seq<char>,
    line: usize,
    col: usize,
    l: Seq<char>,
    a: int,
    b: int,
    i: int,
)
    requires
        line_of(source, line) == Some(l),
        object_span(l, col) == Some((a, b)),
        0 <= i < symbols.len(),
        symbols[i].name@ == l.subrange(a, b) + "."@ + word,
        forall|k: int|
            0 <= k < i ==> (#[trigger] symbols[k]).name@ != l.subrange(a, b) + "."@ + word,
    ensures
        kind_named(symbols, "namespace"@, l.subrange(a, b)) is Some ==> member_hover(
            source,
            symbols,
            docs,
            estimates,
            word,
            line,
            col,
        ) == Some(decl_card(symbols[i], docs, estimates)),
        kind_named(symbols, "namespace"@, l.subrange(a, b)) is None ==> member_hover(
            source,
            symbols,
            docs,
            estimates,
            word,
            line,
            col,
        ) is None,
{
    symbols_are_found(symbols, l.subrange(a, b) + "."@ + word, 0, i);
}

/// A declaration spans the lines from its start to its end, which are counted
/// from one.
pub proof fn declarations_span_their_lines(sym: SymbolDef, line: usize)
    requires
        1 <= sym.range.start.line,
        1 <= sym.range.end.line,
    ensures
        spans_line(sym, line) <==> sym.range.start.line - 1 <= line && line <= sym.range.end.line - 1,
{
}

/// The card of a field in the declaration of a type.
pub proof fn fields_in_declarations(
    source: Seq<char>,
    symbols: Seq<SymbolDef>,
    docs: Map<usize, Seq<char>>,
    word: Seq<char>,
    line: usize,
    col: usize,
    from: int,
    i: int,
    l: Seq<char>,
    ty: Seq<char>,
)
    requires
        line_of(source, line) == Some(l),
        0 <= from <= i < symbols.len(),
        symbols[i].kind@ == "type"@ && spans_line(symbols[i], line),
        symbols[i].ty matches Some(t) && record_field_text(t@, word) == Some(ty),
        forall|k: int|
            from <= k < i ==> (#[trigger] symbols[k]).kind@ != "type"@ || !spans_line(
                symbols[k],
                line,
            ),
    ensures
        type_field_from(source, symbols, docs, word, line, col, from) == Some(
            documented(
                "```wirescript\n"@ + symbols[i].name@ + "."@ + word + ": "@ + ty + "\n```"@,
                docs,
                word_offset(source, line, l, col),
            ),
        ),
    decreases i - from,
{
    if from < i {
        fields_in_declarations(source, symbols, docs, word, line, col, from + 1, i, l, ty);
    }
}

// ---------- chips and handlers ----------

/// The chip of a line is the first one that starts in it.
pub proof fn chips_of_a_line(symbols: Seq<SymbolDef>, lo: usize, hi: usize, from: int, i: int)
    requires
        0 <= from <= i < symbols.len(),
        symbols[i].kind@ == "chip"@ || symbols[i].kind@ == "mod"@,
        lo <= symbols[i].range.start.offset < hi,
        forall|k: int|
            from <= k < i ==> ((#[trigger] symbols[k]).kind@ != "chip"@ && symbols[k].kind@
                != "mod"@) || symbols[k].range.start.offset < lo || symbols[k].range.start.offset
                >= hi,
    ensures
        chip_between(symbols, lo, hi, from) == Some(symbols[i]),
    decreases i - from,
{
    if from < i {
        chips_of_a_line(symbols, lo, hi, from + 1, i);
    }
}

/// The keyword of a chip shows the chip that starts in its line; any other word
/// shows none.
pub proof fn chip_keywords(
    source: Seq<char>,
    word: Seq<char>,
    symbols: Seq<SymbolDef>,
    estimates: Estimates,
    line: usize,
)
    ensures
        word != "chip"@ && word != "mod"@ ==> chip_hover(source, word, symbols, estimates, line)
            is None,
        word == "chip"@ || word == "mod"@ ==> (chip_between(
            symbols,
            line_start(source, line),
            line_end(source, line),
            0,
        ) matches Some(sym) ==> decl_estimate(estimates, sym) is None ==> chip_hover(
            source,
            word,
            symbols,
            estimates,
            line,
        ) == Some(chip_card(sym))),
        word == "chip"@ || word == "mod"@ ==> (chip_between(
            symbols,
            line_start(source, line),
            line_end(source, line),
            0,
        ) is None ==> chip_hover(source, word, symbols, estimates, line) is None),
{
}

/// A mod is estimated as a mod, and a chip as a chip.
pub proof fn estimates_go_by_the_kind(sym: SymbolDef)
    ensures
        sym.kind@ == "mod"@ ==> estimate_kind(sym) is Mod,
        sym.kind@ == "chip"@ ==> estimate_kind(sym) is Chip,
{
    reveal_strlit("mod");
    reveal_strlit("chip");
    assert("mod"@.len() == 3 && "chip"@.len() == 4);
}

/// The estimate of a declaration is that of its name and place.
pub proof fn estimates_are_found(estimates: Estimates, sym: SymbolDef, at: usize)
    ensures
        estimates.decls@.contains_key((sym.name@, sym.range.start.offset)) ==> decl_estimate(
            estimates,
            sym,
        ) == Some(estimates.decls@[(sym.name@, sym.range.start.offset)]),
        !estimates.decls@.contains_key((sym.name@, sym.range.start.offset)) ==> decl_estimate(
            estimates,
            sym,
        ) is None,
        estimates.scopes@.contains_key(at) ==> scope_estimate(estimates, at) == Some(
            estimates.scopes@[at],
        ),
        !estimates.scopes@.contains_key(at) ==> scope_estimate(estimates, at) is None,
{
}

/// The keyword of a handler shows what the handler costs.
pub proof fn handler_keywords(
    source: Seq<char>,
    word: Seq<char>,
    estimates: Estimates,
    line: usize,
    l: Seq<char>,
)
    requires
        line_of(source, line) == Some(l),
    ensures
        word != "on"@ ==> on_hover(source, word, estimates, line) is None,
        word == "on"@ ==> (scope_estimate(
            estimates,
            offset_of(source, line, on_column(l)),
        ) matches Some(est) ==> on_hover(source, word, estimates, line) == Some(
            "```wirescript\non handler (exec)\n```"@ + "\n\n"@
                + crate::analysis::hover::estimate_text(est, EstimateKind::Scope),
        )),
{
}

/// The handler of a line is at its first `on`.
pub proof fn handlers_start_at_on(a: Seq<char>, rest: Seq<char>)
    requires
        !a.contains('o'),
        byte_len(a) <= usize::MAX,
    ensures
        on_column(a + "on"@ + rest) == byte_len(a),
{
    reveal_strlit("on");
    let l = a + "on"@ + rest;
    let i = a.len() as int;
    assert("on"@.len() == 2 && "on"@[0] == 'o');
    assert(l.subrange(i, i + 2) =~= "on"@);
    assert forall|k: int| 0 <= k < i && k + "on"@.len() <= l.len() implies #[trigger] l.subrange(
        k,
        k + "on"@.len(),
    ) != "on"@ by {
        assert(l.subrange(k, k + 2)[0] == a[k]);
        assert(a.contains(a[k]));
    }
    texts_are_found(l, "on"@, 0, i);
    assert(l.take(i) =~= a);
}

/// The documentation of a parameter is that of the port of its gate.
pub proof fn parameters_are_documented(
    docs: Seq<(String, GateDoc)>,
    class: Seq<char>,
    port: Seq<char>,
)
    ensures
        gate_doc(docs, class) matches Some(g) ==> param_doc(docs, class, port) == port_doc(g, port),
        gate_doc(docs, class) is None ==> param_doc(docs, class, port) is None,
{
}

/// The documentation of a gate is found by its class, and that of a port by its
/// name.
pub proof fn documentation_is_found(docs: Seq<(String, GateDoc)>, class: Seq<char>, from: int, i: int)
    requires
        0 <= from <= i < docs.len(),
        docs[i].0@ == class,
        forall|k: int| from <= k < i ==> (#[trigger] docs[k]).0@ != class,
    ensures
        crate::analysis::symbols::doc_from(docs, class, from) == Some(docs[i].1),
    decreases i - from,
{
    if from < i {
        documentation_is_found(docs, class, from + 1, i);
    }
}

/// The documentation of a port is found by the name of the port.
pub proof fn port_documentation_is_found(
    inputs: Seq<(String, crate::analysis::symbols::PortDoc)>,
    port: Seq<char>,
    from: int,
    i: int,
)
    requires
        0 <= from <= i < inputs.len(),
        inputs[i].0@ == port,
        forall|k: int| from <= k < i ==> (#[trigger] inputs[k]).0@ != port,
    ensures
        crate::analysis::symbols::port_from(inputs, port, from) == Some(inputs[i].1),
    decreases i - from,
{
    if from < i {
        port_documentation_is_found(inputs, port, from + 1, i);
    }
}

/// A symbol of a declared record type has the fields of the declaration.
pub proof fn fields_of_declared_symbols(
    symbols: Seq<SymbolDef>,
    obj: Seq<char>,
    i: int,
    d: int,
    n: Seq<char>,
    t: Seq<char>,
)
    requires
        0 <= i < symbols.len(),
        symbols[i].name@ == obj,
        forall|k: int| 0 <= k < i ==> (#[trigger] symbols[k]).name@ != obj,
        0 <= d < symbols.len(),
        symbols[i].ty matches Some(ty) && ty@ == symbols[d].name@,
        symbols[d].kind@ == "type"@,
        forall|k: int|
            0 <= k < d ==> (#[trigger] symbols[k]).kind@ != "type"@ || symbols[k].name@
                != symbols[d].name@,
        symbols[d].ty matches Some(ty) && ty@ == "{"@ + n + ": "@ + t + "}"@,
        crate::analysis::card_laws::flat(n) && crate::analysis::card_laws::flat(t),
        n.len() > 0 && !white(n[0]) && !white(n.last()) && !n.contains(':'),
        t.len() > 0 && !white(t[0]) && !white(t.last()),
    ensures
        symbol_field(symbols, obj, n) == Some(t),
{
    symbols_are_found(symbols, obj, 0, i);
    kinds_are_found(symbols, "type"@, symbols[d].name@, 0, d);
    surface_fields_are_typed(n, t);
}

/// A line ends behind its break.
pub proof fn lines_end_behind_breaks(a: Seq<char>, b: Seq<char>)
    requires
        !a.contains('\n'),
        a.len() > 0 ==> a.last() != '\r',
        b.len() > 0,
        !b.contains('\n'),
        byte_len(a) + byte_len(b) + 2 <= usize::MAX,
    ensures
        ({
            let source = a + seq!['\n'] + b;
            &&& line_end(source, 0) == byte_len(a) + 1
            &&& line_end(source, 1) == byte_len(a) + byte_len(b) + 2
            &&& line_end(source, 2) == line_start(source, 2)
        }),
{
    lines_start_behind_breaks(a, b);
}

/// Where just the place of an expression is not noted, the place that is one
/// shorter counts, and then the one that is one longer.
pub proof fn near_places_come_next(
    types: Types,
    file: Seq<char>,
    start: usize,
    end: usize,
    t: Option<TypeView>,
)
    requires
        found_type(types, file, start, end, t),
        0 < end < usize::MAX,
        !types.contains_key((file, start, end)),
    ensures
        types.contains_key((file, start, (end - 1) as usize)) ==> t == Some(
            types[(file, start, (end - 1) as usize)],
        ),
        !types.contains_key((file, start, (end - 1) as usize)) && types.contains_key(
            (file, start, (end + 1) as usize),
        ) ==> t == Some(types[(file, start, (end + 1) as usize)]),
{
}

/// Just these characters are white.
pub proof fn these_are_white(c: char)
    ensures
        ({
            let n = c as u32;
            white(c) <==> (n == 0x9 || n == 0xA || n == 0xB || n == 0xC || n == 0xD || n == 0x20 || n
                == 0x85 || n == 0xA0 || n == 0x1680 || n == 0x2000 || n == 0x2001 || n == 0x2002 || n
                == 0x2003 || n == 0x2004 || n == 0x2005 || n == 0x2006 || n == 0x2007 || n == 0x2008
                || n == 0x2009 || n == 0x200A || n == 0x2028 || n == 0x2029 || n == 0x202F || n
                == 0x205F || n == 0x3000)
        }),
{
}

} // verus!
