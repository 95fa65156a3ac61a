//! Fields of records, found in types, in their surface form and in the text
//! around a record literal.

use crate::analysis::symbols::{
    find_of_kind, find_symbol, kind_named, symbol_named, SymbolDef,
};
use crate::analysis::text::{
    find_char, first_at, has_at, has_char, is_white, lines, rows, slice_of, split_lines, stands_at,
    trim, trimmed, white,
};
use crate::assoc::{AssocMap, SpanKey};
use crate::ast::{RecordTypeField, Script, TopDecl, TypeExpr};
use crate::ast_view::text_of;
use crate::text::{cat7, chars_of, joined, owned, str_eq, string_of, texts};
use crate::type_expr::{type_expr_str, type_expr_text};
use crate::types::{field_type, find_field, group_type_views, Type, TypeView};
use vstd::prelude::*;
use vstd::string::*;

verus! {

// ---------- fields in surface form ----------

/// How a character changes the depth of brackets.
pub open spec fn turn(c: char) -> int {
    if c == '{' || c == '(' || c == '[' {
        1
    } else if c == '}' || c == ')' || c == ']' {
        -1
    } else {
        0
    }
}

/// The pieces between the commas outside brackets, the first one from `start`
/// on, when the scan stands at `i`. A comma at the end starts no piece.
pub open spec fn pieces(s: Seq<char>, start: int, i: int, depth: int) -> Seq<Seq<char>>
    decreases s.len() - i,
{
    if i < 0 || i >= s.len() {
        if start < s.len() {
            seq![s.subrange(start, s.len() as int)]
        } else {
            Seq::empty()
        }
    } else if s[i] == ',' && depth == 0 {
        seq![s.subrange(start, i)] + pieces(s, i + 1, i + 1, 0)
    } else {
        pieces(s, start, i + 1, depth + turn(s[i]))
    }
}

/// The fields of a record in surface form, without its braces.
pub open spec fn field_parts(s: Seq<char>) -> Seq<Seq<char>> {
    pieces(s, 0, 0, 0)
}

/// Split record fields respecting nested braces/brackets (e.g. `{a: {x: int}, b: int}`).
pub fn split_record_fields(s: &str) -> (r: Vec<String>)
    ensures
        texts(r@) == field_parts(s@),
{
    let chars = chars_of(s);
    split_fields(&chars)
}

fn split_fields(chars: &Vec<char>) -> (r: Vec<String>)
    ensures
        texts(r@) == field_parts(chars@),
{
    let ghost s = chars@;
    let mut parts: Vec<String> = Vec::new();
    let mut depth: i128 = 0;
    let mut start: usize = 0;
    let mut i: usize = 0;
    let n: usize = chars.len();
    assert(texts(parts@) + field_parts(s) =~= field_parts(s));
    while i < n
        invariant
            s == chars@,
            n == s.len(),
            start <= i <= n,
            -(i as int) <= depth <= i as int,
            texts(parts@) + pieces(s, start as int, i as int, depth as int) == field_parts(s),
        decreases n - i,
    {
        let c = chars[i];
        if c == ',' && depth == 0 {
            let ghost before = parts@;
            let part = string_of(chars, start, i);
            parts.push(part);
            assert(texts(parts@) =~= texts(before).push(s.subrange(start as int, i as int)));
            assert(texts(before) + (seq![s.subrange(start as int, i as int)] + pieces(
                s,
                i + 1,
                i + 1,
                0,
            )) =~= texts(parts@) + pieces(s, i + 1, i + 1, 0));
            start = i + 1;
        } else if c == '{' || c == '(' || c == '[' {
            depth += 1;
        } else if c == '}' || c == ')' || c == ']' {
            depth -= 1;
        }
        i += 1;
    }
    if start < n {
        let ghost before = parts@;
        let part = string_of(chars, start, n);
        parts.push(part);
        assert(texts(parts@) =~= texts(before) + seq![s.subrange(start as int, n as int)]);
    } else {
        assert(texts(parts@) + Seq::<Seq<char>>::empty() =~= texts(parts@));
    }
    parts
}

/// The type in a field `name: type`, if the field has this name.
pub open spec fn typed_as(part: Seq<char>, field: Seq<char>) -> Option<Seq<char>> {
    let p = trimmed(part);
    let k = first_at(p, ':');
    if k < p.len() && trimmed(p.take(k)) == field {
        Some(trimmed(p.skip(k + 1)))
    } else {
        None
    }
}

/// The type of the first field with this name, from the `i`-th on.
pub open spec fn typed_from(parts: Seq<Seq<char>>, field: Seq<char>, i: int) -> Option<Seq<char>>
    decreases parts.len() - i,
{
    if i < 0 || i >= parts.len() {
        None
    } else {
        match typed_as(parts[i], field) {
            Some(t) => Some(t),
            None => typed_from(parts, field, i + 1),
        }
    }
}

/// What stands between the braces of a record in surface form.
pub open spec fn inside_braces(ty: Seq<char>) -> Option<Seq<char>> {
    if ty.len() >= 2 && ty[0] == '{' && ty.last() == '}' {
        Some(ty.subrange(1, ty.len() - 1))
    } else {
        None
    }
}

/// The type of a field of a record in surface form.
pub open spec fn record_field_text(ty: Seq<char>, field: Seq<char>) -> Option<Seq<char>> {
    match inside_braces(ty) {
        Some(inner) => typed_from(field_parts(inner), field, 0),
        None => None,
    }
}

/// Extract a field's type from a record type string like `{counter: *int, step: int}`.
///
/// It works on the surface form because the symbols of other files carry no
/// more than that.
pub fn extract_record_field_type(ty_str: &str, field: &str) -> (r: Option<String>)
    ensures
        text_of(r) == record_field_text(ty_str@, field@),
{
    let ty = chars_of(ty_str);
    let want = chars_of(field);
    let n: usize = ty.len();
    if n < 2 || ty[0] != '{' || ty[n - 1] != '}' {
        return None;
    }
    let inner = slice_of(&ty, 1, n - 1);
    let parts = split_fields(&inner);
    let ghost all = field_parts(inner@);
    let mut i: usize = 0;
    while i < parts.len()
        invariant
            i <= parts@.len(),
            want@ == field@,
            all == texts(parts@),
            record_field_text(ty_str@, field@) == typed_from(all, field@, i as int),
        decreases parts@.len() - i,
    {
        assert(all[i as int] == parts@[i as int]@);
        let part = chars_of(parts[i].as_str());
        let p = trim(&part);
        assert(p@.skip(0) =~= p@);
        let k: usize = find_char(&p, 0, ':');
        if k < p.len() {
            let left = slice_of(&p, 0, k);
            assert(left@ =~= p@.take(k as int));
            let name = trim(&left);
            if crate::analysis::text::same_chars(&name, &want) {
                let right = slice_of(&p, k + 1, p.len());
                assert(right@ =~= p@.skip(k + 1));
                let typ = trim(&right);
                let out = string_of(&typ, 0, typ.len());
                assert(typ@.subrange(0, typ@.len() as int) =~= typ@);
                return Some(out);
            }
        }
        i += 1;
    }
    None
}

/// The fields of a record, put together with commas, give the text back; a
/// comma at its end is lost.
pub proof fn fields_rejoin(s: Seq<char>)
    ensures
        joined(field_parts(s), seq![',']) == s || joined(field_parts(s), seq![',']) + seq![','] == s,
{
    lemma_pieces_rejoin(s, 0, 0, 0);
    assert(s.skip(0) =~= s);
}

proof fn lemma_pieces_rejoin(s: Seq<char>, start: int, i: int, depth: int)
    requires
        0 <= start <= i <= s.len(),
    ensures
        start < s.len() ==> pieces(s, start, i, depth).len() > 0,
        ({
            let back = joined(pieces(s, start, i, depth), seq![',']);
            back == s.skip(start) || back + seq![','] == s.skip(start)
        }),
    decreases s.len() - i,
{
    if i >= s.len() {
        if start < s.len() {
            assert(s.subrange(start, s.len() as int) =~= s.skip(start));
        } else {
            assert(s.skip(start) =~= Seq::empty());
        }
    } else if s[i] == ',' && depth == 0 {
        let rest = pieces(s, i + 1, i + 1, 0);
        lemma_pieces_rejoin(s, i + 1, i + 1, 0);
        lemma_joined_front(s.subrange(start, i), rest, seq![',']);
        let back = joined(rest, seq![',']);
        let all = joined(seq![s.subrange(start, i)] + rest, seq![',']);
        if rest.len() == 0 {
            assert(i + 1 == s.len());
            assert(all + seq![','] =~= s.skip(start));
        } else if back == s.skip(i + 1) {
            assert(all =~= s.skip(start));
        } else {
            assert(all + seq![','] =~= s.skip(start)) by {
                assert(s.skip(i + 1) == back + seq![',']);
                assert(s.skip(start) =~= s.subrange(start, i) + seq![','] + s.skip(i + 1));
            }
        }
    } else {
        lemma_pieces_rejoin(s, start, i + 1, depth + turn(s[i]));
    }
}

/// Joining a list with one part more in front.
proof fn lemma_joined_front(first: Seq<char>, rest: Seq<Seq<char>>, sep: Seq<char>)
    ensures
        rest.len() == 0 ==> joined(seq![first] + rest, sep) == first,
        rest.len() > 0 ==> joined(seq![first] + rest, sep) == first + sep + joined(rest, sep),
    decreases rest.len(),
{
    let all = seq![first] + rest;
    if rest.len() == 0 {
        assert(all =~= seq![first]);
    } else if rest.len() == 1 {
        assert(all.drop_last() =~= seq![first]);
        assert(joined(all.drop_last(), sep) == first);
        assert(all.last() == rest[0]);
    } else {
        assert(all.drop_last() =~= seq![first] + rest.drop_last());
        lemma_joined_front(first, rest.drop_last(), sep);
        assert(all.last() == rest.last());
        assert(joined(all, sep) =~= first + sep + joined(rest, sep));
    }
}

// ---------- fields of type expressions ----------

/// The type of the first field with this name, from the `i`-th on.
pub open spec fn expr_field_from(
    fields: Seq<RecordTypeField>,
    field: Seq<char>,
    i: int,
) -> Option<Seq<char>>
    decreases fields.len() - i,
{
    if i < 0 || i >= fields.len() {
        None
    } else if fields[i].name@ == field {
        Some(type_expr_text(fields[i].typ@))
    } else {
        expr_field_from(fields, field, i + 1)
    }
}

fn expr_field(fields: &Vec<RecordTypeField>, field: &str) -> (r: Option<String>)
    ensures
        text_of(r) == expr_field_from(fields@, field@, 0),
{
    let mut i: usize = 0;
    while i < fields.len()
        invariant
            i <= fields@.len(),
            expr_field_from(fields@, field@, 0) == expr_field_from(fields@, field@, i as int),
        decreases fields@.len() - i,
    {
        if str_eq(fields[i].name.as_str(), field) {
            return Some(type_expr_str(&fields[i].typ));
        }
        i += 1;
    }
    None
}

/// The field of the first declared record with this name, from the `i`-th
/// declaration on.
pub open spec fn alias_field_from(
    decls: Seq<TopDecl>,
    name: Seq<char>,
    field: Seq<char>,
    i: int,
) -> Option<Seq<char>>
    decreases decls.len() - i,
{
    if i < 0 || i >= decls.len() {
        None
    } else {
        match decls[i] {
            TopDecl::TypeAlias(ta) => match ta.typ {
                TypeExpr::Record { fields, .. } => if ta.name@ == name {
                    expr_field_from(fields@, field, 0)
                } else {
                    alias_field_from(decls, name, field, i + 1)
                },
                _ => alias_field_from(decls, name, field, i + 1),
            },
            _ => alias_field_from(decls, name, field, i + 1),
        }
    }
}

/// The type of a field of a parameter, whose type is a record or names one.
pub open spec fn param_field_text(script: Script, param_type: TypeExpr, field: Seq<char>) -> Option<
    Seq<char>,
> {
    match param_type {
        TypeExpr::Record { fields, .. } => expr_field_from(fields@, field, 0),
        TypeExpr::Name { name, .. } => alias_field_from(script.decls@, name@, field, 0),
        _ => None,
    }
}

pub fn resolve_record_param_field_type(
    script: &Script,
    param_type: &TypeExpr,
    field: &str,
) -> (r: Option<String>)
    ensures
        text_of(r) == param_field_text(*script, *param_type, field@),
{
    match param_type {
        TypeExpr::Record { fields, .. } => expr_field(fields, field),
        TypeExpr::Name { name, .. } => {
            let mut i: usize = 0;
            while i < script.decls.len()
                invariant
                    i <= script.decls@.len(),
                    param_field_text(*script, *param_type, field@) == alias_field_from(
                        script.decls@,
                        name@,
                        field@,
                        i as int,
                    ),
                decreases script.decls@.len() - i,
            {
                if let TopDecl::TypeAlias(ta) = &script.decls[i] {
                    if str_eq(ta.name.as_str(), name.as_str()) {
                        if let TypeExpr::Record { fields, .. } = &ta.typ {
                            return expr_field(fields, field);
                        }
                    }
                }
                i += 1;
            }
            None
        },
        _ => None,
    }
}

// ---------- fields of types ----------

/// The type of a field of a value: of a record, of the value behind a
/// reference, or a component of a vector, color or rotator.
pub open spec fn member_type(t: TypeView, field: Seq<char>) -> Option<TypeView>
    decreases t,
{
    match t {
        TypeView::Record(fields) => field_type(fields, field),
        TypeView::Ref(inner) => if field == "Value"@ || field == "prev"@ || field == "VarRef"@ {
            Some(*inner)
        } else {
            member_type(*inner, field)
        },
        TypeView::Vector => if field == "x"@ || field == "X"@ || field == "y"@ || field == "Y"@
            || field == "z"@ || field == "Z"@ {
            Some(TypeView::Float)
        } else {
            None
        },
        TypeView::Color => if field == "r"@ || field == "R"@ || field == "g"@ || field == "G"@
            || field == "b"@ || field == "B"@ || field == "a"@ || field == "A"@ {
            Some(TypeView::Float)
        } else {
            None
        },
        TypeView::Rotator => if field == "pitch"@ || field == "yaw"@ || field == "roll"@ {
            Some(TypeView::Float)
        } else {
            None
        },
        _ => None,
    }
}

pub open spec fn type_of_opt(t: Option<Type>) -> Option<TypeView> {
    match t {
        Some(x) => Some(x@),
        None => None,
    }
}

pub fn resolve_field_in_type(ty: &Type, field: &str) -> (r: Option<Type>)
    ensures
        type_of_opt(r) == member_type(ty@, field@),
    decreases ty,
{
    broadcast use group_type_views;

    match ty {
        Type::Record(fields) => match find_field(fields, field) {
            Some(t) => Some(t.clone()),
            None => None,
        },
        Type::Ref(inner) => {
            if str_eq(field, "Value") || str_eq(field, "prev") || str_eq(field, "VarRef") {
                return Some((&**inner).clone());
            }
            resolve_field_in_type(inner, field)
        },
        Type::Vector => if str_eq(field, "x") || str_eq(field, "X") || str_eq(field, "y")
            || str_eq(field, "Y") || str_eq(field, "z") || str_eq(field, "Z") {
            Some(Type::Float)
        } else {
            None
        },
        Type::Color => if str_eq(field, "r") || str_eq(field, "R") || str_eq(field, "g")
            || str_eq(field, "G") || str_eq(field, "b") || str_eq(field, "B") || str_eq(field, "a")
            || str_eq(field, "A") {
            Some(Type::Float)
        } else {
            None
        },
        Type::Rotator => if str_eq(field, "pitch") || str_eq(field, "yaw") || str_eq(
            field,
            "roll",
        ) {
            Some(Type::Float)
        } else {
            None
        },
        _ => None,
    }
}

// ---------- fields by symbols ----------

/// The type of a field of a named object: by the declaration of the object's
/// type, else by the type itself where it is written out as a record.
pub open spec fn symbol_field(symbols: Seq<SymbolDef>, obj: Seq<char>, field: Seq<char>) -> Option<
    Seq<char>,
> {
    match symbol_named(symbols, obj) {
        None => None,
        Some(s) => match s.ty {
            None => None,
            Some(ty) => {
                let declared = match kind_named(symbols, "type"@, ty@) {
                    None => None,
                    Some(ts) => match ts.ty {
                        None => None,
                        Some(t) => record_field_text(t@, field),
                    },
                };
                match declared {
                    Some(t) => Some(t),
                    None => if ty@.len() > 0 && ty@[0] == '{' {
                        record_field_text(ty@, field)
                    } else {
                        None
                    },
                }
            },
        },
    }
}

/// Look up `obj_name` in symbols, find its type declaration, and resolve `field`
/// from the type's string representation.
pub fn resolve_field_via_symbols(symbols: &Vec<SymbolDef>, obj_name: &str, field: &str) -> (r:
    Option<String>)
    ensures
        text_of(r) == symbol_field(symbols@, obj_name@, field@),
{
    let sym = match find_symbol(symbols, obj_name) {
        Some(s) => s,
        None => return None,
    };
    let ty = match &sym.ty {
        Some(t) => t,
        None => return None,
    };
    if let Some(ts) = find_of_kind(symbols, "type", ty.as_str()) {
        if let Some(t) = &ts.ty {
            let declared = extract_record_field_type(t.as_str(), field);
            if declared.is_some() {
                return declared;
            }
        }
    }
    let chars = chars_of(ty.as_str());
    if chars.len() > 0 && chars[0] == '{' {
        extract_record_field_type(ty.as_str(), field)
    } else {
        None
    }
}

// ---------- fields of record literals ----------

/// Where a type name ends: at `=`, at white space or at the end.
pub open spec fn name_end(s: Seq<char>, i: int) -> int
    decreases s.len() - i,
{
    if i < 0 || i >= s.len() || s[i] == '=' || white(s[i]) {
        i
    } else {
        name_end(s, i + 1)
    }
}

/// The type that a line `let name: Type = ..` gives its name, if the line is
/// of that form.
pub open spec fn let_type(t: Seq<char>) -> Option<Seq<char>> {
    if has_at(t, 0, "let "@) {
        let rest = t.skip("let "@.len() as int);
        let k = first_at(rest, ':');
        if k < rest.len() {
            let after = trimmed(rest.skip(k + 1));
            Some(after.take(name_end(after, 0)))
        } else {
            None
        }
    } else {
        None
    }
}

fn find_let_type(t: &Vec<char>) -> (r: Option<Vec<char>>)
    ensures
        crate::analysis::text::row_of(r) == let_type(t@),
{
    if !stands_at(t, 0, "let ") {
        return None;
    }
    proof {
        reveal_strlit("let ");
    }
    let rest = slice_of(t, 4, t.len());
    assert(rest@ =~= t@.skip("let "@.len() as int));
    assert(rest@.skip(0) =~= rest@);
    let k: usize = find_char(&rest, 0, ':');
    if k >= rest.len() {
        return None;
    }
    let right = slice_of(&rest, k + 1, rest.len());
    assert(right@ =~= rest@.skip(k + 1));
    let after = trim(&right);
    let mut i: usize = 0;
    while i < after.len() && after[i] != '=' && !is_white(after[i])
        invariant
            i <= after@.len(),
            name_end(after@, 0) == name_end(after@, i as int),
        decreases after@.len() - i,
    {
        i += 1;
    }
    let name = slice_of(&after, 0, i);
    assert(name@ =~= after@.take(i as int));
    Some(name)
}

/// The type of a field in the first declared record type with this name that
/// has the field, from the `i`-th symbol on.
pub open spec fn declared_field_from(
    symbols: Seq<SymbolDef>,
    name: Seq<char>,
    field: Seq<char>,
    i: int,
) -> Option<Seq<char>>
    decreases symbols.len() - i,
{
    if i < 0 || i >= symbols.len() {
        None
    } else {
        let here = if symbols[i].kind@ == "type"@ && symbols[i].name@ == name {
            match symbols[i].ty {
                Some(t) => record_field_text(t@, field),
                None => None,
            }
        } else {
            None
        };
        match here {
            Some(t) => Some(t),
            None => declared_field_from(symbols, name, field, i + 1),
        }
    }
}

fn declared_field(symbols: &Vec<SymbolDef>, name: &str, field: &str) -> (r: Option<String>)
    ensures
        text_of(r) == declared_field_from(symbols@, name@, field@, 0),
{
    let mut i: usize = 0;
    while i < symbols.len()
        invariant
            i <= symbols@.len(),
            declared_field_from(symbols@, name@, field@, 0) == declared_field_from(
                symbols@,
                name@,
                field@,
                i as int,
            ),
        decreases symbols@.len() - i,
    {
        let sym = &symbols[i];
        if str_eq(sym.kind.as_str(), "type") && str_eq(sym.name.as_str(), name) {
            if let Some(t) = &sym.ty {
                let found = extract_record_field_type(t.as_str(), field);
                if found.is_some() {
                    return found;
                }
            }
        }
        i += 1;
    }
    None
}

/// Whether a trimmed line can stand inside a record literal: it is empty, a
/// comment, a spread, a field, ends in a brace, or holds a comma.
pub open spec fn record_interior(t: Seq<char>) -> bool {
    t.len() == 0 || has_at(t, 0, "//"@) || has_at(t, 0, "..."@) || t.contains(':') || t.contains(
        ',',
    ) || t.last() == '{' || t.last() == '}'
}

fn is_record_interior(t: &Vec<char>) -> (r: bool)
    ensures
        r == record_interior(t@),
{
    let n: usize = t.len();
    n == 0 || stands_at(t, 0, "//") || stands_at(t, 0, "...") || has_char(t, ':') || has_char(t, ',')
        || t[n - 1] == '{' || t[n - 1] == '}'
}

/// How a field of a named type is shown.
pub open spec fn field_card(owner: Seq<char>, field: Seq<char>, ty: Seq<char>) -> Seq<char> {
    "```wirescript\n"@ + owner + "."@ + field + ": "@ + ty + "\n```"@
}

/// The card of a field of a record literal: the nearest line above that gives
/// a name a type with this field, with only lines of a literal in between.
pub open spec fn literal_field(
    ls: Seq<Seq<char>>,
    symbols: Seq<SymbolDef>,
    field: Seq<char>,
    line: int,
) -> Option<Seq<char>>
    decreases line + 1,
{
    if line < 0 || line >= ls.len() {
        None
    } else {
        let t = trimmed(ls[line]);
        let here = match let_type(t) {
            Some(name) => match declared_field_from(symbols, name, field, 0) {
                Some(ty) if name.len() > 0 => Some(field_card(name, field, ty)),
                _ => None,
            },
            None => None,
        };
        match here {
            Some(card) => Some(card),
            None => if record_interior(t) {
                literal_field(ls, symbols, field, line - 1)
            } else {
                None
            },
        }
    }
}

pub fn resolve_record_lit_field(
    source: &str,
    symbols: &Vec<SymbolDef>,
    field: &str,
    line: usize,
) -> (r: Option<String>)
    ensures
        text_of(r) == literal_field(lines(source@), symbols@, field@, line as int),
{
    let all = split_lines(source);
    let ghost ls = lines(source@);
    if line >= all.len() {
        return None;
    }
    let mut left: usize = line + 1;
    while left > 0
        invariant
            ls == rows(all@),
            ls == lines(source@),
            left <= all@.len(),
            literal_field(ls, symbols@, field@, line as int) == literal_field(
                ls,
                symbols@,
                field@,
                left - 1,
            ),
        decreases left,
    {
        let row = &all[left - 1];
        assert(ls[left - 1] == row@);
        let t = trim(row);
        if let Some(name) = find_let_type(&t) {
            let n: usize = name.len();
            if n > 0 {
                let text = string_of(&name, 0, n);
                assert(name@.subrange(0, n as int) =~= name@);
                if let Some(ty) = declared_field(symbols, text.as_str(), field) {
                    return Some(
                        cat7(
                            "```wirescript\n",
                            text.as_str(),
                            ".",
                            field,
                            ": ",
                            ty.as_str(),
                            "\n```",
                        ),
                    );
                }
            }
        }
        if !is_record_interior(&t) {
            return None;
        }
        left -= 1;
    }
    None
}

// ---------- types by place ----------

/// The types of expressions, by where they stand.
pub type Types = Map<(Seq<char>, usize, usize), TypeView>;

/// Whether `t` is the type that is found for an object between two offsets:
/// that of the exact span, else of a span that ends one earlier or later, else
/// of any span with that start.
pub open spec fn found_type(
    types: Types,
    file: Seq<char>,
    start: usize,
    end: usize,
    t: Option<TypeView>,
) -> bool {
    let short = if end == 0 {
        usize::MAX
    } else {
        (end - 1) as usize
    };
    let long = if end == usize::MAX {
        usize::MAX
    } else {
        (end + 1) as usize
    };
    if types.contains_key((file, start, end)) {
        t == Some(types[(file, start, end)])
    } else if types.contains_key((file, start, short)) {
        t == Some(types[(file, start, short)])
    } else if types.contains_key((file, start, long)) {
        t == Some(types[(file, start, long)])
    } else {
        match t {
            Some(ty) => exists|e: usize| #[trigger]
                types.contains_key((file, start, e)) && types[(file, start, e)] == ty,
            None => forall|e: usize| !(#[trigger] types.contains_key((file, start, e))),
        }
    }
}

/// One of the outcomes of the search for a type.
pub open spec fn some_type(types: Types, file: Seq<char>, start: usize, end: usize) -> Option<
    TypeView,
> {
    choose|t: Option<TypeView>| found_type(types, file, start, end, t)
}

/// The search for a type always has an outcome.
pub proof fn some_type_fits(types: Types, file: Seq<char>, start: usize, end: usize)
    ensures
        found_type(types, file, start, end, some_type(types, file, start, end)),
{
    let short = if end == 0 {
        usize::MAX
    } else {
        (end - 1) as usize
    };
    let long = if end == usize::MAX {
        usize::MAX
    } else {
        (end + 1) as usize
    };
    let t = if types.contains_key((file, start, end)) {
        Some(types[(file, start, end)])
    } else if types.contains_key((file, start, short)) {
        Some(types[(file, start, short)])
    } else if types.contains_key((file, start, long)) {
        Some(types[(file, start, long)])
    } else if exists|e: usize| #[trigger] types.contains_key((file, start, e)) {
        Some(types[(file, start, choose|e: usize| #[trigger] types.contains_key((file, start, e)))])
    } else {
        None
    };
    assert(found_type(types, file, start, end, t));
}

fn lookup<'a>(types: &'a AssocMap<SpanKey, Type>, file: &str, start: usize, end: usize) -> (r:
    Option<&'a Type>)
    ensures
        r is Some <==> types@.contains_key((file@, start, end)),
        r matches Some(t) ==> t@ == types@[(file@, start, end)],
{
    types.get(&SpanKey { file: owned(file), start, end })
}

/// Find the type of an object expression at the given span.
///
/// The recorded spans may end one byte before or after the place that the text
/// shows, so those are tried after the exact span, and then any span with the
/// same start.
pub fn find_obj_type<'a>(
    type_map: &'a AssocMap<SpanKey, Type>,
    file: &str,
    obj_start: usize,
    obj_end: usize,
) -> (r: Option<&'a Type>)
    ensures
        found_type(
            type_map@,
            file@,
            obj_start,
            obj_end,
            match r {
                Some(t) => Some(t@),
                None => None,
            },
        ),
{
    if let Some(t) = lookup(type_map, file, obj_start, obj_end) {
        return Some(t);
    }
    if let Some(t) = lookup(type_map, file, obj_start, obj_end.wrapping_sub(1)) {
        return Some(t);
    }
    if let Some(t) = lookup(type_map, file, obj_start, obj_end.saturating_add(1)) {
        return Some(t);
    }
    let n: usize = type_map.size();
    let mut i: usize = 0;
    while i < n
        invariant
            i <= n,
            n == type_map.slots().len(),
            !type_map@.contains_key((file@, obj_start, obj_end)),
            !type_map@.contains_key(
                (
                    file@,
                    obj_start,
                    if obj_end == 0 {
                        usize::MAX
                    } else {
                        (obj_end - 1) as usize
                    },
                ),
            ),
            !type_map@.contains_key(
                (
                    file@,
                    obj_start,
                    if obj_end == usize::MAX {
                        usize::MAX
                    } else {
                        (obj_end + 1) as usize
                    },
                ),
            ),
            forall|k: int, e: usize|
                0 <= k < i && #[trigger] type_map.slots()[k] == (file@, obj_start, e)
                    ==> !(#[trigger] type_map@.contains_key((file@, obj_start, e))),
        decreases n - i,
    {
        let key = type_map.slot(i);
        if key.start == obj_start && str_eq(key.file.as_str(), file) {
            if let Some(t) = type_map.get(key) {
                return Some(t);
            }
        }
        i += 1;
    }
    proof {
        assert forall|e: usize| !(#[trigger] type_map@.contains_key((file@, obj_start, e))) by {
            if type_map@.contains_key((file@, obj_start, e)) {
                type_map.every_key_has_a_slot((file@, obj_start, e));
                let k = choose|k: int|
                    0 <= k < type_map.slots().len() && type_map.slots()[k] == (file@, obj_start, e);
                assert(type_map.slots()[k] == (file@, obj_start, e));
            }
        }
    }
    None
}

/// Whether a span that ends at `end` starts last among those that do.
pub open spec fn starts_last(types: Types, file: Seq<char>, end: usize, start: usize) -> bool {
    &&& types.contains_key((file, start, end))
    &&& forall|s: usize| #[trigger] types.contains_key((file, s, end)) ==> s <= start
}

/// The type of the innermost expression that ends at an offset.
pub open spec fn ending_type(types: Types, file: Seq<char>, end: usize) -> Option<TypeView> {
    if exists|s: usize| starts_last(types, file, end, s) {
        Some(types[(file, choose|s: usize| starts_last(types, file, end, s), end)])
    } else {
        None
    }
}

/// The innermost expression that ends exactly at an offset.
pub fn find_ending<'a>(type_map: &'a AssocMap<SpanKey, Type>, file: &str, end: usize) -> (r: Option<
    &'a Type,
>)
    ensures
        ending_type(type_map@, file@, end) == (match r {
            Some(t) => Some(t@),
            None => None,
        }),
{
    let n: usize = type_map.size();
    let mut best: Option<usize> = None;
    let mut i: usize = 0;
    while i < n
        invariant
            i <= n,
            n == type_map.slots().len(),
            best matches Some(b) ==> type_map@.contains_key((file@, b, end)),
            forall|k: int, s: usize|
                0 <= k < i && #[trigger] type_map.slots()[k] == (file@, s, end)
                    && #[trigger] type_map@.contains_key((file@, s, end)) ==> best is Some && s
                    <= best->0,
        decreases n - i,
    {
        let key = type_map.slot(i);
        if key.end == end && str_eq(key.file.as_str(), file) && type_map.contains(key) {
            match best {
                Some(b) if b >= key.start => {},
                _ => {
                    best = Some(key.start);
                },
            }
        }
        i += 1;
    }
    proof {
        assert forall|s: usize| #[trigger] type_map@.contains_key((file@, s, end)) implies best
            is Some && s <= best->0 by {
            type_map.every_key_has_a_slot((file@, s, end));
            let k = choose|k: int|
                0 <= k < type_map.slots().len() && type_map.slots()[k] == (file@, s, end);
            assert(type_map.slots()[k] == (file@, s, end));
        }
    }
    match best {
        Some(b) => {
            assert(starts_last(type_map@, file@, end, b));
            lookup(type_map, file, b, end)
        },
        None => {
            assert forall|s: usize| !starts_last(type_map@, file@, end, s) by {
                if type_map@.contains_key((file@, s, end)) {
                }
            }
            None
        },
    }
}

} // verus!
