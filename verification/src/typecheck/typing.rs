//! What each construct of the language is typed as, and what is reported of it.

use crate::ast::{ArrayElem, Expr, RecordLitField};
use crate::catalog::{
    call_named, coercion_for, event_named, rule_for, CallSpec, Catalog, CoerceRule, Coercion,
    EventSpec, OpRule,
};
use crate::diagnostic::{DiagnosticView, RangeView, Severity};
use crate::text::{decimal, ends_with_text};
use crate::typecheck::ctx::{span_key, State};
use crate::typecheck::judge::{array_elems, inferred, inferred_inner, record_fields};
use crate::typecheck::rules::{
    field_rule, ident_rule, index_rule, match_type, pick_rule, put_field, shorthand_type,
    shown_target, var_named,
};
use crate::typecheck::scope::SymbolKind;
use crate::types::{debug_text, field_type, type_text, type_views, unref, Fields, TypeView};
use vstd::prelude::*;

verus! {

/// Whether exactly one error was added to what is reported.
pub open spec fn one_error(
    s: State,
    t: State,
    code: Seq<char>,
    message: Seq<char>,
    range: RangeView,
) -> bool {
    t.diags == s.diags.push(DiagnosticView { severity: Severity::Error, code, message, range })
}

/// Whether exactly one warning was added to what is reported.
pub open spec fn one_warning(
    s: State,
    t: State,
    code: Seq<char>,
    message: Seq<char>,
    range: RangeView,
) -> bool {
    t.diags == s.diags.push(DiagnosticView { severity: Severity::Warning, code, message, range })
}

// ---------- tables ----------

/// The first rule for an operator and its operands is the one that is taken.
pub proof fn first_rule_is_taken(rules: Seq<OpRule>, op: Seq<char>, operands: Seq<TypeView>, i: int)
    requires
        0 <= i < rules.len(),
        rules[i].op@ == op && type_views(rules[i].operands@) == operands,
        forall|k: int|
            0 <= k < i ==> !((#[trigger] rules[k]).op@ == op && type_views(rules[k].operands@)
                == operands),
    ensures
        rule_for(rules, op, operands) == Some(rules[i]),
    decreases i,
{
    if i > 0 {
        let rest = rules.drop_first();
        assert(!(rules[0].op@ == op && type_views(rules[0].operands@) == operands));
        assert forall|k: int| 0 <= k < i - 1 implies !((#[trigger] rest[k]).op@ == op && type_views(
            rest[k].operands@,
        ) == operands) by {
            assert(rest[k] == rules[k + 1]);
        }
        first_rule_is_taken(rest, op, operands, i - 1);
    }
}

/// Without a rule for an operator and its operands there is none.
pub proof fn no_rule_no_overload(rules: Seq<OpRule>, op: Seq<char>, operands: Seq<TypeView>)
    requires
        forall|k: int|
            0 <= k < rules.len() ==> !((#[trigger] rules[k]).op@ == op && type_views(
                rules[k].operands@,
            ) == operands),
    ensures
        rule_for(rules, op, operands) is None,
    decreases rules.len(),
{
    if rules.len() > 0 {
        let rest = rules.drop_first();
        assert(!(rules[0].op@ == op && type_views(rules[0].operands@) == operands));
        assert forall|k: int| 0 <= k < rest.len() implies !((#[trigger] rest[k]).op@ == op
            && type_views(rest[k].operands@) == operands) by {
            assert(rest[k] == rules[k + 1]);
        }
        no_rule_no_overload(rest, op, operands);
    }
}

/// A call is found under its name, the first of several.
pub proof fn calls_are_found_by_name(calls: Seq<CallSpec>, name: Seq<char>)
    ensures
        call_named(calls, name) is Some <==> exists|i: int|
            0 <= i < calls.len() && #[trigger] calls[i].name@ == name,
        call_named(calls, name) matches Some(f) ==> f.name@ == name && calls.contains(f),
    decreases calls.len(),
{
    if calls.len() > 0 {
        let rest = calls.drop_first();
        calls_are_found_by_name(rest, name);
        if calls[0].name@ != name {
            if call_named(rest, name) is Some {
                let i = choose|i: int| 0 <= i < rest.len() && #[trigger] rest[i].name@ == name;
                assert(calls[i + 1].name@ == name);
                let k = choose|k: int| 0 <= k < rest.len() && rest[k] == call_named(rest, name)->0;
                assert(calls[k + 1] == call_named(rest, name)->0);
            }
            if exists|i: int| 0 <= i < calls.len() && #[trigger] calls[i].name@ == name {
                let i = choose|i: int| 0 <= i < calls.len() && #[trigger] calls[i].name@ == name;
                assert(rest[i - 1].name@ == name);
            }
        } else {
            assert(calls[0].name@ == name);
            assert(calls.contains(calls[0]));
        }
    }
}

/// An event is found under its name, the first of several.
pub proof fn events_are_found_by_name(events: Seq<EventSpec>, name: Seq<char>)
    ensures
        event_named(events, name) is Some <==> exists|i: int|
            0 <= i < events.len() && #[trigger] events[i].surface_name@ == name,
        event_named(events, name) matches Some(f) ==> f.surface_name@ == name && events.contains(f),
    decreases events.len(),
{
    if events.len() > 0 {
        let rest = events.drop_first();
        events_are_found_by_name(rest, name);
        if events[0].surface_name@ != name {
            if event_named(rest, name) is Some {
                let i = choose|i: int|
                    0 <= i < rest.len() && #[trigger] rest[i].surface_name@ == name;
                assert(events[i + 1].surface_name@ == name);
                let k = choose|k: int| 0 <= k < rest.len() && rest[k] == event_named(rest, name)->0;
                assert(events[k + 1] == event_named(rest, name)->0);
            }
            if exists|i: int| 0 <= i < events.len() && #[trigger] events[i].surface_name@ == name {
                let i = choose|i: int|
                    0 <= i < events.len() && #[trigger] events[i].surface_name@ == name;
                assert(rest[i - 1].surface_name@ == name);
            }
        } else {
            assert(events[0].surface_name@ == name);
            assert(events.contains(events[0]));
        }
    }
}

/// Equal types fit, and `any` fits everything and is fitted by everything.
/// Other pairs fit exactly where the first entry for them says so.
pub proof fn fitting(c: Catalog, a: TypeView, b: TypeView)
    ensures
        c.fits(a, a),
        c.fits(a, TypeView::Any),
        c.fits(TypeView::Any, a),
        a != b && !(a is Any) && !(b is Any) ==> (c.fits(a, b) <==> allowed(c.coercions@, a, b)),
{
    lemma_allowed(c.coercions@, a, b);
}

/// Whether the first entry for a pair of types allows it.
pub open spec fn allowed(table: Seq<Coercion>, a: TypeView, b: TypeView) -> bool {
    exists|i: int|
        0 <= i < table.len() && (#[trigger] table[i]).from@ == a && table[i].to@ == b
            && table[i].rule != CoerceRule::Mismatch && forall|k: int|
            0 <= k < i ==> !((#[trigger] table[k]).from@ == a && table[k].to@ == b)
}

proof fn lemma_allowed(table: Seq<Coercion>, a: TypeView, b: TypeView)
    ensures
        coercion_for(table, a, b) != CoerceRule::Mismatch <==> allowed(table, a, b),
    decreases table.len(),
{
    if table.len() > 0 {
        let rest = table.drop_first();
        lemma_allowed(rest, a, b);
        if table[0].from@ == a && table[0].to@ == b {
            if allowed(table, a, b) {
                let i = choose|i: int|
                    0 <= i < table.len() && (#[trigger] table[i]).from@ == a && table[i].to@ == b
                        && table[i].rule != CoerceRule::Mismatch && forall|k: int|
                        0 <= k < i ==> !((#[trigger] table[k]).from@ == a && table[k].to@ == b);
                if i > 0 {
                    assert(!(table[0].from@ == a && table[0].to@ == b));
                }
            }
        } else {
            if allowed(rest, a, b) {
                let i = choose|i: int|
                    0 <= i < rest.len() && (#[trigger] rest[i]).from@ == a && rest[i].to@ == b
                        && rest[i].rule != CoerceRule::Mismatch && forall|k: int|
                        0 <= k < i ==> !((#[trigger] rest[k]).from@ == a && rest[k].to@ == b);
                assert(table[i + 1] == rest[i]);
                assert forall|k: int| 0 <= k < i + 1 implies !((#[trigger] table[k]).from@ == a
                    && table[k].to@ == b) by {
                    if k > 0 {
                        assert(table[k] == rest[k - 1]);
                    }
                }
            }
            if allowed(table, a, b) {
                let i = choose|i: int|
                    0 <= i < table.len() && (#[trigger] table[i]).from@ == a && table[i].to@ == b
                        && table[i].rule != CoerceRule::Mismatch && forall|k: int|
                        0 <= k < i ==> !((#[trigger] table[k]).from@ == a && table[k].to@ == b);
                assert(rest[i - 1] == table[i]);
                assert forall|k: int| 0 <= k < i - 1 implies !((#[trigger] rest[k]).from@ == a
                    && rest[k].to@ == b) by {
                    assert(rest[k] == table[k + 1]);
                }
            }
        }
    }
}

/// What a method of an array gives: `any` without outputs, the type of its one
/// output, or a record with a field for each output. An output without a type
/// of its own is an element.
pub proof fn method_outputs(c: Catalog, name: Seq<char>, elem: TypeView)
    requires
        c.method(name) is Some,
    ensures
        ({
            let outs = (c.method(name)->0).outputs@;
            let t = c.method_result(name, elem);
            &&& outs.len() == 0 ==> t is Any
            &&& outs.len() == 1 && outs[0].1 is None ==> t == elem
            &&& outs.len() == 1 && outs[0].1 is Some ==> t == (outs[0].1->0)@
            &&& outs.len() > 1 ==> t is Record && t->Record_0.len() == outs.len()
            &&& outs.len() > 1 ==> forall|i: int|
                0 <= i < outs.len() ==> (#[trigger] t->Record_0[i]).0 == outs[i].0@ && t->Record_0[i].1
                    == match outs[i].1 {
                    Some(own) => own@,
                    None => elem,
                }
        }),
{
}

// ---------- literals ----------

/// Literals have the types that they are written in, and are never reported.
pub proof fn literals_are_typed(s: State, c: Catalog, e: Expr)
    ensures
        e is IntLit ==> inferred(s, c, e).1 == TypeView::Int,
        e is FloatLit ==> inferred(s, c, e).1 == TypeView::Float,
        e is StringLit ==> inferred(s, c, e).1 == TypeView::String,
        e is BoolLit ==> inferred(s, c, e).1 == TypeView::Bool,
        e is AssetRef ==> inferred(s, c, e).1 == TypeView::Entity,
        e is InterpLit ==> inferred(s, c, e).1 == TypeView::String,
        e is IntLit || e is FloatLit || e is StringLit || e is BoolLit || e is AssetRef ==> inferred(
            s,
            c,
            e,
        ).0.diags == s.diags,
{
}

/// What an expression is typed as is kept under its place.
pub proof fn types_are_kept_by_place(s: State, c: Catalog, e: Expr)
    ensures
        ({
            let (t, ty) = inferred(s, c, e);
            let r = e.rng()@;
            t.types.contains_key((r.file, r.start.offset, r.end.offset)) && t.types[(
                r.file,
                r.start.offset,
                r.end.offset,
            )] == ty
        }),
{
}

/// A reference to a prefab must name a `.brz` file.
pub proof fn prefabs_are_brz_files(s: State, c: Catalog, e: Expr, stem: Seq<char>)
    requires
        e is PrefabRef,
    ensures
        inferred(s, c, e).1 == TypeView::Any,
        e->PrefabRef_path@ == stem + ".brz"@ ==> inferred(s, c, e).0.diags == s.diags,
        (forall|p: Seq<char>| e->PrefabRef_path@ != #[trigger] (p + ".brz"@)) ==> one_error(
            s,
            inferred(s, c, e).0,
            "WS019"@,
            "prefab reference `$"@ + e->PrefabRef_path@ + "` must end in `.brz`"@,
            e->PrefabRef_range@,
        ),
{
    reveal_strlit(".brz");
    let path = e->PrefabRef_path@;
    if path == stem + ".brz"@ {
        assert(path.skip(path.len() - 4) =~= ".brz"@);
    }
    if forall|p: Seq<char>| path != #[trigger] (p + ".brz"@) {
        if ends_with_text(path, ".brz"@) {
            let p = path.take(path.len() - 4);
            assert(p + ".brz"@ =~= path);
        }
    }
}

// ---------- names ----------

/// What a name is typed as: an event is a pulse, a function or chip has no type
/// of its own, a variable is what it holds, and any other symbol is what it was
/// declared as. A name that is not known is reported.
pub proof fn names_are_typed(s: State, c: Catalog, e: Expr)
    requires
        e is Ident,
    ensures
        ({
            let (t, ty) = inferred(s, c, e);
            match s.lookup(e->Ident_name@) {
                None => ty == TypeView::Any && one_error(
                    s,
                    t,
                    "WS002"@,
                    "unknown identifier '"@ + e->Ident_name@ + "'"@,
                    e->Ident_range@,
                ),
                Some(sym) => {
                    &&& t.diags == s.diags
                    &&& sym.kind == SymbolKind::Event ==> ty == TypeView::Exec
                    &&& sym.kind == SymbolKind::Fn || sym.kind == SymbolKind::Chip ==> ty
                        == TypeView::Any
                    &&& sym.kind == SymbolKind::Var ==> (sym.ty matches TypeView::Ref(inner) ==> ty
                        == *inner)
                    &&& sym.kind == SymbolKind::Buffer || sym.kind == SymbolKind::Array || sym.kind
                        == SymbolKind::Param || sym.kind == SymbolKind::EventParam || sym.kind
                        == SymbolKind::LetBinding || sym.kind == SymbolKind::In || sym.kind
                        == SymbolKind::Out ==> ty == sym.ty
                },
            }
        }),
{
    assert(inferred_inner(s, c, e) == ident_rule(s, e->Ident_name@, e->Ident_range@));
}

/// Reading a variable notes where it is read, and in which context.
pub proof fn reads_note_their_context(s: State, c: Catalog, e: Expr)
    requires
        e is Ident,
        s.lookup(e->Ident_name@) matches Some(sym) && sym.kind == SymbolKind::Var,
    ensures
        ({
            let r = e->Ident_range@;
            let t = inferred(s, c, e).0;
            t.reads.contains_key((r.file, r.start.offset)) && t.reads[(r.file, r.start.offset)]
                == s.is_exec()
        }),
{
    assert(inferred_inner(s, c, e) == ident_rule(s, e->Ident_name@, e->Ident_range@));
}

// ---------- fields ----------

/// Whether a field is one of the numbers that a value of a type is made of.
pub open spec fn number_field(t: TypeView, f: Seq<char>) -> bool {
    ||| t is Vector && (f == "x"@ || f == "y"@ || f == "z"@ || f == "X"@ || f == "Y"@ || f == "Z"@)
    ||| t is Color && (f == "r"@ || f == "g"@ || f == "b"@ || f == "a"@ || f == "R"@ || f == "G"@
        || f == "B"@ || f == "A"@)
    ||| t is Rotator && (f == "pitch"@ || f == "yaw"@ || f == "roll"@)
}

/// The components of vectors, colors and rotators are floats.
pub proof fn components_are_floats(
    s: State,
    obj: Expr,
    ot: TypeView,
    field: Seq<char>,
    range: RangeView,
)
    requires
        number_field(ot, field),
    ensures
        field_rule(s, obj, ot, field, range) == (s, TypeView::Float),
{
    reveal_strlit("x");
    reveal_strlit("y");
    reveal_strlit("z");
    reveal_strlit("X");
    reveal_strlit("Y");
    reveal_strlit("Z");
    reveal_strlit("r");
    reveal_strlit("g");
    reveal_strlit("b");
    reveal_strlit("a");
    reveal_strlit("R");
    reveal_strlit("G");
    reveal_strlit("B");
    reveal_strlit("A");
    reveal_strlit("pitch");
    reveal_strlit("yaw");
    reveal_strlit("roll");
    reveal_strlit("Value");
    reveal_strlit("value");
    reveal_strlit("prev");
    reveal_strlit("VarRef");
    assert("pitch"@[0] == 'p' && "Value"@[0] == 'V' && "value"@[0] == 'v');
    assert("roll"@[0] == 'r' && "prev"@[0] == 'p');
}

/// The components in an expression: `v.z` is a float and adds no report to
/// those of `v`.
pub proof fn component_expressions_are_floats(s: State, c: Catalog, e: Expr)
    requires
        e is FieldAccess,
        number_field(inferred(s, c, *e->FieldAccess_obj).1, e->field@),
    ensures
        inferred(s, c, e).1 == TypeView::Float,
        inferred(s, c, e).0.diags == inferred(s, c, *e->FieldAccess_obj).0.diags,
{
    if let Expr::FieldAccess { obj, field, range } = e {
        let (s1, ot) = inferred(s, c, *obj);
        components_are_floats(s1, *obj, ot, field@, range@);
        assert(inferred_inner(s, c, e) == field_rule(s1, *obj, ot, field@, range@));
    }
}

/// Any other field of a value without fields is `any`.
pub proof fn other_fields_are_any(
    s: State,
    obj: Expr,
    ot: TypeView,
    field: Seq<char>,
    range: RangeView,
)
    requires
        !number_field(ot, field),
        !(ot is Record) && !(ot is Ref),
        field != "Value"@ && field != "value"@ && field != "prev"@,
    ensures
        field_rule(s, obj, ot, field, range) == (s, TypeView::Any),
{
}

/// A field of a record has the type of the first field of that name.
pub proof fn record_fields_are_typed(
    s: State,
    obj: Expr,
    fields: Fields,
    i: int,
    field: Seq<char>,
    range: RangeView,
)
    requires
        field != "Value"@ && field != "value"@ && field != "prev"@,
    ensures
        0 <= i < fields.len() && fields[i].0 == field && (forall|k: int|
            0 <= k < i ==> (#[trigger] fields[k]).0 != field) ==> field_rule(
            s,
            obj,
            TypeView::Record(fields),
            field,
            range,
        ) == (s, fields[i].1),
        (forall|k: int| 0 <= k < fields.len() ==> (#[trigger] fields[k]).0 != field) ==> ({
            let (t, ty) = field_rule(s, obj, TypeView::Record(fields), field, range);
            ty == TypeView::Any && one_error(
                s,
                t,
                "WS010"@,
                "no field '"@ + field + "' on "@ + debug_text(TypeView::Record(fields)),
                range,
            )
        }),
{
    fields_are_found_by_name(fields, field, i);
}

/// The first field of a name is the one that is found.
pub proof fn fields_are_found_by_name(fields: Fields, name: Seq<char>, i: int)
    ensures
        0 <= i < fields.len() && fields[i].0 == name && (forall|k: int|
            0 <= k < i ==> (#[trigger] fields[k]).0 != name) ==> field_type(fields, name) == Some(
            fields[i].1,
        ),
        (forall|k: int| 0 <= k < fields.len() ==> (#[trigger] fields[k]).0 != name) ==> field_type(
            fields,
            name,
        ) is None,
    decreases fields.len(),
{
    if fields.len() > 0 {
        let rest = fields.drop_first();
        fields_are_found_by_name(rest, name, i - 1);
        if 0 < i < fields.len() && (forall|k: int| 0 <= k < i ==> (#[trigger] fields[k]).0 != name) {
            assert(fields[0].0 != name);
            assert forall|k: int| 0 <= k < i - 1 implies (#[trigger] rest[k]).0 != name by {
                assert(rest[k] == fields[k + 1]);
            }
        }
        if forall|k: int| 0 <= k < fields.len() ==> (#[trigger] fields[k]).0 != name {
            assert(fields[0].0 != name);
            assert forall|k: int| 0 <= k < rest.len() implies (#[trigger] rest[k]).0 != name by {
                assert(rest[k] == fields[k + 1]);
            }
        }
    }
}

/// A reference is read through `.Value` and `.prev`, and stays itself through
/// `.VarRef`.
pub proof fn references_are_read(s: State, obj: Expr, inner: TypeView, range: RangeView)
    requires
        var_named(s, obj) is None,
    ensures
        ({
            let ot = TypeView::Ref(Box::new(inner));
            &&& field_rule(s, obj, ot, "Value"@, range) == (s, inner)
            &&& field_rule(s, obj, ot, "prev"@, range) == (s, inner)
            &&& field_rule(s, obj, ot, "VarRef"@, range) == (s, ot)
        }),
{
    reveal_strlit("Value");
    reveal_strlit("prev");
    reveal_strlit("VarRef");
    assert("Value"@.len() == 5 && "prev"@.len() == 4 && "VarRef"@.len() == 6);
}

// ---------- elements ----------

/// An element of an array has the type of the array's elements; outside exec
/// context reading one is reported.
pub proof fn elements_are_read(s: State, obj: Expr, inner: TypeView, range: RangeView)
    ensures
        ({
            let (t, ty) = index_rule(s, obj, TypeView::Array(Box::new(inner)), range);
            &&& ty == inner
            &&& s.is_exec() ==> t == s
            &&& !s.is_exec() ==> one_error(
                s,
                t,
                "WS007"@,
                "array index read '"@ + shown_target(obj) + "[...]' outside an exec context"@,
                range,
            )
        }),
{
}

/// An indexed expression is read through a reference to its array.
pub proof fn indexed_arrays_may_be_references(s: State, c: Catalog, e: Expr, inner: TypeView)
    requires
        e is IndexAccess,
        s.scopes.len() >= 1,
        ({
            let ot = inferred(s, c, *e->IndexAccess_obj).1;
            ot == TypeView::Array(Box::new(inner)) || ot == TypeView::Ref(
                Box::new(TypeView::Array(Box::new(inner))),
            )
        }),
    ensures
        inferred(s, c, e).1 == inner,
{
    if let Expr::IndexAccess { obj, index, range } = e {
        let (s1, ot) = inferred(s, c, *obj);
        let s2 = inferred(s1, c, *index).0;
        assert(inferred_inner(s, c, e) == index_rule(s2, *obj, unref(ot), range@));
    }
}

/// The parts of a tuple are picked by their place, and so are the fields of a
/// record; a place that a tuple does not have is reported.
pub proof fn parts_are_picked(
    s: State,
    tys: Seq<TypeView>,
    fields: Fields,
    index: nat,
    range: RangeView,
)
    ensures
        index < tys.len() ==> pick_rule(s, TypeView::Tuple(tys), index, range) == (
            s,
            tys[index as int],
        ),
        index >= tys.len() ==> ({
            let (t, ty) = pick_rule(s, TypeView::Tuple(tys), index, range);
            ty == TypeView::Any && one_error(
                s,
                t,
                "WS010"@,
                "tuple index ."@ + decimal(index) + " out of range"@,
                range,
            )
        }),
        index < fields.len() ==> pick_rule(s, TypeView::Record(fields), index, range) == (
            s,
            fields[index as int].1,
        ),
{
}

// ---------- operators ----------

/// Whether an operator works on bits.
pub open spec fn bit_operator(op: Seq<char>) -> bool {
    op == "&"@ || op == "|"@ || op == "^"@ || op == "<<"@ || op == ">>"@
}

/// A binary operator goes by the rule for the types of its operands, seen
/// through references: the result is the rule's, the rule is kept under the
/// place, and nothing is reported. Without a rule it is reported.
pub proof fn binary_operators_go_by_their_rule(s: State, c: Catalog, e: Expr)
    requires
        e is BinOp,
    ensures
        ({
            let (s1, lt) = inferred(s, c, *e->left);
            let (s2, rt) = inferred(s1, c, *e->right);
            let (t, ty) = inferred(s, c, e);
            let r = e->BinOp_range@;
            match rule_for(c.operators@, e->BinOp_op@, seq![unref(lt), unref(rt)]) {
                Some(rule) => ty == rule.result@ && t.diags == s2.diags && t.ops.contains_key(
                    span_key(r),
                ) && t.ops[span_key(r)] == rule@,
                None => ty == TypeView::Any && one_error(
                    s2,
                    t,
                    if bit_operator(e->BinOp_op@) {
                        "WS011"@
                    } else {
                        "WS004"@
                    },
                    "no overload for '"@ + e->BinOp_op@ + "' on "@ + debug_text(lt) + ", "@
                        + debug_text(rt),
                    r,
                ),
            }
        }),
{
    reveal_with_fuel(inferred, 2);
}

/// A unary operator goes by the rule for its operand; a minus sign before one
/// operand is looked up as `-u`.
pub proof fn unary_operators_go_by_their_rule(s: State, c: Catalog, e: Expr)
    requires
        e is UnOp,
    ensures
        ({
            let (s1, ot) = inferred(s, c, *e->UnOp_operand);
            let (t, ty) = inferred(s, c, e);
            let r = e->UnOp_range@;
            let op = e->UnOp_op@;
            let key = if op == "-"@ {
                "-u"@
            } else {
                op
            };
            match rule_for(c.operators@, key, seq![unref(ot)]) {
                Some(rule) => ty == rule.result@ && t.diags == s1.diags && t.ops.contains_key(
                    span_key(r),
                ) && t.ops[span_key(r)] == rule@,
                None => ty == TypeView::Any && one_error(
                    s1,
                    t,
                    if bit_operator(op) || op == "~"@ {
                        "WS011"@
                    } else {
                        "WS004"@
                    },
                    "no overload for '"@ + op + "' on "@ + debug_text(ot),
                    r,
                ),
            }
        }),
{
    reveal_with_fuel(inferred, 2);
}

/// Taking a reference makes one, and never a reference to a reference.
pub proof fn references_are_taken_once(s: State, c: Catalog, e: Expr)
    requires
        e is RefOf,
    ensures
        ({
            let (s1, ot) = inferred(s, c, *e->RefOf_operand);
            let (t, ty) = inferred(s, c, e);
            &&& ty is Ref
            &&& unref(ty) == unref(ot)
            &&& t.diags == s1.diags
        }),
{
    reveal_with_fuel(inferred, 2);
}

// ---------- larger expressions ----------

/// A choice has the type of its else branch; branches that do not fit are
/// reported. It is noted as a pure choice.
pub proof fn choices_follow_their_else(s: State, c: Catalog, e: Expr)
    requires
        e is IfExpr,
    ensures
        ({
            let r = e->IfExpr_range@;
            let (s1, _) = inferred(s.note_if(r, false), c, *e->IfExpr_cond);
            let (s2, tt) = inferred(s1, c, *e->then_branch);
            let (s3, et) = inferred(s2, c, *e->else_branch);
            let (t, ty) = inferred(s, c, e);
            &&& ty == et
            &&& c.fits(tt, et) ==> t.diags == s3.diags
            &&& !c.fits(tt, et) ==> one_error(
                s3,
                t,
                "WS003"@,
                "if-then-else branch type mismatch: then is "@ + type_text(tt) + ", else is "@
                    + type_text(et) + " (Select output follows else type)"@,
                r,
            )
        }),
{
    reveal_with_fuel(inferred, 2);
}

/// An array literal is an array of the type of its first element, seen through
/// a reference; a spread gives the elements of the array it spreads. An empty
/// one is an array of `any`.
pub proof fn array_literals_take_their_first_element(s: State, c: Catalog, e: Expr)
    requires
        e is Array,
    ensures
        ({
            let ty = inferred(s, c, e).1;
            let elements = e->elements@;
            &&& elements.len() == 0 ==> ty == TypeView::Array(Box::new(TypeView::Any))
            &&& elements.len() > 0 ==> match elements[0] {
                ArrayElem::Item(first) => ty == TypeView::Array(
                    Box::new(unref(inferred(s, c, first).1)),
                ),
                ArrayElem::Spread(first) => match unref(inferred(s, c, first).1) {
                    TypeView::Array(inner) => ty == TypeView::Array(inner),
                    other => ty == TypeView::Array(Box::new(other)),
                },
            }
        }),
{
    let elements = e->elements@;
    if elements.len() > 0 {
        lemma_first_element(s, c, elements, elements.len());
    }
    assert(inferred_inner(s, c, e).1 == TypeView::Array(
        Box::new(array_elems(s, c, elements, elements.len()).1),
    ));
}

proof fn lemma_first_element(s: State, c: Catalog, elements: Seq<ArrayElem>, n: nat)
    requires
        0 < n <= elements.len(),
    ensures
        match elements[0] {
            ArrayElem::Item(first) => array_elems(s, c, elements, n).1 == unref(
                inferred(s, c, first).1,
            ),
            ArrayElem::Spread(first) => array_elems(s, c, elements, n).1 == match unref(
                inferred(s, c, first).1,
            ) {
                TypeView::Array(inner) => *inner,
                other => other,
            },
        },
    decreases n,
{
    if n > 1 {
        lemma_first_element(s, c, elements, (n - 1) as nat);
    } else {
        assert(array_elems(s, c, elements, 0) == (s, TypeView::Any));
    }
}

/// A block has the type of its value, found inside a scope of its own.
pub proof fn blocks_have_the_type_of_their_value(s: State, c: Catalog, e: Expr)
    requires
        e is BlockExpr,
        e->BlockExpr_stmts@.len() == 0,
    ensures
        inferred(s, c, e).1 == inferred(s.push_scope(), c, *e->BlockExpr_value).1,
{
    reveal_with_fuel(inferred, 2);
    assert(crate::typecheck::judge::checked_stmts(s.push_scope(), c, e->BlockExpr_stmts@, 0)
        == s.push_scope());
}

/// A match has the type that its arms share, or else the union of their types.
pub proof fn matches_join_their_arms(tys: Seq<TypeView>, t: TypeView)
    ensures
        tys.len() == 0 ==> match_type(tys) == TypeView::Any,
        tys.len() > 0 && (forall|i: int| 0 <= i < tys.len() ==> #[trigger] tys[i] == t) ==> match_type(
            tys,
        ) == t,
        (exists|i: int|
            0 <= i < tys.len() && ((tys[0] is Int) != ((#[trigger] tys[i]) is Int) || (tys[0] is Float)
                != (tys[i] is Float) || (tys[0] is Bool) != (tys[i] is Bool) || (tys[0] is String)
                != (tys[i] is String) || (tys[0] is Vector) != (tys[i] is Vector) || (tys[0] is Record)
                != (tys[i] is Record))) ==> match_type(tys) == TypeView::Union(tys),
{
}

/// A field that is set has its new type, and every other field keeps its own.
pub proof fn set_fields_are_found(
    fields: Fields,
    name: Seq<char>,
    ty: TypeView,
    other: Seq<char>,
)
    ensures
        field_type(put_field(fields, name, ty), name) == Some(ty),
        other != name ==> field_type(put_field(fields, name, ty), other) == field_type(
            fields,
            other,
        ),
    decreases fields.len(),
{
    let after = put_field(fields, name, ty);
    if fields.len() == 0 {
        assert(after.drop_first() =~= Seq::empty());
        assert(field_type(Seq::empty(), other) is None);
    } else {
        set_fields_are_found(fields.drop_first(), name, ty, other);
        if fields[0].0 == name {
            assert(after.drop_first() =~= fields.drop_first());
        } else {
            assert(after.drop_first() =~= put_field(fields.drop_first(), name, ty));
        }
    }
}

/// A record literal has a field for each part: a named value has the type of
/// the value, a bare name that of the symbol. The last part of a name counts.
pub proof fn record_literals_have_their_fields(
    s: State,
    c: Catalog,
    fields: Seq<RecordLitField>,
    n: nat,
)
    requires
        0 < n <= fields.len(),
    ensures
        ({
            let (s1, before) = record_fields(s, c, fields, (n - 1) as nat);
            let (t, after) = record_fields(s, c, fields, n);
            match fields[n - 1] {
                RecordLitField::Named { name, value, .. } => {
                    &&& field_type(after, name@) == Some(inferred(s1, c, value).1)
                    &&& forall|other: Seq<char>|
                        other != name@ ==> #[trigger] field_type(after, other) == field_type(
                            before,
                            other,
                        )
                },
                RecordLitField::Shorthand { name, .. } => {
                    &&& s1.lookup(name@) matches Some(sym) ==> field_type(after, name@) == Some(
                        sym.ty,
                    )
                    &&& t == s1
                },
                RecordLitField::Spread { value, .. } => t == inferred(s1, c, value).0,
            }
        }),
{
    let (s1, before) = record_fields(s, c, fields, (n - 1) as nat);
    let after = record_fields(s, c, fields, n).1;
    match fields[n - 1] {
        RecordLitField::Named { name, value, .. } => {
            let ty = inferred(s1, c, value).1;
            set_fields_are_found(before, name@, ty, name@);
            assert forall|other: Seq<char>| other != name@ implies #[trigger] field_type(after, other)
                == field_type(before, other) by {
                set_fields_are_found(before, name@, ty, other);
            }
        },
        RecordLitField::Shorthand { name, .. } => {
            set_fields_are_found(before, name@, shorthand_type(s1, name@), name@);
        },
        _ => {},
    }
}

} // verus!
