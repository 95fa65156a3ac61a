//! What starts a handler, what gives an output its value, and what is reported
//! of records and of a whole script.

use crate::ast::{
    ArrayElem, AwaitStmt, CallArg, ChipDecl, Emit, Expr, InterpPart, LetDecl, MatchArm, MatchBody,
    NamespaceDecl, Param, RecordLitField, Script, Stmt, TopDecl,
};
use crate::catalog::{CallSpec, Catalog, EventSpec};
use crate::diagnostic::{DiagnosticView, RangeView, Severity};
use crate::type_expr::type_expr_text;
use crate::typecheck::checking::known_as;
use crate::typecheck::ctx::{ExecMode, State};
use crate::typecheck::judge::{
    annotated, array_elems, bound_awaited, call_args, checked_anon, checked_array, checked_await,
    checked_block, checked_buffer, checked_chip, checked_emit, checked_script, checked_stmt,
    checked_var, chip_pass, extra_names, extra_reports, inferred, inferred_inner, interp_parts,
    main_pass, match_arms, missing_reports, payload_of, positional_args, random_bound, target_type,
    wrapped_decl,
};
use crate::typecheck::register::{
    builtin_events, event_symbol, first_literal_type, literal_type, namespace_members, registered,
    registered_array, registered_buffer, registered_in, registered_stmts, registered_var, resolved,
};
use crate::typecheck::rules::{
    argument, array_behind, assigned, bound_param, bound_params, counted, known_trigger,
    names_namespace, outputs_checked, positional_count, returns_value, unassigned_reports,
};
use crate::typecheck::scope::{declared_is_visible, SymView, SymbolKind};
use crate::typecheck::typing::one_error;
use crate::types::{debug_text, field_type, unref, Fields, TypeView};
use vstd::prelude::*;

verus! {

// ---------- triggers ----------

/// What can start a handler: built-in events, declared events and lets, and
/// inputs, buffers and parameters of the types that change on the wire.
pub proof fn these_start_handlers(s: State, c: Catalog, name: Seq<char>, sym: SymView)
    requires
        c.event(name) is None,
        s.lookup(name) == Some(sym),
    ensures
        ({
            let t = sym.ty;
            let plain = t is Exec || t is Bool || t is Int || t is Float;
            let held = t is Character || t is Controller || t is Entity;
            known_trigger(s, c, name) <==> {
                ||| sym.kind == SymbolKind::Event
                ||| sym.kind == SymbolKind::LetBinding
                ||| sym.kind == SymbolKind::In && (plain || held || t is Vector)
                ||| sym.kind == SymbolKind::Buffer && (plain || t is Any)
                ||| sym.kind == SymbolKind::Param && (plain || held)
            }
        }),
{
}

/// A built-in event always starts handlers, and a name that is not known never
/// does.
pub proof fn built_in_events_start_handlers(s: State, c: Catalog, name: Seq<char>)
    ensures
        c.event(name) is Some ==> known_trigger(s, c, name),
        c.event(name) is None && s.lookup(name) is None ==> !known_trigger(s, c, name),
{
}

/// A parameter is known by its type: references and arrays as variables, and
/// everything else as a parameter.
pub proof fn parameters_are_known(s: State, p: Param)
    requires
        p.pattern is None,
    ensures
        p.typ is Ref || p.typ is Array ==> known_as(
            bound_param(s, p),
            p.name@,
            SymbolKind::Var,
            resolved(s, p.typ@).1,
        ),
        !(p.typ is Ref) && !(p.typ is Array) ==> known_as(
            bound_param(s, p),
            p.name@,
            SymbolKind::Param,
            resolved(s, p.typ@).1,
        ),
{
    let (s1, ty) = resolved(s, p.typ@);
    declared_is_visible(
        s1.scopes,
        p.name@,
        crate::typecheck::scope::plain_symbol(
            crate::typecheck::rules::param_kind(p.typ),
            p.name@,
            ty,
            p.range@,
        ),
    );
}

// ---------- outputs ----------

/// Just these statements give an output its value: outs, emits and assignments
/// under its name, in branches, handlers and chips too.
pub proof fn these_give_values(stmts: Seq<Stmt>, n: nat, x: Seq<char>)
    requires
        0 < n <= stmts.len(),
    ensures
        assigned(stmts, 0) == Set::<Seq<char>>::empty(),
        assigned(stmts, n).contains(x) <==> assigned(stmts, (n - 1) as nat).contains(x)
            || match stmts[n - 1] {
            Stmt::OutBinding(o) => o.name@ == x,
            Stmt::Emit(e) => e.name@ == x,
            Stmt::Assign(a) => a.target is Ident && a.target->Ident_name@ == x,
            Stmt::If(i) => assigned(i.then_block.stmts@, i.then_block.stmts@.len()).contains(x)
                || match i.else_block {
                Some(b) => assigned(b.stmts@, b.stmts@.len()).contains(x),
                None => false,
            },
            Stmt::Handler(h) => assigned(h.body.stmts@, h.body.stmts@.len()).contains(x),
            Stmt::AnonChip(ac) => assigned(ac.body.stmts@, ac.body.stmts@.len()).contains(x),
            _ => false,
        },
{
}

/// Just these statements return a value.
pub proof fn these_return_values(stmts: Seq<Stmt>, n: nat)
    requires
        0 < n <= stmts.len(),
    ensures
        !returns_value(stmts, 0),
        returns_value(stmts, n) <==> returns_value(stmts, (n - 1) as nat) || match stmts[n - 1] {
            Stmt::Return { value, .. } => value is Some,
            Stmt::If(i) => returns_value(i.then_block.stmts@, i.then_block.stmts@.len())
                || match i.else_block {
                Some(b) => returns_value(b.stmts@, b.stmts@.len()),
                None => false,
            },
            _ => false,
        },
{
}

/// A chip that returns a value, and one without outputs, owes nothing; any other
/// owes a value to each of its outputs.
pub proof fn chips_owe_their_outputs(s: State, ch: ChipDecl)
    ensures
        returns_value(ch.body.stmts@, ch.body.stmts@.len()) ==> outputs_checked(s, ch) == s,
        ch.outputs@.len() == 0 ==> outputs_checked(s, ch) == s,
        ch.outputs@.len() > 0 && !returns_value(ch.body.stmts@, ch.body.stmts@.len())
            ==> outputs_checked(s, ch) == unassigned_reports(
            s,
            ch.outputs@,
            assigned(ch.body.stmts@, ch.body.stmts@.len()),
            ch.outputs@.len(),
        ),
{
}

/// The body of a chip runs on a pulse, with the inputs of the chip in scope.
pub proof fn chips_run_on_a_pulse(s: State, c: Catalog, ch: ChipDecl)
    ensures
        ({
            let inside = bound_params(s.push_scope(), ch.inputs@, ch.inputs@.len());
            checked_chip(s, c, ch) == outputs_checked(
                checked_block(inside.push_mode(ExecMode::Exec), c, ch.body).pop_mode(),
                ch,
            ).pop_scope()
        }),
        s.push_mode(ExecMode::Exec).is_exec(),
        !s.push_mode(ExecMode::Pure).is_exec(),
{
}

// ---------- records ----------

/// A field that the annotated type has not is reported; one that it has is not.
pub proof fn extra_fields_are_reported(
    s: State,
    c: Catalog,
    fields: Seq<RecordLitField>,
    expected: Fields,
    want: Seq<char>,
    n: nat,
)
    requires
        0 < n <= fields.len(),
    ensures
        ({
            let before = extra_reports(s, c, fields, expected, want, (n - 1) as nat);
            let after = extra_reports(s, c, fields, expected, want, n);
            match fields[n - 1] {
                RecordLitField::Named { name, range, .. } => {
                    &&& field_type(expected, name@) is Some ==> after == before
                    &&& field_type(expected, name@) is None ==> one_error(
                        before,
                        after,
                        "WS003"@,
                        "field '"@ + name@ + "' not in type "@ + want,
                        range@,
                    )
                },
                RecordLitField::Shorthand { name, range } => {
                    &&& field_type(expected, name@) is Some ==> after == before
                    &&& field_type(expected, name@) is None ==> one_error(
                        before,
                        after,
                        "WS003"@,
                        "field '"@ + name@ + "' not in type "@ + want,
                        range@,
                    )
                },
                RecordLitField::Spread { value, range } => {
                    let (s2, t) = inferred(before, c, value);
                    &&& !(t is Record) ==> after == s2
                    &&& t matches TypeView::Record(more) ==> (extra_names(
                        more,
                        expected,
                        more.len(),
                    ).len() == 0 ==> after == s2)
                    &&& t matches TypeView::Record(more) ==> (extra_names(
                        more,
                        expected,
                        more.len(),
                    ).len() > 0 ==> one_error(
                        s2,
                        after,
                        "WS003"@,
                        "spread introduces fields not in "@ + want + ": "@ + crate::text::joined(
                            extra_names(more, expected, more.len()),
                            ", "@,
                        ),
                        range@,
                    ))
                },
            }
        }),
        extra_reports(s, c, fields, expected, want, 0) == s,
{
}

/// The fields that a spread should not bring are those that the type has not, in
/// their order.
pub proof fn extra_names_are_listed(fields: Fields, expected: Fields, n: nat)
    requires
        0 < n <= fields.len(),
    ensures
        field_type(expected, fields[n - 1].0) is None ==> extra_names(fields, expected, n)
            == extra_names(fields, expected, (n - 1) as nat).push(fields[n - 1].0),
        field_type(expected, fields[n - 1].0) is Some ==> extra_names(fields, expected, n)
            == extra_names(fields, expected, (n - 1) as nat),
        extra_names(fields, expected, 0) == Seq::<Seq<char>>::empty(),
{
}

/// A field that the record lacks is reported; one that it has is not.
pub proof fn missing_fields_are_reported(
    s: State,
    expected: Fields,
    present: Fields,
    want: Seq<char>,
    range: RangeView,
    n: nat,
)
    requires
        0 < n <= expected.len(),
    ensures
        ({
            let before = missing_reports(s, expected, present, want, range, (n - 1) as nat);
            let after = missing_reports(s, expected, present, want, range, n);
            &&& field_type(present, expected[n - 1].0) is Some ==> after == before
            &&& field_type(present, expected[n - 1].0) is None ==> one_error(
                before,
                after,
                "WS003"@,
                "missing field '"@ + expected[n - 1].0 + "' for type "@ + want,
                range,
            )
        }),
        missing_reports(s, expected, present, want, range, 0) == s,
{
}

/// A record literal is held to the fields of its annotated type, both ways.
pub proof fn record_annotations_are_held(s: State, c: Catalog, l: LetDecl, have: Fields)
    requires
        l.typ is Some,
        l.value is RecordLit,
    ensures
        ({
            let te = (l.typ->0)@;
            let (s1, want) = resolved(s, te);
            let fields = l.value->RecordLit_fields@;
            let after = annotated(s, c, l, TypeView::Record(have));
            &&& !(want is Record) ==> after == s1
            &&& want matches TypeView::Record(w) ==> after == missing_reports(
                extra_reports(s1, c, fields, w, type_expr_text(te), fields.len()),
                w,
                have,
                type_expr_text(te),
                l.value.rng()@,
                w.len(),
            )
        }),
{
}

// ---------- signals ----------

/// What is emitted on a signal is the payload of those who wait for it.
pub proof fn payloads_are_carried(s: State, c: Catalog, e: Emit, x: Expr)
    requires
        e.value is Some,
        x matches Expr::Ident { name, .. } && name@ == e.name@,
    ensures
        payload_of(checked_emit(s, c, e), x) == inferred(s, c, e.value->0).1,
{
}

/// A signal that carries nothing gives anything.
pub proof fn unknown_payloads(s: State, x: Expr)
    ensures
        !(x is Ident) ==> payload_of(s, x) is Any,
        x matches Expr::Ident { name, .. } ==> !s.payloads.contains_key(name@) ==> payload_of(s, x)
            is Any,
{
}

/// Each name that is taken out of a payload has the type of its field.
pub proof fn awaited_fields_are_typed(
    s: State,
    fields: Seq<(String, String)>,
    payload: Fields,
    range: RangeView,
    n: nat,
)
    requires
        0 < n <= fields.len(),
    ensures
        field_type(payload, fields[n - 1].0@) matches Some(t) ==> known_as(
            bound_awaited(s, fields, TypeView::Record(payload), range, n),
            fields[n - 1].1@,
            SymbolKind::LetBinding,
            t,
        ),
        field_type(payload, fields[n - 1].0@) is None ==> known_as(
            bound_awaited(s, fields, TypeView::Record(payload), range, n),
            fields[n - 1].1@,
            SymbolKind::LetBinding,
            TypeView::Any,
        ),
{
    let before = bound_awaited(s, fields, TypeView::Record(payload), range, (n - 1) as nat);
    let ty = crate::types::field_or_any(TypeView::Record(payload), fields[n - 1].0@);
    declared_is_visible(
        before.scopes,
        fields[n - 1].1@,
        crate::typecheck::rules::let_symbol(fields[n - 1].1@, ty, range),
    );
}

/// A wait outside an exec context is reported before anything else of it.
pub proof fn waits_need_exec(s: State, c: Catalog, a: AwaitStmt)
    requires
        !s.is_exec(),
    ensures
        checked_await(s, c, a) == checked_await_in(
            State {
                diags: s.diags.push(
                    DiagnosticView {
                        severity: Severity::Error,
                        code: "WS007"@,
                        message: "await outside an exec context"@,
                        range: a.range@,
                    },
                ),
                ..s
            },
            c,
            a,
        ),
{
}

/// What a wait adds to a state from which it may wait.
pub open spec fn checked_await_in(s: State, c: Catalog, a: AwaitStmt) -> State {
    let armed = s.push_scope().declare(
        "_"@,
        crate::typecheck::rules::let_symbol("_"@, TypeView::Bool, a.range@),
    );
    let (s2, pulse) = inferred(armed, c, a.exec_expr);
    let (s4, ty) = match a.value_expr {
        Some(e) => inferred(s2.pop_scope(), c, e),
        None => (s2.pop_scope(), pulse),
    };
    let s5 = match a.binding {
        Some(name) => s4.declare(
            name@,
            crate::typecheck::rules::let_symbol(name@, ty, a.range@),
        ),
        None => s4,
    };
    match a.destructure {
        Some(fields) => bound_awaited(
            s5,
            fields@,
            payload_of(s5, a.exec_expr),
            a.range@,
            fields@.len(),
        ),
        None => s5,
    }
}

/// In an exec context a wait adds no report of its own.
pub proof fn waits_in_exec(s: State, c: Catalog, a: AwaitStmt)
    requires
        s.is_exec(),
    ensures
        checked_await(s, c, a) == checked_await_in(s, c, a),
{
}

// ---------- declarations ----------

/// A built-in event is known under its name, as a pulse, with its data.
pub proof fn built_in_events_are_known(s: State, events: Seq<EventSpec>, n: nat, i: int)
    requires
        0 < n <= events.len(),
    ensures
        ({
            let e = events[n - 1];
            let t = builtin_events(s, events, n);
            &&& known_as(t, e.surface_name@, SymbolKind::Event, TypeView::Exec)
            &&& t.lookup(e.surface_name@) matches Some(sym) && (sym.event_data matches Some(d)
                && d.len() == e.data@.len() && (0 <= i < d.len() ==> d[i].name == e.data@[i].name@
                && d[i].ty == e.data@[i].ty@))
        }),
        builtin_events(s, events, 0) == s,
{
    let before = builtin_events(s, events, (n - 1) as nat);
    declared_is_visible(before.scopes, events[n - 1].surface_name@, event_symbol(events[n - 1]));
}

/// The first element whose type shows gives an array its type.
pub proof fn first_typed_element_counts(elements: Seq<ArrayElem>, i: int)
    requires
        0 <= i < elements.len(),
        literal_type((elements[i]).inner()) is Some,
        forall|k: int| 0 <= k < i ==> literal_type((#[trigger] elements[k]).inner()) is None,
    ensures
        first_literal_type(elements) == literal_type((elements[i]).inner()),
    decreases elements.len(),
{
    if i > 0 {
        assert(literal_type(elements[0].inner()) is None);
        let rest = elements.drop_first();
        assert(rest[i - 1] == elements[i]);
        assert forall|k: int| 0 <= k < i - 1 implies literal_type((#[trigger] rest[k]).inner())
            is None by {
            assert(rest[k] == elements[k + 1]);
        }
        first_typed_element_counts(rest, i - 1);
    }
}

/// What a namespace makes known: its chips, and its functions with their return
/// types.
pub proof fn namespaces_make_known(decls: Seq<TopDecl>, n: nat, other: Seq<char>)
    requires
        0 < n <= decls.len(),
    ensures
        ({
            let before = namespace_members(decls, (n - 1) as nat);
            let all = namespace_members(decls, n);
            match decls[n - 1] {
                TopDecl::Chip(c) => {
                    &&& all.contains_key(c.name@) && all[c.name@].kind == SymbolKind::Chip
                    &&& all[c.name@].return_type is None
                    &&& other != c.name@ ==> (all.contains_key(other) <==> before.contains_key(other))
                },
                TopDecl::Fn(f) => {
                    &&& all.contains_key(f.name@) && all[f.name@].kind == SymbolKind::Fn
                    &&& f.return_type matches Some(t) ==> all[f.name@].return_type == Some(t@)
                    &&& f.return_type is None ==> all[f.name@].return_type is None
                    &&& other != f.name@ ==> (all.contains_key(other) <==> before.contains_key(other))
                },
                _ => all == before,
            }
        }),
        namespace_members(decls, 0) == Map::<Seq<char>, crate::typecheck::ctx::NsView>::empty(),
{
}

/// A namespace is known by its name, with its members.
pub proof fn namespaces_are_known(s: State, ns: NamespaceDecl)
    ensures
        ({
            let t = registered(s, TopDecl::Namespace(ns));
            &&& known_as(t, ns.name@, SymbolKind::Namespace, TypeView::Any)
            &&& t.namespaces.contains_key(ns.name@)
            &&& t.namespaces[ns.name@] == namespace_members(ns.decls@, ns.decls@.len())
        }),
{
    declared_is_visible(
        s.scopes,
        ns.name@,
        crate::typecheck::scope::plain_symbol(
            SymbolKind::Namespace,
            ns.name@,
            TypeView::Any,
            ns.range@,
        ),
    );
}

/// What an anonymous chip declares is known outside it: its variables, buffers,
/// arrays and inputs, in order.
pub proof fn anonymous_chips_declare(s: State, stmts: Seq<Stmt>, n: nat)
    requires
        0 < n <= stmts.len(),
    ensures
        ({
            let before = registered_stmts(s, stmts, (n - 1) as nat);
            let t = registered_stmts(s, stmts, n);
            match stmts[n - 1] {
                Stmt::Var(v) => t == registered_var(before, v),
                Stmt::Buffer(b) => t == registered_buffer(before, b),
                Stmt::Array(a) => t == registered_array(before, a),
                Stmt::In(d) => t == registered_in(before, d),
                _ => t == before,
            }
        }),
        registered_stmts(s, stmts, 0) == s,
{
}

/// Inside an anonymous chip declarations are checked without being declared
/// again, and inputs have nothing to check.
pub proof fn anonymous_chips_are_checked(s: State, c: Catalog, stmts: Seq<Stmt>, n: nat)
    requires
        0 < n <= stmts.len(),
    ensures
        ({
            let before = checked_anon(s, c, stmts, (n - 1) as nat);
            let t = checked_anon(s, c, stmts, n);
            match stmts[n - 1] {
                Stmt::Var(v) => t == checked_var(before, c, v),
                Stmt::Buffer(b) => t == checked_buffer(before, c, b),
                Stmt::Array(a) => t == checked_array(before, c, a),
                Stmt::In(_) => t == before,
                other => t == checked_stmt(before, c, other),
            }
        }),
{
    reveal_with_fuel(checked_anon, 2);
}

/// A script is checked in this order: everything is declared first, then all
/// but the chips is checked, then the chips.
pub proof fn chips_are_checked_last(s: State, c: Catalog, decls: Seq<TopDecl>, n: nat)
    requires
        0 < n <= decls.len(),
    ensures
        decls[n - 1] is Chip ==> main_pass(s, c, decls, n) == main_pass(s, c, decls, (n - 1) as nat),
        decls[n - 1] is Chip ==> chip_pass(s, c, decls, n) == wrapped_decl(
            chip_pass(s, c, decls, (n - 1) as nat),
            c,
            decls,
            n - 1,
        ),
        !(decls[n - 1] is Chip) ==> chip_pass(s, c, decls, n) == chip_pass(
            s,
            c,
            decls,
            (n - 1) as nat,
        ),
        !(decls[n - 1] is Chip) ==> main_pass(s, c, decls, n) == wrapped_decl(
            main_pass(s, c, decls, (n - 1) as nat),
            c,
            decls,
            n - 1,
        ),
{
}

/// A script is checked from nothing but the built-in events.
pub proof fn scripts_start_with_the_events(c: Catalog, script: Script, file: Seq<char>)
    requires
        script.decls@.len() == 0,
    ensures
        checked_script(c, script, file) == builtin_events(
            State::initial(file),
            c.events@,
            c.events@.len(),
        ),
        State::initial(file).diags == Seq::<DiagnosticView>::empty(),
        !State::initial(file).is_exec(),
{
}

// ---------- expressions in order ----------

/// Each part of an interpolated string must turn into text, and is reported
/// where it does not.
pub proof fn interpolated_parts_must_be_text(s: State, c: Catalog, parts: Seq<InterpPart>, n: nat)
    requires
        0 < n <= parts.len(),
    ensures
        ({
            let before = interp_parts(s, c, parts, (n - 1) as nat);
            let after = interp_parts(s, c, parts, n);
            match parts[n - 1] {
                InterpPart::Lit(_) => after == before,
                InterpPart::Expr(e) => {
                    let (s1, t) = inferred(before, c, *e);
                    &&& c.fits(unref(t), TypeView::String) ==> after == s1
                    &&& !c.fits(unref(t), TypeView::String) ==> one_error(
                        s1,
                        after,
                        "WS003"@,
                        "expected string, got "@ + debug_text(unref(t)),
                        e.rng()@,
                    )
                },
            }
        }),
        interp_parts(s, c, parts, 0) == s,
{
    reveal_with_fuel(interp_parts, 2);
}

/// Every argument of a call is checked, in order, whatever its kind.
pub proof fn all_arguments_are_checked(s: State, c: Catalog, args: Seq<CallArg>, n: nat)
    requires
        0 < n <= args.len(),
    ensures
        ({
            let before = call_args(s, c, args, (n - 1) as nat);
            let after = call_args(s, c, args, n);
            match args[n - 1] {
                CallArg::Positional(e) => after == inferred(before, c, e).0,
                CallArg::Named { value, .. } => after == inferred(before, c, value).0,
                CallArg::Spread(e) => after == inferred(before, c, e).0,
            }
        }),
        call_args(s, c, args, 0) == s,
{
    reveal_with_fuel(call_args, 2);
}

/// A positional argument is held to the parameter at its place, counted behind
/// the receiver of a method; arguments of other kinds are held to none.
pub proof fn positional_arguments_meet_their_parameters(
    s: State,
    c: Catalog,
    f: CallSpec,
    args: Seq<CallArg>,
    offset: nat,
    n: nat,
)
    requires
        0 < n <= args.len(),
        forall|k: int| 0 <= k < n - 1 ==> (#[trigger] args[k]) is Positional,
    ensures
        ({
            let before = positional_args(s, c, f, args, offset, (n - 1) as nat);
            let after = positional_args(s, c, f, args, offset, n);
            match args[n - 1] {
                CallArg::Positional(e) => {
                    let (s1, t) = inferred(before, c, e);
                    &&& offset + n <= f.params@.len() ==> after == argument(
                        s1,
                        c,
                        f.params@[offset + n - 1],
                        t,
                        e.rng()@,
                    )
                    &&& offset + n > f.params@.len() ==> after == before
                },
                _ => after == before,
            }
        }),
        positional_args(s, c, f, args, offset, 0) == s,
{
    reveal_with_fuel(positional_args, 2);
    lemma_all_positional(args, (n - 1) as nat);
}

proof fn lemma_all_positional(args: Seq<CallArg>, n: nat)
    requires
        n <= args.len(),
        forall|k: int| 0 <= k < n ==> (#[trigger] args[k]) is Positional,
    ensures
        positional_count(args, n) == n,
    decreases n,
{
    if n > 0 {
        lemma_all_positional(args, (n - 1) as nat);
        assert(args[n - 1] is Positional);
    }
}

/// A method call counts its receiver as the first argument, holds it to the
/// first parameter, and has the type of what it puts out.
pub proof fn receivers_are_first_arguments(
    s: State,
    c: Catalog,
    e: Expr,
    obj: Expr,
    field: Seq<char>,
    args: Seq<CallArg>,
    f: CallSpec,
    range: RangeView,
)
    requires
        e matches Expr::Call { callee, args: a, .. } && a@ == args && (*callee matches Expr::FieldAccess {
            obj: o,
            field: g,
            range: r,
        } && *o == obj && g@ == field && r@ == range),
        ({
            let s1 = call_args(s, c, args, args.len());
            !names_namespace(s1, obj) && array_behind(s1, obj) is None
        }),
        c.call(field) == Some(f),
        f.receiver is Some,
        f.params@.len() > 0,
    ensures
        ({
            let s1 = call_args(s, c, args, args.len());
            let s2 = counted(s1, f, 1 + positional_count(args, args.len()), range);
            let (s3, t) = inferred(s2, c, obj);
            let s4 = argument(s3, c, f.params@[0], t, obj.rng()@);
            inferred_inner(s, c, e).0 == positional_args(s4, c, f, args, 1, args.len())
        }),
        f.outputs@.len() == 0 ==> inferred_inner(s, c, e).1 is Any,
        f.outputs@.len() == 1 ==> inferred_inner(s, c, e).1 == f.outputs@[0].ty@,
{
    reveal_with_fuel(inferred_inner, 2);
}

/// What can be written to: variables, arrays, lets, reference parameters and
/// array inputs; anything else is reported.
pub proof fn these_can_be_written(s: State, c: Catalog, e: Expr, sym: SymView)
    requires
        e is Ident,
        e->Ident_name@ != "_"@,
        s.lookup(e->Ident_name@) == Some(sym),
    ensures
        ({
            let (t, ty) = target_type(s, c, e);
            let can = sym.kind == SymbolKind::Var || sym.kind == SymbolKind::Array || sym.kind
                == SymbolKind::LetBinding || (sym.kind == SymbolKind::Param && sym.ty is Ref) || (
            sym.kind == SymbolKind::In && sym.ty is Array);
            &&& can ==> t == s && ty == unref(sym.ty)
            &&& !can ==> ty is Any && one_error(
                s,
                t,
                "WS007"@,
                "'"@ + e->Ident_name@ + "' isn't a writable target"@,
                e->Ident_range@,
            )
        }),
{
    reveal_with_fuel(target_type, 2);
}

/// A name that is not known cannot be written to; the name `_` takes anything.
pub proof fn unknown_targets(s: State, c: Catalog, e: Expr)
    requires
        e is Ident,
    ensures
        e->Ident_name@ == "_"@ ==> target_type(s, c, e) == (s, TypeView::Any),
        e->Ident_name@ != "_"@ && s.lookup(e->Ident_name@) is None ==> one_error(
            s,
            target_type(s, c, e).0,
            "WS002"@,
            "unknown identifier '"@ + e->Ident_name@ + "'"@,
            e->Ident_range@,
        ),
{
    reveal_with_fuel(target_type, 2);
}

/// An element that is written to has the element type of its array.
pub proof fn written_elements(s: State, c: Catalog, e: Expr, inner: TypeView)
    requires
        e is IndexAccess,
        target_type(s, c, *e->IndexAccess_obj).1 == TypeView::Array(Box::new(inner)),
    ensures
        target_type(s, c, e).1 == inner,
        target_type(s, c, e).0 == inferred(
            target_type(s, c, *e->IndexAccess_obj).0,
            c,
            *e->IndexAccess_index,
        ).0,
{
    reveal_with_fuel(target_type, 2);
}

/// The arms of a match that are expressions are typed in order; blocks have no
/// type.
pub proof fn arms_are_typed_in_order(s: State, c: Catalog, arms: Seq<MatchArm>, n: nat)
    requires
        0 < n <= arms.len(),
    ensures
        ({
            let (s1, before) = match_arms(s, c, arms, (n - 1) as nat);
            let (s2, after) = match_arms(s, c, arms, n);
            match arms[n - 1].body {
                MatchBody::Expr(e) => s2 == inferred(s1, c, e).0 && after == before.push(
                    inferred(s1, c, e).1,
                ),
                MatchBody::Block(_) => s2 == s1 && after == before,
            }
        }),
{
    reveal_with_fuel(match_arms, 2);
}

/// Elements of an array literal behind the first do not change its type.
pub proof fn later_elements_change_nothing(s: State, c: Catalog, elements: Seq<ArrayElem>, n: nat)
    requires
        1 < n <= elements.len(),
    ensures
        array_elems(s, c, elements, n).1 == array_elems(s, c, elements, (n - 1) as nat).1,
        array_elems(s, c, elements, n).0 == inferred(
            array_elems(s, c, elements, (n - 1) as nat).0,
            c,
            elements[n - 1].inner(),
        ).0,
{
    reveal_with_fuel(array_elems, 2);
}

/// The first component type among its bounds is the type of a random value.
pub proof fn first_bound_counts(s: State, c: Catalog, args: Seq<CallArg>, n: nat)
    requires
        0 < n <= args.len(),
    ensures
        ({
            let (s1, before) = random_bound(s, c, args, (n - 1) as nat);
            let after = random_bound(s, c, args, n).1;
            &&& before is Some ==> after == before
            &&& !(args[n - 1] is Positional) ==> after == before
            &&& before is None ==> (args[n - 1] matches CallArg::Positional(e) ==> ({
                let t = unref(inferred(s1, c, e).1);
                &&& t is Vector || t is Color || t is Rotator || t is Quat ==> after == Some(t)
                &&& t is Int || t is Float || t is Any ==> after is None
            }))
        }),
        random_bound(s, c, args, 0).1 is None,
{
    reveal_with_fuel(random_bound, 2);
}

} // verus!
