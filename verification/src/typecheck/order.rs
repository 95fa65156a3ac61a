//! In which order, and in which context, the parts of statements and
//! declarations are checked.

use crate::ast::{
    ArrayDecl, Callback, EventDecl, Expr, FnDecl, Handler, If, NamespaceDecl, OutBinding, Stmt,
    TopDecl, VarDecl,
};
use crate::catalog::{Catalog, EventSpec};
use crate::diagnostic::{DiagnosticView, RangeView, Severity};
use crate::text::decimal;
use crate::typecheck::ctx::{ExecMode, State};
use crate::typecheck::judge::{
    annotated, baked_element, baked_elements, checked_anon, checked_assign, checked_await,
    checked_block, checked_bodies, checked_buffer, checked_callback, checked_chip, checked_decl,
    checked_emit, checked_event, checked_fn, checked_handler, checked_if, checked_out, checked_stmt,
    checked_stmts, checked_values, checked_var, inferred, out_annotated,
};
use crate::typecheck::register::{
    registered, registered_all, registered_buffer, registered_callback, registered_chip,
    registered_in, registered_stmts, registered_var, resolved,
};
use crate::typecheck::rules::{
    bound_event_params, bound_fn_params, bound_let, bound_params, bound_trigger,
};
use crate::typecheck::scope::{SymView, SymbolKind};
use crate::types::{debug_text, TypeView};
use vstd::prelude::*;

verus! {

/// A state with one more error.
pub open spec fn with_report(s: State, message: Seq<char>, range: RangeView) -> State {
    State {
        diags: s.diags.push(
            DiagnosticView { severity: Severity::Error, code: "WS007"@, message, range },
        ),
        ..s
    }
}

/// A block is checked statement by statement, and takes its names along.
pub proof fn blocks_go_statement_by_statement(
    s: State,
    c: Catalog,
    b: crate::ast::Block,
    stmts: Seq<Stmt>,
    n: nat,
)
    requires
        0 < n <= stmts.len(),
    ensures
        checked_stmts(s, c, stmts, n) == checked_stmt(
            checked_stmts(s, c, stmts, (n - 1) as nat),
            c,
            stmts[n - 1],
        ),
        checked_stmts(s, c, stmts, 0) == s,
        b.stmts@.len() == 0 ==> checked_block(s, c, b).diags == s.diags,
        b.stmts@.len() == 1 ==> checked_block(s, c, b) == checked_stmt(
            s.push_scope(),
            c,
            b.stmts@[0],
        ).pop_scope(),
{
    reveal_with_fuel(checked_stmts, 3);
    reveal_with_fuel(checked_block, 3);
}

/// An `if` on the flow is checked condition first, then both branches; what an
/// `if` without an `else` leaves behind the `else` goes on from.
pub proof fn both_branches_are_checked(s: State, c: Catalog, i: If, j: If)
    requires
        s.is_exec(),
        i.else_block is Some,
        j.else_block is None,
        j.cond == i.cond,
        j.then_block == i.then_block,
        j.range == i.range,
    ensures
        checked_if(s, c, i) == checked_block(checked_if(s, c, j), c, i.else_block->0),
        checked_if(s, c, j) == checked_block(
            inferred(s.note_if(i.range@, true), c, i.cond).0,
            c,
            i.then_block,
        ),
{
    reveal_with_fuel(checked_if, 2);
}

/// Outside the flow an `if` is reported once, and then checked in the same way.
pub proof fn ifs_outside_the_flow(s: State, c: Catalog, i: If)
    requires
        !s.is_exec(),
        i.else_block is None,
    ensures
        checked_if(s, c, i) == checked_block(
            inferred(
                with_report(s, "'if' statement outside an exec context"@, i.range@).note_if(
                    i.range@,
                    false,
                ),
                c,
                i.cond,
            ).0,
            c,
            i.then_block,
        ),
        checked_decl(s, c, TopDecl::If(i)) == checked_if(
            with_report(s, "top-level 'if' outside an exec context"@, i.range@),
            c,
            i,
        ),
{
    reveal_with_fuel(checked_if, 2);
    reveal_with_fuel(checked_decl, 2);
    let t = with_report(s, "'if' statement outside an exec context"@, i.range@);
    assert(!t.is_exec());
}

/// A handler takes its names along, and its body runs on a pulse.
pub proof fn handlers_run_on_a_pulse(s: State, c: Catalog, h: Handler)
    ensures
        checked_handler(s, c, h) == checked_block(
            bound_trigger(s.push_scope(), c, h).push_mode(ExecMode::Exec),
            c,
            h.body,
        ).pop_mode().pop_scope(),
        checked_stmt(s, c, Stmt::Handler(h)) == checked_handler(s, c, h),
        checked_decl(s, c, TopDecl::Handler(h)) == checked_handler(s, c, h),
{
    reveal_with_fuel(checked_handler, 2);
    reveal_with_fuel(checked_stmt, 2);
    reveal_with_fuel(checked_decl, 2);
}

/// More names than an event has data are reported; as many or fewer are not.
pub proof fn event_names_are_counted(s: State, c: Catalog, h: Handler, e: EventSpec)
    requires
        h.trigger is Ident,
        c.event(h.trigger->Ident_name@) == Some(e),
    ensures
        h.params@.len() <= e.data@.len() ==> bound_trigger(s, c, h) == bound_event_params(
            s,
            Some(e),
            h.params@,
            h.range@,
            h.params@.len(),
        ),
        h.params@.len() > e.data@.len() ==> bound_trigger(s, c, h) == bound_event_params(
            State {
                diags: s.diags.push(
                    DiagnosticView {
                        severity: Severity::Error,
                        code: "WS010"@,
                        message: "destructure shape: expected "@ + decimal(e.data@.len())
                            + " param(s), got "@ + decimal(h.params@.len()),
                        range: h.range@,
                    },
                ),
                ..s
            },
            Some(e),
            h.params@,
            h.range@,
            h.params@.len(),
        ),
{
}

/// The body of a function has no pulse; that of a callback is a chip's; a
/// captured event body runs on a pulse, and the source of an event does not.
pub proof fn bodies_have_their_mode(s: State, c: Catalog, f: FnDecl, e: EventDecl)
    ensures
        checked_fn(s, c, f) == inferred(
            bound_fn_params(s.push_scope(), f.params@, f.params@.len()).push_mode(ExecMode::Pure),
            c,
            f.body,
        ).0.pop_mode().pop_scope(),
        e.captured_body is None ==> checked_event(s, c, e) == inferred(
            s.push_mode(ExecMode::Pure),
            c,
            e.source,
        ).0.pop_mode(),
        e.captured_body matches Some(b) ==> checked_event(s, c, e) == checked_block(
            s.push_mode(ExecMode::Exec),
            c,
            b,
        ).pop_mode(),
{
}

/// The body of a callback runs on a pulse, with its inputs in scope.
pub proof fn callbacks_run_on_a_pulse(s: State, c: Catalog, cb: Callback)
    ensures
        checked_callback(s, c, cb) == checked_block(
            bound_params(s.push_scope(), cb.inputs@, cb.inputs@.len()).push_mode(ExecMode::Exec),
            c,
            cb.body,
        ).pop_mode().pop_scope(),
{
    reveal_with_fuel(checked_callback, 2);
}

/// A trigger that is turned round is the trigger behind the sign.
pub proof fn negated_triggers(t: crate::ast::Trigger, inner: crate::ast::Trigger)
    requires
        t matches crate::ast::Trigger::Not { inner: i, .. } && *i == inner,
        inner is Ident,
    ensures
        crate::typecheck::rules::trigger_name(t) == Some((inner->Ident_name@, inner->Ident_range@)),
        crate::typecheck::rules::trigger_name(inner) == Some(
            (inner->Ident_name@, inner->Ident_range@),
        ),
{
}

/// What is checked of each statement in a body.
pub proof fn statements_are_checked(s: State, c: Catalog, st: Stmt)
    ensures
        ({
            let t = checked_stmt(s, c, st);
            match st {
                Stmt::Let(l) => t == bound_let(
                    annotated(inferred(s, c, l.value).0, c, l, inferred(s, c, l.value).1),
                    l.binding,
                    inferred(s, c, l.value).1,
                ),
                Stmt::OutBinding(b) => {
                    &&& b.value is None ==> t == s
                    &&& b.value matches Some(v) ==> t == inferred(s, c, v).0
                },
                Stmt::ExprStmt(es) => t == inferred(s, c, es.expr).0,
                Stmt::In(d) => t == registered_in(s, d),
                Stmt::Buffer(b) => t == checked_buffer(registered_buffer(s, b), c, b),
                Stmt::ChipDecl(ch) => t == checked_chip(registered_chip(s, ch), c, ch),
                Stmt::Callback(cb) => t == checked_callback(registered_callback(s, cb), c, cb),
                Stmt::Assign(a) => t == checked_assign(s, c, a),
                Stmt::Emit(e) => t == checked_emit(s, c, e),
                Stmt::Await(a) => t == checked_await(s, c, a),
                Stmt::If(i) => t == checked_if(s, c, i),
                Stmt::AnonChip(ac) => t == checked_anon(
                    registered_stmts(s, ac.body.stmts@, ac.body.stmts@.len()),
                    c,
                    ac.body.stmts@,
                    ac.body.stmts@.len(),
                ),
                Stmt::Var(v) => v.init is None ==> t == registered_var(s, v),
                _ => true,
            }
        }),
{
    reveal_with_fuel(checked_stmt, 2);
}

/// A return without a value needs a pulse; one with a value is checked as its
/// value is.
pub proof fn returns_need_a_pulse(s: State, c: Catalog, st: Stmt)
    requires
        st is Return,
    ensures
        st->value matches Some(e) ==> checked_stmt(s, c, st) == inferred(s, c, e).0,
        st->value is None && s.is_exec() ==> checked_stmt(s, c, st) == s,
        st->value is None && !s.is_exec() ==> checked_stmt(s, c, st) == with_report(
            s,
            "'return' (without value) outside an exec context"@,
            st->Return_range@,
        ),
{
    reveal_with_fuel(checked_stmt, 2);
}

/// What is checked of each declaration: values without a pulse, chips and
/// handlers as they are; ports, imports and aliases have nothing to check.
pub proof fn declarations_are_checked(s: State, c: Catalog, d: TopDecl)
    ensures
        ({
            let t = checked_decl(s, c, d);
            let pure = s.push_mode(ExecMode::Pure);
            match d {
                TopDecl::Let(l) => t == bound_let(
                    annotated(
                        inferred(pure, c, l.value).0.pop_mode(),
                        c,
                        l,
                        inferred(pure, c, l.value).1,
                    ),
                    l.binding,
                    inferred(pure, c, l.value).1,
                ),
                TopDecl::ExprStmt(es) => t == inferred(pure, c, es.expr).0.pop_mode(),
                TopDecl::Var(v) => t == checked_var(s, c, v),
                TopDecl::Buffer(b) => t == checked_buffer(s, c, b),
                TopDecl::Out(b) => t == checked_out(s, c, b),
                TopDecl::Fn(f) => t == checked_fn(s, c, f),
                TopDecl::Chip(ch) => t == checked_chip(s, c, ch),
                TopDecl::Callback(cb) => t == checked_callback(s, c, cb),
                TopDecl::Event(e) => t == checked_event(s, c, e),
                TopDecl::Assign(a) => t == checked_assign(s, c, a),
                TopDecl::AnonChip(ac) => t == checked_anon(
                    s,
                    c,
                    ac.body.stmts@,
                    ac.body.stmts@.len(),
                ),
                TopDecl::In(_) => t == s,
                TopDecl::Import(_) => t == s,
                TopDecl::TypeAlias(_) => t == s,
                TopDecl::Await(_) => t == s,
                _ => true,
            }
        }),
{
    reveal_with_fuel(checked_decl, 2);
}

/// A namespace is a scope of its own: everything in it is declared, then its
/// values are checked, then its chips and functions.
pub proof fn namespaces_are_scopes(s: State, c: Catalog, ns: NamespaceDecl, n: nat)
    requires
        0 < n <= ns.decls@.len(),
    ensures
        ({
            let all = ns.decls@.len();
            let inside = registered_all(s.push_scope(), ns.decls@, all);
            checked_decl(s, c, TopDecl::Namespace(ns)) == checked_bodies(
                checked_values(inside, c, ns.decls@, all),
                c,
                ns.decls@,
                all,
            ).pop_scope()
        }),
        ({
            let d = ns.decls@[n - 1];
            let before = checked_values(s, c, ns.decls@, (n - 1) as nat);
            let value = d is Let || d is Var || d is Array || d is Buffer;
            &&& value ==> checked_values(s, c, ns.decls@, n) == checked_decl(before, c, d)
            &&& !value ==> checked_values(s, c, ns.decls@, n) == before
        }),
        ({
            let d = ns.decls@[n - 1];
            let before = checked_bodies(s, c, ns.decls@, (n - 1) as nat);
            &&& d is Chip || d is Fn ==> checked_bodies(s, c, ns.decls@, n) == checked_decl(
                before,
                c,
                d,
            )
            &&& !(d is Chip) && !(d is Fn) ==> checked_bodies(s, c, ns.decls@, n) == before
        }),
{
    reveal_with_fuel(checked_decl, 2);
    reveal_with_fuel(checked_values, 2);
    reveal_with_fuel(checked_bodies, 2);
}

/// Everything is declared before anything is checked, in order.
pub proof fn declarations_are_registered_in_order(s: State, decls: Seq<TopDecl>, n: nat)
    requires
        0 < n <= decls.len(),
    ensures
        registered_all(s, decls, n) == registered(
            registered_all(s, decls, (n - 1) as nat),
            decls[n - 1],
        ),
        registered_all(s, decls, 0) == s,
        decls[n - 1] is Out || decls[n - 1] is Handler || decls[n - 1] is Let || decls[n - 1] is Import
            || decls[n - 1] is Assign ==> registered_all(s, decls, n) == registered_all(
            s,
            decls,
            (n - 1) as nat,
        ),
{
}

/// An output that takes a reference does not read its variable; one that takes
/// the value does.
pub proof fn reference_outputs_do_not_read(s: State, b: OutBinding, value: Expr)
    requires
        b.typ is Some,
        value is Ident,
    ensures
        ({
            let (s1, ty) = resolved(s, (b.typ->0)@);
            &&& ty is Ref ==> out_annotated(s, b, value).reads == s1.reads.remove(
                (value->Ident_range@.file, value->Ident_range@.start.offset),
            )
            &&& !(ty is Ref) ==> out_annotated(s, b, value) == s1
        }),
{
}

/// The value of an output is checked without a pulse.
pub proof fn outputs_have_no_pulse(s: State, c: Catalog, b: OutBinding)
    ensures
        b.value is None ==> checked_out(s, c, b) == s,
        b.value matches Some(v) ==> checked_out(s, c, b) == out_annotated(
            inferred(s.push_mode(ExecMode::Pure), c, v).0.pop_mode(),
            b,
            v,
        ),
{
}

/// The elements of an array are checked one by one, without a pulse, against the
/// element type of the array.
pub proof fn array_elements_are_checked(
    s: State,
    c: Catalog,
    a: ArrayDecl,
    elements: Seq<crate::ast::ArrayElem>,
    ty: TypeView,
    n: nat,
)
    requires
        0 < n <= elements.len(),
    ensures
        a.init@.len() == 0 ==> checked_decl(s, c, TopDecl::Array(a)) == s,
        a.init@.len() > 0 ==> checked_decl(s, c, TopDecl::Array(a)) == baked_elements(
            resolved(s, a.element_type@).0,
            c,
            a.init@,
            resolved(s, a.element_type@).1,
            a.init@.len(),
        ),
        ({
            let pure = baked_elements(s, c, elements, ty, (n - 1) as nat).push_mode(ExecMode::Pure);
            let (s1, t) = inferred(pure, c, elements[n - 1].inner());
            baked_elements(s, c, elements, ty, n) == baked_element(
                s1.pop_mode(),
                c,
                elements[n - 1],
                ty,
                t,
            )
        }),
        baked_elements(s, c, elements, ty, 0) == s,
{
    reveal_with_fuel(checked_decl, 2);
    reveal_with_fuel(baked_elements, 2);
}

/// Each element of an array that a variable starts with is held to the element
/// type of the variable.
pub proof fn array_variables_are_checked(s: State, c: Catalog, v: VarDecl, elem: TypeView)
    requires
        v.init matches Some(Expr::Array { .. }),
        crate::typecheck::judge::var_inner(s, v.name@) == TypeView::Array(Box::new(elem)),
    ensures
        ({
            let elements = (v.init->0)->elements@;
            checked_var(s, c, v) == baked_elements(
                inferred(s.push_mode(ExecMode::Pure), c, v.init->0).0.pop_mode(),
                c,
                elements,
                elem,
                elements.len(),
            )
        }),
{
}

/// A mode that is entered is left again.
pub proof fn modes_are_left(s: State, mode: ExecMode)
    requires
        s.modes.len() > 0,
    ensures
        s.push_mode(mode).pop_mode() == s,
        s.push_mode(ExecMode::Exec).is_exec(),
        !s.push_mode(ExecMode::Pure).is_exec(),
{
    assert(s.push_mode(mode).pop_mode().modes =~= s.modes);
}

// ---------- notes ----------

/// What is noted is found again at its place, as it was noted.
pub proof fn notes_are_found_again(
    s: State,
    r: RangeView,
    b: bool,
    t: TypeView,
    rule: crate::catalog::OpRuleView,
)
    ensures
        ({
            let place = (r.file, r.start.offset);
            let span = (r.file, r.start.offset, r.end.offset);
            &&& s.note_if(r, b).ifs.contains_key(place) && s.note_if(r, b).ifs[place] == b
            &&& s.note_read(r, b).reads.contains_key(place) && s.note_read(r, b).reads[place] == b
            &&& !s.forget_read(r).reads.contains_key(place)
            &&& s.note_type(r, t).types.contains_key(span) && s.note_type(r, t).types[span] == t
            &&& s.note_op(r, rule).ops.contains_key(span) && s.note_op(r, rule).ops[span] == rule
        }),
        s.note_if(r, b).diags == s.diags,
        s.note_read(r, b).diags == s.diags,
{
}

/// An `if` expression is noted as one without a pulse before its parts are
/// checked, in order, and has the type of its else.
pub proof fn ifs_note_their_context(s: State, c: Catalog, e: Expr)
    requires
        e is IfExpr,
    ensures
        ({
            let start = s.note_if(e.rng()@, false);
            let s1 = inferred(start, c, *e->IfExpr_cond).0;
            let s2 = inferred(s1, c, *e->IfExpr_then_branch).0;
            inferred(s, c, e).1 == inferred(s2, c, *e->IfExpr_else_branch).1
        }),
{
    reveal_with_fuel(inferred, 2);
    reveal_with_fuel(crate::typecheck::judge::inferred_inner, 2);
}

/// A report names what is written to or read by its name, and anything else as
/// an expression.
pub proof fn targets_are_named(e: Expr)
    ensures
        e matches Expr::Ident { name, .. } ==> crate::typecheck::rules::shown_target(e) == name@,
        !(e is Ident) ==> crate::typecheck::rules::shown_target(e) == "<expr>"@,
{
}

/// A name stands for an array by its type, or by being declared as one.
pub proof fn arrays_are_told(s: State, e: Expr, sym: SymView)
    requires
        e is Ident,
        s.lookup(e->Ident_name@) == Some(sym),
    ensures
        ({
            let a = crate::typecheck::rules::array_behind(s, e);
            &&& sym.ty matches TypeView::Array(inner) ==> a == Some(*inner)
            &&& sym.ty matches TypeView::Ref(r) ==> (*r matches TypeView::Array(inner) ==> a == Some(
                *inner,
            ))
            &&& sym.ty is Any && sym.kind == SymbolKind::Array ==> a == Some(TypeView::Any)
            &&& (sym.ty is Any || sym.ty is Int) && sym.kind != SymbolKind::Array ==> a is None
        }),
{
}

/// Only a name stands for an array, and only one that is known.
pub proof fn other_expressions_are_no_arrays(s: State, e: Expr)
    ensures
        !(e is Ident) ==> crate::typecheck::rules::array_behind(s, e) is None,
        e is Ident && s.lookup(e->Ident_name@) is None ==> crate::typecheck::rules::array_behind(
            s,
            e,
        ) is None,
{
}

// ---------- types in reports ----------

/// In reports a type is shown with its parts in order.
pub proof fn types_are_shown_in_reports(t: TypeView, a: TypeView, b: TypeView, x: Seq<char>, y: Seq<char>)
    ensures
        t == TypeView::Ref(Box::new(a)) ==> debug_text(t) == "Ref("@ + debug_text(a) + ")"@,
        t == TypeView::Array(Box::new(a)) ==> debug_text(t) == "Array("@ + debug_text(a) + ")"@,
        t == TypeView::Tuple(seq![a, b]) ==> debug_text(t) == "Tuple(["@ + (debug_text(a) + ", "@
            + debug_text(b)) + "])"@,
        t == TypeView::Union(seq![a, b]) ==> debug_text(t) == "Union(["@ + (debug_text(a) + ", "@
            + debug_text(b)) + "])"@,
        t == TypeView::Record(seq![(x, a), (y, b)]) ==> debug_text(t) == "Record(["@ + (("(\""@ + x
            + "\", "@ + debug_text(a) + ")"@) + ", "@ + ("(\""@ + y + "\", "@ + debug_text(b) + ")"@))
            + "])"@,
{
    let ta = debug_text(a);
    let tb = debug_text(b);
    let two = seq![a, b];
    reveal_with_fuel(crate::types::debug_list, 2);
    reveal_with_fuel(crate::types::debug_fields, 2);
    assert(two[0] == a && two[1] == b);
    let list = crate::types::debug_list(two);
    assert(list[0] == ta && list[1] == tb);
    assert(list =~= seq![ta, tb]);
    crate::text_laws::parts_are_joined(seq![ta], ta, tb, ", "@);
    let fs = seq![(x, a), (y, b)];
    assert(fs[0] == (x, a) && fs[1] == (y, b));
    let fx = "(\""@ + x + "\", "@ + ta + ")"@;
    let fy = "(\""@ + y + "\", "@ + tb + ")"@;
    let fields = crate::types::debug_fields(fs);
    assert(fields[0] == fx && fields[1] == fy);
    assert(fields =~= seq![fx, fy]);
    crate::text_laws::parts_are_joined(seq![fx], fx, fy, ", "@);
}

} // verus!
