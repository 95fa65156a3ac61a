//! Assignments and the values that variables are reset to.

use crate::ast::{ArrayElem, Assign, Expr, VarDecl};
use crate::diagnostic::{RangeView, SourceRange};
use crate::literal::{default_literal, default_literal_for_var_type, Literal};
use crate::lower::ctx::{invalidate_var_cache, LowerCtx};
use crate::lower::gates::{literal_gate, make_literal, write_gate, write_var, written};
use crate::lower::graph::{GateClass, PortName, PortRef};
use crate::lower::predeclare::{
    pre_declare_var, unbaked_warned, var_declared, warn_unbaked_var_init,
};
use crate::lower::record::{chain_binding, resolve_field_chain};
use crate::lower::state::{Binding, BindingView, LowerState, VarRecord, VarStorage, VarView};
use crate::lower::task::{run_task, runs, step, such, total, ArrayOp, Runs, Task, TaskView};
use crate::text::{cat3, str_eq};
use vstd::prelude::*;

verus! {

/// The other operand of `x = x + d` or `x = d + x`.
pub open spec fn increment_of(a: Assign) -> Option<Expr> {
    match (a.target, a.value) {
        (Expr::Ident { name, .. }, Expr::BinOp { op, left, right, .. }) => if op@ == "+"@ {
            if is_name(*left, name@) {
                Some(*right)
            } else if is_name(*right, name@) {
                Some(*left)
            } else {
                None
            }
        } else {
            None
        },
        _ => None,
    }
}

pub open spec fn is_name(e: Expr, name: Seq<char>) -> bool {
    match e {
        Expr::Ident { name: n, .. } => n@ == name,
        _ => false,
    }
}

fn expr_is_name(e: &Expr, name: &str) -> (r: bool)
    ensures
        r == is_name(*e, name@),
{
    match e {
        Expr::Ident { name: n, .. } => str_eq(n.as_str(), name),
        _ => false,
    }
}

pub fn match_increment_self<'a>(s: &'a Assign) -> (r: Option<&'a Expr>)
    ensures
        r is Some <==> increment_of(*s) is Some,
        r matches Some(e) ==> increment_of(*s) == Some(*e),
{
    let name = match &s.target {
        Expr::Ident { name, .. } => name,
        _ => {
            return None;
        },
    };
    match &s.value {
        Expr::BinOp { op, left, right, .. } => {
            if str_eq(op.as_str(), "+") {
                if expr_is_name(left, name.as_str()) {
                    return Some(&**right);
                }
                if expr_is_name(right, name.as_str()) {
                    return Some(&**left);
                }
            }
            None
        },
        _ => None,
    }
}

// ---------- array literals ----------

/// The task that adds one element of an array literal.
pub open spec fn elem_task(rec: VarView, el: ArrayElem, value: Expr) -> TaskView {
    TaskView::ArrayMethod {
        array: rec.node_id.at(PortName::ArrayVarRef),
        elem_type: rec.inner_type,
        method: match el {
            ArrayElem::Item(_) => ArrayOp::Push,
            ArrayElem::Spread(_) => ArrayOp::Append,
        },
        arg: Some(el.inner()),
        range: el.inner().rng()@,
        value,
    }
}

/// The first `n` elements of an array literal added in order.
pub open spec fn elems_added(
    run: Runs,
    s: LowerState,
    rec: VarView,
    elements: Seq<ArrayElem>,
    n: nat,
    value: Expr,
    after: LowerState,
) -> bool
    decreases n,
{
    if n == 0 || n > elements.len() {
        after == s
    } else {
        exists|mid: LowerState, p: PortRef|
            #![trigger such((mid, p))]
            such((mid, p)) && elems_added(run, s, rec, elements, (n - 1) as nat, value, mid) && step(
                run,
                mid,
                elem_task(rec, elements[n - 1], value),
                after,
                p,
            )
    }
}

/// The task that empties an array variable.
pub open spec fn clear_task(rec: VarView, range: RangeView, value: Expr) -> TaskView {
    TaskView::ArrayMethod {
        array: rec.node_id.at(PortName::ArrayVarRef),
        elem_type: rec.inner_type,
        method: ArrayOp::Clear,
        arg: None,
        range,
        value,
    }
}

/// `foo = [items, ...spreads]` on an array variable: it is cleared, each item
/// is pushed and each spread appended, in order.
pub open spec fn array_assigned(
    run: Runs,
    s: LowerState,
    rec: VarView,
    elements: Seq<ArrayElem>,
    range: RangeView,
    value: Expr,
    after: LowerState,
) -> bool {
    exists|mid: LowerState, p: PortRef| #[trigger]
        step(run, s, clear_task(rec, range, value), mid, p) && elems_added(
            run,
            mid,
            rec,
            elements,
            elements.len(),
            value,
            after,
        )
}

pub fn lower_array_literal_assign<'a, F: Fn(LowerCtx<'a>, Task<'a>) -> (LowerCtx<'a>, PortRef)>(
    f: &F,
    ctx: &mut LowerCtx<'a>,
    var_rec: &VarRecord,
    elements: &'a Vec<ArrayElem>,
    range: &'a SourceRange,
    value: &'a Expr,
)
    requires
        total(*f),
    ensures
        array_assigned(
            runs(*f),
            old(ctx)@,
            var_rec@,
            elements@,
            range@,
            *value,
            final(ctx)@,
        ),
{
    let ghost run = runs(*f);
    let array = var_rec.node_id.port(PortName::ArrayVarRef);
    let _cleared = run_task(
        f,
        ctx,
        Task::ArrayMethod {
            array,
            elem_type: var_rec.inner_type.clone(),
            method: ArrayOp::Clear,
            arg: None,
            range,
            value,
        },
    );
    let ghost cleared = ctx@;
    let mut i: usize = 0;
    while i < elements.len()
        invariant
            total(*f),
            run == runs(*f),
            array == var_rec@.node_id.at(PortName::ArrayVarRef),
            i <= elements@.len(),
            elems_added(run, cleared, var_rec@, elements@, i as nat, *value, ctx@),
        decreases elements.len() - i,
    {
        let ghost mid = ctx@;
        let el = &elements[i];
        let method = match el {
            ArrayElem::Item(_) => ArrayOp::Push,
            ArrayElem::Spread(_) => ArrayOp::Append,
        };
        let _added = run_task(
            f,
            ctx,
            Task::ArrayMethod {
                array,
                elem_type: var_rec.inner_type.clone(),
                method,
                arg: Some(el.expr()),
                range: el.range(),
                value,
            },
        );
        assert(such((mid, _added)));
        i += 1;
    }
}

// ---------- assignments ----------

/// A variable written from `value` on the flow, or from `flow` on when the
/// value left none; its cached reads are dropped.
pub open spec fn var_assigned(
    s: LowerState,
    flow: PortRef,
    rec: VarView,
    value: PortRef,
    class: GateClass,
    range: RangeView,
) -> LowerState {
    written(
        s,
        s.flow_or(flow),
        rec.node_id,
        value,
        write_gate(class, rec.inner_type, range, None),
    ).forgetting(Some(rec.node_id))
}

fn assign_var<'a>(
    ctx: &mut LowerCtx<'a>,
    flow: PortRef,
    rec: &VarRecord,
    value: PortRef,
    class: GateClass,
    range: &SourceRange,
)
    ensures
        final(ctx)@ == var_assigned(old(ctx)@, flow, rec@, value, class, range@),
{
    let exec_in = match ctx.current_exec {
        Some(e) => e,
        None => flow,
    };
    write_var(ctx, exec_in, rec.node_id, value, class, &rec.inner_type, range.clone(), None);
    invalidate_var_cache(ctx, rec.node_id);
}

/// An assignment to a variable while exec flow is at `flow`. A buffer takes
/// the value directly; `x = x + d` is an increment.
pub open spec fn assigned_to(
    run: Runs,
    s: LowerState,
    a: Assign,
    rec: VarView,
    flow: PortRef,
    after: LowerState,
) -> bool {
    if rec.storage is Array && a.value is Array {
        array_assigned(run, s, rec, a.value->Array_elements@, a.range@, a.value, after)
    } else if rec.storage is Buffer {
        exists|mid: LowerState, p: PortRef| #[trigger]
            step(run, s, TaskView::Expr(a.value), mid, p) && after == mid.wired(
                p,
                rec.node_id.at(PortName::Input),
            )
    } else {
        match increment_of(a) {
            Some(delta) => exists|mid: LowerState, p: PortRef| #[trigger]
                step(run, s, TaskView::Expr(delta), mid, p) && after == var_assigned(
                    mid,
                    flow,
                    rec,
                    p,
                    GateClass::VarIncrement,
                    a.range@,
                ),
            None => exists|mid: LowerState, p: PortRef| #[trigger]
                step(run, s, TaskView::Expr(a.value), mid, p) && after == var_assigned(
                    mid,
                    flow,
                    rec,
                    p,
                    GateClass::VarSet,
                    a.range@,
                ),
        }
    }
}

/// An assignment to a field of a record that stands for a variable.
pub open spec fn field_assigned(
    run: Runs,
    s: LowerState,
    a: Assign,
    rec: VarView,
    flow: PortRef,
    after: LowerState,
) -> bool {
    exists|mid: LowerState, p: PortRef| #[trigger]
        step(run, s, TaskView::Expr(a.value), mid, p) && after == if rec.storage is Buffer {
            mid.wired(p, rec.node_id.at(PortName::Input))
        } else {
            var_assigned(mid, flow, rec, p, GateClass::VarSet, a.range@)
        }
}

/// The effect of an assignment. Outside exec flow only an array element can be
/// assigned; a target that stands for no variable is left alone.
pub open spec fn assigned(run: Runs, s: LowerState, a: Assign, after: LowerState) -> bool {
    match a.target {
        Expr::IndexAccess { obj, index, .. } => exists|p: PortRef| #[trigger]
            step(
                run,
                s,
                TaskView::ArraySet { obj: *obj, index: *index, value: a.value, range: a.range@ },
                after,
                p,
            ),
        Expr::FieldAccess { .. } => match (chain_binding(s, a.target), s.flow) {
            (Some(BindingView::Var(rec)), Some(flow)) => field_assigned(
                run,
                s,
                a,
                rec,
                flow,
                after,
            ),
            _ => after == s,
        },
        Expr::Ident { name, .. } => match (s.var(name@), s.flow) {
            (Some(rec), Some(flow)) => assigned_to(run, s, a, rec, flow, after),
            _ => after == s,
        },
        _ => after == s,
    }
}

pub fn lower_assign<'a, F: Fn(LowerCtx<'a>, Task<'a>) -> (LowerCtx<'a>, PortRef)>(
    f: &F,
    ctx: &mut LowerCtx<'a>,
    s: &'a Assign,
)
    requires
        total(*f),
    ensures
        assigned(runs(*f), old(ctx)@, *s, final(ctx)@),
{
    if let Expr::IndexAccess { obj, index, .. } = &s.target {
        let _set = run_task(
            f,
            ctx,
            Task::ArraySet { obj, index, value: &s.value, range: &s.range },
        );
        return ;
    }
    if let Expr::FieldAccess { .. } = &s.target {
        let rec = match resolve_field_chain(ctx, &s.target) {
            Some(Binding::Var(rec)) => rec.clone(),
            _ => {
                return ;
            },
        };
        let current_exec = match ctx.current_exec {
            Some(e) => e,
            None => {
                return ;
            },
        };
        let value_port = run_task(f, ctx, Task::Expr(&s.value));
        if let VarStorage::Buffer = rec.storage {
            ctx.connect(value_port, rec.node_id.port(PortName::Input));
            return ;
        }
        assign_var(ctx, current_exec, &rec, value_port, GateClass::VarSet, &s.range);
        return ;
    }
    let name = match &s.target {
        Expr::Ident { name, .. } => name,
        _ => {
            return ;
        },
    };
    let rec = match ctx.lookup_var(name.as_str()) {
        Some(v) => v,
        None => {
            return ;
        },
    };
    let current_exec = match ctx.current_exec {
        Some(e) => e,
        None => {
            return ;
        },
    };
    if let VarStorage::Array = rec.storage {
        if let Expr::Array { elements, .. } = &s.value {
            lower_array_literal_assign(f, ctx, &rec, elements, &s.range, &s.value);
            return ;
        }
    }
    if let VarStorage::Buffer = rec.storage {
        let value_port = run_task(f, ctx, Task::Expr(&s.value));
        ctx.connect(value_port, rec.node_id.port(PortName::Input));
        return ;
    }
    if let Some(delta_expr) = match_increment_self(s) {
        let delta = run_task(f, ctx, Task::Expr(delta_expr));
        assign_var(ctx, current_exec, &rec, delta, GateClass::VarIncrement, &s.range);
        return ;
    }
    let value_port = run_task(f, ctx, Task::Expr(&s.value));
    assign_var(ctx, current_exec, &rec, value_port, GateClass::VarSet, &s.range);
}

// ---------- variables in bodies ----------

pub open spec fn dropped_array_message(name: Seq<char>) -> Seq<char> {
    "'var "@ + name
        + "' array initializer must be an array literal — this value is dropped; build the array with methods like push/copyFrom instead"@
}

/// The value a variable is reset to: its initializer, or a constant for its
/// type.
pub open spec fn reset_value(
    run: Runs,
    s: LowerState,
    v: VarDecl,
    rec: VarView,
    after: LowerState,
    port: PortRef,
) -> bool {
    match v.init {
        Some(e) => step(run, s, TaskView::Expr(e), after, port),
        None => after == s.with_gate(
            literal_gate(default_literal(rec.inner_type), rec.inner_type, v.range@),
        ) && port == s.fresh().at(PortName::Output),
    }
}

/// A variable reset to its initial value on the flow from `flow`.
pub open spec fn var_reset(
    run: Runs,
    s: LowerState,
    v: VarDecl,
    rec: VarView,
    flow: PortRef,
    after: LowerState,
) -> bool {
    if rec.storage is Array {
        match v.init {
            Some(Expr::Array { elements, .. }) => array_assigned(
                run,
                s,
                rec,
                elements@,
                v.range@,
                v.init->0,
                after,
            ),
            Some(init) => after == s.warned(dropped_array_message(v.name@), init.rng()@),
            None => after == s,
        }
    } else {
        exists|mid: LowerState, p: PortRef| #[trigger]
            reset_value(run, s, v, rec, mid, p) && after == written(
                mid,
                mid.flow_or(flow),
                rec.node_id,
                p,
                write_gate(GateClass::VarSet, rec.inner_type, v.range@, None),
            )
    }
}

/// A `var` of a body before its reset: it is declared unless its name stands
/// for a variable already, and an initializer that nothing applies is reported.
pub open spec fn var_ready(s: LowerState, v: VarDecl) -> LowerState {
    let s1 = if s.var(v.name@) is None {
        var_declared(s, v)
    } else {
        s
    };
    if v.is_static || s1.flow is None {
        unbaked_warned(s1, v, false)
    } else {
        s1
    }
}

/// The effect of a `var` in a body. On an exec flow it is reset each time it
/// is reached, unless it is `static`.
pub open spec fn var_lowered(run: Runs, s: LowerState, v: VarDecl, after: LowerState) -> bool {
    let s1 = var_ready(s, v);
    match (s1.var(v.name@), s1.flow) {
        (Some(rec), Some(flow)) => if v.is_static {
            after == s1
        } else {
            var_reset(run, s1, v, rec, flow, after)
        },
        _ => after == s1,
    }
}

pub fn lower_var<'a, F: Fn(LowerCtx<'a>, Task<'a>) -> (LowerCtx<'a>, PortRef)>(
    f: &F,
    ctx: &mut LowerCtx<'a>,
    v: &'a VarDecl,
)
    requires
        total(*f),
    ensures
        var_lowered(runs(*f), old(ctx)@, *v, final(ctx)@),
{
    if ctx.lookup_var(v.name.as_str()).is_none() {
        pre_declare_var(ctx, v);
    }
    if v.is_static || ctx.current_exec.is_none() {
        warn_unbaked_var_init(ctx, v, false);
    }
    assert(ctx@ == var_ready(old(ctx)@, *v));
    if v.is_static {
        return ;
    }
    let exec = match ctx.current_exec {
        Some(e) => e,
        None => {
            return ;
        },
    };
    let rec = match ctx.lookup_var(v.name.as_str()) {
        Some(r) => r,
        None => {
            return ;
        },
    };
    let ghost s1 = ctx@;
    if let VarStorage::Array = rec.storage {
        if let Some(init) = &v.init {
            if let Expr::Array { elements, .. } = init {
                lower_array_literal_assign(f, ctx, &rec, elements, &v.range, init);
            } else {
                ctx.warn(
                    cat3(
                        "'var ",
                        v.name.as_str(),
                        "' array initializer must be an array literal — this value is dropped; build the array with methods like push/copyFrom instead",
                    ),
                    init.range(),
                );
            }
        }
        return ;
    }
    let port = match &v.init {
        Some(e) => run_task(f, ctx, Task::Expr(e)),
        None => {
            let lit = match default_literal_for_var_type(&rec.inner_type) {
                Some(l) => l,
                None => Literal::Object,
            };
            let id = ctx.add_gate(make_literal(lit, &rec.inner_type, v.range.clone()));
            id.port(PortName::Output)
        },
    };
    assert(reset_value(runs(*f), s1, *v, rec@, ctx@, port));
    let exec_in = match ctx.current_exec {
        Some(e) => e,
        None => exec,
    };
    write_var(
        ctx,
        exec_in,
        rec.node_id,
        port,
        GateClass::VarSet,
        &rec.inner_type,
        v.range.clone(),
        None,
    );
}

} // verus!
