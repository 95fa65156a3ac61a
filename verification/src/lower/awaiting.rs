//! `await`: flow that goes on when a signal or another exec value runs.

use crate::assoc::AssocMap;
use crate::ast::{AwaitStmt, Expr};
use crate::diagnostic::{RangeView, SourceRange};
use crate::literal::{Literal, LiteralView};
use crate::lower::ctx::LowerCtx;
use crate::lower::emit::{find_payload, payload_slot};
use crate::lower::gates::{
    branch_gate, chain_var_get, literal_gate, make_branch, make_literal, make_read, payload_got,
    read_gate, write_gate, write_var, written,
};
use crate::lower::graph::{
    io_of_var, var_io, GateClass, GateSpec, GateView, NodeId, Note, PortName, PortRef, Prop,
};
use crate::lower::names::{at, find_key, pairs};
use crate::lower::state::{
    Binding, BindingView, LocalRecord, LowerState, PayloadSlot, PayloadView, SignalAwait,
};
use crate::lower::task::{run_task, runs, step, such, total, Runs, Task, TaskView};
use crate::text::cat5;
use crate::types::{Type, TypeView};
use vstd::prelude::*;

verus! {

/// The name of the signal that an exec expression is, if it is one identifier.
pub open spec fn signal_name(e: Expr) -> Option<Seq<char>> {
    match e {
        Expr::Ident { name, .. } => Some(name@),
        _ => None,
    }
}

pub fn signal_name_of(e: &Expr) -> (r: Option<&str>)
    ensures
        r is Some <==> signal_name(*e) is Some,
        r matches Some(n) ==> signal_name(*e) == Some(n@),
{
    match e {
        Expr::Ident { name, .. } => Some(name.as_str()),
        _ => None,
    }
}

/// The key of the signal that an expression names.
pub open spec fn awaited_key(s: LowerState, e: Expr) -> Option<Seq<char>> {
    match signal_name(e) {
        Some(name) => s.signal(name),
        None => None,
    }
}

fn find_awaited_key<'a>(ctx: &LowerCtx<'a>, e: &Expr) -> (r: Option<String>)
    ensures
        r is Some <==> awaited_key(ctx@, *e) is Some,
        r matches Some(k) ==> awaited_key(ctx@, *e) == Some(k@),
{
    match signal_name_of(e) {
        Some(sig) => ctx.signal_key(sig),
        None => None,
    }
}

/// The flag that says whether an `await` is waiting; it starts down.
pub open spec fn flag_gate(range: RangeView) -> GateView {
    GateView {
        class: GateClass::PseudoVar,
        range,
        props: Map::empty().insert(Prop::InitialValue, LiteralView::Bool(false)),
        io: var_io(TypeView::Bool),
        note: Some(Note::AwaitArmed),
    }
}

/// The flag raised on the flow from `flow`, which ends there.
pub open spec fn flag_raised(s: LowerState, flag: NodeId, flow: PortRef, range: RangeView) -> LowerState {
    let lit = s.fresh();
    LowerState {
        flow: s.flow,
        ..written(
            s.with_gate(literal_gate(LiteralView::Bool(true), TypeView::Bool, range)),
            flow,
            flag,
            lit.at(PortName::Output),
            write_gate(GateClass::VarSet, TypeView::Bool, range, None),
        )
    }
}

/// An `await` of a signal that always runs is noted, unless one is already: the
/// signal's emits on the same chain raise its flag.
pub open spec fn await_noted(s: LowerState, flag: NodeId, e: Expr) -> LowerState {
    match awaited_key(s, e) {
        Some(key) => if s.depth == 0 && at(s.awaits, key) is None {
            LowerState {
                awaits: s.awaits.push((key, SignalAwait { armed: flag, chain: s.chain })),
                ..s
            }
        } else {
            s
        },
        None => s,
    }
}

/// The state before the awaited expression is lowered. `_` in it stands for
/// the flag.
pub open spec fn await_started(s: LowerState, a: AwaitStmt) -> LowerState {
    let flag = s.fresh();
    let s1 = s.with_gate(flag_gate(a.range@));
    let s2 = match s.flow {
        Some(flow) => flag_raised(s1, flag, flow, a.range@),
        None => s1,
    };
    LowerState { armed: Some(flag.at(PortName::Value)), ..await_noted(s2, flag, a.exec_expr) }
}

/// The flow after the awaited exec `port` runs while the flag is up: the flag
/// is read, and taken down again.
pub open spec fn await_resumed(
    s: LowerState,
    flag: NodeId,
    port: PortRef,
    range: RangeView,
) -> LowerState {
    let get = s.fresh();
    let s1 = s.with_gate(read_gate(TypeView::Bool, range, None)).wired(
        port,
        get.at(PortName::Exec),
    ).wired(flag.at(PortName::VarRef), get.at(PortName::VarRef));
    let branch = s1.fresh();
    let s2 = s1.with_gate(branch_gate(range)).wired(
        get.at(PortName::ExecOut),
        branch.at(PortName::Exec),
    ).wired(get.at(PortName::Value), branch.at(PortName::BCond));
    let lit = s2.fresh();
    written(
        s2.with_gate(literal_gate(LiteralView::Bool(false), TypeView::Bool, range)),
        branch.at(PortName::ExecOutA),
        flag,
        lit.at(PortName::Output),
        write_gate(GateClass::VarSet, TypeView::Bool, range, None),
    )
}

/// The slot of a payload field of the awaited signal.
pub open spec fn awaited_slot(s: LowerState, e: Expr, field: Seq<char>) -> Option<PayloadView> {
    match awaited_key(s, e) {
        Some(key) => payload_slot(s, key, field),
        None => None,
    }
}

fn find_awaited_slot<'a>(ctx: &LowerCtx<'a>, e: &Expr, field: &str) -> (r: Option<PayloadSlot>)
    ensures
        r is Some <==> awaited_slot(ctx@, *e, field@) is Some,
        r matches Some(p) ==> awaited_slot(ctx@, *e, field@) == Some(p@),
{
    match find_awaited_key(ctx, e) {
        Some(key) => find_payload(ctx, key.as_str(), field),
        None => None,
    }
}

/// The value of `let x = await ...`: the payload of the signal, or else the
/// value expression, or else the exec itself.
pub open spec fn await_value(
    run: Runs,
    s: LowerState,
    a: AwaitStmt,
    exec_port: PortRef,
    after: LowerState,
    port: PortRef,
) -> bool {
    match (awaited_slot(s, a.exec_expr, ""@), a.value_expr) {
        (Some(p), _) => after == payload_got(s, p.store, p.ty) && port == s.fresh().at(
            PortName::Value,
        ),
        (None, Some(e)) => step(run, s, TaskView::Expr(e), after, port),
        (None, None) => after == s && port == exec_port,
    }
}

/// The name of `let x = await ...` bound.
pub open spec fn await_bound(
    run: Runs,
    s: LowerState,
    a: AwaitStmt,
    exec_port: PortRef,
    after: LowerState,
) -> bool {
    match a.binding {
        Some(name) => exists|mid: LowerState, p: PortRef|
            #![trigger such((mid, p))]
            such((mid, p)) && await_value(run, s, a, exec_port, mid, p) && after
                == mid.with_binding(name@, BindingView::Local(p)),
        None => after == s,
    }
}

pub open spec fn no_payload_message(field: Seq<char>) -> Seq<char> {
    "awaited signal has no ferried payload field `"@ + field
        + "` — emit a value first (`emit <sig> = { "@ + field + ": ... }`)"@
}

/// The first `n` names of `let { a, b } = await sig` bound to payload fields,
/// read in order.
pub open spec fn await_fields(
    s: LowerState,
    a: AwaitStmt,
    fields: Seq<(String, String)>,
    n: nat,
) -> LowerState
    decreases n,
{
    if n == 0 || n > fields.len() {
        s
    } else {
        let s1 = await_fields(s, a, fields, (n - 1) as nat);
        match awaited_slot(s1, a.exec_expr, fields[n - 1].0@) {
            Some(p) => payload_got(s1, p.store, p.ty).with_binding(
                fields[n - 1].1@,
                BindingView::Local(s1.fresh().at(PortName::Value)),
            ),
            None => s1.warned(no_payload_message(fields[n - 1].0@), a.range@),
        }
    }
}

/// The effect of an `await`.
pub open spec fn awaited(run: Runs, s: LowerState, a: AwaitStmt, after: LowerState) -> bool {
    exists|mid: LowerState, port: PortRef, last: LowerState|
        #![trigger such((mid, port, last))]
        such((mid, port, last)) && step(
            run,
            await_started(s, a),
            TaskView::Expr(a.exec_expr),
            mid,
            port,
        ) && await_bound(
            run,
            await_resumed(LowerState { armed: s.armed, ..mid }, s.fresh(), port, a.range@),
            a,
            port,
            last,
        ) && after == match a.destructure {
            Some(fields) => await_fields(last, a, fields@, fields@.len()),
            None => last,
        }
}

fn note_await<'a>(ctx: &mut LowerCtx<'a>, flag: NodeId, e: &Expr)
    ensures
        final(ctx)@ == await_noted(old(ctx)@, flag, *e),
{
    if ctx.exec_branch_depth != 0 {
        return ;
    }
    let key = match find_awaited_key(ctx, e) {
        Some(k) => k,
        None => {
            return ;
        },
    };
    if find_key(&ctx.signal_awaits, key.as_str()).is_some() {
        return ;
    }
    let ghost before = ctx.signal_awaits@;
    let entry = SignalAwait { armed: flag, chain: ctx.current_chain_id };
    ctx.signal_awaits.push((key, entry));
    assert(pairs(ctx.signal_awaits@) =~= pairs(before).push((key@, entry)));
}

fn start_await<'a>(ctx: &mut LowerCtx<'a>, a: &AwaitStmt) -> (r: NodeId)
    ensures
        final(ctx)@ == await_started(old(ctx)@, *a),
        r == old(ctx)@.fresh(),
{
    let mut props: AssocMap<Prop, Literal> = AssocMap::new();
    props.insert(Prop::InitialValue, Literal::Bool(false));
    let gate = GateSpec {
        class: GateClass::PseudoVar,
        range: a.range.clone(),
        props,
        io: io_of_var(&Type::Bool),
        note: Some(Note::AwaitArmed),
    };
    assert(gate@ == flag_gate(a.range@));
    let flag = ctx.add_gate(gate);
    if let Some(flow) = ctx.current_exec {
        let lit = ctx.add_gate(make_literal(Literal::Bool(true), &Type::Bool, a.range.clone()));
        write_var(
            ctx,
            flow,
            flag,
            lit.port(PortName::Output),
            GateClass::VarSet,
            &Type::Bool,
            a.range.clone(),
            None,
        );
        ctx.current_exec = Some(flow);
    }
    note_await(ctx, flag, &a.exec_expr);
    ctx.await_armed_port = Some(flag.port(PortName::Value));
    flag
}

fn resume<'a>(ctx: &mut LowerCtx<'a>, flag: NodeId, port: PortRef, range: &SourceRange)
    ensures
        final(ctx)@ == await_resumed(old(ctx)@, flag, port, range@),
{
    let get = ctx.add_gate(make_read(&Type::Bool, range.clone(), None));
    ctx.connect(port, get.port(PortName::Exec));
    ctx.connect(flag.port(PortName::VarRef), get.port(PortName::VarRef));
    let branch = ctx.add_gate(make_branch(range.clone()));
    ctx.connect(get.port(PortName::ExecOut), branch.port(PortName::Exec));
    ctx.connect(get.port(PortName::Value), branch.port(PortName::BCond));
    let lit = ctx.add_gate(make_literal(Literal::Bool(false), &Type::Bool, range.clone()));
    write_var(
        ctx,
        branch.port(PortName::ExecOutA),
        flag,
        lit.port(PortName::Output),
        GateClass::VarSet,
        &Type::Bool,
        range.clone(),
        None,
    );
}

fn bind_awaited<'a, F: Fn(LowerCtx<'a>, Task<'a>) -> (LowerCtx<'a>, PortRef)>(
    f: &F,
    ctx: &mut LowerCtx<'a>,
    a: &'a AwaitStmt,
    exec_port: PortRef,
)
    requires
        total(*f),
    ensures
        await_bound(runs(*f), old(ctx)@, *a, exec_port, final(ctx)@),
{
    if let Some(name) = &a.binding {
        let port = if let Some(p) = find_awaited_slot(ctx, &a.exec_expr, "") {
            chain_var_get(ctx, p.store, &p.ty)
        } else if let Some(val_expr) = &a.value_expr {
            run_task(f, ctx, Task::Expr(val_expr))
        } else {
            exec_port
        };
        assert(await_value(runs(*f), old(ctx)@, *a, exec_port, ctx@, port));
        assert(such((ctx@, port)));
        ctx.bind_name(name.as_str(), Binding::Local(LocalRecord { port }));
    }
}

fn bind_await_fields<'a>(ctx: &mut LowerCtx<'a>, a: &AwaitStmt, fields: &Vec<(String, String)>)
    ensures
        final(ctx)@ == await_fields(old(ctx)@, *a, fields@, fields@.len()),
{
    let mut i: usize = 0;
    while i < fields.len()
        invariant
            i <= fields@.len(),
            ctx@ == await_fields(old(ctx)@, *a, fields@, i as nat),
        decreases fields.len() - i,
    {
        let field = fields[i].0.as_str();
        match find_awaited_slot(ctx, &a.exec_expr, field) {
            Some(p) => {
                let port = chain_var_get(ctx, p.store, &p.ty);
                ctx.bind_name(fields[i].1.as_str(), Binding::Local(LocalRecord { port }));
            },
            None => {
                ctx.warn(
                    cat5(
                        "awaited signal has no ferried payload field `",
                        field,
                        "` — emit a value first (`emit <sig> = { ",
                        field,
                        ": ... }`)",
                    ),
                    &a.range,
                );
            },
        }
        i += 1;
    }
}

pub fn lower_await<'a, F: Fn(LowerCtx<'a>, Task<'a>) -> (LowerCtx<'a>, PortRef)>(
    f: &F,
    ctx: &mut LowerCtx<'a>,
    a: &'a AwaitStmt,
)
    requires
        total(*f),
    ensures
        awaited(runs(*f), old(ctx)@, *a, final(ctx)@),
{
    let saved_armed = ctx.await_armed_port;
    let flag = start_await(ctx, a);
    let exec_port = run_task(f, ctx, Task::Expr(&a.exec_expr));
    let ghost mid = ctx@;
    ctx.await_armed_port = saved_armed;
    resume(ctx, flag, exec_port, &a.range);
    bind_awaited(f, ctx, a, exec_port);
    assert(such((mid, exec_port, ctx@)));
    if let Some(fields) = &a.destructure {
        bind_await_fields(ctx, a, fields);
    }
}

/// After an `await` flow goes on from the write that takes its flag down, when
/// the statement binds nothing.
pub proof fn await_moves_flow(run: Runs, s: LowerState, a: AwaitStmt, after: LowerState)
    requires
        a.binding is None,
        a.destructure is None,
        awaited(run, s, a, after),
    ensures
        after.flow is Some,
        after.armed == s.armed,
{
}

} // verus!
