//! Lowering of statements.

use crate::ast::{Block, BufferDecl, Expr, If, OutBinding, Stmt};
use crate::diagnostic::{no_range, RangeView, SourceRange};
use crate::literal::{Literal, LiteralView};
use crate::lower::assign::{assigned, lower_assign, lower_var, var_lowered};
use crate::lower::awaiting::{awaited, lower_await};
use crate::lower::ctx::{reset_var_get_caches, LowerCtx};
use crate::lower::decl::{
    anon_chip_lowered, buffer_lowered, let_lowered, lower_anon_chip, lower_buffer_body,
    lower_chip_decl, lower_let_decl,
};
use crate::lower::emit::{emitted, lower_emit};
use crate::lower::gates::{branch_gate, make_branch, write_gate, write_var, written};
use crate::lower::graph::{
    find_node, node_of, GateClass, NodeId, Note, PortName, PortRef, Prop, ScopeKind,
};
use crate::lower::names::{pairs, Named};
use crate::lower::predeclare::{
    array_decl_declared, buffer_declared, make_union, pre_declare_array, pre_declare_buffer,
    union_gate,
};
use crate::lower::record::{lower_record_lit, record_built};
use crate::lower::state::{
    first_module_output, module_outputs, Binding, BindingView, LowerState, ScopeTag,
};
use crate::lower::task::{run_task, runs, step, such, total, Runs, Task, TaskView};
use vstd::prelude::*;

verus! {

// ---------- outputs ----------

/// The effect of `out name = value`.
pub open spec fn out_bound(
    run: Runs,
    s: LowerState,
    name: Seq<char>,
    value: Option<Expr>,
    after: LowerState,
) -> bool {
    match (value, s.output(name)) {
        (Some(v), Some(out)) => exists|mid: LowerState, p: PortRef| #[trigger]
            step(run, s, TaskView::Expr(v), mid, p) && after == mid.wired(
                p,
                out.node_id.at(PortName::RerInput),
            ),
        _ => after == s,
    }
}

pub fn lower_out_binding<'a, F: Fn(LowerCtx<'a>, Task<'a>) -> (LowerCtx<'a>, PortRef)>(
    f: &F,
    ctx: &mut LowerCtx<'a>,
    name: &str,
    value: &'a Option<Expr>,
)
    requires
        total(*f),
    ensures
        out_bound(runs(*f), old(ctx)@, name@, *value, final(ctx)@),
{
    let value = match value {
        Some(v) => v,
        None => {
            return ;
        },
    };
    let out = match ctx.lookup_output(name) {
        Some(o) => o,
        None => {
            return ;
        },
    };
    let port = run_task(f, ctx, Task::Expr(value));
    ctx.connect(port, out.node_id.port(PortName::RerInput));
}

// ---------- if ----------

pub open spec fn one_up(n: usize) -> usize {
    if n == usize::MAX {
        0
    } else {
        (n + 1) as usize
    }
}

pub open spec fn one_down(n: usize) -> usize {
    if n == 0 {
        usize::MAX
    } else {
        (n - 1) as usize
    }
}

/// The value of a condition that is known when it is lowered: a literal, or a
/// name bound to one.
pub open spec fn known_cond(s: LowerState, cond: Expr) -> Option<bool> {
    match cond {
        Expr::BoolLit { value, .. } => Some(value),
        Expr::Ident { name, .. } => match s.binding(name@) {
            Some(BindingView::Local(p)) => match node_of(s.nodes, p.node_id) {
                Some(n) => if n.gate.class == GateClass::Literal && n.gate.props.contains_key(
                    Prop::Value,
                ) {
                    match n.gate.props[Prop::Value] {
                        LiteralView::Bool(b) => Some(b),
                        _ => None,
                    }
                } else {
                    None
                },
                None => None,
            },
            _ => None,
        },
        _ => None,
    }
}

fn fold_cond<'a>(ctx: &LowerCtx<'a>, cond: &Expr) -> (r: Option<bool>)
    ensures
        r == known_cond(ctx@, *cond),
{
    match cond {
        Expr::BoolLit { value, .. } => Some(*value),
        Expr::Ident { name, .. } => {
            let port = match ctx.get(name.as_str()) {
                Some(Binding::Local(l)) => l.port,
                _ => {
                    return None;
                },
            };
            match find_node(&ctx.nodes, port.node_id) {
                Some(i) => {
                    let gate = &ctx.nodes[i].gate;
                    if gate.class != GateClass::Literal {
                        return None;
                    }
                    match gate.props.get(&Prop::Value) {
                        Some(Literal::Bool(b)) => Some(*b),
                        _ => None,
                    }
                },
                None => None,
            }
        },
        _ => None,
    }
}

/// A block lowered, if there is one.
pub open spec fn taken(run: Runs, s: LowerState, block: Option<Block>, after: LowerState) -> bool {
    match block {
        Some(b) => exists|p: PortRef|
            #![trigger such(p)]
            such(p) && step(run, s, TaskView::Block(b), after, p),
        None => after == s,
    }
}

/// The branch that a known condition takes.
pub open spec fn known_branch(i: If, value: bool) -> Option<Block> {
    if value {
        Some(i.then_block)
    } else {
        i.else_block
    }
}

/// The scope of the condition, in a group that holds it and the branches.
pub open spec fn cond_started(s: LowerState, i: If) -> LowerState {
    let s1 = s.with_scope(ScopeKind::IfGroup, i.range@).in_scope(s.next_scope);
    s1.with_scope(ScopeKind::IfCond, i.cond.rng()@).in_scope(s1.next_scope)
}

/// The branch gate placed after the condition, and the scope of the first
/// branch entered. `group` is the scope of the whole statement.
pub open spec fn then_started(
    s: LowerState,
    i: If,
    flow: PortRef,
    cond: PortRef,
    group: u32,
) -> LowerState {
    let branch = s.fresh();
    let s1 = s.with_gate(branch_gate(i.range@)).wired(
        s.flow_or(flow),
        branch.at(PortName::Exec),
    ).wired(cond, branch.at(PortName::BCond)).with_frame(ScopeTag::Block).in_scope(group);
    let s2 = s1.with_scope(ScopeKind::IfThen, i.then_block.range@).in_scope(s1.next_scope);
    LowerState {
        flow: Some(branch.at(PortName::ExecOutA)),
        depth: one_up(s2.depth),
        ..s2
    }
}

pub open spec fn else_range(i: If) -> RangeView {
    match i.else_block {
        Some(b) => b.range@,
        None => i.range@,
    }
}

/// The first branch left, and the scope of the second entered. Reads cached in
/// the first never run in the second.
pub open spec fn else_started(s: LowerState, i: If, branch: NodeId, group: u32) -> LowerState {
    let s1 = s.without_frame().with_frame(ScopeTag::Block).in_scope(group);
    s1.with_scope(ScopeKind::IfElse, else_range(i)).in_scope(s1.next_scope).with_flow(
        Some(branch.at(PortName::ExecOutB)),
    ).forgetting(None)
}

pub open spec fn wired_if(s: LowerState, from: Option<PortRef>, to: PortRef) -> LowerState {
    match from {
        Some(p) => s.wired(p, to),
        None => s,
    }
}

/// The branches joined: flow goes on from a union of where they end. Reads
/// cached in either may not have run.
pub open spec fn branches_joined(
    s: LowerState,
    i: If,
    then_end: Option<PortRef>,
    outer: u32,
) -> LowerState {
    let else_end = s.flow;
    let s1 = LowerState { depth: one_down(s.depth), ..s }.without_frame().in_scope(outer);
    let union = s1.fresh();
    let s2 = wired_if(s1.with_gate(union_gate(i.range@)), then_end, union.at(PortName::ExecA));
    wired_if(s2, else_end, union.at(PortName::ExecB)).with_flow(
        Some(union.at(PortName::ExecOut)),
    ).forgetting(None)
}

/// The effect of an `if` whose condition is only known when it runs.
pub open spec fn branched(
    run: Runs,
    s: LowerState,
    i: If,
    flow: PortRef,
    after: LowerState,
) -> bool {
    exists|s1: LowerState, cond: PortRef, s2: LowerState, s3: LowerState|
        #![trigger such((s1, cond, s2, s3))]
        such((s1, cond, s2, s3)) && step(
            run,
            cond_started(s, i),
            TaskView::Expr(i.cond),
            s1,
            cond,
        ) && taken(
            run,
            then_started(s1, i, flow, cond, s.next_scope),
            Some(i.then_block),
            s2,
        ) && taken(
            run,
            else_started(s2, i, s1.fresh(), s.next_scope),
            i.else_block,
            s3,
        ) && after == branches_joined(s3, i, s2.flow, s.scope)
}

/// The effect of an `if`. Without exec flow it has none; with a condition that
/// is known only the branch taken is lowered.
pub open spec fn if_lowered(run: Runs, s: LowerState, i: If, after: LowerState) -> bool {
    match (s.flow, known_cond(s, i.cond)) {
        (None, _) => after == s,
        (Some(_), Some(value)) => exists|mid: LowerState|
            #![trigger such(mid)]
            such(mid) && taken(
                run,
                s.with_frame(ScopeTag::Block),
                known_branch(i, value),
                mid,
            ) && after == mid.without_frame(),
        (Some(flow), None) => branched(run, s, i, flow, after),
    }
}

fn lower_taken<'a, F: Fn(LowerCtx<'a>, Task<'a>) -> (LowerCtx<'a>, PortRef)>(
    f: &F,
    ctx: &mut LowerCtx<'a>,
    block: Option<&'a Block>,
)
    requires
        total(*f),
    ensures
        taken(
            runs(*f),
            old(ctx)@,
            match block {
                Some(b) => Some(*b),
                None => None,
            },
            final(ctx)@,
        ),
{
    if let Some(b) = block {
        let done = run_task(f, ctx, Task::Block(b));
        assert(such(done));
    }
}

fn start_cond<'a>(ctx: &mut LowerCtx<'a>, s: &If)
    ensures
        final(ctx)@ == cond_started(old(ctx)@, *s),
{
    let group: u32 = ctx.alloc_scope(ScopeKind::IfGroup, s.range.clone());
    ctx.set_scope(group);
    let cond: u32 = ctx.alloc_scope(ScopeKind::IfCond, s.cond.range().clone());
    ctx.set_scope(cond);
}

fn start_then<'a>(
    ctx: &mut LowerCtx<'a>,
    s: &If,
    flow: PortRef,
    cond: PortRef,
    group: u32,
) -> (r: NodeId)
    ensures
        final(ctx)@ == then_started(old(ctx)@, *s, flow, cond, group),
        r == old(ctx)@.fresh(),
{
    let exec_in = match ctx.current_exec {
        Some(e) => e,
        None => flow,
    };
    let branch = ctx.add_gate(make_branch(s.range.clone()));
    ctx.connect(exec_in, branch.port(PortName::Exec));
    ctx.connect(cond, branch.port(PortName::BCond));
    ctx.push_frame(ScopeTag::Block);
    ctx.set_scope(group);
    let then_id: u32 = ctx.alloc_scope(ScopeKind::IfThen, s.then_block.range.clone());
    ctx.set_scope(then_id);
    ctx.current_exec = Some(branch.port(PortName::ExecOutA));
    ctx.exec_branch_depth = ctx.exec_branch_depth.wrapping_add(1);
    branch
}

fn start_else<'a>(ctx: &mut LowerCtx<'a>, s: &If, branch: NodeId, group: u32)
    ensures
        final(ctx)@ == else_started(old(ctx)@, *s, branch, group),
{
    ctx.pop_frame();
    ctx.push_frame(ScopeTag::Block);
    ctx.set_scope(group);
    let range = match &s.else_block {
        Some(b) => b.range.clone(),
        None => s.range.clone(),
    };
    let else_id: u32 = ctx.alloc_scope(ScopeKind::IfElse, range);
    ctx.set_scope(else_id);
    ctx.current_exec = Some(branch.port(PortName::ExecOutB));
    reset_var_get_caches(ctx);
}

fn join_branches<'a>(ctx: &mut LowerCtx<'a>, s: &If, then_end: Option<PortRef>, outer: u32)
    ensures
        final(ctx)@ == branches_joined(old(ctx)@, *s, then_end, outer),
{
    let else_end = ctx.current_exec;
    ctx.exec_branch_depth = ctx.exec_branch_depth.wrapping_sub(1);
    ctx.pop_frame();
    ctx.set_scope(outer);
    let union = ctx.add_gate(make_union(s.range.clone()));
    if let Some(e) = then_end {
        ctx.connect(e, union.port(PortName::ExecA));
    }
    if let Some(e) = else_end {
        ctx.connect(e, union.port(PortName::ExecB));
    }
    ctx.current_exec = Some(union.port(PortName::ExecOut));
    reset_var_get_caches(ctx);
}

pub fn lower_if<'a, F: Fn(LowerCtx<'a>, Task<'a>) -> (LowerCtx<'a>, PortRef)>(
    f: &F,
    ctx: &mut LowerCtx<'a>,
    s: &'a If,
)
    requires
        total(*f),
    ensures
        if_lowered(runs(*f), old(ctx)@, *s, final(ctx)@),
{
    let current_exec = match ctx.current_exec {
        Some(e) => e,
        None => {
            return ;
        },
    };
    if let Some(value) = fold_cond(ctx, &s.cond) {
        ctx.push_frame(ScopeTag::Block);
        let block = if value {
            Some(&s.then_block)
        } else {
            s.else_block.as_ref()
        };
        lower_taken(f, ctx, block);
        assert(such(ctx@));
        ctx.pop_frame();
        return ;
    }
    let outer: u32 = ctx.current_scope_id;
    let group: u32 = ctx.next_scope_id;
    start_cond(ctx, s);
    let cond = run_task(f, ctx, Task::Expr(&s.cond));
    let ghost s1 = ctx@;
    let branch = start_then(ctx, s, current_exec, cond, group);
    lower_taken(f, ctx, Some(&s.then_block));
    let ghost s2 = ctx@;
    let then_end = ctx.current_exec;
    start_else(ctx, s, branch, group);
    lower_taken(f, ctx, s.else_block.as_ref());
    assert(such((s1, cond, s2, ctx@)));
    join_branches(ctx, s, then_end, outer);
}

/// Whatever its branches do, an `if` with a condition that is not known leaves
/// flow at a new union gate, and goes back to the scope it stands in.
pub proof fn if_rejoins(run: Runs, s: LowerState, i: If, after: LowerState)
    requires
        s.flow is Some,
        known_cond(s, i.cond) is None,
        if_lowered(run, s, i, after),
    ensures
        after.flow matches Some(p) && p.port == PortName::ExecOut && after.nodes.last().id
            == p.node_id && after.nodes.last().gate == union_gate(i.range@),
        after.scope == s.scope,
{
}

// ---------- return ----------

/// The value of a `return` stored: in the variable of a mod that returns in
/// several places, or else straight in the one output.
pub open spec fn return_stored(s: LowerState, value: PortRef) -> LowerState {
    match s.return_var {
        Some(v) => match s.flow {
            Some(flow) => written(
                s,
                flow,
                v.node_id,
                value,
                write_gate(
                    GateClass::VarSet,
                    v.inner_type,
                    no_range(),
                    Some(Note::ReturnSet),
                ),
            ),
            None => s,
        },
        None => match first_module_output(s.frames) {
            Some(out) => if module_outputs(s.frames) == 1 {
                s.wired(value, out.node_id.at(PortName::RerInput))
            } else {
                s
            },
            None => s,
        },
    }
}

/// The value of a `return`. A record literal is left for the call to bind.
pub open spec fn return_valued(
    run: Runs,
    s: LowerState,
    value: Option<Expr>,
    after: LowerState,
) -> bool {
    match value {
        Some(Expr::RecordLit { fields, .. }) => exists|mid: LowerState, rec: Named<BindingView>|
            #![trigger such((mid, rec))]
            such((mid, rec)) && record_built(run, s, fields@, fields@.len(), mid, rec) && after == (
            LowerState { return_record: Some(rec), ..mid }),
        Some(e) => exists|mid: LowerState, p: PortRef| #[trigger]
            step(run, s, TaskView::Expr(e), mid, p) && after == return_stored(mid, p),
        None => after == s,
    }
}

/// Flow ended by a `return`: it is joined to that of the earlier ones.
pub open spec fn return_joined(s: LowerState) -> LowerState {
    match (s.flow, s.return_flow) {
        (None, _) => s,
        (Some(flow), None) => LowerState { flow: None, return_flow: Some(flow), ..s },
        (Some(flow), Some(prev)) => {
            let union = s.fresh();
            LowerState {
                flow: None,
                return_flow: Some(union.at(PortName::ExecOut)),
                ..s.with_gate(union_gate(no_range())).wired(
                    prev,
                    union.at(PortName::ExecA),
                ).wired(flow, union.at(PortName::ExecB))
            }
        },
    }
}

/// The effect of a `return`.
pub open spec fn returned(
    run: Runs,
    s: LowerState,
    value: Option<Expr>,
    after: LowerState,
) -> bool {
    exists|mid: LowerState|
        #![trigger such(mid)]
        such(mid) && return_valued(run, s, value, mid) && after == return_joined(mid)
}

fn store_return<'a>(ctx: &mut LowerCtx<'a>, value: PortRef)
    ensures
        final(ctx)@ == return_stored(old(ctx)@, value),
{
    let ret_var = match &ctx.mod_return_var {
        Some(v) => Some(v.clone()),
        None => None,
    };
    if let Some(rec) = ret_var {
        if let Some(flow) = ctx.current_exec {
            write_var(
                ctx,
                flow,
                rec.node_id,
                value,
                GateClass::VarSet,
                &rec.inner_type,
                SourceRange::default(),
                Some(Note::ReturnSet),
            );
        }
    } else if ctx.output_count() == 1 {
        if let Some(out) = ctx.first_output() {
            ctx.connect(value, out.node_id.port(PortName::RerInput));
        }
    }
}

fn join_return<'a>(ctx: &mut LowerCtx<'a>)
    ensures
        final(ctx)@ == return_joined(old(ctx)@),
{
    let flow = match ctx.current_exec {
        Some(e) => e,
        None => {
            return ;
        },
    };
    ctx.current_exec = None;
    match ctx.mod_return_exec {
        Some(prev) => {
            let union = ctx.add_gate(make_union(SourceRange::default()));
            ctx.connect(prev, union.port(PortName::ExecA));
            ctx.connect(flow, union.port(PortName::ExecB));
            ctx.mod_return_exec = Some(union.port(PortName::ExecOut));
        },
        None => {
            ctx.mod_return_exec = Some(flow);
        },
    }
}

fn lower_return<'a, F: Fn(LowerCtx<'a>, Task<'a>) -> (LowerCtx<'a>, PortRef)>(
    f: &F,
    ctx: &mut LowerCtx<'a>,
    value: &'a Option<Expr>,
)
    requires
        total(*f),
    ensures
        returned(runs(*f), old(ctx)@, *value, final(ctx)@),
{
    if let Some(expr) = value {
        if let Expr::RecordLit { fields, .. } = expr {
            let rec = lower_record_lit(f, ctx, fields);
            assert(such((ctx@, pairs(rec@))));
            ctx.pending_return_record = Some(rec);
        } else {
            let val_port = run_task(f, ctx, Task::Expr(expr));
            store_return(ctx, val_port);
        }
    }
    assert(return_valued(runs(*f), old(ctx)@, *value, ctx@));
    assert(such(ctx@));
    join_return(ctx);
}

/// After a `return` no exec flow goes on.
pub proof fn return_ends_flow(run: Runs, s: LowerState, value: Option<Expr>, after: LowerState)
    requires
        returned(run, s, value, after),
    ensures
        after.flow is None,
{
}

// ---------- what a body returns ----------

/// The number of `return` statements with a value among the first `n`
/// statements, those of `if` branches included.
pub open spec fn value_returns(stmts: Seq<Stmt>, n: nat) -> nat
    decreases stmts, n,
{
    if n == 0 || n > stmts.len() {
        0
    } else {
        value_returns(stmts, (n - 1) as nat) + stmt_value_returns(stmts[n - 1])
    }
}

pub open spec fn stmt_value_returns(s: Stmt) -> nat
    decreases s, 0nat,
{
    match s {
        Stmt::Return { value, .. } => if value is Some {
            1
        } else {
            0
        },
        Stmt::If(i) => value_returns(i.then_block.stmts@, i.then_block.stmts@.len())
            + match i.else_block {
            Some(b) => value_returns(b.stmts@, b.stmts@.len()),
            None => 0nat,
        },
        _ => 0,
    }
}

/// Counts the `return` statements with a value in a body. The count stops at
/// the largest number a `usize` holds.
pub fn count_return_values(block: &Block) -> (r: usize)
    ensures
        r as nat == value_returns(block.stmts@, block.stmts@.len()) || (r == usize::MAX
            && value_returns(block.stmts@, block.stmts@.len()) > usize::MAX),
    decreases block.stmts@, 0nat,
{
    let mut count: usize = 0;
    let mut i: usize = 0;
    while i < block.stmts.len()
        invariant
            i <= block.stmts@.len(),
            count as nat == value_returns(block.stmts@, i as nat) || (count == usize::MAX
                && value_returns(block.stmts@, i as nat) > usize::MAX),
        decreases block.stmts.len() - i,
    {
        assert(decreases_to!(block.stmts@ => block.stmts@[i as int]));
        let n: usize = count_in_stmt(&block.stmts[i]);
        count = count.saturating_add(n);
        i += 1;
    }
    count
}

fn count_in_stmt(s: &Stmt) -> (r: usize)
    ensures
        r as nat == stmt_value_returns(*s) || (r == usize::MAX && stmt_value_returns(*s)
            > usize::MAX),
    decreases s, 0nat,
{
    match s {
        Stmt::Return { value, .. } => if value.is_some() {
            1
        } else {
            0
        },
        Stmt::If(if_stmt) => {
            let a: usize = count_return_values(&if_stmt.then_block);
            let b: usize = match &if_stmt.else_block {
                Some(e) => count_return_values(e),
                None => 0,
            };
            a.saturating_add(b)
        },
        _ => 0,
    }
}

/// Whether one of the first `n` statements is a `return`, those of `if`
/// branches included and those of nested handlers not.
pub open spec fn has_return(stmts: Seq<Stmt>, n: nat) -> bool
    decreases stmts, n,
{
    if n == 0 || n > stmts.len() {
        false
    } else {
        has_return(stmts, (n - 1) as nat) || stmt_has_return(stmts[n - 1])
    }
}

pub open spec fn stmt_has_return(s: Stmt) -> bool
    decreases s, 0nat,
{
    match s {
        Stmt::Return { .. } => true,
        Stmt::If(i) => has_return(i.then_block.stmts@, i.then_block.stmts@.len())
            || match i.else_block {
            Some(b) => has_return(b.stmts@, b.stmts@.len()),
            None => false,
        },
        _ => false,
    }
}

pub fn block_contains_return(block: &Block) -> (r: bool)
    ensures
        r == has_return(block.stmts@, block.stmts@.len()),
    decreases block.stmts@, 0nat,
{
    let mut found = false;
    let mut i: usize = 0;
    while i < block.stmts.len()
        invariant
            i <= block.stmts@.len(),
            found == has_return(block.stmts@, i as nat),
        decreases block.stmts.len() - i,
    {
        assert(decreases_to!(block.stmts@ => block.stmts@[i as int]));
        if stmt_contains_return(&block.stmts[i]) {
            found = true;
        }
        i += 1;
    }
    found
}

fn stmt_contains_return(s: &Stmt) -> (r: bool)
    ensures
        r == stmt_has_return(*s),
    decreases s, 0nat,
{
    match s {
        Stmt::Return { .. } => true,
        Stmt::If(if_stmt) => {
            if block_contains_return(&if_stmt.then_block) {
                return true;
            }
            match &if_stmt.else_block {
                Some(b) => block_contains_return(b),
                None => false,
            }
        },
        _ => false,
    }
}

/// A body that returns a value somewhere contains a `return`.
pub proof fn value_return_is_return(stmts: Seq<Stmt>, n: nat)
    ensures
        value_returns(stmts, n) > 0 ==> has_return(stmts, n),
    decreases stmts, n,
{
    reveal_with_fuel(value_returns, 2);
    reveal_with_fuel(stmt_value_returns, 2);
    reveal_with_fuel(has_return, 2);
    reveal_with_fuel(stmt_has_return, 2);
    if n > 0 && n <= stmts.len() {
        value_return_is_return(stmts, (n - 1) as nat);
        if let Stmt::If(i) = stmts[n - 1] {
            assert(decreases_to!(stmts => stmts[n - 1]));
            value_return_is_return(i.then_block.stmts@, i.then_block.stmts@.len());
            if let Some(b) = i.else_block {
                value_return_is_return(b.stmts@, b.stmts@.len());
            }
        }
    }
}

// ---------- statements ----------

/// A buffer in a body: declared unless its name stands for one already, and
/// its initializer wired.
pub open spec fn buffer_stmt(run: Runs, s: LowerState, b: BufferDecl, after: LowerState) -> bool {
    buffer_lowered(
        run,
        if s.buffer(b.name@) is None {
            buffer_declared(s, b)
        } else {
            s
        },
        b,
        after,
    )
}

/// The effect of a statement.
pub open spec fn stmt_lowered(run: Runs, s: LowerState, st: Stmt, after: LowerState) -> bool {
    match st {
        Stmt::Assign(a) => assigned(run, s, a, after),
        Stmt::If(i) => if_lowered(run, s, i, after),
        Stmt::Emit(e) => emitted(run, s, e, after),
        Stmt::Await(a) => awaited(run, s, a, after),
        Stmt::OutBinding(b) => out_bound(run, s, b.name@, b.value, after),
        Stmt::ExprStmt(es) => exists|p: PortRef| #[trigger]
            step(run, s, TaskView::Expr(es.expr), after, p),
        Stmt::Handler(h) => exists|p: PortRef| #[trigger]
            step(run, s, TaskView::Handler(h), after, p),
        Stmt::Let(l) => let_lowered(run, s, l, after),
        Stmt::AnonChip(ac) => anon_chip_lowered(run, s, ac, after),
        Stmt::ChipDecl(c) => after == s.with_binding(c.name@, BindingView::Chip(c@)),
        Stmt::Callback(_) => after == s,
        Stmt::In(_) => after == s,
        Stmt::Var(v) => var_lowered(run, s, v, after),
        Stmt::Array(a) => after == if s.var(a.name@) is None {
            array_decl_declared(s, a)
        } else {
            s
        },
        Stmt::Buffer(b) => buffer_stmt(run, s, b, after),
        Stmt::Return { value, .. } => returned(run, s, value, after),
    }
}

pub fn lower_stmt<'a, F: Fn(LowerCtx<'a>, Task<'a>) -> (LowerCtx<'a>, PortRef)>(
    f: &F,
    ctx: &mut LowerCtx<'a>,
    s: &'a Stmt,
)
    requires
        total(*f),
    ensures
        stmt_lowered(runs(*f), old(ctx)@, *s, final(ctx)@),
{
    match s {
        Stmt::Assign(a) => lower_assign(f, ctx, a),
        Stmt::If(i) => lower_if(f, ctx, i),
        Stmt::Emit(e) => lower_emit(f, ctx, e),
        Stmt::Await(a) => lower_await(f, ctx, a),
        Stmt::OutBinding(b) => lower_out_binding(f, ctx, b.name.as_str(), &b.value),
        Stmt::ExprStmt(es) => {
            let _value = run_task(f, ctx, Task::Expr(&es.expr));
        },
        Stmt::Handler(h) => {
            let _done = run_task(f, ctx, Task::Handler(h));
        },
        Stmt::Let(l) => lower_let_decl(f, ctx, l),
        Stmt::AnonChip(ac) => lower_anon_chip(f, ctx, ac),
        Stmt::ChipDecl(c) => lower_chip_decl(ctx, c),
        Stmt::Callback(_) => {},
        Stmt::In(_) => {},
        Stmt::Var(v) => lower_var(f, ctx, v),
        Stmt::Array(a) => {
            if ctx.lookup_var(a.name.as_str()).is_none() {
                pre_declare_array(ctx, a);
            }
        },
        Stmt::Buffer(b) => {
            if ctx.lookup_buffer(b.name.as_str()).is_none() {
                pre_declare_buffer(ctx, b);
            }
            lower_buffer_body(f, ctx, b);
        },
        Stmt::Return { value, .. } => lower_return(f, ctx, value),
    }
}

} // verus!
