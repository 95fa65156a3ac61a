//! Lowering of declarations.

use crate::ast::{
    AnonChipDecl, Block, BufferDecl, ChipDecl, Expr, FnDecl, LetBinding, LetDecl, NamedOutput,
    NamespaceDecl, Param, Stmt, TopDecl, TypeExpr,
};
use crate::ast_view::{
    clone_params, named_outputs_view, stmts_view, BlockView, ChipDeclView, FnDeclView,
    NamedOutputView, StmtView,
};
use crate::diagnostic::{views, RangeView, Severity, SourceRange};
use crate::lower::assign::{assigned, lower_assign};
use crate::lower::ctx::LowerCtx;
use crate::lower::graph::{
    node_of, find_node, ChipOutputs, ChipOutputsView, Node, NodeId, NodeKind, NodeView, PortName,
    PortRef, PortView,
};
use crate::lower::names::{at, pairs, put, put_key, slot, Named};
use crate::lower::predeclare::{
    array_decl_declared, buffer_declared, build_exec_signal_hub, hubbed, pre_declare_array,
    pre_declare_buffer, pre_declare_var, unbaked_warned, var_declared, warn_unbaked_var_init,
};
use crate::lower::record::{
    chain_binding, chain_cloned, destructured, install_record_destruct, lower_record_lit,
    record_built,
};
use crate::lower::state::{
    lemma_record_binding, members, next_of, Binding, BindingView, LocalRecord, LowerState,
};
use crate::lower::stmt::{if_lowered, lower_if, lower_out_binding, out_bound};
use crate::lower::task::{run_task, runs, step, such, total, Runs, Task, TaskView};
use crate::text::{cat3, cat7, join, joined, owned, str_eq, texts};
use crate::type_expr::{type_expr_str, type_expr_text};
use crate::types::{Fields, Type, TypeView};
use vstd::prelude::*;

verus! {

broadcast use lemma_record_binding;

// ---------- buffers ----------

/// The initializer of a buffer wired into it, on an exec chain of its own.
pub open spec fn buffer_lowered(run: Runs, s: LowerState, d: BufferDecl, after: LowerState) -> bool {
    match s.buffer(d.name@) {
        Some(rec) => exists|mid: LowerState, p: PortRef| #[trigger]
            step(
                run,
                LowerState { next_chain: next_of(s.next_chain), ..s }.in_chain(
                    Some(s.next_chain),
                ).with_node_chain(rec.node_id, Some(s.next_chain)),
                TaskView::Expr(d.init),
                mid,
                p,
            ) && after == mid.wired(p, rec.node_id.at(PortName::Input)).in_chain(s.chain),
        None => after == s,
    }
}

pub fn lower_buffer_body<'a, F: Fn(LowerCtx<'a>, Task<'a>) -> (LowerCtx<'a>, PortRef)>(
    f: &F,
    ctx: &mut LowerCtx<'a>,
    d: &'a BufferDecl,
)
    requires
        total(*f),
    ensures
        buffer_lowered(runs(*f), old(ctx)@, *d, final(ctx)@),
{
    let rec = match ctx.lookup_buffer(d.name.as_str()) {
        Some(r) => r,
        None => {
            return ;
        },
    };
    let saved_chain = ctx.current_chain_id;
    let chain: u32 = ctx.alloc_chain();
    ctx.current_chain_id = Some(chain);
    ctx.set_node_chain(rec.node_id, Some(chain));
    let rhs_port = run_task(f, ctx, Task::Expr(&d.init));
    ctx.connect(rhs_port, rec.node_id.port(PortName::Input));
    ctx.current_chain_id = saved_chain;
}

// ---------- chips ----------

/// Whether a node is that of an anonymous chip declared at `range`.
pub open spec fn is_chip_at(n: NodeView, range: RangeView, chip: Option<NodeId>) -> bool {
    n.kind == NodeKind::Chip && n.gate.range == range && n.chip_id == chip
}

/// The first node of an anonymous chip declared at `range`.
pub open spec fn chip_node(nodes: Seq<NodeView>, range: RangeView, chip: Option<NodeId>) -> Option<
    NodeId,
>
    decreases nodes.len(),
{
    if nodes.len() == 0 {
        None
    } else {
        match chip_node(nodes.drop_last(), range, chip) {
            Some(id) => Some(id),
            None => if is_chip_at(nodes.last(), range, chip) {
                Some(nodes.last().id)
            } else {
                None
            },
        }
    }
}

proof fn lemma_chip_node_prefix(nodes: Seq<NodeView>, range: RangeView, chip: Option<NodeId>, n: int)
    requires
        0 <= n <= nodes.len(),
        chip_node(nodes.take(n), range, chip) is Some,
    ensures
        chip_node(nodes, range, chip) == chip_node(nodes.take(n), range, chip),
    decreases nodes.len(),
{
    if n == nodes.len() {
        assert(nodes.take(n) =~= nodes);
    } else {
        assert(nodes.drop_last().take(n) =~= nodes.take(n));
        lemma_chip_node_prefix(nodes.drop_last(), range, chip, n);
    }
}

fn same_range(a: &SourceRange, b: &SourceRange) -> (r: bool)
    ensures
        r == (a@ == b@),
{
    a.start == b.start && a.end == b.end && str_eq(a.file.as_str(), b.file.as_str())
}

fn find_chip_node(nodes: &Vec<Node>, range: &SourceRange, chip: Option<NodeId>) -> (r: Option<
    NodeId,
>)
    ensures
        r == chip_node(views(nodes@), range@, chip),
{
    let ghost all = views(nodes@);
    let mut i: usize = 0;
    assert(all.take(0) =~= Seq::empty());
    while i < nodes.len()
        invariant
            all == views(nodes@),
            i <= nodes@.len(),
            chip_node(all.take(i as int), range@, chip) is None,
        decreases nodes@.len() - i,
    {
        assert(all.take(i + 1).drop_last() =~= all.take(i as int));
        let n = &nodes[i];
        if n.kind == NodeKind::Chip && same_range(&n.gate.range, range) && n.chip_id == chip {
            proof {
                lemma_chip_node_prefix(all, range@, chip, i + 1);
            }
            return Some(n.id);
        }
        i += 1;
    }
    assert(all.take(i as int) =~= all);
    None
}

/// The body of an anonymous chip lowered in the scope around it, its nodes
/// tagged with the chip that was placed for it.
pub open spec fn anon_chip_lowered(
    run: Runs,
    s: LowerState,
    d: AnonChipDecl,
    after: LowerState,
) -> bool {
    match chip_node(s.nodes, d.range@, s.anon_chip) {
        Some(id) => exists|mid: LowerState, p: PortRef| #[trigger]
            step(
                run,
                LowerState { anon_chip: Some(id), ..s },
                TaskView::Block(d.body),
                mid,
                p,
            ) && after == (LowerState { anon_chip: s.anon_chip, ..mid }),
        None => after == s,
    }
}

pub fn lower_anon_chip<'a, F: Fn(LowerCtx<'a>, Task<'a>) -> (LowerCtx<'a>, PortRef)>(
    f: &F,
    ctx: &mut LowerCtx<'a>,
    d: &'a AnonChipDecl,
)
    requires
        total(*f),
    ensures
        anon_chip_lowered(runs(*f), old(ctx)@, *d, final(ctx)@),
{
    let chip_id = match find_chip_node(&ctx.nodes, &d.range, ctx.current_anon_chip) {
        Some(id) => id,
        None => {
            return ;
        },
    };
    let saved = ctx.current_anon_chip;
    ctx.current_anon_chip = Some(chip_id);
    let _done = run_task(f, ctx, Task::Block(&d.body));
    ctx.current_anon_chip = saved;
}

/// Chips and mods are kept by name, to be instantiated or expanded where they
/// are called.
pub fn lower_chip_decl<'a>(ctx: &mut LowerCtx<'a>, d: &'a ChipDecl)
    ensures
        final(ctx)@ == old(ctx)@.with_binding(d.name@, BindingView::Chip(d@)),
{
    ctx.bind_name(d.name.as_str(), Binding::Chip(d));
}

// ---------- let ----------

/// A record bound by a `let`; other patterns bind nothing.
pub open spec fn record_bound(
    s: LowerState,
    binding: LetBinding,
    record: Named<BindingView>,
) -> LowerState {
    match binding {
        LetBinding::Ident { name, .. } => s.with_binding(name@, BindingView::Record(record)),
        LetBinding::RecordDestruct { fields, .. } => destructured(
            s,
            record,
            fields@,
            fields@.len(),
        ).0,
        _ => s,
    }
}

/// Whether a pattern takes a record as a whole or by its fields.
pub open spec fn takes_record(binding: LetBinding) -> bool {
    binding is Ident || binding is RecordDestruct
}

fn bind_record<'a>(ctx: &mut LowerCtx<'a>, binding: &LetBinding, record: Vec<(String, Binding<'a>)>)
    ensures
        final(ctx)@ == record_bound(old(ctx)@, *binding, pairs(record@)),
{
    match binding {
        LetBinding::Ident { name, .. } => ctx.bind_name(name.as_str(), Binding::Record(record)),
        LetBinding::RecordDestruct { fields, .. } => install_record_destruct(ctx, &record, fields),
        _ => {},
    }
}

/// The outputs of the chip that owns an output node.
pub open spec fn owner_outputs(chips: Seq<ChipOutputsView>, id: NodeId) -> Option<Seq<NodeId>>
    decreases chips.len(),
{
    if chips.len() == 0 {
        None
    } else {
        match owner_outputs(chips.drop_last(), id) {
            Some(o) => Some(o),
            None => if chips.last().outputs.contains(id) {
                Some(chips.last().outputs)
            } else {
                None
            },
        }
    }
}

/// The first `n` fields of a call's result, by the outputs of the chip called.
pub open spec fn output_fields(fields: Fields, outputs: Seq<NodeId>, n: nat) -> Named<BindingView>
    decreases n,
{
    if n == 0 || n > fields.len() {
        Seq::empty()
    } else {
        let before = output_fields(fields, outputs, (n - 1) as nat);
        if n - 1 < outputs.len() {
            put(
                before,
                fields[n - 1].0,
                BindingView::Local(outputs[n - 1].at(PortName::RerOutput)),
            )
        } else {
            before
        }
    }
}

/// The first `n` names of a pattern bound to the outputs of a node in order.
pub open spec fn ports_bound(
    s: LowerState,
    id: NodeId,
    outputs: Seq<PortView>,
    names: Seq<String>,
    n: nat,
) -> LowerState
    decreases n,
{
    if n == 0 || n > names.len() {
        s
    } else {
        let s1 = ports_bound(s, id, outputs, names, (n - 1) as nat);
        if n - 1 < outputs.len() {
            s1.with_binding(names[n - 1]@, BindingView::Local(id.at(outputs[n - 1].name)))
        } else {
            s1
        }
    }
}

/// A value bound by a `let`.
pub open spec fn value_bound(s: LowerState, binding: LetBinding, port: PortRef) -> LowerState {
    match binding {
        LetBinding::Ident { name, .. } => s.with_binding(name@, BindingView::Local(port)),
        LetBinding::Tuple { names, .. } => names_bound(s, names@, port),
        LetBinding::Record { names, .. } => names_bound(s, names@, port),
        LetBinding::RecordDestruct { .. } => s,
    }
}

pub open spec fn names_bound(s: LowerState, names: Seq<String>, port: PortRef) -> LowerState {
    match node_of(s.nodes, port.node_id) {
        Some(n) => ports_bound(s, n.id, n.gate.io.outputs, names, names.len()),
        None => s,
    }
}

/// What a lowered right-hand side binds: the record left by a call of a mod
/// with several outputs, or the outputs of the chip called, or the value.
pub open spec fn result_bound(
    s: LowerState,
    d: LetDecl,
    ty: TypeView,
    port: PortRef,
) -> LowerState {
    if d.value is Call && s.inline_record is Some {
        record_bound(
            LowerState { inline_record: None, ..s },
            d.binding,
            s.inline_record->0,
        )
    } else {
        match (ty, owner_outputs(s.chips, port.node_id)) {
            (TypeView::Record(fields), Some(outputs)) => if d.value is Call {
                record_bound(s, d.binding, output_fields(fields, outputs, fields.len()))
            } else {
                value_bound(s, d.binding, port)
            },
            _ => value_bound(s, d.binding, port),
        }
    }
}

/// The right-hand side lowered and bound.
pub open spec fn value_let(run: Runs, s: LowerState, d: LetDecl, after: LowerState) -> bool {
    exists|mid: LowerState, p: PortRef| #[trigger]
        step(run, s, TaskView::Expr(d.value), mid, p) && after == result_bound(
            mid,
            d,
            mid.type_at(d.value.rng()@),
            p,
        )
}

/// A right-hand side that stands for a record in scope is that record; any
/// other one is lowered.
pub open spec fn chain_let(run: Runs, s: LowerState, d: LetDecl, after: LowerState) -> bool {
    match chain_binding(s, d.value) {
        Some(BindingView::Record(src)) => if takes_record(d.binding) {
            after == record_bound(s, d.binding, src)
        } else {
            value_let(run, s, d, after)
        },
        _ => value_let(run, s, d, after),
    }
}

/// Whether a `let` declares a local exec signal.
pub open spec fn is_signal(d: LetDecl) -> bool {
    match d.typ {
        Some(TypeExpr::Name { name, .. }) => name@ == "exec"@,
        _ => false,
    }
}

/// A local exec signal. One that was declared ahead, outside exec flow, stays.
pub open spec fn signal_let(s: LowerState, d: LetDecl) -> LowerState {
    match d.binding {
        LetBinding::Ident { name, .. } => if s.flow is None && s.signal(name@) is Some {
            s
        } else {
            hubbed(s, name@, d.range@)
        },
        _ => s,
    }
}

/// The effect of a `let`.
pub open spec fn let_lowered(run: Runs, s: LowerState, d: LetDecl, after: LowerState) -> bool {
    let s1 = LowerState { inline_record: None, ..s };
    if is_signal(d) {
        after == signal_let(s1, d)
    } else {
        match d.value {
            Expr::RecordLit { fields, .. } => exists|mid: LowerState, rec: Named<BindingView>|
                #![trigger such((mid, rec))]
                such((mid, rec)) && record_built(run, s1, fields@, fields@.len(), mid, rec)
                    && if takes_record(d.binding) {
                    after == record_bound(mid, d.binding, rec)
                } else {
                    chain_let(run, mid, d, after)
                },
            _ => chain_let(run, s1, d, after),
        }
    }
}

fn is_exec_signal(d: &LetDecl) -> (r: bool)
    ensures
        r == is_signal(*d),
{
    match &d.typ {
        Some(TypeExpr::Name { name, .. }) => str_eq(name.as_str(), "exec"),
        _ => false,
    }
}

fn contains_id(v: &Vec<NodeId>, id: NodeId) -> (r: bool)
    ensures
        r == v@.contains(id),
{
    let mut i: usize = 0;
    while i < v.len()
        invariant
            i <= v@.len(),
            forall|k: int| 0 <= k < i ==> v@[k] != id,
        decreases v.len() - i,
    {
        if v[i] == id {
            return true;
        }
        i += 1;
    }
    false
}

proof fn lemma_owner_prefix(chips: Seq<ChipOutputsView>, id: NodeId, n: int)
    requires
        0 <= n <= chips.len(),
        owner_outputs(chips.take(n), id) is Some,
    ensures
        owner_outputs(chips, id) == owner_outputs(chips.take(n), id),
    decreases chips.len(),
{
    if n == chips.len() {
        assert(chips.take(n) =~= chips);
    } else {
        assert(chips.drop_last().take(n) =~= chips.take(n));
        lemma_owner_prefix(chips.drop_last(), id, n);
    }
}

fn find_owner(chips: &Vec<ChipOutputs>, id: NodeId) -> (r: Option<usize>)
    ensures
        r is Some <==> owner_outputs(views(chips@), id) is Some,
        r matches Some(i) ==> i < chips@.len() && owner_outputs(views(chips@), id) == Some(
            chips@[i as int].outputs@,
        ),
{
    let ghost all = views(chips@);
    let mut i: usize = 0;
    assert(all.take(0) =~= Seq::empty());
    while i < chips.len()
        invariant
            all == views(chips@),
            i <= chips@.len(),
            owner_outputs(all.take(i as int), id) is None,
        decreases chips@.len() - i,
    {
        assert(all.take(i + 1).drop_last() =~= all.take(i as int));
        if contains_id(&chips[i].outputs, id) {
            proof {
                lemma_owner_prefix(all, id, i + 1);
            }
            return Some(i);
        }
        i += 1;
    }
    assert(all.take(i as int) =~= all);
    None
}

fn fields_of_outputs<'a>(fields: &Vec<(String, Type)>, outputs: &Vec<NodeId>) -> (r: Vec<
    (String, Binding<'a>),
>)
    ensures
        pairs(r@) == output_fields(
            crate::types::field_views(fields@),
            outputs@,
            fields@.len(),
        ),
{
    let mut record: Vec<(String, Binding<'a>)> = Vec::new();
    let mut i: usize = 0;
    assert(pairs(record@) =~= Seq::empty());
    while i < fields.len()
        invariant
            i <= fields@.len(),
            pairs(record@) == output_fields(
                crate::types::field_views(fields@),
                outputs@,
                i as nat,
            ),
        decreases fields.len() - i,
    {
        if i < outputs.len() {
            put_key(
                &mut record,
                fields[i].0.clone(),
                Binding::Local(LocalRecord { port: outputs[i].port(PortName::RerOutput) }),
            );
        }
        i += 1;
    }
    record
}

fn bind_names<'a>(ctx: &mut LowerCtx<'a>, names: &Vec<String>, port: PortRef)
    ensures
        final(ctx)@ == names_bound(old(ctx)@, names@, port),
{
    let mut outputs: Vec<PortName> = Vec::new();
    let id = match find_node(&ctx.nodes, port.node_id) {
        Some(k) => {
            let node = &ctx.nodes[k];
            let mut j: usize = 0;
            while j < node.gate.io.outputs.len()
                invariant
                    j <= node.gate.io.outputs@.len(),
                    outputs@.len() == j,
                    forall|m: int|
                        0 <= m < j ==> outputs@[m] == (#[trigger] node.gate.io.outputs@[m]).name,
                decreases node.gate.io.outputs@.len() - j,
            {
                outputs.push(node.gate.io.outputs[j].name);
                j += 1;
            }
            node.id
        },
        None => {
            return ;
        },
    };
    let ghost ports = node_of(ctx@.nodes, port.node_id)->0.gate.io.outputs;
    assert(outputs@.len() == ports.len());
    assert(forall|m: int| 0 <= m < outputs@.len() ==> outputs@[m] == (#[trigger] ports[m]).name);
    let mut i: usize = 0;
    while i < names.len()
        invariant
            i <= names@.len(),
            outputs@.len() == ports.len(),
            forall|m: int| 0 <= m < outputs@.len() ==> outputs@[m] == (#[trigger] ports[m]).name,
            ctx@ == ports_bound(old(ctx)@, id, ports, names@, i as nat),
        decreases names.len() - i,
    {
        if i < outputs.len() {
            assert(outputs@[i as int] == ports[i as int].name);
            ctx.bind_name(
                names[i].as_str(),
                Binding::Local(LocalRecord { port: id.port(outputs[i]) }),
            );
        }
        i += 1;
    }
}

fn bind_value<'a>(ctx: &mut LowerCtx<'a>, binding: &LetBinding, port: PortRef)
    ensures
        final(ctx)@ == value_bound(old(ctx)@, *binding, port),
{
    match binding {
        LetBinding::Ident { name, .. } => ctx.bind_name(
            name.as_str(),
            Binding::Local(LocalRecord { port }),
        ),
        LetBinding::Tuple { names, .. } => bind_names(ctx, names, port),
        LetBinding::Record { names, .. } => bind_names(ctx, names, port),
        LetBinding::RecordDestruct { .. } => {},
    }
}

/// Binds what a lowered right-hand side gives.
pub fn bind_result<'a>(ctx: &mut LowerCtx<'a>, d: &LetDecl, ty: &Type, port: PortRef)
    ensures
        final(ctx)@ == result_bound(old(ctx)@, *d, ty@, port),
{
    broadcast use crate::types::group_type_views;

    if let Expr::Call { .. } = &d.value {
        let mut pending: Option<Vec<(String, Binding<'a>)>> = None;
        std::mem::swap(&mut pending, &mut ctx.pending_inline_record);
        if let Some(record) = pending {
            bind_record(ctx, &d.binding, record);
            return ;
        }
        if let Type::Record(fields) = ty {
            if let Some(k) = find_owner(&ctx.chips, port.node_id) {
                let record = fields_of_outputs(fields, &ctx.chips[k].outputs);
                bind_record(ctx, &d.binding, record);
                return ;
            }
        }
    }
    bind_value(ctx, &d.binding, port);
}

fn is_record_pattern(binding: &LetBinding) -> (r: bool)
    ensures
        r == takes_record(*binding),
{
    match binding {
        LetBinding::Ident { .. } => true,
        LetBinding::RecordDestruct { .. } => true,
        _ => false,
    }
}

fn lower_chain_let<'a, F: Fn(LowerCtx<'a>, Task<'a>) -> (LowerCtx<'a>, PortRef)>(
    f: &F,
    ctx: &mut LowerCtx<'a>,
    d: &'a LetDecl,
)
    requires
        total(*f),
    ensures
        chain_let(runs(*f), old(ctx)@, *d, final(ctx)@),
{
    if let Some(Binding::Record(src)) = chain_cloned(ctx, &d.value) {
        if is_record_pattern(&d.binding) {
            bind_record(ctx, &d.binding, src);
            return ;
        }
    }
    let rhs_port = run_task(f, ctx, Task::Expr(&d.value));
    let rhs_type = ctx.type_of(&d.value);
    bind_result(ctx, d, &rhs_type, rhs_port);
}

pub fn lower_let_decl<'a, F: Fn(LowerCtx<'a>, Task<'a>) -> (LowerCtx<'a>, PortRef)>(
    f: &F,
    ctx: &mut LowerCtx<'a>,
    d: &'a LetDecl,
)
    requires
        total(*f),
    ensures
        let_lowered(runs(*f), old(ctx)@, *d, final(ctx)@),
{
    ctx.pending_inline_record = None;
    if is_exec_signal(d) {
        if let LetBinding::Ident { name, .. } = &d.binding {
            if ctx.current_exec.is_none() && ctx.signal_key(name.as_str()).is_some() {
                return ;
            }
            build_exec_signal_hub(ctx, name.as_str(), &d.range);
        }
        return ;
    }
    if let Expr::RecordLit { fields, .. } = &d.value {
        let record = lower_record_lit(f, ctx, fields);
        assert(such((ctx@, pairs(record@))));
        if is_record_pattern(&d.binding) {
            bind_record(ctx, &d.binding, record);
            return ;
        }
    }
    lower_chain_let(f, ctx, d);
}

// ---------- deprecated functions ----------

/// The parameters of a function as they are written.
pub open spec fn param_texts(params: Seq<Param>, n: nat) -> Seq<Seq<char>>
    decreases n,
{
    if n == 0 || n > params.len() {
        Seq::empty()
    } else {
        param_texts(params, (n - 1) as nat).push(
            params[n - 1].name@ + ": "@ + type_expr_text(params[n - 1].typ@),
        )
    }
}

/// The advice for a function that should be a mod.
pub open spec fn fn_message(f: FnDecl) -> Seq<char> {
    "'fn "@ + f.name@ + "' is deprecated — use 'mod "@ + f.name@ + "("@ + joined(
        param_texts(f.params@, f.params@.len()),
        ", "@,
    ) + ") -> "@ + match f.return_type {
        Some(t) => type_expr_text(t@),
        None => "auto"@,
    } + " { return <body> }'"@
}

fn fn_advice(f: &FnDecl) -> (r: String)
    ensures
        r@ == fn_message(*f),
{
    let mut parts: Vec<String> = Vec::new();
    let mut i: usize = 0;
    assert(texts(parts@) =~= Seq::empty());
    while i < f.params.len()
        invariant
            i <= f.params@.len(),
            texts(parts@) == param_texts(f.params@, i as nat),
        decreases f.params.len() - i,
    {
        let ghost before = parts@;
        let ty = type_expr_str(&f.params[i].typ);
        let part = cat3(f.params[i].name.as_str(), ": ", ty.as_str());
        parts.push(part);
        assert(texts(parts@) =~= texts(before).push(part@));
        i += 1;
    }
    let list = join(&parts, ", ");
    let ret = match &f.return_type {
        Some(t) => type_expr_str(t),
        None => owned("auto"),
    };
    let head = cat7(
        "'fn ",
        f.name.as_str(),
        "' is deprecated — use 'mod ",
        f.name.as_str(),
        "(",
        list.as_str(),
        ") -> ",
    );
    cat3(head.as_str(), ret.as_str(), " { return <body> }'")
}

/// The inline chip that a function stands for: its only output is the value
/// that its body returns.
pub open spec fn fn_chip(f: FnDeclView) -> ChipDeclView {
    ChipDeclView {
        name: f.name,
        inputs: f.params,
        outputs: match f.return_type {
            Some(typ) => seq![NamedOutputView { name: "_"@, typ, range: f.range }],
            None => Seq::empty(),
        },
        body: BlockView {
            stmts: seq![StmtView::Return { value: Some(f.body), range: f.range }],
            range: f.range,
        },
        range: f.range,
        inline: true,
        label: None,
        closed: false,
    }
}

fn chip_of_fn(f: &FnDecl) -> (r: ChipDecl)
    ensures
        r@ == fn_chip(f@),
{
    let mut outputs: Vec<NamedOutput> = Vec::new();
    if let Some(t) = &f.return_type {
        outputs.push(NamedOutput { name: owned("_"), typ: t.clone(), range: f.range.clone() });
    }
    let ghost outs = named_outputs_view(outputs@);
    assert(outs =~= fn_chip(f@).outputs);
    let mut stmts: Vec<Stmt> = Vec::new();
    stmts.push(Stmt::Return { value: Some(f.body.clone()), range: f.range.clone() });
    assert(stmts_view(stmts@) =~= fn_chip(f@).body.stmts);
    ChipDecl {
        name: f.name.clone(),
        inputs: clone_params(&f.params),
        outputs,
        body: Block { stmts, range: f.range.clone() },
        range: f.range.clone(),
        inline: true,
        label: None,
        closed: false,
    }
}

/// A function becomes an inline chip, with the advice to make it a mod.
pub open spec fn fn_lowered(s: LowerState, f: FnDecl) -> LowerState {
    s.reported(Severity::Warning, "WS015"@, fn_message(f), f.range@).with_binding(
        f.name@,
        BindingView::Chip(fn_chip(f@)),
    )
}

fn lower_fn_decl<'a>(ctx: &mut LowerCtx<'a>, f: &'a FnDecl)
    ensures
        final(ctx)@ == fn_lowered(old(ctx)@, *f),
{
    let msg = fn_advice(f);
    ctx.report(Severity::Warning, "WS015", msg, &f.range);
    ctx.bind_name(f.name.as_str(), Binding::Made(Box::new(chip_of_fn(f))));
}

// ---------- namespaces ----------

/// The chips of the first `n` members of a namespace.
pub open spec fn ns_members(decls: Seq<TopDecl>, n: nat) -> Named<ChipDecl>
    decreases n,
{
    if n == 0 || n > decls.len() {
        Seq::empty()
    } else {
        let before = ns_members(decls, (n - 1) as nat);
        match decls[n - 1] {
            TopDecl::Chip(c) => put(before, c.name@, c),
            _ => before,
        }
    }
}

/// A member of a namespace made known by its bare name, for the bodies of the
/// namespace's own mods. A name the importer uses already stays its.
pub open spec fn ns_member(run: Runs, s: LowerState, d: TopDecl, after: LowerState) -> bool {
    match d {
        TopDecl::Chip(c) => after == if s.binding(c.name@) is None {
            s.with_binding(c.name@, BindingView::Chip(c@))
        } else {
            s
        },
        TopDecl::Let(l) => let_lowered(run, s, l, after),
        TopDecl::Array(a) => after == if s.binding(a.name@) is None {
            array_decl_declared(s, a)
        } else {
            s
        },
        TopDecl::Var(v) => after == if s.binding(v.name@) is None {
            unbaked_warned(var_declared(s, v), v, true)
        } else {
            s
        },
        TopDecl::Buffer(b) => after == if s.binding(b.name@) is None {
            buffer_declared(s, b)
        } else {
            s
        },
        _ => after == s,
    }
}

/// Whether a member of a namespace is a buffer that its turn declares.
pub open spec fn declares_buffer(s: LowerState, d: TopDecl) -> bool {
    match d {
        TopDecl::Buffer(b) => s.binding(b.name@) is None,
        _ => false,
    }
}

/// The first `n` members of a namespace made known; `buffers` are the places
/// of the buffers that were declared.
pub open spec fn ns_declared(
    run: Runs,
    s: LowerState,
    decls: Seq<TopDecl>,
    n: nat,
    after: LowerState,
    buffers: Seq<int>,
) -> bool
    decreases n,
{
    if n == 0 || n > decls.len() {
        after == s && buffers == Seq::<int>::empty()
    } else {
        exists|mid: LowerState, before: Seq<int>|
            #![trigger such((mid, before))]
            such((mid, before)) && ns_declared(run, s, decls, (n - 1) as nat, mid, before)
                && ns_member(run, mid, decls[n - 1], after) && buffers == if declares_buffer(
                mid,
                decls[n - 1],
            ) {
                before.push(n - 1)
            } else {
                before
            }
    }
}

/// The initializers of the first `n` declared buffers wired.
pub open spec fn ns_buffers(
    run: Runs,
    s: LowerState,
    decls: Seq<TopDecl>,
    buffers: Seq<int>,
    n: nat,
    after: LowerState,
) -> bool
    decreases n,
{
    if n == 0 || n > buffers.len() {
        after == s
    } else {
        exists|mid: LowerState|
            #![trigger such(mid)]
            such(mid) && ns_buffers(run, s, decls, buffers, (n - 1) as nat, mid) && match decls[
            buffers[n - 1]] {
                TopDecl::Buffer(b) => buffer_lowered(run, mid, b, after),
                _ => after == mid,
            }
    }
}

/// The effect of a namespace: its members are made known, then its buffers are
/// wired, then its name stands for its chips.
pub open spec fn ns_lowered(run: Runs, s: LowerState, ns: NamespaceDecl, after: LowerState) -> bool {
    exists|s1: LowerState, buffers: Seq<int>, s2: LowerState|
        #![trigger such((s1, buffers, s2))]
        such((s1, buffers, s2)) && ns_declared(
            run,
            s,
            ns.decls@,
            ns.decls@.len(),
            s1,
            buffers,
        ) && ns_buffers(run, s1, ns.decls@, buffers, buffers.len(), s2) && after
            == s2.with_binding(
            ns.name@,
            BindingView::Namespace(ns_members(ns.decls@, ns.decls@.len())),
        )
}

/// Binds a member of a namespace to its chip.
fn put_member<'a>(list: &mut Vec<(String, &'a ChipDecl)>, c: &'a ChipDecl)
    ensures
        members(final(list)@) == put(members(old(list)@), c.name@, *c),
{
    let ghost all = members(list@);
    let mut i: usize = 0;
    while i < list.len()
        invariant
            *list == *old(list),
            all == members(list@),
            i <= list@.len(),
            slot(all.take(i as int), c.name@) == i,
        decreases list@.len() - i,
    {
        assert(all.take(i + 1).drop_last() =~= all.take(i as int));
        if str_eq(list[i].0.as_str(), c.name.as_str()) {
            proof {
                crate::lower::names::lemma_slot_prefix(all, c.name@, i + 1);
            }
            list.set(i, (c.name.clone(), c));
            assert(members(list@) =~= put(all, c.name@, *c));
            return ;
        }
        i += 1;
    }
    assert(all.take(i as int) =~= all);
    list.push((c.name.clone(), c));
    assert(members(list@) =~= put(all, c.name@, *c));
}

fn ns_chip_list<'a>(decls: &'a Vec<TopDecl>) -> (r: Vec<(String, &'a ChipDecl)>)
    ensures
        members(r@) == ns_members(decls@, decls@.len()),
{
    let mut list: Vec<(String, &'a ChipDecl)> = Vec::new();
    let mut i: usize = 0;
    assert(members(list@) =~= Seq::empty());
    while i < decls.len()
        invariant
            i <= decls@.len(),
            members(list@) == ns_members(decls@, i as nat),
        decreases decls.len() - i,
    {
        if let TopDecl::Chip(c) = &decls[i] {
            put_member(&mut list, c);
        }
        i += 1;
    }
    list
}

fn lower_ns_member<'a, F: Fn(LowerCtx<'a>, Task<'a>) -> (LowerCtx<'a>, PortRef)>(
    f: &F,
    ctx: &mut LowerCtx<'a>,
    d: &'a TopDecl,
) -> (r: bool)
    requires
        total(*f),
    ensures
        ns_member(runs(*f), old(ctx)@, *d, final(ctx)@),
        r == declares_buffer(old(ctx)@, *d),
{
    match d {
        TopDecl::Chip(c) => {
            if ctx.get(c.name.as_str()).is_none() {
                ctx.bind_name(c.name.as_str(), Binding::Chip(c));
            }
            false
        },
        TopDecl::Let(l) => {
            lower_let_decl(f, ctx, l);
            false
        },
        TopDecl::Array(a) => {
            if ctx.get(a.name.as_str()).is_none() {
                pre_declare_array(ctx, a);
            }
            false
        },
        TopDecl::Var(v) => {
            if ctx.get(v.name.as_str()).is_none() {
                pre_declare_var(ctx, v);
                warn_unbaked_var_init(ctx, v, true);
            }
            false
        },
        TopDecl::Buffer(b) => {
            if ctx.get(b.name.as_str()).is_none() {
                pre_declare_buffer(ctx, b);
                true
            } else {
                false
            }
        },
        _ => false,
    }
}

/// Places in a list as mathematical integers.
pub open spec fn places(v: Seq<usize>) -> Seq<int> {
    Seq::new(v.len(), |i: int| v[i] as int)
}

pub fn lower_namespace<'a, F: Fn(LowerCtx<'a>, Task<'a>) -> (LowerCtx<'a>, PortRef)>(
    f: &F,
    ctx: &mut LowerCtx<'a>,
    ns: &'a NamespaceDecl,
)
    requires
        total(*f),
    ensures
        ns_lowered(runs(*f), old(ctx)@, *ns, final(ctx)@),
{
    let ghost run = runs(*f);
    let mut buffers: Vec<usize> = Vec::new();
    let mut i: usize = 0;
    assert(places(buffers@) =~= Seq::empty());
    while i < ns.decls.len()
        invariant
            total(*f),
            run == runs(*f),
            i <= ns.decls@.len(),
            forall|k: int| 0 <= k < buffers@.len() ==> (#[trigger] buffers@[k]) < ns.decls@.len(),
            ns_declared(run, old(ctx)@, ns.decls@, i as nat, ctx@, places(buffers@)),
        decreases ns.decls.len() - i,
    {
        let ghost mid = ctx@;
        let ghost before = buffers@;
        if lower_ns_member(f, ctx, &ns.decls[i]) {
            buffers.push(i);
            assert(places(buffers@) =~= places(before).push(i as int));
        }
        assert(such((mid, places(before))));
        i += 1;
    }
    let ghost s1 = ctx@;
    let mut j: usize = 0;
    while j < buffers.len()
        invariant
            total(*f),
            run == runs(*f),
            j <= buffers@.len(),
            forall|k: int| 0 <= k < buffers@.len() ==> (#[trigger] buffers@[k]) < ns.decls@.len(),
            ns_buffers(run, s1, ns.decls@, places(buffers@), j as nat, ctx@),
        decreases buffers.len() - j,
    {
        let ghost mid = ctx@;
        if let TopDecl::Buffer(b) = &ns.decls[buffers[j]] {
            lower_buffer_body(f, ctx, b);
        }
        assert(such(mid));
        assert(places(buffers@)[j as int] == buffers@[j as int]);
        j += 1;
    }
    assert(such((s1, places(buffers@), ctx@)));
    let list = ns_chip_list(&ns.decls);
    ctx.bind_name(ns.name.as_str(), Binding::Namespace(list));
}

// ---------- declarations ----------

/// The effect of a top-level declaration that was pre-declared.
pub open spec fn decl_lowered(run: Runs, s: LowerState, d: TopDecl, after: LowerState) -> bool {
    match d {
        TopDecl::Out(b) => out_bound(run, s, b.name@, b.value, after),
        TopDecl::Handler(h) => exists|p: PortRef| #[trigger]
            step(run, s, TaskView::Handler(h), after, p),
        TopDecl::Event(e) => exists|p: PortRef| #[trigger]
            step(run, s, TaskView::Event(e), after, p),
        TopDecl::Let(l) => let_lowered(run, s, l, after),
        TopDecl::Buffer(b) => buffer_lowered(run, s, b, after),
        TopDecl::Var(v) => after == unbaked_warned(s, v, true),
        TopDecl::Chip(c) => after == s.with_binding(c.name@, BindingView::Chip(c@)),
        TopDecl::AnonChip(ac) => anon_chip_lowered(run, s, ac, after),
        TopDecl::Assign(a) => assigned(run, s, a, after),
        TopDecl::If(i) => if_lowered(run, s, i, after),
        TopDecl::ExprStmt(es) => exists|p: PortRef| #[trigger]
            step(run, s, TaskView::Expr(es.expr), after, p),
        TopDecl::Fn(f) => after == fn_lowered(s, f),
        TopDecl::Namespace(ns) => ns_lowered(run, s, ns, after),
        _ => after == s,
    }
}

pub fn lower_decl<'a, F: Fn(LowerCtx<'a>, Task<'a>) -> (LowerCtx<'a>, PortRef)>(
    f: &F,
    ctx: &mut LowerCtx<'a>,
    d: &'a TopDecl,
)
    requires
        total(*f),
    ensures
        decl_lowered(runs(*f), old(ctx)@, *d, final(ctx)@),
{
    match d {
        TopDecl::Out(b) => lower_out_binding(f, ctx, b.name.as_str(), &b.value),
        TopDecl::Handler(h) => {
            let _done = run_task(f, ctx, Task::Handler(h));
        },
        TopDecl::Event(e) => {
            let _done = run_task(f, ctx, Task::Event(e));
        },
        TopDecl::Let(l) => lower_let_decl(f, ctx, l),
        TopDecl::Buffer(b) => lower_buffer_body(f, ctx, b),
        TopDecl::Var(v) => warn_unbaked_var_init(ctx, v, true),
        TopDecl::Chip(c) => lower_chip_decl(ctx, c),
        TopDecl::AnonChip(ac) => lower_anon_chip(f, ctx, ac),
        TopDecl::Assign(a) => lower_assign(f, ctx, a),
        TopDecl::If(i) => lower_if(f, ctx, i),
        TopDecl::ExprStmt(es) => {
            let _value = run_task(f, ctx, Task::Expr(&es.expr));
        },
        TopDecl::Fn(func) => lower_fn_decl(ctx, func),
        TopDecl::Namespace(ns) => lower_namespace(f, ctx, ns),
        _ => {},
    }
}

} // verus!
