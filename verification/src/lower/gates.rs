//! The gates that lowering places one after the other on an exec flow.

use crate::assoc::AssocMap;
use crate::diagnostic::{no_range, RangeView, SourceRange};
use crate::literal::{Literal, LiteralView};
use crate::lower::ctx::LowerCtx;
use crate::lower::graph::{
    branch_io, io_of_branch, io_of_literal, io_of_read, io_of_write, literal_io, read_io, write_io,
    GateClass, GateSpec, GateView, NodeId, Note, PortName, PortRef, Prop,
};
use crate::lower::predeclare::{make_union, union_gate};
use crate::lower::state::LowerState;
use crate::types::{Type, TypeView};
use vstd::prelude::*;

verus! {

/// A constant, as a gate.
pub open spec fn literal_gate(lit: LiteralView, ty: TypeView, range: RangeView) -> GateView {
    GateView {
        class: GateClass::Literal,
        range,
        props: Map::empty().insert(Prop::Value, lit),
        io: literal_io(ty),
        note: None,
    }
}

pub fn make_literal(lit: Literal, ty: &Type, range: SourceRange) -> (r: GateSpec)
    ensures
        r@ == literal_gate(lit@, ty@, range@),
{
    let mut props: AssocMap<Prop, Literal> = AssocMap::new();
    props.insert(Prop::Value, lit);
    GateSpec { class: GateClass::Literal, range, props, io: io_of_literal(ty), note: None }
}

/// A gate that writes a variable.
pub open spec fn write_gate(
    class: GateClass,
    ty: TypeView,
    range: RangeView,
    note: Option<Note>,
) -> GateView {
    GateView { class, range, props: Map::empty(), io: write_io(ty), note }
}

/// A variable written on the flow from `flow`, which goes on after the write.
/// The write takes `value` from where it is when the write runs.
pub open spec fn written(
    s: LowerState,
    flow: PortRef,
    var: NodeId,
    value: PortRef,
    gate: GateView,
) -> LowerState {
    let id = s.fresh();
    s.with_gate(gate).wired(flow, id.at(PortName::Exec)).wired(
        var.at(PortName::VarRef),
        id.at(PortName::VarRef),
    ).wired(value, id.at(PortName::Value)).with_flow(Some(id.at(PortName::ExecOut)))
}

pub fn write_var<'a>(
    ctx: &mut LowerCtx<'a>,
    flow: PortRef,
    var: NodeId,
    value: PortRef,
    class: GateClass,
    ty: &Type,
    range: SourceRange,
    note: Option<Note>,
)
    ensures
        final(ctx)@ == written(
            old(ctx)@,
            flow,
            var,
            value,
            write_gate(class, ty@, range@, note),
        ),
{
    let gate = GateSpec { class, range, props: AssocMap::new(), io: io_of_write(ty), note };
    assert(gate@ == write_gate(class, ty@, range@, note));
    let id = ctx.add_gate(gate);
    ctx.connect(flow, id.port(PortName::Exec));
    ctx.connect(var.port(PortName::VarRef), id.port(PortName::VarRef));
    ctx.connect(value, id.port(PortName::Value));
    ctx.current_exec = Some(id.port(PortName::ExecOut));
}

/// A gate that reads a variable.
pub open spec fn read_gate(ty: TypeView, range: RangeView, note: Option<Note>) -> GateView {
    GateView { class: GateClass::VarGet, range, props: Map::empty(), io: read_io(ty), note }
}

pub fn make_read(ty: &Type, range: SourceRange, note: Option<Note>) -> (r: GateSpec)
    ensures
        r@ == read_gate(ty@, range@, note),
{
    GateSpec {
        class: GateClass::VarGet,
        range,
        props: AssocMap::new(),
        io: io_of_read(ty),
        note,
    }
}

/// A gate that goes one of two ways.
pub open spec fn branch_gate(range: RangeView) -> GateView {
    GateView {
        class: GateClass::Branch,
        range,
        props: Map::empty(),
        io: branch_io(),
        note: None,
    }
}

pub fn make_branch(range: SourceRange) -> (r: GateSpec)
    ensures
        r@ == branch_gate(range@),
{
    GateSpec {
        class: GateClass::Branch,
        range,
        props: AssocMap::new(),
        io: io_of_branch(),
        note: None,
    }
}

/// A payload written on the current flow, if there is one.
pub open spec fn payload_set(s: LowerState, var: NodeId, value: PortRef, ty: TypeView) -> LowerState {
    match s.flow {
        Some(flow) => written(
            s,
            flow,
            var,
            value,
            write_gate(GateClass::VarSet, ty, no_range(), Some(Note::PayloadWrite)),
        ),
        None => s,
    }
}

/// Writes a variable on the current flow, which goes on after the write.
pub fn chain_var_set<'a>(ctx: &mut LowerCtx<'a>, var: NodeId, value_port: PortRef, ty: &Type)
    ensures
        final(ctx)@ == payload_set(old(ctx)@, var, value_port, ty@),
{
    let flow = match ctx.current_exec {
        Some(flow) => flow,
        None => {
            return ;
        },
    };
    write_var(
        ctx,
        flow,
        var,
        value_port,
        GateClass::VarSet,
        ty,
        SourceRange::default(),
        Some(Note::PayloadWrite),
    );
}

/// A payload read on the current flow; its value is at the new node.
pub open spec fn payload_got(s: LowerState, var: NodeId, ty: TypeView) -> LowerState {
    let id = s.fresh();
    let s1 = s.with_gate(read_gate(ty, no_range(), Some(Note::PayloadRead)));
    let s2 = match s.flow {
        Some(flow) => s1.wired(flow, id.at(PortName::Exec)).with_flow(
            Some(id.at(PortName::ExecOut)),
        ),
        None => s1,
    };
    s2.wired(var.at(PortName::VarRef), id.at(PortName::VarRef))
}

/// Reads a variable on the current flow, which goes on after the read.
pub fn chain_var_get<'a>(ctx: &mut LowerCtx<'a>, var: NodeId, ty: &Type) -> (r: PortRef)
    ensures
        final(ctx)@ == payload_got(old(ctx)@, var, ty@),
        r == old(ctx)@.fresh().at(PortName::Value),
{
    let flow = ctx.current_exec;
    let id = ctx.add_gate(make_read(ty, SourceRange::default(), Some(Note::PayloadRead)));
    if let Some(e) = flow {
        ctx.connect(e, id.port(PortName::Exec));
        ctx.current_exec = Some(id.port(PortName::ExecOut));
    }
    ctx.connect(var.port(PortName::VarRef), id.port(PortName::VarRef));
    id.port(PortName::Value)
}

/// The first `n` of some exec ports joined by a chain of union gates: the
/// state, and the port that runs when any of them does.
pub open spec fn joined_ports(s: LowerState, ports: Seq<PortRef>, n: nat) -> (LowerState, PortRef)
    decreases n,
{
    if n <= 1 {
        (s, ports[0])
    } else {
        let (s1, current) = joined_ports(s, ports, (n - 1) as nat);
        let id = s1.fresh();
        (
            s1.with_gate(union_gate(no_range())).wired(current, id.at(PortName::ExecA)).wired(
                ports[n - 1],
                id.at(PortName::ExecB),
            ),
            id.at(PortName::ExecOut),
        )
    }
}

pub fn build_exec_union<'a>(ctx: &mut LowerCtx<'a>, ports: &Vec<PortRef>) -> (r: PortRef)
    requires
        ports@.len() > 0,
    ensures
        (final(ctx)@, r) == joined_ports(old(ctx)@, ports@, ports@.len()),
{
    let mut current = ports[0];
    let mut i: usize = 1;
    while i < ports.len()
        invariant
            1 <= i <= ports@.len(),
            (ctx@, current) == joined_ports(old(ctx)@, ports@, i as nat),
        decreases ports.len() - i,
    {
        let union = ctx.add_gate(make_union(SourceRange::default()));
        ctx.connect(current, union.port(PortName::ExecA));
        ctx.connect(ports[i], union.port(PortName::ExecB));
        current = union.port(PortName::ExecOut);
        i += 1;
    }
    current
}

/// A gate that sets an armed flag, with the constant it writes; nothing runs it
/// yet. Its id is the one after that of the constant.
pub open spec fn arm_placed(s: LowerState, armed_var: NodeId) -> LowerState {
    let lit = s.fresh();
    let s1 = s.with_gate(literal_gate(LiteralView::Bool(true), TypeView::Bool, no_range()));
    let set = s1.fresh();
    s1.with_gate(
        write_gate(GateClass::VarSet, TypeView::Bool, no_range(), Some(Note::EmitArms)),
    ).wired(armed_var.at(PortName::VarRef), set.at(PortName::VarRef)).wired(
        lit.at(PortName::Output),
        set.at(PortName::Value),
    )
}

/// The node of the write that [`arm_placed`] places.
pub open spec fn arm_node(s: LowerState) -> NodeId {
    s.with_gate(literal_gate(LiteralView::Bool(true), TypeView::Bool, no_range())).fresh()
}

pub fn build_arm_set<'a>(ctx: &mut LowerCtx<'a>, armed_var: NodeId) -> (r: NodeId)
    ensures
        final(ctx)@ == arm_placed(old(ctx)@, armed_var),
        r == arm_node(old(ctx)@),
{
    let lit = ctx.add_gate(make_literal(Literal::Bool(true), &Type::Bool, SourceRange::default()));
    let gate = GateSpec {
        class: GateClass::VarSet,
        range: SourceRange::default(),
        props: AssocMap::new(),
        io: io_of_write(&Type::Bool),
        note: Some(Note::EmitArms),
    };
    assert(gate@ == write_gate(
        GateClass::VarSet,
        TypeView::Bool,
        no_range(),
        Some(Note::EmitArms),
    ));
    let set = ctx.add_gate(gate);
    ctx.connect(armed_var.port(PortName::VarRef), set.port(PortName::VarRef));
    ctx.connect(lit.port(PortName::Output), set.port(PortName::Value));
    set
}

} // verus!
