//! The wire graph: gates, their ports, and the wires between them.

use crate::assoc::{AssocMap, SameView};
use crate::diagnostic::{views, RangeView, SourceRange};
use crate::literal::{Literal, LiteralView};
use crate::types::{Type, TypeView};
use vstd::prelude::*;

verus! {

/// The number a node goes by.
#[derive(Clone, Copy, Debug, PartialEq, Eq, Structural)]
pub struct NodeId(pub u32);

/// The name of a port. Names that only gates of the catalog use are interned.
#[derive(Clone, Copy, Debug, PartialEq, Eq, Structural)]
pub enum PortName {
    Exec,
    ExecOut,
    ExecA,
    ExecB,
    ExecOutA,
    ExecOutB,
    BCond,
    Value,
    VarRef,
    ArrayVarRef,
    Input,
    Output,
    TicksToWait,
    ZeroTicksToWait,
    SecondsToWait,
    ZeroSecondsToWait,
    RerInput,
    RerOutput,
    Other(u32),
}

/// What a gate does. Classes that only the catalog names are interned.
#[derive(Clone, Copy, Debug, PartialEq, Eq, Structural)]
pub enum GateClass {
    Literal,
    VarSet,
    VarGet,
    VarIncrement,
    PseudoVar,
    PseudoArrayVar,
    Branch,
    Union,
    BufferTicks,
    BufferSeconds,
    MicrochipAlt,
    Rerouter,
    Other(u32),
}

/// A setting of a gate.
#[derive(Clone, Copy, Debug, PartialEq, Eq, Structural)]
pub enum Prop {
    Value,
    InitialValue,
    NameLabel,
    ChipClosed,
    DocText,
    RerouteSide,
    TicksToWait,
    ZeroTicksToWait,
    SecondsToWait,
    ZeroSecondsToWait,
    Other(u32),
}

impl View for Prop {
    type V = Prop;

    open spec fn view(&self) -> Prop {
        *self
    }
}

impl SameView for Prop {
    fn same(&self, other: &Prop) -> (r: bool) {
        *self == *other
    }
}

/// Why a gate that no source text asks for is there.
#[derive(Clone, Copy, Debug, PartialEq, Eq, Structural)]
pub enum Note {
    ReturnSet,
    BufferedEmit,
    PayloadStore,
    PayloadWrite,
    PayloadRead,
    AwaitArmed,
    EmitArms,
    Other(u32),
}

#[derive(Clone, Copy, Debug, PartialEq, Eq, Structural)]
pub enum NodeKind {
    Gate,
    Event,
    Input,
    Output,
    Chip,
}

/// A port of a node of the graph.
#[derive(Clone, Copy, Debug, PartialEq, Eq, Structural)]
pub struct PortRef {
    pub node_id: NodeId,
    pub port: PortName,
}

impl NodeId {
    pub open spec fn at(self, port: PortName) -> PortRef {
        PortRef { node_id: self, port }
    }

    /// One of the node's ports.
    pub fn port(self, port: PortName) -> (r: PortRef)
        ensures
            r == self.at(port),
    {
        PortRef { node_id: self, port }
    }
}

/// A connection, from an output port to an input port.
#[derive(Clone, Copy, Debug, PartialEq, Eq, Structural)]
pub struct Wire {
    pub source: PortRef,
    pub target: PortRef,
}

/// A port as a gate declares it.
#[derive(Debug)]
pub struct PortSpec {
    pub name: PortName,
    pub ty: Type,
}

pub struct PortView {
    pub name: PortName,
    pub ty: TypeView,
}

impl View for PortSpec {
    type V = PortView;

    open spec fn view(&self) -> PortView {
        PortView { name: self.name, ty: self.ty@ }
    }
}

/// The ports of a gate, in order.
#[derive(Debug)]
pub struct GateIO {
    pub inputs: Vec<PortSpec>,
    pub outputs: Vec<PortSpec>,
}

#[verifier::ext_equal]
pub struct IoView {
    pub inputs: Seq<PortView>,
    pub outputs: Seq<PortView>,
}

impl View for GateIO {
    type V = IoView;

    open spec fn view(&self) -> IoView {
        IoView { inputs: views(self.inputs@), outputs: views(self.outputs@) }
    }
}

/// A gate that is about to be placed.
#[derive(Debug)]
pub struct GateSpec {
    pub class: GateClass,
    pub range: SourceRange,
    pub props: AssocMap<Prop, Literal>,
    pub io: GateIO,
    pub note: Option<Note>,
}

#[verifier::ext_equal]
pub struct GateView {
    pub class: GateClass,
    pub range: RangeView,
    pub props: Map<Prop, LiteralView>,
    pub io: IoView,
    pub note: Option<Note>,
}

impl View for GateSpec {
    type V = GateView;

    open spec fn view(&self) -> GateView {
        GateView {
            class: self.class,
            range: self.range@,
            props: self.props@,
            io: self.io@,
            note: self.note,
        }
    }
}

/// A node of the graph.
#[derive(Debug)]
pub struct Node {
    pub id: NodeId,
    pub kind: NodeKind,
    pub gate: GateSpec,
    /// The chip whose grid the node is placed on, when that is not the module's.
    pub chip_id: Option<NodeId>,
    /// The exec chain the node belongs to.
    pub chain_id: Option<u32>,
    /// The source scope the node was made for.
    pub scope_id: u32,
}

#[verifier::ext_equal]
pub struct NodeView {
    pub id: NodeId,
    pub kind: NodeKind,
    pub gate: GateView,
    pub chip_id: Option<NodeId>,
    pub chain_id: Option<u32>,
    pub scope_id: u32,
}

impl View for Node {
    type V = NodeView;

    open spec fn view(&self) -> NodeView {
        NodeView {
            id: self.id,
            kind: self.kind,
            gate: self.gate@,
            chip_id: self.chip_id,
            chain_id: self.chain_id,
            scope_id: self.scope_id,
        }
    }
}

/// The place of the node `id`, or the number of nodes when there is none.
pub open spec fn place_of(nodes: Seq<NodeView>, id: NodeId) -> nat
    decreases nodes.len(),
{
    if nodes.len() == 0 {
        0
    } else if place_of(nodes.drop_last(), id) < nodes.len() - 1 {
        place_of(nodes.drop_last(), id)
    } else if nodes.last().id == id {
        (nodes.len() - 1) as nat
    } else {
        nodes.len()
    }
}

/// The node that goes by `id`.
pub open spec fn node_of(nodes: Seq<NodeView>, id: NodeId) -> Option<NodeView> {
    if place_of(nodes, id) < nodes.len() {
        Some(nodes[place_of(nodes, id) as int])
    } else {
        None
    }
}

/// What `place_of` says of the first nodes of a list it says of the list.
pub proof fn lemma_place_prefix(nodes: Seq<NodeView>, id: NodeId, n: int)
    requires
        0 <= n <= nodes.len(),
        place_of(nodes.take(n), id) < n,
    ensures
        place_of(nodes, id) == place_of(nodes.take(n), id),
    decreases nodes.len(),
{
    if n == nodes.len() {
        assert(nodes.take(n) =~= nodes);
    } else {
        assert(nodes.drop_last().take(n) =~= nodes.take(n));
        lemma_place_prefix(nodes.drop_last(), id, n);
    }
}

/// Where the node `id` stands, if it is there.
pub fn find_node(nodes: &Vec<Node>, id: NodeId) -> (r: Option<usize>)
    ensures
        r is Some <==> place_of(views(nodes@), id) < nodes@.len(),
        r matches Some(i) ==> i == place_of(views(nodes@), id) && i < nodes@.len(),
{
    let ghost all = views(nodes@);
    let mut i: usize = 0;
    while i < nodes.len()
        invariant
            all == views(nodes@),
            i <= nodes@.len(),
            place_of(all.take(i as int), id) == i,
        decreases nodes@.len() - i,
    {
        assert(all.take(i + 1).drop_last() =~= all.take(i as int));
        if nodes[i].id == id {
            proof {
                lemma_place_prefix(all, id, i + 1);
            }
            return Some(i);
        }
        i += 1;
    }
    assert(all.take(i as int) =~= all);
    None
}

/// The kind of source construct a scope stands for.
#[derive(Clone, Copy, Debug, PartialEq, Eq, Structural)]
pub enum ScopeKind {
    Module,
    Handler,
    Chip,
    Block,
    IfGroup,
    IfCond,
    IfThen,
    IfElse,
}

/// A scope of the source that layout keeps together.
#[derive(Debug)]
pub struct ScopeInfo {
    pub id: u32,
    pub kind: ScopeKind,
    pub range: SourceRange,
    pub parent: Option<u32>,
}

#[verifier::ext_equal]
pub struct ScopeView {
    pub id: u32,
    pub kind: ScopeKind,
    pub range: RangeView,
    pub parent: Option<u32>,
}

impl View for ScopeInfo {
    type V = ScopeView;

    open spec fn view(&self) -> ScopeView {
        ScopeView { id: self.id, kind: self.kind, range: self.range@, parent: self.parent }
    }
}

/// A chip placed in the module, with the output nodes of its grid in order.
#[derive(Debug)]
pub struct ChipOutputs {
    pub node_id: NodeId,
    pub outputs: Vec<NodeId>,
}

#[verifier::ext_equal]
pub struct ChipOutputsView {
    pub node_id: NodeId,
    pub outputs: Seq<NodeId>,
}

impl View for ChipOutputs {
    type V = ChipOutputsView;

    open spec fn view(&self) -> ChipOutputsView {
        ChipOutputsView { node_id: self.node_id, outputs: self.outputs@ }
    }
}

// ---------- the ports of the gates that lowering places ----------

pub open spec fn port_view(name: PortName, ty: TypeView) -> PortView {
    PortView { name, ty }
}

pub open spec fn ref_to(ty: TypeView) -> TypeView {
    TypeView::Ref(Box::new(ty))
}

/// A variable: its value and the reference that names it.
pub open spec fn var_io(ty: TypeView) -> IoView {
    IoView {
        inputs: Seq::empty(),
        outputs: seq![port_view(PortName::Value, ty), port_view(PortName::VarRef, ref_to(ty))],
    }
}

/// An array variable: the reference that names it.
pub open spec fn array_io(elem: TypeView) -> IoView {
    IoView {
        inputs: Seq::empty(),
        outputs: seq![
            port_view(PortName::ArrayVarRef, ref_to(TypeView::Array(Box::new(elem)))),
        ],
    }
}

/// A gate that writes a variable when it is run.
pub open spec fn write_io(ty: TypeView) -> IoView {
    IoView {
        inputs: seq![
            port_view(PortName::Exec, TypeView::Exec),
            port_view(PortName::VarRef, ref_to(ty)),
            port_view(PortName::Value, ty),
        ],
        outputs: seq![port_view(PortName::ExecOut, TypeView::Exec)],
    }
}

/// A gate that reads a variable when it is run.
pub open spec fn read_io(ty: TypeView) -> IoView {
    IoView {
        inputs: seq![
            port_view(PortName::Exec, TypeView::Exec),
            port_view(PortName::VarRef, ref_to(ty)),
        ],
        outputs: seq![
            port_view(PortName::Value, ty),
            port_view(PortName::ExecOut, TypeView::Exec),
        ],
    }
}

/// A constant.
pub open spec fn literal_io(ty: TypeView) -> IoView {
    IoView { inputs: Seq::empty(), outputs: seq![port_view(PortName::Output, ty)] }
}

/// A gate that goes one of two ways.
pub open spec fn branch_io() -> IoView {
    IoView {
        inputs: seq![
            port_view(PortName::Exec, TypeView::Exec),
            port_view(PortName::BCond, TypeView::Bool),
        ],
        outputs: seq![
            port_view(PortName::ExecOutA, TypeView::Exec),
            port_view(PortName::ExecOutB, TypeView::Exec),
        ],
    }
}

/// A gate that runs when either of two others does.
pub open spec fn union_io() -> IoView {
    IoView {
        inputs: seq![
            port_view(PortName::ExecA, TypeView::Exec),
            port_view(PortName::ExecB, TypeView::Exec),
        ],
        outputs: seq![port_view(PortName::ExecOut, TypeView::Exec)],
    }
}

/// A value that comes out some ticks after it went in.
pub open spec fn buffer_io(ty: TypeView) -> IoView {
    IoView {
        inputs: seq![
            port_view(PortName::Input, ty),
            port_view(PortName::TicksToWait, TypeView::Int),
        ],
        outputs: seq![port_view(PortName::Output, ty)],
    }
}

/// A port of a chip or module: what goes in comes out.
pub open spec fn rerouter_io(ty: TypeView) -> IoView {
    IoView {
        inputs: seq![port_view(PortName::RerInput, ty)],
        outputs: seq![port_view(PortName::RerOutput, ty)],
    }
}

pub open spec fn no_io() -> IoView {
    IoView { inputs: Seq::empty(), outputs: Seq::empty() }
}

pub fn port_spec(name: PortName, ty: Type) -> (r: PortSpec)
    ensures
        r@ == port_view(name, ty@),
{
    PortSpec { name, ty }
}

fn ref_type(ty: Type) -> (r: Type)
    ensures
        r@ == ref_to(ty@),
{
    Type::Ref(Box::new(ty))
}

fn ports1(a: PortSpec) -> (r: Vec<PortSpec>)
    ensures
        views(r@) == seq![a@],
{
    let r = vec![a];
    assert(views(r@) =~= seq![a@]);
    r
}

fn ports2(a: PortSpec, b: PortSpec) -> (r: Vec<PortSpec>)
    ensures
        views(r@) == seq![a@, b@],
{
    let r = vec![a, b];
    assert(views(r@) =~= seq![a@, b@]);
    r
}

fn ports3(a: PortSpec, b: PortSpec, c: PortSpec) -> (r: Vec<PortSpec>)
    ensures
        views(r@) == seq![a@, b@, c@],
{
    let r = vec![a, b, c];
    assert(views(r@) =~= seq![a@, b@, c@]);
    r
}

fn ports0() -> (r: Vec<PortSpec>)
    ensures
        views(r@) == Seq::<PortView>::empty(),
{
    let r: Vec<PortSpec> = Vec::new();
    assert(views(r@) =~= Seq::<PortView>::empty());
    r
}

pub fn io_of_var(ty: &Type) -> (r: GateIO)
    ensures
        r@ == var_io(ty@),
{
    GateIO {
        inputs: ports0(),
        outputs: ports2(
            port_spec(PortName::Value, ty.clone()),
            port_spec(PortName::VarRef, ref_type(ty.clone())),
        ),
    }
}

pub fn io_of_array(elem: &Type) -> (r: GateIO)
    ensures
        r@ == array_io(elem@),
{
    GateIO {
        inputs: ports0(),
        outputs: ports1(
            port_spec(PortName::ArrayVarRef, ref_type(Type::Array(Box::new(elem.clone())))),
        ),
    }
}

pub fn io_of_write(ty: &Type) -> (r: GateIO)
    ensures
        r@ == write_io(ty@),
{
    GateIO {
        inputs: ports3(
            port_spec(PortName::Exec, Type::Exec),
            port_spec(PortName::VarRef, ref_type(ty.clone())),
            port_spec(PortName::Value, ty.clone()),
        ),
        outputs: ports1(port_spec(PortName::ExecOut, Type::Exec)),
    }
}

pub fn io_of_read(ty: &Type) -> (r: GateIO)
    ensures
        r@ == read_io(ty@),
{
    GateIO {
        inputs: ports2(
            port_spec(PortName::Exec, Type::Exec),
            port_spec(PortName::VarRef, ref_type(ty.clone())),
        ),
        outputs: ports2(
            port_spec(PortName::Value, ty.clone()),
            port_spec(PortName::ExecOut, Type::Exec),
        ),
    }
}

pub fn io_of_literal(ty: &Type) -> (r: GateIO)
    ensures
        r@ == literal_io(ty@),
{
    GateIO { inputs: ports0(), outputs: ports1(port_spec(PortName::Output, ty.clone())) }
}

pub fn io_of_branch() -> (r: GateIO)
    ensures
        r@ == branch_io(),
{
    GateIO {
        inputs: ports2(
            port_spec(PortName::Exec, Type::Exec),
            port_spec(PortName::BCond, Type::Bool),
        ),
        outputs: ports2(
            port_spec(PortName::ExecOutA, Type::Exec),
            port_spec(PortName::ExecOutB, Type::Exec),
        ),
    }
}

pub fn io_of_union() -> (r: GateIO)
    ensures
        r@ == union_io(),
{
    GateIO {
        inputs: ports2(
            port_spec(PortName::ExecA, Type::Exec),
            port_spec(PortName::ExecB, Type::Exec),
        ),
        outputs: ports1(port_spec(PortName::ExecOut, Type::Exec)),
    }
}

pub fn io_of_buffer(ty: &Type) -> (r: GateIO)
    ensures
        r@ == buffer_io(ty@),
{
    GateIO {
        inputs: ports2(
            port_spec(PortName::Input, ty.clone()),
            port_spec(PortName::TicksToWait, Type::Int),
        ),
        outputs: ports1(port_spec(PortName::Output, ty.clone())),
    }
}

pub fn io_of_rerouter(ty: &Type) -> (r: GateIO)
    ensures
        r@ == rerouter_io(ty@),
{
    GateIO {
        inputs: ports1(port_spec(PortName::RerInput, ty.clone())),
        outputs: ports1(port_spec(PortName::RerOutput, ty.clone())),
    }
}

pub fn io_of_nothing() -> (r: GateIO)
    ensures
        r@ == no_io(),
{
    GateIO { inputs: ports0(), outputs: ports0() }
}

} // verus!
