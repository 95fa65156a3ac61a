//! What names stand for while a module is lowered, and the state of lowering.

use crate::ast::{Callback, ChipDecl};
use crate::ast_view::ChipDeclView;
use crate::catalog::OpRuleView;
use crate::diagnostic::{DiagnosticView, RangeView, Severity};
use crate::literal::LiteralView;
use crate::lower::graph::{
    place_of, ChipOutputsView, GateView, NodeId, NodeKind, NodeView, PortRef, Prop, ScopeKind,
    ScopeView, Wire,
};
use crate::lower::names::{at, pairs, put, Named};
use crate::text::cat2;
use crate::types::{Type, TypeView};
use vstd::prelude::*;

verus! {

impl View for NodeId {
    type V = NodeId;

    open spec fn view(&self) -> NodeId {
        *self
    }
}

#[derive(Clone, Copy, Debug, PartialEq, Eq, Structural)]
pub enum VarStorage {
    Var,
    Buffer,
    Array,
}

#[derive(Debug)]
pub struct VarRecord {
    pub node_id: NodeId,
    pub inner_type: Type,
    /// What reads the variable on the current chain, once there is one.
    pub get_node_for_handler: Option<NodeId>,
    pub storage: VarStorage,
}

pub struct VarView {
    pub node_id: NodeId,
    pub inner_type: TypeView,
    pub get_node_for_handler: Option<NodeId>,
    pub storage: VarStorage,
}

impl View for VarRecord {
    type V = VarView;

    open spec fn view(&self) -> VarView {
        VarView {
            node_id: self.node_id,
            inner_type: self.inner_type@,
            get_node_for_handler: self.get_node_for_handler,
            storage: self.storage,
        }
    }
}

impl Clone for VarRecord {
    fn clone(&self) -> (r: VarRecord)
        ensures
            r@ == self@,
    {
        VarRecord {
            node_id: self.node_id,
            inner_type: self.inner_type.clone(),
            get_node_for_handler: self.get_node_for_handler,
            storage: self.storage,
        }
    }
}

#[derive(Debug)]
pub struct NodeRecord {
    pub node_id: NodeId,
    pub ty: Type,
}

pub struct NodeRecordView {
    pub node_id: NodeId,
    pub ty: TypeView,
}

impl View for NodeRecord {
    type V = NodeRecordView;

    open spec fn view(&self) -> NodeRecordView {
        NodeRecordView { node_id: self.node_id, ty: self.ty@ }
    }
}

impl Clone for NodeRecord {
    fn clone(&self) -> (r: NodeRecord)
        ensures
            r@ == self@,
    {
        NodeRecord { node_id: self.node_id, ty: self.ty.clone() }
    }
}

#[derive(Clone, Copy, Debug, PartialEq, Eq, Structural)]
pub struct LocalRecord {
    pub port: PortRef,
}

/// What a name stands for.
#[derive(Debug)]
pub enum Binding<'a> {
    Var(VarRecord),
    Local(LocalRecord),
    Buffer(NodeRecord),
    Input(NodeRecord),
    Output(NodeRecord),
    EventParam(PortRef),
    Chip(&'a ChipDecl),
    /// A chip that no declaration holds: the one that an expression-bodied `fn`
    /// is turned into.
    Made(Box<ChipDecl>),
    Namespace(Vec<(String, &'a ChipDecl)>),
    Record(Vec<(String, Binding<'a>)>),
}

/// What a name stands for, as a mathematical value.
pub enum BindingView {
    Var(VarView),
    Local(PortRef),
    Buffer(NodeRecordView),
    Input(NodeRecordView),
    Output(NodeRecordView),
    EventParam(PortRef),
    Chip(ChipDeclView),
    Namespace(Named<ChipDecl>),
    Record(Named<BindingView>),
}

/// The members of a namespace.
pub open spec fn members(v: Seq<(String, &ChipDecl)>) -> Named<ChipDecl> {
    Seq::new(v.len(), |i: int| (v[i].0@, *v[i].1))
}

impl<'a> Binding<'a> {
    pub open spec fn model(self) -> BindingView
        decreases self,
    {
        match self {
            Binding::Var(v) => BindingView::Var(v@),
            Binding::Local(l) => BindingView::Local(l.port),
            Binding::Buffer(n) => BindingView::Buffer(n@),
            Binding::Input(n) => BindingView::Input(n@),
            Binding::Output(n) => BindingView::Output(n@),
            Binding::EventParam(p) => BindingView::EventParam(p),
            Binding::Chip(c) => BindingView::Chip(c@),
            Binding::Made(c) => BindingView::Chip(c@),
            Binding::Namespace(m) => BindingView::Namespace(members(m@)),
            Binding::Record(fields) => BindingView::Record(
                Seq::new(
                    fields@.len(),
                    |i: int|
                        if 0 <= i < fields@.len() {
                            (fields@[i].0@, fields@[i].1.model())
                        } else {
                            (Seq::empty(), BindingView::EventParam(arbitrary()))
                        },
                ),
            ),
        }
    }
}

impl<'a> View for Binding<'a> {
    type V = BindingView;

    open spec fn view(&self) -> BindingView {
        self.model()
    }
}

/// A record is seen as the list of its fields.
pub broadcast proof fn lemma_record_binding<'a>(v: Vec<(String, Binding<'a>)>)
    ensures
        #[trigger] Binding::Record(v).model() == BindingView::Record(pairs(v@)),
{
    let a = match Binding::Record(v).model() {
        BindingView::Record(f) => f,
        _ => Seq::empty(),
    };
    assert(a =~= pairs(v@));
}

impl<'a> Clone for Binding<'a> {
    fn clone(&self) -> (r: Binding<'a>)
        ensures
            r@ == self@,
        decreases self,
    {
        broadcast use lemma_record_binding;

        match self {
            Binding::Var(v) => Binding::Var(v.clone()),
            Binding::Local(l) => Binding::Local(*l),
            Binding::Buffer(n) => Binding::Buffer(n.clone()),
            Binding::Input(n) => Binding::Input(n.clone()),
            Binding::Output(n) => Binding::Output(n.clone()),
            Binding::EventParam(p) => Binding::EventParam(*p),
            Binding::Chip(c) => Binding::Chip(*c),
            Binding::Made(c) => Binding::Made(Box::new((&**c).clone())),
            Binding::Namespace(m) => {
                let mut out: Vec<(String, &'a ChipDecl)> = Vec::new();
                let mut i: usize = 0;
                while i < m.len()
                    invariant
                        i <= m@.len(),
                        members(out@) == members(m@).take(i as int),
                    decreases m.len() - i,
                {
                    let ghost before = out@;
                    out.push((m[i].0.clone(), m[i].1));
                    assert(members(out@) =~= members(before).push(members(m@)[i as int]));
                    i += 1;
                    assert(members(out@) =~= members(m@).take(i as int));
                }
                assert(members(m@).take(i as int) =~= members(m@));
                Binding::Namespace(out)
            },
            Binding::Record(fields) => {
                let mut out: Vec<(String, Binding<'a>)> = Vec::new();
                let mut i: usize = 0;
                while i < fields.len()
                    invariant
                        i <= fields@.len(),
                        out@.len() == i,
                        forall|k: int|
                            0 <= k < i ==> (#[trigger] out@[k]).0@ == fields@[k].0@ && out@[k].1@
                                == fields@[k].1@,
                        forall|k: int| 0 <= k < fields@.len() ==> decreases_to!(self => fields@[k].1),
                    decreases fields.len() - i,
                {
                    out.push((fields[i].0.clone(), fields[i].1.clone()));
                    i += 1;
                }
                assert(pairs(out@) =~= pairs(fields@));
                Binding::Record(out)
            },
        }
    }
}

/// A copy of the fields of a record.
pub fn clone_fields<'a>(fields: &Vec<(String, Binding<'a>)>) -> (r: Vec<(String, Binding<'a>)>)
    ensures
        pairs(r@) == pairs(fields@),
{
    let mut out: Vec<(String, Binding<'a>)> = Vec::new();
    let mut i: usize = 0;
    while i < fields.len()
        invariant
            i <= fields@.len(),
            pairs(out@) == pairs(fields@).take(i as int),
        decreases fields.len() - i,
    {
        let ghost before = out@;
        out.push((fields[i].0.clone(), fields[i].1.clone()));
        assert(pairs(out@) =~= pairs(before).push(pairs(fields@)[i as int]));
        i += 1;
        assert(pairs(out@) =~= pairs(fields@).take(i as int));
    }
    assert(pairs(fields@).take(i as int) =~= pairs(fields@));
    out
}

// ---------- scopes ----------

/// What opened a scope frame.
#[derive(Clone, Copy, Debug, PartialEq, Eq, Structural)]
pub enum ScopeTag {
    Module,
    Block,
}

/// A scope frame: what opened it and the names it binds.
#[derive(Debug)]
pub struct Frame<'a> {
    pub tag: ScopeTag,
    pub names: Vec<(String, Binding<'a>)>,
}

#[verifier::ext_equal]
pub struct FrameView {
    pub tag: ScopeTag,
    pub names: Named<BindingView>,
}

impl<'a> View for Frame<'a> {
    type V = FrameView;

    open spec fn view(&self) -> FrameView {
        FrameView { tag: self.tag, names: pairs(self.names@) }
    }
}

pub type Frames = Seq<FrameView>;

/// What `name` stands for: the innermost frame that binds it decides.
pub open spec fn bound(frames: Frames, name: Seq<char>) -> Option<BindingView>
    decreases frames.len(),
{
    if frames.len() == 0 {
        None
    } else {
        match at(frames.last().names, name) {
            Some(b) => Some(b),
            None => bound(frames.drop_last(), name),
        }
    }
}

/// The frames with `name` bound in the innermost one.
pub open spec fn bind(frames: Frames, name: Seq<char>, b: BindingView) -> Frames {
    if frames.len() == 0 {
        seq![FrameView { tag: ScopeTag::Module, names: put(Seq::empty(), name, b) }]
    } else {
        frames.drop_last().push(
            FrameView {
                tag: frames.last().tag,
                names: put(frames.last().names, name, b),
            },
        )
    }
}

/// The frames with `name` bound anew where it is bound; unchanged where it is
/// not bound.
pub open spec fn rebound(frames: Frames, name: Seq<char>, b: BindingView) -> Frames
    decreases frames.len(),
{
    if frames.len() == 0 {
        frames
    } else if at(frames.last().names, name) is Some {
        bind(frames, name, b)
    } else {
        rebound(frames.drop_last(), name, b).push(frames.last())
    }
}

/// Binding a name anew changes the innermost frame that binds it.
pub proof fn lemma_rebound(frames: Frames, name: Seq<char>, i: int, b: BindingView)
    requires
        0 <= i < frames.len(),
        at(frames[i].names, name) is Some,
        forall|k: int| i < k < frames.len() ==> at((#[trigger] frames[k]).names, name) is None,
    ensures
        rebound(frames, name, b) == frames.update(
            i,
            FrameView { tag: frames[i].tag, names: put(frames[i].names, name, b) },
        ),
    decreases frames.len(),
{
    if i < frames.len() - 1 {
        lemma_rebound(frames.drop_last(), name, i, b);
    }
    assert(rebound(frames, name, b) =~= frames.update(
        i,
        FrameView { tag: frames[i].tag, names: put(frames[i].names, name, b) },
    ));
}

/// The frames without the innermost one.
pub open spec fn closed_frame(frames: Frames) -> Frames {
    if frames.len() == 0 {
        frames
    } else {
        frames.drop_last()
    }
}

/// The number of outputs among some names.
pub open spec fn outputs_among(names: Named<BindingView>) -> nat
    decreases names.len(),
{
    if names.len() == 0 {
        0
    } else {
        outputs_among(names.drop_last()) + if names.last().1 is Output {
            1nat
        } else {
            0nat
        }
    }
}

/// The first output among some names.
pub open spec fn first_among(names: Named<BindingView>) -> Option<NodeRecordView>
    decreases names.len(),
{
    if names.len() == 0 {
        None
    } else {
        match first_among(names.drop_last()) {
            Some(r) => Some(r),
            None => match names.last().1 {
                BindingView::Output(r) => Some(r),
                _ => None,
            },
        }
    }
}

/// The number of outputs of the module being lowered: those of the frames up
/// to the innermost module frame.
pub open spec fn module_outputs(frames: Frames) -> nat
    decreases frames.len(),
{
    if frames.len() == 0 {
        0
    } else {
        outputs_among(frames.last().names) + if frames.last().tag is Module {
            0nat
        } else {
            module_outputs(frames.drop_last())
        }
    }
}

/// The first output of the module being lowered, innermost frame first.
pub open spec fn first_module_output(frames: Frames) -> Option<NodeRecordView>
    decreases frames.len(),
{
    if frames.len() == 0 {
        None
    } else {
        match first_among(frames.last().names) {
            Some(r) => Some(r),
            None => if frames.last().tag is Module {
                None
            } else {
                first_module_output(frames.drop_last())
            },
        }
    }
}

/// A binding whose cached reads are dropped: all of them, or those of the
/// variable `only`.
pub open spec fn uncached(b: BindingView, only: Option<NodeId>) -> BindingView
    decreases b,
{
    match b {
        BindingView::Var(v) => if only == None::<NodeId> || only == Some(v.node_id) {
            BindingView::Var(VarView { get_node_for_handler: None, ..v })
        } else {
            b
        },
        BindingView::Record(fields) => BindingView::Record(
            Seq::new(
                fields.len(),
                |i: int|
                    if 0 <= i < fields.len() {
                        (fields[i].0, uncached(fields[i].1, only))
                    } else {
                        fields[i]
                    },
            ),
        ),
        _ => b,
    }
}

/// Named bindings whose cached reads are dropped.
pub open spec fn uncached_names(names: Named<BindingView>, only: Option<NodeId>) -> Named<
    BindingView,
> {
    Seq::new(names.len(), |i: int| (names[i].0, uncached(names[i].1, only)))
}

/// Frames whose cached reads are dropped.
pub open spec fn uncached_frames(frames: Frames, only: Option<NodeId>) -> Frames {
    Seq::new(
        frames.len(),
        |i: int|
            FrameView { tag: frames[i].tag, names: uncached_names(frames[i].names, only) },
    )
}

/// Scope key for an output. Outputs share scope frames with value bindings,
/// but live under a key no identifier can collide with, so that `out X = X`
/// can still read a variable named `X`.
pub open spec fn output_key(name: Seq<char>) -> Seq<char> {
    "out:"@ + name
}

pub fn output_scope_key(name: &str) -> (r: String)
    ensures
        r@ == output_key(name@),
{
    cat2("out:", name)
}

/// Distinct outputs have distinct scope keys, and no key is an identifier.
pub proof fn output_keys_apart(a: Seq<char>, b: Seq<char>)
    ensures
        output_key(a) == output_key(b) ==> a == b,
        output_key(a).contains(':'),
{
    reveal_strlit("out:");
    let k = "out:"@;
    assert((k + a)[3] == ':');
    if k + a == k + b {
        assert(a =~= (k + a).skip(4));
        assert(b =~= (k + b).skip(4));
    }
}

// ---------- signals ----------

/// An emit that waits to be wired, with the exec chain it was made on.
#[derive(Clone, Copy, Debug, PartialEq, Eq, Structural)]
pub struct PendingEmit {
    pub source: PortRef,
    pub chain: Option<u32>,
}

/// An unconditional `await` of a signal: the variable that holds its armed
/// flag, and the chain it sits on.
#[derive(Clone, Copy, Debug, PartialEq, Eq, Structural)]
pub struct SignalAwait {
    pub armed: NodeId,
    pub chain: Option<u32>,
}

impl View for SignalAwait {
    type V = SignalAwait;

    open spec fn view(&self) -> SignalAwait {
        *self
    }
}

/// A hidden variable that carries one field of a signal's payload. A payload
/// that is no record has one, with the empty field name.
#[derive(Debug)]
pub struct PayloadSlot {
    pub store: NodeId,
    pub ty: Type,
}

pub struct PayloadView {
    pub store: NodeId,
    pub ty: TypeView,
}

impl View for PayloadSlot {
    type V = PayloadView;

    open spec fn view(&self) -> PayloadView {
        PayloadView { store: self.store, ty: self.ty@ }
    }
}

/// The payload of a signal, by field.
#[derive(Debug)]
pub struct Payload {
    pub slots: Vec<(String, PayloadSlot)>,
}

impl View for Payload {
    type V = Named<PayloadView>;

    open spec fn view(&self) -> Named<PayloadView> {
        pairs(self.slots@)
    }
}

/// The callbacks of one name, in source order.
#[derive(Debug)]
pub struct CallbackList<'a> {
    pub list: Vec<&'a Callback>,
}

impl<'a> View for CallbackList<'a> {
    type V = Seq<Callback>;

    open spec fn view(&self) -> Seq<Callback> {
        Seq::new(self.list@.len(), |i: int| *self.list@[i])
    }
}

/// The key noted for a hub, the latest one if there are several.
pub open spec fn hub_key(keys: Seq<(NodeId, Seq<char>)>, hub: NodeId) -> Option<Seq<char>>
    decreases keys.len(),
{
    if keys.len() == 0 {
        None
    } else if keys.last().0 == hub {
        Some(keys.last().1)
    } else {
        hub_key(keys.drop_last(), hub)
    }
}

// ---------- the state of lowering ----------

/// The state of lowering as a mathematical value.
#[verifier::ext_equal]
pub struct LowerState {
    pub nodes: Seq<NodeView>,
    pub wires: Seq<Wire>,
    pub chips: Seq<ChipOutputsView>,
    pub scopes: Seq<ScopeView>,
    pub scope: u32,
    pub chain: Option<u32>,
    pub next_node: u32,
    pub next_chain: u32,
    pub next_scope: u32,
    pub diags: Seq<DiagnosticView>,
    pub types: Map<(Seq<char>, usize, usize), TypeView>,
    pub ops: Map<(Seq<char>, usize, usize), OpRuleView>,
    pub docs: Map<usize, Seq<char>>,
    pub frames: Frames,
    pub flow: Option<PortRef>,
    pub return_flow: Option<PortRef>,
    pub return_var: Option<VarView>,
    pub armed: Option<PortRef>,
    pub anon_chip: Option<NodeId>,
    pub depth: usize,
    pub pending: Named<Seq<PendingEmit>>,
    pub hubs: Named<NodeId>,
    pub hub_keys: Seq<(NodeId, Seq<char>)>,
    pub awaits: Named<SignalAwait>,
    pub payloads: Named<Named<PayloadView>>,
    pub inline_record: Option<Named<BindingView>>,
    pub return_record: Option<Named<BindingView>>,
    pub root: bool,
    pub callbacks: Named<Seq<Callback>>,
}

/// The number after `n`, starting over after the largest.
pub open spec fn next_of(n: u32) -> u32 {
    if n == u32::MAX {
        0
    } else {
        (n + 1) as u32
    }
}

impl LowerState {
    /// The id of the next node.
    pub open spec fn fresh(self) -> NodeId {
        NodeId(self.next_node)
    }

    /// A node placed in the graph.
    pub open spec fn with_node(self, kind: NodeKind, gate: GateView, chip: Option<NodeId>) -> LowerState {
        LowerState {
            nodes: self.nodes.push(
                NodeView {
                    id: self.fresh(),
                    kind,
                    gate,
                    chip_id: chip,
                    chain_id: self.chain,
                    scope_id: self.scope,
                },
            ),
            next_node: next_of(self.next_node),
            ..self
        }
    }

    /// A gate placed on the current chip.
    pub open spec fn with_gate(self, gate: GateView) -> LowerState {
        self.with_node(NodeKind::Gate, gate, self.anon_chip)
    }

    pub open spec fn wired(self, source: PortRef, target: PortRef) -> LowerState {
        LowerState { wires: self.wires.push(Wire { source, target }), ..self }
    }

    /// The exec flow goes on from `flow`.
    pub open spec fn with_flow(self, flow: Option<PortRef>) -> LowerState {
        LowerState { flow, ..self }
    }

    /// Where exec flow goes on from, or `other` when there is none.
    pub open spec fn flow_or(self, other: PortRef) -> PortRef {
        match self.flow {
            Some(p) => p,
            None => other,
        }
    }

    pub open spec fn binding(self, name: Seq<char>) -> Option<BindingView> {
        bound(self.frames, name)
    }

    pub open spec fn with_binding(self, name: Seq<char>, b: BindingView) -> LowerState {
        LowerState { frames: bind(self.frames, name, b), ..self }
    }

    /// `name` bound anew where it is bound.
    pub open spec fn with_rebound(self, name: Seq<char>, b: BindingView) -> LowerState {
        LowerState { frames: rebound(self.frames, name, b), ..self }
    }

    pub open spec fn with_frame(self, tag: ScopeTag) -> LowerState {
        LowerState { frames: self.frames.push(FrameView { tag, names: Seq::empty() }), ..self }
    }

    pub open spec fn without_frame(self) -> LowerState {
        LowerState { frames: closed_frame(self.frames), ..self }
    }

    pub open spec fn reported(
        self,
        severity: Severity,
        code: Seq<char>,
        message: Seq<char>,
        range: RangeView,
    ) -> LowerState {
        LowerState {
            diags: self.diags.push(DiagnosticView { severity, code, message, range }),
            ..self
        }
    }

    pub open spec fn warned(self, message: Seq<char>, range: RangeView) -> LowerState {
        self.reported(Severity::Warning, "WSP001"@, message, range)
    }

    /// A scope opened inside the current one; `next_scope` is its id.
    pub open spec fn with_scope(self, kind: ScopeKind, range: RangeView) -> LowerState {
        LowerState {
            scopes: self.scopes.push(
                ScopeView { id: self.next_scope, kind, range, parent: Some(self.scope) },
            ),
            next_scope: next_of(self.next_scope),
            ..self
        }
    }

    pub open spec fn in_scope(self, id: u32) -> LowerState {
        LowerState { scope: id, ..self }
    }

    pub open spec fn in_chain(self, chain: Option<u32>) -> LowerState {
        LowerState { chain, ..self }
    }

    pub open spec fn var(self, name: Seq<char>) -> Option<VarView> {
        match self.binding(name) {
            Some(BindingView::Var(v)) => Some(v),
            _ => None,
        }
    }

    pub open spec fn buffer(self, name: Seq<char>) -> Option<NodeRecordView> {
        match self.binding(name) {
            Some(BindingView::Buffer(r)) => Some(r),
            _ => None,
        }
    }

    pub open spec fn output(self, name: Seq<char>) -> Option<NodeRecordView> {
        match self.binding(output_key(name)) {
            Some(BindingView::Output(r)) => Some(r),
            _ => None,
        }
    }

    /// The key of the signal that `name` stands for.
    pub open spec fn signal(self, name: Seq<char>) -> Option<Seq<char>> {
        match self.binding(name) {
            Some(BindingView::Local(p)) => hub_key(self.hub_keys, p.node_id),
            _ => None,
        }
    }

    /// The type that checking found for an expression.
    pub open spec fn type_at(self, r: RangeView) -> TypeView {
        if self.types.contains_key((r.file, r.start.offset, r.end.offset)) {
            self.types[(r.file, r.start.offset, r.end.offset)]
        } else {
            TypeView::Any
        }
    }

    /// The cached reads dropped: all of them, or those of one variable.
    pub open spec fn forgetting(self, only: Option<NodeId>) -> LowerState {
        LowerState { frames: uncached_frames(self.frames, only), ..self }
    }

    /// A property of a node set, if the node is there.
    pub open spec fn with_prop(self, id: NodeId, key: Prop, value: LiteralView) -> LowerState {
        let k = place_of(self.nodes, id);
        if k < self.nodes.len() {
            let n = self.nodes[k as int];
            LowerState {
                nodes: self.nodes.update(
                    k as int,
                    NodeView {
                        gate: GateView { props: n.gate.props.insert(key, value), ..n.gate },
                        ..n
                    },
                ),
                ..self
            }
        } else {
            self
        }
    }

    pub open spec fn with_kind(self, id: NodeId, kind: NodeKind) -> LowerState {
        let k = place_of(self.nodes, id);
        if k < self.nodes.len() {
            LowerState {
                nodes: self.nodes.update(k as int, NodeView { kind, ..self.nodes[k as int] }),
                ..self
            }
        } else {
            self
        }
    }

    pub open spec fn with_node_chain(self, id: NodeId, chain: Option<u32>) -> LowerState {
        let k = place_of(self.nodes, id);
        if k < self.nodes.len() {
            LowerState {
                nodes: self.nodes.update(
                    k as int,
                    NodeView { chain_id: chain, ..self.nodes[k as int] },
                ),
                ..self
            }
        } else {
            self
        }
    }
}

} // verus!
