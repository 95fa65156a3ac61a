//! The context that lowering threads through a module.

use crate::assoc::{AssocMap, SpanKey};
use crate::ast::{ChipDecl, Expr};
use crate::catalog::{OpRule, OpRuleView};
use crate::diagnostic::{lemma_views_push, views, Diagnostic, RangeView, Severity, SourceRange};
use crate::literal::{Literal, LiteralView};
use crate::lower::graph::{
    find_node, io_of_rerouter, rerouter_io, ChipOutputs, GateClass, GateSpec, GateView, Node,
    NodeId, NodeKind, PortRef, Prop, ScopeInfo, ScopeKind, Wire,
};
use crate::lower::names::{at, find_key, pairs, put, put_key, slot, Named};
use crate::lower::state::{
    bind, bound, closed_frame, first_among, first_module_output, hub_key, lemma_rebound,
    lemma_record_binding, members, module_outputs, next_of, output_scope_key, outputs_among,
    rebound, uncached, uncached_frames, uncached_names, Binding, BindingView, CallbackList, Frame,
    FrameView, LocalRecord, LowerState, NodeRecord, Payload, PendingEmit, ScopeTag, SignalAwait,
    VarRecord, VarView,
};
use crate::text::{owned, str_eq};
use crate::types::{Type, TypeView};
use vstd::prelude::*;

verus! {

#[derive(Debug)]
pub struct LowerCtx<'a> {
    pub nodes: Vec<Node>,
    pub wires: Vec<Wire>,
    pub chips: Vec<ChipOutputs>,
    pub scopes: Vec<ScopeInfo>,
    pub current_scope_id: u32,
    pub current_chain_id: Option<u32>,
    pub next_node_id: u32,
    pub next_chain_id: u32,
    pub next_scope_id: u32,
    pub diagnostics: Vec<Diagnostic>,
    pub type_of_expr: &'a AssocMap<SpanKey, Type>,
    pub op_resolutions: &'a AssocMap<SpanKey, OpRule>,
    /// `///` doc comments keyed by the declaration's source start offset.
    pub doc_comments: &'a AssocMap<usize, String>,
    pub scope: Vec<Frame<'a>>,
    pub current_exec: Option<PortRef>,
    /// Accumulated exec from `return` statements inside an inlined mod.
    pub mod_return_exec: Option<PortRef>,
    /// For mods with a single output: the variable that holds the return
    /// value. Each `return expr` writes to it.
    pub mod_return_var: Option<VarRecord>,
    /// Inside `await`, the armed flag's value, which `_` in the awaited
    /// expression stands for.
    pub await_armed_port: Option<PortRef>,
    /// When inside an anonymous chip body, nodes get tagged with this chip so
    /// the emitter routes them to a child grid.
    pub current_anon_chip: Option<NodeId>,
    /// Depth of enclosing exec `if` branches; >0 means conditionally executed.
    pub exec_branch_depth: usize,
    /// Pending emits per output name or signal key, wired at the end so each
    /// output gets one wire.
    pub pending_emits: Vec<(String, Vec<PendingEmit>)>,
    /// Union "hub" of each local exec signal, by a key per declaration.
    pub exec_signal_hubs: Vec<(String, NodeId)>,
    /// The key of each hub.
    pub exec_signal_keys: Vec<(NodeId, String)>,
    /// Unconditional `await <signal>` per local exec signal.
    pub signal_awaits: Vec<(String, SignalAwait)>,
    /// Hidden payload stores per local exec signal.
    pub exec_signal_payloads: Vec<(String, Payload)>,
    /// Field bindings of the most recent multi-output inline mod call.
    pub pending_inline_record: Option<Vec<(String, Binding<'a>)>>,
    /// Field bindings of a `return { ... }` in an inline mod body.
    pub pending_return_record: Option<Vec<(String, Binding<'a>)>>,
    /// True only for the compiled entry file's root context. `@side` port
    /// annotations are legal only there.
    pub is_root_module: bool,
    pub callbacks: Vec<(String, CallbackList<'a>)>,
}

/// A hub list seen through its keys' views.
pub open spec fn hub_views(v: Seq<(NodeId, String)>) -> Seq<(NodeId, Seq<char>)> {
    Seq::new(v.len(), |i: int| (v[i].0, v[i].1@))
}

/// Optional field bindings seen as a list of named values.
pub open spec fn record_view<'a>(r: Option<Vec<(String, Binding<'a>)>>) -> Option<
    Named<BindingView>,
> {
    match r {
        Some(v) => Some(pairs(v@)),
        None => None,
    }
}

pub open spec fn var_view(r: Option<VarRecord>) -> Option<VarView> {
    match r {
        Some(v) => Some(v@),
        None => None,
    }
}

impl<'a> View for LowerCtx<'a> {
    type V = LowerState;

    open spec fn view(&self) -> LowerState {
        LowerState {
            nodes: views(self.nodes@),
            wires: self.wires@,
            chips: views(self.chips@),
            scopes: views(self.scopes@),
            scope: self.current_scope_id,
            chain: self.current_chain_id,
            next_node: self.next_node_id,
            next_chain: self.next_chain_id,
            next_scope: self.next_scope_id,
            diags: views(self.diagnostics@),
            types: self.type_of_expr@,
            ops: self.op_resolutions@,
            docs: self.doc_comments@,
            frames: views(self.scope@),
            flow: self.current_exec,
            return_flow: self.mod_return_exec,
            return_var: var_view(self.mod_return_var),
            armed: self.await_armed_port,
            anon_chip: self.current_anon_chip,
            depth: self.exec_branch_depth,
            pending: pairs(self.pending_emits@),
            hubs: pairs(self.exec_signal_hubs@),
            hub_keys: hub_views(self.exec_signal_keys@),
            awaits: pairs(self.signal_awaits@),
            payloads: pairs(self.exec_signal_payloads@),
            inline_record: record_view(self.pending_inline_record),
            return_record: record_view(self.pending_return_record),
            root: self.is_root_module,
            callbacks: pairs(self.callbacks@),
        }
    }
}

/// The state before anything is lowered.
pub open spec fn start_state(
    types: Map<(Seq<char>, usize, usize), TypeView>,
    ops: Map<(Seq<char>, usize, usize), OpRuleView>,
    docs: Map<usize, Seq<char>>,
    root: bool,
) -> LowerState {
    LowerState {
        nodes: Seq::empty(),
        wires: Seq::empty(),
        chips: Seq::empty(),
        scopes: Seq::empty(),
        scope: 0,
        chain: None,
        next_node: 0,
        next_chain: 0,
        next_scope: 1,
        diags: Seq::empty(),
        types,
        ops,
        docs,
        frames: seq![FrameView { tag: ScopeTag::Module, names: Seq::empty() }],
        flow: None,
        return_flow: None,
        return_var: None,
        armed: None,
        anon_chip: None,
        depth: 0,
        pending: Seq::empty(),
        hubs: Seq::empty(),
        hub_keys: Seq::empty(),
        awaits: Seq::empty(),
        payloads: Seq::empty(),
        inline_record: None,
        return_record: None,
        root,
        callbacks: Seq::empty(),
    }
}

/// A port of the module being lowered. It is placed on the module's own grid.
pub open spec fn port_gate(name: Seq<char>, ty: TypeView, range: RangeView) -> GateView {
    GateView {
        class: GateClass::Rerouter,
        range,
        props: map![Prop::NameLabel => LiteralView::String(name)],
        io: rerouter_io(ty),
        note: None,
    }
}

/// The binding with the cached reads dropped.
fn without_cache<'a>(b: &Binding<'a>, only: Option<NodeId>) -> (r: Binding<'a>)
    ensures
        r@ == uncached(b@, only),
    decreases b,
{
    broadcast use lemma_record_binding;

    match b {
        Binding::Var(v) => {
            let hit = match only {
                None => true,
                Some(id) => id == v.node_id,
            };
            let mut copy = v.clone();
            if hit {
                copy.get_node_for_handler = None;
            }
            Binding::Var(copy)
        },
        Binding::Record(fields) => {
            let mut out: Vec<(String, Binding<'a>)> = Vec::new();
            let mut i: usize = 0;
            while i < fields.len()
                invariant
                    i <= fields@.len(),
                    out@.len() == i,
                    forall|k: int|
                        0 <= k < i ==> (#[trigger] out@[k]).0@ == fields@[k].0@ && out@[k].1@
                            == uncached(fields@[k].1@, only),
                    forall|k: int| 0 <= k < fields@.len() ==> decreases_to!(b => fields@[k].1),
                decreases fields.len() - i,
            {
                out.push((fields[i].0.clone(), without_cache(&fields[i].1, only)));
                i += 1;
            }
            proof {
                let a = match uncached(BindingView::Record(pairs(fields@)), only) {
                    BindingView::Record(f) => f,
                    _ => Seq::empty(),
                };
                assert(pairs(out@) =~= a);
            }
            Binding::Record(out)
        },
        other => other.clone(),
    }
}

/// Drops the cached read of every variable that a binding holds.
pub fn reset_cache_in_binding<'a>(binding: &mut Binding<'a>)
    ensures
        final(binding)@ == uncached(old(binding)@, None),
{
    let fresh = without_cache(binding, None);
    *binding = fresh;
}

/// Drops the cached read of one variable in a binding.
pub fn invalidate_cache_in_binding<'a>(binding: &mut Binding<'a>, target_node_id: NodeId)
    ensures
        final(binding)@ == uncached(old(binding)@, Some(target_node_id)),
{
    let fresh = without_cache(binding, Some(target_node_id));
    *binding = fresh;
}

/// The names of a frame with the cached reads dropped.
fn names_without_cache<'a>(names: &Vec<(String, Binding<'a>)>, only: Option<NodeId>) -> (r: Vec<
    (String, Binding<'a>),
>)
    ensures
        pairs(r@) == uncached_names(pairs(names@), only),
{
    let mut out: Vec<(String, Binding<'a>)> = Vec::new();
    let mut i: usize = 0;
    while i < names.len()
        invariant
            i <= names@.len(),
            out@.len() == i,
            forall|k: int|
                0 <= k < i ==> (#[trigger] out@[k]).0@ == names@[k].0@ && out@[k].1@ == uncached(
                    names@[k].1@,
                    only,
                ),
        decreases names.len() - i,
    {
        let mut b = names[i].1.clone();
        match only {
            None => reset_cache_in_binding(&mut b),
            Some(id) => invalidate_cache_in_binding(&mut b, id),
        }
        out.push((names[i].0.clone(), b));
        i += 1;
    }
    assert(pairs(out@) =~= uncached_names(pairs(names@), only));
    out
}

impl<'a> LowerCtx<'a> {
    /// A context with one module scope and an empty graph.
    pub fn new(
        type_of_expr: &'a AssocMap<SpanKey, Type>,
        op_resolutions: &'a AssocMap<SpanKey, OpRule>,
        doc_comments: &'a AssocMap<usize, String>,
        is_root_module: bool,
    ) -> (r: LowerCtx<'a>)
        ensures
            r@ == start_state(type_of_expr@, op_resolutions@, doc_comments@, is_root_module),
    {
        let mut scope: Vec<Frame<'a>> = Vec::new();
        scope.push(Frame { tag: ScopeTag::Module, names: Vec::new() });
        let r = LowerCtx {
            nodes: Vec::new(),
            wires: Vec::new(),
            chips: Vec::new(),
            scopes: Vec::new(),
            current_scope_id: 0,
            current_chain_id: None,
            next_node_id: 0,
            next_chain_id: 0,
            next_scope_id: 1,
            diagnostics: Vec::new(),
            type_of_expr,
            op_resolutions,
            doc_comments,
            scope,
            current_exec: None,
            mod_return_exec: None,
            mod_return_var: None,
            await_armed_port: None,
            current_anon_chip: None,
            exec_branch_depth: 0,
            pending_emits: Vec::new(),
            exec_signal_hubs: Vec::new(),
            exec_signal_keys: Vec::new(),
            signal_awaits: Vec::new(),
            exec_signal_payloads: Vec::new(),
            pending_inline_record: None,
            pending_return_record: None,
            is_root_module,
            callbacks: Vec::new(),
        };
        proof {
            let s = start_state(type_of_expr@, op_resolutions@, doc_comments@, is_root_module);
            assert(pairs(r.scope@[0].names@) =~= Seq::empty());
            assert(r@.frames =~= s.frames);
            assert(r@ =~= s);
        }
        r
    }

    pub fn alloc_chain(&mut self) -> (r: u32)
        ensures
            r == old(self)@.next_chain,
            final(self)@ == (LowerState { next_chain: next_of(r), ..old(self)@ }),
    {
        let id: u32 = self.next_chain_id;
        self.next_chain_id = self.next_chain_id.wrapping_add(1);
        id
    }

    /// Opens a scope of the source inside the current one, and gives its id.
    pub fn alloc_scope(&mut self, kind: ScopeKind, range: SourceRange) -> (r: u32)
        ensures
            r == old(self)@.next_scope,
            final(self)@ == old(self)@.with_scope(kind, range@),
    {
        let id: u32 = self.next_scope_id;
        self.next_scope_id = self.next_scope_id.wrapping_add(1);
        let info = ScopeInfo { id, kind, range, parent: Some(self.current_scope_id) };
        proof {
            lemma_views_push(self.scopes@, info);
        }
        self.scopes.push(info);
        id
    }

    /// Runs `f` in a new scope of the source, and goes back to the scope before it.
    pub fn with_scope<R>(
        &mut self,
        kind: ScopeKind,
        range: SourceRange,
        f: impl FnOnce(&mut LowerCtx<'a>) -> R,
    ) -> (r: R)
        requires
            forall|c: &mut LowerCtx<'a>|
                c@ == old(self)@.with_scope(kind, range@).in_scope(old(self)@.next_scope)
                    ==> call_requires(f, (c,)),
        ensures
            exists|c: &mut LowerCtx<'a>| #[trigger]
                call_ensures(f, (c,), r) && c@ == old(self)@.with_scope(kind, range@).in_scope(
                    old(self)@.next_scope,
                ) && final(self)@ == final(c)@.in_scope(old(self)@.scope),
    {
        let id: u32 = self.alloc_scope(kind, range);
        self.enter_scope(id, f)
    }

    /// Runs `f` in a scope that was opened before, and goes back to the scope
    /// before it.
    pub fn enter_scope<R>(&mut self, id: u32, f: impl FnOnce(&mut LowerCtx<'a>) -> R) -> (r: R)
        requires
            forall|c: &mut LowerCtx<'a>|
                c@ == old(self)@.in_scope(id) ==> call_requires(f, (c,)),
        ensures
            exists|c: &mut LowerCtx<'a>| #[trigger]
                call_ensures(f, (c,), r) && c@ == old(self)@.in_scope(id) && final(self)@
                    == final(c)@.in_scope(old(self)@.scope),
    {
        let prev: u32 = self.current_scope_id;
        self.set_scope(id);
        let out = f(self);
        self.set_scope(prev);
        out
    }

    /// Goes on in another scope of the source.
    pub fn set_scope(&mut self, id: u32)
        ensures
            final(self)@ == old(self)@.in_scope(id),
    {
        self.current_scope_id = id;
    }

    /// The type that checking found for `e`.
    pub fn type_of(&self, e: &Expr) -> (r: Type)
        ensures
            r@ == self@.type_at(e.rng()@),
    {
        self.type_in(e.range())
    }

    /// The type that checking found for the expression at `r`.
    pub fn type_in(&self, r: &SourceRange) -> (t: Type)
        ensures
            t@ == self@.type_at(r@),
    {
        let key = SpanKey { file: r.file.clone(), start: r.start.offset, end: r.end.offset };
        match self.type_of_expr.get(&key) {
            Some(t) => t.clone(),
            None => Type::Any,
        }
    }

    /// The operator rule that checking settled on for `e`.
    pub fn op_for(&self, e: &Expr) -> (r: Option<&OpRule>)
        ensures
            r is Some <==> self@.ops.contains_key(
                (e.rng()@.file, e.rng()@.start.offset, e.rng()@.end.offset),
            ),
            r matches Some(rule) ==> rule@ == self@.ops[(
                e.rng()@.file,
                e.rng()@.start.offset,
                e.rng()@.end.offset,
            )],
    {
        let r = e.range();
        let key = SpanKey { file: r.file.clone(), start: r.start.offset, end: r.end.offset };
        self.op_resolutions.get(&key)
    }

    fn add_node(&mut self, kind: NodeKind, gate: GateSpec, chip_id: Option<NodeId>) -> (r: NodeId)
        ensures
            r == old(self)@.fresh(),
            final(self)@ == old(self)@.with_node(kind, gate@, chip_id),
    {
        let id = NodeId(self.next_node_id);
        self.next_node_id = self.next_node_id.wrapping_add(1);
        let node = Node {
            id,
            kind,
            gate,
            chip_id,
            chain_id: self.current_chain_id,
            scope_id: self.current_scope_id,
        };
        proof {
            lemma_views_push(self.nodes@, node);
        }
        self.nodes.push(node);
        id
    }

    pub fn add_gate(&mut self, gate: GateSpec) -> (r: NodeId)
        ensures
            r == old(self)@.fresh(),
            final(self)@ == old(self)@.with_gate(gate@),
    {
        self.add_node(NodeKind::Gate, gate, self.current_anon_chip)
    }

    pub fn add_event(&mut self, gate: GateSpec) -> (r: NodeId)
        ensures
            r == old(self)@.fresh(),
            final(self)@ == old(self)@.with_node(NodeKind::Event, gate@, old(self)@.anon_chip),
    {
        self.add_node(NodeKind::Event, gate, self.current_anon_chip)
    }

    /// Places an input or output port of the module.
    pub fn add_port(&mut self, kind: NodeKind, name: &str, ty: &Type, range: SourceRange) -> (r:
        NodeId)
        ensures
            r == old(self)@.fresh(),
            final(self)@ == old(self)@.with_node(kind, port_gate(name@, ty@, range@), None),
    {
        let mut props: AssocMap<Prop, Literal> = AssocMap::new();
        props.insert(Prop::NameLabel, Literal::String(owned(name)));
        let gate = GateSpec {
            class: GateClass::Rerouter,
            range,
            props,
            io: io_of_rerouter(ty),
            note: None,
        };
        proof {
            assert(gate@.props =~= map![Prop::NameLabel => LiteralView::String(name@)]);
            assert(gate@ =~= port_gate(name@, ty@, range@));
        }
        self.add_node(kind, gate, None)
    }

    pub fn connect(&mut self, src: PortRef, dst: PortRef)
        ensures
            final(self)@ == old(self)@.wired(src, dst),
    {
        self.wires.push(Wire { source: src, target: dst });
    }

    pub fn report(&mut self, severity: Severity, code: &str, message: String, range: &SourceRange)
        ensures
            final(self)@ == old(self)@.reported(severity, code@, message@, range@),
    {
        let d = Diagnostic { severity, code: owned(code), message, range: range.clone() };
        proof {
            lemma_views_push(self.diagnostics@, d);
        }
        self.diagnostics.push(d);
    }

    pub fn warn(&mut self, msg: String, range: &SourceRange)
        ensures
            final(self)@ == old(self)@.warned(msg@, range@),
    {
        self.report(Severity::Warning, "WSP001", msg, range);
    }

    // ---------- scopes ----------

    pub fn push_frame(&mut self, tag: ScopeTag)
        ensures
            final(self)@ == old(self)@.with_frame(tag),
    {
        let f = Frame { tag, names: Vec::new() };
        proof {
            assert(pairs(f.names@) =~= Seq::empty());
            lemma_views_push(self.scope@, f);
        }
        self.scope.push(f);
    }

    pub fn pop_frame(&mut self)
        ensures
            final(self)@ == old(self)@.without_frame(),
    {
        if self.scope.len() > 0 {
            self.scope.pop();
        }
        assert(views(self.scope@) =~= closed_frame(views(old(self).scope@)));
    }

    /// Binds `name` in the innermost frame.
    pub fn bind_name(&mut self, name: &str, b: Binding<'a>)
        ensures
            final(self)@ == old(self)@.with_binding(name@, b@),
    {
        if self.scope.len() == 0 {
            let mut names: Vec<(String, Binding<'a>)> = Vec::new();
            assert(pairs(names@) =~= Seq::empty());
            put_key(&mut names, owned(name), b);
            self.scope.push(Frame { tag: ScopeTag::Module, names });
            assert(views(self.scope@) =~= bind(views(old(self).scope@), name@, b@));
        } else {
            let n: usize = self.scope.len();
            put_key(&mut self.scope[n - 1].names, owned(name), b);
            assert(views(self.scope@) =~= bind(views(old(self).scope@), name@, b@));
        }
    }

    /// What `name` stands for.
    pub fn get(&self, name: &str) -> (r: Option<&Binding<'a>>)
        ensures
            r is Some <==> self@.binding(name@) is Some,
            r matches Some(b) ==> self@.binding(name@) == Some(b@),
    {
        let ghost all = views(self.scope@);
        let mut i: usize = self.scope.len();
        assert(all.take(i as int) =~= all);
        while i > 0
            invariant
                all == views(self.scope@),
                i <= self.scope@.len(),
                bound(all, name@) == bound(all.take(i as int), name@),
            decreases i,
        {
            let ghost here = all.take(i as int);
            assert(here.last() == self.scope@[i - 1]@);
            assert(here.drop_last() =~= all.take(i - 1));
            i -= 1;
            if let Some(k) = find_key(&self.scope[i].names, name) {
                return Some(&self.scope[i].names[k].1);
            }
        }
        assert(all.take(0) =~= Seq::empty());
        None
    }

    /// A copy of what `name` stands for.
    pub fn get_cloned(&self, name: &str) -> (r: Option<Binding<'a>>)
        ensures
            r is Some <==> self@.binding(name@) is Some,
            r matches Some(b) ==> self@.binding(name@) == Some(b@),
    {
        match self.get(name) {
            Some(b) => Some(b.clone()),
            None => None,
        }
    }

    pub fn lookup_var(&self, name: &str) -> (r: Option<VarRecord>)
        ensures
            var_view(r) == self@.var(name@),
    {
        match self.get(name) {
            Some(Binding::Var(r)) => Some(r.clone()),
            _ => None,
        }
    }

    /// The record of the variable `name`, to be changed in place.
    pub fn lookup_var_mut(&mut self, name: &str) -> (r: Option<&mut VarRecord>)
        ensures
            r is Some <==> old(self)@.var(name@) is Some,
            r is None ==> final(self)@ == old(self)@,
            r matches Some(v) ==> old(self)@.var(name@) == Some(v@) && final(self)@
                == old(self)@.with_rebound(name@, BindingView::Var(final(v)@)),
    {
        let ghost all = views(self.scope@);
        let mut i: usize = self.scope.len();
        assert(all.take(i as int) =~= all);
        while i > 0
            invariant
                *self == *old(self),
                all == views(self.scope@),
                i <= self.scope@.len(),
                bound(all, name@) == bound(all.take(i as int), name@),
                forall|k: int| i <= k < all.len() ==> at((#[trigger] all[k]).names, name@) is None,
            decreases i,
        {
            let ghost here = all.take(i as int);
            assert(here.last() == self.scope@[i - 1]@);
            assert(here.drop_last() =~= all.take(i - 1));
            i -= 1;
            if let Some(k) = find_key(&self.scope[i].names, name) {
                let is_var = matches!(&self.scope[i].names[k].1, Binding::Var(_));
                if !is_var {
                    return None;
                }
                let ghost before = self.scope@;
                return match &mut self.scope[i].names[k].1 {
                    Binding::Var(v) => {
                        proof {
                            let b = BindingView::Var(final(v)@);
                            let after = after_borrow(self).scope@;
                            lemma_rebound(all, name@, i as int, b);
                            crate::lower::names::lemma_slot(
                                pairs(before[i as int].names@),
                                name@,
                            );
                            assert(pairs(after[i as int].names@) =~= put(
                                pairs(before[i as int].names@),
                                name@,
                                b,
                            ));
                            assert(views(after) =~= rebound(all, name@, b));
                        }
                        Some(v)
                    },
                    _ => None,
                };
            }
        }
        assert(all.take(0) =~= Seq::empty());
        None
    }

    pub fn lookup_local(&self, name: &str) -> (r: Option<LocalRecord>)
        ensures
            r is Some <==> self@.binding(name@) matches Some(BindingView::Local(_)),
            r matches Some(l) ==> self@.binding(name@) == Some(BindingView::Local(l.port)),
    {
        match self.get(name) {
            Some(Binding::Local(r)) => Some(*r),
            _ => None,
        }
    }

    pub fn lookup_buffer(&self, name: &str) -> (r: Option<NodeRecord>)
        ensures
            r is Some <==> self@.buffer(name@) is Some,
            r matches Some(b) ==> self@.buffer(name@) == Some(b@),
    {
        match self.get(name) {
            Some(Binding::Buffer(r)) => Some(r.clone()),
            _ => None,
        }
    }

    pub fn lookup_input(&self, name: &str) -> (r: Option<NodeRecord>)
        ensures
            r is Some <==> self@.binding(name@) matches Some(BindingView::Input(_)),
            r matches Some(b) ==> self@.binding(name@) == Some(BindingView::Input(b@)),
    {
        match self.get(name) {
            Some(Binding::Input(r)) => Some(r.clone()),
            _ => None,
        }
    }

    pub fn lookup_output(&self, name: &str) -> (r: Option<NodeRecord>)
        ensures
            r is Some <==> self@.output(name@) is Some,
            r matches Some(b) ==> self@.output(name@) == Some(b@),
    {
        let key = output_scope_key(name);
        match self.get(key.as_str()) {
            Some(Binding::Output(r)) => Some(r.clone()),
            _ => None,
        }
    }

    pub fn lookup_chip(&self, name: &str) -> (r: Option<&ChipDecl>)
        ensures
            r is Some <==> self@.binding(name@) matches Some(BindingView::Chip(_)),
            r matches Some(c) ==> self@.binding(name@) == Some(BindingView::Chip(c@)),
    {
        match self.get(name) {
            Some(Binding::Chip(c)) => Some(*c),
            Some(Binding::Made(c)) => Some(&**c),
            _ => None,
        }
    }

    /// A member of a namespace.
    pub fn lookup_ns_chip(&self, ns: &str, name: &str) -> (r: Option<&'a ChipDecl>)
        ensures
            r matches Some(c) ==> self@.binding(ns@) matches Some(BindingView::Namespace(m)) && at(
                m,
                name@,
            ) == Some(*c),
            r is None ==> !(self@.binding(ns@) matches Some(BindingView::Namespace(m)) && at(
                m,
                name@,
            ) is Some),
    {
        match self.get(ns) {
            Some(Binding::Namespace(list)) => find_member(list, name),
            _ => None,
        }
    }

    /// The key of the exec signal that `name` stands for.
    pub fn signal_key(&self, name: &str) -> (r: Option<String>)
        ensures
            r is Some <==> self@.signal(name@) is Some,
            r matches Some(k) ==> self@.signal(name@) == Some(k@),
    {
        match self.get(name) {
            Some(Binding::Local(l)) => find_hub_key(&self.exec_signal_keys, l.port.node_id),
            _ => None,
        }
    }

    /// The number of outputs of the module being lowered.
    pub fn output_count(&self) -> (r: u128)
        ensures
            r as nat == module_outputs(self@.frames),
    {
        let ghost all = views(self.scope@);
        let frames: usize = self.scope.len();
        let mut i: usize = frames;
        let mut total: u128 = 0;
        assert(all.take(i as int) =~= all);
        while i > 0
            invariant
                all == views(self.scope@),
                i <= frames,
                frames == self.scope@.len(),
                total + module_outputs(all.take(i as int)) == module_outputs(all),
                total <= (self.scope@.len() - i) * (usize::MAX as int),
            decreases i,
        {
            let ghost here = all.take(i as int);
            assert(here.last() == self.scope@[i - 1]@);
            assert(here.drop_last() =~= all.take(i - 1));
            let ghost before = i as int;
            i -= 1;
            let n: usize = count_outputs(&self.scope[i].names);
            assert((self.scope@.len() - before) * (usize::MAX as int) + (usize::MAX as int) == (
            self.scope@.len() - i) * (usize::MAX as int)) by (nonlinear_arith)
                requires
                    before == i + 1,
            ;
            assert((self.scope@.len() - i) * (usize::MAX as int) <= (usize::MAX as int) * (
            usize::MAX as int)) by (nonlinear_arith)
                requires
                    0 <= self.scope@.len() - i <= usize::MAX as int,
            ;
            assert((usize::MAX as int) * (usize::MAX as int) <= u128::MAX) by (nonlinear_arith)
                requires
                    0 <= usize::MAX as int <= u64::MAX as int,
            ;
            total = total + n as u128;
            if let ScopeTag::Module = self.scope[i].tag {
                return total;
            }
        }
        assert(all.take(0) =~= Seq::empty());
        total
    }

    /// The first output of the module being lowered.
    pub fn first_output(&self) -> (r: Option<NodeRecord>)
        ensures
            r is Some <==> first_module_output(self@.frames) is Some,
            r matches Some(o) ==> first_module_output(self@.frames) == Some(o@),
    {
        let ghost all = views(self.scope@);
        let mut i: usize = self.scope.len();
        assert(all.take(i as int) =~= all);
        while i > 0
            invariant
                all == views(self.scope@),
                i <= self.scope@.len(),
                first_module_output(all.take(i as int)) == first_module_output(all),
            decreases i,
        {
            let ghost here = all.take(i as int);
            assert(here.last() == self.scope@[i - 1]@);
            assert(here.drop_last() =~= all.take(i - 1));
            i -= 1;
            if let Some(o) = first_output_in(&self.scope[i].names) {
                return Some(o);
            }
            if let ScopeTag::Module = self.scope[i].tag {
                return None;
            }
        }
        assert(all.take(0) =~= Seq::empty());
        None
    }

    // ---------- nodes ----------

    /// Sets a property of a node, if the node is there.
    pub fn set_prop(&mut self, id: NodeId, key: Prop, value: Literal)
        ensures
            final(self)@ == old(self)@.with_prop(id, key, value@),
    {
        if let Some(i) = find_node(&self.nodes, id) {
            self.nodes[i].gate.props.insert(key, value);
            assert(views(self.nodes@) =~= old(self)@.with_prop(id, key, value@).nodes);
        }
    }

    pub fn set_kind(&mut self, id: NodeId, kind: NodeKind)
        ensures
            final(self)@ == old(self)@.with_kind(id, kind),
    {
        if let Some(i) = find_node(&self.nodes, id) {
            self.nodes[i].kind = kind;
            assert(views(self.nodes@) =~= old(self)@.with_kind(id, kind).nodes);
        }
    }

    pub fn set_node_chain(&mut self, id: NodeId, chain: Option<u32>)
        ensures
            final(self)@ == old(self)@.with_node_chain(id, chain),
    {
        if let Some(i) = find_node(&self.nodes, id) {
            self.nodes[i].chain_id = chain;
            assert(views(self.nodes@) =~= old(self)@.with_node_chain(id, chain).nodes);
        }
    }

    fn forget(&mut self, only: Option<NodeId>)
        ensures
            final(self)@ == old(self)@.forgetting(only),
    {
        let mut out: Vec<Frame<'a>> = Vec::new();
        let mut i: usize = 0;
        while i < self.scope.len()
            invariant
                *self == *old(self),
                i <= self.scope@.len(),
                out@.len() == i,
                forall|k: int|
                    0 <= k < i ==> (#[trigger] out@[k])@ == (FrameView {
                        tag: self.scope@[k]@.tag,
                        names: uncached_names(self.scope@[k]@.names, only),
                    }),
            decreases self.scope@.len() - i,
        {
            let f = Frame {
                tag: self.scope[i].tag,
                names: names_without_cache(&self.scope[i].names, only),
            };
            out.push(f);
            i += 1;
        }
        assert(views(out@) =~= uncached_frames(views(self.scope@), only));
        self.scope = out;
    }
}

/// Drops every cached read.
pub fn reset_var_get_caches<'a>(ctx: &mut LowerCtx<'a>)
    ensures
        final(ctx)@ == old(ctx)@.forgetting(None),
{
    ctx.forget(None);
}

/// Drops the cached reads of one variable.
pub fn invalidate_var_cache<'a>(ctx: &mut LowerCtx<'a>, target_node_id: NodeId)
    ensures
        final(ctx)@ == old(ctx)@.forgetting(Some(target_node_id)),
{
    ctx.forget(Some(target_node_id));
}

/// The first member of a namespace that goes by `name`.
pub fn find_member<'a>(list: &Vec<(String, &'a ChipDecl)>, name: &str) -> (r: Option<&'a ChipDecl>)
    ensures
        r is Some <==> at(members(list@), name@) is Some,
        r matches Some(c) ==> at(members(list@), name@) == Some(*c),
{
    let ghost all = members(list@);
    let mut i: usize = 0;
    while i < list.len()
        invariant
            all == members(list@),
            i <= list@.len(),
            slot(all.take(i as int), name@) == i,
        decreases list@.len() - i,
    {
        assert(all.take(i + 1).drop_last() =~= all.take(i as int));
        if str_eq(list[i].0.as_str(), name) {
            proof {
                crate::lower::names::lemma_slot_prefix(all, name@, i + 1);
            }
            return Some(list[i].1);
        }
        i += 1;
    }
    assert(all.take(i as int) =~= all);
    None
}

fn find_hub_key(keys: &Vec<(NodeId, String)>, hub: NodeId) -> (r: Option<String>)
    ensures
        r is Some <==> hub_key(hub_views(keys@), hub) is Some,
        r matches Some(k) ==> hub_key(hub_views(keys@), hub) == Some(k@),
{
    let ghost all = hub_views(keys@);
    let mut i: usize = keys.len();
    assert(all.take(i as int) =~= all);
    while i > 0
        invariant
            all == hub_views(keys@),
            i <= keys@.len(),
            hub_key(all.take(i as int), hub) == hub_key(all, hub),
        decreases i,
    {
        assert(all.take(i as int).drop_last() =~= all.take(i - 1));
        i -= 1;
        if keys[i].0 == hub {
            return Some(keys[i].1.clone());
        }
    }
    assert(all.take(0) =~= Seq::empty());
    None
}

fn count_outputs<'a>(names: &Vec<(String, Binding<'a>)>) -> (r: usize)
    ensures
        r as nat == outputs_among(pairs(names@)),
{
    let ghost all = pairs(names@);
    let mut i: usize = 0;
    let mut total: usize = 0;
    assert(all.take(0) =~= Seq::empty());
    while i < names.len()
        invariant
            all == pairs(names@),
            i <= names@.len(),
            total as nat == outputs_among(all.take(i as int)),
            total <= i,
        decreases names@.len() - i,
    {
        assert(all.take(i + 1).drop_last() =~= all.take(i as int));
        if let Binding::Output(_) = &names[i].1 {
            total += 1;
        }
        i += 1;
    }
    assert(all.take(i as int) =~= all);
    total
}

fn first_output_in<'a>(names: &Vec<(String, Binding<'a>)>) -> (r: Option<NodeRecord>)
    ensures
        r is Some <==> first_among(pairs(names@)) is Some,
        r matches Some(o) ==> first_among(pairs(names@)) == Some(o@),
{
    let ghost all = pairs(names@);
    let mut i: usize = 0;
    assert(all.take(0) =~= Seq::empty());
    while i < names.len()
        invariant
            all == pairs(names@),
            i <= names@.len(),
            first_among(all.take(i as int)) is None,
        decreases names@.len() - i,
    {
        assert(all.take(i + 1).drop_last() =~= all.take(i as int));
        if let Binding::Output(o) = &names[i].1 {
            proof {
                lemma_first_prefix(all, i + 1);
            }
            return Some(o.clone());
        }
        i += 1;
    }
    assert(all.take(i as int) =~= all);
    None
}

proof fn lemma_first_prefix(names: Named<BindingView>, n: int)
    requires
        0 <= n <= names.len(),
        first_among(names.take(n)) is Some,
    ensures
        first_among(names) == first_among(names.take(n)),
    decreases names.len(),
{
    if n == names.len() {
        assert(names.take(n) =~= names);
    } else {
        assert(names.drop_last().take(n) =~= names.take(n));
        lemma_first_prefix(names.drop_last(), n);
    }
}

} // verus!
