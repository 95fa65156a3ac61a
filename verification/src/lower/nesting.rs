//! What lowering makes of chips, namespaces, returns, and what is carried
//! between statements.

use crate::ast::{
    AnonChipDecl, Assign, AwaitStmt, BufferSpec, Emit, Expr, FnDecl, If, LetBinding, LetDecl,
    NamespaceDecl, RecordLitField, Stmt, TopDecl, VarDecl,
};
use crate::diagnostic::{DiagnosticView, RangeView, Severity};
use crate::literal::{literal_of, LiteralView, Number};
use crate::lower::assign::{assigned, dropped_array_message, field_assigned, var_ready};
use crate::lower::awaiting::{
    await_bound, await_fields, await_noted, await_value, awaited_key, awaited_slot, flag_gate,
};
use crate::lower::decl::{
    anon_chip_lowered, chain_let, chip_node, decl_lowered, fn_message, let_lowered, ns_declared,
    ns_lowered, ns_member, ns_members, owner_outputs, ports_bound, value_bound,
};
use crate::lower::emit::{
    delay_gate, duration_lowered, emit_key, emit_queued, emit_value, emitted, in_unit,
    payload_field, payload_slot, payload_value, payload_written, queued, store_gate, stored,
};
use crate::lower::gates::{arm_node, arm_placed, joined_ports, payload_got, payload_set};
use crate::lower::graph::{
    node_of, place_of, ChipOutputsView, GateClass, NodeId, NodeKind, NodeView, Note, PortName,
    PortRef, Prop, ScopeKind,
};
use crate::lower::names::{at, put, put_reads_back, slot, Named};
use crate::lower::predeclare::{
    array_decl_declared, buffer_declared, chip_body_declared, chip_declared, chip_placed,
    input_declared, plain_fields, plain_type, plain_types, unbaked_message, var_declared,
};
use crate::lower::record::{chain_binding, field_built, put_all, record_built};
use crate::lower::signals::{
    all_emits_wired, emit_ports, emits_wired, flushed, hub_wired, hubs_spliced, without_node,
};
use crate::lower::state::{
    bound, first_module_output, module_outputs, rebound, uncached, uncached_frames, uncached_names,
    BindingView, FrameView, LowerState, NodeRecordView, PayloadView, PendingEmit, SignalAwait,
    VarView,
};
use crate::lower::stmt::{
    branches_joined, cond_started, else_started, has_return, return_stored, return_valued,
    stmt_has_return, stmt_lowered, stmt_value_returns, then_started, value_returns,
};
use crate::lower::task::{step, such, Runs, TaskView};
use crate::lower::wiring::{into_port, lemma_last_place, lemma_no_place, wire};
use crate::type_expr::{type_expr_text, TypeExprView};
use crate::types::{unref, TypeView};
use vstd::prelude::*;

verus! {

// ---------- anonymous chips ----------

/// An anonymous chip is a node of its own in the chip around it; a closed one is
/// marked, and its label and documentation go with it.
pub proof fn chips_are_placed(s: LowerState, ac: AnonChipDecl)
    requires
        forall|i: int| 0 <= i < s.nodes.len() ==> (#[trigger] s.nodes[i]).id != NodeId(s.next_node),
    ensures
        ({
            let t = chip_placed(s, ac);
            let n = t.nodes.last();
            &&& t.nodes.len() == s.nodes.len() + 1
            &&& t.nodes.drop_last() == s.nodes
            &&& t.wires == s.wires
            &&& t.anon_chip == s.anon_chip
            &&& n.id == NodeId(s.next_node)
            &&& n.kind == NodeKind::Chip
            &&& n.gate.class == GateClass::MicrochipAlt
            &&& n.gate.range == ac.range@
            &&& n.chip_id == s.anon_chip
            &&& n.scope_id == s.scope
            &&& n.gate.props.contains_key(Prop::ChipClosed) <==> ac.closed
            &&& ac.closed ==> n.gate.props[Prop::ChipClosed] == LiteralView::Bool(true)
            &&& n.gate.props.contains_key(Prop::NameLabel) <==> ac.label is Some
            &&& ac.label matches Some(l) ==> n.gate.props[Prop::NameLabel] == LiteralView::String(l@)
            &&& n.gate.props.contains_key(Prop::DocText) <==> s.docs.contains_key(
                ac.range.start.offset,
            )
            &&& s.docs.contains_key(ac.range.start.offset) ==> n.gate.props[Prop::DocText]
                == LiteralView::String(s.docs[ac.range.start.offset])
        }),
{
    let id = s.fresh();
    let s0 = s.with_gate(crate::lower::predeclare::chip_gate(ac.range@));
    assert(s0.nodes.drop_last() =~= s.nodes);
    lemma_last_place(s0.nodes, id);
    let s1 = s0.with_kind(id, NodeKind::Chip);
    assert(s1.nodes.drop_last() =~= s.nodes);
    lemma_last_place(s1.nodes, id);
    let s2 = if ac.closed {
        s1.with_prop(id, Prop::ChipClosed, LiteralView::Bool(true))
    } else {
        s1
    };
    assert(s2.nodes.drop_last() =~= s.nodes);
    lemma_last_place(s2.nodes, id);
    let s3 = crate::lower::predeclare::labelled(s2, id, ac.label);
    assert(s3.nodes.drop_last() =~= s.nodes);
    lemma_last_place(s3.nodes, id);
    assert(chip_placed(s, ac).nodes.drop_last() =~= s.nodes);
}

/// What a chip declares is declared in the order of its statements, inside the
/// chip; the chip around it is current again afterwards.
pub proof fn chip_bodies_are_declared(s: LowerState, ac: AnonChipDecl, n: nat)
    requires
        0 < n <= ac.body.stmts@.len(),
    ensures
        chip_declared(s, ac).anon_chip == s.anon_chip,
        ({
            let inside = LowerState {
                anon_chip: Some(NodeId(s.next_node)),
                ..chip_placed(s, ac)
            };
            &&& chip_declared(s, ac).nodes == chip_body_declared(
                inside,
                ac.body.stmts@,
                ac.body.stmts@.len(),
            ).nodes
            &&& chip_body_declared(inside, ac.body.stmts@, 0) == inside
        }),
        ({
            let before = chip_body_declared(s, ac.body.stmts@, (n - 1) as nat);
            let t = chip_body_declared(s, ac.body.stmts@, n);
            match ac.body.stmts@[n - 1] {
                Stmt::Var(v) => t == var_declared(before, v),
                Stmt::Buffer(b) => t == buffer_declared(before, b),
                Stmt::Array(a) => t == array_decl_declared(before, a),
                Stmt::In(i) => t == input_declared(before, i),
                Stmt::OutBinding(o) => if o.side is Some {
                    t.nodes == before.nodes && t.diags == before.diags.push(
                        DiagnosticView {
                            severity: Severity::Error,
                            code: "WS023"@,
                            message:
                                "side annotations only apply to top-level ports of the compiled file"@,
                            range: o.range@,
                        },
                    )
                } else {
                    t == before
                },
                _ => t == before,
            }
        }),
{
}

/// Gates that are placed inside a chip belong to it.
pub proof fn gates_belong_to_their_chip(s: LowerState, g: crate::lower::graph::GateView)
    ensures
        s.with_gate(g).nodes.last().chip_id == s.anon_chip,
        s.with_gate(g).nodes.last().chain_id == s.chain,
        s.with_gate(g).nodes.last().scope_id == s.scope,
        s.with_gate(g).nodes.last().kind == NodeKind::Gate,
        s.with_gate(g).nodes.last().gate == g,
        s.with_gate(g).nodes.last().id == NodeId(s.next_node),
        s.next_node < u32::MAX ==> s.with_gate(g).next_node == s.next_node + 1,
{
}

/// The node of a chip is the first chip of its place in the chip around it.
pub proof fn chips_are_found(nodes: Seq<NodeView>, range: RangeView, chip: Option<NodeId>, i: int)
    requires
        0 <= i < nodes.len(),
        nodes[i].kind == NodeKind::Chip && nodes[i].gate.range == range && nodes[i].chip_id == chip,
        forall|k: int|
            0 <= k < i ==> !((#[trigger] nodes[k]).kind == NodeKind::Chip && nodes[k].gate.range
                == range && nodes[k].chip_id == chip),
    ensures
        chip_node(nodes, range, chip) == Some(nodes[i].id),
    decreases nodes.len(),
{
    let rest = nodes.drop_last();
    if i < rest.len() {
        assert(rest[i] == nodes[i]);
        assert forall|k: int| 0 <= k < i implies !((#[trigger] rest[k]).kind == NodeKind::Chip
            && rest[k].gate.range == range && rest[k].chip_id == chip) by {
            assert(rest[k] == nodes[k]);
        }
        chips_are_found(rest, range, chip, i);
    } else {
        lemma_no_chip(rest, range, chip);
    }
}

proof fn lemma_no_chip(nodes: Seq<NodeView>, range: RangeView, chip: Option<NodeId>)
    requires
        forall|k: int|
            0 <= k < nodes.len() ==> !((#[trigger] nodes[k]).kind == NodeKind::Chip
                && nodes[k].gate.range == range && nodes[k].chip_id == chip),
    ensures
        chip_node(nodes, range, chip) is None,
    decreases nodes.len(),
{
    if nodes.len() > 0 {
        let rest = nodes.drop_last();
        assert forall|k: int| 0 <= k < rest.len() implies !((#[trigger] rest[k]).kind
            == NodeKind::Chip && rest[k].gate.range == range && rest[k].chip_id == chip) by {
            assert(rest[k] == nodes[k]);
        }
        lemma_no_chip(rest, range, chip);
        assert(nodes[nodes.len() - 1] == nodes.last());
    }
}

/// The body of an anonymous chip is lowered inside it, and the chip around it is
/// current again afterwards; a chip without a node is passed over.
pub proof fn chip_bodies_are_lowered(run: Runs, s: LowerState, d: AnonChipDecl, after: LowerState)
    requires
        anon_chip_lowered(run, s, d, after),
    ensures
        after.anon_chip == s.anon_chip,
        chip_node(s.nodes, d.range@, s.anon_chip) is None ==> after == s,
        chip_node(s.nodes, d.range@, s.anon_chip) matches Some(id) ==> exists|
            inner: LowerState,
            end: LowerState,
            p: PortRef,
        | #[trigger]
            step(run, inner, TaskView::Block(d.body), end, p) && inner.anon_chip == Some(id)
                && inner.nodes == s.nodes && inner.frames == s.frames && after.nodes == end.nodes
                && after.wires == end.wires && after.diags == end.diags,
{
    if let Some(id) = chip_node(s.nodes, d.range@, s.anon_chip) {
        let inner = LowerState { anon_chip: Some(id), ..s };
        let (mid, p) = choose|mid: LowerState, p: PortRef| #[trigger]
            step(run, inner, TaskView::Block(d.body), mid, p) && after == (LowerState {
                anon_chip: s.anon_chip,
                ..mid
            });
        assert(step(run, inner, TaskView::Block(d.body), mid, p));
    }
}

// ---------- namespaces ----------

/// A chip of a namespace is found in it by its name, and the other members stay
/// what they are.
pub proof fn namespaces_hold_their_chips(decls: Seq<TopDecl>, n: nat, other: Seq<char>)
    requires
        0 < n <= decls.len(),
    ensures
        match decls[n - 1] {
            TopDecl::Chip(c) => at(ns_members(decls, n), c.name@) == Some(c) && (other != c.name@
                ==> at(ns_members(decls, n), other) == at(
                ns_members(decls, (n - 1) as nat),
                other,
            )),
            _ => ns_members(decls, n) == ns_members(decls, (n - 1) as nat),
        },
        at(ns_members(decls, 0), other) is None,
{
    if let TopDecl::Chip(c) = decls[n - 1] {
        put_reads_back(ns_members(decls, (n - 1) as nat), c.name@, c, other);
    }
}

/// A namespace is bound under its name, with its chips as members.
pub proof fn namespaces_are_bound(run: Runs, s: LowerState, ns: NamespaceDecl, after: LowerState)
    requires
        ns_lowered(run, s, ns, after),
    ensures
        after.binding(ns.name@) == Some(
            BindingView::Namespace(ns_members(ns.decls@, ns.decls@.len())),
        ),
{
    let (s1, buffers, s2) = choose|s1: LowerState, buffers: Seq<int>, s2: LowerState|
        #![trigger such((s1, buffers, s2))]
        such((s1, buffers, s2)) && ns_declared(
            run,
            s,
            ns.decls@,
            ns.decls@.len(),
            s1,
            buffers,
        ) && crate::lower::decl::ns_buffers(
            run,
            s1,
            ns.decls@,
            buffers,
            buffers.len(),
            s2,
        ) && after == s2.with_binding(
            ns.name@,
            BindingView::Namespace(ns_members(ns.decls@, ns.decls@.len())),
        );
    crate::lower::wiring::bound_names_are_found(
        s2,
        ns.name@,
        BindingView::Namespace(ns_members(ns.decls@, ns.decls@.len())),
        ns.name@,
    );
}

/// A member of a namespace does not take over a name that stands for something
/// already.
pub proof fn bound_names_are_kept(run: Runs, s: LowerState, d: TopDecl, after: LowerState)
    requires
        ns_member(run, s, d, after),
    ensures
        match d {
            TopDecl::Chip(c) => {
                &&& s.binding(c.name@) is Some ==> after == s
                &&& s.binding(c.name@) is None ==> after.binding(c.name@) == Some(
                    BindingView::Chip(c@),
                )
            },
            TopDecl::Array(a) => {
                &&& s.binding(a.name@) is Some ==> after == s
                &&& s.binding(a.name@) is None ==> after == array_decl_declared(s, a)
            },
            TopDecl::Buffer(b) => {
                &&& s.binding(b.name@) is Some ==> after == s
                &&& s.binding(b.name@) is None ==> after == buffer_declared(s, b)
            },
            TopDecl::Var(v) => {
                &&& s.binding(v.name@) is Some ==> after == s
                &&& s.binding(v.name@) is None && v.init is None ==> after == var_declared(s, v)
            },
            TopDecl::Let(l) => let_lowered(run, s, l, after),
            _ => after == s,
        },
{
    if let TopDecl::Chip(c) = d {
        crate::lower::wiring::bound_names_are_found(s, c.name@, BindingView::Chip(c@), c.name@);
    }
}

// ---------- names and frames ----------

/// A name that is bound anew stands for its new value where it was bound, and
/// other names stay what they are.
pub proof fn names_are_bound_anew(s: LowerState, name: Seq<char>, b: BindingView, other: Seq<char>)
    ensures
        s.binding(name) is Some ==> s.with_rebound(name, b).binding(name) == Some(b),
        s.binding(name) is None ==> s.with_rebound(name, b).binding(name) is None,
        other != name ==> s.with_rebound(name, b).binding(other) == s.binding(other),
        s.with_rebound(name, b).frames.len() == s.frames.len(),
{
    lemma_rebound(s.frames, name, b, other);
}

proof fn lemma_rebound(frames: Seq<FrameView>, name: Seq<char>, b: BindingView, other: Seq<char>)
    ensures
        bound(frames, name) is Some ==> bound(rebound(frames, name, b), name) == Some(b),
        bound(frames, name) is None ==> bound(rebound(frames, name, b), name) is None,
        other != name ==> bound(rebound(frames, name, b), other) == bound(frames, other),
        rebound(frames, name, b).len() == frames.len(),
    decreases frames.len(),
{
    if frames.len() > 0 {
        let after = rebound(frames, name, b);
        if at(frames.last().names, name) is Some {
            put_reads_back(frames.last().names, name, b, other);
            assert(after.drop_last() =~= frames.drop_last());
        } else {
            lemma_rebound(frames.drop_last(), name, b, other);
            assert(after.drop_last() =~= rebound(frames.drop_last(), name, b));
        }
    }
}

/// After a write a name stands for what it stood for, less what was kept of the
/// variable's value.
pub proof fn forgetting_reaches_every_frame(s: LowerState, only: Option<NodeId>, name: Seq<char>)
    ensures
        s.binding(name) matches Some(b) ==> s.forgetting(only).binding(name) == Some(
            uncached(b, only),
        ),
        s.binding(name) is None ==> s.forgetting(only).binding(name) is None,
{
    lemma_forgetting(s.frames, only, name);
}

proof fn lemma_forgetting(frames: Seq<FrameView>, only: Option<NodeId>, name: Seq<char>)
    ensures
        bound(uncached_frames(frames, only), name) == match bound(frames, name) {
            Some(b) => Some(uncached(b, only)),
            None => None,
        },
    decreases frames.len(),
{
    if frames.len() > 0 {
        let after = uncached_frames(frames, only);
        assert(after.drop_last() =~= uncached_frames(frames.drop_last(), only));
        lemma_forgetting(frames.drop_last(), only, name);
        lemma_uncached_names(frames.last().names, only, name);
        assert(after.last().names == uncached_names(frames.last().names, only));
    }
}

proof fn lemma_uncached_names(names: Named<BindingView>, only: Option<NodeId>, name: Seq<char>)
    ensures
        slot(uncached_names(names, only), name) == slot(names, name),
        at(uncached_names(names, only), name) == match at(names, name) {
            Some(b) => Some(uncached(b, only)),
            None => None,
        },
{
    let after = uncached_names(names, only);
    crate::lower::names::lemma_slot(names, name);
    crate::lower::names::lemma_slot(after, name);
    let k = slot(names, name);
    let j = slot(after, name);
    if k < names.len() {
        assert(after[k as int].0 == name);
    }
    if j < after.len() {
        assert(names[j as int].0 == name);
    }
    if k < j && k < names.len() {
        assert(after[k as int].0 != name);
    }
    if j < k && j < names.len() {
        assert(names[j as int].0 != name);
    }
}

/// The outputs of a module are those of its frames, up to where the module
/// starts.
pub proof fn module_outputs_are_counted(frames: Seq<FrameView>, f: FrameView)
    requires
        f.names.len() == 0,
    ensures
        f.tag is Module ==> module_outputs(frames.push(f)) == 0,
        f.tag is Module ==> first_module_output(frames.push(f)) is None,
        !(f.tag is Module) ==> module_outputs(frames.push(f)) == module_outputs(frames),
        !(f.tag is Module) ==> first_module_output(frames.push(f)) == first_module_output(frames),
{
    assert(frames.push(f).drop_last() =~= frames);
}

/// Each output that is declared counts once, and the first of them is the first
/// output.
pub proof fn outputs_count_once(
    names: Named<BindingView>,
    name: Seq<char>,
    r: NodeRecordView,
    other: BindingView,
)
    ensures
        crate::lower::state::outputs_among(names.push((name, BindingView::Output(r))))
            == crate::lower::state::outputs_among(names) + 1,
        !(other is Output) ==> crate::lower::state::outputs_among(names.push((name, other)))
            == crate::lower::state::outputs_among(names),
        crate::lower::state::first_among(names) matches Some(f)
            ==> crate::lower::state::first_among(names.push((name, BindingView::Output(r)))) == Some(
            f,
        ),
        crate::lower::state::first_among(names) is None ==> crate::lower::state::first_among(
            names.push((name, BindingView::Output(r))),
        ) == Some(r),
{
    assert(names.push((name, BindingView::Output(r))).drop_last() =~= names);
    assert(names.push((name, other)).drop_last() =~= names);
}

/// The outputs of a chip are those of the first chip that holds one of them.
pub proof fn outputs_have_their_owner(chips: Seq<ChipOutputsView>, id: NodeId, i: int)
    requires
        0 <= i < chips.len(),
        chips[i].outputs.contains(id),
        forall|k: int| 0 <= k < i ==> !(#[trigger] chips[k]).outputs.contains(id),
    ensures
        owner_outputs(chips, id) == Some(chips[i].outputs),
    decreases chips.len(),
{
    let rest = chips.drop_last();
    if i < rest.len() {
        assert(rest[i] == chips[i]);
        assert forall|k: int| 0 <= k < i implies !(#[trigger] rest[k]).outputs.contains(id) by {
            assert(rest[k] == chips[k]);
        }
        outputs_have_their_owner(rest, id, i);
    } else {
        lemma_no_owner(rest, id);
    }
}

proof fn lemma_no_owner(chips: Seq<ChipOutputsView>, id: NodeId)
    requires
        forall|k: int| 0 <= k < chips.len() ==> !(#[trigger] chips[k]).outputs.contains(id),
    ensures
        owner_outputs(chips, id) is None,
    decreases chips.len(),
{
    if chips.len() > 0 {
        let rest = chips.drop_last();
        assert forall|k: int| 0 <= k < rest.len() implies !(#[trigger] rest[k]).outputs.contains(
            id,
        ) by {
            assert(rest[k] == chips[k]);
        }
        lemma_no_owner(rest, id);
        assert(chips[chips.len() - 1] == chips.last());
    }
}

// ---------- scopes and returns ----------

/// A scope lies in the scope that was current, under the next free number.
pub proof fn scopes_nest(s: LowerState, kind: ScopeKind, range: RangeView)
    ensures
        ({
            let t = s.with_scope(kind, range);
            &&& t.scopes.len() == s.scopes.len() + 1
            &&& t.scopes.drop_last() == s.scopes
            &&& t.scopes.last().id == s.next_scope
            &&& t.scopes.last().kind == kind
            &&& t.scopes.last().range == range
            &&& t.scopes.last().parent == Some(s.scope)
            &&& t.scope == s.scope
            &&& s.next_scope < u32::MAX ==> t.next_scope == s.next_scope + 1
        }),
{
    assert(s.with_scope(kind, range).scopes.drop_last() =~= s.scopes);
}

/// A condition is read in a scope of its own, in the scope of its `if`.
pub proof fn conditions_have_their_scope(s: LowerState, i: If)
    requires
        s.next_scope < u32::MAX,
    ensures
        ({
            let t = cond_started(s, i);
            let n = s.scopes.len() as int;
            &&& t.scopes.len() == n + 2
            &&& t.scopes[n].kind == ScopeKind::IfGroup && t.scopes[n].range == i.range@
            &&& t.scopes[n].parent == Some(s.scope) && t.scopes[n].id == s.next_scope
            &&& t.scopes[n + 1].kind == ScopeKind::IfCond && t.scopes[n + 1].range == i.cond.rng()@
            &&& t.scopes[n + 1].parent == Some(s.next_scope)
            &&& t.scopes[n + 1].id == s.next_scope + 1
            &&& t.scope == s.next_scope + 1
            &&& t.nodes == s.nodes && t.wires == s.wires && t.flow == s.flow
        }),
{
}

/// Returns with a value are counted, those in branches too.
pub proof fn returns_are_counted(stmts: Seq<Stmt>, n: nat)
    requires
        0 < n <= stmts.len(),
    ensures
        value_returns(stmts, 0) == 0,
        !has_return(stmts, 0),
        match stmts[n - 1] {
            Stmt::Return { value, .. } => {
                &&& has_return(stmts, n)
                &&& value is Some ==> value_returns(stmts, n) == value_returns(
                    stmts,
                    (n - 1) as nat,
                ) + 1
                &&& value is None ==> value_returns(stmts, n) == value_returns(
                    stmts,
                    (n - 1) as nat,
                )
            },
            Stmt::If(i) => {
                let taken = i.then_block.stmts@;
                &&& i.else_block is None ==> value_returns(stmts, n) == value_returns(
                    stmts,
                    (n - 1) as nat,
                ) + value_returns(taken, taken.len())
                &&& i.else_block matches Some(b) ==> value_returns(stmts, n) == value_returns(
                    stmts,
                    (n - 1) as nat,
                ) + value_returns(taken, taken.len()) + value_returns(b.stmts@, b.stmts@.len())
                &&& has_return(taken, taken.len()) ==> has_return(stmts, n)
                &&& i.else_block matches Some(b) ==> (has_return(b.stmts@, b.stmts@.len())
                    ==> has_return(stmts, n))
                &&& i.else_block is None && !has_return(taken, taken.len()) ==> has_return(stmts, n)
                    == has_return(stmts, (n - 1) as nat)
            },
            _ => value_returns(stmts, n) == value_returns(stmts, (n - 1) as nat) && has_return(
                stmts,
                n,
            ) == has_return(stmts, (n - 1) as nat),
        },
{
    reveal_with_fuel(value_returns, 3);
    reveal_with_fuel(stmt_value_returns, 3);
    reveal_with_fuel(has_return, 3);
    reveal_with_fuel(stmt_has_return, 3);
}

/// A returned record is kept field by field; a return without a value keeps
/// nothing.
pub proof fn records_are_returned(run: Runs, s: LowerState, value: Option<Expr>, after: LowerState)
    requires
        return_valued(run, s, value, after),
    ensures
        value is None ==> after == s,
        value matches Some(Expr::RecordLit { fields, .. }) ==> exists|
            mid: LowerState,
            rec: Named<BindingView>,
        | #[trigger]
            record_built(run, s, fields@, fields@.len(), mid, rec) && after.return_record == Some(rec)
                && after.nodes == mid.nodes && after.wires == mid.wires,
{
    if let Some(Expr::RecordLit { fields, .. }) = value {
        let (mid, rec) = choose|mid: LowerState, rec: Named<BindingView>|
            #![trigger such((mid, rec))]
            such((mid, rec)) && record_built(run, s, fields@, fields@.len(), mid, rec) && after == (
            LowerState { return_record: Some(rec), ..mid });
        assert(record_built(run, s, fields@, fields@.len(), mid, rec));
    }
}

// ---------- statements ----------

/// Declarations of chips, callbacks, inputs and arrays inside a body.
pub proof fn declarations_in_bodies(run: Runs, s: LowerState, st: Stmt, after: LowerState)
    requires
        stmt_lowered(run, s, st, after),
    ensures
        st is Callback || st is In ==> after == s,
        st matches Stmt::ChipDecl(c) ==> after.binding(c.name@) == Some(BindingView::Chip(c@))
            && after.nodes == s.nodes,
        st matches Stmt::Array(a) ==> s.var(a.name@) is Some ==> after == s,
        st matches Stmt::Array(a) ==> s.var(a.name@) is None ==> after == array_decl_declared(s, a),
{
    if let Stmt::ChipDecl(c) = st {
        crate::lower::wiring::bound_names_are_found(s, c.name@, BindingView::Chip(c@), c.name@);
    }
}

/// A chip at the top level is bound under its name; ports, types and imports
/// have nothing left to lower.
pub proof fn declarations_at_the_top(run: Runs, s: LowerState, d: TopDecl, after: LowerState)
    requires
        decl_lowered(run, s, d, after),
    ensures
        d matches TopDecl::Chip(c) ==> after.binding(c.name@) == Some(BindingView::Chip(c@))
            && after.nodes == s.nodes && after.wires == s.wires,
        d is In || d is Callback || d is Array || d is TypeAlias || d is Import || d is Await ==> after == s,
        d matches TopDecl::Var(v) ==> after.nodes == s.nodes && (v.init is None ==> after == s),
{
    if let TopDecl::Chip(c) = d {
        crate::lower::wiring::bound_names_are_found(s, c.name@, BindingView::Chip(c@), c.name@);
    }
}

/// A name that is given a record stands for the record.
pub proof fn lets_of_records(
    run: Runs,
    s: LowerState,
    d: LetDecl,
    after: LowerState,
    src: Named<BindingView>,
)
    requires
        chain_let(run, s, d, after),
        chain_binding(s, d.value) == Some(BindingView::Record(src)),
        d.binding is Ident,
    ensures
        after.binding(d.binding->Ident_name@) == Some(BindingView::Record(src)),
        after.nodes == s.nodes,
        after.wires == s.wires,
{
    crate::lower::wiring::bound_names_are_found(
        s,
        d.binding->Ident_name@,
        BindingView::Record(src),
        d.binding->Ident_name@,
    );
}

/// A chain of fields stands for the field of what the chain before it stands
/// for.
pub proof fn chains_stand_for_fields(
    s: LowerState,
    e: Expr,
    obj: Expr,
    field: Seq<char>,
    fields: Named<BindingView>,
)
    requires
        e matches Expr::FieldAccess { obj: o, field: f, .. } && *o == obj && f@ == field,
        chain_binding(s, obj) == Some(BindingView::Record(fields)),
    ensures
        chain_binding(s, e) == at(fields, field),
{
}

/// A name stands for what it is bound to.
pub proof fn names_stand_for_their_binding(s: LowerState, e: Expr, name: Seq<char>)
    requires
        e matches Expr::Ident { name: n, .. } && n@ == name,
    ensures
        chain_binding(s, e) == s.binding(name),
{
}

/// A field of a record that is given a name stands for what the name stands
/// for; a computed one stands for its port; a spread brings its fields along.
pub proof fn record_fields_are_built(
    run: Runs,
    s: LowerState,
    before: Named<BindingView>,
    field: RecordLitField,
    after: LowerState,
    map: Named<BindingView>,
    other: Seq<char>,
)
    requires
        field_built(run, s, before, field, after, map),
    ensures
        field matches RecordLitField::Named { name, value, .. } ==> !(value is RecordLit) ==> (
        chain_binding(s, value) matches Some(b) ==> after == s && at(map, name@) == Some(b) && (other
            != name@ ==> at(map, other) == at(before, other))),
        field matches RecordLitField::Named { name, value, .. } ==> !(value is RecordLit)
            && chain_binding(s, value) is None ==> exists|p: PortRef| #[trigger]
            step(run, s, TaskView::Expr(value), after, p) && at(map, name@) == Some(
                BindingView::Local(p),
            ),
        field matches RecordLitField::Shorthand { name, .. } ==> after == s && (s.binding(
            name@,
        ) matches Some(b) ==> at(map, name@) == Some(b)),
        field matches RecordLitField::Shorthand { name, .. } ==> s.binding(name@) is None ==> map
            == before,
        field matches RecordLitField::Spread { value, .. } ==> after == s && (chain_binding(
            s,
            value,
        ) matches Some(BindingView::Record(src)) ==> map == put_all(before, src, src.len())),
        field matches RecordLitField::Spread { value, .. } ==> chain_binding(s, value) is None ==> map
            == before,
{
    match field {
        RecordLitField::Named { name, value, .. } => {
            if !(value is RecordLit) {
                match chain_binding(s, value) {
                    Some(b) => {
                        put_reads_back(before, name@, b, other);
                    },
                    None => {
                        let p = choose|p: PortRef| #[trigger]
                            step(run, s, TaskView::Expr(value), after, p) && map == put(
                                before,
                                name@,
                                BindingView::Local(p),
                            );
                        put_reads_back(before, name@, BindingView::Local(p), other);
                        assert(step(run, s, TaskView::Expr(value), after, p));
                    },
                }
            }
        },
        RecordLitField::Shorthand { name, .. } => {
            if let Some(b) = s.binding(name@) {
                put_reads_back(before, name@, b, other);
            }
        },
        _ => {},
    }
}

/// A spread takes over: its fields stand for what they stood for in it.
pub proof fn spreads_take_over(
    m: Named<BindingView>,
    src: Named<BindingView>,
    n: nat,
    other: Seq<char>,
)
    requires
        0 < n <= src.len(),
    ensures
        at(put_all(m, src, n), src[n - 1].0) == Some(src[n - 1].1),
        other != src[n - 1].0 ==> at(put_all(m, src, n), other) == at(
            put_all(m, src, (n - 1) as nat),
            other,
        ),
        put_all(m, src, 0) == m,
{
    put_reads_back(put_all(m, src, (n - 1) as nat), src[n - 1].0, src[n - 1].1, other);
}

/// A field that is a buffer takes its value on its input.
pub proof fn buffer_fields_take_their_value(
    run: Runs,
    s: LowerState,
    a: Assign,
    rec: VarView,
    flow: PortRef,
    after: LowerState,
)
    requires
        field_assigned(run, s, a, rec, flow, after),
        rec.storage is Buffer,
    ensures
        exists|mid: LowerState, p: PortRef| #[trigger]
            step(run, s, TaskView::Expr(a.value), mid, p) && after.wires == mid.wires.push(
                into_port(p, rec.node_id, PortName::Input),
            ) && after.nodes == mid.nodes,
{
    let (mid, p) = choose|mid: LowerState, p: PortRef| #[trigger]
        step(run, s, TaskView::Expr(a.value), mid, p) && after == mid.wired(
            p,
            rec.node_id.at(PortName::Input),
        );
    assert(step(run, s, TaskView::Expr(a.value), mid, p));
}

/// An element of an array is written by its index.
pub proof fn elements_are_set_by_index(run: Runs, s: LowerState, a: Assign, after: LowerState)
    requires
        assigned(run, s, a, after),
        a.target is IndexAccess,
    ensures
        exists|p: PortRef| #[trigger]
            step(
                run,
                s,
                TaskView::ArraySet {
                    obj: *a.target->IndexAccess_obj,
                    index: *a.target->IndexAccess_index,
                    value: a.value,
                    range: a.range@,
                },
                after,
                p,
            ),
{
}

// ---------- emits ----------

/// An emit on an output wires its value to the output.
pub proof fn emitted_values_reach_outputs(
    run: Runs,
    s: LowerState,
    e: Emit,
    key: Seq<char>,
    after: LowerState,
)
    requires
        emit_value(run, s, e, key, after),
    ensures
        e.value is None ==> after == s,
        e.value matches Some(v) ==> (s.output(e.name@) matches Some(out) ==> exists|
            mid: LowerState,
            p: PortRef,
        | #[trigger]
            step(run, s, TaskView::Expr(v), mid, p) && after.wires == mid.wires.push(
                into_port(p, out.node_id, PortName::RerInput),
            )),
        e.value is Some && s.output(e.name@) is None && s.flow is None ==> after == s,
{
    if let Some(v) = e.value {
        if let Some(out) = s.output(e.name@) {
            let (mid, p) = choose|mid: LowerState, p: PortRef| #[trigger]
                step(run, s, TaskView::Expr(v), mid, p) && after == mid.wired(
                    p,
                    out.node_id.at(PortName::RerInput),
                );
            assert(step(run, s, TaskView::Expr(v), mid, p));
        }
    }
}

/// An emit without a delay waits with the flow as its source; without a flow
/// nothing waits.
pub proof fn emits_are_queued(
    run: Runs,
    s: LowerState,
    buffer: Option<BufferSpec>,
    key: Seq<char>,
    after: LowerState,
)
    requires
        emit_queued(run, s, buffer, key, after),
    ensures
        s.flow is None ==> after == s,
        buffer is None ==> (s.flow matches Some(flow) ==> after == queued(s, key, flow)),
{
}

/// An emit to nothing does nothing.
pub proof fn emits_need_a_target(run: Runs, s: LowerState, e: Emit, after: LowerState)
    requires
        emitted(run, s, e, after),
        emit_key(s, e.name@) is None,
    ensures
        after == s,
{
}

/// A field of a payload is stored under its name, with its type.
pub proof fn payload_fields_are_stored(
    run: Runs,
    s: LowerState,
    sig: Seq<char>,
    field: RecordLitField,
    after: LowerState,
)
    requires
        payload_field(run, s, sig, field, after),
    ensures
        field is Spread ==> after == s,
        field matches RecordLitField::Named { name, value, .. } ==> exists|mid: LowerState, p: PortRef|
            #[trigger]
            step(run, s, TaskView::Expr(value), mid, p) && after == payload_value(
                mid,
                sig,
                name@,
                unref(s.type_at(value.rng()@)),
                p,
            ),
        field matches RecordLitField::Shorthand { name, range } ==> exists|
            mid: LowerState,
            p: PortRef,
        | #[trigger]
            step(run, s, TaskView::Ident { name: name@, range: range@ }, mid, p) && after
                == payload_value(mid, sig, name@, unref(s.type_at(range@)), p),
{
}

/// A payload that is no record is stored without a name.
pub proof fn plain_payloads_are_stored(
    run: Runs,
    s: LowerState,
    sig: Seq<char>,
    value: Expr,
    after: LowerState,
)
    requires
        payload_written(run, s, sig, value, after),
        !(value is RecordLit),
    ensures
        exists|mid: LowerState, p: PortRef| #[trigger]
            step(run, s, TaskView::Expr(value), mid, p) && after == payload_value(
                mid,
                sig,
                Seq::empty(),
                unref(s.type_at(value.rng()@)),
                p,
            ),
{
    reveal_strlit("");
    assert(""@ =~= Seq::empty());
    let (mid, p) = choose|mid: LowerState, p: PortRef| #[trigger]
        step(run, s, TaskView::Expr(value), mid, p) && after == payload_value(
            mid,
            sig,
            ""@,
            unref(s.type_at(value.rng()@)),
            p,
        );
    assert(step(run, s, TaskView::Expr(value), mid, p));
}

/// A duration that is a constant is a setting and no wire; any other is wired.
pub proof fn durations_are_wired_or_set(
    run: Runs,
    s: LowerState,
    d: Option<Expr>,
    after: LowerState,
    w: Option<PortRef>,
)
    requires
        duration_lowered(run, s, d, after, w),
    ensures
        d is None ==> w is None && after == s,
        d matches Some(e) ==> (literal_of(e) is Some ==> w is None && after == s),
        d matches Some(e) ==> (literal_of(e) is None ==> w is Some && step(
            run,
            s,
            TaskView::Expr(e),
            after,
            w->0,
        )),
{
}

/// The flag of a wait is raised by writing `true` to it.
pub proof fn arming_writes_true(s: LowerState, flag: NodeId)
    requires
        s.next_node < u32::MAX - 1,
    ensures
        ({
            let t = arm_placed(s, flag);
            let n = s.nodes.len() as int;
            let lit = NodeId(s.next_node);
            let set = NodeId((s.next_node + 1) as u32);
            &&& t.nodes.len() == n + 2
            &&& t.nodes[n].id == lit
            &&& t.nodes[n].gate.props.contains_key(Prop::Value) ==> t.nodes[n].gate.props[Prop::Value]
                == LiteralView::Bool(true)
            &&& t.nodes[n + 1].id == set
            &&& t.nodes[n + 1].gate.class == GateClass::VarSet
            &&& t.wires == s.wires.push(wire(flag, PortName::VarRef, set, PortName::VarRef)).push(
                wire(lit, PortName::Output, set, PortName::Value),
            )
            &&& arm_node(s) == set
        }),
{
}

// ---------- waiting ----------

/// A name in front of a wait stands for the payload of the signal, or for the
/// value behind the wait, or for the pulse.
pub proof fn awaited_values(
    run: Runs,
    s: LowerState,
    a: AwaitStmt,
    pulse: PortRef,
    after: LowerState,
    port: PortRef,
)
    requires
        await_value(run, s, a, pulse, after, port),
    ensures
        ({
            let slot = awaited_slot(s, a.exec_expr, Seq::empty());
            &&& slot matches Some(p) ==> after == payload_got(s, p.store, p.ty) && port == (PortRef {
                node_id: NodeId(s.next_node),
                port: PortName::Value,
            })
            &&& slot is None && a.value_expr is None ==> after == s && port == pulse
            &&& slot is None ==> (a.value_expr matches Some(e) ==> step(
                run,
                s,
                TaskView::Expr(e),
                after,
                port,
            ))
        }),
{
    reveal_strlit("");
    assert(""@ =~= Seq::empty());
}

/// A wait without a name binds nothing.
pub proof fn nameless_waits(
    run: Runs,
    s: LowerState,
    a: AwaitStmt,
    pulse: PortRef,
    after: LowerState,
)
    requires
        await_bound(run, s, a, pulse, after),
        a.binding is None,
    ensures
        after == s,
{
}

/// A field that the signal does not carry is warned of, and one that it carries
/// is bound to its name.
pub proof fn awaited_fields(s: LowerState, a: AwaitStmt, fields: Seq<(String, String)>, n: nat)
    requires
        0 < n <= fields.len(),
    ensures
        ({
            let before = await_fields(s, a, fields, (n - 1) as nat);
            let t = await_fields(s, a, fields, n);
            let slot = awaited_slot(before, a.exec_expr, fields[n - 1].0@);
            &&& slot is None ==> t.diags.len() == before.diags.len() + 1 && t.diags.last().message
                == "awaited signal has no ferried payload field `"@ + fields[n - 1].0@
                + "` — emit a value first (`emit <sig> = { "@ + fields[n - 1].0@ + ": ... }`)"@
                && t.diags.last().range == a.range@ && t.diags.last().severity is Warning
            &&& slot is Some ==> t.binding(fields[n - 1].1@) == Some(
                BindingView::Local(
                    PortRef { node_id: NodeId(before.next_node), port: PortName::Value },
                ),
            )
        }),
{
    let before = await_fields(s, a, fields, (n - 1) as nat);
    if let Some(p) = awaited_slot(before, a.exec_expr, fields[n - 1].0@) {
        crate::lower::wiring::bound_names_are_found(
            payload_got(before, p.store, p.ty),
            fields[n - 1].1@,
            BindingView::Local(before.fresh().at(PortName::Value)),
            fields[n - 1].1@,
        );
    }
}

// ---------- flushing ----------

/// Waiting emits are wired signal by signal, and hubs are spliced out one by
/// one; nothing waits afterwards.
pub proof fn flushing_goes_through_all(s: LowerState, n: nat, m: nat)
    requires
        0 < n <= s.pending.len(),
        0 < m <= s.hubs.len(),
    ensures
        all_emits_wired(s, s.pending, n) == emits_wired(
            all_emits_wired(s, s.pending, (n - 1) as nat),
            s.pending[n - 1].0,
            s.pending[n - 1].1,
        ),
        hubs_spliced(s, s.hubs, m) == crate::lower::signals::spliced(
            hubs_spliced(s, s.hubs, (m - 1) as nat),
            s.hubs[m - 1].1,
        ),
        ({
            let clear = LowerState { pending: Seq::empty(), ..s };
            let done = all_emits_wired(clear, s.pending, s.pending.len());
            flushed(s) == hubs_spliced(done, done.hubs, done.hubs.len())
        }),
{
}

/// A node that is taken out is gone, and the others stay in their order.
pub proof fn nodes_are_taken_out(nodes: Seq<NodeView>, id: NodeId, i: int)
    requires
        0 <= i < nodes.len(),
        nodes[i].id == id,
        forall|k: int, j: int|
            0 <= k < j < nodes.len() ==> (#[trigger] nodes[k]).id != (#[trigger] nodes[j]).id,
    ensures
        without_node(nodes, id) == nodes.take(i) + nodes.skip(i + 1),
{
    lemma_place_is(nodes, id, i);
    assert(nodes.remove(i) =~= nodes.take(i) + nodes.skip(i + 1));
}

proof fn lemma_place_is(nodes: Seq<NodeView>, id: NodeId, i: int)
    requires
        0 <= i < nodes.len(),
        nodes[i].id == id,
        forall|k: int, j: int|
            0 <= k < j < nodes.len() ==> (#[trigger] nodes[k]).id != (#[trigger] nodes[j]).id,
    ensures
        place_of(nodes, id) == i,
    decreases nodes.len(),
{
    let rest = nodes.drop_last();
    if i == nodes.len() - 1 {
        assert forall|k: int| 0 <= k < rest.len() implies (#[trigger] rest[k]).id != id by {
            assert(rest[k] == nodes[k] && nodes[k].id != nodes[i].id);
        }
        lemma_no_place(rest, id);
    } else {
        assert(rest[i] == nodes[i]);
        assert forall|k: int, j: int| 0 <= k < j < rest.len() implies (#[trigger] rest[k]).id != (
        #[trigger] rest[j]).id by {
            assert(rest[k] == nodes[k] && rest[j] == nodes[j]);
        }
        lemma_place_is(rest, id, i);
    }
}

// ---------- words ----------

/// What is said of an initializer that cannot be kept.
pub proof fn dropped_values_are_named(v: VarDecl)
    ensures
        v.is_static ==> unbaked_message(v) == "'static var "@ + v.name@
            + "' initializer must be a compile-time constant — this value is dropped and the var starts at its type default"@,
        !v.is_static ==> unbaked_message(v) == "'var "@ + v.name@
            + "' initializer is not a compile-time constant — outside an exec context it is dropped and the var starts at its type default; assign the value inside an exec handler instead"@,
        dropped_array_message(v.name@) == "'var "@ + v.name@
            + "' array initializer must be an array literal — this value is dropped; build the array with methods like push/copyFrom instead"@,
{
}

/// What is said of a function: how to write it as a mod, with each parameter and
/// its own type.
pub proof fn functions_are_rewritten(f: FnDecl)
    requires
        f.params@.len() == 2,
        f.return_type is Some,
    ensures
        fn_message(f) == "'fn "@ + f.name@ + "' is deprecated — use 'mod "@ + f.name@ + "("@ + ((
        f.params@[0].name@ + ": "@ + type_expr_text(f.params@[0].typ@)) + ", "@ + (f.params@[1].name@
            + ": "@ + type_expr_text(f.params@[1].typ@))) + ") -> "@ + type_expr_text(
            f.return_type->0@,
        ) + " { return <body> }'"@,
{
    let p = f.params@[0].name@ + ": "@ + type_expr_text(f.params@[0].typ@);
    let q = f.params@[1].name@ + ": "@ + type_expr_text(f.params@[1].typ@);
    let all = crate::lower::decl::param_texts(f.params@, 2);
    reveal_with_fuel(crate::lower::decl::param_texts, 3);
    assert(all =~= seq![p, q]);
    crate::text_laws::parts_are_joined(all, p, q, ", "@);
}

/// A written type stands for the type of its parts.
pub proof fn written_types_are_plain(t: TypeExprView, inner: TypeExprView)
    ensures
        t matches TypeExprView::Ref { inner: i, .. } ==> *i == inner ==> plain_type(t)
            == TypeView::Ref(Box::new(plain_type(inner))),
        t matches TypeExprView::Array { inner: i, .. } ==> *i == inner ==> plain_type(t)
            == TypeView::Array(Box::new(plain_type(inner))),
        t matches TypeExprView::Name { name, .. } ==> name == "int"@ ==> plain_type(t)
            == TypeView::Int,
        t matches TypeExprView::Name { name, .. } ==> name == "float"@ ==> plain_type(t)
            == TypeView::Float,
        t matches TypeExprView::Name { name, .. } ==> name == "bool"@ ==> plain_type(t)
            == TypeView::Bool,
        t matches TypeExprView::Name { name, .. } ==> name == "string"@ ==> plain_type(t)
            == TypeView::String,
        t matches TypeExprView::Name { name, .. } ==> name == "vector"@ ==> plain_type(t)
            == TypeView::Vector,
{
    crate::typecheck::checking::type_words(TypeView::Int);
}

// ---------- durations, payloads and hubs ----------

/// A duration is kept in the unit of its delay: whole ticks, or seconds with a
/// fraction.
pub proof fn durations_are_in_their_unit(n: i64, bits: u64)
    ensures
        in_unit(false, LiteralView::Int(n)) == LiteralView::Int(n),
        in_unit(true, LiteralView::Int(n)) == LiteralView::Float(Number::Nearest(n)),
        in_unit(true, LiteralView::Float(Number::Bits(bits))) == LiteralView::Float(
            Number::Bits(bits),
        ),
        in_unit(false, LiteralView::Float(Number::Bits(bits))) == LiteralView::Int(
            crate::literal::whole(bits),
        ),
        in_unit(false, LiteralView::Float(Number::Nearest(n))) == LiteralView::Int(n),
{
}

/// A new payload slot leaves the other slots of its signal, and those of other
/// signals, as they are; a slot that is there is used again.
pub proof fn payload_slots_stay_apart(
    s: LowerState,
    sig: Seq<char>,
    field: Seq<char>,
    ty: TypeView,
    other: Seq<char>,
    far: Seq<char>,
)
    ensures
        payload_slot(s, sig, field) is Some ==> stored(s, sig, field, ty) == s,
        payload_slot(s, sig, field) is None ==> (payload_slot(
            stored(s, sig, field, ty),
            sig,
            field,
        ) matches Some(p) && p.store == NodeId(s.next_node) && p.ty == ty),
        other != field ==> payload_slot(stored(s, sig, field, ty), sig, other) == payload_slot(
            s,
            sig,
            other,
        ),
        far != sig ==> payload_slot(stored(s, sig, field, ty), far, other) == payload_slot(
            s,
            far,
            other,
        ),
{
    if payload_slot(s, sig, field) is None {
        let slots = match at(s.payloads, sig) {
            Some(l) => l,
            None => Seq::empty(),
        };
        let p = PayloadView { store: s.fresh(), ty };
        let more = slots.push((field, p));
        put_reads_back(s.payloads, sig, more, far);
        crate::lower::names::lemma_slot(slots, field);
        assert(at(slots, field) is None);
        assert forall|j: int| 0 <= j < slots.len() implies (#[trigger] more[j]).0 != field by {
            assert(slots[j].0 != field);
        }
        crate::lower::names::lemma_slot_is(more, field, slots.len() as int);
        assert(at(more, field) == Some(p));
        if other != field {
            crate::lower::names::lemma_slot(slots, other);
            crate::lower::names::lemma_slot(more, other);
            let k = slot(slots, other);
            let j = slot(more, other);
            if k < slots.len() {
                assert(more[k as int].0 == other);
                if j < k {
                    assert(slots[j as int].0 == other);
                }
                if k < j {
                    assert(more[k as int].0 != other);
                }
            } else if j < more.len() {
                assert(j < slots.len());
                assert(slots[j as int].0 == other);
            }
            assert(at(more, other) == at(slots, other));
        }
    }
}

/// An emit of a signal that nobody waits for goes straight into its hub.
pub proof fn hubs_take_single_emits(s: LowerState, hub: NodeId, e: PendingEmit)
    ensures
        hub_wired(s, hub, seq![e], None).wires == s.wires.push(
            into_port(e.source, hub, PortName::ExecA),
        ),
        hub_wired(s, hub, seq![e], None).nodes == s.nodes,
{
    let entries = seq![e];
    assert(entries.drop_last() =~= Seq::empty());
    assert(emit_ports(Seq::empty(), None, false) =~= Seq::empty());
    assert(emit_ports(Seq::empty(), None, true) =~= Seq::empty());
    assert(emit_ports(entries, None, false) =~= seq![e.source]);
    assert(emit_ports(entries, None, true) =~= Seq::empty());
}

/// An emit on the chain that waits raises the flag again on its way into the
/// hub; one from another chain enters the hub beside it.
pub proof fn hubs_part_their_emits(
    s: LowerState,
    hub: NodeId,
    a: PendingEmit,
    b: PendingEmit,
    w: SignalAwait,
)
    requires
        a.chain == w.chain,
        b.chain != w.chain,
        s.next_node < u32::MAX - 1,
    ensures
        ({
            let t = hub_wired(s, hub, seq![a, b], Some(w));
            let lit = NodeId(s.next_node);
            let set = NodeId((s.next_node + 1) as u32);
            t.wires == s.wires + seq![
                wire(w.armed, PortName::VarRef, set, PortName::VarRef),
                wire(lit, PortName::Output, set, PortName::Value),
                into_port(a.source, set, PortName::Exec),
                wire(set, PortName::ExecOut, hub, PortName::ExecA),
                into_port(b.source, hub, PortName::ExecB),
            ]
        }),
{
    let entries = seq![a, b];
    let x = Some(w);
    assert(entries.drop_last() =~= seq![a]);
    assert(seq![a].drop_last() =~= Seq::empty());
    assert(emit_ports(Seq::empty(), x, false) =~= Seq::empty());
    assert(emit_ports(Seq::empty(), x, true) =~= Seq::empty());
    assert(emit_ports(seq![a], x, false) =~= Seq::empty());
    assert(emit_ports(seq![a], x, true) =~= seq![a.source]);
    assert(emit_ports(entries, x, false) =~= seq![b.source]);
    assert(emit_ports(entries, x, true) =~= seq![a.source]);
    assert(joined_ports(s, seq![a.source], 1) == (s, a.source));
    let lit = NodeId(s.next_node);
    let set = NodeId((s.next_node + 1) as u32);
    assert(hub_wired(s, hub, entries, x).wires =~= s.wires + seq![
        wire(w.armed, PortName::VarRef, set, PortName::VarRef),
        wire(lit, PortName::Output, set, PortName::Value),
        into_port(a.source, set, PortName::Exec),
        wire(set, PortName::ExecOut, hub, PortName::ExecA),
        into_port(b.source, hub, PortName::ExecB),
    ]);
}

/// The first wait for a signal outside branches is the one that its emits know
/// of.
pub proof fn first_waits_are_noted(s: LowerState, flag: NodeId, e: Expr)
    ensures
        awaited_key(s, e) is None ==> await_noted(s, flag, e) == s,
        s.depth > 0 ==> await_noted(s, flag, e) == s,
        awaited_key(s, e) matches Some(key) ==> at(s.awaits, key) is Some ==> await_noted(s, flag, e)
            == s,
        awaited_key(s, e) matches Some(key) ==> s.depth == 0 && at(s.awaits, key) is None
            ==> await_noted(s, flag, e).awaits == s.awaits.push(
            (key, SignalAwait { armed: flag, chain: s.chain }),
        ),
{
}

/// A signal is awaited by its name; anything else is no signal.
pub proof fn signals_are_awaited_by_name(s: LowerState, e: Expr)
    ensures
        e matches Expr::Ident { name, .. } ==> awaited_key(s, e) == s.signal(name@),
        !(e is Ident) ==> awaited_key(s, e) is None,
{
}

/// Several names take the outputs of one node, in order.
pub proof fn names_take_outputs_in_order(
    s: LowerState,
    b: LetBinding,
    port: PortRef,
    n: NodeView,
)
    requires
        node_of(s.nodes, port.node_id) == Some(n),
        n.gate.io.outputs.len() == 2,
    ensures
        b matches LetBinding::Tuple { names, .. } ==> names@.len() == 2 && names@[0]@ != names@[1]@
            ==> value_bound(s, b, port).binding(names@[0]@) == Some(
            BindingView::Local(PortRef { node_id: n.id, port: n.gate.io.outputs[0].name }),
        ) && value_bound(s, b, port).binding(names@[1]@) == Some(
            BindingView::Local(PortRef { node_id: n.id, port: n.gate.io.outputs[1].name }),
        ),
        b matches LetBinding::Record { names, .. } ==> names@.len() == 2 && names@[0]@ != names@[1]@
            ==> value_bound(s, b, port).binding(names@[0]@) == Some(
            BindingView::Local(PortRef { node_id: n.id, port: n.gate.io.outputs[0].name }),
        ) && value_bound(s, b, port).binding(names@[1]@) == Some(
            BindingView::Local(PortRef { node_id: n.id, port: n.gate.io.outputs[1].name }),
        ),
{
    match b {
        LetBinding::Tuple { names, .. } => {
            if names@.len() == 2 && names@[0]@ != names@[1]@ {
                lemma_two_outputs(s, n, names@);
            }
        },
        LetBinding::Record { names, .. } => {
            if names@.len() == 2 && names@[0]@ != names@[1]@ {
                lemma_two_outputs(s, n, names@);
            }
        },
        _ => {},
    }
}

proof fn lemma_two_outputs(s: LowerState, n: NodeView, names: Seq<String>)
    requires
        n.gate.io.outputs.len() == 2,
        names.len() == 2,
        names[0]@ != names[1]@,
    ensures
        ({
            let t = ports_bound(s, n.id, n.gate.io.outputs, names, 2);
            &&& t.binding(names[0]@) == Some(
                BindingView::Local(PortRef { node_id: n.id, port: n.gate.io.outputs[0].name }),
            )
            &&& t.binding(names[1]@) == Some(
                BindingView::Local(PortRef { node_id: n.id, port: n.gate.io.outputs[1].name }),
            )
        }),
{
    let outs = n.gate.io.outputs;
    assert(ports_bound(s, n.id, outs, names, 0) == s);
    let b0 = BindingView::Local(n.id.at(outs[0].name));
    let b1 = BindingView::Local(n.id.at(outs[1].name));
    let s1 = ports_bound(s, n.id, outs, names, 1);
    assert(s1 == s.with_binding(names[0]@, b0));
    crate::lower::wiring::bound_names_are_found(s, names[0]@, b0, names[0]@);
    crate::lower::wiring::bound_names_are_found(s1, names[1]@, b1, names[0]@);
}

/// A static variable, and one outside the flow, is warned of where its value
/// cannot be kept; on the flow it is not.
pub proof fn dropped_values_are_warned_of(s: LowerState, v: VarDecl)
    requires
        s.var(v.name@) is Some,
        v.init is Some,
        crate::literal::unbaked(v.init->0),
    ensures
        v.is_static || s.flow is None ==> var_ready(s, v).diags.len() == s.diags.len() + 1
            && var_ready(s, v).diags.last().message == unbaked_message(v) && var_ready(
            s,
            v,
        ).diags.last().range == (v.init->0).rng()@ && var_ready(s, v).diags.last().severity
            is Warning,
        !v.is_static && s.flow is Some ==> var_ready(s, v) == s,
{
}

// ---------- where gates belong ----------

/// A gate remembers the statement that it was placed for, and what it is for.
pub proof fn gates_remember_their_place(
    s: LowerState,
    i: If,
    a: AwaitStmt,
    spec: BufferSpec,
    ty: TypeView,
    flow: PortRef,
    cond: PortRef,
    end: Option<PortRef>,
    group: u32,
)
    ensures
        ({
            let t = then_started(s, i, flow, cond, group);
            t.nodes.last().gate.range == i.range@ && t.nodes.last().gate.class == GateClass::Branch
        }),
        ({
            let t = branches_joined(s, i, end, group);
            t.nodes.last().gate.range == i.range@ && t.nodes.last().gate.class == GateClass::Union
        }),
        flag_gate(a.range@).range == a.range@,
        flag_gate(a.range@).note == Some(Note::AwaitArmed),
        delay_gate(spec).range == spec.range@,
        delay_gate(spec).note == Some(Note::BufferedEmit),
        store_gate(ty).note == Some(Note::PayloadStore),
        s.return_var is Some && s.flow is Some ==> return_stored(s, cond).nodes.last().gate.note
            == Some(Note::ReturnSet),
        s.flow is Some ==> payload_set(s, NodeId(0), cond, ty).nodes.last().gate.note == Some(
            Note::PayloadWrite,
        ),
        payload_got(s, NodeId(0), ty).nodes.last().gate.note == Some(Note::PayloadRead),
        arm_placed(s, NodeId(0)).nodes.last().gate.note == Some(Note::EmitArms),
{
}

/// The branches of an `if` have scopes of their own, in the scope of the `if`.
pub proof fn branches_have_their_scopes(
    s: LowerState,
    i: If,
    flow: PortRef,
    cond: PortRef,
    group: u32,
    branch: NodeId,
)
    ensures
        ({
            let t = then_started(s, i, flow, cond, group);
            let sc = t.scopes.last();
            &&& sc.kind == ScopeKind::IfThen && sc.parent == Some(group)
            &&& sc.range == i.then_block.range@ && t.scope == sc.id
            &&& t.flow == Some(PortRef { node_id: NodeId(s.next_node), port: PortName::ExecOutA })
            &&& s.depth < usize::MAX ==> t.depth == s.depth + 1
        }),
        ({
            let t = else_started(s, i, branch, group);
            let sc = t.scopes.last();
            &&& sc.kind == ScopeKind::IfElse && sc.parent == Some(group)
            &&& i.else_block matches Some(b) ==> sc.range == b.range@
            &&& i.else_block is None ==> sc.range == i.range@
            &&& t.scope == sc.id
            &&& t.flow == Some(PortRef { node_id: branch, port: PortName::ExecOutB })
        }),
        ({
            let t = branches_joined(s, i, None, group);
            t.scope == group && (s.depth > 0 ==> t.depth == s.depth - 1)
        }),
{
}

/// What a buffer computes runs on a chain of its own.
pub proof fn buffers_have_their_chain(
    run: Runs,
    s: LowerState,
    d: crate::ast::BufferDecl,
    after: LowerState,
    rec: NodeRecordView,
)
    requires
        crate::lower::decl::buffer_lowered(run, s, d, after),
        s.buffer(d.name@) == Some(rec),
        s.next_chain < u32::MAX,
    ensures
        after.chain == s.chain,
        exists|inner: LowerState, end: LowerState, p: PortRef| #[trigger]
            step(run, inner, TaskView::Expr(d.init), end, p) && inner.chain == Some(s.next_chain)
                && inner.next_chain == s.next_chain + 1 && after.wires == end.wires.push(
                into_port(p, rec.node_id, PortName::Input),
            ),
{
    let inner = LowerState { next_chain: crate::lower::state::next_of(s.next_chain), ..s }.in_chain(
        Some(s.next_chain),
    ).with_node_chain(rec.node_id, Some(s.next_chain));
    let (mid, p) = choose|mid: LowerState, p: PortRef| #[trigger]
        step(run, inner, TaskView::Expr(d.init), mid, p) && after == mid.wired(
            p,
            rec.node_id.at(PortName::Input),
        ).in_chain(s.chain);
    assert(step(run, inner, TaskView::Expr(d.init), mid, p));
}

/// A name that is no word for a value stands for anything, and so does the type
/// of nothing; tuples, unions and records have the types of their parts in
/// order.
pub proof fn other_written_types(t: TypeExprView, n: nat)
    ensures
        t matches TypeExprView::Name { name, .. } ==> crate::typecheck::register::primitive(name)
            is None ==> plain_type(t) == TypeView::Any,
        t matches TypeExprView::Name { name, .. } ==> name == "never"@ ==> plain_type(t)
            == TypeView::Any,
        t matches TypeExprView::Tuple { fields, .. } ==> (plain_type(t) matches TypeView::Tuple(v)
            && v == plain_types(fields, fields.len())),
        t matches TypeExprView::Union { options, .. } ==> (plain_type(t) matches TypeView::Union(v)
            && v == plain_types(options, options.len())),
        t matches TypeExprView::Tuple { fields, .. } ==> 0 < n <= fields.len() ==> plain_types(
            fields,
            n,
        ) == plain_types(fields, (n - 1) as nat).push(plain_type(fields[n - 1])),
        t matches TypeExprView::Record { fields, .. } ==> (plain_type(t) matches TypeView::Record(v)
            && v == plain_fields(fields, fields.len())),
        t matches TypeExprView::Record { fields, .. } ==> 0 < n <= fields.len() ==> plain_fields(
            fields,
            n,
        ) == plain_fields(fields, (n - 1) as nat).push(
            (fields[n - 1].name, plain_type(fields[n - 1].typ)),
        ),
{
    crate::typecheck::checking::type_words(TypeView::Int);
    reveal_with_fuel(plain_type, 2);
    reveal_with_fuel(plain_types, 2);
    reveal_with_fuel(plain_fields, 2);
}

/// A variable of a namespace whose value cannot be kept is warned of.
pub proof fn namespace_variables_are_warned_of(
    run: Runs,
    s: LowerState,
    v: VarDecl,
    after: LowerState,
)
    requires
        ns_member(run, s, TopDecl::Var(v), after),
        s.binding(v.name@) is None,
        v.init is Some,
        crate::literal::unbaked(v.init->0),
        !(v.init->0 is Array),
    ensures
        after.diags == var_declared(s, v).diags.push(
            DiagnosticView {
                severity: Severity::Warning,
                code: "WSP001"@,
                message: unbaked_message(v),
                range: (v.init->0).rng()@,
            },
        ),
        after.nodes == var_declared(s, v).nodes,
{
}

/// Without a flow an `if` does nothing.
pub proof fn ifs_need_a_flow(run: Runs, s: LowerState, i: If, after: LowerState)
    requires
        crate::lower::stmt::if_lowered(run, s, i, after),
        s.flow is None,
    ensures
        after == s,
{
}

/// A hub is found again by its node, under the key that it was given last.
pub proof fn hubs_keep_their_keys(keys: Seq<(NodeId, Seq<char>)>, hub: NodeId, key: Seq<char>, other: NodeId)
    ensures
        crate::lower::state::hub_key(keys.push((hub, key)), hub) == Some(key),
        other != hub ==> crate::lower::state::hub_key(keys.push((hub, key)), other)
            == crate::lower::state::hub_key(keys, other),
        crate::lower::state::hub_key(Seq::empty(), hub) is None,
{
    assert(keys.push((hub, key)).drop_last() =~= keys);
}

/// A binding is found as what it was bound as, and as nothing else.
pub proof fn bindings_are_told_apart(s: LowerState, name: Seq<char>)
    ensures
        s.binding(name) matches Some(BindingView::Var(v)) ==> s.var(name) == Some(v) && s.buffer(name)
            is None,
        s.binding(name) matches Some(BindingView::Buffer(b)) ==> s.buffer(name) == Some(b) && s.var(
            name,
        ) is None,
        s.binding(name) is None ==> s.var(name) is None && s.buffer(name) is None && s.signal(name)
            is None,
        s.binding(crate::lower::state::output_key(name)) matches Some(BindingView::Output(o))
            ==> s.output(name) == Some(o),
{
}

/// The type of a place is the one that was checked for it, or anything.
pub proof fn types_come_from_checking(s: LowerState, r: RangeView)
    ensures
        s.types.contains_key((r.file, r.start.offset, r.end.offset)) ==> s.type_at(r) == s.types[(
            r.file,
            r.start.offset,
            r.end.offset,
        )],
        !s.types.contains_key((r.file, r.start.offset, r.end.offset)) ==> s.type_at(r)
            == TypeView::Any,
{
}

} // verus!
