//! Wiring of the emits that a module has gathered.

use crate::diagnostic::views;
use crate::lower::ctx::LowerCtx;
use crate::lower::gates::{
    arm_node, arm_placed, build_arm_set, build_exec_union, joined_ports,
};
use crate::lower::graph::{find_node, place_of, NodeId, NodeView, PortName, PortRef, Wire};
use crate::lower::names::{at, find_key, pairs, Named};
use crate::lower::state::{
    Binding, BindingView, LocalRecord, LowerState, PendingEmit, SignalAwait,
};
use vstd::prelude::*;

verus! {

// ---------- splicing out a union with one input ----------

/// The number of wires into a node.
pub open spec fn count_into(wires: Seq<Wire>, id: NodeId) -> nat
    decreases wires.len(),
{
    if wires.len() == 0 {
        0
    } else {
        count_into(wires.drop_last(), id) + if wires.last().target.node_id == id {
            1nat
        } else {
            0nat
        }
    }
}

/// The place of the last wire into a node.
pub open spec fn last_into(wires: Seq<Wire>, id: NodeId) -> int
    decreases wires.len(),
{
    if wires.len() == 0 {
        -1
    } else if wires.last().target.node_id == id {
        wires.len() - 1
    } else {
        last_into(wires.drop_last(), id)
    }
}

/// A wire that leaves `hub` leaves `src` instead.
pub open spec fn redirected(w: Wire, hub: NodeId, src: PortRef) -> Wire {
    if w.source.node_id == hub {
        Wire { source: src, target: w.target }
    } else {
        w
    }
}

pub open spec fn redirected_all(wires: Seq<Wire>, hub: NodeId, src: PortRef) -> Seq<Wire> {
    Seq::new(wires.len(), |i: int| redirected(wires[i], hub, src))
}

/// The nodes without the one that goes by `id`.
pub open spec fn without_node(nodes: Seq<NodeView>, id: NodeId) -> Seq<NodeView> {
    if place_of(nodes, id) < nodes.len() {
        nodes.remove(place_of(nodes, id) as int)
    } else {
        nodes
    }
}

/// A hub with exactly one incoming wire taken out: what hung off it hangs off
/// the source of that wire. Any other hub stays.
pub open spec fn spliced(s: LowerState, hub: NodeId) -> LowerState {
    if count_into(s.wires, hub) == 1 {
        let k = last_into(s.wires, hub);
        let src = s.wires[k].source;
        LowerState {
            wires: redirected_all(s.wires, hub, src).remove(k),
            nodes: without_node(s.nodes, hub),
            ..s
        }
    } else {
        s
    }
}

proof fn lemma_last_into(wires: Seq<Wire>, id: NodeId)
    ensures
        -1 <= last_into(wires, id) < wires.len(),
        last_into(wires, id) >= 0 ==> wires[last_into(wires, id)].target.node_id == id,
        (count_into(wires, id) > 0) == (last_into(wires, id) >= 0),
    decreases wires.len(),
{
    if wires.len() > 0 {
        lemma_last_into(wires.drop_last(), id);
    }
}

pub fn splice_single_input_union<'a>(ctx: &mut LowerCtx<'a>, hub: NodeId)
    ensures
        final(ctx)@ == spliced(old(ctx)@, hub),
{
    let ghost all = ctx.wires@;
    let mut count: usize = 0;
    let mut found: usize = 0;
    let mut i: usize = 0;
    assert(all.take(0) =~= Seq::empty());
    while i < ctx.wires.len()
        invariant
            *ctx == *old(ctx),
            all == ctx.wires@,
            i <= all.len(),
            count <= i,
            count as nat == count_into(all.take(i as int), hub),
            count > 0 ==> found as int == last_into(all.take(i as int), hub),
        decreases all.len() - i,
    {
        assert(all.take(i + 1).drop_last() =~= all.take(i as int));
        if ctx.wires[i].target.node_id == hub {
            count += 1;
            found = i;
        }
        i += 1;
    }
    assert(all.take(i as int) =~= all);
    if count != 1 {
        return ;
    }
    proof {
        lemma_last_into(all, hub);
    }
    let src = ctx.wires[found].source;
    let mut out: Vec<Wire> = Vec::new();
    let mut j: usize = 0;
    while j < ctx.wires.len()
        invariant
            *ctx == *old(ctx),
            all == ctx.wires@,
            j <= all.len(),
            out@ == redirected_all(all, hub, src).take(j as int),
        decreases all.len() - j,
    {
        let w = ctx.wires[j];
        if w.source.node_id == hub {
            out.push(Wire { source: src, target: w.target });
        } else {
            out.push(w);
        }
        assert(out@ =~= redirected_all(all, hub, src).take(j + 1));
        j += 1;
    }
    assert(redirected_all(all, hub, src).take(j as int) =~= redirected_all(all, hub, src));
    out.remove(found);
    ctx.wires = out;
    let ghost nodes = ctx.nodes@;
    if let Some(k) = find_node(&ctx.nodes, hub) {
        ctx.nodes.remove(k);
    }
    assert(views(ctx.nodes@) =~= without_node(views(nodes), hub));
    assert(ctx@ =~= spliced(old(ctx)@, hub));
}

/// After a hub is spliced out no wire leaves it or enters it.
pub proof fn splicing_frees_the_hub(s: LowerState, hub: NodeId)
    requires
        count_into(s.wires, hub) == 1,
        s.wires[last_into(s.wires, hub)].source.node_id != hub,
    ensures
        forall|i: int|
            0 <= i < spliced(s, hub).wires.len() ==> {
                &&& (#[trigger] spliced(s, hub).wires[i]).source.node_id != hub
                &&& spliced(s, hub).wires[i].target.node_id != hub
            },
{
    let k = last_into(s.wires, hub);
    lemma_last_into(s.wires, hub);
    let all = redirected_all(s.wires, hub, s.wires[k].source);
    assert forall|i: int| 0 <= i < spliced(s, hub).wires.len() implies {
        &&& (#[trigger] spliced(s, hub).wires[i]).source.node_id != hub
        &&& spliced(s, hub).wires[i].target.node_id != hub
    } by {
        let j = if i < k {
            i
        } else {
            i + 1
        };
        assert(spliced(s, hub).wires[i] == all[j]);
        assert(s.wires[j].target.node_id != hub) by {
            if s.wires[j].target.node_id == hub {
                lemma_two_into(s.wires, hub, j, k);
            }
        }
    }
}

proof fn lemma_one_into(wires: Seq<Wire>, id: NodeId, i: int)
    requires
        0 <= i < wires.len(),
        wires[i].target.node_id == id,
    ensures
        count_into(wires, id) >= 1,
    decreases wires.len(),
{
    if i < wires.len() - 1 {
        lemma_one_into(wires.drop_last(), id, i);
    }
}

proof fn lemma_two_into(wires: Seq<Wire>, id: NodeId, i: int, j: int)
    requires
        0 <= i < wires.len(),
        0 <= j < wires.len(),
        i != j,
        wires[i].target.node_id == id,
        wires[j].target.node_id == id,
    ensures
        count_into(wires, id) >= 2,
    decreases wires.len(),
{
    let n = wires.len() - 1;
    if i == n {
        lemma_one_into(wires.drop_last(), id, j);
    } else if j == n {
        lemma_one_into(wires.drop_last(), id, i);
    } else {
        lemma_two_into(wires.drop_last(), id, i, j);
    }
}

/// Whatever ran when a spliced hub ran now runs when the hub's one source does:
/// every wire from the hub to another node has a counterpart from that source.
pub proof fn splicing_keeps_flow(s: LowerState, hub: NodeId, w: Wire)
    requires
        count_into(s.wires, hub) == 1,
        s.wires.contains(w),
        w.source.node_id == hub,
        w.target.node_id != hub,
    ensures
        spliced(s, hub).wires.contains(
            Wire { source: s.wires[last_into(s.wires, hub)].source, target: w.target },
        ),
{
    lemma_last_into(s.wires, hub);
    let k = last_into(s.wires, hub);
    let src = s.wires[k].source;
    let all = redirected_all(s.wires, hub, src);
    let i = choose|i: int| 0 <= i < s.wires.len() && s.wires[i] == w;
    assert(i != k);
    assert(all[i] == Wire { source: src, target: w.target });
    if i < k {
        assert(all.remove(k)[i] == all[i]);
    } else {
        assert(all.remove(k)[i - 1] == all[i]);
    }
}

// ---------- flushing the emits ----------

/// The ports of the emits made on the chain of an `await`, or of the others.
pub open spec fn emit_ports(
    entries: Seq<PendingEmit>,
    awaited: Option<SignalAwait>,
    same_chain: bool,
) -> Seq<PortRef>
    decreases entries.len(),
{
    if entries.len() == 0 {
        Seq::empty()
    } else {
        let before = emit_ports(entries.drop_last(), awaited, same_chain);
        if on_chain(entries.last(), awaited) == same_chain {
            before.push(entries.last().source)
        } else {
            before
        }
    }
}

/// Whether an emit was made on the chain of an `await` of its signal.
pub open spec fn on_chain(e: PendingEmit, awaited: Option<SignalAwait>) -> bool {
    match awaited {
        Some(a) => e.chain == a.chain,
        None => false,
    }
}

/// The emits of a signal wired into its hub. Those made on the chain of an
/// `await` of the signal arm its flag first.
pub open spec fn hub_wired(
    s: LowerState,
    hub: NodeId,
    entries: Seq<PendingEmit>,
    awaited: Option<SignalAwait>,
) -> LowerState {
    let arming = emit_ports(entries, awaited, true);
    let direct = emit_ports(entries, awaited, false);
    let s1 = if arming.len() > 0 {
        let (s2, out) = joined_ports(s, arming, arming.len());
        let arm = arm_node(s2);
        arm_placed(s2, awaited->0.armed).wired(out, arm.at(PortName::Exec)).wired(
            arm.at(PortName::ExecOut),
            hub.at(PortName::ExecA),
        )
    } else {
        s
    };
    if direct.len() > 0 {
        let (s2, out) = joined_ports(s1, direct, direct.len());
        s2.wired(
            out,
            hub.at(
                if arming.len() > 0 {
                    PortName::ExecB
                } else {
                    PortName::ExecA
                },
            ),
        )
    } else {
        s1
    }
}

/// The emits of one name wired: into the output of that name, or else into the
/// hub of the signal, or else bound to the name.
pub open spec fn emits_wired(s: LowerState, name: Seq<char>, entries: Seq<PendingEmit>) -> LowerState {
    if entries.len() == 0 {
        s
    } else {
        match (s.output(name), at(s.hubs, name)) {
            (Some(out), _) => {
                let ports = emit_ports(entries, None, false);
                let (s1, port) = joined_ports(s, ports, ports.len());
                s1.wired(port, out.node_id.at(PortName::RerInput))
            },
            (None, Some(hub)) => hub_wired(s, hub, entries, at(s.awaits, name)),
            (None, None) => {
                let ports = emit_ports(entries, None, false);
                let (s1, port) = joined_ports(s, ports, ports.len());
                s1.with_binding(name, BindingView::Local(port))
            },
        }
    }
}

/// The first `n` names' emits wired.
pub open spec fn all_emits_wired(s: LowerState, pending: Named<Seq<PendingEmit>>, n: nat) -> LowerState
    decreases n,
{
    if n == 0 || n > pending.len() {
        s
    } else {
        emits_wired(
            all_emits_wired(s, pending, (n - 1) as nat),
            pending[n - 1].0,
            pending[n - 1].1,
        )
    }
}

/// The first `n` hubs spliced out where they have one input.
pub open spec fn hubs_spliced(s: LowerState, hubs: Named<NodeId>, n: nat) -> LowerState
    decreases n,
{
    if n == 0 || n > hubs.len() {
        s
    } else {
        spliced(hubs_spliced(s, hubs, (n - 1) as nat), hubs[n - 1].1)
    }
}

/// Every gathered emit wired, and every hub with one input spliced out.
pub open spec fn flushed(s: LowerState) -> LowerState {
    let s1 = all_emits_wired(
        LowerState { pending: Seq::empty(), ..s },
        s.pending,
        s.pending.len(),
    );
    hubs_spliced(s1, s1.hubs, s1.hubs.len())
}

/// The ports of the emits made on the chain of an `await`, or of the others.
fn ports_of(entries: &Vec<PendingEmit>, awaited: Option<SignalAwait>, same_chain: bool) -> (r: Vec<
    PortRef,
>)
    ensures
        r@ == emit_ports(entries@, awaited, same_chain),
{
    let mut out: Vec<PortRef> = Vec::new();
    let mut i: usize = 0;
    assert(entries@.take(0) =~= Seq::empty());
    while i < entries.len()
        invariant
            i <= entries@.len(),
            out@ == emit_ports(entries@.take(i as int), awaited, same_chain),
        decreases entries.len() - i,
    {
        assert(entries@.take(i + 1).drop_last() =~= entries@.take(i as int));
        let e = entries[i];
        let hit = match awaited {
            Some(a) => e.chain == a.chain,
            None => false,
        };
        if hit == same_chain {
            out.push(e.source);
        }
        i += 1;
    }
    assert(entries@.take(i as int) =~= entries@);
    out
}

proof fn lemma_all_ports(entries: Seq<PendingEmit>)
    ensures
        emit_ports(entries, None, false).len() == entries.len(),
    decreases entries.len(),
{
    if entries.len() > 0 {
        lemma_all_ports(entries.drop_last());
    }
}

proof fn lemma_no_await_no_ports(entries: Seq<PendingEmit>)
    ensures
        emit_ports(entries, None, true).len() == 0,
    decreases entries.len(),
{
    if entries.len() > 0 {
        lemma_no_await_no_ports(entries.drop_last());
    }
}

fn wire_hub<'a>(
    ctx: &mut LowerCtx<'a>,
    hub: NodeId,
    entries: &Vec<PendingEmit>,
    awaited: Option<SignalAwait>,
)
    ensures
        final(ctx)@ == hub_wired(old(ctx)@, hub, entries@, awaited),
{
    let arming = ports_of(entries, awaited, true);
    let direct = ports_of(entries, awaited, false);
    let mut next_hub_port = PortName::ExecA;
    if arming.len() > 0 {
        proof {
            if awaited is None {
                lemma_no_await_no_ports(entries@);
            }
        }
        if let Some(a) = awaited {
            let union_out = build_exec_union(ctx, &arming);
            let arm = build_arm_set(ctx, a.armed);
            ctx.connect(union_out, arm.port(PortName::Exec));
            ctx.connect(arm.port(PortName::ExecOut), hub.port(next_hub_port));
            next_hub_port = PortName::ExecB;
        }
    }
    if direct.len() > 0 {
        let union_out = build_exec_union(ctx, &direct);
        ctx.connect(union_out, hub.port(next_hub_port));
    }
}

fn wire_emits<'a>(ctx: &mut LowerCtx<'a>, name: &str, entries: &Vec<PendingEmit>)
    ensures
        final(ctx)@ == emits_wired(old(ctx)@, name@, entries@),
{
    if entries.len() == 0 {
        return ;
    }
    proof {
        lemma_all_ports(entries@);
    }
    if let Some(out) = ctx.lookup_output(name) {
        let ports = ports_of(entries, None, false);
        let exec_out = build_exec_union(ctx, &ports);
        ctx.connect(exec_out, out.node_id.port(PortName::RerInput));
        return ;
    }
    if let Some(i) = find_key(&ctx.exec_signal_hubs, name) {
        let hub = ctx.exec_signal_hubs[i].1;
        let awaited = match find_key(&ctx.signal_awaits, name) {
            Some(k) => Some(ctx.signal_awaits[k].1),
            None => None,
        };
        wire_hub(ctx, hub, entries, awaited);
        return ;
    }
    let ports = ports_of(entries, None, false);
    let exec_out = build_exec_union(ctx, &ports);
    ctx.bind_name(name, Binding::Local(LocalRecord { port: exec_out }));
}

/// Wires every gathered emit.
pub fn flush_pending_emits<'a>(ctx: &mut LowerCtx<'a>)
    ensures
        final(ctx)@ == flushed(old(ctx)@),
{
    let mut pending: Vec<(String, Vec<PendingEmit>)> = Vec::new();
    std::mem::swap(&mut pending, &mut ctx.pending_emits);
    assert(pairs(ctx.pending_emits@) =~= Seq::empty());
    let ghost start = ctx@;
    let mut i: usize = 0;
    while i < pending.len()
        invariant
            i <= pending@.len(),
            ctx@ == all_emits_wired(start, pairs(pending@), i as nat),
        decreases pending.len() - i,
    {
        wire_emits(ctx, pending[i].0.as_str(), &pending[i].1);
        i += 1;
    }
    let ghost wired = ctx@;
    let mut hubs: Vec<NodeId> = Vec::new();
    let mut j: usize = 0;
    while j < ctx.exec_signal_hubs.len()
        invariant
            ctx@ == wired,
            j <= ctx.exec_signal_hubs@.len(),
            hubs@.len() == j,
            forall|k: int| 0 <= k < j ==> hubs@[k] == (#[trigger] ctx.exec_signal_hubs@[k]).1,
        decreases ctx.exec_signal_hubs@.len() - j,
    {
        hubs.push(ctx.exec_signal_hubs[j].1);
        j += 1;
    }
    assert(forall|k: int| 0 <= k < hubs@.len() ==> hubs@[k] == (#[trigger] wired.hubs[k]).1) by {
        assert forall|k: int| 0 <= k < hubs@.len() implies hubs@[k] == (#[trigger] wired.hubs[k]).1 by {
            assert(wired.hubs[k].1 == ctx.exec_signal_hubs@[k].1@);
        }
    }
    let mut m: usize = 0;
    while m < hubs.len()
        invariant
            m <= hubs@.len(),
            hubs@.len() == wired.hubs.len(),
            forall|k: int| 0 <= k < hubs@.len() ==> hubs@[k] == (#[trigger] wired.hubs[k]).1,
            ctx@ == hubs_spliced(wired, wired.hubs, m as nat),
        decreases hubs.len() - m,
    {
        assert(hubs@[m as int] == wired.hubs[m as int].1);
        splice_single_input_union(ctx, hubs[m]);
        m += 1;
    }
}

/// Flushing leaves no emit waiting.
pub proof fn flushing_empties(s: LowerState)
    ensures
        flushed(s).pending.len() == 0,
{
    let s0 = LowerState { pending: Seq::empty(), ..s };
    lemma_wiring_keeps_pending(s0, s.pending, s.pending.len());
    let s1 = all_emits_wired(s0, s.pending, s.pending.len());
    lemma_splicing_keeps_pending(s1, s1.hubs, s1.hubs.len());
}

proof fn lemma_joining_keeps(s: LowerState, ports: Seq<PortRef>, n: nat)
    ensures
        joined_ports(s, ports, n).0.pending == s.pending,
        joined_ports(s, ports, n).0.frames == s.frames,
    decreases n,
{
    if n > 1 {
        lemma_joining_keeps(s, ports, (n - 1) as nat);
    }
}

proof fn lemma_wiring_keeps_pending(s: LowerState, pending: Named<Seq<PendingEmit>>, n: nat)
    ensures
        all_emits_wired(s, pending, n).pending == s.pending,
    decreases n,
{
    if n > 0 && n <= pending.len() {
        lemma_wiring_keeps_pending(s, pending, (n - 1) as nat);
        let before = all_emits_wired(s, pending, (n - 1) as nat);
        let entries = pending[n - 1].1;
        let ports = emit_ports(entries, None, false);
        lemma_joining_keeps(before, ports, ports.len());
        let awaited = at(before.awaits, pending[n - 1].0);
        let arming = emit_ports(entries, awaited, true);
        lemma_joining_keeps(before, arming, arming.len());
        let direct = emit_ports(entries, awaited, false);
        lemma_joining_keeps(before, direct, direct.len());
        if arming.len() > 0 && at(before.hubs, pending[n - 1].0) is Some {
            let hub = at(before.hubs, pending[n - 1].0)->0;
            let (s2, out) = joined_ports(before, arming, arming.len());
            let arm = arm_node(s2);
            let s1 = arm_placed(s2, awaited->0.armed).wired(out, arm.at(PortName::Exec)).wired(
                arm.at(PortName::ExecOut),
                hub.at(PortName::ExecA),
            );
            lemma_joining_keeps(s1, direct, direct.len());
        }
    }
}

proof fn lemma_splicing_keeps_pending(s: LowerState, hubs: Named<NodeId>, n: nat)
    ensures
        hubs_spliced(s, hubs, n).pending == s.pending,
    decreases n,
{
    if n > 0 && n <= hubs.len() {
        lemma_splicing_keeps_pending(s, hubs, (n - 1) as nat);
    }
}

/// Joining `n` exec ports places one union gate less than there are ports, and
/// two wires for each.
pub proof fn joining_is_a_chain(s: LowerState, ports: Seq<PortRef>, n: nat)
    requires
        1 <= n <= ports.len(),
    ensures
        joined_ports(s, ports, n).0.nodes.len() == s.nodes.len() + n - 1,
        joined_ports(s, ports, n).0.wires.len() == s.wires.len() + 2 * (n - 1),
        s.nodes.is_prefix_of(joined_ports(s, ports, n).0.nodes),
        s.wires.is_prefix_of(joined_ports(s, ports, n).0.wires),
    decreases n,
{
    if n > 1 {
        joining_is_a_chain(s, ports, (n - 1) as nat);
    }
}

/// Exec flow at `from` runs on to `to` through at most `k` gates.
pub open spec fn leads(wires: Seq<Wire>, from: PortRef, to: PortRef, k: nat) -> bool
    decreases k,
{
    from == to || (k > 0 && exists|i: int|
        0 <= i < wires.len() && (#[trigger] wires[i]).source == from && leads(
            wires,
            wires[i].target.node_id.at(PortName::ExecOut),
            to,
            (k - 1) as nat,
        ))
}

proof fn lemma_leads_more(a: Seq<Wire>, b: Seq<Wire>, from: PortRef, to: PortRef, k: nat)
    requires
        a.is_prefix_of(b),
        leads(a, from, to, k),
    ensures
        leads(b, from, to, k),
    decreases k,
{
    if from != to {
        let i = choose|i: int|
            0 <= i < a.len() && (#[trigger] a[i]).source == from && leads(
                a,
                a[i].target.node_id.at(PortName::ExecOut),
                to,
                (k - 1) as nat,
            );
        assert(b[i] == a[i]);
        lemma_leads_more(a, b, a[i].target.node_id.at(PortName::ExecOut), to, (k - 1) as nat);
    }
}

proof fn lemma_leads_on(wires: Seq<Wire>, from: PortRef, i: int, k: nat)
    requires
        0 <= i < wires.len(),
        leads(wires, from, wires[i].source, k),
    ensures
        leads(wires, from, wires[i].target.node_id.at(PortName::ExecOut), k + 1),
    decreases k,
{
    let mid = wires[i].source;
    let to = wires[i].target.node_id.at(PortName::ExecOut);
    if from == mid {
        assert(leads(wires, to, to, k));
    } else {
        let j = choose|j: int|
            0 <= j < wires.len() && (#[trigger] wires[j]).source == from && leads(
                wires,
                wires[j].target.node_id.at(PortName::ExecOut),
                mid,
                (k - 1) as nat,
            );
        lemma_leads_on(wires, wires[j].target.node_id.at(PortName::ExecOut), i, (k - 1) as nat);
        assert(leads(wires, wires[j].target.node_id.at(PortName::ExecOut), to, k));
    }
}

/// When any of the joined exec ports runs, the port they are joined to runs.
pub proof fn joining_reaches(s: LowerState, ports: Seq<PortRef>, n: nat, i: int)
    requires
        n <= ports.len(),
        0 <= i < n,
    ensures
        leads(joined_ports(s, ports, n).0.wires, ports[i], joined_ports(s, ports, n).1, n),
    decreases n,
{
    if n > 1 {
        let (s1, current) = joined_ports(s, ports, (n - 1) as nat);
        let all = joined_ports(s, ports, n).0.wires;
        let id = s1.fresh();
        let a = s1.wires.len() as int;
        assert(all[a] == Wire { source: current, target: id.at(PortName::ExecA) });
        assert(all[a + 1] == Wire { source: ports[n - 1], target: id.at(PortName::ExecB) });
        assert(s1.wires.is_prefix_of(all));
        if i < n - 1 {
            joining_reaches(s, ports, (n - 1) as nat, i);
            lemma_leads_more(s1.wires, all, ports[i], current, (n - 1) as nat);
            lemma_leads_on(all, ports[i], a, (n - 1) as nat);
        } else {
            assert(leads(all, ports[i], ports[i], (n - 1) as nat));
            lemma_leads_on(all, ports[i], a + 1, (n - 1) as nat);
        }
    }
}

proof fn lemma_joining_spares(s: LowerState, ports: Seq<PortRef>, n: nat, id: NodeId)
    requires
        id.0 < s.next_node,
        s.next_node + n <= u32::MAX,
    ensures
        count_into(joined_ports(s, ports, n).0.wires, id) == count_into(s.wires, id),
        s.next_node <= joined_ports(s, ports, n).0.next_node <= s.next_node + n,
    decreases n,
{
    if n > 1 {
        lemma_joining_spares(s, ports, (n - 1) as nat, id);
        let (s1, current) = joined_ports(s, ports, (n - 1) as nat);
        let union = s1.fresh();
        let a = s1.wires.push(Wire { source: current, target: union.at(PortName::ExecA) });
        let b = a.push(Wire { source: ports[n - 1], target: union.at(PortName::ExecB) });
        assert(a.drop_last() =~= s1.wires);
        assert(b.drop_last() =~= a);
        assert(count_into(a, id) == count_into(s1.wires, id));
        assert(joined_ports(s, ports, n).0.wires =~= b);
    }
}

/// However many emits an output has, they come to it by one wire.
pub proof fn one_wire_per_output(s: LowerState, name: Seq<char>, entries: Seq<PendingEmit>)
    requires
        entries.len() > 0,
        s.output(name) is Some,
        s.output(name)->0.node_id.0 < s.next_node,
        s.next_node + entries.len() <= u32::MAX,
    ensures
        count_into(emits_wired(s, name, entries).wires, s.output(name)->0.node_id) == count_into(
            s.wires,
            s.output(name)->0.node_id,
        ) + 1,
{
    lemma_all_ports(entries);
    let id = s.output(name)->0.node_id;
    let ports = emit_ports(entries, None, false);
    lemma_joining_spares(s, ports, ports.len(), id);
    let (s1, port) = joined_ports(s, ports, ports.len());
    let last = s1.wires.push(Wire { source: port, target: id.at(PortName::RerInput) });
    assert(last.drop_last() =~= s1.wires);
}

} // verus!
