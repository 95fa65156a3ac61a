//! Emits: payloads, buffered delivery, and the queue of pending emits.

use crate::assoc::AssocMap;
use crate::ast::{BufferSpec, Emit, Expr, RecordLitField};
use crate::diagnostic::{no_range, views, SourceRange};
use crate::literal::{
    default_literal, default_literal_for_var_type, expr_to_literal, literal_of, shown, whole,
    whole_part, Literal, LiteralView, Number, MINUS_ONE_BITS, ONE_BITS,
};
use crate::lower::ctx::LowerCtx;
use crate::lower::gates::{chain_var_set, payload_set};
use crate::lower::graph::{
    io_of_var, port_spec, port_view, var_io, GateClass, GateIO, GateSpec, GateView, IoView, NodeId,
    Note, PortName, PortRef, PortSpec, PortView, Prop,
};
use crate::lower::names::{at, find_key, pairs, put, slot, Named};
use crate::lower::state::{LowerState, Payload, PayloadSlot, PayloadView, PendingEmit};
use crate::lower::task::{run_task, runs, step, such, total, Runs, Task, TaskView};
use crate::text::owned;
use crate::types::{unref, unwrap_ref, Type, TypeView};
use vstd::prelude::*;

verus! {

// ---------- payload stores ----------

/// The slot that carries a field of a signal's payload.
pub open spec fn payload_slot(s: LowerState, sig: Seq<char>, field: Seq<char>) -> Option<
    PayloadView,
> {
    match at(s.payloads, sig) {
        Some(slots) => at(slots, field),
        None => None,
    }
}

/// A copy of the slot that carries a field of a signal's payload.
pub fn find_payload<'a>(ctx: &LowerCtx<'a>, sig: &str, field: &str) -> (r: Option<PayloadSlot>)
    ensures
        r is Some <==> payload_slot(ctx@, sig@, field@) is Some,
        r matches Some(p) ==> payload_slot(ctx@, sig@, field@) == Some(p@),
{
    match find_key(&ctx.exec_signal_payloads, sig) {
        Some(i) => {
            let slots = &ctx.exec_signal_payloads[i].1.slots;
            match find_key(slots, field) {
                Some(k) => Some(PayloadSlot { store: slots[k].1.store, ty: slots[k].1.ty.clone() }),
                None => None,
            }
        },
        None => None,
    }
}

/// What holds a payload.
pub open spec fn store_gate(ty: TypeView) -> GateView {
    GateView {
        class: GateClass::PseudoVar,
        range: no_range(),
        props: Map::empty().insert(Prop::InitialValue, default_literal(ty)),
        io: var_io(ty),
        note: Some(Note::PayloadStore),
    }
}

/// The state in which a payload field has a store; it is made when there is
/// none.
pub open spec fn stored(s: LowerState, sig: Seq<char>, field: Seq<char>, ty: TypeView) -> LowerState {
    if payload_slot(s, sig, field) is Some {
        s
    } else {
        let slots = match at(s.payloads, sig) {
            Some(l) => l,
            None => Seq::empty(),
        };
        let s1 = s.with_gate(store_gate(ty));
        LowerState {
            payloads: put(
                s1.payloads,
                sig,
                slots.push((field, PayloadView { store: s.fresh(), ty })),
            ),
            ..s1
        }
    }
}

/// The store of a payload field.
pub open spec fn store_of(s: LowerState, sig: Seq<char>, field: Seq<char>) -> NodeId {
    match payload_slot(s, sig, field) {
        Some(p) => p.store,
        None => s.fresh(),
    }
}

pub fn payload_store<'a>(ctx: &mut LowerCtx<'a>, sig: &str, field: &str, ty: &Type) -> (r: NodeId)
    ensures
        final(ctx)@ == stored(old(ctx)@, sig@, field@, ty@),
        r == store_of(old(ctx)@, sig@, field@),
{
    if let Some(p) = find_payload(ctx, sig, field) {
        return p.store;
    }
    let mut props: AssocMap<Prop, Literal> = AssocMap::new();
    if let Some(lit) = default_literal_for_var_type(ty) {
        props.insert(Prop::InitialValue, lit);
    }
    let gate = GateSpec {
        class: GateClass::PseudoVar,
        range: SourceRange::default(),
        props,
        io: io_of_var(ty),
        note: Some(Note::PayloadStore),
    };
    assert(gate@ == store_gate(ty@));
    let store = ctx.add_gate(gate);
    let ghost before = ctx.exec_signal_payloads@;
    let slot = PayloadSlot { store, ty: ty.clone() };
    match find_key(&ctx.exec_signal_payloads, sig) {
        Some(i) => {
            proof {
                crate::lower::names::lemma_slot(pairs(before), sig@);
            }
            ctx.exec_signal_payloads[i].1.slots.push((owned(field), slot));
            assert(ctx.exec_signal_payloads@[i as int].1@ =~= before[i as int].1@.push(
                (field@, slot@),
            ));
            assert(pairs(ctx.exec_signal_payloads@) =~= put(
                pairs(before),
                sig@,
                before[i as int].1@.push((field@, slot@)),
            ));
        },
        None => {
            let slots: Vec<(String, PayloadSlot)> = vec![(owned(field), slot)];
            let only = Payload { slots };
            assert(only@ =~= Seq::<(Seq<char>, PayloadView)>::empty().push((field@, slot@)));
            ctx.exec_signal_payloads.push((owned(sig), only));
            assert(pairs(ctx.exec_signal_payloads@) =~= put(pairs(before), sig@, only@));
        },
    }
    store
}

/// A value written into the store of a payload field.
pub open spec fn payload_value(
    s: LowerState,
    sig: Seq<char>,
    field: Seq<char>,
    ty: TypeView,
    value: PortRef,
) -> LowerState {
    payload_set(stored(s, sig, field, ty), store_of(s, sig, field), value, ty)
}

fn store_payload<'a>(ctx: &mut LowerCtx<'a>, sig: &str, field: &str, ty: &Type, value: PortRef)
    ensures
        final(ctx)@ == payload_value(old(ctx)@, sig@, field@, ty@, value),
{
    let store = payload_store(ctx, sig, field, ty);
    chain_var_set(ctx, store, value, ty);
}

/// One field of a record payload written; a spread carries nothing.
pub open spec fn payload_field(
    run: Runs,
    s: LowerState,
    sig: Seq<char>,
    field: RecordLitField,
    after: LowerState,
) -> bool {
    match field {
        RecordLitField::Named { name, value, .. } => exists|mid: LowerState, p: PortRef| #[trigger]
            step(run, s, TaskView::Expr(value), mid, p) && after == payload_value(
                mid,
                sig,
                name@,
                unref(s.type_at(value.rng()@)),
                p,
            ),
        RecordLitField::Shorthand { name, range } => exists|mid: LowerState, p: PortRef| #[trigger]
            step(run, s, TaskView::Ident { name: name@, range: range@ }, mid, p) && after
                == payload_value(mid, sig, name@, unref(s.type_at(range@)), p),
        RecordLitField::Spread { .. } => after == s,
    }
}

/// The first `n` fields of a record payload written.
pub open spec fn payload_fields(
    run: Runs,
    s: LowerState,
    sig: Seq<char>,
    fields: Seq<RecordLitField>,
    n: nat,
    after: LowerState,
) -> bool
    decreases n,
{
    if n == 0 || n > fields.len() {
        after == s
    } else {
        exists|mid: LowerState|
            #![trigger such(mid)]
            such(mid) && payload_fields(run, s, sig, fields, (n - 1) as nat, mid) && payload_field(
                run,
                mid,
                sig,
                fields[n - 1],
                after,
            )
    }
}

/// The value of `emit sig = value` written into the signal's stores: one store
/// per field of a record literal, one without a field name for another value.
pub open spec fn payload_written(
    run: Runs,
    s: LowerState,
    sig: Seq<char>,
    value: Expr,
    after: LowerState,
) -> bool {
    match value {
        Expr::RecordLit { fields, .. } => payload_fields(
            run,
            s,
            sig,
            fields@,
            fields@.len(),
            after,
        ),
        _ => exists|mid: LowerState, p: PortRef| #[trigger]
            step(run, s, TaskView::Expr(value), mid, p) && after == payload_value(
                mid,
                sig,
                ""@,
                unref(s.type_at(value.rng()@)),
                p,
            ),
    }
}

fn write_payload_field<'a, F: Fn(LowerCtx<'a>, Task<'a>) -> (LowerCtx<'a>, PortRef)>(
    f: &F,
    ctx: &mut LowerCtx<'a>,
    sig: &str,
    field: &'a RecordLitField,
)
    requires
        total(*f),
    ensures
        payload_field(runs(*f), old(ctx)@, sig@, *field, final(ctx)@),
{
    match field {
        RecordLitField::Named { name, value, .. } => {
            let ty = unwrap_ref(&ctx.type_of(value));
            let port = run_task(f, ctx, Task::Expr(value));
            store_payload(ctx, sig, name.as_str(), &ty, port);
        },
        RecordLitField::Shorthand { name, range } => {
            let ty = unwrap_ref(&ctx.type_in(range));
            let port = run_task(f, ctx, Task::Ident { name, range });
            store_payload(ctx, sig, name.as_str(), &ty, port);
        },
        RecordLitField::Spread { .. } => {},
    }
}

pub fn write_signal_payload<'a, F: Fn(LowerCtx<'a>, Task<'a>) -> (LowerCtx<'a>, PortRef)>(
    f: &F,
    ctx: &mut LowerCtx<'a>,
    sig: &str,
    value_expr: &'a Expr,
)
    requires
        total(*f),
    ensures
        payload_written(runs(*f), old(ctx)@, sig@, *value_expr, final(ctx)@),
{
    if let Expr::RecordLit { fields, .. } = value_expr {
        let mut i: usize = 0;
        while i < fields.len()
            invariant
                total(*f),
                i <= fields@.len(),
                payload_fields(runs(*f), old(ctx)@, sig@, fields@, i as nat, ctx@),
            decreases fields.len() - i,
        {
            let ghost mid = ctx@;
            write_payload_field(f, ctx, sig, &fields[i]);
            assert(such(mid));
            i += 1;
        }
        return ;
    }
    let ty = unwrap_ref(&ctx.type_of(value_expr));
    let port = run_task(f, ctx, Task::Expr(value_expr));
    store_payload(ctx, sig, "", &ty, port);
}

// ---------- buffered delivery ----------

/// A duration in the unit of the buffer: ticks are whole numbers, seconds are
/// not.
pub open spec fn in_unit(seconds: bool, lit: LiteralView) -> LiteralView {
    match lit {
        LiteralView::Int(n) => if seconds {
            LiteralView::Float(Number::Nearest(n))
        } else {
            lit
        },
        LiteralView::Float(f) => if seconds {
            lit
        } else {
            match f {
                Number::Bits(b) => LiteralView::Int(whole(b)),
                Number::Nearest(n) => LiteralView::Int(n),
            }
        },
        other => other,
    }
}

fn unit_lit(seconds: bool, lit: Literal) -> (r: Literal)
    ensures
        r@ == in_unit(seconds, lit@),
{
    match lit {
        Literal::Int(n) => if seconds {
            Literal::Float(Number::Nearest(n))
        } else {
            Literal::Int(n)
        },
        Literal::Float(f) => if seconds {
            Literal::Float(f)
        } else {
            match f {
                Number::Bits(b) => Literal::Int(whole_part(b)),
                Number::Nearest(n) => Literal::Int(n),
            }
        },
        other => other,
    }
}

/// The setting and port of the delay.
pub open spec fn delay_prop(seconds: bool) -> Prop {
    if seconds {
        Prop::SecondsToWait
    } else {
        Prop::TicksToWait
    }
}

pub open spec fn delay_port(seconds: bool) -> PortName {
    if seconds {
        PortName::SecondsToWait
    } else {
        PortName::TicksToWait
    }
}

/// The setting and port of the time the output stays up.
pub open spec fn hold_prop(seconds: bool) -> Prop {
    if seconds {
        Prop::ZeroSecondsToWait
    } else {
        Prop::ZeroTicksToWait
    }
}

pub open spec fn hold_port(seconds: bool) -> PortName {
    if seconds {
        PortName::ZeroSecondsToWait
    } else {
        PortName::ZeroTicksToWait
    }
}

pub open spec fn unit_type(seconds: bool) -> TypeView {
    if seconds {
        TypeView::Float
    } else {
        TypeView::Int
    }
}

/// The delay when none is given: one tick, or one second.
pub open spec fn default_delay(seconds: bool) -> LiteralView {
    if seconds {
        LiteralView::Float(Number::Bits(ONE_BITS))
    } else {
        LiteralView::Int(1)
    }
}

/// The hold when none is given: minus one, which follows the delay.
pub open spec fn default_hold(seconds: bool) -> LiteralView {
    if seconds {
        LiteralView::Float(Number::Bits(MINUS_ONE_BITS))
    } else {
        LiteralView::Int(-1i64 as i64)
    }
}

/// The constant a duration bakes to; none when it has to be wired.
pub open spec fn baked_duration(
    d: Option<Expr>,
    seconds: bool,
    default: LiteralView,
) -> Option<LiteralView> {
    match d {
        None => Some(default),
        Some(e) => match literal_of(e) {
            Some(l) => Some(in_unit(seconds, l)),
            None => None,
        },
    }
}

pub open spec fn with_setting(
    props: Map<Prop, LiteralView>,
    key: Prop,
    value: Option<LiteralView>,
) -> Map<Prop, LiteralView> {
    match value {
        Some(l) => props.insert(key, l),
        None => props,
    }
}

pub open spec fn with_duration_port(
    ports: Seq<PortView>,
    baked: Option<LiteralView>,
    port: PortView,
) -> Seq<PortView> {
    if baked is None {
        ports.push(port)
    } else {
        ports
    }
}

/// The delay of an emit, as a gate. A constant duration is a setting, any
/// other one a port.
pub open spec fn delay_gate(spec: BufferSpec) -> GateView {
    let seconds = spec.seconds;
    let delay = baked_duration(spec.delay, seconds, default_delay(seconds));
    let hold = baked_duration(spec.hold, seconds, default_hold(seconds));
    GateView {
        class: if seconds {
            GateClass::BufferSeconds
        } else {
            GateClass::BufferTicks
        },
        range: spec.range@,
        props: with_setting(
            with_setting(Map::empty(), delay_prop(seconds), delay),
            hold_prop(seconds),
            hold,
        ),
        io: IoView {
            inputs: with_duration_port(
                with_duration_port(
                    seq![port_view(PortName::Input, TypeView::Exec)],
                    delay,
                    port_view(delay_port(seconds), unit_type(seconds)),
                ),
                hold,
                port_view(hold_port(seconds), unit_type(seconds)),
            ),
            outputs: seq![port_view(PortName::Output, TypeView::Exec)],
        },
        note: Some(Note::BufferedEmit),
    }
}

/// A duration that is no constant is lowered to a value.
pub open spec fn duration_lowered(
    run: Runs,
    s: LowerState,
    d: Option<Expr>,
    after: LowerState,
    wire: Option<PortRef>,
) -> bool {
    match d {
        Some(e) => if literal_of(e) is None {
            wire is Some && step(run, s, TaskView::Expr(e), after, wire->0)
        } else {
            after == s && wire is None
        },
        None => after == s && wire is None,
    }
}

pub open spec fn wired_from(s: LowerState, from: Option<PortRef>, to: PortRef) -> LowerState {
    match from {
        Some(p) => s.wired(p, to),
        None => s,
    }
}

/// The buffer of an emit placed on the flow, or on `exec_in` when there is
/// none.
pub open spec fn delay_placed(
    s: LowerState,
    spec: BufferSpec,
    exec_in: PortRef,
    delay_wire: Option<PortRef>,
    hold_wire: Option<PortRef>,
) -> LowerState {
    let id = s.fresh();
    let s1 = s.with_gate(delay_gate(spec)).wired(s.flow_or(exec_in), id.at(PortName::Input));
    let s2 = wired_from(s1, delay_wire, id.at(delay_port(spec.seconds)));
    wired_from(s2, hold_wire, id.at(hold_port(spec.seconds)))
}

/// An emit's exec routed through a buffer. The durations are lowered before
/// the flow is taken, so that what they read comes first.
pub open spec fn delayed(
    run: Runs,
    s: LowerState,
    spec: BufferSpec,
    exec_in: PortRef,
    after: LowerState,
    port: PortRef,
) -> bool {
    exists|s1: LowerState, dw: Option<PortRef>, s2: LowerState, hw: Option<PortRef>|
        #![trigger such((s1, dw, s2, hw))]
        such((s1, dw, s2, hw)) && duration_lowered(run, s, spec.delay, s1, dw) && duration_lowered(
            run,
            s1,
            spec.hold,
            s2,
            hw,
        ) && after == delay_placed(s2, spec, exec_in, dw, hw) && port == s2.fresh().at(
            PortName::Output,
        )
}

fn bake_duration(d: &Option<Expr>, seconds: bool, default: Literal) -> (r: Option<Literal>)
    ensures
        shown(r) == baked_duration(*d, seconds, default@),
{
    match d {
        None => Some(default),
        Some(e) => match expr_to_literal(e) {
            Some(l) => Some(unit_lit(seconds, l)),
            None => None,
        },
    }
}

fn make_delay(spec: &BufferSpec) -> (r: GateSpec)
    ensures
        r@ == delay_gate(*spec),
{
    let seconds = spec.seconds;
    let (default_d, default_h) = if seconds {
        (
            Literal::Float(Number::Bits(ONE_BITS)),
            Literal::Float(Number::Bits(MINUS_ONE_BITS)),
        )
    } else {
        (Literal::Int(1), Literal::Int(-1))
    };
    let delay = bake_duration(&spec.delay, seconds, default_d);
    let hold = bake_duration(&spec.hold, seconds, default_h);
    let mut props: AssocMap<Prop, Literal> = AssocMap::new();
    let mut inputs: Vec<PortSpec> = vec![port_spec(PortName::Input, Type::Exec)];
    assert(views(inputs@) =~= seq![port_view(PortName::Input, TypeView::Exec)]);
    let ghost inputs0 = inputs@;
    match delay {
        Some(l) => {
            props.insert(
                if seconds {
                    Prop::SecondsToWait
                } else {
                    Prop::TicksToWait
                },
                l,
            );
        },
        None => {
            inputs.push(
                if seconds {
                    port_spec(PortName::SecondsToWait, Type::Float)
                } else {
                    port_spec(PortName::TicksToWait, Type::Int)
                },
            );
            assert(views(inputs@) =~= views(inputs0).push(
                port_view(delay_port(seconds), unit_type(seconds)),
            ));
        },
    }
    let ghost inputs1 = inputs@;
    match hold {
        Some(l) => {
            props.insert(
                if seconds {
                    Prop::ZeroSecondsToWait
                } else {
                    Prop::ZeroTicksToWait
                },
                l,
            );
        },
        None => {
            inputs.push(
                if seconds {
                    port_spec(PortName::ZeroSecondsToWait, Type::Float)
                } else {
                    port_spec(PortName::ZeroTicksToWait, Type::Int)
                },
            );
            assert(views(inputs@) =~= views(inputs1).push(
                port_view(hold_port(seconds), unit_type(seconds)),
            ));
        },
    }
    let outputs: Vec<PortSpec> = vec![port_spec(PortName::Output, Type::Exec)];
    assert(views(outputs@) =~= seq![port_view(PortName::Output, TypeView::Exec)]);
    GateSpec {
        class: if seconds {
            GateClass::BufferSeconds
        } else {
            GateClass::BufferTicks
        },
        range: spec.range.clone(),
        props,
        io: GateIO { inputs, outputs },
        note: Some(Note::BufferedEmit),
    }
}

fn lower_duration<'a, F: Fn(LowerCtx<'a>, Task<'a>) -> (LowerCtx<'a>, PortRef)>(
    f: &F,
    ctx: &mut LowerCtx<'a>,
    d: &'a Option<Expr>,
) -> (r: Option<PortRef>)
    requires
        total(*f),
    ensures
        duration_lowered(runs(*f), old(ctx)@, *d, final(ctx)@, r),
{
    match d {
        Some(e) => {
            if expr_to_literal(e).is_none() {
                Some(run_task(f, ctx, Task::Expr(e)))
            } else {
                None
            }
        },
        None => None,
    }
}

/// Routes an emit's exec through a Buffer gate per its `buffer(delay, hold)`
/// spec, and gives the buffer's output as the new emit source.
pub fn buffered_exec<'a, F: Fn(LowerCtx<'a>, Task<'a>) -> (LowerCtx<'a>, PortRef)>(
    f: &F,
    ctx: &mut LowerCtx<'a>,
    spec: &'a BufferSpec,
    exec_in: PortRef,
) -> (r: PortRef)
    requires
        total(*f),
    ensures
        delayed(runs(*f), old(ctx)@, *spec, exec_in, final(ctx)@, r),
{
    let delay_wire = lower_duration(f, ctx, &spec.delay);
    let ghost s1 = ctx@;
    let hold_wire = lower_duration(f, ctx, &spec.hold);
    let ghost s2 = ctx@;
    let exec_src = match ctx.current_exec {
        Some(e) => e,
        None => exec_in,
    };
    let buf = ctx.add_gate(make_delay(spec));
    ctx.connect(exec_src, buf.port(PortName::Input));
    if let Some(p) = delay_wire {
        ctx.connect(
            p,
            buf.port(
                if spec.seconds {
                    PortName::SecondsToWait
                } else {
                    PortName::TicksToWait
                },
            ),
        );
    }
    if let Some(p) = hold_wire {
        ctx.connect(
            p,
            buf.port(
                if spec.seconds {
                    PortName::ZeroSecondsToWait
                } else {
                    PortName::ZeroTicksToWait
                },
            ),
        );
    }
    assert(such((s1, delay_wire, s2, hold_wire)));
    buf.port(PortName::Output)
}

// ---------- the queue ----------

/// An emit added to those of its key.
pub open spec fn queued(s: LowerState, key: Seq<char>, source: PortRef) -> LowerState {
    let before = match at(s.pending, key) {
        Some(l) => l,
        None => Seq::empty(),
    };
    LowerState {
        pending: put(s.pending, key, before.push(PendingEmit { source, chain: s.chain })),
        ..s
    }
}

fn queue_emit<'a>(ctx: &mut LowerCtx<'a>, key: String, source: PortRef)
    ensures
        final(ctx)@ == queued(old(ctx)@, key@, source),
{
    let emit = PendingEmit { source, chain: ctx.current_chain_id };
    let ghost before = ctx.pending_emits@;
    match find_key(&ctx.pending_emits, key.as_str()) {
        Some(i) => {
            proof {
                crate::lower::names::lemma_slot(pairs(before), key@);
            }
            ctx.pending_emits[i].1.push(emit);
            assert(pairs(ctx.pending_emits@) =~= queued(old(ctx)@, key@, source).pending);
        },
        None => {
            let only: Vec<PendingEmit> = vec![emit];
            assert(only@ =~= Seq::<PendingEmit>::empty().push(emit));
            ctx.pending_emits.push((key, only));
            assert(pairs(ctx.pending_emits@) =~= queued(old(ctx)@, key@, source).pending);
        },
    }
}

/// The source an emit is queued with.
pub open spec fn emit_source(
    run: Runs,
    s: LowerState,
    buffer: Option<BufferSpec>,
    flow: PortRef,
    after: LowerState,
    source: PortRef,
) -> bool {
    match buffer {
        Some(spec) => delayed(run, s, spec, flow, after, source),
        None => after == s && source == flow,
    }
}

/// An emit queued from the current flow, if there is one.
pub open spec fn emit_queued(
    run: Runs,
    s: LowerState,
    buffer: Option<BufferSpec>,
    key: Seq<char>,
    after: LowerState,
) -> bool {
    match s.flow {
        Some(flow) => exists|mid: LowerState, source: PortRef| #[trigger]
            emit_source(run, s, buffer, flow, mid, source) && after == queued(mid, key, source),
        None => after == s,
    }
}

/// The value of an emit: an output takes it directly, a signal carries it in
/// its payload stores.
pub open spec fn emit_value(
    run: Runs,
    s: LowerState,
    e: Emit,
    key: Seq<char>,
    after: LowerState,
) -> bool {
    match (e.value, s.output(e.name@)) {
        (None, _) => after == s,
        (Some(value), Some(out)) => exists|mid: LowerState, p: PortRef| #[trigger]
            step(run, s, TaskView::Expr(value), mid, p) && after == mid.wired(
                p,
                out.node_id.at(PortName::RerInput),
            ),
        (Some(value), None) => if s.flow is Some {
            payload_written(run, s, key, value, after)
        } else {
            after == s
        },
    }
}

/// The key under which an emit is queued: the name of an output, or the key of
/// a signal.
pub open spec fn emit_key(s: LowerState, name: Seq<char>) -> Option<Seq<char>> {
    if s.output(name) is Some {
        Some(name)
    } else {
        s.signal(name)
    }
}

/// The effect of an emit. A name that is neither an output nor a signal is
/// ignored.
pub open spec fn emitted(run: Runs, s: LowerState, e: Emit, after: LowerState) -> bool {
    match emit_key(s, e.name@) {
        Some(key) => exists|mid: LowerState|
            #![trigger such(mid)]
            such(mid) && emit_value(run, s, e, key, mid) && emit_queued(
                run,
                mid,
                e.buffer,
                key,
                after,
            ),
        None => after == s,
    }
}

fn queue_from_flow<'a, F: Fn(LowerCtx<'a>, Task<'a>) -> (LowerCtx<'a>, PortRef)>(
    f: &F,
    ctx: &mut LowerCtx<'a>,
    buffer: &'a Option<BufferSpec>,
    key: String,
)
    requires
        total(*f),
    ensures
        emit_queued(runs(*f), old(ctx)@, *buffer, key@, final(ctx)@),
{
    let flow = match ctx.current_exec {
        Some(e) => e,
        None => {
            return ;
        },
    };
    let source = match buffer {
        Some(spec) => buffered_exec(f, ctx, spec, flow),
        None => flow,
    };
    assert(emit_source(runs(*f), old(ctx)@, *buffer, flow, ctx@, source));
    queue_emit(ctx, key, source);
}

fn find_emit_key<'a>(ctx: &LowerCtx<'a>, name: &String) -> (r: Option<String>)
    ensures
        r is Some <==> emit_key(ctx@, name@) is Some,
        r matches Some(k) ==> emit_key(ctx@, name@) == Some(k@),
{
    if ctx.lookup_output(name.as_str()).is_some() {
        Some(name.clone())
    } else {
        ctx.signal_key(name.as_str())
    }
}

fn lower_emit_value<'a, F: Fn(LowerCtx<'a>, Task<'a>) -> (LowerCtx<'a>, PortRef)>(
    f: &F,
    ctx: &mut LowerCtx<'a>,
    s: &'a Emit,
    key: &str,
)
    requires
        total(*f),
    ensures
        emit_value(runs(*f), old(ctx)@, *s, key@, final(ctx)@),
{
    if let Some(value_expr) = &s.value {
        if let Some(out) = ctx.lookup_output(s.name.as_str()) {
            let value_port = run_task(f, ctx, Task::Expr(value_expr));
            ctx.connect(value_port, out.node_id.port(PortName::RerInput));
        } else if ctx.current_exec.is_some() {
            write_signal_payload(f, ctx, key, value_expr);
        }
    }
}

pub fn lower_emit<'a, F: Fn(LowerCtx<'a>, Task<'a>) -> (LowerCtx<'a>, PortRef)>(
    f: &F,
    ctx: &mut LowerCtx<'a>,
    s: &'a Emit,
)
    requires
        total(*f),
    ensures
        emitted(runs(*f), old(ctx)@, *s, final(ctx)@),
{
    let key = match find_emit_key(ctx, &s.name) {
        Some(k) => k,
        None => {
            return ;
        },
    };
    lower_emit_value(f, ctx, s, key.as_str());
    assert(such(ctx@));
    queue_from_flow(f, ctx, &s.buffer, key);
}

/// An emit of a name that is neither an output nor a signal changes nothing.
pub proof fn unknown_emit_ignored(run: Runs, s: LowerState, e: Emit, after: LowerState)
    requires
        s.output(e.name@) is None,
        s.signal(e.name@) is None,
        emitted(run, s, e, after),
    ensures
        after == s,
{
}

/// An emit without a value or a buffer queues the current flow, on the current
/// chain, and touches nothing else.
pub proof fn plain_emit_queues_flow(run: Runs, s: LowerState, e: Emit, after: LowerState)
    requires
        e.value is None,
        e.buffer is None,
        s.flow is Some,
        emit_key(s, e.name@) is Some,
        emitted(run, s, e, after),
    ensures
        after == queued(s, emit_key(s, e.name@)->0, s.flow->0),
{
}

} // verus!
