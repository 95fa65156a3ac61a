//! What lowering places in the graph: which gates, with which settings, and
//! which wires between them.

use crate::ast::{
    ArrayDecl, ArrayElem, Assign, AwaitStmt, Block, BufferDecl, BufferSpec, Callback, Expr, FnDecl,
    If, InDecl, LetBinding, LetDecl, OutBinding, RecordDestructField, VarDecl,
};
use crate::ast_view::StmtView;
use crate::diagnostic::{DiagnosticView, RangeView, Severity};
use crate::literal::{default_literal, elem_literal, literal_of, LiteralView, Number};
use crate::lower::assign::{
    assigned, assigned_to, clear_task, elem_task, increment_of, var_assigned, var_lowered,
};
use crate::lower::awaiting::{await_resumed, await_started, flag_gate};
use crate::lower::ctx::{port_gate, start_state};
use crate::lower::decl::{
    buffer_lowered, fn_chip, fn_lowered, output_fields, ports_bound, record_bound, result_bound,
};
use crate::lower::emit::{
    delay_gate, delay_placed, emit_key, payload_slot, queued, store_of, stored,
};
use crate::lower::gates::{joined_ports, literal_gate, payload_got, write_gate, written};
use crate::lower::graph::{
    array_io, branch_io, buffer_io, literal_io, place_of, read_io, rerouter_io, union_io, var_io,
    write_io, GateClass, GateView, NodeId, NodeKind, NodeView, PortName, PortRef, PortView, Prop,
    Wire,
};
use crate::lower::names::{at, put_reads_back, Named};
use crate::lower::predeclare::{
    array_decl_declared, array_declared, array_literal, buffer_declared, buffer_type, called_back,
    elem_literals, hubbed, input_declared, labelled, output_declared, output_type, plain_type,
    sided, signal_id, signalled, unbaked_warned, union_gate, var_declared, var_type,
};
use crate::lower::record::destructured;
use crate::lower::signals::{emit_ports, emits_wired};
use crate::lower::state::{
    bind, bound, next_of, output_key, uncached, BindingView, LowerState, NodeRecordView,
    PendingEmit, ScopeTag, VarStorage, VarView,
};
use crate::lower::stmt::{
    branches_joined, else_started, if_lowered, known_branch, known_cond, out_bound, return_joined,
    return_stored, returned, taken, then_started,
};
use crate::lower::task::{step, such, ArrayOp, Runs, TaskView};
use crate::types::{unref, TypeView};
use vstd::prelude::*;

verus! {

/// Whether exactly one gate was placed, of a class, behind all nodes that were
/// there, under the next free id.
pub open spec fn one_gate(s: LowerState, t: LowerState, class: GateClass) -> bool {
    &&& t.nodes.len() == s.nodes.len() + 1
    &&& t.nodes.drop_last() == s.nodes
    &&& t.nodes.last().id == NodeId(s.next_node)
    &&& t.nodes.last().gate.class == class
}

/// Whether a wire leads from a port to a port.
pub open spec fn wire(a: NodeId, p: PortName, b: NodeId, q: PortName) -> Wire {
    Wire { source: PortRef { node_id: a, port: p }, target: PortRef { node_id: b, port: q } }
}

pub open spec fn into_port(p: PortRef, b: NodeId, q: PortName) -> Wire {
    Wire { source: p, target: PortRef { node_id: b, port: q } }
}

// ---------- ports of gates ----------

/// Whether a list of ports is this one, by name and type.
pub open spec fn two_ports(
    ports: Seq<PortView>,
    a: PortName,
    at: TypeView,
    b: PortName,
    bt: TypeView,
) -> bool {
    ports.len() == 2 && ports[0].name == a && ports[0].ty == at && ports[1].name == b && ports[1].ty
        == bt
}

pub open spec fn one_port(ports: Seq<PortView>, a: PortName, at: TypeView) -> bool {
    ports.len() == 1 && ports[0].name == a && ports[0].ty == at
}

/// The ports that each kind of gate has.
pub proof fn gates_have_their_ports(t: TypeView)
    ensures
        ({
            let r = TypeView::Ref(Box::new(t));
            let e = TypeView::Exec;
            &&& var_io(t).inputs.len() == 0
            &&& two_ports(var_io(t).outputs, PortName::Value, t, PortName::VarRef, r)
            &&& array_io(t).inputs.len() == 0
            &&& one_port(
                array_io(t).outputs,
                PortName::ArrayVarRef,
                TypeView::Ref(Box::new(TypeView::Array(Box::new(t)))),
            )
            &&& write_io(t).inputs.len() == 3
            &&& write_io(t).inputs[0].name == PortName::Exec && write_io(t).inputs[0].ty == e
            &&& write_io(t).inputs[1].name == PortName::VarRef && write_io(t).inputs[1].ty == r
            &&& write_io(t).inputs[2].name == PortName::Value && write_io(t).inputs[2].ty == t
            &&& one_port(write_io(t).outputs, PortName::ExecOut, e)
            &&& two_ports(read_io(t).inputs, PortName::Exec, e, PortName::VarRef, r)
            &&& two_ports(read_io(t).outputs, PortName::Value, t, PortName::ExecOut, e)
            &&& literal_io(t).inputs.len() == 0
            &&& one_port(literal_io(t).outputs, PortName::Output, t)
            &&& two_ports(branch_io().inputs, PortName::Exec, e, PortName::BCond, TypeView::Bool)
            &&& two_ports(branch_io().outputs, PortName::ExecOutA, e, PortName::ExecOutB, e)
            &&& two_ports(union_io().inputs, PortName::ExecA, e, PortName::ExecB, e)
            &&& one_port(union_io().outputs, PortName::ExecOut, e)
            &&& two_ports(
                buffer_io(t).inputs,
                PortName::Input,
                t,
                PortName::TicksToWait,
                TypeView::Int,
            )
            &&& one_port(buffer_io(t).outputs, PortName::Output, t)
            &&& one_port(rerouter_io(t).inputs, PortName::RerInput, t)
            &&& one_port(rerouter_io(t).outputs, PortName::RerOutput, t)
        }),
{
}

// ---------- names ----------

/// A bound name is found, and every other name stands for what it stood for.
pub proof fn bound_names_are_found(s: LowerState, name: Seq<char>, b: BindingView, other: Seq<char>)
    ensures
        s.with_binding(name, b).binding(name) == Some(b),
        other != name ==> s.with_binding(name, b).binding(other) == s.binding(other),
{
    let after = bind(s.frames, name, b);
    if s.frames.len() == 0 {
        put_reads_back(Seq::<(Seq<char>, BindingView)>::empty(), name, b, other);
        assert(after.drop_last() =~= s.frames);
        assert(at(Seq::<(Seq<char>, BindingView)>::empty(), other) is None);
    } else {
        put_reads_back(s.frames.last().names, name, b, other);
        assert(after.drop_last() =~= s.frames.drop_last());
    }
}

/// A block that is left takes its names along.
pub proof fn left_blocks_take_their_names(
    s: LowerState,
    tag: ScopeTag,
    name: Seq<char>,
    b: BindingView,
)
    ensures
        s.with_frame(tag).with_binding(name, b).without_frame().frames == s.frames,
{
    let opened = s.with_frame(tag).frames;
    assert(opened.drop_last() =~= s.frames);
    assert(bind(opened, name, b).drop_last() =~= s.frames);
}

// ---------- variables ----------

/// Whether a name was declared as a variable of a kind, held by the one gate
/// that was placed, which shows the name.
pub open spec fn declares_variable(
    s: LowerState,
    t: LowerState,
    name: Seq<char>,
    class: GateClass,
    storage: VarStorage,
    ty: TypeView,
) -> bool {
    &&& one_gate(s, t, class)
    &&& t.wires == s.wires
    &&& t.diags == s.diags
    &&& t.flow == s.flow
    &&& t.nodes.last().gate.props.contains_key(Prop::NameLabel)
    &&& t.nodes.last().gate.props[Prop::NameLabel] == LiteralView::String(name)
    &&& t.binding(name) matches Some(BindingView::Var(v)) && v.node_id == NodeId(s.next_node)
        && v.inner_type == ty && v.storage == storage && v.get_node_for_handler is None
}

/// What the last placed node starts with.
pub open spec fn starts_with(t: LowerState, l: LiteralView) -> bool {
    t.nodes.last().gate.props.contains_key(Prop::InitialValue)
        && t.nodes.last().gate.props[Prop::InitialValue] == l
}

/// A variable is a gate that starts with the constant of its initializer, or
/// else with the empty value of its type.
pub proof fn variables_are_placed(s: LowerState, d: VarDecl)
    requires
        !(var_type(s, d) is Array),
    ensures
        ({
            let t = var_declared(s, d);
            let ty = var_type(s, d);
            &&& declares_variable(s, t, d.name@, GateClass::PseudoVar, VarStorage::Var, ty)
            &&& d.init is None ==> starts_with(t, default_literal(ty))
            &&& d.init matches Some(e) ==> (literal_of(e) is None ==> starts_with(
                t,
                default_literal(ty),
            ))
            &&& d.init matches Some(e) ==> (literal_of(e) matches Some(l) ==> starts_with(t, l))
        }),
{
    let ty = var_type(s, d);
    bound_names_are_found(
        s.with_gate(
            crate::lower::predeclare::var_gate(
                d.name@,
                ty,
                Some(crate::lower::predeclare::var_init(d, ty)),
                d.range@,
            ),
        ),
        d.name@,
        BindingView::Var(
            VarView {
                node_id: s.fresh(),
                inner_type: ty,
                get_node_for_handler: None,
                storage: VarStorage::Var,
            },
        ),
        d.name@,
    );
    assert(var_declared(s, d).nodes.drop_last() =~= s.nodes);
}

/// A variable that is initialized with an integer, negated or not, starts with
/// that integer.
pub proof fn integer_variables_start_with_their_value(s: LowerState, d: VarDecl, k: i64)
    requires
        d.typ is Some,
        plain_type((d.typ->0)@) is Int,
        k != i64::MIN,
    ensures
        d.init matches Some(Expr::IntLit { value, .. }) ==> value == k ==> starts_with(
            var_declared(s, d),
            LiteralView::Int(k),
        ),
        d.init matches Some(Expr::UnOp { op, operand, .. }) ==> op@ == "-"@ ==> (
        *operand matches Expr::IntLit { value, .. } ==> value == k ==> starts_with(
            var_declared(s, d),
            LiteralView::Int((0 - k) as i64),
        )),
{
    variables_are_placed(s, d);
    if let Some(e) = d.init {
        reveal_with_fuel(literal_of, 3);
        if let Expr::UnOp { op, operand, .. } = e {
            if op@ == "-"@ {
                if let Expr::IntLit { value, .. } = *operand {
                    if value == k {
                        crate::literal_laws::negated_integers_add_up_to_zero(e, *operand, k);
                    }
                }
            }
        }
    }
}

/// The type of a variable: its annotation, or what its initializer was found to
/// be.
pub proof fn variables_have_their_type(s: LowerState, d: VarDecl)
    ensures
        d.typ matches Some(t) ==> var_type(s, d) == plain_type(t@),
        d.typ is None && d.init is None ==> var_type(s, d) is Any,
        d.typ is None && d.init is Some ==> ({
            let r = (d.init->0).rng()@;
            let key = (r.file, r.start.offset, r.end.offset);
            s.types.contains_key(key) ==> var_type(s, d) == s.types[key]
        }),
{
}

/// The constants of an array literal are those of its elements, in order.
pub proof fn array_constants_are_in_order(v: Seq<ArrayElem>, n: nat, i: int)
    requires
        0 <= i < n <= v.len(),
        elem_literals(v, n) is Some,
    ensures
        (elem_literals(v, n)->0).len() == n,
        v[i] is Item,
        Some((elem_literals(v, n)->0)[i]) == literal_of(v[i].inner()),
    decreases n,
{
    if i < n - 1 {
        array_constants_are_in_order(v, (n - 1) as nat, i);
    } else if n > 1 {
        array_constants_are_in_order(v, (n - 1) as nat, n - 2);
    } else {
        assert(elem_literals(v, 0) == Some(Seq::<LiteralView>::empty()));
    }
}

/// An array literal of constants is a constant.
pub proof fn arrays_of_constants_are_constants(v: Seq<ArrayElem>, n: nat)
    requires
        n <= v.len(),
        forall|i: int| 0 <= i < n ==> elem_literal(#[trigger] v[i]) is Some,
    ensures
        elem_literals(v, n) is Some,
    decreases n,
{
    if n > 0 {
        arrays_of_constants_are_constants(v, (n - 1) as nat);
    }
}

/// A variable of array type, and an array, is an array gate that starts with
/// the constants of its initializer.
pub proof fn arrays_are_placed(s: LowerState, d: ArrayDecl, v: VarDecl, elem: TypeView)
    ensures
        ({
            let t = array_decl_declared(s, d);
            &&& declares_variable(
                s,
                t,
                d.name@,
                GateClass::PseudoArrayVar,
                VarStorage::Array,
                plain_type(d.element_type@),
            )
            &&& d.init@.len() == 0 ==> !t.nodes.last().gate.props.contains_key(Prop::InitialValue)
            &&& d.init@.len() > 0 && elem_literals(d.init@, d.init@.len()) is Some ==> starts_with(
                t,
                LiteralView::Array(elem_literals(d.init@, d.init@.len())->0),
            )
        }),
        var_type(s, v) == TypeView::Array(Box::new(elem)) ==> declares_variable(
            s,
            var_declared(s, v),
            v.name@,
            GateClass::PseudoArrayVar,
            VarStorage::Array,
            elem,
        ),
        var_type(s, v) == TypeView::Array(Box::new(elem)) && (v.init matches Some(
            Expr::Array { elements, .. },
        ) && elem_literals(elements@, elements@.len()) is Some) ==> starts_with(
            var_declared(s, v),
            LiteralView::Array(
                elem_literals((v.init->0)->elements@, (v.init->0)->elements@.len())->0,
            ),
        ),
{
    lemma_array_declared(
        s,
        d.name@,
        plain_type(d.element_type@),
        if d.init@.len() == 0 {
            None
        } else {
            array_literal(d.init@)
        },
        d.range@,
    );
    if var_type(s, v) == TypeView::Array(Box::new(elem)) {
        lemma_array_declared(
            s,
            v.name@,
            elem,
            crate::lower::predeclare::var_array_init(v),
            v.range@,
        );
    }
}

proof fn lemma_array_declared(
    s: LowerState,
    name: Seq<char>,
    elem: TypeView,
    init: Option<LiteralView>,
    range: RangeView,
)
    ensures
        declares_variable(
            s,
            array_declared(s, name, elem, init, range),
            name,
            GateClass::PseudoArrayVar,
            VarStorage::Array,
            elem,
        ),
        init matches Some(l) ==> starts_with(array_declared(s, name, elem, init, range), l),
        init is None ==> !array_declared(
            s,
            name,
            elem,
            init,
            range,
        ).nodes.last().gate.props.contains_key(Prop::InitialValue),
{
    bound_names_are_found(
        s.with_gate(crate::lower::predeclare::array_gate(name, elem, init, range)),
        name,
        BindingView::Var(
            VarView {
                node_id: s.fresh(),
                inner_type: elem,
                get_node_for_handler: None,
                storage: VarStorage::Array,
            },
        ),
        name,
    );
    assert(array_declared(s, name, elem, init, range).nodes.drop_last() =~= s.nodes);
}

/// A buffer is a gate that waits for one tick, of the annotated type or of the
/// type of what goes in.
pub proof fn buffers_wait_one_tick(s: LowerState, d: BufferDecl)
    ensures
        ({
            let t = buffer_declared(s, d);
            let g = t.nodes.last().gate;
            &&& one_gate(s, t, GateClass::BufferTicks)
            &&& g.props.contains_key(Prop::TicksToWait) && g.props[Prop::TicksToWait]
                == LiteralView::Int(1)
            &&& t.binding(d.name@) matches Some(BindingView::Buffer(r)) && r.node_id == NodeId(
                s.next_node,
            ) && r.ty == buffer_type(s, d)
            &&& d.typ matches Some(te) ==> buffer_type(s, d) == plain_type(te@)
            &&& t.wires == s.wires
        }),
{
    let ty = buffer_type(s, d);
    bound_names_are_found(
        s.with_gate(crate::lower::predeclare::buffer_gate(ty, d.range@)),
        d.name@,
        BindingView::Buffer(NodeRecordView { node_id: s.fresh(), ty }),
        d.name@,
    );
    assert(buffer_declared(s, d).nodes.drop_last() =~= s.nodes);
}

/// What goes into a buffer is wired to its input.
pub proof fn buffers_take_their_value(
    run: Runs,
    s: LowerState,
    d: BufferDecl,
    rec: NodeRecordView,
    after: LowerState,
)
    requires
        s.buffer(d.name@) == Some(rec),
        buffer_lowered(run, s, d, after),
    ensures
        after.wires.len() > 0,
        after.wires.last().target == (PortRef { node_id: rec.node_id, port: PortName::Input }),
        after.chain == s.chain,
{
}

// ---------- ports of the module ----------

/// An input is a port with its name, of the type that it is declared with.
pub proof fn inputs_are_placed(s: LowerState, d: InDecl)
    requires
        d.side is None,
        d.label is None,
    ensures
        ({
            let t = input_declared(s, d);
            let n = t.nodes.last();
            &&& one_gate(s, t, GateClass::Rerouter)
            &&& n.kind == NodeKind::Input
            &&& n.gate.props.contains_key(Prop::NameLabel) && n.gate.props[Prop::NameLabel]
                == LiteralView::String(d.name@)
            &&& t.binding(d.name@) matches Some(BindingView::Input(r)) && r.node_id == n.id && r.ty
                == plain_type(d.typ@)
        }),
{
    let ty = plain_type(d.typ@);
    let s1 = s.with_node(NodeKind::Input, port_gate(d.name@, ty, d.range@), None);
    bound_names_are_found(
        s1,
        d.name@,
        BindingView::Input(NodeRecordView { node_id: s.fresh(), ty }),
        d.name@,
    );
    assert(input_declared(s, d).nodes.drop_last() =~= s.nodes);
}

/// An output is a port with its name, of the type of its value or else of the
/// type that it is declared with.
pub proof fn outputs_are_placed(s: LowerState, o: OutBinding)
    requires
        o.side is None,
        o.label is None,
    ensures
        ({
            let t = output_declared(s, o);
            let n = t.nodes.last();
            &&& one_gate(s, t, GateClass::Rerouter)
            &&& n.kind == NodeKind::Output
            &&& n.gate.props.contains_key(Prop::NameLabel) && n.gate.props[Prop::NameLabel]
                == LiteralView::String(o.name@)
            &&& t.output(o.name@) matches Some(r) && r.node_id == n.id
            &&& o.value is None ==> (o.typ matches Some(te) ==> (t.output(o.name@)->0).ty == plain_type(
                te@,
            ))
            &&& o.value matches Some(v) ==> (t.output(o.name@)->0).ty == unref(s.type_at(v.rng()@))
        }),
{
    let ty = output_type(s, o.value, o.typ);
    let s1 = s.with_node(NodeKind::Output, port_gate(o.name@, ty, o.range@), None);
    bound_names_are_found(
        s1,
        output_key(o.name@),
        BindingView::Output(NodeRecordView { node_id: s.fresh(), ty }),
        output_key(o.name@),
    );
    assert(output_declared(s, o).nodes.drop_last() =~= s.nodes);
}

/// A setting of a node is there once it is made, and the node's other settings
/// stay.
pub proof fn settings_are_made(s: LowerState, id: NodeId, key: Prop, value: LiteralView, other: Prop)
    requires
        s.nodes.len() > 0,
        s.nodes.last().id == id,
        forall|i: int| 0 <= i < s.nodes.len() - 1 ==> (#[trigger] s.nodes[i]).id != id,
    ensures
        ({
            let g = s.with_prop(id, key, value).nodes.last().gate;
            let before = s.nodes.last().gate;
            &&& s.with_prop(id, key, value).nodes.len() == s.nodes.len()
            &&& g.props.contains_key(key) && g.props[key] == value
            &&& other != key && before.props.contains_key(other) ==> g.props.contains_key(other)
                && g.props[other] == before.props[other]
            &&& g.class == before.class && g.io == before.io
        }),
{
    lemma_last_place(s.nodes, id);
}

pub proof fn lemma_last_place(nodes: Seq<NodeView>, id: NodeId)
    requires
        nodes.len() > 0,
        nodes.last().id == id,
        forall|i: int| 0 <= i < nodes.len() - 1 ==> (#[trigger] nodes[i]).id != id,
    ensures
        place_of(nodes, id) == nodes.len() - 1,
{
    lemma_no_place(nodes.drop_last(), id);
}

pub proof fn lemma_no_place(nodes: Seq<NodeView>, id: NodeId)
    requires
        forall|i: int| 0 <= i < nodes.len() ==> (#[trigger] nodes[i]).id != id,
    ensures
        place_of(nodes, id) == nodes.len(),
    decreases nodes.len(),
{
    if nodes.len() > 0 {
        let rest = nodes.drop_last();
        assert forall|i: int| 0 <= i < rest.len() implies (#[trigger] rest[i]).id != id by {
            assert(rest[i] == nodes[i]);
        }
        lemma_no_place(rest, id);
        assert(nodes[nodes.len() - 1].id != id);
    }
}

/// A side is for the ports of the compiled file itself: there it is set by its
/// word, and elsewhere it is reported.
pub proof fn sides_are_for_the_root(
    s: LowerState,
    id: NodeId,
    side: crate::ast::PortSide,
    range: RangeView,
)
    ensures
        s.root && s.anon_chip is None ==> sided(s, id, Some(side), range) == s.with_prop(
            id,
            Prop::RerouteSide,
            LiteralView::String(
                match side {
                    crate::ast::PortSide::Left => "left"@,
                    crate::ast::PortSide::Right => "right"@,
                    crate::ast::PortSide::Top => "top"@,
                    crate::ast::PortSide::Bottom => "bottom"@,
                },
            ),
        ),
        !s.root || s.anon_chip is Some ==> sided(s, id, Some(side), range).diags == s.diags.push(
            DiagnosticView {
                severity: Severity::Error,
                code: "WS023"@,
                message: "side annotations only apply to top-level ports of the compiled file"@,
                range,
            },
        ),
        sided(s, id, None, range) == s,
{
}

/// A label takes the place of the name that a port shows.
pub proof fn labels_replace_names(s: LowerState, id: NodeId, label: String)
    ensures
        labelled(s, id, Some(label)) == s.with_prop(
            id,
            Prop::NameLabel,
            LiteralView::String(label@),
        ),
        labelled(s, id, None) == s,
{
}

/// A callback joins the callbacks of its name, behind the earlier ones.
pub proof fn callbacks_are_gathered(s: LowerState, c: Callback)
    ensures
        ({
            let t = called_back(s, c);
            at(t.callbacks, c.name@) matches Some(list) && list.len() > 0 && list.last() == c && (at(
                s.callbacks,
                c.name@,
            ) matches Some(before) ==> list.drop_last() == before)
        }),
{
    let before = match at(s.callbacks, c.name@) {
        Some(l) => l,
        None => Seq::empty(),
    };
    put_reads_back(s.callbacks, c.name@, before.push(c), c.name@);
    assert(before.push(c).drop_last() =~= before);
}

// ---------- signals ----------

/// A signal is a hub: its name stands for the hub's pulse, and the signal is
/// found by its name.
pub proof fn signals_are_hubs(s: LowerState, name: Seq<char>, range: RangeView)
    ensures
        ({
            let t = hubbed(s, name, range);
            &&& one_gate(s, t, GateClass::Union)
            &&& t.binding(name) == Some(
                BindingView::Local(
                    PortRef { node_id: NodeId(s.next_node), port: PortName::ExecOut },
                ),
            )
            &&& t.signal(name) == Some(name + "#"@ + crate::text::decimal(s.next_node as nat))
            &&& at(t.hubs, t.signal(name)->0) == Some(NodeId(s.next_node))
            &&& at(t.pending, t.signal(name)->0) is Some
        }),
{
    let hub = s.fresh();
    let b = BindingView::Local(hub.at(PortName::ExecOut));
    bound_names_are_found(s.with_gate(union_gate(range)), name, b, name);
    let key = signal_id(name, hub);
    put_reads_back(s.hubs, key, hub, key);
    assert(hubbed(s, name, range).nodes.drop_last() =~= s.nodes);
    let keys = s.hub_keys.push((hub, key));
    assert(keys.last() == (hub, key));
    if at(s.pending, key) is None {
        let p = s.pending.push((key, Seq::<PendingEmit>::empty()));
        crate::lower::names::lemma_slot(s.pending, key);
        assert forall|j: int| 0 <= j < s.pending.len() implies (#[trigger] p[j]).0 != key by {
            assert(s.pending[j].0 != key);
        }
        crate::lower::names::lemma_slot_is(p, key, s.pending.len() as int);
    }
}

/// Only a let of type `exec` is a signal.
pub proof fn exec_lets_are_signals(s: LowerState, l: LetDecl)
    ensures
        l.typ is None ==> signalled(s, l) == s,
        l.typ matches Some(crate::ast::TypeExpr::Name { name, .. }) && name@ != "exec"@
            ==> signalled(s, l) == s,
        l.typ matches Some(crate::ast::TypeExpr::Name { name, .. }) && name@ == "exec"@
            && l.binding is Ident ==> signalled(s, l) == hubbed(
            s,
            l.binding->Ident_name@,
            l.range@,
        ),
{
}

// ---------- reading and writing ----------

/// A write is a gate on the flow: the pulse, the variable and the value are
/// wired into it, and the flow goes on from it.
pub proof fn writes_are_wired(
    s: LowerState,
    flow: PortRef,
    var: NodeId,
    value: PortRef,
    gate: GateView,
)
    ensures
        ({
            let t = written(s, flow, var, value, gate);
            let id = NodeId(s.next_node);
            &&& one_gate(s, t, gate.class)
            &&& t.wires == s.wires + seq![
                into_port(flow, id, PortName::Exec),
                wire(var, PortName::VarRef, id, PortName::VarRef),
                into_port(value, id, PortName::Value),
            ]
            &&& t.flow == Some(PortRef { node_id: id, port: PortName::ExecOut })
        }),
{
    let t = written(s, flow, var, value, gate);
    let id = NodeId(s.next_node);
    assert(t.nodes.drop_last() =~= s.nodes);
    assert(t.wires =~= s.wires + seq![
        into_port(flow, id, PortName::Exec),
        wire(var, PortName::VarRef, id, PortName::VarRef),
        into_port(value, id, PortName::Value),
    ]);
}

/// `x = x + d` and `x = d + x` add `d`; nothing else does.
pub proof fn increments_are_recognised(a: Assign)
    ensures
        increment_of(a) matches Some(d) ==> (a.target matches Expr::Ident { name, .. } && (
        a.value matches Expr::BinOp { op, left, right, .. } && op@ == "+"@ && ((
        *left matches Expr::Ident { name: l, .. } && l@ == name@ && d == *right) || (
        *right matches Expr::Ident { name: r, .. } && r@ == name@ && d == *left)))),
        a.target is Ident && a.value is BinOp && a.value->BinOp_op@ == "+"@ && *a.value->left is Ident
            && (*a.value->left)->Ident_name@ == a.target->Ident_name@ ==> increment_of(a) == Some(
            *a.value->right,
        ),
        a.value is BinOp && a.value->BinOp_op@ != "+"@ ==> increment_of(a) is None,
        !(a.value is BinOp) ==> increment_of(a) is None,
{
}

/// What is computed for an assignment: what is added, or the whole value.
pub open spec fn operand_of(a: Assign) -> Expr {
    match increment_of(a) {
        Some(d) => d,
        None => a.value,
    }
}

/// A plain assignment to a variable on the flow sets it to what the value's
/// lowering gave; an increment adds to it instead.
pub proof fn assignments_are_wired(
    run: Runs,
    s: LowerState,
    a: Assign,
    rec: VarView,
    flow: PortRef,
    after: LowerState,
)
    requires
        a.target is Ident,
        s.var(a.target->Ident_name@) == Some(rec),
        s.flow == Some(flow),
        rec.storage is Var,
        assigned(run, s, a, after),
    ensures
        exists|mid: LowerState, p: PortRef| #[trigger]
            step(
                run,
                s,
                TaskView::Expr(operand_of(a)),
                mid,
                p,
            ) && one_gate(
                mid,
                after,
                if increment_of(a) is Some {
                    GateClass::VarIncrement
                } else {
                    GateClass::VarSet
                },
            ) && after.wires == mid.wires + seq![
                into_port(
                    match mid.flow {
                        Some(f) => f,
                        None => flow,
                    },
                    NodeId(mid.next_node),
                    PortName::Exec,
                ),
                wire(rec.node_id, PortName::VarRef, NodeId(mid.next_node), PortName::VarRef),
                into_port(p, NodeId(mid.next_node), PortName::Value),
            ] && after.flow == Some(
                PortRef { node_id: NodeId(mid.next_node), port: PortName::ExecOut },
            ),
{
    let e = operand_of(a);
    let class = if increment_of(a) is Some {
        GateClass::VarIncrement
    } else {
        GateClass::VarSet
    };
    assert(assigned_to(run, s, a, rec, flow, after));
    let (mid, p) = choose|mid: LowerState, p: PortRef| #[trigger]
        step(run, s, TaskView::Expr(e), mid, p) && after == var_assigned(
            mid,
            flow,
            rec,
            p,
            class,
            a.range@,
        );
    writes_are_wired(
        mid,
        mid.flow_or(flow),
        rec.node_id,
        p,
        write_gate(class, rec.inner_type, a.range@, None),
    );
    assert(step(run, s, TaskView::Expr(e), mid, p));
}

/// An assignment to a variable that is a buffer is wired into the buffer.
pub proof fn buffer_assignments_are_wired(
    run: Runs,
    s: LowerState,
    a: Assign,
    rec: VarView,
    flow: PortRef,
    after: LowerState,
)
    requires
        a.target is Ident,
        s.var(a.target->Ident_name@) == Some(rec),
        s.flow == Some(flow),
        rec.storage is Buffer,
        assigned(run, s, a, after),
    ensures
        exists|mid: LowerState, p: PortRef| #[trigger]
            step(run, s, TaskView::Expr(a.value), mid, p) && after.nodes == mid.nodes && after.wires
                == mid.wires.push(into_port(p, rec.node_id, PortName::Input)) && after.flow
                == mid.flow,
{
    assert(assigned_to(run, s, a, rec, flow, after));
    let (mid, p) = choose|mid: LowerState, p: PortRef| #[trigger]
        step(run, s, TaskView::Expr(a.value), mid, p) && after == mid.wired(
            p,
            rec.node_id.at(PortName::Input),
        );
    assert(step(run, s, TaskView::Expr(a.value), mid, p));
}

/// Without a flow a variable cannot be written: nothing is placed.
pub proof fn writes_need_a_flow(run: Runs, s: LowerState, a: Assign, after: LowerState)
    requires
        a.target is Ident || a.target is FieldAccess,
        s.flow is None,
        assigned(run, s, a, after),
    ensures
        after == s,
{
}

/// An element of an array is written by the operation for that, on the array,
/// the place and the value of the statement.
pub proof fn elements_are_written(run: Runs, s: LowerState, a: Assign, after: LowerState)
    requires
        a.target is IndexAccess,
        assigned(run, s, a, after),
    ensures
        exists|p: PortRef| #[trigger]
            step(
                run,
                s,
                TaskView::ArraySet {
                    obj: *a.target->IndexAccess_obj,
                    index: *a.target->IndexAccess_index,
                    value: a.value,
                    range: a.range@,
                },
                after,
                p,
            ),
{
}

/// An array is rebuilt by emptying it, pushing single elements and appending
/// spread ones.
pub proof fn arrays_are_rebuilt(rec: VarView, el: ArrayElem, value: Expr, range: RangeView)
    ensures
        clear_task(rec, range, value) matches TaskView::ArrayMethod { array, method, arg, .. }
            && array == (PortRef { node_id: rec.node_id, port: PortName::ArrayVarRef }) && method
            == ArrayOp::Clear && arg is None,
        elem_task(rec, el, value) matches TaskView::ArrayMethod { array, method, arg, .. } && array
            == (PortRef { node_id: rec.node_id, port: PortName::ArrayVarRef }) && arg == Some(
            el.inner(),
        ) && method == if el is Item {
            ArrayOp::Push
        } else {
            ArrayOp::Append
        },
        ArrayOp::Clear.word() == "clear"@,
        ArrayOp::Push.word() == "push"@,
        ArrayOp::Append.word() == "append"@,
{
}

/// After a write the cached reads of that variable are gone, and those of every
/// other variable stay.
pub proof fn writes_drop_cached_reads(v: VarView, only: NodeId)
    ensures
        v.node_id == only ==> (uncached(BindingView::Var(v), Some(only)) matches BindingView::Var(w)
            && w.get_node_for_handler is None && w.node_id == v.node_id && w.inner_type
            == v.inner_type && w.storage == v.storage),
        v.node_id != only ==> uncached(BindingView::Var(v), Some(only)) == BindingView::Var(v),
        uncached(BindingView::Var(v), None) matches BindingView::Var(w)
            && w.get_node_for_handler is None,
{
}

/// A variable of a body that nothing initializes is reset to the empty value of
/// its type whenever the flow reaches it.
pub proof fn variables_of_bodies_are_reset(
    run: Runs,
    s: LowerState,
    v: VarDecl,
    rec: VarView,
    flow: PortRef,
    after: LowerState,
)
    requires
        s.var(v.name@) == Some(rec),
        s.flow == Some(flow),
        !v.is_static,
        v.init is None,
        !(rec.storage is Array),
        var_lowered(run, s, v, after),
    ensures
        after.nodes.len() == s.nodes.len() + 2,
        after.nodes[s.nodes.len() as int].gate.class == GateClass::Literal,
        after.nodes[s.nodes.len() as int].gate.props.contains_key(Prop::Value),
        after.nodes[s.nodes.len() as int].gate.props[Prop::Value] == default_literal(rec.inner_type),
        after.nodes.last().gate.class == GateClass::VarSet,
        after.wires.contains(
            wire(
                NodeId(s.next_node),
                PortName::Output,
                NodeId(next_of(s.next_node)),
                PortName::Value,
            ),
        ),
{
    let mid = s.with_gate(
        literal_gate(default_literal(rec.inner_type), rec.inner_type, v.range@),
    );
    let p = s.fresh().at(PortName::Output);
    writes_are_wired(
        mid,
        mid.flow_or(flow),
        rec.node_id,
        p,
        write_gate(GateClass::VarSet, rec.inner_type, v.range@, None),
    );
    assert(after.wires[s.wires.len() as int + 2] == wire(
        NodeId(s.next_node),
        PortName::Output,
        NodeId(next_of(s.next_node)),
        PortName::Value,
    ));
}

/// A static variable is placed once and never reset.
pub proof fn static_variables_keep_their_value(
    run: Runs,
    s: LowerState,
    v: VarDecl,
    after: LowerState,
)
    requires
        v.is_static,
        s.var(v.name@) is Some,
        v.init matches Some(e) && e is IntLit,
        var_lowered(run, s, v, after),
    ensures
        after == s,
{
    crate::literal_laws::constants_are_baked(v.init->0, 0);
}

/// An initializer that no constant can be made of is warned of where nothing
/// applies it.
pub proof fn dropped_initializers_are_reported(s: LowerState, v: VarDecl)
    ensures
        v.init matches Some(e) && (e is Ident || e is BinOp) ==> unbaked_warned(
            s,
            v,
            true,
        ).diags.len() == s.diags.len() + 1 && unbaked_warned(s, v, true).diags.last().severity
            == Severity::Warning && unbaked_warned(s, v, true).diags.last().range == (
        v.init->0).rng()@,
        v.init is None ==> unbaked_warned(s, v, true) == s,
        v.init matches Some(e) && (e is IntLit || e is BoolLit || e is StringLit || e is FloatLit)
            ==> unbaked_warned(s, v, true) == s,
{
    if let Some(e) = v.init {
        crate::literal_laws::constants_are_baked(e, 0);
    }
}

// ---------- ifs ----------

/// A condition that is written as a constant is known.
pub proof fn written_conditions_are_known(s: LowerState, cond: Expr, i: If)
    ensures
        cond matches Expr::BoolLit { value, .. } ==> known_cond(s, cond) == Some(value),
        cond is BinOp || cond is Call || cond is UnOp ==> known_cond(s, cond) is None,
        known_branch(i, true) == Some(i.then_block),
        known_branch(i, false) == i.else_block,
{
}

/// A choice is a gate on the flow that takes the condition; the then branch
/// starts at its first output and the else branch at its second.
pub proof fn choices_are_wired(
    s: LowerState,
    i: If,
    flow: PortRef,
    cond: PortRef,
    group: u32,
)
    ensures
        ({
            let t = then_started(s, i, flow, cond, group);
            let id = NodeId(s.next_node);
            &&& one_gate(s, t, GateClass::Branch)
            &&& t.wires == s.wires + seq![
                into_port(
                    match s.flow {
                        Some(f) => f,
                        None => flow,
                    },
                    id,
                    PortName::Exec,
                ),
                into_port(cond, id, PortName::BCond),
            ]
            &&& t.flow == Some(PortRef { node_id: id, port: PortName::ExecOutA })
            &&& t.frames.len() == s.frames.len() + 1
        }),
        forall|t: LowerState, branch: NodeId|
            (#[trigger] else_started(t, i, branch, group)).flow == Some(
                PortRef { node_id: branch, port: PortName::ExecOutB },
            ) && else_started(t, i, branch, group).wires == t.wires && else_started(
                t,
                i,
                branch,
                group,
            ).nodes == t.nodes,
{
    let t = then_started(s, i, flow, cond, group);
    assert(t.nodes.drop_last() =~= s.nodes);
    assert(t.wires =~= s.wires + seq![
        into_port(s.flow_or(flow), NodeId(s.next_node), PortName::Exec),
        into_port(cond, NodeId(s.next_node), PortName::BCond),
    ]);
}

/// The ends of both branches are joined, and the flow goes on from the join. A
/// branch that ended its flow is not wired.
pub proof fn branches_are_joined(s: LowerState, i: If, then_end: Option<PortRef>, outer: u32)
    ensures
        ({
            let t = branches_joined(s, i, then_end, outer);
            let id = NodeId(s.next_node);
            &&& t.nodes.len() == s.nodes.len() + 1
            &&& t.nodes.last().gate.class == GateClass::Union
            &&& t.flow == Some(PortRef { node_id: id, port: PortName::ExecOut })
            &&& then_end is Some && s.flow is Some ==> t.wires == s.wires + seq![
                into_port(then_end->0, id, PortName::ExecA),
                into_port(s.flow->0, id, PortName::ExecB),
            ]
            &&& then_end is Some && s.flow is None ==> t.wires == s.wires + seq![
                into_port(then_end->0, id, PortName::ExecA),
            ]
            &&& then_end is None && s.flow is Some ==> t.wires == s.wires + seq![
                into_port(s.flow->0, id, PortName::ExecB),
            ]
            &&& then_end is None && s.flow is None ==> t.wires == s.wires
            &&& t.scope == outer
        }),
{
    let t = branches_joined(s, i, then_end, outer);
    let id = NodeId(s.next_node);
    if then_end is Some && s.flow is Some {
        assert(t.wires =~= s.wires + seq![
            into_port(then_end->0, id, PortName::ExecA),
            into_port(s.flow->0, id, PortName::ExecB),
        ]);
    } else if then_end is Some {
        assert(t.wires =~= s.wires + seq![into_port(then_end->0, id, PortName::ExecA)]);
    } else if s.flow is Some {
        assert(t.wires =~= s.wires + seq![into_port(s.flow->0, id, PortName::ExecB)]);
    }
}

/// With a condition that is written as true, only the then branch is lowered.
pub proof fn true_conditions_take_the_then_branch(
    run: Runs,
    s: LowerState,
    i: If,
    after: LowerState,
)
    requires
        s.flow is Some,
        i.cond matches Expr::BoolLit { value, .. } && value,
        if_lowered(run, s, i, after),
    ensures
        exists|mid: LowerState, p: PortRef| #[trigger]
            step(run, s.with_frame(ScopeTag::Block), TaskView::Block(i.then_block), mid, p)
                && after.nodes == mid.nodes && after.wires == mid.wires,
{
    let mid = choose|mid: LowerState|
        #![trigger such(mid)]
        such(mid) && taken(run, s.with_frame(ScopeTag::Block), Some(i.then_block), mid) && after
            == mid.without_frame();
    let p = choose|p: PortRef|
        #![trigger such(p)]
        such(p) && step(run, s.with_frame(ScopeTag::Block), TaskView::Block(i.then_block), mid, p);
    assert(step(run, s.with_frame(ScopeTag::Block), TaskView::Block(i.then_block), mid, p));
}

// ---------- outputs and returns ----------

/// The value of an output is wired into its port.
pub proof fn outputs_take_their_value(
    run: Runs,
    s: LowerState,
    name: Seq<char>,
    value: Expr,
    out: NodeRecordView,
    after: LowerState,
)
    requires
        s.output(name) == Some(out),
        out_bound(run, s, name, Some(value), after),
    ensures
        exists|mid: LowerState, p: PortRef| #[trigger]
            step(run, s, TaskView::Expr(value), mid, p) && after.wires == mid.wires.push(
                into_port(p, out.node_id, PortName::RerInput),
            ) && after.nodes == mid.nodes,
{
    let (mid, p) = choose|mid: LowerState, p: PortRef| #[trigger]
        step(run, s, TaskView::Expr(value), mid, p) && after == mid.wired(
            p,
            out.node_id.at(PortName::RerInput),
        );
    assert(step(run, s, TaskView::Expr(value), mid, p));
}

/// A returned value goes into the return variable if there is one.
pub proof fn returns_are_stored(s: LowerState, value: PortRef, v: VarView, flow: PortRef)
    requires
        s.return_var == Some(v),
        s.flow == Some(flow),
    ensures
        ({
            let t = return_stored(s, value);
            let id = NodeId(s.next_node);
            &&& one_gate(s, t, GateClass::VarSet)
            &&& t.wires == s.wires + seq![
                into_port(flow, id, PortName::Exec),
                wire(v.node_id, PortName::VarRef, id, PortName::VarRef),
                into_port(value, id, PortName::Value),
            ]
        }),
{
    writes_are_wired(
        s,
        flow,
        v.node_id,
        value,
        write_gate(
            GateClass::VarSet,
            v.inner_type,
            crate::diagnostic::no_range(),
            Some(crate::lower::graph::Note::ReturnSet),
        ),
    );
}

/// Every return joins the flow of the earlier ones, and ends its own.
pub proof fn returns_are_joined(s: LowerState, flow: PortRef, prev: PortRef)
    requires
        s.flow == Some(flow),
    ensures
        return_joined(s).flow is None,
        s.return_flow is None ==> return_joined(s).return_flow == Some(flow),
        s.return_flow == Some(prev) ==> ({
            let t = return_joined(s);
            let id = NodeId(s.next_node);
            &&& one_gate(s, t, GateClass::Union)
            &&& t.wires == s.wires + seq![
                into_port(prev, id, PortName::ExecA),
                into_port(flow, id, PortName::ExecB),
            ]
            &&& t.return_flow == Some(PortRef { node_id: id, port: PortName::ExecOut })
        }),
{
    if s.return_flow == Some(prev) {
        let t = return_joined(s);
        assert(t.nodes.drop_last() =~= s.nodes);
        assert(t.wires =~= s.wires + seq![
            into_port(prev, NodeId(s.next_node), PortName::ExecA),
            into_port(flow, NodeId(s.next_node), PortName::ExecB),
        ]);
    }
}

// ---------- emits ----------

/// An emit waits behind the earlier ones of its signal, with the chain that it
/// was made on.
pub proof fn emits_wait_in_order(s: LowerState, key: Seq<char>, source: PortRef, other: Seq<char>)
    ensures
        ({
            let t = queued(s, key, source);
            &&& at(t.pending, key) matches Some(list) && list.len() > 0 && list.last() == (
            PendingEmit { source, chain: s.chain }) && (at(s.pending, key) matches Some(before)
                ==> list.drop_last() == before)
            &&& other != key ==> at(t.pending, other) == at(s.pending, other)
        }),
{
    let before = match at(s.pending, key) {
        Some(l) => l,
        None => Seq::empty(),
    };
    let list = before.push(PendingEmit { source, chain: s.chain });
    put_reads_back(s.pending, key, list, other);
    put_reads_back(s.pending, key, list, key);
    assert(list.drop_last() =~= before);
}

/// An emit of an output goes by the output's name, one of a signal by the
/// signal's key.
pub proof fn emits_go_by_their_target(s: LowerState, name: Seq<char>)
    ensures
        s.output(name) is Some ==> emit_key(s, name) == Some(name),
        s.output(name) is None ==> emit_key(s, name) == s.signal(name),
{
}

/// A delayed emit has a gate of its own: in ticks or seconds, with the delay and the time
/// to hold; one tick or second, and as long as the delay, where nothing is said.
pub proof fn delays_are_set(spec: BufferSpec)
    ensures
        ({
            let g = delay_gate(spec);
            &&& !spec.seconds ==> g.class == GateClass::BufferTicks
            &&& spec.seconds ==> g.class == GateClass::BufferSeconds
            &&& !spec.seconds && spec.delay is None ==> g.props.contains_key(Prop::TicksToWait)
                && g.props[Prop::TicksToWait] == LiteralView::Int(1)
            &&& !spec.seconds && spec.hold is None ==> g.props.contains_key(Prop::ZeroTicksToWait)
                && g.props[Prop::ZeroTicksToWait] == LiteralView::Int(-1i64 as i64)
            &&& spec.seconds && spec.delay is None ==> g.props.contains_key(Prop::SecondsToWait)
                && g.props[Prop::SecondsToWait] == LiteralView::Float(
                Number::Bits(0x3FF0_0000_0000_0000),
            )
            &&& spec.seconds && spec.hold is None ==> g.props.contains_key(Prop::ZeroSecondsToWait)
                && g.props[Prop::ZeroSecondsToWait] == LiteralView::Float(
                Number::Bits(0xBFF0_0000_0000_0000),
            )
            &&& !spec.seconds ==> (spec.delay matches Some(Expr::IntLit { value, .. })
                ==> g.props.contains_key(Prop::TicksToWait) && g.props[Prop::TicksToWait]
                == LiteralView::Int(value))
            &&& !spec.seconds ==> (spec.hold matches Some(Expr::IntLit { value, .. })
                ==> g.props.contains_key(Prop::ZeroTicksToWait) && g.props[Prop::ZeroTicksToWait]
                == LiteralView::Int(value))
            &&& spec.seconds ==> (spec.delay matches Some(Expr::FloatLit { bits, .. })
                ==> g.props.contains_key(Prop::SecondsToWait) && g.props[Prop::SecondsToWait]
                == LiteralView::Float(Number::Bits(bits)))
            &&& spec.seconds ==> (spec.delay matches Some(Expr::IntLit { value, .. })
                ==> g.props.contains_key(Prop::SecondsToWait) && g.props[Prop::SecondsToWait]
                == LiteralView::Float(Number::Nearest(value)))
        }),
{
}

/// A delay sits on the flow; what is computed for it is wired into it.
pub proof fn delays_are_wired(
    s: LowerState,
    spec: BufferSpec,
    exec_in: PortRef,
    delay: PortRef,
    hold: PortRef,
)
    ensures
        ({
            let t = delay_placed(s, spec, exec_in, Some(delay), Some(hold));
            let id = NodeId(s.next_node);
            &&& t.wires == s.wires + seq![
                into_port(
                    match s.flow {
                        Some(f) => f,
                        None => exec_in,
                    },
                    id,
                    PortName::Input,
                ),
                into_port(
                    delay,
                    id,
                    if spec.seconds {
                        PortName::SecondsToWait
                    } else {
                        PortName::TicksToWait
                    },
                ),
                into_port(
                    hold,
                    id,
                    if spec.seconds {
                        PortName::ZeroSecondsToWait
                    } else {
                        PortName::ZeroTicksToWait
                    },
                ),
            ]
            &&& t.nodes.len() == s.nodes.len() + 1
        }),
        delay_placed(s, spec, exec_in, None, None).wires.len() == s.wires.len() + 1,
{
    let t = delay_placed(s, spec, exec_in, Some(delay), Some(hold));
    let id = NodeId(s.next_node);
    assert(t.wires =~= s.wires + seq![
        into_port(s.flow_or(exec_in), id, PortName::Input),
        into_port(
            delay,
            id,
            if spec.seconds {
                PortName::SecondsToWait
            } else {
                PortName::TicksToWait
            },
        ),
        into_port(
            hold,
            id,
            if spec.seconds {
                PortName::ZeroSecondsToWait
            } else {
                PortName::ZeroTicksToWait
            },
        ),
    ]);
}

/// The payload of a signal has a hidden variable for each field, which stays
/// the same once it is made.
pub proof fn payloads_are_stored(s: LowerState, sig: Seq<char>, field: Seq<char>, ty: TypeView)
    ensures
        ({
            let t = stored(s, sig, field, ty);
            &&& payload_slot(s, sig, field) is Some ==> t == s
            &&& payload_slot(s, sig, field) is None ==> one_gate(s, t, GateClass::PseudoVar)
                && t.nodes.last().gate.props.contains_key(Prop::InitialValue)
                && t.nodes.last().gate.props[Prop::InitialValue] == default_literal(ty)
                && store_of(s, sig, field) == NodeId(s.next_node)
        }),
{
    if payload_slot(s, sig, field) is None {
        assert(stored(s, sig, field, ty).nodes.drop_last() =~= s.nodes);
    }
}

/// A payload is read on the flow from its hidden variable.
pub proof fn payloads_are_read(s: LowerState, var: NodeId, ty: TypeView, flow: PortRef)
    requires
        s.flow == Some(flow),
    ensures
        ({
            let t = payload_got(s, var, ty);
            let id = NodeId(s.next_node);
            &&& one_gate(s, t, GateClass::VarGet)
            &&& t.wires == s.wires + seq![
                into_port(flow, id, PortName::Exec),
                wire(var, PortName::VarRef, id, PortName::VarRef),
            ]
            &&& t.flow == Some(PortRef { node_id: id, port: PortName::ExecOut })
        }),
{
    let t = payload_got(s, var, ty);
    let id = NodeId(s.next_node);
    assert(t.nodes.drop_last() =~= s.nodes);
    assert(t.wires =~= s.wires + seq![
        into_port(flow, id, PortName::Exec),
        wire(var, PortName::VarRef, id, PortName::VarRef),
    ]);
}

/// A single emit is wired straight to its output.
pub proof fn single_emits_are_direct(
    s: LowerState,
    name: Seq<char>,
    e: PendingEmit,
    out: NodeRecordView,
)
    requires
        s.output(name) == Some(out),
    ensures
        emits_wired(s, name, seq![e]).wires == s.wires.push(
            into_port(e.source, out.node_id, PortName::RerInput),
        ),
        emits_wired(s, name, seq![e]).nodes == s.nodes,
        emits_wired(s, name, Seq::empty()) == s,
{
    let entries = seq![e];
    assert(entries.drop_last() =~= Seq::empty());
    assert(emit_ports(Seq::empty(), None, false) =~= Seq::empty());
    assert(emit_ports(entries, None, false) =~= seq![e.source]);
}

/// Two emits of an output are joined by one union before they reach it.
pub proof fn two_emits_are_joined(
    s: LowerState,
    name: Seq<char>,
    a: PendingEmit,
    b: PendingEmit,
    out: NodeRecordView,
)
    requires
        s.output(name) == Some(out),
    ensures
        ({
            let t = emits_wired(s, name, seq![a, b]);
            let id = NodeId(s.next_node);
            &&& one_gate(s, t, GateClass::Union)
            &&& t.wires == s.wires + seq![
                into_port(a.source, id, PortName::ExecA),
                into_port(b.source, id, PortName::ExecB),
                wire(id, PortName::ExecOut, out.node_id, PortName::RerInput),
            ]
        }),
{
    let entries = seq![a, b];
    assert(entries.drop_last() =~= seq![a]);
    assert(seq![a].drop_last() =~= Seq::empty());
    assert(emit_ports(Seq::empty(), None, false) =~= Seq::empty());
    assert(emit_ports(seq![a], None, false) =~= seq![a.source]);
    assert(emit_ports(entries, None, false) =~= seq![a.source, b.source]);
    let ports = seq![a.source, b.source];
    assert(joined_ports(s, ports, 1) == (s, a.source));
    let t = emits_wired(s, name, entries);
    let id = NodeId(s.next_node);
    assert(t.nodes.drop_last() =~= s.nodes);
    assert(t.wires =~= s.wires + seq![
        into_port(a.source, id, PortName::ExecA),
        into_port(b.source, id, PortName::ExecB),
        wire(id, PortName::ExecOut, out.node_id, PortName::RerInput),
    ]);
}

// ---------- awaits ----------

/// An await has a flag, which is raised on the flow.
pub proof fn awaits_raise_a_flag(s: LowerState, a: AwaitStmt, flow: PortRef)
    requires
        s.flow == Some(flow),
    ensures
        ({
            let t = await_started(s, a);
            let flag = NodeId(s.next_node);
            let lit = NodeId(next_of(s.next_node));
            let set = NodeId(next_of(next_of(s.next_node)));
            let n = s.nodes.len() as int;
            &&& t.nodes.len() == n + 3
            &&& t.nodes[n].gate.class == GateClass::PseudoVar && t.nodes[n].id == flag
            &&& t.nodes[n].gate.props.contains_key(Prop::InitialValue) && t.nodes[n].gate.props[
                Prop::InitialValue] == LiteralView::Bool(false)
            &&& t.nodes[n + 1].gate.class == GateClass::Literal && t.nodes[n
                + 1].gate.props.contains_key(Prop::Value) && t.nodes[n + 1].gate.props[Prop::Value]
                == LiteralView::Bool(true)
            &&& t.nodes[n + 2].gate.class == GateClass::VarSet
            &&& t.wires == s.wires + seq![
                into_port(flow, set, PortName::Exec),
                wire(flag, PortName::VarRef, set, PortName::VarRef),
                wire(lit, PortName::Output, set, PortName::Value),
            ]
            &&& t.armed == Some(PortRef { node_id: flag, port: PortName::Value })
        }),
{
    let flag = s.fresh();
    let s1 = s.with_gate(flag_gate(a.range@));
    let lit = s1.fresh();
    let s2 = s1.with_gate(literal_gate(LiteralView::Bool(true), TypeView::Bool, a.range@));
    writes_are_wired(
        s2,
        flow,
        flag,
        lit.at(PortName::Output),
        write_gate(GateClass::VarSet, TypeView::Bool, a.range@, None),
    );
}

/// When the awaited pulse comes, the flag is read, and only where it is raised
/// it is lowered again and the flow goes on.
pub proof fn awaits_lower_their_flag(s: LowerState, flag: NodeId, port: PortRef, range: RangeView)
    ensures
        ({
            let t = await_resumed(s, flag, port, range);
            let get = NodeId(s.next_node);
            let branch = NodeId(next_of(s.next_node));
            let lit = NodeId(next_of(next_of(s.next_node)));
            let set = NodeId(next_of(next_of(next_of(s.next_node))));
            let n = s.nodes.len() as int;
            &&& t.nodes.len() == n + 4
            &&& t.nodes[n].gate.class == GateClass::VarGet
            &&& t.nodes[n + 1].gate.class == GateClass::Branch
            &&& t.nodes[n + 2].gate.class == GateClass::Literal && t.nodes[n
                + 2].gate.props.contains_key(Prop::Value) && t.nodes[n + 2].gate.props[Prop::Value]
                == LiteralView::Bool(false)
            &&& t.nodes[n + 3].gate.class == GateClass::VarSet
            &&& t.wires == s.wires + seq![
                into_port(port, get, PortName::Exec),
                wire(flag, PortName::VarRef, get, PortName::VarRef),
                wire(get, PortName::ExecOut, branch, PortName::Exec),
                wire(get, PortName::Value, branch, PortName::BCond),
                wire(branch, PortName::ExecOutA, set, PortName::Exec),
                wire(flag, PortName::VarRef, set, PortName::VarRef),
                wire(lit, PortName::Output, set, PortName::Value),
            ]
            &&& t.flow == Some(PortRef { node_id: set, port: PortName::ExecOut })
        }),
{
    let t = await_resumed(s, flag, port, range);
    let get = NodeId(s.next_node);
    let branch = NodeId(next_of(s.next_node));
    let lit = NodeId(next_of(next_of(s.next_node)));
    let set = NodeId(next_of(next_of(next_of(s.next_node))));
    assert(t.wires =~= s.wires + seq![
        into_port(port, get, PortName::Exec),
        wire(flag, PortName::VarRef, get, PortName::VarRef),
        wire(get, PortName::ExecOut, branch, PortName::Exec),
        wire(get, PortName::Value, branch, PortName::BCond),
        wire(branch, PortName::ExecOutA, set, PortName::Exec),
        wire(flag, PortName::VarRef, set, PortName::VarRef),
        wire(lit, PortName::Output, set, PortName::Value),
    ]);
}

// ---------- lets ----------

/// A let stands for the port of its value.
pub proof fn lets_stand_for_their_value(s: LowerState, d: LetDecl, ty: TypeView, port: PortRef)
    requires
        d.binding is Ident,
        !(d.value is Call),
    ensures
        result_bound(s, d, ty, port).binding(d.binding->Ident_name@) == Some(
            BindingView::Local(port),
        ),
        result_bound(s, d, ty, port).nodes == s.nodes,
        result_bound(s, d, ty, port).wires == s.wires,
{
    bound_names_are_found(
        s,
        d.binding->Ident_name@,
        BindingView::Local(port),
        d.binding->Ident_name@,
    );
}

/// The names of a destructured value stand for the output ports of its gate, in
/// order.
pub proof fn names_stand_for_ports(
    s: LowerState,
    id: NodeId,
    outputs: Seq<PortView>,
    names: Seq<String>,
    n: nat,
    i: int,
)
    requires
        0 <= i < n <= names.len(),
        i < outputs.len(),
        forall|k: int| i < k < names.len() ==> (#[trigger] names[k])@ != names[i]@,
    ensures
        ports_bound(s, id, outputs, names, n).binding(names[i]@) == Some(
            BindingView::Local(PortRef { node_id: id, port: outputs[i].name }),
        ),
    decreases n,
{
    let s1 = ports_bound(s, id, outputs, names, (n - 1) as nat);
    if i < n - 1 {
        names_stand_for_ports(s, id, outputs, names, (n - 1) as nat, i);
        if n - 1 < outputs.len() {
            bound_names_are_found(
                s1,
                names[n - 1]@,
                BindingView::Local(id.at(outputs[n - 1].name)),
                names[i]@,
            );
        }
    } else {
        bound_names_are_found(
            s1,
            names[n - 1]@,
            BindingView::Local(id.at(outputs[n - 1].name)),
            names[i]@,
        );
    }
}

/// A record is bound as a whole by its name.
pub proof fn records_are_bound(s: LowerState, b: LetBinding, record: Named<BindingView>)
    requires
        b is Ident,
    ensures
        record_bound(s, b, record).binding(b->Ident_name@) == Some(BindingView::Record(record)),
{
    bound_names_are_found(s, b->Ident_name@, BindingView::Record(record), b->Ident_name@);
}

/// A field that is taken out of a record stands for what it stood for there,
/// under its own name or its alias.
pub proof fn taken_fields_are_bound(
    s: LowerState,
    src: Named<BindingView>,
    fields: Seq<RecordDestructField>,
)
    requires
        fields.len() == 1,
        fields[0] is Named,
        at(src, fields[0]->Named_name@) is Some,
    ensures
        ({
            let local = match fields[0]->Named_alias {
                Some(a) => a@,
                None => fields[0]->Named_name@,
            };
            destructured(s, src, fields, 1).0.binding(local) == at(src, fields[0]->Named_name@)
        }),
{
    assert(destructured(s, src, fields, 0) == (s, src));
    let local = match fields[0]->Named_alias {
        Some(a) => a@,
        None => fields[0]->Named_name@,
    };
    bound_names_are_found(s, local, at(src, fields[0]->Named_name@)->0, local);
}

/// The outputs of a called chip are the fields of its result, each under its own
/// name.
pub proof fn outputs_are_fields(
    fields: crate::types::Fields,
    outputs: Seq<NodeId>,
    n: nat,
    i: int,
)
    requires
        0 <= i < n <= fields.len(),
        i < outputs.len(),
        forall|k: int| i < k < fields.len() ==> (#[trigger] fields[k]).0 != fields[i].0,
    ensures
        at(output_fields(fields, outputs, n), fields[i].0) == Some(
            BindingView::Local(PortRef { node_id: outputs[i], port: PortName::RerOutput }),
        ),
    decreases n,
{
    let before = output_fields(fields, outputs, (n - 1) as nat);
    if i < n - 1 {
        outputs_are_fields(fields, outputs, (n - 1) as nat, i);
    }
    if n - 1 < outputs.len() {
        put_reads_back(
            before,
            fields[n - 1].0,
            BindingView::Local(outputs[n - 1].at(PortName::RerOutput)),
            fields[i].0,
        );
    }
}

// ---------- functions ----------

/// A function is an inline chip with the function's parameters, which returns
/// the function's body; that functions are deprecated is said once.
pub proof fn functions_become_chips(s: LowerState, f: FnDecl)
    ensures
        ({
            let t = fn_lowered(s, f);
            &&& t.binding(f.name@) matches Some(BindingView::Chip(c)) && c.name == f.name@ && c.inline
                && c.inputs == f@.params && c.body.stmts.len() == 1 && (
            c.body.stmts[0] matches StmtView::Return { value, .. } && value == Some(f@.body)) && (
            f@.return_type is None ==> c.outputs.len() == 0) && (f@.return_type matches Some(ty)
                ==> c.outputs.len() == 1 && c.outputs[0].name == "_"@ && c.outputs[0].typ == ty)
            &&& t.diags.len() == s.diags.len() + 1 && t.diags.last().code == "WS015"@
                && t.diags.last().severity == Severity::Warning
            &&& t.nodes == s.nodes && t.wires == s.wires
        }),
{
    bound_names_are_found(
        s.reported(
            Severity::Warning,
            "WS015"@,
            crate::lower::decl::fn_message(f),
            f.range@,
        ),
        f.name@,
        BindingView::Chip(fn_chip(f@)),
        f.name@,
    );
}

/// Lowering starts with nothing: no gate, no wire, no flow, one frame without
/// names.
pub proof fn lowering_starts_empty(
    types: Map<(Seq<char>, usize, usize), TypeView>,
    ops: Map<(Seq<char>, usize, usize), crate::catalog::OpRuleView>,
    docs: Map<usize, Seq<char>>,
    root: bool,
    name: Seq<char>,
)
    ensures
        ({
            let s = start_state(types, ops, docs, root);
            s.nodes.len() == 0 && s.wires.len() == 0 && s.diags.len() == 0 && s.flow is None
                && s.binding(name) is None && s.pending.len() == 0 && s.depth == 0 && s.root == root
        }),
{
    let s = start_state(types, ops, docs, root);
    assert(s.frames.last().names.len() == 0);
    assert(s.frames.drop_last() =~= Seq::empty());
    assert(bound(Seq::empty(), name) is None);
}

} // verus!
