//! The pre-declaration pass: names and their gates, before any body is lowered.

use crate::assoc::AssocMap;
use crate::ast::{
    AnonChipDecl, ArrayDecl, ArrayElem, BufferDecl, Callback, Expr, InDecl, LetBinding, LetDecl,
    OutBinding, PortSide, Stmt, TopDecl, TypeExpr, VarDecl,
};
use crate::diagnostic::{RangeView, Severity, SourceRange};
use crate::literal::{
    array_elem_literal, default_literal, default_literal_for_var_type, elem_literal,
    expr_to_literal, literal_of, shown, unbaked, var_init_unbaked, Literal, LiteralView,
};
use crate::lower::ctx::{hub_views, port_gate, LowerCtx};
use crate::lower::graph::{
    array_io, buffer_io, io_of_array, io_of_buffer, io_of_nothing, io_of_union, io_of_var, no_io,
    union_io, var_io, GateClass, GateSpec, GateView, NodeId, NodeKind, PortName, Prop,
};
use crate::lower::names::{at, find_key, pairs, put, put_key, Named};
use crate::lower::state::{
    output_key, output_scope_key, Binding, BindingView, CallbackList, LocalRecord, LowerState,
    NodeRecord, NodeRecordView, PendingEmit, VarRecord, VarStorage, VarView,
};
use crate::text::{cat3, dec, decimal, owned, str_eq};
use crate::type_expr::{field_models, models, TypeExprView, TypeFieldView};
use crate::typecheck::ctx::State;
use crate::typecheck::register::{
    primitive, primitive_name, resolved, resolved_fields, resolved_list,
};
use crate::types::{
    field_views, type_views, unref, unwrap_ref, Fields, Type, TypeView,
};
use vstd::prelude::*;

verus! {

broadcast use crate::types::group_type_views;

// ---------- types of type expressions ----------

/// The type that a built-in type name stands for; any other name stands for
/// `any`.
pub open spec fn named_type(name: Seq<char>) -> TypeView {
    match primitive(name) {
        Some(TypeView::Never) => TypeView::Any,
        Some(t) => t,
        None => TypeView::Any,
    }
}

/// The type that a type expression stands for.
pub open spec fn plain_type(t: TypeExprView) -> TypeView
    decreases t, 0nat,
{
    match t {
        TypeExprView::Name { name, .. } => named_type(name),
        TypeExprView::Ref { inner, .. } => TypeView::Ref(Box::new(plain_type(*inner))),
        TypeExprView::Array { inner, .. } => TypeView::Array(Box::new(plain_type(*inner))),
        TypeExprView::Tuple { fields, .. } => TypeView::Tuple(plain_types(fields, fields.len())),
        TypeExprView::Union { options, .. } => TypeView::Union(
            plain_types(options, options.len()),
        ),
        TypeExprView::Record { fields, .. } => TypeView::Record(
            plain_fields(fields, fields.len()),
        ),
    }
}

pub open spec fn plain_types(v: Seq<TypeExprView>, n: nat) -> Seq<TypeView>
    decreases v, n,
{
    if n == 0 || n > v.len() {
        Seq::empty()
    } else {
        plain_types(v, (n - 1) as nat).push(plain_type(v[n - 1]))
    }
}

pub open spec fn plain_fields(v: Seq<TypeFieldView>, n: nat) -> Fields
    decreases v, n,
{
    if n == 0 || n > v.len() {
        Seq::empty()
    } else {
        plain_fields(v, (n - 1) as nat).push((v[n - 1].name, plain_type(v[n - 1].typ)))
    }
}

pub fn type_of_type_expr(t: &TypeExpr) -> (r: Type)
    ensures
        r@ == plain_type(t@),
    decreases t,
{
    match t {
        TypeExpr::Name { name, .. } => match primitive_name(name.as_str()) {
            Some(Type::Never) => Type::Any,
            Some(t) => t,
            None => Type::Any,
        },
        TypeExpr::Ref { inner, .. } => Type::Ref(Box::new(type_of_type_expr(inner))),
        TypeExpr::Array { inner, .. } => Type::Array(Box::new(type_of_type_expr(inner))),
        TypeExpr::Tuple { fields, .. } => {
            let mut out: Vec<Type> = Vec::new();
            let mut i: usize = 0;
            assert(type_views(out@) =~= Seq::empty());
            while i < fields.len()
                invariant
                    i <= fields@.len(),
                    type_views(out@) == plain_types(models(fields@), i as nat),
                    forall|k: int| 0 <= k < fields@.len() ==> decreases_to!(t => fields@[k]),
                decreases fields.len() - i,
            {
                let ghost before = out@;
                let ty = type_of_type_expr(&fields[i]);
                out.push(ty);
                assert(type_views(out@) =~= type_views(before).push(ty@));
                i += 1;
            }
            Type::Tuple(out)
        },
        TypeExpr::Union { options, .. } => {
            let mut out: Vec<Type> = Vec::new();
            let mut i: usize = 0;
            assert(type_views(out@) =~= Seq::empty());
            while i < options.len()
                invariant
                    i <= options@.len(),
                    type_views(out@) == plain_types(models(options@), i as nat),
                    forall|k: int| 0 <= k < options@.len() ==> decreases_to!(t => options@[k]),
                decreases options.len() - i,
            {
                let ghost before = out@;
                let ty = type_of_type_expr(&options[i]);
                out.push(ty);
                assert(type_views(out@) =~= type_views(before).push(ty@));
                i += 1;
            }
            Type::Union(out)
        },
        TypeExpr::Record { fields, .. } => {
            let mut out: Vec<(std::string::String, Type)> = Vec::new();
            let mut i: usize = 0;
            assert(field_views(out@) =~= Seq::empty());
            while i < fields.len()
                invariant
                    i <= fields@.len(),
                    field_views(out@) == plain_fields(field_models(fields@), i as nat),
                    forall|k: int| 0 <= k < fields@.len() ==> decreases_to!(t => fields@[k].typ),
                decreases fields.len() - i,
            {
                let ghost before = out@;
                let ty = type_of_type_expr(&fields[i].typ);
                out.push((fields[i].name.clone(), ty));
                assert(field_views(out@) =~= field_views(before).push((fields@[i as int].name@, ty@)));
                i += 1;
            }
            Type::Record(out)
        },
    }
}

/// Whether a type expression is made of built-in names that have values.
pub open spec fn made_of_values(t: TypeExprView) -> bool
    decreases t, 0nat,
{
    match t {
        TypeExprView::Name { name, .. } => match primitive(name) {
            Some(p) => !(p is Never),
            None => false,
        },
        TypeExprView::Ref { inner, .. } => made_of_values(*inner),
        TypeExprView::Array { inner, .. } => made_of_values(*inner),
        TypeExprView::Tuple { fields, .. } => all_made_of_values(fields, fields.len()),
        TypeExprView::Union { options, .. } => all_made_of_values(options, options.len()),
        TypeExprView::Record { fields, .. } => fields_made_of_values(fields, fields.len()),
    }
}

pub open spec fn all_made_of_values(v: Seq<TypeExprView>, n: nat) -> bool
    decreases v, n,
{
    n == 0 || n > v.len() || (all_made_of_values(v, (n - 1) as nat) && made_of_values(v[n - 1]))
}

pub open spec fn fields_made_of_values(v: Seq<TypeFieldView>, n: nat) -> bool
    decreases v, n,
{
    n == 0 || n > v.len() || (fields_made_of_values(v, (n - 1) as nat) && made_of_values(
        v[n - 1].typ,
    ))
}

/// Lowering takes a type expression of built-in names for the type that the
/// checker takes it for, and the checker finds no fault with it.
pub proof fn lowering_agrees_on_types(s: State, t: TypeExprView)
    requires
        made_of_values(t),
    ensures
        resolved(s, t) == (s, plain_type(t)),
    decreases t, 0nat,
{
    match t {
        TypeExprView::Name { .. } => {},
        TypeExprView::Ref { inner, .. } => {
            lowering_agrees_on_types(s, *inner);
        },
        TypeExprView::Array { inner, .. } => {
            lowering_agrees_on_types(s, *inner);
        },
        TypeExprView::Tuple { fields, .. } => {
            lemma_lists_agree(s, fields, fields.len());
        },
        TypeExprView::Union { options, .. } => {
            lemma_lists_agree(s, options, options.len());
        },
        TypeExprView::Record { fields, .. } => {
            lemma_fields_agree(s, fields, fields.len());
        },
    }
}

proof fn lemma_lists_agree(s: State, v: Seq<TypeExprView>, n: nat)
    requires
        all_made_of_values(v, n),
    ensures
        resolved_list(s, v, n) == (s, plain_types(v, n)),
    decreases v, n,
{
    if n > 0 && n <= v.len() {
        lemma_lists_agree(s, v, (n - 1) as nat);
        lowering_agrees_on_types(s, v[n - 1]);
    }
}

proof fn lemma_fields_agree(s: State, v: Seq<TypeFieldView>, n: nat)
    requires
        fields_made_of_values(v, n),
    ensures
        resolved_fields(s, v, n) == (s, plain_fields(v, n)),
    decreases v, n,
{
    if n > 0 && n <= v.len() {
        lemma_fields_agree(s, v, (n - 1) as nat);
        lowering_agrees_on_types(s, v[n - 1].typ);
    }
}

// ---------- signals ----------

/// A union gate, which lowering places to join exec flows.
pub open spec fn union_gate(range: RangeView) -> GateView {
    GateView {
        class: GateClass::Union,
        range,
        props: Map::empty(),
        io: union_io(),
        note: None,
    }
}

pub fn make_union(range: SourceRange) -> (r: GateSpec)
    ensures
        r@ == union_gate(range@),
{
    GateSpec {
        class: GateClass::Union,
        range,
        props: AssocMap::new(),
        io: io_of_union(),
        note: None,
    }
}

/// The key of the signal `name` whose hub is `hub`.
pub open spec fn signal_id(name: Seq<char>, hub: NodeId) -> Seq<char> {
    name + "#"@ + decimal(hub.0 as nat)
}

/// Room for the emits of `key`.
pub open spec fn with_key(m: Named<Seq<PendingEmit>>, key: Seq<char>) -> Named<Seq<PendingEmit>> {
    if at(m, key) is Some {
        m
    } else {
        m.push((key, Seq::empty()))
    }
}

/// A local exec signal: a hub, `name` bound to its exec output, and room for
/// its emits under a key of its own.
pub open spec fn hubbed(s: LowerState, name: Seq<char>, range: RangeView) -> LowerState {
    let hub = s.fresh();
    let s1 = s.with_gate(union_gate(range)).with_binding(
        name,
        BindingView::Local(hub.at(PortName::ExecOut)),
    );
    let key = signal_id(name, hub);
    LowerState {
        hubs: put(s1.hubs, key, hub),
        hub_keys: s1.hub_keys.push((hub, key)),
        pending: with_key(s1.pending, key),
        ..s1
    }
}

pub fn build_exec_signal_hub<'a>(ctx: &mut LowerCtx<'a>, name: &str, range: &SourceRange)
    ensures
        final(ctx)@ == hubbed(old(ctx)@, name@, range@),
{
    let hub = ctx.add_gate(make_union(range.clone()));
    ctx.bind_name(name, Binding::Local(LocalRecord { port: hub.port(PortName::ExecOut) }));
    let number = dec(hub.0 as usize);
    let key = cat3(name, "#", number.as_str());
    assert(key@ == signal_id(name@, hub));
    put_key(&mut ctx.exec_signal_hubs, key.clone(), hub);
    let ghost keys = ctx.exec_signal_keys@;
    ctx.exec_signal_keys.push((hub, key.clone()));
    assert(hub_views(ctx.exec_signal_keys@) =~= hub_views(keys).push((hub, key@)));
    let ghost emits = ctx.pending_emits@;
    if find_key(&ctx.pending_emits, key.as_str()).is_none() {
        let none: Vec<PendingEmit> = Vec::new();
        ctx.pending_emits.push((key, none));
        assert(pairs(ctx.pending_emits@) =~= pairs(emits).push((key@, Seq::<PendingEmit>::empty())));
    }
    assert(ctx@ =~= hubbed(old(ctx)@, name@, range@));
}

/// Whether a declaration is a local exec signal, and its name.
pub open spec fn signal_decl(l: LetDecl) -> Option<Seq<char>> {
    match l.typ {
        Some(TypeExpr::Name { name: ty, .. }) => if ty@ == "exec"@ {
            match l.binding {
                LetBinding::Ident { name, .. } => Some(name@),
                _ => None,
            }
        } else {
            None
        },
        _ => None,
    }
}

/// The state after a local exec signal is pre-declared; other declarations
/// change nothing.
pub open spec fn signalled(s: LowerState, l: LetDecl) -> LowerState {
    match signal_decl(l) {
        Some(name) => hubbed(s, name, l.range@),
        None => s,
    }
}

pub fn pre_declare_exec_signal<'a>(ctx: &mut LowerCtx<'a>, l: &'a LetDecl)
    ensures
        final(ctx)@ == signalled(old(ctx)@, *l),
{
    if let Some(TypeExpr::Name { name: ty, .. }) = &l.typ {
        if str_eq(ty.as_str(), "exec") {
            if let LetBinding::Ident { name, .. } = &l.binding {
                build_exec_signal_hub(ctx, name.as_str(), &l.range);
            }
        }
    }
}

// ---------- variables ----------

/// What is said of a `var` initializer that is dropped.
pub open spec fn unbaked_message(v: VarDecl) -> Seq<char> {
    if v.is_static {
        "'static var "@ + v.name@
            + "' initializer must be a compile-time constant — this value is dropped and the var starts at its type default"@
    } else {
        "'var "@ + v.name@
            + "' initializer is not a compile-time constant — outside an exec context it is dropped and the var starts at its type default; assign the value inside an exec handler instead"@
    }
}

/// The warning for a `var` initializer that is dropped: it is no constant, and
/// no exec-context reset will apply it. `skip_array_inits` leaves out array
/// literals, which checking has reported already.
pub open spec fn unbaked_warned(s: LowerState, v: VarDecl, skip_array_inits: bool) -> LowerState {
    if v.init is Some && unbaked(v.init->0) && !(skip_array_inits && v.init->0 is Array) {
        s.warned(unbaked_message(v), v.init->0.rng()@)
    } else {
        s
    }
}

pub fn warn_unbaked_var_init<'a>(ctx: &mut LowerCtx<'a>, v: &VarDecl, skip_array_inits: bool)
    ensures
        final(ctx)@ == unbaked_warned(old(ctx)@, *v, skip_array_inits),
{
    let init = match var_init_unbaked(v) {
        Some(init) => init,
        None => {
            return ;
        },
    };
    if skip_array_inits && matches!(init, Expr::Array { .. }) {
        return ;
    }
    let msg = if v.is_static {
        cat3(
            "'static var ",
            v.name.as_str(),
            "' initializer must be a compile-time constant — this value is dropped and the var starts at its type default",
        )
    } else {
        cat3(
            "'var ",
            v.name.as_str(),
            "' initializer is not a compile-time constant — outside an exec context it is dropped and the var starts at its type default; assign the value inside an exec handler instead",
        )
    };
    ctx.warn(msg, init.range());
}

/// The constants of the first `n` elements of an array literal, if they are
/// all constants.
pub open spec fn elem_literals(v: Seq<ArrayElem>, n: nat) -> Option<Seq<LiteralView>>
    decreases n,
{
    if n == 0 {
        Some(Seq::empty())
    } else if n > v.len() {
        None
    } else {
        match (elem_literals(v, (n - 1) as nat), elem_literal(v[n - 1])) {
            (Some(before), Some(l)) => Some(before.push(l)),
            _ => None,
        }
    }
}

/// The constant an array literal bakes to, if its elements are all constants.
pub open spec fn array_literal(v: Seq<ArrayElem>) -> Option<LiteralView> {
    match elem_literals(v, v.len()) {
        Some(l) => Some(LiteralView::Array(l)),
        None => None,
    }
}

proof fn lemma_no_literals(v: Seq<ArrayElem>, n: nat, m: nat)
    requires
        n <= m <= v.len(),
        elem_literals(v, n) is None,
    ensures
        elem_literals(v, m) is None,
    decreases m - n,
{
    if n < m {
        lemma_no_literals(v, n, (m - 1) as nat);
    }
}

/// The constant an array literal bakes to.
pub fn bake_array(v: &Vec<ArrayElem>) -> (r: Option<Literal>)
    ensures
        shown(r) == array_literal(v@),
{
    let mut out: Vec<Literal> = Vec::new();
    let mut i: usize = 0;
    while i < v.len()
        invariant
            i <= v@.len(),
            out@.len() == i,
            elem_literals(v@, i as nat) is Some,
            elem_literals(v@, i as nat)->0.len() == i,
            forall|k: int|
                0 <= k < i ==> (#[trigger] out@[k])@ == elem_literals(v@, i as nat)->0[k],
        decreases v.len() - i,
    {
        match array_elem_literal(&v[i]) {
            Some(l) => {
                out.push(l);
            },
            None => {
                proof {
                    lemma_no_literals(v@, (i + 1) as nat, v@.len());
                }
                return None;
            },
        }
        i += 1;
    }
    let r = Literal::Array(out);
    proof {
        let a = match r@ {
            LiteralView::Array(l) => l,
            _ => Seq::empty(),
        };
        assert(a =~= elem_literals(v@, v@.len())->0);
    }
    Some(r)
}

pub open spec fn name_props(name: Seq<char>) -> Map<Prop, LiteralView> {
    Map::empty().insert(Prop::NameLabel, LiteralView::String(name))
}

pub open spec fn with_initial(
    props: Map<Prop, LiteralView>,
    init: Option<LiteralView>,
) -> Map<Prop, LiteralView> {
    match init {
        Some(l) => props.insert(Prop::InitialValue, l),
        None => props,
    }
}

/// An array variable, as a gate.
pub open spec fn array_gate(
    name: Seq<char>,
    elem: TypeView,
    init: Option<LiteralView>,
    range: RangeView,
) -> GateView {
    GateView {
        class: GateClass::PseudoArrayVar,
        range,
        props: with_initial(name_props(name), init),
        io: array_io(elem),
        note: None,
    }
}

/// A variable, as a gate.
pub open spec fn var_gate(
    name: Seq<char>,
    ty: TypeView,
    init: Option<LiteralView>,
    range: RangeView,
) -> GateView {
    GateView {
        class: GateClass::PseudoVar,
        range,
        props: with_initial(name_props(name), init),
        io: var_io(ty),
        note: None,
    }
}

/// An array variable of the given element type.
pub open spec fn array_declared(
    s: LowerState,
    name: Seq<char>,
    elem: TypeView,
    init: Option<LiteralView>,
    range: RangeView,
) -> LowerState {
    s.with_gate(array_gate(name, elem, init, range)).with_binding(
        name,
        BindingView::Var(
            VarView {
                node_id: s.fresh(),
                inner_type: elem,
                get_node_for_handler: None,
                storage: VarStorage::Array,
            },
        ),
    )
}

fn declare_array<'a>(
    ctx: &mut LowerCtx<'a>,
    name: &str,
    elem: Type,
    init: Option<Literal>,
    range: &SourceRange,
)
    ensures
        final(ctx)@ == array_declared(old(ctx)@, name@, elem@, shown(init), range@),
{
    let mut props: AssocMap<Prop, Literal> = AssocMap::new();
    props.insert(Prop::NameLabel, Literal::String(owned(name)));
    if let Some(lit) = init {
        props.insert(Prop::InitialValue, lit);
    }
    let gate = GateSpec {
        class: GateClass::PseudoArrayVar,
        range: range.clone(),
        props,
        io: io_of_array(&elem),
        note: None,
    };
    assert(gate@ == array_gate(name@, elem@, shown(init), range@));
    let node_id = ctx.add_gate(gate);
    ctx.bind_name(
        name,
        Binding::Var(
            VarRecord {
                node_id,
                inner_type: elem,
                get_node_for_handler: None,
                storage: VarStorage::Array,
            },
        ),
    );
}

/// The type a variable is declared with: its annotation, or else the type of
/// its initializer.
pub open spec fn var_type(s: LowerState, d: VarDecl) -> TypeView {
    match (d.typ, d.init) {
        (Some(t), _) => plain_type(t@),
        (None, Some(e)) => s.type_at(e.rng()@),
        (None, None) => TypeView::Any,
    }
}

/// The constant that an array variable starts with.
pub open spec fn var_array_init(d: VarDecl) -> Option<LiteralView> {
    match d.init {
        Some(Expr::Array { elements, .. }) => array_literal(elements@),
        _ => None,
    }
}

/// The constant that a variable of a type starts with.
pub open spec fn var_init(d: VarDecl, ty: TypeView) -> LiteralView {
    match d.init {
        Some(e) => match literal_of(e) {
            Some(l) => l,
            None => default_literal(ty),
        },
        None => default_literal(ty),
    }
}

/// The state after a variable is declared. One of array type is an array.
pub open spec fn var_declared(s: LowerState, d: VarDecl) -> LowerState {
    match var_type(s, d) {
        TypeView::Array(elem) => array_declared(s, d.name@, *elem, var_array_init(d), d.range@),
        ty => s.with_gate(var_gate(d.name@, ty, Some(var_init(d, ty)), d.range@)).with_binding(
            d.name@,
            BindingView::Var(
                VarView {
                    node_id: s.fresh(),
                    inner_type: ty,
                    get_node_for_handler: None,
                    storage: VarStorage::Var,
                },
            ),
        ),
    }
}

pub fn pre_declare_var<'a>(ctx: &mut LowerCtx<'a>, d: &VarDecl)
    ensures
        final(ctx)@ == var_declared(old(ctx)@, *d),
{
    let inner_type = match &d.typ {
        Some(t) => type_of_type_expr(t),
        None => match &d.init {
            Some(e) => ctx.type_of(e),
            None => Type::Any,
        },
    };
    if let Type::Array(elem) = &inner_type {
        let init = match &d.init {
            Some(Expr::Array { elements, .. }) => bake_array(elements),
            _ => None,
        };
        declare_array(ctx, d.name.as_str(), (&**elem).clone(), init, &d.range);
        return ;
    }
    let init_lit = match &d.init {
        Some(e) => match expr_to_literal(e) {
            Some(l) => Some(l),
            None => default_literal_for_var_type(&inner_type),
        },
        None => default_literal_for_var_type(&inner_type),
    };
    assert(shown(init_lit) == Some(var_init(*d, inner_type@)));
    let mut props: AssocMap<Prop, Literal> = AssocMap::new();
    props.insert(Prop::NameLabel, Literal::String(d.name.clone()));
    if let Some(lit) = init_lit {
        props.insert(Prop::InitialValue, lit);
    }
    let gate = GateSpec {
        class: GateClass::PseudoVar,
        range: d.range.clone(),
        props,
        io: io_of_var(&inner_type),
        note: None,
    };
    assert(gate@ == var_gate(
        d.name@,
        inner_type@,
        Some(var_init(*d, inner_type@)),
        d.range@,
    ));
    let node_id = ctx.add_gate(gate);
    ctx.bind_name(
        d.name.as_str(),
        Binding::Var(
            VarRecord {
                node_id,
                inner_type,
                get_node_for_handler: None,
                storage: VarStorage::Var,
            },
        ),
    );
}

/// The state after an array is declared.
pub open spec fn array_decl_declared(s: LowerState, d: ArrayDecl) -> LowerState {
    array_declared(
        s,
        d.name@,
        plain_type(d.element_type@),
        if d.init@.len() == 0 {
            None
        } else {
            array_literal(d.init@)
        },
        d.range@,
    )
}

pub fn pre_declare_array<'a>(ctx: &mut LowerCtx<'a>, d: &ArrayDecl)
    ensures
        final(ctx)@ == array_decl_declared(old(ctx)@, *d),
{
    let elem_type = type_of_type_expr(&d.element_type);
    let init = if d.init.len() == 0 {
        None
    } else {
        bake_array(&d.init)
    };
    declare_array(ctx, d.name.as_str(), elem_type, init, &d.range);
}

/// The type of a buffer: its annotation, or else the type of what goes in.
pub open spec fn buffer_type(s: LowerState, d: BufferDecl) -> TypeView {
    match d.typ {
        Some(t) => plain_type(t@),
        None => unref(s.type_at(d.init.rng()@)),
    }
}

/// A buffer of one tick, as a gate.
pub open spec fn buffer_gate(ty: TypeView, range: RangeView) -> GateView {
    GateView {
        class: GateClass::BufferTicks,
        range,
        props: Map::empty().insert(Prop::TicksToWait, LiteralView::Int(1)),
        io: buffer_io(ty),
        note: None,
    }
}

/// The state after a buffer is declared.
pub open spec fn buffer_declared(s: LowerState, d: BufferDecl) -> LowerState {
    let ty = buffer_type(s, d);
    s.with_gate(buffer_gate(ty, d.range@)).with_binding(
        d.name@,
        BindingView::Buffer(NodeRecordView { node_id: s.fresh(), ty }),
    )
}

pub fn pre_declare_buffer<'a>(ctx: &mut LowerCtx<'a>, d: &BufferDecl)
    ensures
        final(ctx)@ == buffer_declared(old(ctx)@, *d),
{
    let inner_type = match &d.typ {
        Some(t) => type_of_type_expr(t),
        None => unwrap_ref(&ctx.type_of(&d.init)),
    };
    let mut props: AssocMap<Prop, Literal> = AssocMap::new();
    props.insert(Prop::TicksToWait, Literal::Int(1));
    let gate = GateSpec {
        class: GateClass::BufferTicks,
        range: d.range.clone(),
        props,
        io: io_of_buffer(&inner_type),
        note: None,
    };
    assert(gate@ == buffer_gate(inner_type@, d.range@));
    let node_id = ctx.add_gate(gate);
    ctx.bind_name(d.name.as_str(), Binding::Buffer(NodeRecord { node_id, ty: inner_type }));
}

// ---------- callbacks ----------

/// A callback added to those of its name.
pub open spec fn called_back(s: LowerState, c: Callback) -> LowerState {
    let before = match at(s.callbacks, c.name@) {
        Some(l) => l,
        None => Seq::empty(),
    };
    LowerState { callbacks: put(s.callbacks, c.name@, before.push(c)), ..s }
}

pub fn pre_declare_callback<'a>(ctx: &mut LowerCtx<'a>, c: &'a Callback)
    ensures
        final(ctx)@ == called_back(old(ctx)@, *c),
{
    let ghost before = ctx.callbacks@;
    match find_key(&ctx.callbacks, c.name.as_str()) {
        Some(i) => {
            proof {
                crate::lower::names::lemma_slot(pairs(before), c.name@);
            }
            ctx.callbacks[i].1.list.push(c);
            assert(ctx.callbacks@[i as int].1@ =~= before[i as int].1@.push(*c));
            assert(pairs(ctx.callbacks@) =~= called_back(old(ctx)@, *c).callbacks);
        },
        None => {
            let list: Vec<&'a Callback> = vec![c];
            let only = CallbackList { list };
            assert(only@ =~= Seq::<Callback>::empty().push(*c));
            ctx.callbacks.push((c.name.clone(), only));
            assert(pairs(ctx.callbacks@) =~= called_back(old(ctx)@, *c).callbacks);
        },
    }
}

// ---------- ports ----------

/// The error for a side annotation on a port that is none of the compiled file.
pub open spec fn side_reported(s: LowerState, range: RangeView) -> LowerState {
    s.reported(
        Severity::Error,
        "WS023"@,
        "side annotations only apply to top-level ports of the compiled file"@,
        range,
    )
}

pub fn report_non_root_side<'a>(ctx: &mut LowerCtx<'a>, range: &SourceRange)
    ensures
        final(ctx)@ == side_reported(old(ctx)@, range@),
{
    ctx.report(
        Severity::Error,
        "WS023",
        owned("side annotations only apply to top-level ports of the compiled file"),
        range,
    );
}

/// A `@side` annotation attached to a port, or rejected when the port is none
/// of the root module.
pub open spec fn sided(
    s: LowerState,
    node_id: NodeId,
    side: Option<PortSide>,
    range: RangeView,
) -> LowerState {
    match side {
        None => s,
        Some(side) => if !s.root || s.anon_chip is Some {
            side_reported(s, range)
        } else {
            s.with_prop(node_id, Prop::RerouteSide, LiteralView::String(side.word()))
        },
    }
}

pub fn apply_port_side<'a>(
    ctx: &mut LowerCtx<'a>,
    node_id: NodeId,
    side: Option<PortSide>,
    range: &SourceRange,
)
    ensures
        final(ctx)@ == sided(old(ctx)@, node_id, side, range@),
{
    let side = match side {
        Some(side) => side,
        None => {
            return ;
        },
    };
    if !ctx.is_root_module || ctx.current_anon_chip.is_some() {
        report_non_root_side(ctx, range);
        return ;
    }
    ctx.set_prop(node_id, Prop::RerouteSide, Literal::String(owned(side.as_str())));
}

/// A label that overrides the name of a port.
pub open spec fn labelled(s: LowerState, node_id: NodeId, label: Option<String>) -> LowerState {
    match label {
        Some(l) => s.with_prop(node_id, Prop::NameLabel, LiteralView::String(l@)),
        None => s,
    }
}

/// The state after an input port is declared.
pub open spec fn input_declared(s: LowerState, d: InDecl) -> LowerState {
    let t = plain_type(d.typ@);
    let id = s.fresh();
    let s1 = s.with_node(NodeKind::Input, port_gate(d.name@, t, d.range@), None);
    labelled(sided(s1, id, d.side, d.range@), id, d.label).with_binding(
        d.name@,
        BindingView::Input(NodeRecordView { node_id: id, ty: t }),
    )
}

pub fn pre_declare_input<'a>(ctx: &mut LowerCtx<'a>, d: &InDecl)
    ensures
        final(ctx)@ == input_declared(old(ctx)@, *d),
{
    let t = type_of_type_expr(&d.typ);
    let node_id = ctx.add_port(NodeKind::Input, d.name.as_str(), &t, d.range.clone());
    apply_port_side(ctx, node_id, d.side, &d.range);
    if let Some(label) = &d.label {
        ctx.set_prop(node_id, Prop::NameLabel, Literal::String(label.clone()));
    }
    ctx.bind_name(d.name.as_str(), Binding::Input(NodeRecord { node_id, ty: t }));
}

/// The type of an output: that of its value, or else its annotation.
pub open spec fn output_type(s: LowerState, value: Option<Expr>, typ: Option<TypeExpr>) -> TypeView {
    match (value, typ) {
        (Some(v), _) => unref(s.type_at(v.rng()@)),
        (None, Some(t)) => plain_type(t@),
        (None, None) => TypeView::Any,
    }
}

/// The state after an output port is declared.
pub open spec fn output_declared(s: LowerState, o: OutBinding) -> LowerState {
    let t = output_type(s, o.value, o.typ);
    let id = s.fresh();
    let s1 = s.with_node(NodeKind::Output, port_gate(o.name@, t, o.range@), None);
    labelled(sided(s1, id, o.side, o.range@), id, o.label).with_binding(
        output_key(o.name@),
        BindingView::Output(NodeRecordView { node_id: id, ty: t }),
    )
}

pub fn pre_declare_output<'a>(ctx: &mut LowerCtx<'a>, o: &OutBinding)
    ensures
        final(ctx)@ == output_declared(old(ctx)@, *o),
{
    let t = match &o.value {
        Some(v) => unwrap_ref(&ctx.type_of(v)),
        None => match &o.typ {
            Some(te) => type_of_type_expr(te),
            None => Type::Any,
        },
    };
    let node_id = ctx.add_port(NodeKind::Output, o.name.as_str(), &t, o.range.clone());
    apply_port_side(ctx, node_id, o.side, &o.range);
    if let Some(label) = &o.label {
        ctx.set_prop(node_id, Prop::NameLabel, Literal::String(label.clone()));
    }
    let key = output_scope_key(o.name.as_str());
    ctx.bind_name(key.as_str(), Binding::Output(NodeRecord { node_id, ty: t }));
}

// ---------- anonymous chips ----------

/// An anonymous chip, as a gate.
pub open spec fn chip_gate(range: RangeView) -> GateView {
    GateView {
        class: GateClass::MicrochipAlt,
        range,
        props: Map::empty(),
        io: no_io(),
        note: None,
    }
}

/// The node of an anonymous chip, with what its annotations and its doc
/// comment say.
pub open spec fn chip_placed(s: LowerState, ac: AnonChipDecl) -> LowerState {
    let id = s.fresh();
    let s1 = s.with_gate(chip_gate(ac.range@)).with_kind(id, NodeKind::Chip);
    let s2 = if ac.closed {
        s1.with_prop(id, Prop::ChipClosed, LiteralView::Bool(true))
    } else {
        s1
    };
    let s3 = labelled(s2, id, ac.label);
    if s3.docs.contains_key(ac.range.start.offset) {
        s3.with_prop(
            id,
            Prop::DocText,
            LiteralView::String(s3.docs[ac.range.start.offset]),
        )
    } else {
        s3
    }
}

/// A statement of an anonymous chip's body, pre-declared.
pub open spec fn chip_stmt_declared(s: LowerState, st: Stmt) -> LowerState {
    match st {
        Stmt::Var(v) => var_declared(s, v),
        Stmt::Buffer(b) => buffer_declared(s, b),
        Stmt::Array(a) => array_decl_declared(s, a),
        Stmt::In(i) => input_declared(s, i),
        Stmt::OutBinding(o) => if o.side is Some {
            side_reported(s, o.range@)
        } else {
            s
        },
        _ => s,
    }
}

/// The first `n` statements of an anonymous chip's body, pre-declared.
pub open spec fn chip_body_declared(s: LowerState, stmts: Seq<Stmt>, n: nat) -> LowerState
    decreases n,
{
    if n == 0 || n > stmts.len() {
        s
    } else {
        chip_stmt_declared(chip_body_declared(s, stmts, (n - 1) as nat), stmts[n - 1])
    }
}

/// The state after an anonymous chip is pre-declared: its node is placed, and
/// what its body declares is tagged with it.
pub open spec fn chip_declared(s: LowerState, ac: AnonChipDecl) -> LowerState {
    let s1 = LowerState { anon_chip: Some(s.fresh()), ..chip_placed(s, ac) };
    LowerState {
        anon_chip: s.anon_chip,
        ..chip_body_declared(s1, ac.body.stmts@, ac.body.stmts@.len())
    }
}

fn place_chip<'a>(ctx: &mut LowerCtx<'a>, ac: &AnonChipDecl) -> (r: NodeId)
    ensures
        r == old(ctx)@.fresh(),
        final(ctx)@ == chip_placed(old(ctx)@, *ac),
{
    let gate = GateSpec {
        class: GateClass::MicrochipAlt,
        range: ac.range.clone(),
        props: AssocMap::new(),
        io: io_of_nothing(),
        note: None,
    };
    assert(gate@ == chip_gate(ac.range@));
    let id = ctx.add_gate(gate);
    ctx.set_kind(id, NodeKind::Chip);
    if ac.closed {
        ctx.set_prop(id, Prop::ChipClosed, Literal::Bool(true));
    }
    if let Some(label) = &ac.label {
        ctx.set_prop(id, Prop::NameLabel, Literal::String(label.clone()));
    }
    let doc = match ctx.doc_comments.get(&ac.range.start.offset) {
        Some(d) => Some(d.clone()),
        None => None,
    };
    if let Some(d) = doc {
        ctx.set_prop(id, Prop::DocText, Literal::String(d));
    }
    id
}

fn pre_declare_chip_body<'a>(ctx: &mut LowerCtx<'a>, stmts: &Vec<Stmt>)
    ensures
        final(ctx)@ == chip_body_declared(old(ctx)@, stmts@, stmts@.len()),
{
    let mut i: usize = 0;
    while i < stmts.len()
        invariant
            i <= stmts@.len(),
            ctx@ == chip_body_declared(old(ctx)@, stmts@, i as nat),
        decreases stmts.len() - i,
    {
        match &stmts[i] {
            Stmt::Var(v) => pre_declare_var(ctx, v),
            Stmt::Buffer(b) => pre_declare_buffer(ctx, b),
            Stmt::Array(a) => pre_declare_array(ctx, a),
            Stmt::In(i) => pre_declare_input(ctx, i),
            Stmt::OutBinding(o) => {
                if o.side.is_some() {
                    report_non_root_side(ctx, &o.range);
                }
            },
            _ => {},
        }
        i += 1;
    }
}

/// The state after a top-level declaration is pre-declared.
pub open spec fn pre_declared(s: LowerState, d: TopDecl) -> LowerState {
    match d {
        TopDecl::Var(v) => var_declared(s, v),
        TopDecl::Array(a) => array_decl_declared(s, a),
        TopDecl::Buffer(b) => buffer_declared(s, b),
        TopDecl::In(i) => input_declared(s, i),
        TopDecl::Out(o) => output_declared(s, o),
        TopDecl::Callback(c) => called_back(s, c),
        TopDecl::Let(l) => signalled(s, l),
        TopDecl::AnonChip(ac) => chip_declared(s, ac),
        _ => s,
    }
}

pub fn pre_declare_decl<'a>(ctx: &mut LowerCtx<'a>, d: &'a TopDecl)
    ensures
        final(ctx)@ == pre_declared(old(ctx)@, *d),
{
    match d {
        TopDecl::Var(v) => pre_declare_var(ctx, v),
        TopDecl::Array(a) => pre_declare_array(ctx, a),
        TopDecl::Buffer(b) => pre_declare_buffer(ctx, b),
        TopDecl::In(i) => pre_declare_input(ctx, i),
        TopDecl::Out(o) => pre_declare_output(ctx, o),
        TopDecl::Callback(c) => pre_declare_callback(ctx, c),
        TopDecl::Let(l) => pre_declare_exec_signal(ctx, l),
        TopDecl::AnonChip(ac) => {
            let saved = ctx.current_anon_chip;
            let id = place_chip(ctx, ac);
            ctx.current_anon_chip = Some(id);
            pre_declare_chip_body(ctx, &ac.body.stmts);
            ctx.current_anon_chip = saved;
        },
        _ => {},
    }
}

/// Pre-declaring a declaration leaves the exec flow, the wires and the frames'
/// number as they were.
pub proof fn pre_declaring_keeps_flow(s: LowerState, d: TopDecl)
    requires
        s.frames.len() > 0,
    ensures
        pre_declared(s, d).flow == s.flow,
        pre_declared(s, d).wires == s.wires,
        pre_declared(s, d).anon_chip == s.anon_chip,
        pre_declared(s, d).frames.len() == s.frames.len(),
{
    if let TopDecl::AnonChip(ac) = d {
        let s1 = LowerState { anon_chip: Some(s.fresh()), ..chip_placed(s, ac) };
        lemma_chip_body_keeps_flow(s1, ac.body.stmts@, ac.body.stmts@.len());
    }
}

proof fn lemma_chip_body_keeps_flow(s: LowerState, stmts: Seq<Stmt>, n: nat)
    requires
        s.frames.len() > 0,
    ensures
        chip_body_declared(s, stmts, n).flow == s.flow,
        chip_body_declared(s, stmts, n).wires == s.wires,
        chip_body_declared(s, stmts, n).frames.len() == s.frames.len(),
    decreases n,
{
    if n > 0 && n <= stmts.len() {
        lemma_chip_body_keeps_flow(s, stmts, (n - 1) as nat);
    }
}

} // verus!
