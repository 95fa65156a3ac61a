//! What a check keeps: it only ever adds to what is known, and leaves the
//! stacks of scopes and modes as it found them.

use crate::ast::{
    ArrayDecl, ArrayElem, Assign, AwaitStmt, Block, BufferDecl, CallArg, Callback, ChipDecl, Emit,
    EventDecl, Expr, FnDecl, Handler, If, InDecl, InterpPart, LetBinding, LetDecl, MatchArm,
    MatchBody, NamedOutput, OutBinding, Param, ParamPattern, RecordDestructField, RecordLitField,
    Script, Stmt, TopDecl, VarDecl,
};
use crate::catalog::{CallSpec, Catalog, EventSpec, OpRuleView};
use crate::diagnostic::{RangeView, Severity};
use crate::type_expr::{type_expr_text, TypeExprView, TypeFieldView};
use crate::typecheck::ctx::{span_key, ExecMode, NsView, State, TypeCheckCtx};
use crate::typecheck::judge::{
    annotated, array_elems, baked_element, baked_elements, bound_awaited, call_args, checked_anon,
    checked_array, checked_assign, checked_await, checked_block, checked_bodies, checked_buffer,
    checked_callback, checked_chip, checked_decl, checked_emit, checked_event, checked_fn,
    checked_handler, checked_if, checked_out, checked_script, checked_stmt, checked_stmts,
    checked_values, checked_var, chip_pass, elem_of, extra_reports, inferred, inferred_inner,
    initialized, interp_parts, main_pass, match_arms, missing_reports, out_annotated, payload_of,
    positional_args, random_bound, record_fields, target_type, var_inner, wrapped_decl,
};
use crate::typecheck::register::{
    builtin_events, named_output_fields, param_fields, primitive, registered, registered_alias,
    registered_all, registered_array, registered_buffer, registered_callback, registered_chip,
    registered_event, registered_fn, registered_in, registered_namespace, registered_stmts,
    registered_var, resolved, resolved_fields, resolved_list,
};
use crate::typecheck::rules::{
    argument, arity, array_behind, bound_any, bound_event_params, bound_fields, bound_fn_params,
    bound_let, bound_param, bound_param_tuple, bound_params, bound_record, bound_trigger,
    bound_tuple, coerced, counted, dangling, declared_above, declared_call, deref_rule,
    exec_call, field_rule, let_symbol,
    names_namespace, namespace_call, outputs_checked, positional_count, shown_target,
    tuple_mismatch, unassigned_reports, var_named,
};
use crate::typecheck::scope::{retyped, SymView, SymbolKind};
use crate::types::{plain_name, type_text, Fields, TypeView};
use vstd::prelude::*;

verus! {

/// Whether a later state of a check goes on from an earlier one: the file and the
/// modes are the same; there are as many scopes, and what they declared is still
/// declared; the diagnostics are the earlier ones and perhaps more; and what
/// has a type or an operator rule still has one.
#[verifier::opaque]
pub open spec fn goes_on(s: State, t: State) -> bool {
    s.scopes.len() >= 1 ==> {
        &&& t.file == s.file
        &&& t.modes == s.modes
        &&& t.scopes.len() == s.scopes.len()
        &&& forall|i: int, name: Seq<char>|
            0 <= i < s.scopes.len() && #[trigger] s.scopes[i].contains_key(name)
                ==> t.scopes[i].contains_key(name)
        &&& s.diags.len() <= t.diags.len()
        &&& forall|i: int| 0 <= i < s.diags.len() ==> #[trigger] t.diags[i] == s.diags[i]
        &&& forall|k: (Seq<char>, usize, usize)| #[trigger]
            s.types.contains_key(k) ==> t.types.contains_key(k)
        &&& forall|k: (Seq<char>, usize, usize)| #[trigger]
            s.ops.contains_key(k) ==> t.ops.contains_key(k)
    }
}

/// Whether a later state goes on from an earlier one, and has changed no scope
/// but the innermost.
#[verifier::opaque]
pub open spec fn nests(s: State, t: State) -> bool {
    &&& goes_on(s, t)
    &&& s.scopes.len() >= 1 ==> forall|i: int|
        0 <= i < s.scopes.len() - 1 ==> #[trigger] t.scopes[i] == s.scopes[i]
}

/// Whether the innermost scope declares a name.
pub open spec fn own(s: State, name: Seq<char>) -> bool {
    s.scopes.len() >= 1 && s.scopes.last().contains_key(name)
}

/// Whether the innermost scope declares the variables and buffers among some
/// statements.
pub open spec fn owns_stmts(s: State, stmts: Seq<Stmt>) -> bool {
    forall|i: int| 0 <= i < stmts.len() ==> owns_stmt(s, #[trigger] stmts[i])
}

pub open spec fn owns_stmt(s: State, st: Stmt) -> bool {
    match st {
        Stmt::Var(v) => own(s, v.name@),
        Stmt::Buffer(b) => own(s, b.name@),
        _ => true,
    }
}

/// Whether the innermost scope declares the names to which checking a
/// declaration gives their types.
pub open spec fn owns_decl(s: State, d: TopDecl) -> bool {
    match d {
        TopDecl::Var(v) => own(s, v.name@),
        TopDecl::Buffer(b) => own(s, b.name@),
        TopDecl::AnonChip(ac) => owns_stmts(s, ac.body.stmts@),
        _ => true,
    }
}

// ---------- single steps ----------

broadcast proof fn stays(s: State)
    ensures
        #[trigger] nests(s, s),
{
    reveal(goes_on);
    reveal(nests);
}

broadcast proof fn chains(a: State, b: State, c: State)
    requires
        #[trigger] nests(a, b),
        #[trigger] nests(b, c),
    ensures
        nests(a, c),
{
    reveal(goes_on);
    reveal(nests);
}

broadcast proof fn nesting(s: State, t: State)
    requires
        #[trigger] nests(s, t),
    ensures
        goes_on(s, t),
{
    reveal(nests);
}

broadcast proof fn goes_nowhere(s: State)
    ensures
        #[trigger] goes_on(s, s),
{
    reveal(goes_on);
}

broadcast proof fn goes_further(a: State, b: State, c: State)
    requires
        #[trigger] goes_on(a, b),
        #[trigger] goes_on(b, c),
    ensures
        goes_on(a, c),
{
    reveal(goes_on);
}

/// A name stays declared in the innermost scope.
proof fn keeps_own(s: State, t: State, name: Seq<char>)
    requires
        goes_on(s, t),
        own(s, name),
    ensures
        own(t, name),
{
    reveal(goes_on);
    assert(s.scopes[s.scopes.len() - 1].contains_key(name));
}

broadcast proof fn reports(
    s: State,
    severity: Severity,
    code: Seq<char>,
    message: Seq<char>,
    range: RangeView,
)
    ensures
        nests(s, #[trigger] s.report(severity, code, message, range)),
{
    reveal(goes_on);
    reveal(nests);
}

broadcast proof fn declares(s: State, name: Seq<char>, info: SymView)
    ensures
        nests(s, #[trigger] s.declare(name, info)),
{
    reveal(goes_on);
    reveal(nests);
}

proof fn lemma_retyped(scopes: Seq<crate::typecheck::scope::Frame>, name: Seq<char>, ty: TypeView)
    ensures
        retyped(scopes, name, ty).len() == scopes.len(),
        forall|i: int, n: Seq<char>|
            0 <= i < scopes.len() && #[trigger] scopes[i].contains_key(n) ==> retyped(
                scopes,
                name,
                ty,
            )[i].contains_key(n),
    decreases scopes.len(),
{
    if scopes.len() > 0 && !scopes.last().contains_key(name) {
        lemma_retyped(scopes.drop_last(), name, ty);
        assert forall|i: int, n: Seq<char>|
            0 <= i < scopes.len() && #[trigger] scopes[i].contains_key(n) implies retyped(
            scopes,
            name,
            ty,
        )[i].contains_key(n) by {
            if i < scopes.len() - 1 {
                assert(scopes.drop_last()[i].contains_key(n));
            }
        }
    }
}

broadcast proof fn retypes(s: State, name: Seq<char>, ty: TypeView)
    ensures
        goes_on(s, #[trigger] s.set_type(name, ty)),
{
    reveal(goes_on);
    lemma_retyped(s.scopes, name, ty);
}

broadcast proof fn retypes_own(s: State, name: Seq<char>, ty: TypeView)
    requires
        own(s, name),
    ensures
        nests(s, #[trigger] s.set_type(name, ty)),
{
    reveal(nests);
    retypes(s, name, ty);
}

broadcast proof fn notes_if(s: State, range: RangeView, exec_mode: bool)
    ensures
        nests(s, #[trigger] s.note_if(range, exec_mode)),
{
    reveal(goes_on);
    reveal(nests);
}

broadcast proof fn notes_read(s: State, range: RangeView, exec_mode: bool)
    ensures
        nests(s, #[trigger] s.note_read(range, exec_mode)),
{
    reveal(goes_on);
    reveal(nests);
}

broadcast proof fn forgets_read(s: State, range: RangeView)
    ensures
        nests(s, #[trigger] s.forget_read(range)),
{
    reveal(goes_on);
    reveal(nests);
}

broadcast proof fn notes_payload(s: State, signal: Seq<char>, ty: TypeView)
    ensures
        nests(s, #[trigger] s.note_payload(signal, ty)),
{
    reveal(goes_on);
    reveal(nests);
}

broadcast proof fn notes_type(s: State, range: RangeView, ty: TypeView)
    ensures
        nests(s, #[trigger] s.note_type(range, ty)),
{
    reveal(goes_on);
    reveal(nests);
}

broadcast proof fn notes_op(s: State, range: RangeView, rule: OpRuleView)
    ensures
        nests(s, #[trigger] s.note_op(range, rule)),
{
    reveal(goes_on);
    reveal(nests);
}

broadcast proof fn adds_namespace(s: State, name: Seq<char>, members: Map<Seq<char>, NsView>)
    ensures
        nests(s, #[trigger] s.add_namespace(name, members)),
{
    reveal(goes_on);
    reveal(nests);
}

/// What a scope that is opened and left again leaves behind.
proof fn closing_restores(s: State, t: State)
    requires
        nests(s.push_scope(), t),
        s.scopes.len() >= 1,
    ensures
        t.pop_scope().scopes == s.scopes,
{
    reveal(goes_on);
    reveal(nests);
    let p = s.push_scope();
    assert forall|i: int| 0 <= i < s.scopes.len() implies t.scopes[i] == s.scopes[i] by {
        assert(t.scopes[i] == p.scopes[i]);
    }
    assert(t.pop_scope().scopes =~= s.scopes);
}

/// A scope that is opened and left again.
broadcast proof fn closes_scope(s: State, t: State)
    requires
        #[trigger] nests(s.push_scope(), t),
    ensures
        nests(s, #[trigger] t.pop_scope()),
{
    reveal(goes_on);
    reveal(nests);
    let p = s.push_scope();
    if s.scopes.len() >= 1 {
        closing_restores(s, t);
        assert forall|i: int| 0 <= i < s.diags.len() implies #[trigger] t.pop_scope().diags[i]
            == s.diags[i] by {
            assert(t.diags[i] == p.diags[i]);
        }
        assert forall|k: (Seq<char>, usize, usize)| #[trigger]
            s.types.contains_key(k) implies t.pop_scope().types.contains_key(k) by {
            assert(p.types.contains_key(k));
        }
        assert forall|k: (Seq<char>, usize, usize)| #[trigger]
            s.ops.contains_key(k) implies t.pop_scope().ops.contains_key(k) by {
            assert(p.ops.contains_key(k));
        }
    }
}

/// A mode that is set and taken back.
broadcast proof fn goes_back(s: State, mode: ExecMode, t: State)
    requires
        #[trigger] goes_on(s.push_mode(mode), t),
    ensures
        goes_on(s, #[trigger] t.pop_mode()),
{
    reveal(goes_on);
    let p = s.push_mode(mode);
    if s.scopes.len() >= 1 {
        assert(t.modes.drop_last() =~= s.modes);
        assert forall|i: int, name: Seq<char>|
            0 <= i < s.scopes.len() && #[trigger] s.scopes[i].contains_key(
                name,
            ) implies t.pop_mode().scopes[i].contains_key(name) by {
            assert(p.scopes[i].contains_key(name));
        }
        assert forall|i: int| 0 <= i < s.diags.len() implies #[trigger] t.pop_mode().diags[i]
            == s.diags[i] by {
            assert(t.diags[i] == p.diags[i]);
        }
        assert forall|k: (Seq<char>, usize, usize)| #[trigger]
            s.types.contains_key(k) implies t.pop_mode().types.contains_key(k) by {
            assert(p.types.contains_key(k));
        }
        assert forall|k: (Seq<char>, usize, usize)| #[trigger]
            s.ops.contains_key(k) implies t.pop_mode().ops.contains_key(k) by {
            assert(p.ops.contains_key(k));
        }
    }
}

broadcast proof fn resets_mode(s: State, mode: ExecMode, t: State)
    requires
        #[trigger] nests(s.push_mode(mode), t),
    ensures
        nests(s, #[trigger] t.pop_mode()),
{
    reveal(nests);
    goes_back(s, mode, t);
    let p = s.push_mode(mode);
    if s.scopes.len() >= 1 {
        assert forall|i: int| 0 <= i < s.scopes.len() - 1 implies #[trigger] t.pop_mode().scopes[i]
            == s.scopes[i] by {
            assert(t.scopes[i] == p.scopes[i]);
        }
    }
}

broadcast group group_steps {
    stays,
    chains,
    nesting,
    goes_nowhere,
    goes_further,
    reports,
    declares,
    retypes,
    retypes_own,
    notes_if,
    notes_read,
    forgets_read,
    notes_payload,
    notes_type,
    notes_op,
    adds_namespace,
    closes_scope,
    goes_back,
    resets_mode,
}

// ---------- types and registered declarations ----------

proof fn resolving(s: State, t: TypeExprView)
    ensures
        nests(s, resolved(s, t).0),
    decreases t, 0nat,
{
    broadcast use group_steps;

    match t {
        TypeExprView::Name { .. } => {},
        TypeExprView::Ref { inner, .. } => {
            resolving(s, *inner);
        },
        TypeExprView::Array { inner, .. } => {
            resolving(s, *inner);
        },
        TypeExprView::Tuple { fields, .. } => {
            resolving_list(s, fields, fields.len());
        },
        TypeExprView::Union { options, .. } => {
            resolving_list(s, options, options.len());
        },
        TypeExprView::Record { fields, .. } => {
            resolving_fields(s, fields, fields.len());
        },
    }
}

proof fn resolving_list(s: State, v: Seq<TypeExprView>, n: nat)
    ensures
        nests(s, resolved_list(s, v, n).0),
    decreases v, n,
{
    broadcast use group_steps;

    if n > 0 && n <= v.len() {
        resolving_list(s, v, (n - 1) as nat);
        resolving(resolved_list(s, v, (n - 1) as nat).0, v[n - 1]);
    }
}

proof fn resolving_fields(s: State, v: Seq<TypeFieldView>, n: nat)
    ensures
        nests(s, resolved_fields(s, v, n).0),
    decreases v, n,
{
    broadcast use group_steps;

    if n > 0 && n <= v.len() {
        resolving_fields(s, v, (n - 1) as nat);
        resolving(resolved_fields(s, v, (n - 1) as nat).0, v[n - 1].typ);
    }
}

proof fn taking_params(s: State, params: Seq<Param>, n: nat)
    ensures
        nests(s, param_fields(s, params, n).0),
    decreases n,
{
    broadcast use group_steps;

    if n > 0 && n <= params.len() {
        taking_params(s, params, (n - 1) as nat);
        resolving(param_fields(s, params, (n - 1) as nat).0, params[n - 1].typ@);
    }
}

proof fn taking_outputs(s: State, outs: Seq<NamedOutput>, n: nat)
    ensures
        nests(s, named_output_fields(s, outs, n).0),
    decreases n,
{
    broadcast use group_steps;

    if n > 0 && n <= outs.len() {
        taking_outputs(s, outs, (n - 1) as nat);
        resolving(named_output_fields(s, outs, (n - 1) as nat).0, outs[n - 1].typ@);
    }
}

proof fn registering_var(s: State, v: VarDecl)
    ensures
        nests(s, registered_var(s, v)),
        own(registered_var(s, v), v.name@),
{
    broadcast use group_steps;

    if let Some(t) = v.typ {
        resolving(s, t@);
    }
}

proof fn registering_array(s: State, a: ArrayDecl)
    ensures
        nests(s, registered_array(s, a)),
{
    broadcast use group_steps;

    resolving(s, a.element_type@);
}

proof fn registering_buffer(s: State, b: BufferDecl)
    ensures
        nests(s, registered_buffer(s, b)),
        own(registered_buffer(s, b), b.name@),
{
    broadcast use group_steps;

    if let Some(t) = b.typ {
        resolving(s, t@);
    }
}

proof fn registering_in(s: State, d: InDecl)
    ensures
        nests(s, registered_in(s, d)),
{
    broadcast use group_steps;

    resolving(s, d.typ@);
}

proof fn registering_fn(s: State, f: FnDecl)
    ensures
        nests(s, registered_fn(s, f)),
{
    broadcast use group_steps;

    taking_params(s, f.params@, f.params@.len());
    if let Some(t) = f.return_type {
        resolving(param_fields(s, f.params@, f.params@.len()).0, t@);
    }
}

proof fn registering_chip(s: State, c: ChipDecl)
    ensures
        nests(s, registered_chip(s, c)),
{
    broadcast use group_steps;

    taking_params(s, c.inputs@, c.inputs@.len());
    taking_outputs(
        param_fields(s, c.inputs@, c.inputs@.len()).0,
        c.outputs@,
        c.outputs@.len(),
    );
}

proof fn registering_callback(s: State, c: Callback)
    ensures
        nests(s, registered_callback(s, c)),
{
    broadcast use group_steps;

    taking_params(s, c.inputs@, c.inputs@.len());
    taking_outputs(
        param_fields(s, c.inputs@, c.inputs@.len()).0,
        c.outputs@,
        c.outputs@.len(),
    );
}

proof fn registering_stmts(s: State, stmts: Seq<Stmt>, n: nat)
    ensures
        nests(s, registered_stmts(s, stmts, n)),
        forall|i: int|
            0 <= i < n <= stmts.len() ==> owns_stmt(
                registered_stmts(s, stmts, n),
                #[trigger] stmts[i],
            ),
    decreases n,
{
    broadcast use group_steps;

    if n > 0 && n <= stmts.len() {
        registering_stmts(s, stmts, (n - 1) as nat);
        let s1 = registered_stmts(s, stmts, (n - 1) as nat);
        let s2 = registered_stmts(s, stmts, n);
        match stmts[n - 1] {
            Stmt::Var(v) => registering_var(s1, v),
            Stmt::Buffer(b) => registering_buffer(s1, b),
            Stmt::Array(a) => registering_array(s1, a),
            Stmt::In(d) => registering_in(s1, d),
            _ => {},
        }
        assert(goes_on(s1, s2));
        assert forall|i: int| 0 <= i < n implies owns_stmt(s2, #[trigger] stmts[i]) by {
            if i < n - 1 {
                owning_stmt(s1, s2, stmts[i]);
            }
        }
    }
}

proof fn owning_stmt(s: State, t: State, st: Stmt)
    requires
        goes_on(s, t),
        owns_stmt(s, st),
    ensures
        owns_stmt(t, st),
{
    match st {
        Stmt::Var(v) => keeps_own(s, t, v.name@),
        Stmt::Buffer(b) => keeps_own(s, t, b.name@),
        _ => {},
    }
}

proof fn registering(s: State, d: TopDecl)
    ensures
        nests(s, registered(s, d)),
{
    broadcast use group_steps;

    match d {
        TopDecl::Var(v) => registering_var(s, v),
        TopDecl::Array(a) => registering_array(s, a),
        TopDecl::Buffer(b) => registering_buffer(s, b),
        TopDecl::In(i) => registering_in(s, i),
        TopDecl::Fn(f) => registering_fn(s, f),
        TopDecl::Chip(c) => registering_chip(s, c),
        TopDecl::Callback(c) => registering_callback(s, c),
        TopDecl::Event(e) => {
            assert(nests(s, registered_event(s, e)));
        },
        TopDecl::AnonChip(ac) => registering_stmts(s, ac.body.stmts@, ac.body.stmts@.len()),
        TopDecl::TypeAlias(t) => {
            resolving(s, t.typ@);
            assert(nests(s, registered_alias(s, t)));
        },
        TopDecl::Namespace(ns) => {
            assert(nests(s, registered_namespace(s, ns)));
        },
        _ => {},
    }
}

/// Registering a declaration keeps what was known.
pub proof fn registering_goes_on(s: State, d: TopDecl)
    ensures
        goes_on(s, registered(s, d)),
{
    broadcast use group_steps;

    registering(s, d);
}

proof fn registering_all(s: State, decls: Seq<TopDecl>, n: nat)
    ensures
        nests(s, registered_all(s, decls, n)),
    decreases n,
{
    broadcast use group_steps;

    if n > 0 && n <= decls.len() {
        registering_all(s, decls, (n - 1) as nat);
        registering(registered_all(s, decls, (n - 1) as nat), decls[n - 1]);
    }
}

proof fn announcing(s: State, events: Seq<EventSpec>, n: nat)
    ensures
        nests(s, builtin_events(s, events, n)),
    decreases n,
{
    broadcast use group_steps;

    if n > 0 && n <= events.len() {
        announcing(s, events, (n - 1) as nat);
    }
}

// ---------- bindings ----------

proof fn binding_tuple(s: State, names: Seq<String>, tys: Seq<TypeView>, range: RangeView, n: nat)
    ensures
        nests(s, bound_tuple(s, names, tys, range, n)),
    decreases n,
{
    broadcast use group_steps;

    if n > 0 && n <= names.len() {
        binding_tuple(s, names, tys, range, (n - 1) as nat);
    }
}

proof fn binding_any(s: State, names: Seq<String>, range: RangeView, n: nat)
    ensures
        nests(s, bound_any(s, names, range, n)),
    decreases n,
{
    broadcast use group_steps;

    if n > 0 && n <= names.len() {
        binding_any(s, names, range, (n - 1) as nat);
    }
}

proof fn binding_record(s: State, names: Seq<String>, t: TypeView, range: RangeView, n: nat)
    ensures
        nests(s, bound_record(s, names, t, range, n)),
    decreases n,
{
    broadcast use group_steps;

    if n > 0 && n <= names.len() {
        binding_record(s, names, t, range, (n - 1) as nat);
    }
}

proof fn binding_fields(
    s: State,
    kind: SymbolKind,
    fields: Seq<RecordDestructField>,
    t: TypeView,
    range: RangeView,
    n: nat,
)
    ensures
        nests(s, bound_fields(s, kind, fields, t, range, n)),
    decreases n,
{
    broadcast use group_steps;

    if n > 0 && n <= fields.len() {
        binding_fields(s, kind, fields, t, range, (n - 1) as nat);
    }
}

proof fn mismatching(s: State, names: Seq<String>, t: TypeView, range: RangeView)
    ensures
        nests(s, tuple_mismatch(s, names, t, range)),
{
    broadcast use group_steps;

    let code = "WS010"@;
    let message = "destructure shape: expected tuple["@ + crate::text::decimal(names.len())
        + "], got "@ + crate::types::debug_text(t);
    binding_any(s.error(code, message, range), names, range, names.len());
}

proof fn binding_let(s: State, b: LetBinding, t: TypeView)
    ensures
        nests(s, bound_let(s, b, t)),
{
    broadcast use group_steps;

    match b {
        LetBinding::Ident { .. } => {},
        LetBinding::Tuple { names, range, .. } => {
            mismatching(s, names@, t, range@);
            if let TypeView::Tuple(tys) = t {
                binding_tuple(s, names@, tys, range@, names@.len());
            }
        },
        LetBinding::Record { names, range } => {
            binding_record(s, names@, t, range@, names@.len());
        },
        LetBinding::RecordDestruct { fields, range } => {
            binding_fields(s, SymbolKind::LetBinding, fields@, t, range@, fields@.len());
        },
    }
}

proof fn binding_param_tuple(s: State, names: Seq<String>, t: TypeView, range: RangeView, n: nat)
    ensures
        nests(s, bound_param_tuple(s, names, t, range, n)),
    decreases n,
{
    broadcast use group_steps;

    if n > 0 && n <= names.len() {
        binding_param_tuple(s, names, t, range, (n - 1) as nat);
    }
}

proof fn binding_param(s: State, p: Param)
    ensures
        nests(s, bound_param(s, p)),
{
    broadcast use group_steps;

    resolving(s, p.typ@);
    let (s1, ty) = resolved(s, p.typ@);
    if let Some(pattern) = p.pattern {
        let s2 = s1.declare(
            p.name@,
            crate::typecheck::scope::plain_symbol(SymbolKind::Param, p.name@, ty, p.range@),
        );
        match pattern {
            ParamPattern::Record { fields, .. } => {
                binding_fields(s2, SymbolKind::Param, fields@, ty, p.range@, fields@.len());
            },
            ParamPattern::Tuple { names, .. } => {
                binding_param_tuple(s2, names@, ty, p.range@, names@.len());
            },
        }
    }
}

proof fn binding_params(s: State, params: Seq<Param>, n: nat)
    ensures
        nests(s, bound_params(s, params, n)),
    decreases n,
{
    broadcast use group_steps;

    if n > 0 && n <= params.len() {
        binding_params(s, params, (n - 1) as nat);
        binding_param(bound_params(s, params, (n - 1) as nat), params[n - 1]);
    }
}

proof fn binding_fn_params(s: State, params: Seq<Param>, n: nat)
    ensures
        nests(s, bound_fn_params(s, params, n)),
    decreases n,
{
    broadcast use group_steps;

    if n > 0 && n <= params.len() {
        binding_fn_params(s, params, (n - 1) as nat);
        resolving(bound_fn_params(s, params, (n - 1) as nat), params[n - 1].typ@);
    }
}

proof fn binding_event_params(
    s: State,
    evt: Option<EventSpec>,
    params: Seq<String>,
    range: RangeView,
    n: nat,
)
    ensures
        nests(s, bound_event_params(s, evt, params, range, n)),
    decreases n,
{
    broadcast use group_steps;

    if n > 0 && n <= params.len() {
        binding_event_params(s, evt, params, range, (n - 1) as nat);
    }
}

proof fn binding_trigger(s: State, c: Catalog, h: Handler)
    ensures
        nests(s, bound_trigger(s, c, h)),
{
    broadcast use group_steps;

    if let Some((name, range)) = crate::typecheck::rules::trigger_name(h.trigger) {
        let s1 = if crate::typecheck::rules::known_trigger(s, c, name) {
            s
        } else {
            s.error("WS001"@, "unknown event or trigger '"@ + name + "'"@, range)
        };
        let evt = c.event(name);
        let given = h.params@.len();
        let s2 = match evt {
            Some(e) => if given > 0 && e.data@.len() < given {
                s1.error(
                    "WS010"@,
                    "destructure shape: expected "@ + crate::text::decimal(e.data@.len())
                        + " param(s), got "@ + crate::text::decimal(given),
                    h.range@,
                )
            } else {
                s1
            },
            None => s1,
        };
        assert(nests(s, s1));
        assert(nests(s1, s2));
        binding_event_params(s2, evt, h.params@, h.range@, given);
    }
}

proof fn reporting_unassigned(
    s: State,
    outs: Seq<NamedOutput>,
    names: Set<Seq<char>>,
    n: nat,
)
    ensures
        nests(s, unassigned_reports(s, outs, names, n)),
    decreases n,
{
    broadcast use group_steps;

    if n > 0 && n <= outs.len() {
        reporting_unassigned(s, outs, names, (n - 1) as nat);
    }
}

proof fn checking_outputs(s: State, ch: ChipDecl)
    ensures
        nests(s, outputs_checked(s, ch)),
{
    broadcast use group_steps;

    reporting_unassigned(
        s,
        ch.outputs@,
        crate::typecheck::rules::assigned(ch.body.stmts@, ch.body.stmts@.len()),
        ch.outputs@.len(),
    );
}

proof fn binding_awaited(
    s: State,
    fields: Seq<(String, String)>,
    payload: TypeView,
    range: RangeView,
    n: nat,
)
    ensures
        nests(s, bound_awaited(s, fields, payload, range, n)),
    decreases n,
{
    broadcast use group_steps;

    if n > 0 && n <= fields.len() {
        binding_awaited(s, fields, payload, range, (n - 1) as nat);
    }
}

proof fn reporting_missing(
    s: State,
    expected: Fields,
    present: Fields,
    want_name: Seq<char>,
    range: RangeView,
    n: nat,
)
    ensures
        nests(s, missing_reports(s, expected, present, want_name, range, n)),
    decreases n,
{
    broadcast use group_steps;

    if n > 0 && n <= expected.len() {
        reporting_missing(s, expected, present, want_name, range, (n - 1) as nat);
    }
}

// ---------- expressions ----------

proof fn inferring(s: State, c: Catalog, e: Expr)
    ensures
        nests(s, inferred(s, c, e).0),
    decreases e, 2nat, 0nat,
{
    broadcast use group_steps;

    inferring_inner(s, c, e);
}

proof fn calling_named(s: State, c: Catalog, name: Seq<char>, args: Seq<CallArg>, range: RangeView)
    ensures
        nests(s, declared_call(s, name, args, range).0),
{
    broadcast use group_steps;

    if let Some(sym) = s.lookup(name) {
        let s1 = declared_above(s, sym, name, range);
        assert(nests(s, s1));
        assert(nests(s1, arity(s1, sym, name, args, range)));
    }
}

proof fn calling_namespace(s: State, ns: Seq<char>, field: Seq<char>, range: RangeView)
    ensures
        nests(s, namespace_call(s, ns, field, range).0),
{
    broadcast use group_steps;

    if s.namespaces.contains_key(ns) && s.namespaces[ns].contains_key(field) {
        if let Some(ret) = s.namespaces[ns][field].return_type {
            resolving(s, ret);
        }
    }
}

proof fn calling(s: State, c: Catalog, callee: Expr, args: Seq<CallArg>, e: Expr)
    requires
        e matches Expr::Call { callee: k, args: v, .. } && *k == callee && v@ == args,
    ensures
        nests(s, inferred_inner(s, c, e).0),
    decreases e, 0nat, 0nat,
{
    broadcast use group_steps;

    let n = args.len();
    assert(decreases_to!(e => args));
    inferring_args(s, c, args, n);
    let s1 = call_args(s, c, args, n);
    match callee {
        Expr::Ident { name, range } => match c.call(name@) {
            Some(spec_) => {
                let s2 = exec_call(s1, spec_, name@, args, range@);
                assert(nests(s1, s2));
                inferring_bound(s2, c, args, n);
                let (s3, bound) = if name@ == "Random"@ {
                    random_bound(s2, c, args, n)
                } else {
                    (s2, None)
                };
                assert(nests(s2, s3));
                if bound is None {
                    let s4 = counted(s3, spec_, positional_count(args, n), range@);
                    assert(nests(s3, s4));
                    holding_args(s4, c, spec_, args, 0, n);
                }
            },
            None => {
                calling_named(s1, c, name@, args, range@);
            },
        },
        Expr::FieldAccess { obj, field, range } => {
            if names_namespace(s1, *obj) {
                calling_namespace(s1, (*obj)->Ident_name@, field@, range@);
            } else if array_behind(s1, *obj) is Some && c.method(field@) is Some {
            } else {
                assert(nests(s1, dangling(s1, c, *obj, field@)));
                if let Some(spec_) = c.call(field@) {
                    if spec_.receiver is Some {
                        let s2 = counted(s1, spec_, 1 + positional_count(args, n), range@);
                        assert(nests(s1, s2));
                        let s3 = if spec_.params@.len() > 0 {
                            inferring(s2, c, *obj);
                            let (s4, t) = inferred(s2, c, *obj);
                            assert(nests(
                                s4,
                                argument(s4, c, spec_.params@[0], t, obj.rng()@),
                            ));
                            argument(s4, c, spec_.params@[0], t, obj.rng()@)
                        } else {
                            s2
                        };
                        assert(nests(s2, s3));
                        holding_args(s3, c, spec_, args, 1, n);
                    }
                }
            }
        },
        _ => {},
    }
}

proof fn inferring_inner(s: State, c: Catalog, e: Expr)
    ensures
        nests(s, inferred_inner(s, c, e).0),
    decreases e, 1nat, 0nat,
{
    broadcast use group_steps;

    match e {
        Expr::Array { elements, .. } => {
            inferring_elems(s, c, elements@, elements@.len());
        },
        Expr::InterpLit { parts, .. } => {
            inferring_parts(s, c, parts@, parts@.len());
        },
        Expr::Deref { operand, range } => {
            let s1 = if s.is_exec() {
                s
            } else {
                s.error(
                    "WS006"@,
                    "'*"@ + crate::typecheck::rules::shown_target(*operand)
                        + "' deref requires exec context — use .Value for pure reads"@,
                    range@,
                )
            };
            assert(nests(s, s1));
            inferring(s1, c, *operand);
        },
        Expr::RefOf { operand, .. } => {
            inferring(s, c, *operand);
        },
        Expr::UnOp { operand, .. } => {
            inferring(s, c, *operand);
        },
        Expr::BinOp { left, right, .. } => {
            inferring(s, c, *left);
            inferring(inferred(s, c, *left).0, c, *right);
        },
        Expr::FieldAccess { obj, .. } => {
            inferring(s, c, *obj);
        },
        Expr::IndexAccess { obj, index, .. } => {
            inferring(s, c, *obj);
            inferring(inferred(s, c, *obj).0, c, *index);
        },
        Expr::TuplePick { obj, .. } => {
            inferring(s, c, *obj);
        },
        Expr::Call { callee, args, .. } => {
            calling(s, c, *callee, args@, e);
        },
        Expr::IfExpr { cond, then_branch, else_branch, range } => {
            let s0 = s.note_if(range@, false);
            inferring(s0, c, *cond);
            let s1 = inferred(s0, c, *cond).0;
            inferring(s1, c, *then_branch);
            let s2 = inferred(s1, c, *then_branch).0;
            inferring(s2, c, *else_branch);
        },
        Expr::BlockExpr { stmts, value, .. } => {
            let p = s.push_scope();
            checking_stmts(p, c, stmts@, stmts@.len());
            let s1 = checked_stmts(p, c, stmts@, stmts@.len());
            inferring(s1, c, *value);
            assert(nests(p, inferred(s1, c, *value).0));
        },
        Expr::MatchExpr { scrutinee, arms, .. } => {
            inferring(s, c, *scrutinee);
            inferring_arms(inferred(s, c, *scrutinee).0, c, arms@, arms@.len());
        },
        Expr::RecordLit { fields, .. } => {
            inferring_record(s, c, fields@, fields@.len());
        },
        _ => {},
    }
}

proof fn inferring_elems(s: State, c: Catalog, elements: Seq<ArrayElem>, n: nat)
    ensures
        nests(s, array_elems(s, c, elements, n).0),
    decreases elements, 0nat, n,
{
    broadcast use group_steps;

    if n > 0 && n <= elements.len() {
        inferring_elems(s, c, elements, (n - 1) as nat);
        let s1 = array_elems(s, c, elements, (n - 1) as nat).0;
        match elements[n - 1] {
            ArrayElem::Item(e) => inferring(s1, c, e),
            ArrayElem::Spread(e) => inferring(s1, c, e),
        }
    }
}

proof fn inferring_parts(s: State, c: Catalog, parts: Seq<InterpPart>, n: nat)
    ensures
        nests(s, interp_parts(s, c, parts, n)),
    decreases parts, 0nat, n,
{
    broadcast use group_steps;

    if n > 0 && n <= parts.len() {
        inferring_parts(s, c, parts, (n - 1) as nat);
        let s1 = interp_parts(s, c, parts, (n - 1) as nat);
        if let InterpPart::Expr(e) = parts[n - 1] {
            inferring(s1, c, *e);
        }
    }
}

proof fn inferring_args(s: State, c: Catalog, args: Seq<CallArg>, n: nat)
    ensures
        nests(s, call_args(s, c, args, n)),
    decreases args, 0nat, n,
{
    broadcast use group_steps;

    if n > 0 && n <= args.len() {
        inferring_args(s, c, args, (n - 1) as nat);
        let s1 = call_args(s, c, args, (n - 1) as nat);
        match args[n - 1] {
            CallArg::Positional(e) => inferring(s1, c, e),
            CallArg::Named { value, .. } => inferring(s1, c, value),
            CallArg::Spread(e) => inferring(s1, c, e),
        }
    }
}

proof fn inferring_bound(s: State, c: Catalog, args: Seq<CallArg>, n: nat)
    ensures
        nests(s, random_bound(s, c, args, n).0),
    decreases args, 0nat, n,
{
    broadcast use group_steps;

    if n > 0 && n <= args.len() {
        inferring_bound(s, c, args, (n - 1) as nat);
        let s1 = random_bound(s, c, args, (n - 1) as nat).0;
        if let CallArg::Positional(e) = args[n - 1] {
            inferring(s1, c, e);
        }
    }
}

proof fn holding_args(
    s: State,
    c: Catalog,
    spec_: CallSpec,
    args: Seq<CallArg>,
    offset: nat,
    n: nat,
)
    ensures
        nests(s, positional_args(s, c, spec_, args, offset, n)),
    decreases args, 0nat, n,
{
    broadcast use group_steps;

    if n > 0 && n <= args.len() {
        holding_args(s, c, spec_, args, offset, (n - 1) as nat);
        let s1 = positional_args(s, c, spec_, args, offset, (n - 1) as nat);
        if let CallArg::Positional(e) = args[n - 1] {
            inferring(s1, c, e);
        }
    }
}

proof fn inferring_arms(s: State, c: Catalog, arms: Seq<MatchArm>, n: nat)
    ensures
        nests(s, match_arms(s, c, arms, n).0),
    decreases arms, 0nat, n,
{
    broadcast use group_steps;

    if n > 0 && n <= arms.len() {
        inferring_arms(s, c, arms, (n - 1) as nat);
        let s1 = match_arms(s, c, arms, (n - 1) as nat).0;
        if let MatchBody::Expr(e) = arms[n - 1].body {
            inferring(s1, c, e);
        }
    }
}

proof fn inferring_record(s: State, c: Catalog, fields: Seq<RecordLitField>, n: nat)
    ensures
        nests(s, record_fields(s, c, fields, n).0),
    decreases fields, 0nat, n,
{
    broadcast use group_steps;

    if n > 0 && n <= fields.len() {
        inferring_record(s, c, fields, (n - 1) as nat);
        let s1 = record_fields(s, c, fields, (n - 1) as nat).0;
        match fields[n - 1] {
            RecordLitField::Named { value, .. } => inferring(s1, c, value),
            RecordLitField::Shorthand { .. } => {},
            RecordLitField::Spread { value, .. } => inferring(s1, c, value),
        }
    }
}

proof fn targeting(s: State, c: Catalog, e: Expr)
    ensures
        nests(s, target_type(s, c, e).0),
    decreases e, 1nat, 0nat,
{
    broadcast use group_steps;

    if let Expr::IndexAccess { obj, index, .. } = e {
        targeting(s, c, *obj);
        inferring(target_type(s, c, *obj).0, c, *index);
    }
}

// ---------- statements ----------

proof fn checking_stmts(s: State, c: Catalog, stmts: Seq<Stmt>, n: nat)
    ensures
        nests(s, checked_stmts(s, c, stmts, n)),
    decreases stmts, 0nat, n,
{
    broadcast use group_steps;

    if n > 0 && n <= stmts.len() {
        checking_stmts(s, c, stmts, (n - 1) as nat);
        checking_stmt(checked_stmts(s, c, stmts, (n - 1) as nat), c, stmts[n - 1]);
    }
}

proof fn checking_block(s: State, c: Catalog, b: Block)
    ensures
        nests(s, checked_block(s, c, b)),
    decreases b, 1nat, 0nat,
{
    broadcast use group_steps;

    checking_stmts(s.push_scope(), c, b.stmts@, b.stmts@.len());
}

proof fn checking_anon(s: State, c: Catalog, stmts: Seq<Stmt>, n: nat)
    ensures
        goes_on(s, checked_anon(s, c, stmts, n)),
        owns_stmts(s, stmts) ==> nests(s, checked_anon(s, c, stmts, n)),
    decreases stmts, 0nat, n,
{
    broadcast use group_steps;

    if n > 0 && n <= stmts.len() {
        checking_anon(s, c, stmts, (n - 1) as nat);
        let s1 = checked_anon(s, c, stmts, (n - 1) as nat);
        if owns_stmts(s, stmts) {
            owning_stmt(s, s1, stmts[n - 1]);
        }
        match stmts[n - 1] {
            Stmt::Var(v) => checking_var(s1, c, v),
            Stmt::Buffer(b) => checking_buffer(s1, c, b),
            Stmt::Array(a) => checking_array(s1, c, a),
            Stmt::In(_) => {},
            other => checking_stmt(s1, c, other),
        }
    }
}

proof fn initializing(
    s: State,
    c: Catalog,
    v: VarDecl,
    inner: TypeView,
    t: TypeView,
    range: RangeView,
)
    ensures
        goes_on(s, initialized(s, c, v, inner, t, range)),
        own(s, v.name@) ==> nests(s, initialized(s, c, v, inner, t, range)),
{
    broadcast use group_steps;

    let s1 = coerced(s, c, t, inner, range);
    assert(nests(s, s1));
    if own(s, v.name@) {
        keeps_own(s, s1, v.name@);
    }
}

proof fn checking_assign(s: State, c: Catalog, a: Assign)
    ensures
        nests(s, checked_assign(s, c, a)),
    decreases a, 1nat, 0nat,
{
    broadcast use group_steps;

    let s1 = if s.is_exec() {
        s
    } else {
        s.error(
            "WS007"@,
            "var write '"@ + crate::typecheck::rules::shown_target(a.target)
                + "' outside an exec context"@,
            a.range@,
        )
    };
    assert(nests(s, s1));
    targeting(s1, c, a.target);
    let s2 = target_type(s1, c, a.target).0;
    inferring(s2, c, a.value);
}

proof fn checking_if(s: State, c: Catalog, i: If)
    ensures
        nests(s, checked_if(s, c, i)),
    decreases i, 1nat, 0nat,
{
    broadcast use group_steps;

    let s1 = if s.is_exec() {
        s
    } else {
        s.error("WS007"@, "'if' statement outside an exec context"@, i.range@)
    };
    assert(nests(s, s1));
    let s0 = s1.note_if(i.range@, s1.is_exec());
    inferring(s0, c, i.cond);
    let s2 = inferred(s0, c, i.cond).0;
    checking_block(s2, c, i.then_block);
    let s3 = checked_block(s2, c, i.then_block);
    if let Some(b) = i.else_block {
        checking_block(s3, c, b);
    }
}

proof fn checking_await(s: State, c: Catalog, a: AwaitStmt)
    ensures
        nests(s, checked_await(s, c, a)),
    decreases a, 1nat, 0nat,
{
    broadcast use group_steps;

    let s1 = if s.is_exec() {
        s
    } else {
        s.error("WS007"@, "await outside an exec context"@, a.range@)
    };
    assert(nests(s, s1));
    let p = s1.push_scope();
    let armed = p.declare("_"@, let_symbol("_"@, TypeView::Bool, a.range@));
    assert(nests(p, armed));
    inferring(armed, c, a.exec_expr);
    let (s2, exec_ty) = inferred(armed, c, a.exec_expr);
    assert(nests(p, s2));
    let s3 = s2.pop_scope();
    assert(nests(s1, s3));
    let (s4, val_ty) = match a.value_expr {
        Some(e) => {
            inferring(s3, c, e);
            inferred(s3, c, e)
        },
        None => (s3, exec_ty),
    };
    assert(nests(s3, s4));
    let s5 = match a.binding {
        Some(name) => s4.declare(name@, let_symbol(name@, val_ty, a.range@)),
        None => s4,
    };
    assert(nests(s4, s5));
    if let Some(fields) = a.destructure {
        binding_awaited(s5, fields@, payload_of(s5, a.exec_expr), a.range@, fields@.len());
    }
}

proof fn checking_emit(s: State, c: Catalog, e: Emit)
    ensures
        nests(s, checked_emit(s, c, e)),
    decreases e, 1nat, 0nat,
{
    broadcast use group_steps;

    if let Some(value) = e.value {
        inferring(s, c, value);
    }
}

proof fn inside_handler(s: State, c: Catalog, h: Handler)
    ensures
        ({
            let s1 = bound_trigger(s.push_scope(), c, h);
            nests(
                s.push_scope(),
                checked_block(s1.push_mode(ExecMode::Exec), c, h.body).pop_mode(),
            )
        }),
    decreases h, 1nat, 0nat,
{
    broadcast use group_steps;

    let p = s.push_scope();
    binding_trigger(p, c, h);
    let s1 = bound_trigger(p, c, h);
    let m = s1.push_mode(ExecMode::Exec);
    checking_block(m, c, h.body);
    assert(nests(s1, checked_block(m, c, h.body).pop_mode()));
}

proof fn checking_handler(s: State, c: Catalog, h: Handler)
    ensures
        nests(s, checked_handler(s, c, h)),
    decreases h, 2nat, 0nat,
{
    broadcast use group_steps;

    inside_handler(s, c, h);
}

proof fn checking_stmt(s: State, c: Catalog, st: Stmt)
    ensures
        nests(s, checked_stmt(s, c, st)),
    decreases st, 1nat, 0nat,
{
    broadcast use group_steps;

    match st {
        Stmt::Var(v) => {
            registering_var(s, v);
            let s1 = registered_var(s, v);
            if let Some(init) = v.init {
                let inner = var_inner(s1, v.name@);
                inferring(s1, c, init);
                let (s2, t) = inferred(s1, c, init);
                keeps_own(s1, s2, v.name@);
                initializing(s2, c, v, inner, t, init.rng()@);
            }
        },
        Stmt::Buffer(b) => {
            registering_buffer(s, b);
            checking_buffer(registered_buffer(s, b), c, b);
        },
        Stmt::Array(a) => {
            registering_array(s, a);
            checking_array(registered_array(s, a), c, a);
        },
        Stmt::Let(l) => {
            inferring(s, c, l.value);
            let (s1, t) = inferred(s, c, l.value);
            annotating(s1, c, l, t);
            binding_let(annotated(s1, c, l, t), l.binding, t);
        },
        Stmt::Assign(a) => checking_assign(s, c, a),
        Stmt::OutBinding(b) => {
            if let Some(value) = b.value {
                inferring(s, c, value);
            }
        },
        Stmt::Emit(e) => checking_emit(s, c, e),
        Stmt::Await(a) => checking_await(s, c, a),
        Stmt::If(i) => checking_if(s, c, i),
        Stmt::ExprStmt(es) => inferring(s, c, es.expr),
        Stmt::In(d) => registering_in(s, d),
        Stmt::Handler(h) => checking_handler(s, c, h),
        Stmt::AnonChip(ac) => {
            let n = ac.body.stmts@.len();
            registering_stmts(s, ac.body.stmts@, n);
            checking_anon(registered_stmts(s, ac.body.stmts@, n), c, ac.body.stmts@, n);
        },
        Stmt::ChipDecl(ch) => {
            registering_chip(s, ch);
            checking_chip(registered_chip(s, ch), c, ch);
        },
        Stmt::Callback(cb) => {
            registering_callback(s, cb);
            checking_callback(registered_callback(s, cb), c, cb);
        },
        Stmt::Return { value, range } => {
            let s1 = if !s.is_exec() && value is None {
                s.error("WS007"@, "'return' (without value) outside an exec context"@, range@)
            } else {
                s
            };
            assert(nests(s, s1));
            if let Some(e) = value {
                inferring(s1, c, e);
            }
        },
    }
}

proof fn reporting_extras(
    s: State,
    c: Catalog,
    fields: Seq<RecordLitField>,
    expected: Fields,
    want_name: Seq<char>,
    n: nat,
)
    ensures
        nests(s, extra_reports(s, c, fields, expected, want_name, n)),
    decreases fields, 0nat, n,
{
    broadcast use group_steps;

    if n > 0 && n <= fields.len() {
        reporting_extras(s, c, fields, expected, want_name, (n - 1) as nat);
        let s1 = extra_reports(s, c, fields, expected, want_name, (n - 1) as nat);
        if let RecordLitField::Spread { value, .. } = fields[n - 1] {
            inferring(s1, c, value);
        }
    }
}

proof fn annotating(s: State, c: Catalog, l: LetDecl, t: TypeView)
    ensures
        nests(s, annotated(s, c, l, t)),
    decreases l, 1nat, 0nat,
{
    broadcast use group_steps;

    if let Some(te) = l.typ {
        resolving(s, te@);
        let (s1, expected) = resolved(s, te@);
        if let Expr::RecordLit { fields, .. } = l.value {
            if let TypeView::Record(want) = expected {
                let name = type_expr_text(te@);
                reporting_extras(s1, c, fields@, want, name, fields@.len());
                let s2 = extra_reports(s1, c, fields@, want, name, fields@.len());
                if let TypeView::Record(have) = t {
                    reporting_missing(s2, want, have, name, l.value.rng()@, want.len());
                }
            }
        }
    }
}

// ---------- declarations ----------

proof fn baking(s: State, c: Catalog, elements: Seq<ArrayElem>, elem_ty: TypeView, n: nat)
    ensures
        nests(s, baked_elements(s, c, elements, elem_ty, n)),
    decreases elements, 0nat, n,
{
    broadcast use group_steps;

    if n > 0 && n <= elements.len() {
        baking(s, c, elements, elem_ty, (n - 1) as nat);
        let s0 = baked_elements(s, c, elements, elem_ty, (n - 1) as nat);
        let s1 = s0.push_mode(ExecMode::Pure);
        let (s2, t) = match elements[n - 1] {
            ArrayElem::Item(e) => {
                inferring(s1, c, e);
                inferred(s1, c, e)
            },
            ArrayElem::Spread(e) => {
                inferring(s1, c, e);
                inferred(s1, c, e)
            },
        };
        assert(nests(s0, s2.pop_mode()));
        assert(nests(
            s2.pop_mode(),
            baked_element(s2.pop_mode(), c, elements[n - 1], elem_ty, t),
        ));
    }
}

proof fn checking_var(s: State, c: Catalog, v: VarDecl)
    ensures
        goes_on(s, checked_var(s, c, v)),
        own(s, v.name@) ==> nests(s, checked_var(s, c, v)),
    decreases v, 1nat, 0nat,
{
    broadcast use group_steps;

    if let Some(init) = v.init {
        let inner = var_inner(s, v.name@);
        let p = s.push_mode(ExecMode::Pure);
        inferring(p, c, init);
        let (s1, t) = inferred(p, c, init);
        if let Expr::Array { elements, .. } = init {
            assert(nests(s, s1.pop_mode()));
            baking(s1.pop_mode(), c, elements@, elem_of(inner), elements@.len());
        } else {
            if own(s, v.name@) {
                keeps_own(p, s1, v.name@);
            }
            let s2 = initialized(s1, c, v, inner, t, init.rng()@);
            initializing(s1, c, v, inner, t, init.rng()@);
            goes_further(p, s1, s2);
            goes_back(s, ExecMode::Pure, s2);
        }
    }
}

proof fn checking_buffer(s: State, c: Catalog, b: BufferDecl)
    ensures
        goes_on(s, checked_buffer(s, c, b)),
        own(s, b.name@) ==> nests(s, checked_buffer(s, c, b)),
    decreases b, 1nat, 0nat,
{
    broadcast use group_steps;

    let p = s.push_mode(ExecMode::Pure);
    inferring(p, c, b.init);
    let (s1, t) = inferred(p, c, b.init);
    assert(goes_on(p, s1.set_type(b.name@, crate::types::unref(t))));
    if own(s, b.name@) {
        keeps_own(p, s1, b.name@);
        assert(nests(p, s1.set_type(b.name@, crate::types::unref(t))));
    }
}

proof fn checking_array(s: State, c: Catalog, a: ArrayDecl)
    ensures
        nests(s, checked_array(s, c, a)),
    decreases a, 1nat, 0nat,
{
    broadcast use group_steps;

    if a.init@.len() > 0 {
        resolving(s, a.element_type@);
        let (s1, inner) = resolved(s, a.element_type@);
        baking(s1, c, a.init@, inner, a.init@.len());
    }
}

proof fn checking_out(s: State, c: Catalog, b: OutBinding)
    ensures
        nests(s, checked_out(s, c, b)),
    decreases b, 1nat, 0nat,
{
    broadcast use group_steps;

    if let Some(value) = b.value {
        let p = s.push_mode(ExecMode::Pure);
        inferring(p, c, value);
        let s1 = inferred(p, c, value).0.pop_mode();
        assert(nests(s, s1));
        if let Some(te) = b.typ {
            resolving(s1, te@);
        }
        assert(nests(s1, out_annotated(s1, b, value)));
    }
}

proof fn inside_fn(s: State, c: Catalog, f: FnDecl)
    ensures
        ({
            let s1 = bound_fn_params(s.push_scope(), f.params@, f.params@.len());
            nests(
                s.push_scope(),
                inferred(s1.push_mode(ExecMode::Pure), c, f.body).0.pop_mode(),
            )
        }),
    decreases f, 1nat, 0nat,
{
    broadcast use group_steps;

    let p = s.push_scope();
    binding_fn_params(p, f.params@, f.params@.len());
    let s1 = bound_fn_params(p, f.params@, f.params@.len());
    let m = s1.push_mode(ExecMode::Pure);
    inferring(m, c, f.body);
    assert(nests(s1, inferred(m, c, f.body).0.pop_mode()));
}

proof fn checking_fn(s: State, c: Catalog, f: FnDecl)
    ensures
        nests(s, checked_fn(s, c, f)),
    decreases f, 2nat, 0nat,
{
    broadcast use group_steps;

    inside_fn(s, c, f);
}

proof fn inside_chip(s: State, c: Catalog, ch: ChipDecl)
    ensures
        ({
            let s1 = bound_params(s.push_scope(), ch.inputs@, ch.inputs@.len());
            let s2 = checked_block(s1.push_mode(ExecMode::Exec), c, ch.body).pop_mode();
            nests(s.push_scope(), outputs_checked(s2, ch))
        }),
    decreases ch, 1nat, 0nat,
{
    broadcast use group_steps;

    let p = s.push_scope();
    binding_params(p, ch.inputs@, ch.inputs@.len());
    let s1 = bound_params(p, ch.inputs@, ch.inputs@.len());
    let m = s1.push_mode(ExecMode::Exec);
    checking_block(m, c, ch.body);
    let s2 = checked_block(m, c, ch.body).pop_mode();
    assert(nests(s1, s2));
    checking_outputs(s2, ch);
}

proof fn checking_chip(s: State, c: Catalog, ch: ChipDecl)
    ensures
        nests(s, checked_chip(s, c, ch)),
    decreases ch, 2nat, 0nat,
{
    broadcast use group_steps;

    inside_chip(s, c, ch);
}

proof fn inside_callback(s: State, c: Catalog, cb: Callback)
    ensures
        ({
            let s1 = bound_params(s.push_scope(), cb.inputs@, cb.inputs@.len());
            nests(
                s.push_scope(),
                checked_block(s1.push_mode(ExecMode::Exec), c, cb.body).pop_mode(),
            )
        }),
    decreases cb, 1nat, 0nat,
{
    broadcast use group_steps;

    let p = s.push_scope();
    binding_params(p, cb.inputs@, cb.inputs@.len());
    let s1 = bound_params(p, cb.inputs@, cb.inputs@.len());
    let m = s1.push_mode(ExecMode::Exec);
    checking_block(m, c, cb.body);
    assert(nests(s1, checked_block(m, c, cb.body).pop_mode()));
}

proof fn checking_callback(s: State, c: Catalog, cb: Callback)
    ensures
        nests(s, checked_callback(s, c, cb)),
    decreases cb, 2nat, 0nat,
{
    broadcast use group_steps;

    inside_callback(s, c, cb);
}

proof fn checking_event(s: State, c: Catalog, e: EventDecl)
    ensures
        nests(s, checked_event(s, c, e)),
    decreases e, 1nat, 0nat,
{
    broadcast use group_steps;

    match e.captured_body {
        Some(body) => {
            checking_block(s.push_mode(ExecMode::Exec), c, body);
        },
        None => {
            inferring(s.push_mode(ExecMode::Pure), c, e.source);
        },
    }
}

proof fn checking_values(s: State, c: Catalog, decls: Seq<TopDecl>, n: nat)
    requires
        forall|i: int|
            0 <= i < decls.len() && !(decls[i] is AnonChip) ==> owns_decl(s, #[trigger] decls[i]),
    ensures
        nests(s, checked_values(s, c, decls, n)),
    decreases decls, 0nat, n,
{
    broadcast use group_steps;

    if n > 0 && n <= decls.len() {
        checking_values(s, c, decls, (n - 1) as nat);
        let s1 = checked_values(s, c, decls, (n - 1) as nat);
        match decls[n - 1] {
            TopDecl::Var(v) => keeps_own(s, s1, v.name@),
            TopDecl::Buffer(b) => keeps_own(s, s1, b.name@),
            _ => {},
        }
        checking_decl(s1, c, decls[n - 1]);
    }
}

proof fn checking_bodies(s: State, c: Catalog, decls: Seq<TopDecl>, n: nat)
    ensures
        nests(s, checked_bodies(s, c, decls, n)),
    decreases decls, 0nat, n,
{
    broadcast use group_steps;

    if n > 0 && n <= decls.len() {
        checking_bodies(s, c, decls, (n - 1) as nat);
        checking_decl(checked_bodies(s, c, decls, (n - 1) as nat), c, decls[n - 1]);
    }
}

proof fn checking_namespace(s: State, c: Catalog, decls: Seq<TopDecl>)
    ensures
        ({
            let n = decls.len();
            let s1 = registered_all(s.push_scope(), decls, n);
            let t = checked_bodies(checked_values(s1, c, decls, n), c, decls, n);
            nests(s.push_scope(), t)
        }),
    decreases decls, 1nat, 0nat,
{
    broadcast use group_steps;

    let n = decls.len();
    let p = s.push_scope();
    registering_all(p, decls, n);
    let s1 = registered_all(p, decls, n);
    assert forall|i: int| 0 <= i < decls.len() && !(decls[i] is AnonChip) implies owns_decl(
        s1,
        #[trigger] decls[i],
    ) by {
        if registered_name(decls[i]) is Some {
            registering_all_declares(p, decls, n, i);
        }
    }
    checking_values(s1, c, decls, n);
    checking_bodies(checked_values(s1, c, decls, n), c, decls, n);
}

proof fn checking_decl(s: State, c: Catalog, d: TopDecl)
    ensures
        goes_on(s, checked_decl(s, c, d)),
        owns_decl(s, d) ==> nests(s, checked_decl(s, c, d)),
    decreases d, 1nat, 0nat,
{
    broadcast use group_steps;

    match d {
        TopDecl::Var(v) => checking_var(s, c, v),
        TopDecl::Buffer(b) => checking_buffer(s, c, b),
        TopDecl::Array(a) => checking_array(s, c, a),
        TopDecl::Out(b) => checking_out(s, c, b),
        TopDecl::Let(l) => {
            let p = s.push_mode(ExecMode::Pure);
            inferring(p, c, l.value);
            let (s1, t) = inferred(p, c, l.value);
            assert(nests(s, s1.pop_mode()));
            annotating(s1.pop_mode(), c, l, t);
            binding_let(annotated(s1.pop_mode(), c, l, t), l.binding, t);
        },
        TopDecl::Fn(f) => checking_fn(s, c, f),
        TopDecl::Chip(ch) => checking_chip(s, c, ch),
        TopDecl::Callback(cb) => checking_callback(s, c, cb),
        TopDecl::AnonChip(ac) => checking_anon(s, c, ac.body.stmts@, ac.body.stmts@.len()),
        TopDecl::Event(e) => checking_event(s, c, e),
        TopDecl::Handler(h) => checking_handler(s, c, h),
        TopDecl::ExprStmt(es) => inferring(s.push_mode(ExecMode::Pure), c, es.expr),
        TopDecl::Assign(a) => checking_assign(s, c, a),
        TopDecl::If(i) => {
            let s1 = if s.is_exec() {
                s
            } else {
                s.error("WS007"@, "top-level 'if' outside an exec context"@, i.range@)
            };
            assert(nests(s, s1));
            checking_if(s1, c, i);
        },
        TopDecl::Namespace(ns) => checking_namespace(s, c, ns.decls@),
        _ => {},
    }
}

/// Checking a declaration keeps what was known, and leaves the number of scopes
/// and the modes as they were.
pub proof fn checking_goes_on(s: State, c: Catalog, d: TopDecl)
    ensures
        goes_on(s, checked_decl(s, c, d)),
{
    checking_decl(s, c, d);
}

/// Whether a declaration has a body with names of its own.
pub open spec fn has_body(d: TopDecl) -> bool {
    d is Fn || d is Chip || d is Callback || d is Handler || d is Namespace
}

/// No name leaks out of a body: after a function, chip, callback, handler or
/// namespace is checked, every name is known as it was before, and the mode is
/// the one before, as it is after any declaration.
pub proof fn bodies_keep_their_names(ctx: TypeCheckCtx, c: Catalog, d: TopDecl, name: Seq<char>)
    ensures
        checked_decl(ctx@, c, d).mode() == ctx@.mode(),
        has_body(d) ==> checked_decl(ctx@, c, d).lookup(name) == ctx@.lookup(name),
        has_body(d) ==> checked_decl(ctx@, c, d).scopes == ctx@.scopes,
{
    broadcast use group_steps;

    let s = ctx@;
    let p = s.push_scope();
    ctx.scope.never_empty();
    checking_decl(s, c, d);
    assert(checked_decl(s, c, d).modes == s.modes) by {
        reveal(goes_on);
    }
    match d {
        TopDecl::Fn(f) => {
            inside_fn(s, c, f);
            let s1 = bound_fn_params(p, f.params@, f.params@.len());
            closing_restores(s, inferred(s1.push_mode(ExecMode::Pure), c, f.body).0.pop_mode());
        },
        TopDecl::Chip(ch) => {
            inside_chip(s, c, ch);
            let s1 = bound_params(p, ch.inputs@, ch.inputs@.len());
            let s2 = checked_block(s1.push_mode(ExecMode::Exec), c, ch.body).pop_mode();
            closing_restores(s, outputs_checked(s2, ch));
        },
        TopDecl::Callback(cb) => {
            inside_callback(s, c, cb);
            let s1 = bound_params(p, cb.inputs@, cb.inputs@.len());
            closing_restores(s, checked_block(s1.push_mode(ExecMode::Exec), c, cb.body).pop_mode());
        },
        TopDecl::Handler(h) => {
            inside_handler(s, c, h);
            let s1 = bound_trigger(p, c, h);
            closing_restores(s, checked_block(s1.push_mode(ExecMode::Exec), c, h.body).pop_mode());
        },
        TopDecl::Namespace(ns) => {
            let n = ns.decls@.len();
            checking_namespace(s, c, ns.decls@);
            let s1 = registered_all(p, ns.decls@, n);
            closing_restores(
                s,
                checked_bodies(checked_values(s1, c, ns.decls@, n), c, ns.decls@, n),
            );
        },
        _ => {},
    }
}

/// A check stays with its file, whatever is registered, checked or inferred.
pub proof fn the_file_stays(ctx: TypeCheckCtx, c: Catalog, d: TopDecl, st: Stmt, e: Expr)
    ensures
        registered(ctx@, d).file == ctx@.file,
        checked_decl(ctx@, c, d).file == ctx@.file,
        checked_stmt(ctx@, c, st).file == ctx@.file,
        inferred(ctx@, c, e).0.file == ctx@.file,
{
    broadcast use group_steps;

    ctx.scope.never_empty();
    registering(ctx@, d);
    checking_decl(ctx@, c, d);
    checking_stmt(ctx@, c, st);
    inferring(ctx@, c, e);
    assert(goes_on(ctx@, registered(ctx@, d)));
    assert(goes_on(ctx@, checked_stmt(ctx@, c, st)));
    assert(goes_on(ctx@, inferred(ctx@, c, e).0));
    reveal(goes_on);
}

proof fn wrapping(s: State, c: Catalog, decls: Seq<TopDecl>, i: int)
    ensures
        goes_on(s, wrapped_decl(s, c, decls, i)),
{
    broadcast use group_steps;

    checking_goes_on(s.push_mode(ExecMode::Exec), c, decls[i]);
    checking_goes_on(s, c, decls[i]);
}

proof fn passing_main(s: State, c: Catalog, decls: Seq<TopDecl>, n: nat)
    ensures
        goes_on(s, main_pass(s, c, decls, n)),
    decreases n,
{
    broadcast use group_steps;

    if n > 0 && n <= decls.len() {
        passing_main(s, c, decls, (n - 1) as nat);
        wrapping(main_pass(s, c, decls, (n - 1) as nat), c, decls, n - 1);
    }
}

proof fn passing_chips(s: State, c: Catalog, decls: Seq<TopDecl>, n: nat)
    ensures
        goes_on(s, chip_pass(s, c, decls, n)),
    decreases n,
{
    broadcast use group_steps;

    if n > 0 && n <= decls.len() {
        passing_chips(s, c, decls, (n - 1) as nat);
        wrapping(chip_pass(s, c, decls, (n - 1) as nat), c, decls, n - 1);
    }
}

/// A check ends where it began: in its file, in the one outermost scope, in pure
/// mode.
pub proof fn script_ends_at_the_top(c: Catalog, script: Script, file: Seq<char>)
    ensures
        checked_script(c, script, file).file == file,
        checked_script(c, script, file).scopes.len() == 1,
        checked_script(c, script, file).modes == seq![ExecMode::Pure],
{
    broadcast use group_steps;

    let decls = script.decls@;
    let n = decls.len();
    let s0 = State::initial(file);
    announcing(s0, c.events@, c.events@.len());
    let s1 = builtin_events(s0, c.events@, c.events@.len());
    registering_all(s1, decls, n);
    let s2 = registered_all(s1, decls, n);
    passing_main(s2, c, decls, n);
    passing_chips(main_pass(s2, c, decls, n), c, decls, n);
    assert(goes_on(s0, checked_script(c, script, file)));
    reveal(goes_on);
}

/// What is reported when declarations are registered stays reported: the
/// diagnostics of a whole check begin with those.
pub proof fn first_reports_stay(c: Catalog, script: Script, file: Seq<char>)
    ensures
        ({
            let s1 = builtin_events(State::initial(file), c.events@, c.events@.len());
            let first = registered_all(s1, script.decls@, script.decls@.len()).diags;
            let all = checked_script(c, script, file).diags;
            first.len() <= all.len() && all.take(first.len() as int) == first
        }),
{
    broadcast use group_steps;

    let decls = script.decls@;
    let n = decls.len();
    let s0 = State::initial(file);
    announcing(s0, c.events@, c.events@.len());
    let s1 = builtin_events(s0, c.events@, c.events@.len());
    registering_all(s1, decls, n);
    let s2 = registered_all(s1, decls, n);
    passing_main(s2, c, decls, n);
    passing_chips(main_pass(s2, c, decls, n), c, decls, n);
    assert(goes_on(s0, s2));
    assert(goes_on(s2, checked_script(c, script, file)));
    reveal(goes_on);
    assert(checked_script(c, script, file).diags.take(s2.diags.len() as int) =~= s2.diags);
}

/// The name that a declaration adds to the scope when it is registered.
pub open spec fn registered_name(d: TopDecl) -> Option<Seq<char>> {
    match d {
        TopDecl::Var(v) => Some(v.name@),
        TopDecl::Array(a) => Some(a.name@),
        TopDecl::Buffer(b) => Some(b.name@),
        TopDecl::In(i) => Some(i.name@),
        TopDecl::Fn(f) => Some(f.name@),
        TopDecl::Chip(ch) => Some(ch.name@),
        TopDecl::Callback(cb) => Some(cb.name@),
        TopDecl::Event(e) => Some(e.name@),
        TopDecl::TypeAlias(t) => Some(t.name@),
        TopDecl::Namespace(ns) => Some(ns.name@),
        _ => None,
    }
}

proof fn registering_declares(s: State, d: TopDecl)
    requires
        s.scopes.len() >= 1,
        registered_name(d) is Some,
    ensures
        registered(s, d).scopes.last().contains_key(registered_name(d)->0),
{
    broadcast use group_steps;

    registering_goes_on(s, d);
    match d {
        TopDecl::Var(v) => {
            if let Some(te) = v.typ {
                resolving(s, te@);
            }
        },
        TopDecl::Array(a) => resolving(s, a.element_type@),
        TopDecl::Buffer(b) => {
            if let Some(te) = b.typ {
                resolving(s, te@);
            }
        },
        TopDecl::In(i) => resolving(s, i.typ@),
        TopDecl::Fn(f) => {
            taking_params(s, f.params@, f.params@.len());
            if let Some(te) = f.return_type {
                resolving(param_fields(s, f.params@, f.params@.len()).0, te@);
            }
        },
        TopDecl::Chip(ch) => {
            taking_params(s, ch.inputs@, ch.inputs@.len());
            let s1 = param_fields(s, ch.inputs@, ch.inputs@.len()).0;
            taking_outputs(s1, ch.outputs@, ch.outputs@.len());
        },
        TopDecl::Callback(cb) => {
            taking_params(s, cb.inputs@, cb.inputs@.len());
            let s1 = param_fields(s, cb.inputs@, cb.inputs@.len()).0;
            taking_outputs(s1, cb.outputs@, cb.outputs@.len());
        },
        TopDecl::TypeAlias(t) => resolving(s, t.typ@),
        _ => {},
    }
    reveal(goes_on);
}

proof fn registering_all_declares(s: State, decls: Seq<TopDecl>, n: nat, i: int)
    requires
        s.scopes.len() >= 1,
        0 <= i < n <= decls.len(),
        registered_name(decls[i]) is Some,
    ensures
        own(registered_all(s, decls, n), registered_name(decls[i])->0),
    decreases n,
{
    broadcast use group_steps;

    let before = registered_all(s, decls, (n - 1) as nat);
    let after = registered_all(s, decls, n);
    registering_all(s, decls, (n - 1) as nat);
    registering(before, decls[n - 1]);
    assert(before.scopes.len() >= 1 && after.scopes.len() >= 1) by {
        reveal(goes_on);
    }
    if i == n - 1 {
        registering_declares(before, decls[i]);
    } else {
        registering_all_declares(s, decls, (n - 1) as nat, i);
        keeps_own(before, after, registered_name(decls[i])->0);
    }
}

/// A name that a script declares at its top is known before anything is
/// checked, wherever in the script it is declared, and stays known.
pub proof fn forward_references_resolve(c: Catalog, script: Script, file: Seq<char>, i: int)
    requires
        0 <= i < script.decls@.len(),
        registered_name(script.decls@[i]) is Some,
    ensures
        ({
            let name = registered_name(script.decls@[i])->0;
            let s1 = builtin_events(State::initial(file), c.events@, c.events@.len());
            let first = registered_all(s1, script.decls@, script.decls@.len());
            first.lookup(name) is Some && checked_script(c, script, file).lookup(name) is Some
        }),
{
    broadcast use group_steps;

    let decls = script.decls@;
    let n = decls.len();
    let s0 = State::initial(file);
    announcing(s0, c.events@, c.events@.len());
    let s1 = builtin_events(s0, c.events@, c.events@.len());
    assert(s1.scopes.len() == 1) by {
        reveal(goes_on);
    }
    registering_all_declares(s1, decls, n, i);
    registering_all(s1, decls, n);
    let s2 = registered_all(s1, decls, n);
    passing_main(s2, c, decls, n);
    passing_chips(main_pass(s2, c, decls, n), c, decls, n);
    assert(goes_on(s1, s2));
    assert(goes_on(s2, checked_script(c, script, file)));
    reveal(goes_on);
}

// ---------- variables ----------

/// A variable read by its name, or through `.Value`, has the type of what it
/// holds, in exec context and outside.
pub proof fn variables_read_as_values(s: State, c: Catalog, n: Expr, e: Expr)
    requires
        var_named(s, n) is Some,
        e matches Expr::FieldAccess { obj, field, .. } && *obj == n && field@ == "Value"@,
    ensures
        inferred(s, c, n).1 == var_named(s, n)->0,
        inferred(s, c, e).1 == var_named(s, n)->0,
{
    let (s1, ot) = inferred(s, c, n);
    assert(ot == var_named(s, n)->0);
    assert(s1.scopes == s.scopes);
    if let Expr::FieldAccess { obj, field, range } = e {
        assert(inferred_inner(s, c, e) == field_rule(s1, n, ot, field@, range@));
        assert(var_named(s1, n) == var_named(s, n));
    }
}

/// In exec context an explicit deref of a variable gives what the variable
/// refers to, and reports nothing.
pub proof fn deref_reads_variables(s: State, c: Catalog, e: Expr)
    requires
        s.is_exec(),
        e matches Expr::Deref { operand, .. } && var_named(s, *operand) is Some,
    ensures
        inferred(s, c, e).1 == var_named(s, *e->Deref_operand)->0,
        inferred(s, c, e).0.diags == s.diags,
{
    if let Expr::Deref { operand, range } = e {
        let (s1, t) = inferred(s, c, *operand);
        assert(s1.scopes == s.scopes && s1.modes == s.modes && s1.diags == s.diags);
        assert(inferred_inner(s, c, e) == deref_rule(s1, *operand, t, range@));
        assert(var_named(s1, *operand) == var_named(s, *operand));
    }
}

/// Each element of an array literal has a type of its own.
pub proof fn elements_are_typed(s: State, c: Catalog, e: Expr, i: int)
    requires
        s.scopes.len() >= 1,
        e matches Expr::Array { elements, .. } && 0 <= i < elements@.len(),
    ensures
        inferred(s, c, e).0.types.contains_key(span_key(e->elements@[i].inner().rng()@)),
{
    if let Expr::Array { elements, .. } = e {
        typing_elems(s, c, elements@, elements@.len(), i);
    }
}

proof fn typing_elems(s: State, c: Catalog, elements: Seq<ArrayElem>, n: nat, i: int)
    requires
        s.scopes.len() >= 1,
        0 <= i < n <= elements.len(),
    ensures
        array_elems(s, c, elements, n).0.types.contains_key(span_key(elements[i].inner().rng()@)),
    decreases n,
{
    broadcast use group_steps;

    let s1 = array_elems(s, c, elements, (n - 1) as nat).0;
    let e = elements[n - 1].inner();
    inferring_elems(s, c, elements, (n - 1) as nat);
    inferring(s1, c, e);
    if i < n - 1 {
        typing_elems(s, c, elements, (n - 1) as nat, i);
    }
    assert(array_elems(s, c, elements, n).0 == inferred(s1, c, e).0);
    assert(goes_on(s, s1) && goes_on(s1, inferred(s1, c, e).0));
    reveal(goes_on);
}

/// An explicit deref outside exec context is reported.
pub proof fn deref_needs_exec(s: State, c: Catalog, e: Expr)
    requires
        s.scopes.len() >= 1,
        !s.is_exec(),
        e is Deref,
    ensures
        ({
            let after = inferred(s, c, e).0.diags;
            let at = s.diags.len() as int;
            at < after.len() && after[at].severity == Severity::Error && after[at].code == "WS006"@
        }),
{
    broadcast use group_steps;

    if let Expr::Deref { operand, range } = e {
        let s1 = s.error(
            "WS006"@,
            "'*"@ + shown_target(*operand)
                + "' deref requires exec context — use .Value for pure reads"@,
            range@,
        );
        inferring(s1, c, *operand);
        assert(goes_on(s1, inferred(s, c, e).0));
        reveal(goes_on);
        assert(s1.diags[s.diags.len() as int].code == "WS006"@);
    }
}

/// A write outside exec context is reported.
pub proof fn writes_need_exec(s: State, c: Catalog, a: Assign)
    requires
        s.scopes.len() >= 1,
        !s.is_exec(),
    ensures
        ({
            let after = checked_assign(s, c, a).diags;
            let at = s.diags.len() as int;
            at < after.len() && after[at].severity == Severity::Error && after[at].code == "WS007"@
        }),
{
    broadcast use group_steps;

    let s1 = s.error(
        "WS007"@,
        "var write '"@ + shown_target(a.target) + "' outside an exec context"@,
        a.range@,
    );
    targeting(s1, c, a.target);
    let (s2, target) = target_type(s1, c, a.target);
    inferring(s2, c, a.value);
    assert(goes_on(s1, checked_assign(s, c, a)));
    reveal(goes_on);
    assert(s1.diags[s.diags.len() as int].code == "WS007"@);
}

/// A statement `if` outside exec context is reported.
pub proof fn ifs_need_exec(s: State, c: Catalog, i: If)
    requires
        s.scopes.len() >= 1,
        !s.is_exec(),
    ensures
        ({
            let after = checked_if(s, c, i).diags;
            let at = s.diags.len() as int;
            at < after.len() && after[at].severity == Severity::Error && after[at].code == "WS007"@
                && after[at].message == "'if' statement outside an exec context"@
        }),
{
    broadcast use group_steps;

    let s1 = s.error("WS007"@, "'if' statement outside an exec context"@, i.range@);
    let s0 = s1.note_if(i.range@, s1.is_exec());
    inferring(s0, c, i.cond);
    let s2 = inferred(s0, c, i.cond).0;
    checking_block(s2, c, i.then_block);
    let s3 = checked_block(s2, c, i.then_block);
    if let Some(b) = i.else_block {
        checking_block(s3, c, b);
    }
    assert(goes_on(s1, checked_if(s, c, i)));
    reveal(goes_on);
    assert(s1.diags[s.diags.len() as int].code == "WS007"@);
}

// ---------- names of types ----------

/// Whether a type has no components.
pub open spec fn plain(t: TypeView) -> bool {
    !(t is Ref || t is Array || t is Tuple || t is Union || t is Record)
}

/// The written form of a type without components names that type.
pub proof fn plain_types_read_back(t: TypeView)
    requires
        plain(t),
    ensures
        primitive(type_text(t)) == Some(t),
{
    reveal_strlit("bool");
    reveal_strlit("int");
    reveal_strlit("float");
    reveal_strlit("string");
    reveal_strlit("vector");
    reveal_strlit("rotator");
    reveal_strlit("quat");
    reveal_strlit("color");
    reveal_strlit("entity");
    reveal_strlit("character");
    reveal_strlit("controller");
    reveal_strlit("brick");
    reveal_strlit("prefab");
    reveal_strlit("exec");
    reveal_strlit("any");
    reveal_strlit("never");
    assert("bool"@[0] == 'b' && "int"@[0] == 'i' && "float"@[0] == 'f' && "string"@[0] == 's');
    assert("vector"@[0] == 'v' && "rotator"@[0] == 'r' && "quat"@[0] == 'q' && "color"@[0] == 'c');
    assert("entity"@[0] == 'e' && "character"@[0] == 'c' && "controller"@[0] == 'c');
    assert("brick"@[0] == 'b' && "prefab"@[0] == 'p' && "exec"@[0] == 'e' && "any"@[0] == 'a');
    assert("never"@[0] == 'n');
    assert("bool"@.len() == 4 && "int"@.len() == 3 && "float"@.len() == 5 && "string"@.len() == 6);
    assert("vector"@.len() == 6 && "rotator"@.len() == 7 && "quat"@.len() == 4);
    assert("color"@.len() == 5 && "entity"@.len() == 6 && "character"@.len() == 9);
    assert("controller"@.len() == 10 && "brick"@.len() == 5 && "prefab"@.len() == 6);
    assert("exec"@.len() == 4 && "any"@.len() == 3 && "never"@.len() == 5);
    let name = type_text(t);
    assert(name == plain_name(t));
    match t {
        TypeView::Color => assert(primitive(name) == Some(t)),
        TypeView::Character => assert(primitive(name) == Some(t)),
        TypeView::Brick => assert(primitive(name) == Some(t)),
        _ => {},
    }
}

} // verus!
