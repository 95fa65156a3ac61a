//! Typing rules: what checking each construct does to the state, and the type
//! it gives.
//!
//! Identifier semantics for `var`:
//! - in exec context `n` auto-derefs; its type is the inner one;
//! - `*n` is an explicit deref and requires exec context;
//! - `n.Value` is the delayed-read form and always yields the inner type.

use crate::ast::{
    Assign, CallArg, ChipDecl, Emit, Expr, Handler, If, LetBinding, NamedOutput, OutBinding, Param,
    ParamPattern, RecordDestructField, Stmt, Trigger, TypeExpr,
};
use crate::catalog::{port_fields, CallSpec, Catalog, EventSpec, FieldView, ParamSpec};
use crate::diagnostic::RangeView;
use crate::text::{decimal, plural};
use crate::typecheck::ctx::State;
use crate::typecheck::register::resolved;
use crate::typecheck::scope::{plain_symbol, SymView, SymbolKind};
use crate::types::{debug_text, field_or_any, field_type, kind_index, unref, Fields, TypeView};
use vstd::prelude::*;

verus! {

// ---------- single judgements ----------

/// Reports a value that cannot stand where another type is wanted.
pub open spec fn coerced(s: State, c: Catalog, from: TypeView, to: TypeView, range: RangeView) -> State {
    if c.fits(from, to) {
        s
    } else {
        s.error("WS003"@, "expected "@ + debug_text(to) + ", got "@ + debug_text(from), range)
    }
}

/// The name written in a place where a target is wanted.
pub open spec fn shown_target(e: Expr) -> Seq<char> {
    match e {
        Expr::Ident { name, .. } => name@,
        _ => "<expr>"@,
    }
}

/// The code for an operator without an overload.
pub open spec fn unary_code(op: Seq<char>) -> Seq<char> {
    if op == "&"@ || op == "|"@ || op == "^"@ || op == "~"@ || op == "<<"@ || op == ">>"@ {
        "WS011"@
    } else {
        "WS004"@
    }
}

pub open spec fn binary_code(op: Seq<char>) -> Seq<char> {
    if op == "&"@ || op == "|"@ || op == "^"@ || op == "<<"@ || op == ">>"@ {
        "WS011"@
    } else {
        "WS004"@
    }
}

pub open spec fn unary_key(op: Seq<char>) -> Seq<char> {
    if op == "-"@ {
        "-u"@
    } else {
        op
    }
}

/// Applies an operator to operands of the types `shown`, looked up under `key`.
pub open spec fn operated(
    s: State,
    c: Catalog,
    key: Seq<char>,
    operands: Seq<TypeView>,
    code: Seq<char>,
    message: Seq<char>,
    range: RangeView,
) -> (State, TypeView) {
    match c.op_rule(key, operands) {
        Some(rule) => (s.note_op(range, rule@), rule.result@),
        None => (s.error(code, message, range), TypeView::Any),
    }
}

/// An identifier: events are exec pulses, functions and chips have no value
/// type, variables are read through, and everything else has its own type.
pub open spec fn ident_rule(s: State, name: Seq<char>, range: RangeView) -> (State, TypeView) {
    match s.lookup(name) {
        None => (
            s.error("WS002"@, "unknown identifier '"@ + name + "'"@, range),
            TypeView::Any,
        ),
        Some(sym) => match sym.kind {
            SymbolKind::Event => (s, TypeView::Exec),
            SymbolKind::Fn => (s, TypeView::Any),
            SymbolKind::Chip => (s, TypeView::Any),
            SymbolKind::Var => (s.note_read(range, s.is_exec()), unref(sym.ty)),
            _ => (s, sym.ty),
        },
    }
}

pub open spec fn is_component(t: TypeView, field: Seq<char>) -> bool {
    match t {
        TypeView::Vector => field == "x"@ || field == "X"@ || field == "y"@ || field == "Y"@
            || field == "z"@ || field == "Z"@,
        TypeView::Color => field == "r"@ || field == "R"@ || field == "g"@ || field == "G"@
            || field == "b"@ || field == "B"@ || field == "a"@ || field == "A"@,
        TypeView::Rotator => field == "pitch"@ || field == "yaw"@ || field == "roll"@,
        _ => false,
    }
}

/// What the variable that an expression names refers to.
pub open spec fn var_named(s: State, e: Expr) -> Option<TypeView> {
    match e {
        Expr::Ident { name, .. } => match s.lookup(name@) {
            Some(sym) => match sym.ty {
                TypeView::Ref(inner) => if sym.kind == SymbolKind::Var {
                    Some(*inner)
                } else {
                    None
                },
                _ => None,
            },
            None => None,
        },
        _ => None,
    }
}

/// `obj.field`, where `ot` is the type of `obj`. A variable is read through
/// `.Value` and `.prev` without going into what it holds.
pub open spec fn field_rule(
    s: State,
    obj: Expr,
    ot: TypeView,
    field: Seq<char>,
    range: RangeView,
) -> (State, TypeView) {
    let reads = field == "Value"@ || field == "prev"@;
    if reads && var_named(s, obj) is Some {
        (s, var_named(s, obj)->0)
    } else if ot is Ref && reads {
        (s, unref(ot))
    } else if ot is Ref && field == "VarRef"@ {
        (s, ot)
    } else if field == "value"@ || field == "Value"@ {
        (s, unref(ot))
    } else {
        match ot {
            TypeView::Record(fields) => match field_type(fields, field) {
                Some(t) => (s, t),
                None => (
                    s.error(
                        "WS010"@,
                        "no field '"@ + field + "' on "@ + debug_text(ot),
                        range,
                    ),
                    TypeView::Any,
                ),
            },
            _ => if is_component(ot, field) {
                (s, TypeView::Float)
            } else {
                (s, TypeView::Any)
            },
        }
    }
}

/// `obj[..]`, where `ot` is the type of `obj` without its reference.
pub open spec fn index_rule(s: State, obj: Expr, ot: TypeView, range: RangeView) -> (State, TypeView) {
    match ot {
        TypeView::Array(inner) => (
            if s.is_exec() {
                s
            } else {
                s.error(
                    "WS007"@,
                    "array index read '"@ + shown_target(obj) + "[...]' outside an exec context"@,
                    range,
                )
            },
            *inner,
        ),
        _ => (s, TypeView::Any),
    }
}

/// `obj.0`, `obj.1`, …
pub open spec fn pick_rule(s: State, ot: TypeView, index: nat, range: RangeView) -> (State, TypeView) {
    match ot {
        TypeView::Tuple(fields) => if index < fields.len() {
            (s, fields[index as int])
        } else {
            (
                s.error(
                    "WS010"@,
                    "tuple index ."@ + decimal(index) + " out of range"@,
                    range,
                ),
                TypeView::Any,
            )
        },
        TypeView::Record(fields) => if index < fields.len() {
            (s, fields[index as int].1)
        } else {
            (s, TypeView::Any)
        },
        _ => (s, TypeView::Any),
    }
}

/// `*operand`, where `t` is the type that the operand reads as. In exec context
/// a variable gives what it refers to; anything else must be a reference.
pub open spec fn deref_rule(s: State, operand: Expr, t: TypeView, range: RangeView) -> (
    State,
    TypeView,
) {
    if s.is_exec() && var_named(s, operand) is Some {
        (s, var_named(s, operand)->0)
    } else {
        match t {
            TypeView::Ref(inner) => (s, *inner),
            TypeView::Any => (s, TypeView::Any),
            _ => (
                s.error("WS003"@, "expected ref T, got "@ + debug_text(t), range),
                TypeView::Any,
            ),
        }
    }
}

pub open spec fn ref_rule(t: TypeView) -> TypeView {
    if t is Ref {
        t
    } else {
        TypeView::Ref(Box::new(t))
    }
}

/// What a match over events yields from the types of its expression arms.
pub open spec fn match_type(tys: Seq<TypeView>) -> TypeView {
    if tys.len() == 0 {
        TypeView::Any
    } else if forall|i: int| 0 <= i < tys.len() ==> kind_index(#[trigger] tys[i]) == kind_index(tys[0]) {
        tys[0]
    } else {
        TypeView::Union(tys)
    }
}

/// The fields with `name` set: in place if it is there, else at the end.
pub open spec fn put_field(fields: Fields, name: Seq<char>, ty: TypeView) -> Fields
    decreases fields.len(),
{
    if fields.len() == 0 {
        seq![(name, ty)]
    } else if fields[0].0 == name {
        seq![(name, ty)] + fields.drop_first()
    } else {
        seq![fields[0]] + put_field(fields.drop_first(), name, ty)
    }
}

/// The fields with the first `n` fields of `more` set, in order.
pub open spec fn put_fields(fields: Fields, more: Fields, n: nat) -> Fields
    decreases n,
{
    if n == 0 || n > more.len() {
        fields
    } else {
        put_field(put_fields(fields, more, (n - 1) as nat), more[n - 1].0, more[n - 1].1)
    }
}

/// The type of a shorthand field: that of the symbol it names.
pub open spec fn shorthand_type(s: State, name: Seq<char>) -> TypeView {
    match s.lookup(name) {
        Some(sym) => sym.ty,
        None => TypeView::Any,
    }
}

// ---------- calls ----------

/// How many of the first `n` arguments are positional.
pub open spec fn positional_count(args: Seq<CallArg>, n: nat) -> nat
    decreases n,
{
    if n == 0 || n > args.len() {
        0
    } else {
        positional_count(args, (n - 1) as nat) + if args[n - 1] is Positional {
            1nat
        } else {
            0nat
        }
    }
}

pub open spec fn has_exec_arg(args: Seq<CallArg>) -> bool {
    exists|i: int| 0 <= i < args.len() && is_exec_arg(#[trigger] args[i])
}

pub open spec fn is_exec_arg(a: CallArg) -> bool {
    a matches CallArg::Named { name, .. } && name@ == "exec"@
}

pub open spec fn has_spread(args: Seq<CallArg>) -> bool {
    exists|i: int| 0 <= i < args.len() && (#[trigger] args[i]) is Spread
}

/// How many of the first `n` parameters must be given.
pub open spec fn required_count(params: Seq<ParamSpec>, n: nat) -> nat
    decreases n,
{
    if n == 0 || n > params.len() {
        0
    } else {
        required_count(params, (n - 1) as nat) + if params[n - 1].optional {
            0nat
        } else {
            1nat
        }
    }
}

/// Reports too many or too few positional arguments of a built-in call.
pub open spec fn counted(s: State, spec_: CallSpec, given: nat, range: RangeView) -> State {
    let most = spec_.params@.len();
    let least = required_count(spec_.params@, most);
    if given > most {
        s.error(
            "WS011"@,
            "'"@ + spec_.name@ + "' expects at most "@ + decimal(most) + " positional arg"@ + plural(
                most,
                ""@,
                "s"@,
            ) + ", got "@ + decimal(given),
            range,
        )
    } else if given < least {
        s.error(
            "WS011"@,
            "'"@ + spec_.name@ + "' requires "@ + decimal(least) + " arg"@ + plural(least, ""@, "s"@)
                + ", got "@ + decimal(given),
            range,
        )
    } else {
        s
    }
}

/// Reports an argument whose type does not fit its parameter.
pub open spec fn argument(s: State, c: Catalog, p: ParamSpec, t: TypeView, range: RangeView) -> State {
    if c.fits(unref(t), p.ty@) {
        s
    } else {
        s.error(
            "WS003"@,
            "argument '"@ + p.name@ + "': expected "@ + debug_text(p.ty@) + ", got "@ + debug_text(
                unref(t),
            ),
            range,
        )
    }
}

/// What a built-in call with outputs returns.
pub open spec fn outputs_type(spec_: CallSpec) -> Option<TypeView> {
    if spec_.outputs@.len() == 1 {
        Some(spec_.outputs@[0].ty@)
    } else if spec_.outputs@.len() > 1 {
        Some(TypeView::Record(port_fields(spec_.outputs@)))
    } else {
        None
    }
}

/// What a built-in call returns when it is called by its name: its outputs;
/// without outputs, nothing for an exec call and its first parameter's type
/// for a pure one.
pub open spec fn builtin_type(spec_: CallSpec) -> TypeView {
    match outputs_type(spec_) {
        Some(t) => t,
        None => if spec_.needs_exec || spec_.params@.len() == 0 {
            TypeView::Any
        } else {
            spec_.params@[0].ty@
        },
    }
}

/// Reports an exec call in a pure context without an `exec =` argument.
pub open spec fn exec_call(
    s: State,
    spec_: CallSpec,
    name: Seq<char>,
    args: Seq<CallArg>,
    range: RangeView,
) -> State {
    if spec_.needs_exec && !s.is_exec() && !has_exec_arg(args) {
        s.error(
            "WS007"@,
            "exec call '"@ + name + "' outside an exec context (pass exec = ... to override)"@,
            range,
        )
    } else {
        s
    }
}

/// The types that a random value takes over from its bounds.
pub open spec fn componentwise(t: TypeView) -> bool {
    t is Vector || t is Color || t is Rotator || t is Quat
}

/// Whether one place comes before another in a file.
pub open spec fn comes_before(a: RangeView, b: RangeView) -> bool {
    a.start.line < b.start.line || (a.start.line == b.start.line && a.start.col < b.start.col)
}

/// Reports a call of a chip above its declaration in the same file.
pub open spec fn declared_above(s: State, sym: SymView, name: Seq<char>, range: RangeView) -> State {
    if sym.kind == SymbolKind::Chip && sym.signature is Some && sym.decl_range.file == range.file
        && comes_before(range, sym.decl_range) {
        s.error(
            "WS021"@,
            "call to `"@ + name
                + "` before its declaration — chips and mods must be declared before the point where they are used (move the declaration above its first caller)"@,
            range,
        )
    } else {
        s
    }
}

/// Reports a wrong number of positional arguments of a declared callable. A
/// spread makes the number dynamic.
pub open spec fn arity(
    s: State,
    sym: SymView,
    name: Seq<char>,
    args: Seq<CallArg>,
    range: RangeView,
) -> State {
    match sym.signature {
        Some(sig) => {
            let given = positional_count(args, args.len());
            let expected = sig.params.len();
            if has_spread(args) || given == expected {
                s
            } else {
                s.error(
                    "WS022"@,
                    "`"@ + name + "` expects "@ + decimal(expected) + " argument"@ + plural(
                        expected,
                        ""@,
                        "s"@,
                    ) + " but "@ + decimal(given) + " "@ + plural(given, "was"@, "were"@)
                        + " given"@,
                    range,
                )
            }
        },
        None => s,
    }
}

/// Outputs as record fields.
pub open spec fn output_record(outs: Seq<FieldView>) -> Fields {
    Seq::new(outs.len(), |i: int| (outs[i].name, outs[i].ty))
}

/// What a declared callable returns: its one output, or a record of its
/// outputs. A call with an `exec =` trigger also returns the completion pulse
/// under `exec`, unless an output has that name.
pub open spec fn declared_result(sym: SymView, args: Seq<CallArg>) -> TypeView {
    match sym.signature {
        Some(sig) => if sig.outputs.len() == 1 && !has_exec_arg(args) {
            sig.outputs[0].ty
        } else if sig.outputs.len() > 0 {
            let fields = output_record(sig.outputs);
            TypeView::Record(
                if has_exec_arg(args) && field_type(fields, "exec"@) is None {
                    fields.push(("exec"@, TypeView::Exec))
                } else {
                    fields
                },
            )
        } else {
            TypeView::Any
        },
        None => TypeView::Any,
    }
}

/// A call of a declared symbol by its name.
pub open spec fn declared_call(
    s: State,
    name: Seq<char>,
    args: Seq<CallArg>,
    range: RangeView,
) -> (State, TypeView) {
    match s.lookup(name) {
        None => (
            s.error("WS002"@, "unknown identifier '"@ + name + "'"@, range),
            TypeView::Any,
        ),
        Some(sym) => (
            arity(declared_above(s, sym, name, range), sym, name, args, range),
            declared_result(sym, args),
        ),
    }
}

/// A call `ns.field(..)` of a member of a namespace.
pub open spec fn namespace_call(
    s: State,
    ns: Seq<char>,
    field: Seq<char>,
    range: RangeView,
) -> (State, TypeView) {
    if s.namespaces.contains_key(ns) && s.namespaces[ns].contains_key(field) {
        let member = s.namespaces[ns][field];
        if member.kind == SymbolKind::Chip {
            (s, TypeView::Any)
        } else {
            match member.return_type {
                Some(ret) => resolved(s, ret),
                None => (s, TypeView::Any),
            }
        }
    } else {
        (
            s.error(
                "WS002"@,
                "'"@ + field + "' not found in namespace '"@ + ns + "'"@,
                range,
            ),
            TypeView::Any,
        )
    }
}

pub open spec fn names_namespace(s: State, obj: Expr) -> bool {
    match obj {
        Expr::Ident { name, .. } => match s.lookup(name@) {
            Some(sym) => sym.kind == SymbolKind::Namespace,
            None => false,
        },
        _ => false,
    }
}

/// The element type of an array that a name stands for.
pub open spec fn array_behind(s: State, obj: Expr) -> Option<TypeView> {
    match obj {
        Expr::Ident { name, .. } => match s.lookup(name@) {
            Some(sym) => match unref(sym.ty) {
                TypeView::Array(inner) => Some(*inner),
                _ => if sym.kind == SymbolKind::Array {
                    Some(TypeView::Any)
                } else {
                    None
                },
            },
            None => None,
        },
        _ => None,
    }
}

/// Reports a method call on a name that stands for nothing.
pub open spec fn dangling(s: State, c: Catalog, obj: Expr, field: Seq<char>) -> State {
    match obj {
        Expr::Ident { name, range } => if s.lookup(name@) is None && c.call(name@) is None {
            s.error(
                "WS002"@,
                "unknown identifier '"@ + name@ + "' in call `"@ + name@ + "."@ + field
                    + "(...)` — no namespace, variable, or value named '"@ + name@
                    + "' is in scope (is an import missing?)"@,
                range@,
            )
        } else {
            s
        },
        _ => s,
    }
}

// ---------- bindings ----------

pub open spec fn let_symbol(name: Seq<char>, ty: TypeView, range: RangeView) -> SymView {
    plain_symbol(SymbolKind::LetBinding, name, ty, range)
}

/// The first `n` names of a tuple, each with the type at its place.
pub open spec fn bound_tuple(
    s: State,
    names: Seq<String>,
    tys: Seq<TypeView>,
    range: RangeView,
    n: nat,
) -> State
    decreases n,
{
    if n == 0 || n > names.len() {
        s
    } else {
        bound_tuple(s, names, tys, range, (n - 1) as nat).declare(
            names[n - 1]@,
            let_symbol(names[n - 1]@, tys[n - 1], range),
        )
    }
}

/// The first `n` names, all of type `any`.
pub open spec fn bound_any(s: State, names: Seq<String>, range: RangeView, n: nat) -> State
    decreases n,
{
    if n == 0 || n > names.len() {
        s
    } else {
        bound_any(s, names, range, (n - 1) as nat).declare(
            names[n - 1]@,
            let_symbol(names[n - 1]@, TypeView::Any, range),
        )
    }
}

/// The first `n` names, each with the type of the field of that name.
pub open spec fn bound_record(
    s: State,
    names: Seq<String>,
    t: TypeView,
    range: RangeView,
    n: nat,
) -> State
    decreases n,
{
    if n == 0 || n > names.len() {
        s
    } else {
        bound_record(s, names, t, range, (n - 1) as nat).declare(
            names[n - 1]@,
            let_symbol(names[n - 1]@, field_or_any(t, names[n - 1]@), range),
        )
    }
}

/// The name that a destructured field is bound to, and its type.
pub open spec fn destructured(f: RecordDestructField, t: TypeView) -> (Seq<char>, TypeView) {
    match f {
        RecordDestructField::Named { name, alias, .. } => (
            match alias {
                Some(a) => a@,
                None => name@,
            },
            field_or_any(t, name@),
        ),
        RecordDestructField::Rest { name, .. } => (name@, TypeView::Any),
    }
}

/// The first `n` destructured fields, bound as symbols of a kind.
pub open spec fn bound_fields(
    s: State,
    kind: SymbolKind,
    fields: Seq<RecordDestructField>,
    t: TypeView,
    range: RangeView,
    n: nat,
) -> State
    decreases n,
{
    if n == 0 || n > fields.len() {
        s
    } else {
        let (name, ty) = destructured(fields[n - 1], t);
        bound_fields(s, kind, fields, t, range, (n - 1) as nat).declare(
            name,
            plain_symbol(kind, name, ty, range),
        )
    }
}

/// Binds a let pattern to a value of type `t`.
pub open spec fn bound_let(s: State, b: LetBinding, t: TypeView) -> State {
    match b {
        LetBinding::Ident { name, range } => s.declare(name@, let_symbol(name@, t, range@)),
        LetBinding::Tuple { names, range, .. } => match t {
            TypeView::Tuple(tys) => if tys.len() == names@.len() {
                bound_tuple(s, names@, tys, range@, names@.len())
            } else {
                tuple_mismatch(s, names@, t, range@)
            },
            _ => tuple_mismatch(s, names@, t, range@),
        },
        LetBinding::Record { names, range } => bound_record(s, names@, t, range@, names@.len()),
        LetBinding::RecordDestruct { fields, range } => bound_fields(
            s,
            SymbolKind::LetBinding,
            fields@,
            t,
            range@,
            fields@.len(),
        ),
    }
}

pub open spec fn tuple_mismatch(s: State, names: Seq<String>, t: TypeView, range: RangeView) -> State {
    bound_any(
        s.error(
            "WS010"@,
            "destructure shape: expected tuple["@ + decimal(names.len()) + "], got "@ + debug_text(
                t,
            ),
            range,
        ),
        names,
        range,
        names.len(),
    )
}

/// The first `n` names of a tuple pattern in a parameter list.
pub open spec fn bound_param_tuple(
    s: State,
    names: Seq<String>,
    t: TypeView,
    range: RangeView,
    n: nat,
) -> State
    decreases n,
{
    if n == 0 || n > names.len() {
        s
    } else {
        let ty = match t {
            TypeView::Tuple(tys) => if n - 1 < tys.len() {
                tys[n - 1]
            } else {
                TypeView::Any
            },
            _ => TypeView::Any,
        };
        bound_param_tuple(s, names, t, range, (n - 1) as nat).declare(
            names[n - 1]@,
            plain_symbol(SymbolKind::Param, names[n - 1]@, ty, range),
        )
    }
}

/// References and arrays are passed as variables, everything else as values.
pub open spec fn param_kind(t: TypeExpr) -> SymbolKind {
    match t {
        TypeExpr::Ref { .. } => SymbolKind::Var,
        TypeExpr::Array { .. } => SymbolKind::Var,
        _ => SymbolKind::Param,
    }
}

/// Declares a parameter and whatever its pattern takes out of it.
pub open spec fn bound_param(s: State, p: Param) -> State {
    let (s1, ty) = resolved(s, p.typ@);
    match p.pattern {
        None => s1.declare(p.name@, plain_symbol(param_kind(p.typ), p.name@, ty, p.range@)),
        Some(pattern) => {
            let s2 = s1.declare(p.name@, plain_symbol(SymbolKind::Param, p.name@, ty, p.range@));
            match pattern {
                ParamPattern::Record { fields, .. } => bound_fields(
                    s2,
                    SymbolKind::Param,
                    fields@,
                    ty,
                    p.range@,
                    fields@.len(),
                ),
                ParamPattern::Tuple { names, .. } => bound_param_tuple(
                    s2,
                    names@,
                    ty,
                    p.range@,
                    names@.len(),
                ),
            }
        },
    }
}

pub open spec fn bound_params(s: State, params: Seq<Param>, n: nat) -> State
    decreases n,
{
    if n == 0 || n > params.len() {
        s
    } else {
        bound_param(bound_params(s, params, (n - 1) as nat), params[n - 1])
    }
}

/// The parameters of a function: no patterns, all plain values.
pub open spec fn bound_fn_params(s: State, params: Seq<Param>, n: nat) -> State
    decreases n,
{
    if n == 0 || n > params.len() {
        s
    } else {
        let p = params[n - 1];
        let (s1, ty) = resolved(bound_fn_params(s, params, (n - 1) as nat), p.typ@);
        s1.declare(p.name@, plain_symbol(SymbolKind::Param, p.name@, ty, p.range@))
    }
}

// ---------- handlers ----------

/// The one name a trigger consists of, itself or negated.
pub open spec fn trigger_name(t: Trigger) -> Option<(Seq<char>, RangeView)> {
    match t {
        Trigger::Ident { name, range } => Some((name@, range@)),
        Trigger::Not { inner, .. } => match *inner {
            Trigger::Ident { name, range } => Some((name@, range@)),
            _ => None,
        },
        _ => None,
    }
}

/// Symbols that a handler can be attached to.
pub open spec fn triggers(sym: SymView) -> bool {
    match sym.kind {
        SymbolKind::Event => true,
        SymbolKind::LetBinding => true,
        SymbolKind::In => match sym.ty {
            TypeView::Exec => true,
            TypeView::Bool => true,
            TypeView::Int => true,
            TypeView::Float => true,
            TypeView::Vector => true,
            TypeView::Character => true,
            TypeView::Controller => true,
            TypeView::Entity => true,
            _ => false,
        },
        SymbolKind::Buffer => match sym.ty {
            TypeView::Exec => true,
            TypeView::Bool => true,
            TypeView::Int => true,
            TypeView::Float => true,
            TypeView::Any => true,
            _ => false,
        },
        SymbolKind::Param => match sym.ty {
            TypeView::Exec => true,
            TypeView::Bool => true,
            TypeView::Int => true,
            TypeView::Float => true,
            TypeView::Character => true,
            TypeView::Controller => true,
            TypeView::Entity => true,
            _ => false,
        },
        _ => false,
    }
}

pub open spec fn known_trigger(s: State, c: Catalog, name: Seq<char>) -> bool {
    c.event(name) is Some || match s.lookup(name) {
        Some(sym) => triggers(sym),
        None => false,
    }
}

/// The type of the `i`-th parameter of a handler of an event.
pub open spec fn event_param_type(evt: Option<EventSpec>, i: int) -> TypeView {
    match evt {
        Some(e) => if 0 <= i < e.data@.len() {
            e.data@[i].ty@
        } else {
            TypeView::Any
        },
        None => TypeView::Any,
    }
}

pub open spec fn bound_event_params(
    s: State,
    evt: Option<EventSpec>,
    params: Seq<String>,
    range: RangeView,
    n: nat,
) -> State
    decreases n,
{
    if n == 0 || n > params.len() {
        s
    } else {
        bound_event_params(s, evt, params, range, (n - 1) as nat).declare(
            params[n - 1]@,
            plain_symbol(
                SymbolKind::EventParam,
                params[n - 1]@,
                event_param_type(evt, n - 1),
                range,
            ),
        )
    }
}

/// Reports an unknown trigger and too many parameters, and binds the
/// parameters of a handler to the data of its event.
pub open spec fn bound_trigger(s: State, c: Catalog, h: Handler) -> State {
    match trigger_name(h.trigger) {
        None => s,
        Some((name, range)) => {
            let s1 = if known_trigger(s, c, name) {
                s
            } else {
                s.error("WS001"@, "unknown event or trigger '"@ + name + "'"@, range)
            };
            let evt = c.event(name);
            let given = h.params@.len();
            let s2 = match evt {
                Some(e) => if given > 0 && e.data@.len() < given {
                    s1.error(
                        "WS010"@,
                        "destructure shape: expected "@ + decimal(e.data@.len())
                            + " param(s), got "@ + decimal(given),
                        h.range@,
                    )
                } else {
                    s1
                },
                None => s1,
            };
            bound_event_params(s2, evt, h.params@, h.range@, given)
        },
    }
}

// ---------- outputs of a chip ----------

/// The names that the first `n` statements give a value to as outputs: out
/// bindings, emits and plain assignments, also inside ifs, handlers and
/// anonymous chips.
pub open spec fn assigned(stmts: Seq<Stmt>, n: nat) -> Set<Seq<char>>
    decreases stmts, n,
{
    if n == 0 || n > stmts.len() {
        Set::empty()
    } else {
        let before = assigned(stmts, (n - 1) as nat);
        match stmts[n - 1] {
            Stmt::OutBinding(o) => before.insert(o.name@),
            Stmt::Emit(e) => before.insert(e.name@),
            Stmt::Assign(a) => match a.target {
                Expr::Ident { name, .. } => before.insert(name@),
                _ => before,
            },
            Stmt::If(i) => {
                let with_then = before + assigned(
                    i.then_block.stmts@,
                    i.then_block.stmts@.len(),
                );
                match i.else_block {
                    Some(eb) => with_then + assigned(eb.stmts@, eb.stmts@.len()),
                    None => with_then,
                }
            },
            Stmt::Handler(h) => before + assigned(h.body.stmts@, h.body.stmts@.len()),
            Stmt::AnonChip(ac) => before + assigned(ac.body.stmts@, ac.body.stmts@.len()),
            _ => before,
        }
    }
}

/// Whether one of the first `n` statements returns a value, itself or in a
/// branch.
pub open spec fn returns_value(stmts: Seq<Stmt>, n: nat) -> bool
    decreases stmts, n,
{
    if n == 0 || n > stmts.len() {
        false
    } else {
        returns_value(stmts, (n - 1) as nat) || match stmts[n - 1] {
            Stmt::Return { value, .. } => value is Some,
            Stmt::If(i) => returns_value(i.then_block.stmts@, i.then_block.stmts@.len()) || (
            match i.else_block {
                Some(eb) => returns_value(eb.stmts@, eb.stmts@.len()),
                None => false,
            }),
            _ => false,
        }
    }
}

/// Reports each of the first `n` outputs without a value.
pub open spec fn unassigned_reports(
    s: State,
    outs: Seq<NamedOutput>,
    names: Set<Seq<char>>,
    n: nat,
) -> State
    decreases n,
{
    if n == 0 || n > outs.len() {
        s
    } else {
        let s1 = unassigned_reports(s, outs, names, (n - 1) as nat);
        let name = outs[n - 1].name@;
        if names.contains(name) {
            s1
        } else {
            s1.error(
                "WS013"@,
                "output '"@ + name + "' is never assigned — use `out "@ + name + " = expr`, `emit "@
                    + name + "`, or `return expr`"@,
                outs[n - 1].range@,
            )
        }
    }
}

/// A chip must give each of its outputs a value, unless it returns one.
pub open spec fn outputs_checked(s: State, ch: ChipDecl) -> State {
    if ch.outputs@.len() > 0 && !returns_value(ch.body.stmts@, ch.body.stmts@.len()) {
        unassigned_reports(
            s,
            ch.outputs@,
            assigned(ch.body.stmts@, ch.body.stmts@.len()),
            ch.outputs@.len(),
        )
    } else {
        s
    }
}

} // verus!
