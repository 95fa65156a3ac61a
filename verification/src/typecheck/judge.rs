//! The recursive judgements: expressions, statements, declarations, scripts.

use crate::ast::{
    ArrayDecl, ArrayElem, Assign, AwaitStmt, Block, BufferDecl, CallArg, Callback, ChipDecl, Emit,
    EventDecl, Expr, FnDecl, Handler, If, InterpPart, LetBinding, LetDecl, MatchArm, MatchBody,
    OutBinding, RecordLitField, Script, Stmt, TopDecl, VarDecl,
};
use crate::catalog::{CallSpec, Catalog};
use crate::diagnostic::RangeView;
use crate::literal::literal_of;
use crate::text::{ends_with_text, joined};
use crate::type_expr::type_expr_text;
use crate::typecheck::ctx::{ExecMode, State};
use crate::typecheck::register::{
    builtin_events, registered_all, registered_array, registered_buffer, registered_callback,
    registered_chip, registered_in, registered_stmts, registered_var, resolved, storable,
};
use crate::typecheck::rules::{
    argument, array_behind, binary_code, bound_fn_params, bound_let, bound_params, bound_trigger,
    builtin_type, coerced, componentwise, counted, dangling, declared_call, deref_rule, exec_call,
    field_rule, ident_rule, index_rule, let_symbol, match_type, names_namespace, namespace_call,
    operated, outputs_checked, outputs_type, pick_rule, positional_count, put_field, put_fields,
    ref_rule, shorthand_type, shown_target, unary_code, unary_key,
};
use crate::typecheck::scope::SymbolKind;
use crate::types::{debug_text, field_or_any, field_type, type_text, unref, Fields, TypeView};
use vstd::prelude::*;

verus! {

// ---------- expressions ----------

/// The type of an expression, noted under its place.
pub open spec fn inferred(s: State, c: Catalog, e: Expr) -> (State, TypeView)
    decreases e, 2nat, 0nat,
{
    let (s1, t) = inferred_inner(s, c, e);
    (s1.note_type(e.rng()@, t), t)
}

/// The type of an expression.
pub open spec fn inferred_inner(s: State, c: Catalog, e: Expr) -> (State, TypeView)
    decreases e, 1nat, 0nat,
{
    match e {
        Expr::IntLit { .. } => (s, TypeView::Int),
        Expr::FloatLit { .. } => (s, TypeView::Float),
        Expr::StringLit { .. } => (s, TypeView::String),
        Expr::BoolLit { .. } => (s, TypeView::Bool),
        Expr::Array { elements, .. } => {
            let (s1, elem) = array_elems(s, c, elements@, elements@.len());
            (s1, TypeView::Array(Box::new(elem)))
        },
        Expr::AssetRef { .. } => (s, TypeView::Entity),
        Expr::PrefabRef { path, range } => (
            if ends_with_text(path@, ".brz"@) {
                s
            } else {
                s.error(
                    "WS019"@,
                    "prefab reference `$"@ + path@ + "` must end in `.brz`"@,
                    range@,
                )
            },
            TypeView::Any,
        ),
        Expr::InterpLit { parts, .. } => (
            interp_parts(s, c, parts@, parts@.len()),
            TypeView::String,
        ),
        Expr::Ident { name, range } => ident_rule(s, name@, range@),
        Expr::Deref { operand, range } => {
            let s1 = if s.is_exec() {
                s
            } else {
                s.error(
                    "WS006"@,
                    "'*"@ + shown_target(*operand)
                        + "' deref requires exec context — use .Value for pure reads"@,
                    range@,
                )
            };
            let (s2, t) = inferred(s1, c, *operand);
            deref_rule(s2, *operand, t, range@)
        },
        Expr::RefOf { operand, .. } => {
            let (s1, t) = inferred(s, c, *operand);
            (s1, ref_rule(t))
        },
        Expr::UnOp { op, operand, range } => {
            let (s1, t) = inferred(s, c, *operand);
            operated(
                s1,
                c,
                unary_key(op@),
                seq![unref(t)],
                unary_code(op@),
                "no overload for '"@ + op@ + "' on "@ + debug_text(t),
                range@,
            )
        },
        Expr::BinOp { op, left, right, range } => {
            let (s1, lt) = inferred(s, c, *left);
            let (s2, rt) = inferred(s1, c, *right);
            operated(
                s2,
                c,
                op@,
                seq![unref(lt), unref(rt)],
                binary_code(op@),
                "no overload for '"@ + op@ + "' on "@ + debug_text(lt) + ", "@ + debug_text(rt),
                range@,
            )
        },
        Expr::FieldAccess { obj, field, range } => {
            let (s1, ot) = inferred(s, c, *obj);
            field_rule(s1, *obj, ot, field@, range@)
        },
        Expr::IndexAccess { obj, index, range } => {
            let (s1, ot) = inferred(s, c, *obj);
            let (s2, _) = inferred(s1, c, *index);
            index_rule(s2, *obj, unref(ot), range@)
        },
        Expr::TuplePick { obj, index, range } => {
            let (s1, ot) = inferred(s, c, *obj);
            pick_rule(s1, ot, index as nat, range@)
        },
        Expr::Call { callee, args, .. } => {
            let s1 = call_args(s, c, args@, args@.len());
            match *callee {
                Expr::Ident { name, range } => match c.call(name@) {
                    Some(spec_) => {
                        let s2 = exec_call(s1, spec_, name@, args@, range@);
                        let (s3, bound) = if name@ == "Random"@ {
                            random_bound(s2, c, args@, args@.len())
                        } else {
                            (s2, None)
                        };
                        match bound {
                            Some(t) => (s3, t),
                            None => (
                                positional_args(
                                    counted(
                                        s3,
                                        spec_,
                                        positional_count(args@, args@.len()),
                                        range@,
                                    ),
                                    c,
                                    spec_,
                                    args@,
                                    0,
                                    args@.len(),
                                ),
                                builtin_type(spec_),
                            ),
                        }
                    },
                    None => declared_call(s1, name@, args@, range@),
                },
                Expr::FieldAccess { obj, field, range } => if names_namespace(s1, *obj) {
                    namespace_call(s1, (*obj)->Ident_name@, field@, range@)
                } else if array_behind(s1, *obj) is Some && c.method(field@) is Some {
                    (s1, c.method_result(field@, array_behind(s1, *obj)->0))
                } else {
                    match c.call(field@) {
                        Some(spec_) => if spec_.receiver is Some {
                            let s2 = counted(
                                s1,
                                spec_,
                                1 + positional_count(args@, args@.len()),
                                range@,
                            );
                            let s3 = if spec_.params@.len() > 0 {
                                let (s4, t) = inferred(s2, c, *obj);
                                argument(s4, c, spec_.params@[0], t, obj.rng()@)
                            } else {
                                s2
                            };
                            (
                                positional_args(s3, c, spec_, args@, 1, args@.len()),
                                match outputs_type(spec_) {
                                    Some(t) => t,
                                    None => TypeView::Any,
                                },
                            )
                        } else {
                            (dangling(s1, c, *obj, field@), TypeView::Any)
                        },
                        None => (dangling(s1, c, *obj, field@), TypeView::Any),
                    }
                },
                _ => (s1, TypeView::Any),
            }
        },
        Expr::IfExpr { cond, then_branch, else_branch, range } => {
            let (s1, _) = inferred(s.note_if(range@, false), c, *cond);
            let (s2, tt) = inferred(s1, c, *then_branch);
            let (s3, et) = inferred(s2, c, *else_branch);
            (
                if c.fits(tt, et) {
                    s3
                } else {
                    s3.error(
                        "WS003"@,
                        "if-then-else branch type mismatch: then is "@ + type_text(tt)
                            + ", else is "@ + type_text(et) + " (Select output follows else type)"@,
                        range@,
                    )
                },
                et,
            )
        },
        Expr::BlockExpr { stmts, value, .. } => {
            let s1 = checked_stmts(s.push_scope(), c, stmts@, stmts@.len());
            let (s2, t) = inferred(s1, c, *value);
            (s2.pop_scope(), t)
        },
        Expr::MatchExpr { scrutinee, arms, .. } => {
            let (s1, _) = inferred(s, c, *scrutinee);
            let (s2, tys) = match_arms(s1, c, arms@, arms@.len());
            (s2, match_type(tys))
        },
        Expr::RecordLit { fields, .. } => {
            let (s1, rec) = record_fields(s, c, fields@, fields@.len());
            (s1, TypeView::Record(rec))
        },
    }
}

/// The first `n` elements of an array literal; the first gives the element
/// type, a spread that of the array it spreads.
pub open spec fn array_elems(s: State, c: Catalog, elements: Seq<ArrayElem>, n: nat) -> (
    State,
    TypeView,
)
    decreases elements, 0nat, n,
{
    if n == 0 || n > elements.len() {
        (s, TypeView::Any)
    } else {
        let (s1, elem) = array_elems(s, c, elements, (n - 1) as nat);
        let (s2, et) = match elements[n - 1] {
            ArrayElem::Item(e) => {
                let (s2, t) = inferred(s1, c, e);
                (s2, unref(t))
            },
            ArrayElem::Spread(e) => {
                let (s2, t) = inferred(s1, c, e);
                (
                    s2,
                    match unref(t) {
                        TypeView::Array(inner) => *inner,
                        other => other,
                    },
                )
            },
        };
        (
            s2,
            if n == 1 {
                et
            } else {
                elem
            },
        )
    }
}

/// The first `n` parts of an interpolated string; each must turn into text.
pub open spec fn interp_parts(s: State, c: Catalog, parts: Seq<InterpPart>, n: nat) -> State
    decreases parts, 0nat, n,
{
    if n == 0 || n > parts.len() {
        s
    } else {
        let s1 = interp_parts(s, c, parts, (n - 1) as nat);
        match parts[n - 1] {
            InterpPart::Lit(_) => s1,
            InterpPart::Expr(e) => {
                let (s2, t) = inferred(s1, c, *e);
                if c.fits(unref(t), TypeView::String) {
                    s2
                } else {
                    s2.error("WS003"@, "expected string, got "@ + debug_text(unref(t)), e.rng()@)
                }
            },
        }
    }
}

/// The first `n` arguments of a call, whatever their kind.
pub open spec fn call_args(s: State, c: Catalog, args: Seq<CallArg>, n: nat) -> State
    decreases args, 0nat, n,
{
    if n == 0 || n > args.len() {
        s
    } else {
        let s1 = call_args(s, c, args, (n - 1) as nat);
        match args[n - 1] {
            CallArg::Positional(e) => inferred(s1, c, e).0,
            CallArg::Named { value, .. } => inferred(s1, c, value).0,
            CallArg::Spread(e) => inferred(s1, c, e).0,
        }
    }
}

/// The first of the first `n` positional arguments of a random call whose type
/// the result takes over.
pub open spec fn random_bound(s: State, c: Catalog, args: Seq<CallArg>, n: nat) -> (
    State,
    Option<TypeView>,
)
    decreases args, 0nat, n,
{
    if n == 0 || n > args.len() {
        (s, None)
    } else {
        let (s1, found) = random_bound(s, c, args, (n - 1) as nat);
        match args[n - 1] {
            CallArg::Positional(e) => {
                let (s2, t) = inferred(s1, c, e);
                (
                    s2,
                    if found is None && componentwise(unref(t)) {
                        Some(unref(t))
                    } else {
                        found
                    },
                )
            },
            _ => (s1, found),
        }
    }
}

/// Holds the positional ones among the first `n` arguments to the parameters
/// from `offset` on.
pub open spec fn positional_args(
    s: State,
    c: Catalog,
    spec_: CallSpec,
    args: Seq<CallArg>,
    offset: nat,
    n: nat,
) -> State
    decreases args, 0nat, n,
{
    if n == 0 || n > args.len() {
        s
    } else {
        let s1 = positional_args(s, c, spec_, args, offset, (n - 1) as nat);
        let i = offset + positional_count(args, (n - 1) as nat);
        match args[n - 1] {
            CallArg::Positional(e) => if i < spec_.params@.len() {
                let (s2, t) = inferred(s1, c, e);
                argument(s2, c, spec_.params@[i as int], t, e.rng()@)
            } else {
                s1
            },
            _ => s1,
        }
    }
}

/// The types of the expression arms among the first `n` arms.
pub open spec fn match_arms(s: State, c: Catalog, arms: Seq<MatchArm>, n: nat) -> (
    State,
    Seq<TypeView>,
)
    decreases arms, 0nat, n,
{
    if n == 0 || n > arms.len() {
        (s, Seq::empty())
    } else {
        let (s1, before) = match_arms(s, c, arms, (n - 1) as nat);
        match arms[n - 1].body {
            MatchBody::Expr(e) => {
                let (s2, t) = inferred(s1, c, e);
                (s2, before.push(t))
            },
            MatchBody::Block(_) => (s1, before),
        }
    }
}

/// The fields that the first `n` parts of a record literal make.
pub open spec fn record_fields(s: State, c: Catalog, fields: Seq<RecordLitField>, n: nat) -> (
    State,
    Fields,
)
    decreases fields, 0nat, n,
{
    if n == 0 || n > fields.len() {
        (s, Seq::empty())
    } else {
        let (s1, before) = record_fields(s, c, fields, (n - 1) as nat);
        match fields[n - 1] {
            RecordLitField::Named { name, value, .. } => {
                let (s2, t) = inferred(s1, c, value);
                (s2, put_field(before, name@, t))
            },
            RecordLitField::Shorthand { name, .. } => (
                s1,
                put_field(before, name@, shorthand_type(s1, name@)),
            ),
            RecordLitField::Spread { value, .. } => {
                let (s2, t) = inferred(s1, c, value);
                (
                    s2,
                    match t {
                        TypeView::Record(more) => put_fields(before, more, more.len()),
                        _ => before,
                    },
                )
            },
        }
    }
}

/// The type that an assignment target takes.
pub open spec fn target_type(s: State, c: Catalog, e: Expr) -> (State, TypeView)
    decreases e, 1nat, 0nat,
{
    match e {
        Expr::Ident { name, range } => if name@ == "_"@ {
            (s, TypeView::Any)
        } else {
            match s.lookup(name@) {
                None => (
                    s.error("WS002"@, "unknown identifier '"@ + name@ + "'"@, range@),
                    TypeView::Any,
                ),
                Some(sym) => if sym.kind == SymbolKind::Var || sym.kind == SymbolKind::Array
                    || sym.kind == SymbolKind::LetBinding || (sym.kind == SymbolKind::Param
                    && sym.ty is Ref) || (sym.kind == SymbolKind::In && sym.ty is Array) {
                    (s, unref(sym.ty))
                } else {
                    (
                        s.error("WS007"@, "'"@ + name@ + "' isn't a writable target"@, range@),
                        TypeView::Any,
                    )
                },
            }
        },
        Expr::IndexAccess { obj, index, .. } => {
            let (s1, ot) = target_type(s, c, *obj);
            let (s2, _) = inferred(s1, c, *index);
            (
                s2,
                match ot {
                    TypeView::Array(inner) => *inner,
                    _ => TypeView::Any,
                },
            )
        },
        _ => (s, TypeView::Any),
    }
}

// ---------- statements ----------

pub open spec fn checked_stmts(s: State, c: Catalog, stmts: Seq<Stmt>, n: nat) -> State
    decreases stmts, 0nat, n,
{
    if n == 0 || n > stmts.len() {
        s
    } else {
        checked_stmt(checked_stmts(s, c, stmts, (n - 1) as nat), c, stmts[n - 1])
    }
}

/// A block has a scope of its own.
pub open spec fn checked_block(s: State, c: Catalog, b: Block) -> State
    decreases b, 1nat, 0nat,
{
    checked_stmts(s.push_scope(), c, b.stmts@, b.stmts@.len()).pop_scope()
}

/// The statements of an anonymous chip, whose declarations are registered
/// already.
pub open spec fn checked_anon(s: State, c: Catalog, stmts: Seq<Stmt>, n: nat) -> State
    decreases stmts, 0nat, n,
{
    if n == 0 || n > stmts.len() {
        s
    } else {
        let s1 = checked_anon(s, c, stmts, (n - 1) as nat);
        match stmts[n - 1] {
            Stmt::Var(v) => checked_var(s1, c, v),
            Stmt::Buffer(b) => checked_buffer(s1, c, b),
            Stmt::Array(a) => checked_array(s1, c, a),
            Stmt::In(_) => s1,
            other => checked_stmt(s1, c, other),
        }
    }
}

/// The type inside the reference that a variable was registered with.
pub open spec fn var_inner(s: State, name: Seq<char>) -> TypeView {
    match s.lookup(name) {
        Some(sym) => match sym.ty {
            TypeView::Ref(inner) => *inner,
            _ => TypeView::Any,
        },
        None => TypeView::Any,
    }
}

/// Holds an initializer of type `t` to the variable's type; an unannotated
/// variable takes its type from the initializer.
pub open spec fn initialized(
    s: State,
    c: Catalog,
    v: VarDecl,
    inner: TypeView,
    t: TypeView,
    range: RangeView,
) -> State {
    let s1 = coerced(s, c, t, inner, range);
    if v.typ is None && inner is Any && storable(unref(t)) {
        s1.set_type(v.name@, TypeView::Ref(Box::new(unref(t))))
    } else {
        s1
    }
}

pub open spec fn checked_assign(s: State, c: Catalog, a: Assign) -> State
    decreases a, 1nat, 0nat,
{
    let s1 = if s.is_exec() {
        s
    } else {
        s.error(
            "WS007"@,
            "var write '"@ + shown_target(a.target) + "' outside an exec context"@,
            a.range@,
        )
    };
    let (s2, target) = target_type(s1, c, a.target);
    let (s3, value) = inferred(s2, c, a.value);
    coerced(s3, c, value, target, a.value.rng()@)
}

pub open spec fn checked_if(s: State, c: Catalog, i: If) -> State
    decreases i, 1nat, 0nat,
{
    let s1 = if s.is_exec() {
        s
    } else {
        s.error("WS007"@, "'if' statement outside an exec context"@, i.range@)
    };
    let (s2, _) = inferred(s1.note_if(i.range@, s1.is_exec()), c, i.cond);
    let s3 = checked_block(s2, c, i.then_block);
    match i.else_block {
        Some(b) => checked_block(s3, c, b),
        None => s3,
    }
}

/// The record that a signal ferries, as far as it is known.
pub open spec fn payload_of(s: State, e: Expr) -> TypeView {
    match e {
        Expr::Ident { name, .. } => if s.payloads.contains_key(name@) {
            s.payloads[name@]
        } else {
            TypeView::Any
        },
        _ => TypeView::Any,
    }
}

/// The first `n` destructured locals of an await.
pub open spec fn bound_awaited(
    s: State,
    fields: Seq<(String, String)>,
    payload: TypeView,
    range: RangeView,
    n: nat,
) -> State
    decreases n,
{
    if n == 0 || n > fields.len() {
        s
    } else {
        let (field, local) = fields[n - 1];
        bound_awaited(s, fields, payload, range, (n - 1) as nat).declare(
            local@,
            let_symbol(local@, field_or_any(payload, field@), range),
        )
    }
}

pub open spec fn checked_await(s: State, c: Catalog, a: AwaitStmt) -> State
    decreases a, 1nat, 0nat,
{
    let s1 = if s.is_exec() {
        s
    } else {
        s.error("WS007"@, "await outside an exec context"@, a.range@)
    };
    let armed = s1.push_scope().declare("_"@, let_symbol("_"@, TypeView::Bool, a.range@));
    let (s2, exec_ty) = inferred(armed, c, a.exec_expr);
    let s3 = s2.pop_scope();
    let (s4, val_ty) = match a.value_expr {
        Some(e) => inferred(s3, c, e),
        None => (s3, exec_ty),
    };
    let s5 = match a.binding {
        Some(name) => s4.declare(name@, let_symbol(name@, val_ty, a.range@)),
        None => s4,
    };
    match a.destructure {
        Some(fields) => bound_awaited(
            s5,
            fields@,
            payload_of(s5, a.exec_expr),
            a.range@,
            fields@.len(),
        ),
        None => s5,
    }
}

pub open spec fn checked_emit(s: State, c: Catalog, e: Emit) -> State
    decreases e, 1nat, 0nat,
{
    match e.value {
        None => if s.is_exec() {
            s
        } else {
            s.error("WS007"@, "emit '"@ + e.name@ + "' outside an exec context"@, e.range@)
        },
        Some(value) => {
            let (s1, t) = inferred(s, c, value);
            s1.note_payload(e.name@, t)
        },
    }
}

pub open spec fn checked_handler(s: State, c: Catalog, h: Handler) -> State
    decreases h, 1nat, 0nat,
{
    let s1 = bound_trigger(s.push_scope(), c, h);
    checked_block(s1.push_mode(ExecMode::Exec), c, h.body).pop_mode().pop_scope()
}

pub open spec fn checked_stmt(s: State, c: Catalog, st: Stmt) -> State
    decreases st, 1nat, 0nat,
{
    match st {
        Stmt::Var(v) => {
            let s1 = registered_var(s, v);
            match v.init {
                Some(init) => {
                    let inner = var_inner(s1, v.name@);
                    let (s2, t) = inferred(s1, c, init);
                    initialized(s2, c, v, inner, t, init.rng()@)
                },
                None => s1,
            }
        },
        Stmt::Buffer(b) => checked_buffer(registered_buffer(s, b), c, b),
        Stmt::Array(a) => checked_array(registered_array(s, a), c, a),
        Stmt::Let(l) => {
            let (s1, t) = inferred(s, c, l.value);
            bound_let(annotated(s1, c, l, t), l.binding, t)
        },
        Stmt::Assign(a) => checked_assign(s, c, a),
        Stmt::OutBinding(b) => match b.value {
            Some(value) => inferred(s, c, value).0,
            None => s,
        },
        Stmt::Emit(e) => checked_emit(s, c, e),
        Stmt::Await(a) => checked_await(s, c, a),
        Stmt::If(i) => checked_if(s, c, i),
        Stmt::ExprStmt(es) => inferred(s, c, es.expr).0,
        Stmt::In(d) => registered_in(s, d),
        Stmt::Handler(h) => checked_handler(s, c, h),
        Stmt::AnonChip(ac) => checked_anon(
            registered_stmts(s, ac.body.stmts@, ac.body.stmts@.len()),
            c,
            ac.body.stmts@,
            ac.body.stmts@.len(),
        ),
        Stmt::ChipDecl(ch) => checked_chip(registered_chip(s, ch), c, ch),
        Stmt::Callback(cb) => checked_callback(registered_callback(s, cb), c, cb),
        Stmt::Return { value, range } => {
            let s1 = if !s.is_exec() && value is None {
                s.error("WS007"@, "'return' (without value) outside an exec context"@, range@)
            } else {
                s
            };
            match value {
                Some(e) => inferred(s1, c, e).0,
                None => s1,
            }
        },
    }
}

// ---------- let annotations ----------

pub open spec fn not_in_type(s: State, name: Seq<char>, want_name: Seq<char>, range: RangeView) -> State {
    s.error("WS003"@, "field '"@ + name + "' not in type "@ + want_name, range)
}

/// The names among the first `n` fields that `expected` lacks.
pub open spec fn extra_names(fields: Fields, expected: Fields, n: nat) -> Seq<Seq<char>>
    decreases n,
{
    if n == 0 || n > fields.len() {
        Seq::empty()
    } else {
        let before = extra_names(fields, expected, (n - 1) as nat);
        if field_type(expected, fields[n - 1].0) is None {
            before.push(fields[n - 1].0)
        } else {
            before
        }
    }
}

/// Reports the fields that the first `n` parts of a literal have beyond the
/// expected ones.
pub open spec fn extra_reports(
    s: State,
    c: Catalog,
    fields: Seq<RecordLitField>,
    expected: Fields,
    want_name: Seq<char>,
    n: nat,
) -> State
    decreases fields, 0nat, n,
{
    if n == 0 || n > fields.len() {
        s
    } else {
        let s1 = extra_reports(s, c, fields, expected, want_name, (n - 1) as nat);
        match fields[n - 1] {
            RecordLitField::Named { name, range, .. } => if field_type(expected, name@) is None {
                not_in_type(s1, name@, want_name, range@)
            } else {
                s1
            },
            RecordLitField::Shorthand { name, range } => if field_type(expected, name@) is None {
                not_in_type(s1, name@, want_name, range@)
            } else {
                s1
            },
            RecordLitField::Spread { value, range } => {
                let (s2, t) = inferred(s1, c, value);
                match t {
                    TypeView::Record(more) => {
                        let extras = extra_names(more, expected, more.len());
                        if extras.len() > 0 {
                            s2.error(
                                "WS003"@,
                                "spread introduces fields not in "@ + want_name + ": "@ + joined(
                                    extras,
                                    ", "@,
                                ),
                                range@,
                            )
                        } else {
                            s2
                        }
                    },
                    _ => s2,
                }
            },
        }
    }
}

/// Reports each of the first `n` expected fields that is not there.
pub open spec fn missing_reports(
    s: State,
    expected: Fields,
    present: Fields,
    want_name: Seq<char>,
    range: RangeView,
    n: nat,
) -> State
    decreases n,
{
    if n == 0 || n > expected.len() {
        s
    } else {
        let s1 = missing_reports(s, expected, present, want_name, range, (n - 1) as nat);
        if field_type(present, expected[n - 1].0) is None {
            s1.error(
                "WS003"@,
                "missing field '"@ + expected[n - 1].0 + "' for type "@ + want_name,
                range,
            )
        } else {
            s1
        }
    }
}

/// The name under which a let is reported.
pub open spec fn shown_binding(b: LetBinding) -> Seq<char> {
    match b {
        LetBinding::Ident { name, .. } => name@,
        _ => "<binding>"@,
    }
}

/// Holds a let with an annotation to it: a record literal field by field, any
/// other value of type `t` as a whole.
pub open spec fn annotated(s: State, c: Catalog, l: LetDecl, t: TypeView) -> State
    decreases l, 1nat, 0nat,
{
    match l.typ {
        None => s,
        Some(te) => {
            let (s1, expected) = resolved(s, te@);
            match l.value {
                Expr::RecordLit { fields, .. } => match expected {
                    TypeView::Record(want) => {
                        let name = type_expr_text(te@);
                        let s2 = extra_reports(s1, c, fields@, want, name, fields@.len());
                        match t {
                            TypeView::Record(have) => missing_reports(
                                s2,
                                want,
                                have,
                                name,
                                l.value.rng()@,
                                want.len(),
                            ),
                            _ => s2,
                        }
                    },
                    _ => s1,
                },
                _ => if c.fits(t, expected) {
                    s1
                } else {
                    s1.warning(
                        "WS016"@,
                        "let '"@ + shown_binding(l.binding) + "' annotated as "@ + type_expr_text(
                            te@,
                        ) + ", but expression has type "@ + type_text(t),
                        l.range@,
                    )
                },
            }
        },
    }
}

// ---------- declarations ----------

/// One element of an initializer that is baked into its gate, inferred as `t`.
pub open spec fn baked_element(
    s: State,
    c: Catalog,
    el: ArrayElem,
    elem_ty: TypeView,
    t: TypeView,
) -> State {
    let range = el.inner().rng()@;
    if el is Spread {
        s.error(
            "WS003"@,
            "spread `...` in an array initializer is only allowed when building the array inside an exec handler"@,
            range,
        )
    } else {
        match literal_of(el.inner()) {
            Some(lit) => if lit is Asset || lit is PrefabRef {
                s.warning(
                    "WS024"@,
                    "asset / prefab references can't be inlined into an array initializer — they're object references wired in from their own brick. Build the array with `.push(...)` inside an exec handler instead."@,
                    range,
                )
            } else if !(elem_ty is Any) && !c.fits(t, elem_ty) {
                s.error(
                    "WS003"@,
                    "array element: expected "@ + type_text(elem_ty) + ", got "@ + type_text(t),
                    range,
                )
            } else {
                s
            },
            None => s.error(
                "WS003"@,
                "array initializer elements must be constant literals — assign the array inside an exec handler to build it from runtime values"@,
                range,
            ),
        }
    }
}

/// The first `n` elements of an initializer outside exec context.
pub open spec fn baked_elements(
    s: State,
    c: Catalog,
    elements: Seq<ArrayElem>,
    elem_ty: TypeView,
    n: nat,
) -> State
    decreases elements, 0nat, n,
{
    if n == 0 || n > elements.len() {
        s
    } else {
        let s1 = baked_elements(s, c, elements, elem_ty, (n - 1) as nat).push_mode(ExecMode::Pure);
        let (s2, t) = match elements[n - 1] {
            ArrayElem::Item(e) => inferred(s1, c, e),
            ArrayElem::Spread(e) => inferred(s1, c, e),
        };
        baked_element(s2.pop_mode(), c, elements[n - 1], elem_ty, t)
    }
}

pub open spec fn elem_of(t: TypeView) -> TypeView {
    match t {
        TypeView::Array(inner) => *inner,
        _ => TypeView::Any,
    }
}

/// A registered variable outside exec context.
pub open spec fn checked_var(s: State, c: Catalog, v: VarDecl) -> State
    decreases v, 1nat, 0nat,
{
    match v.init {
        None => s,
        Some(init) => {
            let inner = var_inner(s, v.name@);
            match init {
                Expr::Array { elements, .. } => {
                    let (s1, _) = inferred(s.push_mode(ExecMode::Pure), c, init);
                    baked_elements(s1.pop_mode(), c, elements@, elem_of(inner), elements@.len())
                },
                _ => {
                    let (s1, t) = inferred(s.push_mode(ExecMode::Pure), c, init);
                    initialized(s1, c, v, inner, t, init.rng()@).pop_mode()
                },
            }
        },
    }
}

/// A registered buffer; without an annotation it takes the type of its value.
pub open spec fn checked_buffer(s: State, c: Catalog, b: BufferDecl) -> State
    decreases b, 1nat, 0nat,
{
    let (s1, t) = inferred(s.push_mode(ExecMode::Pure), c, b.init);
    if b.typ is None {
        s1.set_type(b.name@, unref(t)).pop_mode()
    } else {
        s1.pop_mode()
    }
}

pub open spec fn checked_array(s: State, c: Catalog, a: ArrayDecl) -> State
    decreases a, 1nat, 0nat,
{
    if a.init@.len() == 0 {
        s
    } else {
        let (s1, inner) = resolved(s, a.element_type@);
        baked_elements(s1, c, a.init@, inner, a.init@.len())
    }
}

/// The hint for an output that is the value of a variable without saying
/// whether the value or the reference is meant.
pub open spec fn out_hint(out: Seq<char>, var: Seq<char>, ty: Seq<char>) -> Seq<char> {
    "out '"@ + out + "' infers type from var '"@ + var + "' — add explicit type: `out "@ + out
        + ": "@ + ty + " = "@ + var + "` for value, or `out "@ + out + ": *"@ + ty + " = "@ + var
        + "` for ref"@
}

/// What an output's annotation and value say beside the value's own type.
pub open spec fn out_annotated(s: State, b: OutBinding, value: Expr) -> State {
    match b.typ {
        Some(te) => {
            let (s1, ty) = resolved(s, te@);
            match value {
                Expr::Ident { range, .. } => if ty is Ref {
                    s1.forget_read(range@)
                } else {
                    s1
                },
                _ => s1,
            }
        },
        None => match value {
            Expr::Ident { name, .. } => match s.lookup(name@) {
                Some(sym) => if sym.kind == SymbolKind::Var {
                    s.warning(
                        "WS017"@,
                        out_hint(b.name@, name@, type_text(unref(sym.ty))),
                        b.range@,
                    )
                } else {
                    s
                },
                None => s,
            },
            _ => s,
        },
    }
}

pub open spec fn checked_out(s: State, c: Catalog, b: OutBinding) -> State
    decreases b, 1nat, 0nat,
{
    match b.value {
        None => s,
        Some(value) => out_annotated(
            inferred(s.push_mode(ExecMode::Pure), c, value).0.pop_mode(),
            b,
            value,
        ),
    }
}

pub open spec fn checked_fn(s: State, c: Catalog, f: FnDecl) -> State
    decreases f, 1nat, 0nat,
{
    let s1 = bound_fn_params(s.push_scope(), f.params@, f.params@.len());
    inferred(s1.push_mode(ExecMode::Pure), c, f.body).0.pop_mode().pop_scope()
}

pub open spec fn checked_chip(s: State, c: Catalog, ch: ChipDecl) -> State
    decreases ch, 1nat, 0nat,
{
    let s1 = bound_params(s.push_scope(), ch.inputs@, ch.inputs@.len());
    let s2 = checked_block(s1.push_mode(ExecMode::Exec), c, ch.body).pop_mode();
    outputs_checked(s2, ch).pop_scope()
}

pub open spec fn checked_callback(s: State, c: Catalog, cb: Callback) -> State
    decreases cb, 1nat, 0nat,
{
    let s1 = bound_params(s.push_scope(), cb.inputs@, cb.inputs@.len());
    checked_block(s1.push_mode(ExecMode::Exec), c, cb.body).pop_mode().pop_scope()
}

pub open spec fn checked_event(s: State, c: Catalog, e: EventDecl) -> State
    decreases e, 1nat, 0nat,
{
    match e.captured_body {
        Some(body) => checked_block(s.push_mode(ExecMode::Exec), c, body).pop_mode(),
        None => inferred(s.push_mode(ExecMode::Pure), c, e.source).0.pop_mode(),
    }
}

/// The values among the first `n` declarations of a namespace.
pub open spec fn checked_values(s: State, c: Catalog, decls: Seq<TopDecl>, n: nat) -> State
    decreases decls, 0nat, n,
{
    if n == 0 || n > decls.len() {
        s
    } else {
        let s1 = checked_values(s, c, decls, (n - 1) as nat);
        match decls[n - 1] {
            TopDecl::Let(_) => checked_decl(s1, c, decls[n - 1]),
            TopDecl::Var(_) => checked_decl(s1, c, decls[n - 1]),
            TopDecl::Array(_) => checked_decl(s1, c, decls[n - 1]),
            TopDecl::Buffer(_) => checked_decl(s1, c, decls[n - 1]),
            _ => s1,
        }
    }
}

/// The bodies among the first `n` declarations of a namespace.
pub open spec fn checked_bodies(s: State, c: Catalog, decls: Seq<TopDecl>, n: nat) -> State
    decreases decls, 0nat, n,
{
    if n == 0 || n > decls.len() {
        s
    } else {
        let s1 = checked_bodies(s, c, decls, (n - 1) as nat);
        match decls[n - 1] {
            TopDecl::Chip(_) => checked_decl(s1, c, decls[n - 1]),
            TopDecl::Fn(_) => checked_decl(s1, c, decls[n - 1]),
            _ => s1,
        }
    }
}

/// What checking a registered declaration does.
pub open spec fn checked_decl(s: State, c: Catalog, d: TopDecl) -> State
    decreases d, 1nat, 0nat,
{
    match d {
        TopDecl::Var(v) => checked_var(s, c, v),
        TopDecl::Buffer(b) => checked_buffer(s, c, b),
        TopDecl::Array(a) => checked_array(s, c, a),
        TopDecl::In(_) => s,
        TopDecl::Out(b) => checked_out(s, c, b),
        TopDecl::Let(l) => {
            let (s1, t) = inferred(s.push_mode(ExecMode::Pure), c, l.value);
            bound_let(annotated(s1.pop_mode(), c, l, t), l.binding, t)
        },
        TopDecl::Fn(f) => checked_fn(s, c, f),
        TopDecl::Chip(ch) => checked_chip(s, c, ch),
        TopDecl::Callback(cb) => checked_callback(s, c, cb),
        TopDecl::AnonChip(ac) => checked_anon(s, c, ac.body.stmts@, ac.body.stmts@.len()),
        TopDecl::Event(e) => checked_event(s, c, e),
        TopDecl::Handler(h) => checked_handler(s, c, h),
        TopDecl::ExprStmt(es) => inferred(s.push_mode(ExecMode::Pure), c, es.expr).0.pop_mode(),
        TopDecl::Assign(a) => checked_assign(s, c, a),
        TopDecl::If(i) => checked_if(
            if s.is_exec() {
                s
            } else {
                s.error("WS007"@, "top-level 'if' outside an exec context"@, i.range@)
            },
            c,
            i,
        ),
        TopDecl::Namespace(ns) => {
            let n = ns.decls@.len();
            let s1 = registered_all(s.push_scope(), ns.decls@, n);
            checked_bodies(checked_values(s1, c, ns.decls@, n), c, ns.decls@, n).pop_scope()
        },
        TopDecl::Import(_) => s,
        TopDecl::TypeAlias(_) => s,
        TopDecl::Await(_) => s,
    }
}

// ---------- scripts ----------

/// Declarations that hold a handler at the top.
pub open spec fn holds_handler(d: TopDecl) -> bool {
    match d {
        TopDecl::Handler(_) => true,
        TopDecl::AnonChip(ac) => exists|i: int|
            0 <= i < ac.body.stmts@.len() && (#[trigger] ac.body.stmts@[i]) is Handler,
        _ => false,
    }
}

/// Whether a handler stands among the first `n` declarations.
pub open spec fn saw_handler(decls: Seq<TopDecl>, n: nat) -> bool {
    exists|i: int| 0 <= i < n && i < decls.len() && holds_handler(#[trigger] decls[i])
}

/// Statements after handlers run in the combined exec context of all preceding
/// handler exits.
pub open spec fn wrapped_decl(s: State, c: Catalog, decls: Seq<TopDecl>, i: int) -> State {
    if saw_handler(decls, i as nat) && !holds_handler(decls[i]) {
        checked_decl(s.push_mode(ExecMode::Exec), c, decls[i]).pop_mode()
    } else {
        checked_decl(s, c, decls[i])
    }
}

/// Everything but chips among the first `n` declarations.
pub open spec fn main_pass(s: State, c: Catalog, decls: Seq<TopDecl>, n: nat) -> State
    decreases n,
{
    if n == 0 || n > decls.len() {
        s
    } else {
        let s1 = main_pass(s, c, decls, (n - 1) as nat);
        if decls[n - 1] is Chip {
            s1
        } else {
            wrapped_decl(s1, c, decls, n - 1)
        }
    }
}

/// The chips among the first `n` declarations. Their bodies are checked after
/// everything else, so that they see every top-level let.
pub open spec fn chip_pass(s: State, c: Catalog, decls: Seq<TopDecl>, n: nat) -> State
    decreases n,
{
    if n == 0 || n > decls.len() {
        s
    } else {
        let s1 = chip_pass(s, c, decls, (n - 1) as nat);
        if decls[n - 1] is Chip {
            wrapped_decl(s1, c, decls, n - 1)
        } else {
            s1
        }
    }
}

/// A whole script: everything is registered first, so that forward references
/// resolve.
pub open spec fn checked_script(c: Catalog, script: Script, file: Seq<char>) -> State {
    let decls = script.decls@;
    let n = decls.len();
    let s1 = builtin_events(State::initial(file), c.events@, c.events@.len());
    let s2 = registered_all(s1, decls, n);
    chip_pass(main_pass(s2, c, decls, n), c, decls, n)
}

} // verus!
