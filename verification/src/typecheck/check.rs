//! The type checker itself: expressions, statements, declarations and scripts.

use crate::assoc::{AssocMap, PosKey, SpanKey};
use crate::ast::{
    ArrayDecl, ArrayElem, Assign, AwaitStmt, Block, BufferDecl, CallArg, Callback, ChipDecl, Emit,
    EventDecl, Expr, FnDecl, Handler, If, InterpPart, LetBinding, LetDecl, MatchArm, MatchBody,
    OutBinding, RecordLitField, Script, Stmt, TopDecl, VarDecl,
};
use crate::catalog::{CallSpec, Catalog, OpRule};
use crate::diagnostic::{views, Diagnostic, SourceRange};
use crate::literal::{expr_to_literal, Literal};
use crate::text::{cat2, cat3, cat4, cat5, ends_with, join, owned, str_eq, texts};
use crate::type_expr::type_expr_str;
use crate::typecheck::calls::{
    apply_binary, apply_unary, array_element, bind_fn_params, bind_handler_trigger_params,
    bind_let, bind_params, call_outputs, call_type, check_arg, check_arg_count, check_dangling,
    check_exec_call, check_outputs, count_positional, expect_coerce, fits, infer_declared_call,
    infer_deref, infer_field, infer_ident, infer_index, infer_namespace_call, infer_pick,
    infer_shorthand, is_componentwise, join_arms, namespace_name, set_field, set_fields,
    target_name,
};
use crate::typecheck::ctx::{ExecMode, TypeCheckCtx};
use crate::typecheck::judge::{
    annotated, array_elems, baked_element, baked_elements, bound_awaited, call_args, checked_anon,
    checked_array, checked_assign, checked_await, checked_block, checked_bodies, checked_buffer,
    checked_callback, checked_chip, checked_decl, checked_emit, checked_event, checked_fn,
    checked_handler, checked_if, checked_out, checked_script, checked_stmt, checked_stmts,
    checked_values, checked_var, chip_pass, extra_names, extra_reports, holds_handler, inferred,
    inferred_inner, initialized, interp_parts, main_pass, match_arms, missing_reports,
    out_annotated, out_hint, payload_of, positional_args, random_bound, record_fields, saw_handler,
    shown_binding, target_type, var_inner,
};
use crate::typecheck::register::{
    register_all, register_array, register_buffer, register_builtin_events, register_callback,
    register_chip, register_in, register_stmts, register_var, resolve_type_expr, var_storable,
};
use crate::typecheck::rules::{counted, positional_count};
use crate::typecheck::scope::{plain_info, SymbolKind};
use crate::types::{
    field_of, field_views, find_field, type_debug, type_str, type_views, unwrap_ref, Type,
};
use vstd::prelude::*;
use vstd::string::*;

verus! {

broadcast use crate::types::group_type_views;

// ---------- expressions ----------

pub fn infer_expr(ctx: &mut TypeCheckCtx, cat: &Catalog, e: &Expr) -> (r: Type)
    ensures
        (final(ctx)@, r@) == inferred(old(ctx)@, *cat, *e),
    decreases e, 2nat,
{
    let t = infer_expr_inner(ctx, cat, e);
    ctx.note_type(e.range(), t.clone());
    t
}

fn infer_expr_inner(ctx: &mut TypeCheckCtx, cat: &Catalog, e: &Expr) -> (r: Type)
    ensures
        (final(ctx)@, r@) == inferred_inner(old(ctx)@, *cat, *e),
    decreases e, 1nat,
{
    match e {
        Expr::IntLit { .. } => Type::Int,
        Expr::FloatLit { .. } => Type::Float,
        Expr::StringLit { .. } => Type::String,
        Expr::BoolLit { .. } => Type::Bool,
        Expr::Array { elements, .. } => Type::Array(
            Box::new(infer_array_elems(ctx, cat, elements)),
        ),
        Expr::AssetRef { .. } => Type::Entity,
        Expr::PrefabRef { path, range } => {
            if !ends_with(path.as_str(), ".brz") {
                ctx.emit(
                    "WS019",
                    cat3("prefab reference `$", path.as_str(), "` must end in `.brz`"),
                    range.clone(),
                );
            }
            Type::Any
        },
        Expr::InterpLit { parts, .. } => {
            infer_interp_parts(ctx, cat, parts);
            Type::String
        },
        Expr::Ident { name, range } => infer_ident(ctx, name, range),
        Expr::Deref { operand, range } => {
            if !ctx.is_exec() {
                ctx.emit(
                    "WS006",
                    cat3(
                        "'*",
                        target_name(operand).as_str(),
                        "' deref requires exec context — use .Value for pure reads",
                    ),
                    range.clone(),
                );
            }
            let t = infer_expr(ctx, cat, operand);
            infer_deref(ctx, operand, t, range)
        },
        Expr::RefOf { operand, .. } => {
            let t = infer_expr(ctx, cat, operand);
            if matches!(t, Type::Ref(_)) {
                t
            } else {
                Type::Ref(Box::new(t))
            }
        },
        Expr::UnOp { op, operand, range } => {
            let t = infer_expr(ctx, cat, operand);
            apply_unary(ctx, cat, op, &t, range)
        },
        Expr::BinOp { op, left, right, range } => {
            let lt = infer_expr(ctx, cat, left);
            let rt = infer_expr(ctx, cat, right);
            apply_binary(ctx, cat, op, &lt, &rt, range)
        },
        Expr::FieldAccess { obj, field, range } => {
            let ot = infer_expr(ctx, cat, obj);
            infer_field(ctx, obj, &ot, field, range)
        },
        Expr::IndexAccess { obj, index, range } => {
            let ot = infer_expr(ctx, cat, obj);
            infer_expr(ctx, cat, index);
            let u = unwrap_ref(&ot);
            infer_index(ctx, obj, &u, range)
        },
        Expr::TuplePick { obj, index, range } => {
            let ot = infer_expr(ctx, cat, obj);
            infer_pick(ctx, &ot, *index, range)
        },
        Expr::Call { callee, args, .. } => {
            infer_call_args(ctx, cat, args);
            match &**callee {
                Expr::Ident { name, range } => match cat.find_call(name.as_str()) {
                    Some(spec_) => {
                        check_exec_call(ctx, spec_, name, args, range);
                        if str_eq(name.as_str(), "Random") {
                            if let Some(t) = infer_random_bound(ctx, cat, args) {
                                return t;
                            }
                        }
                        check_call_args(ctx, cat, spec_, args, range);
                        call_type(spec_)
                    },
                    None => infer_declared_call(ctx, name, args, range),
                },
                Expr::FieldAccess { obj, field, range } => {
                    if let Some(ns) = namespace_name(ctx, obj) {
                        return infer_namespace_call(ctx, ns, field, range);
                    }
                    if let Some(elem) = array_element(ctx, obj) {
                        if cat.find_method(field.as_str()).is_some() {
                            return cat.array_return_type(field.as_str(), &elem);
                        }
                    }
                    if let Some(spec_) = cat.find_call(field.as_str()) {
                        if spec_.receiver.is_some() {
                            let given: usize = count_positional(args);
                            check_arg_count(ctx, spec_, given as u128 + 1, range);
                            if spec_.params.len() > 0 {
                                let t = infer_expr(ctx, cat, obj);
                                check_arg(ctx, cat, &spec_.params[0], &t, obj.range());
                            }
                            check_positional_args(ctx, cat, spec_, args, true);
                            return match call_outputs(spec_) {
                                Some(t) => t,
                                None => Type::Any,
                            };
                        }
                    }
                    check_dangling(ctx, cat, obj, field);
                    Type::Any
                },
                _ => Type::Any,
            }
        },
        Expr::IfExpr { cond, then_branch, else_branch, range } => {
            ctx.note_if(range, false);
            infer_expr(ctx, cat, cond);
            let tt = infer_expr(ctx, cat, then_branch);
            let et = infer_expr(ctx, cat, else_branch);
            if !fits(cat, &tt, &et) {
                ctx.emit(
                    "WS003",
                    cat5(
                        "if-then-else branch type mismatch: then is ",
                        type_str(&tt).as_str(),
                        ", else is ",
                        type_str(&et).as_str(),
                        " (Select output follows else type)",
                    ),
                    range.clone(),
                );
            }
            et
        },
        Expr::BlockExpr { stmts, value, .. } => {
            ctx.push_scope();
            check_stmts(ctx, cat, stmts);
            let t = infer_expr(ctx, cat, value);
            ctx.pop_scope();
            t
        },
        Expr::MatchExpr { scrutinee, arms, .. } => {
            infer_expr(ctx, cat, scrutinee);
            let tys = infer_match_arms(ctx, cat, arms);
            join_arms(tys)
        },
        Expr::RecordLit { fields, .. } => Type::Record(infer_record_fields(ctx, cat, fields)),
    }
}

fn infer_array_elems(ctx: &mut TypeCheckCtx, cat: &Catalog, elements: &Vec<ArrayElem>) -> (r: Type)
    ensures
        (final(ctx)@, r@) == array_elems(old(ctx)@, *cat, elements@, elements@.len()),
    decreases elements@, 0nat,
{
    let mut elem = Type::Any;
    let mut i: usize = 0;
    while i < elements.len()
        invariant
            i <= elements@.len(),
            (ctx@, elem@) == array_elems(old(ctx)@, *cat, elements@, i as nat),
        decreases elements.len() - i,
    {
        let et = match &elements[i] {
            ArrayElem::Item(e) => {
                let t = infer_expr(ctx, cat, e);
                unwrap_ref(&t)
            },
            ArrayElem::Spread(e) => {
                let t = infer_expr(ctx, cat, e);
                match unwrap_ref(&t) {
                    Type::Array(inner) => *inner,
                    other => other,
                }
            },
        };
        if i == 0 {
            elem = et;
        }
        i += 1;
    }
    elem
}

fn infer_interp_parts(ctx: &mut TypeCheckCtx, cat: &Catalog, parts: &Vec<InterpPart>)
    ensures
        final(ctx)@ == interp_parts(old(ctx)@, *cat, parts@, parts@.len()),
    decreases parts@, 0nat,
{
    let mut i: usize = 0;
    while i < parts.len()
        invariant
            i <= parts@.len(),
            ctx@ == interp_parts(old(ctx)@, *cat, parts@, i as nat),
        decreases parts.len() - i,
    {
        match &parts[i] {
            InterpPart::Lit(_) => {},
            InterpPart::Expr(e) => {
                let t = infer_expr(ctx, cat, e);
                let u = unwrap_ref(&t);
                if !fits(cat, &u, &Type::String) {
                    ctx.emit(
                        "WS003",
                        cat2("expected string, got ", type_debug(&u).as_str()),
                        e.range().clone(),
                    );
                }
            },
        }
        i += 1;
    }
}

fn infer_call_args(ctx: &mut TypeCheckCtx, cat: &Catalog, args: &Vec<CallArg>)
    ensures
        final(ctx)@ == call_args(old(ctx)@, *cat, args@, args@.len()),
    decreases args@, 0nat,
{
    let mut i: usize = 0;
    while i < args.len()
        invariant
            i <= args@.len(),
            ctx@ == call_args(old(ctx)@, *cat, args@, i as nat),
        decreases args.len() - i,
    {
        match &args[i] {
            CallArg::Positional(e) => {
                infer_expr(ctx, cat, e);
            },
            CallArg::Named { value, .. } => {
                infer_expr(ctx, cat, value);
            },
            CallArg::Spread(e) => {
                infer_expr(ctx, cat, e);
            },
        }
        i += 1;
    }
}

fn infer_random_bound(ctx: &mut TypeCheckCtx, cat: &Catalog, args: &Vec<CallArg>) -> (r: Option<
    Type,
>)
    ensures
        ({
            let (s, bound) = random_bound(old(ctx)@, *cat, args@, args@.len());
            &&& final(ctx)@ == s
            &&& r is Some <==> bound is Some
            &&& r matches Some(t) ==> bound == Some(t@)
        }),
    decreases args@, 0nat,
{
    let mut found: Option<Type> = None;
    let mut i: usize = 0;
    while i < args.len()
        invariant
            i <= args@.len(),
            ({
                let (s, bound) = random_bound(old(ctx)@, *cat, args@, i as nat);
                &&& ctx@ == s
                &&& found is Some <==> bound is Some
                &&& found matches Some(t) ==> bound == Some(t@)
            }),
        decreases args.len() - i,
    {
        if let CallArg::Positional(e) = &args[i] {
            let t = infer_expr(ctx, cat, e);
            let u = unwrap_ref(&t);
            if found.is_none() && is_componentwise(&u) {
                found = Some(u);
            }
        }
        i += 1;
    }
    found
}

/// Holds the arguments of a built-in call to its parameters: first their
/// number, then the type of each.
fn check_call_args(
    ctx: &mut TypeCheckCtx,
    cat: &Catalog,
    spec_: &CallSpec,
    args: &Vec<CallArg>,
    range: &SourceRange,
)
    ensures
        final(ctx)@ == positional_args(
            counted(old(ctx)@, *spec_, positional_count(args@, args@.len()), range@),
            *cat,
            *spec_,
            args@,
            0,
            args@.len(),
        ),
    decreases args@, 1nat,
{
    let given: usize = count_positional(args);
    check_arg_count(ctx, spec_, given as u128, range);
    check_positional_args(ctx, cat, spec_, args, false);
}

/// Holds positional arguments to the parameters; after a receiver, to those
/// behind the first.
fn check_positional_args(
    ctx: &mut TypeCheckCtx,
    cat: &Catalog,
    spec_: &CallSpec,
    args: &Vec<CallArg>,
    after_receiver: bool,
)
    ensures
        final(ctx)@ == positional_args(
            old(ctx)@,
            *cat,
            *spec_,
            args@,
            if after_receiver {
                1
            } else {
                0
            },
            args@.len(),
        ),
    decreases args@, 0nat,
{
    let ghost offset: nat = if after_receiver {
        1
    } else {
        0
    };
    let mut seen: usize = 0;
    let mut i: usize = 0;
    while i < args.len()
        invariant
            i <= args@.len(),
            seen <= i,
            seen == positional_count(args@, i as nat),
            offset == (if after_receiver {
                1nat
            } else {
                0nat
            }),
            ctx@ == positional_args(old(ctx)@, *cat, *spec_, args@, offset, i as nat),
        decreases args.len() - i,
    {
        if let CallArg::Positional(e) = &args[i] {
            let n: usize = spec_.params.len();
            if after_receiver {
                if n > 0 && seen < n - 1 {
                    let t = infer_expr(ctx, cat, e);
                    check_arg(ctx, cat, &spec_.params[seen + 1], &t, e.range());
                }
            } else if seen < n {
                let t = infer_expr(ctx, cat, e);
                check_arg(ctx, cat, &spec_.params[seen], &t, e.range());
            }
            seen += 1;
        }
        i += 1;
    }
}

fn infer_match_arms(ctx: &mut TypeCheckCtx, cat: &Catalog, arms: &Vec<MatchArm>) -> (r: Vec<Type>)
    ensures
        (final(ctx)@, type_views(r@)) == match_arms(old(ctx)@, *cat, arms@, arms@.len()),
    decreases arms@, 0nat,
{
    let mut tys: Vec<Type> = Vec::new();
    let mut i: usize = 0;
    assert(type_views(tys@) =~= Seq::empty());
    while i < arms.len()
        invariant
            i <= arms@.len(),
            (ctx@, type_views(tys@)) == match_arms(old(ctx)@, *cat, arms@, i as nat),
        decreases arms.len() - i,
    {
        match &arms[i].body {
            MatchBody::Expr(e) => {
                let ghost before = tys@;
                let t = infer_expr(ctx, cat, e);
                tys.push(t);
                assert(type_views(tys@) =~= type_views(before).push(t@));
            },
            MatchBody::Block(_) => {},
        }
        i += 1;
    }
    tys
}

fn infer_record_fields(ctx: &mut TypeCheckCtx, cat: &Catalog, fields: &Vec<RecordLitField>) -> (r:
    Vec<(String, Type)>)
    ensures
        (final(ctx)@, field_views(r@)) == record_fields(
            old(ctx)@,
            *cat,
            fields@,
            fields@.len(),
        ),
    decreases fields@, 0nat,
{
    let mut rec: Vec<(String, Type)> = Vec::new();
    let mut i: usize = 0;
    assert(field_views(rec@) =~= Seq::empty());
    while i < fields.len()
        invariant
            i <= fields@.len(),
            (ctx@, field_views(rec@)) == record_fields(old(ctx)@, *cat, fields@, i as nat),
        decreases fields.len() - i,
    {
        match &fields[i] {
            RecordLitField::Named { name, value, .. } => {
                let t = infer_expr(ctx, cat, value);
                set_field(&mut rec, name, t);
            },
            RecordLitField::Shorthand { name, .. } => {
                let t = infer_shorthand(ctx, name);
                set_field(&mut rec, name, t);
            },
            RecordLitField::Spread { value, .. } => {
                let t = infer_expr(ctx, cat, value);
                if let Type::Record(more) = &t {
                    set_fields(&mut rec, more);
                }
            },
        }
        i += 1;
    }
    rec
}

fn infer_assign_target(ctx: &mut TypeCheckCtx, cat: &Catalog, e: &Expr) -> (r: Type)
    ensures
        (final(ctx)@, r@) == target_type(old(ctx)@, *cat, *e),
    decreases e, 1nat,
{
    match e {
        Expr::Ident { name, range } => {
            if str_eq(name.as_str(), "_") {
                return Type::Any;
            }
            match ctx.symbol(name) {
                None => {
                    ctx.emit(
                        "WS002",
                        cat3("unknown identifier '", name.as_str(), "'"),
                        range.clone(),
                    );
                    Type::Any
                },
                Some(sym) => {
                    let writable = match sym.kind {
                        SymbolKind::Var => true,
                        SymbolKind::Array => true,
                        SymbolKind::LetBinding => true,
                        SymbolKind::Param => matches!(sym.ty, Type::Ref(_)),
                        SymbolKind::In => matches!(sym.ty, Type::Array(_)),
                        _ => false,
                    };
                    if writable {
                        unwrap_ref(&sym.ty)
                    } else {
                        ctx.emit(
                            "WS007",
                            cat3("'", name.as_str(), "' isn't a writable target"),
                            range.clone(),
                        );
                        Type::Any
                    }
                },
            }
        },
        Expr::IndexAccess { obj, index, .. } => {
            let ot = infer_assign_target(ctx, cat, obj);
            infer_expr(ctx, cat, index);
            match ot {
                Type::Array(inner) => *inner,
                _ => Type::Any,
            }
        },
        _ => Type::Any,
    }
}

// ---------- statements ----------

fn check_stmts(ctx: &mut TypeCheckCtx, cat: &Catalog, stmts: &Vec<Stmt>)
    ensures
        final(ctx)@ == checked_stmts(old(ctx)@, *cat, stmts@, stmts@.len()),
    decreases stmts@, 0nat,
{
    let mut i: usize = 0;
    while i < stmts.len()
        invariant
            i <= stmts@.len(),
            ctx@ == checked_stmts(old(ctx)@, *cat, stmts@, i as nat),
        decreases stmts.len() - i,
    {
        check_stmt(ctx, cat, &stmts[i]);
        i += 1;
    }
}

fn check_block(ctx: &mut TypeCheckCtx, cat: &Catalog, block: &Block)
    ensures
        final(ctx)@ == checked_block(old(ctx)@, *cat, *block),
    decreases block, 1nat,
{
    ctx.push_scope();
    check_stmts(ctx, cat, &block.stmts);
    ctx.pop_scope();
}

fn check_anon_chip_stmts(ctx: &mut TypeCheckCtx, cat: &Catalog, stmts: &Vec<Stmt>)
    ensures
        final(ctx)@ == checked_anon(old(ctx)@, *cat, stmts@, stmts@.len()),
    decreases stmts@, 0nat,
{
    let mut i: usize = 0;
    while i < stmts.len()
        invariant
            i <= stmts@.len(),
            ctx@ == checked_anon(old(ctx)@, *cat, stmts@, i as nat),
        decreases stmts.len() - i,
    {
        match &stmts[i] {
            Stmt::Var(v) => check_var(ctx, cat, v),
            Stmt::Buffer(b) => check_buffer(ctx, cat, b),
            Stmt::Array(a) => check_array(ctx, cat, a),
            Stmt::In(_) => {},
            other => check_stmt(ctx, cat, other),
        }
        i += 1;
    }
}

fn inner_of_var(ctx: &TypeCheckCtx, name: &String) -> (r: Type)
    ensures
        r@ == var_inner(ctx@, name@),
{
    match ctx.lookup(name) {
        Some(sym) => match &sym.ty {
            Type::Ref(inner) => (&**inner).clone(),
            _ => Type::Any,
        },
        None => Type::Any,
    }
}

fn finish_init(
    ctx: &mut TypeCheckCtx,
    cat: &Catalog,
    v: &VarDecl,
    inner: &Type,
    t: &Type,
    range: &SourceRange,
)
    ensures
        final(ctx)@ == initialized(old(ctx)@, *cat, *v, inner@, t@, range@),
{
    expect_coerce(ctx, cat, t, inner, range);
    if v.typ.is_none() && matches!(inner, Type::Any) {
        let u = unwrap_ref(t);
        if var_storable(&u) {
            ctx.set_type(&v.name, Type::Ref(Box::new(u)));
        }
    }
}

fn check_assign(ctx: &mut TypeCheckCtx, cat: &Catalog, a: &Assign)
    ensures
        final(ctx)@ == checked_assign(old(ctx)@, *cat, *a),
    decreases a, 1nat,
{
    if !ctx.is_exec() {
        ctx.emit(
            "WS007",
            cat3("var write '", target_name(&a.target).as_str(), "' outside an exec context"),
            a.range.clone(),
        );
    }
    let target = infer_assign_target(ctx, cat, &a.target);
    let value = infer_expr(ctx, cat, &a.value);
    expect_coerce(ctx, cat, &value, &target, a.value.range());
}

fn check_if(ctx: &mut TypeCheckCtx, cat: &Catalog, i: &If)
    ensures
        final(ctx)@ == checked_if(old(ctx)@, *cat, *i),
    decreases i, 1nat,
{
    if !ctx.is_exec() {
        ctx.emit("WS007", owned("'if' statement outside an exec context"), i.range.clone());
    }
    let is_exec = ctx.is_exec();
    ctx.note_if(&i.range, is_exec);
    infer_expr(ctx, cat, &i.cond);
    check_block(ctx, cat, &i.then_block);
    if let Some(b) = &i.else_block {
        check_block(ctx, cat, b);
    }
}

fn payload_type(ctx: &TypeCheckCtx, e: &Expr) -> (r: Type)
    ensures
        r@ == payload_of(ctx@, *e),
{
    match e {
        Expr::Ident { name, .. } => match ctx.signal_payload_types.get(name) {
            Some(t) => t.clone(),
            None => Type::Any,
        },
        _ => Type::Any,
    }
}

fn bind_awaited(
    ctx: &mut TypeCheckCtx,
    fields: &Vec<(String, String)>,
    payload: &Type,
    range: &SourceRange,
)
    ensures
        final(ctx)@ == bound_awaited(old(ctx)@, fields@, payload@, range@, fields@.len()),
{
    let mut i: usize = 0;
    while i < fields.len()
        invariant
            i <= fields@.len(),
            ctx@ == bound_awaited(old(ctx)@, fields@, payload@, range@, i as nat),
        decreases fields.len() - i,
    {
        let f = &fields[i];
        let info = plain_info(
            SymbolKind::LetBinding,
            &f.1,
            field_of(payload, f.0.as_str()),
            range,
        );
        ctx.declare(&f.1, info);
        i += 1;
    }
}

fn check_await(ctx: &mut TypeCheckCtx, cat: &Catalog, a: &AwaitStmt)
    ensures
        final(ctx)@ == checked_await(old(ctx)@, *cat, *a),
    decreases a, 1nat,
{
    if !ctx.is_exec() {
        ctx.emit("WS007", owned("await outside an exec context"), a.range.clone());
    }
    ctx.push_scope();
    let flag = owned("_");
    let info = plain_info(SymbolKind::LetBinding, &flag, Type::Bool, &a.range);
    ctx.declare(&flag, info);
    let exec_ty = infer_expr(ctx, cat, &a.exec_expr);
    ctx.pop_scope();
    let val_ty = match &a.value_expr {
        Some(e) => infer_expr(ctx, cat, e),
        None => exec_ty,
    };
    if let Some(name) = &a.binding {
        let info = plain_info(SymbolKind::LetBinding, name, val_ty, &a.range);
        ctx.declare(name, info);
    }
    if let Some(fields) = &a.destructure {
        let payload = payload_type(ctx, &a.exec_expr);
        bind_awaited(ctx, fields, &payload, &a.range);
    }
}

fn check_emit(ctx: &mut TypeCheckCtx, cat: &Catalog, e: &Emit)
    ensures
        final(ctx)@ == checked_emit(old(ctx)@, *cat, *e),
    decreases e, 1nat,
{
    match &e.value {
        None => {
            if !ctx.is_exec() {
                ctx.emit(
                    "WS007",
                    cat3("emit '", e.name.as_str(), "' outside an exec context"),
                    e.range.clone(),
                );
            }
        },
        Some(value) => {
            let t = infer_expr(ctx, cat, value);
            ctx.note_payload(&e.name, t);
        },
    }
}

fn check_handler(ctx: &mut TypeCheckCtx, cat: &Catalog, h: &Handler)
    ensures
        final(ctx)@ == checked_handler(old(ctx)@, *cat, *h),
    decreases h, 1nat,
{
    ctx.push_scope();
    bind_handler_trigger_params(ctx, cat, h);
    ctx.push_mode(ExecMode::Exec);
    check_block(ctx, cat, &h.body);
    ctx.pop_mode();
    ctx.pop_scope();
}

pub fn check_stmt(ctx: &mut TypeCheckCtx, cat: &Catalog, s: &Stmt)
    ensures
        final(ctx)@ == checked_stmt(old(ctx)@, *cat, *s),
    decreases s, 1nat,
{
    match s {
        Stmt::Var(v) => {
            register_var(ctx, v);
            if let Some(init) = &v.init {
                let inner = inner_of_var(ctx, &v.name);
                let t = infer_expr(ctx, cat, init);
                finish_init(ctx, cat, v, &inner, &t, init.range());
            }
        },
        Stmt::Buffer(b) => {
            register_buffer(ctx, b);
            check_buffer(ctx, cat, b);
        },
        Stmt::Array(a) => {
            register_array(ctx, a);
            check_array(ctx, cat, a);
        },
        Stmt::Let(l) => {
            let t = infer_expr(ctx, cat, &l.value);
            check_let_type_annotation(ctx, cat, l, &t);
            bind_let(ctx, &l.binding, &t);
        },
        Stmt::Assign(a) => check_assign(ctx, cat, a),
        Stmt::OutBinding(b) => {
            if let Some(value) = &b.value {
                infer_expr(ctx, cat, value);
            }
        },
        Stmt::Emit(e) => check_emit(ctx, cat, e),
        Stmt::Await(a) => check_await(ctx, cat, a),
        Stmt::If(i) => check_if(ctx, cat, i),
        Stmt::ExprStmt(es) => {
            infer_expr(ctx, cat, &es.expr);
        },
        Stmt::In(d) => register_in(ctx, d),
        Stmt::Handler(h) => check_handler(ctx, cat, h),
        Stmt::AnonChip(ac) => {
            register_stmts(ctx, &ac.body.stmts);
            check_anon_chip_stmts(ctx, cat, &ac.body.stmts);
        },
        Stmt::ChipDecl(c) => {
            register_chip(ctx, c);
            check_chip(ctx, cat, c);
        },
        Stmt::Callback(c) => {
            register_callback(ctx, c);
            check_callback(ctx, cat, c);
        },
        Stmt::Return { value, range } => {
            if !ctx.is_exec() && value.is_none() {
                ctx.emit(
                    "WS007",
                    owned("'return' (without value) outside an exec context"),
                    range.clone(),
                );
            }
            if let Some(e) = value {
                infer_expr(ctx, cat, e);
            }
        },
    }
}

// ---------- let annotations ----------

fn emit_not_in_type(ctx: &mut TypeCheckCtx, name: &String, want_name: &String, range: &SourceRange)
    ensures
        final(ctx)@ == crate::typecheck::judge::not_in_type(
            old(ctx)@,
            name@,
            want_name@,
            range@,
        ),
{
    ctx.emit(
        "WS003",
        cat4("field '", name.as_str(), "' not in type ", want_name.as_str()),
        range.clone(),
    );
}

fn collect_extras(more: &Vec<(String, Type)>, want: &Vec<(String, Type)>) -> (r: Vec<String>)
    ensures
        texts(r@) == extra_names(field_views(more@), field_views(want@), more@.len()),
{
    let mut out: Vec<String> = Vec::new();
    let mut i: usize = 0;
    assert(texts(out@) =~= Seq::empty());
    while i < more.len()
        invariant
            i <= more@.len(),
            texts(out@) == extra_names(field_views(more@), field_views(want@), i as nat),
        decreases more.len() - i,
    {
        if find_field(want, more[i].0.as_str()).is_none() {
            let ghost before = out@;
            out.push(more[i].0.clone());
            assert(texts(out@) =~= texts(before).push(more@[i as int].0@));
        }
        i += 1;
    }
    out
}

fn report_extras(
    ctx: &mut TypeCheckCtx,
    cat: &Catalog,
    fields: &Vec<RecordLitField>,
    want: &Vec<(String, Type)>,
    want_name: &String,
)
    ensures
        final(ctx)@ == extra_reports(
            old(ctx)@,
            *cat,
            fields@,
            field_views(want@),
            want_name@,
            fields@.len(),
        ),
    decreases fields@, 0nat,
{
    let mut i: usize = 0;
    while i < fields.len()
        invariant
            i <= fields@.len(),
            ctx@ == extra_reports(
                old(ctx)@,
                *cat,
                fields@,
                field_views(want@),
                want_name@,
                i as nat,
            ),
        decreases fields.len() - i,
    {
        match &fields[i] {
            RecordLitField::Named { name, range, .. } => {
                if find_field(want, name.as_str()).is_none() {
                    emit_not_in_type(ctx, name, want_name, range);
                }
            },
            RecordLitField::Shorthand { name, range } => {
                if find_field(want, name.as_str()).is_none() {
                    emit_not_in_type(ctx, name, want_name, range);
                }
            },
            RecordLitField::Spread { value, range } => {
                let t = infer_expr(ctx, cat, value);
                if let Type::Record(more) = &t {
                    let extras = collect_extras(more, want);
                    assert(texts(extras@).len() == extras@.len());
                    if extras.len() > 0 {
                        ctx.emit(
                            "WS003",
                            cat4(
                                "spread introduces fields not in ",
                                want_name.as_str(),
                                ": ",
                                join(&extras, ", ").as_str(),
                            ),
                            range.clone(),
                        );
                    }
                }
            },
        }
        i += 1;
    }
}

fn report_missing(
    ctx: &mut TypeCheckCtx,
    want: &Vec<(String, Type)>,
    have: &Vec<(String, Type)>,
    want_name: &String,
    range: &SourceRange,
)
    ensures
        final(ctx)@ == missing_reports(
            old(ctx)@,
            field_views(want@),
            field_views(have@),
            want_name@,
            range@,
            want@.len(),
        ),
{
    let mut i: usize = 0;
    while i < want.len()
        invariant
            i <= want@.len(),
            ctx@ == missing_reports(
                old(ctx)@,
                field_views(want@),
                field_views(have@),
                want_name@,
                range@,
                i as nat,
            ),
        decreases want.len() - i,
    {
        if find_field(have, want[i].0.as_str()).is_none() {
            ctx.emit(
                "WS003",
                cat4("missing field '", want[i].0.as_str(), "' for type ", want_name.as_str()),
                range.clone(),
            );
        }
        i += 1;
    }
}

fn binding_name(b: &LetBinding) -> (r: String)
    ensures
        r@ == shown_binding(*b),
{
    match b {
        LetBinding::Ident { name, .. } => name.clone(),
        _ => owned("<binding>"),
    }
}

pub fn check_let_type_annotation(ctx: &mut TypeCheckCtx, cat: &Catalog, l: &LetDecl, inferred_ty: &Type)
    ensures
        final(ctx)@ == annotated(old(ctx)@, *cat, *l, inferred_ty@),
    decreases l, 1nat,
{
    if let Some(te) = &l.typ {
        let expected = resolve_type_expr(ctx, te);
        match &l.value {
            Expr::RecordLit { fields, .. } => {
                if let Type::Record(want) = &expected {
                    let want_name = type_expr_str(te);
                    report_extras(ctx, cat, fields, want, &want_name);
                    if let Type::Record(have) = inferred_ty {
                        report_missing(ctx, want, have, &want_name, l.value.range());
                    }
                }
            },
            _ => {
                if !fits(cat, inferred_ty, &expected) {
                    let mut message = cat5(
                        "let '",
                        binding_name(&l.binding).as_str(),
                        "' annotated as ",
                        type_expr_str(te).as_str(),
                        ", but expression has type ",
                    );
                    message.append(type_str(inferred_ty).as_str());
                    ctx.warn("WS016", message, l.range.clone());
                }
            },
        }
    }
}

// ---------- declarations ----------

fn check_baked_element(ctx: &mut TypeCheckCtx, cat: &Catalog, el: &ArrayElem, elem_ty: &Type, t: &Type)
    ensures
        final(ctx)@ == baked_element(old(ctx)@, *cat, *el, elem_ty@, t@),
{
    let e = el.expr();
    if let ArrayElem::Spread(_) = el {
        ctx.emit(
            "WS003",
            owned(
                "spread `...` in an array initializer is only allowed when building the array inside an exec handler",
            ),
            e.range().clone(),
        );
        return ;
    }
    let lit = expr_to_literal(e);
    match &lit {
        Some(Literal::Asset { .. }) | Some(Literal::PrefabRef { .. }) => {
            ctx.warn(
                "WS024",
                owned(
                    "asset / prefab references can't be inlined into an array initializer — they're object references wired in from their own brick. Build the array with `.push(...)` inside an exec handler instead.",
                ),
                e.range().clone(),
            );
        },
        Some(_) => {
            if !matches!(elem_ty, Type::Any) && !fits(cat, t, elem_ty) {
                ctx.emit(
                    "WS003",
                    cat4(
                        "array element: expected ",
                        type_str(elem_ty).as_str(),
                        ", got ",
                        type_str(t).as_str(),
                    ),
                    e.range().clone(),
                );
            }
        },
        None => {
            ctx.emit(
                "WS003",
                owned(
                    "array initializer elements must be constant literals — assign the array inside an exec handler to build it from runtime values",
                ),
                e.range().clone(),
            );
        },
    }
}

fn check_top_level_array_init(
    ctx: &mut TypeCheckCtx,
    cat: &Catalog,
    elements: &Vec<ArrayElem>,
    elem_ty: &Type,
)
    ensures
        final(ctx)@ == baked_elements(
            old(ctx)@,
            *cat,
            elements@,
            elem_ty@,
            elements@.len(),
        ),
    decreases elements@, 0nat,
{
    let mut i: usize = 0;
    while i < elements.len()
        invariant
            i <= elements@.len(),
            ctx@ == baked_elements(old(ctx)@, *cat, elements@, elem_ty@, i as nat),
        decreases elements.len() - i,
    {
        ctx.push_mode(ExecMode::Pure);
        let t = match &elements[i] {
            ArrayElem::Item(e) => infer_expr(ctx, cat, e),
            ArrayElem::Spread(e) => infer_expr(ctx, cat, e),
        };
        ctx.pop_mode();
        check_baked_element(ctx, cat, &elements[i], elem_ty, &t);
        i += 1;
    }
}

fn check_var(ctx: &mut TypeCheckCtx, cat: &Catalog, v: &VarDecl)
    ensures
        final(ctx)@ == checked_var(old(ctx)@, *cat, *v),
    decreases v, 1nat,
{
    if let Some(init) = &v.init {
        let inner = inner_of_var(ctx, &v.name);
        if let Expr::Array { elements, .. } = init {
            ctx.push_mode(ExecMode::Pure);
            infer_expr(ctx, cat, init);
            ctx.pop_mode();
            let elem_ty = match &inner {
                Type::Array(t) => (&**t).clone(),
                _ => Type::Any,
            };
            check_top_level_array_init(ctx, cat, elements, &elem_ty);
        } else {
            ctx.push_mode(ExecMode::Pure);
            let t = infer_expr(ctx, cat, init);
            finish_init(ctx, cat, v, &inner, &t, init.range());
            ctx.pop_mode();
        }
    }
}

fn check_buffer(ctx: &mut TypeCheckCtx, cat: &Catalog, b: &BufferDecl)
    ensures
        final(ctx)@ == checked_buffer(old(ctx)@, *cat, *b),
    decreases b, 1nat,
{
    ctx.push_mode(ExecMode::Pure);
    let t = infer_expr(ctx, cat, &b.init);
    if b.typ.is_none() {
        let u = unwrap_ref(&t);
        ctx.set_type(&b.name, u);
    }
    ctx.pop_mode();
}

fn check_array(ctx: &mut TypeCheckCtx, cat: &Catalog, a: &ArrayDecl)
    ensures
        final(ctx)@ == checked_array(old(ctx)@, *cat, *a),
    decreases a, 1nat,
{
    if a.init.len() > 0 {
        let inner = resolve_type_expr(ctx, &a.element_type);
        check_top_level_array_init(ctx, cat, &a.init, &inner);
    }
}

fn out_hint_text(out: &str, var: &str, ty: &str) -> (r: String)
    ensures
        r@ == out_hint(out@, var@, ty@),
{
    let mut m = cat5("out '", out, "' infers type from var '", var, "' — add explicit type: `out ");
    m.append(out);
    m.append(": ");
    m.append(ty);
    m.append(" = ");
    m.append(var);
    m.append("` for value, or `out ");
    m.append(out);
    m.append(": *");
    m.append(ty);
    m.append(" = ");
    m.append(var);
    m.append("` for ref");
    m
}

fn check_out_annotation(ctx: &mut TypeCheckCtx, b: &OutBinding, value: &Expr)
    ensures
        final(ctx)@ == out_annotated(old(ctx)@, *b, *value),
{
    match &b.typ {
        Some(te) => {
            let ty = resolve_type_expr(ctx, te);
            if let Expr::Ident { range, .. } = value {
                if matches!(ty, Type::Ref(_)) {
                    ctx.forget_read(range);
                }
            }
        },
        None => {
            if let Expr::Ident { name, .. } = value {
                if let Some(sym) = ctx.symbol(name) {
                    if sym.kind == SymbolKind::Var {
                        let ty = type_str(&unwrap_ref(&sym.ty));
                        let message = out_hint_text(b.name.as_str(), name.as_str(), ty.as_str());
                        ctx.warn("WS017", message, b.range.clone());
                    }
                }
            }
        },
    }
}

fn check_out(ctx: &mut TypeCheckCtx, cat: &Catalog, b: &OutBinding)
    ensures
        final(ctx)@ == checked_out(old(ctx)@, *cat, *b),
    decreases b, 1nat,
{
    if let Some(value) = &b.value {
        ctx.push_mode(ExecMode::Pure);
        infer_expr(ctx, cat, value);
        ctx.pop_mode();
        check_out_annotation(ctx, b, value);
    }
}

fn check_fn(ctx: &mut TypeCheckCtx, cat: &Catalog, f: &FnDecl)
    ensures
        final(ctx)@ == checked_fn(old(ctx)@, *cat, *f),
    decreases f, 1nat,
{
    ctx.push_scope();
    bind_fn_params(ctx, &f.params);
    ctx.push_mode(ExecMode::Pure);
    infer_expr(ctx, cat, &f.body);
    ctx.pop_mode();
    ctx.pop_scope();
}

fn check_chip(ctx: &mut TypeCheckCtx, cat: &Catalog, c: &ChipDecl)
    ensures
        final(ctx)@ == checked_chip(old(ctx)@, *cat, *c),
    decreases c, 1nat,
{
    ctx.push_scope();
    bind_params(ctx, &c.inputs);
    ctx.push_mode(ExecMode::Exec);
    check_block(ctx, cat, &c.body);
    ctx.pop_mode();
    check_outputs(ctx, c);
    ctx.pop_scope();
}

fn check_callback(ctx: &mut TypeCheckCtx, cat: &Catalog, c: &Callback)
    ensures
        final(ctx)@ == checked_callback(old(ctx)@, *cat, *c),
    decreases c, 1nat,
{
    ctx.push_scope();
    bind_params(ctx, &c.inputs);
    ctx.push_mode(ExecMode::Exec);
    check_block(ctx, cat, &c.body);
    ctx.pop_mode();
    ctx.pop_scope();
}

fn check_event(ctx: &mut TypeCheckCtx, cat: &Catalog, e: &EventDecl)
    ensures
        final(ctx)@ == checked_event(old(ctx)@, *cat, *e),
    decreases e, 1nat,
{
    match &e.captured_body {
        Some(body) => {
            ctx.push_mode(ExecMode::Exec);
            check_block(ctx, cat, body);
            ctx.pop_mode();
        },
        None => {
            ctx.push_mode(ExecMode::Pure);
            infer_expr(ctx, cat, &e.source);
            ctx.pop_mode();
        },
    }
}

fn check_values(ctx: &mut TypeCheckCtx, cat: &Catalog, decls: &Vec<TopDecl>)
    ensures
        final(ctx)@ == checked_values(old(ctx)@, *cat, decls@, decls@.len()),
    decreases decls@, 0nat,
{
    let mut i: usize = 0;
    while i < decls.len()
        invariant
            i <= decls@.len(),
            ctx@ == checked_values(old(ctx)@, *cat, decls@, i as nat),
        decreases decls.len() - i,
    {
        match &decls[i] {
            TopDecl::Let(_) | TopDecl::Var(_) | TopDecl::Array(_) | TopDecl::Buffer(_) => {
                check_decl(ctx, cat, &decls[i]);
            },
            _ => {},
        }
        i += 1;
    }
}

fn check_bodies(ctx: &mut TypeCheckCtx, cat: &Catalog, decls: &Vec<TopDecl>)
    ensures
        final(ctx)@ == checked_bodies(old(ctx)@, *cat, decls@, decls@.len()),
    decreases decls@, 0nat,
{
    let mut i: usize = 0;
    while i < decls.len()
        invariant
            i <= decls@.len(),
            ctx@ == checked_bodies(old(ctx)@, *cat, decls@, i as nat),
        decreases decls.len() - i,
    {
        match &decls[i] {
            TopDecl::Chip(_) | TopDecl::Fn(_) => {
                check_decl(ctx, cat, &decls[i]);
            },
            _ => {},
        }
        i += 1;
    }
}

pub fn check_decl(ctx: &mut TypeCheckCtx, cat: &Catalog, d: &TopDecl)
    ensures
        final(ctx)@ == checked_decl(old(ctx)@, *cat, *d),
    decreases d, 1nat,
{
    match d {
        TopDecl::Var(v) => check_var(ctx, cat, v),
        TopDecl::Buffer(b) => check_buffer(ctx, cat, b),
        TopDecl::Array(a) => check_array(ctx, cat, a),
        TopDecl::In(_) => {},
        TopDecl::Out(b) => check_out(ctx, cat, b),
        TopDecl::Let(l) => {
            ctx.push_mode(ExecMode::Pure);
            let t = infer_expr(ctx, cat, &l.value);
            ctx.pop_mode();
            check_let_type_annotation(ctx, cat, l, &t);
            bind_let(ctx, &l.binding, &t);
        },
        TopDecl::Fn(f) => check_fn(ctx, cat, f),
        TopDecl::Chip(c) => check_chip(ctx, cat, c),
        TopDecl::Callback(c) => check_callback(ctx, cat, c),
        TopDecl::AnonChip(ac) => check_anon_chip_stmts(ctx, cat, &ac.body.stmts),
        TopDecl::Event(e) => check_event(ctx, cat, e),
        TopDecl::Handler(h) => check_handler(ctx, cat, h),
        TopDecl::ExprStmt(s) => {
            ctx.push_mode(ExecMode::Pure);
            infer_expr(ctx, cat, &s.expr);
            ctx.pop_mode();
        },
        TopDecl::Assign(a) => check_assign(ctx, cat, a),
        TopDecl::If(i) => {
            if !ctx.is_exec() {
                ctx.emit(
                    "WS007",
                    owned("top-level 'if' outside an exec context"),
                    i.range.clone(),
                );
            }
            check_if(ctx, cat, i);
        },
        TopDecl::Namespace(ns) => {
            ctx.push_scope();
            register_all(ctx, &ns.decls);
            check_values(ctx, cat, &ns.decls);
            check_bodies(ctx, cat, &ns.decls);
            ctx.pop_scope();
        },
        TopDecl::Import(_) | TopDecl::TypeAlias(_) | TopDecl::Await(_) => {},
    }
}

// ---------- scripts ----------

fn is_handler_decl(d: &TopDecl) -> (r: bool)
    ensures
        r == holds_handler(*d),
{
    match d {
        TopDecl::Handler(_) => true,
        TopDecl::AnonChip(ac) => {
            let stmts = &ac.body.stmts;
            let mut i: usize = 0;
            while i < stmts.len()
                invariant
                    i <= stmts@.len(),
                    stmts == &ac.body.stmts,
                    d == TopDecl::AnonChip(*ac),
                    forall|k: int| 0 <= k < i ==> !((#[trigger] stmts@[k]) is Handler),
                decreases stmts.len() - i,
            {
                if let Stmt::Handler(_) = &stmts[i] {
                    assert(ac.body.stmts@[i as int] is Handler);
                    return true;
                }
                i += 1;
            }
            false
        },
        _ => false,
    }
}

fn check_wrapped(ctx: &mut TypeCheckCtx, cat: &Catalog, d: &TopDecl, wrap: bool)
    ensures
        final(ctx)@ == if wrap {
            checked_decl(old(ctx)@.push_mode(ExecMode::Exec), *cat, *d).pop_mode()
        } else {
            checked_decl(old(ctx)@, *cat, *d)
        },
{
    if wrap {
        ctx.push_mode(ExecMode::Exec);
        check_decl(ctx, cat, d);
        ctx.pop_mode();
    } else {
        check_decl(ctx, cat, d);
    }
}

/// One pass over the declarations of a script: over the chips, or over
/// everything else.
fn run_pass(ctx: &mut TypeCheckCtx, cat: &Catalog, decls: &Vec<TopDecl>, chips: bool)
    ensures
        final(ctx)@ == if chips {
            chip_pass(old(ctx)@, *cat, decls@, decls@.len())
        } else {
            main_pass(old(ctx)@, *cat, decls@, decls@.len())
        },
{
    let mut seen = false;
    let mut i: usize = 0;
    while i < decls.len()
        invariant
            i <= decls@.len(),
            seen == saw_handler(decls@, i as nat),
            ctx@ == (if chips {
                chip_pass(old(ctx)@, *cat, decls@, i as nat)
            } else {
                main_pass(old(ctx)@, *cat, decls@, i as nat)
            }),
        decreases decls.len() - i,
    {
        let d = &decls[i];
        let is_handler = is_handler_decl(d);
        let is_chip = matches!(d, TopDecl::Chip(_));
        if is_chip == chips {
            check_wrapped(ctx, cat, d, seen && !is_handler);
        }
        if is_handler {
            assert(holds_handler(decls@[i as int]));
            seen = true;
        }
        i += 1;
    }
}

pub struct TypeCheckResult {
    /// Typed every visited expression; key is (file, start_offset, end_offset).
    pub type_of_expr: AssocMap<SpanKey, Type>,
    /// Operator rule chosen for every BinOp/UnOp; same key scheme.
    pub op_resolutions: AssocMap<SpanKey, OpRule>,
    /// Exec/pure context for each `if` node; key is (file, start_offset). true = exec.
    pub if_contexts: AssocMap<PosKey, bool>,
    /// Exec/pure context for each var identifier read; key is (file, start_offset). true = exec.
    pub var_read_contexts: AssocMap<PosKey, bool>,
    pub diagnostics: Vec<Diagnostic>,
}

/// Checks a script against the language tables.
pub fn typecheck(script: &Script, file: &str, cat: &Catalog) -> (r: TypeCheckResult)
    ensures
        r.type_of_expr@ == checked_script(*cat, *script, file@).types,
        r.op_resolutions@ == checked_script(*cat, *script, file@).ops,
        r.if_contexts@ == checked_script(*cat, *script, file@).ifs,
        r.var_read_contexts@ == checked_script(*cat, *script, file@).reads,
        views(r.diagnostics@) == checked_script(*cat, *script, file@).diags,
{
    let mut ctx = TypeCheckCtx::new(file);
    register_builtin_events(&mut ctx, cat);
    register_all(&mut ctx, &script.decls);
    run_pass(&mut ctx, cat, &script.decls, false);
    run_pass(&mut ctx, cat, &script.decls, true);
    TypeCheckResult {
        type_of_expr: ctx.type_of_expr,
        op_resolutions: ctx.op_resolutions,
        if_contexts: ctx.if_contexts,
        var_read_contexts: ctx.var_read_contexts,
        diagnostics: ctx.diagnostics,
    }
}

} // verus!
