//! Calls, bindings and single judgements, as executable steps.

use crate::ast::{
    Block, CallArg, ChipDecl, Expr, Handler, LetBinding, Param, ParamPattern, RecordDestructField,
    Stmt, Trigger, TypeExpr,
};
use crate::catalog::{
    data_views, port_record, CallSpec, Catalog, CoerceRule, EventDataField, EventSpec, ParamSpec,
};
use crate::diagnostic::SourceRange;
use crate::text::{cat2, cat3, cat4, cat5, cat7, dec, dec_wide, owned, str_eq};
use crate::typecheck::ctx::TypeCheckCtx;
use crate::typecheck::register::resolve_type_expr;
use crate::typecheck::rules::{
    arity, argument, array_behind, assigned, binary_code, bound_any, bound_event_params,
    bound_fields, bound_fn_params, bound_let, bound_param, bound_param_tuple, bound_params,
    bound_record, bound_trigger, bound_tuple, builtin_type, coerced, componentwise, counted,
    dangling, declared_above, declared_call, declared_result, deref_rule, exec_call, field_rule,
    has_exec_arg, has_spread, ident_rule, index_rule, is_component, is_exec_arg, match_type,
    names_namespace, namespace_call, operated, output_record, outputs_checked, outputs_type,
    pick_rule, positional_count, put_field, put_fields, required_count, returns_value,
    shorthand_type, shown_target, trigger_name, triggers, unary_code, unary_key,
    unassigned_reports, var_named,
};
use crate::typecheck::scope::{plain_info, SymbolInfo, SymbolKind};
use crate::types::{
    field_of, field_views, find_field, group_type_views, same_kind, type_debug, type_views, unref,
    unwrap_ref, Fields, Type, TypeView,
};
use vstd::prelude::*;
use vstd::string::*;

verus! {

broadcast use crate::types::group_type_views;

pub fn fits(cat: &Catalog, from: &Type, to: &Type) -> (r: bool)
    ensures
        r == cat.fits(from@, to@),
{
    match cat.coerce(from, to) {
        CoerceRule::Mismatch => false,
        _ => true,
    }
}

pub fn expect_coerce(
    ctx: &mut TypeCheckCtx,
    cat: &Catalog,
    from: &Type,
    to: &Type,
    range: &SourceRange,
)
    ensures
        final(ctx)@ == coerced(old(ctx)@, *cat, from@, to@, range@),
{
    if !fits(cat, from, to) {
        ctx.emit(
            "WS003",
            cat4("expected ", type_debug(to).as_str(), ", got ", type_debug(from).as_str()),
            range.clone(),
        );
    }
}

/// The name written where a target is wanted.
pub fn target_name(e: &Expr) -> (r: String)
    ensures
        r@ == shown_target(*e),
{
    match e {
        Expr::Ident { name, .. } => name.clone(),
        _ => owned("<expr>"),
    }
}

fn is_bitwise(op: &str) -> (r: bool)
    ensures
        r == (op@ == "&"@ || op@ == "|"@ || op@ == "^"@ || op@ == "<<"@ || op@ == ">>"@),
{
    str_eq(op, "&") || str_eq(op, "|") || str_eq(op, "^") || str_eq(op, "<<") || str_eq(op, ">>")
}

fn apply_rule(
    ctx: &mut TypeCheckCtx,
    cat: &Catalog,
    key: &str,
    operands: Vec<Type>,
    code: &str,
    message: String,
    range: &SourceRange,
) -> (r: Type)
    ensures
        (final(ctx)@, r@) == operated(
            old(ctx)@,
            *cat,
            key@,
            type_views(operands@),
            code@,
            message@,
            range@,
        ),
{
    match cat.resolve_op(key, &operands) {
        Some(rule) => {
            ctx.note_op(range, rule.clone());
            rule.result.clone()
        },
        None => {
            ctx.emit(code, message, range.clone());
            Type::Any
        },
    }
}

pub fn apply_unary(ctx: &mut TypeCheckCtx, cat: &Catalog, op: &String, t: &Type, range: &SourceRange) -> (r:
    Type)
    ensures
        (final(ctx)@, r@) == operated(
            old(ctx)@,
            *cat,
            unary_key(op@),
            seq![unref(t@)],
            unary_code(op@),
            "no overload for '"@ + op@ + "' on "@ + crate::types::debug_text(t@),
            range@,
        ),
{
    let key = if str_eq(op.as_str(), "-") {
        "-u"
    } else {
        op.as_str()
    };
    let code = if is_bitwise(op.as_str()) || str_eq(op.as_str(), "~") {
        "WS011"
    } else {
        "WS004"
    };
    let mut operands: Vec<Type> = Vec::new();
    operands.push(unwrap_ref(t));
    assert(type_views(operands@) =~= seq![unref(t@)]);
    let message = cat4("no overload for '", op.as_str(), "' on ", type_debug(t).as_str());
    apply_rule(ctx, cat, key, operands, code, message, range)
}

pub fn apply_binary(
    ctx: &mut TypeCheckCtx,
    cat: &Catalog,
    op: &String,
    lt: &Type,
    rt: &Type,
    range: &SourceRange,
) -> (r: Type)
    ensures
        (final(ctx)@, r@) == operated(
            old(ctx)@,
            *cat,
            op@,
            seq![unref(lt@), unref(rt@)],
            binary_code(op@),
            "no overload for '"@ + op@ + "' on "@ + crate::types::debug_text(lt@) + ", "@
                + crate::types::debug_text(rt@),
            range@,
        ),
{
    let code = if is_bitwise(op.as_str()) {
        "WS011"
    } else {
        "WS004"
    };
    let mut operands: Vec<Type> = Vec::new();
    operands.push(unwrap_ref(lt));
    operands.push(unwrap_ref(rt));
    assert(type_views(operands@) =~= seq![unref(lt@), unref(rt@)]);
    let mut message = cat4("no overload for '", op.as_str(), "' on ", type_debug(lt).as_str());
    message.append(", ");
    message.append(type_debug(rt).as_str());
    apply_rule(ctx, cat, op.as_str(), operands, code, message, range)
}

pub fn infer_ident(ctx: &mut TypeCheckCtx, name: &String, range: &SourceRange) -> (r: Type)
    ensures
        (final(ctx)@, r@) == ident_rule(old(ctx)@, name@, range@),
{
    match ctx.symbol(name) {
        None => {
            ctx.emit("WS002", cat3("unknown identifier '", name.as_str(), "'"), range.clone());
            Type::Any
        },
        Some(sym) => match sym.kind {
            SymbolKind::Event => Type::Exec,
            SymbolKind::Fn => Type::Any,
            SymbolKind::Chip => Type::Any,
            SymbolKind::Var => {
                let is_exec = ctx.is_exec();
                ctx.note_read(range, is_exec);
                unwrap_ref(&sym.ty)
            },
            _ => sym.ty,
        },
    }
}

fn component(t: &Type, field: &str) -> (r: bool)
    ensures
        r == is_component(t@, field@),
{
    match t {
        Type::Vector => str_eq(field, "x") || str_eq(field, "X") || str_eq(field, "y") || str_eq(
            field,
            "Y",
        ) || str_eq(field, "z") || str_eq(field, "Z"),
        Type::Color => str_eq(field, "r") || str_eq(field, "R") || str_eq(field, "g") || str_eq(
            field,
            "G",
        ) || str_eq(field, "b") || str_eq(field, "B") || str_eq(field, "a") || str_eq(field, "A"),
        Type::Rotator => str_eq(field, "pitch") || str_eq(field, "yaw") || str_eq(field, "roll"),
        _ => false,
    }
}

fn named_var(ctx: &TypeCheckCtx, e: &Expr) -> (r: Option<Type>)
    ensures
        r is Some <==> var_named(ctx@, *e) is Some,
        r matches Some(t) ==> var_named(ctx@, *e) == Some(t@),
{
    if let Expr::Ident { name, .. } = e {
        if let Some(sym) = ctx.lookup(name) {
            if let Type::Ref(inner) = &sym.ty {
                if sym.kind == SymbolKind::Var {
                    return Some((&**inner).clone());
                }
            }
        }
    }
    None
}

pub fn infer_field(
    ctx: &mut TypeCheckCtx,
    obj: &Expr,
    ot: &Type,
    field: &String,
    range: &SourceRange,
) -> (r: Type)
    ensures
        (final(ctx)@, r@) == field_rule(old(ctx)@, *obj, ot@, field@, range@),
{
    let f = field.as_str();
    let reads = str_eq(f, "Value") || str_eq(f, "prev");
    if reads {
        if let Some(t) = named_var(ctx, obj) {
            return t;
        }
    }
    if let Type::Ref(inner) = ot {
        if reads {
            return (&**inner).clone();
        }
        if str_eq(f, "VarRef") {
            return ot.clone();
        }
    }
    if str_eq(f, "value") || str_eq(f, "Value") {
        return unwrap_ref(ot);
    }
    if let Type::Record(fields) = ot {
        if let Some(t) = find_field(fields, f) {
            return t.clone();
        }
        ctx.emit(
            "WS010",
            cat4("no field '", f, "' on ", type_debug(ot).as_str()),
            range.clone(),
        );
        return Type::Any;
    }
    if component(ot, f) {
        Type::Float
    } else {
        Type::Any
    }
}

pub fn infer_index(ctx: &mut TypeCheckCtx, obj: &Expr, ot: &Type, range: &SourceRange) -> (r: Type)
    ensures
        (final(ctx)@, r@) == index_rule(old(ctx)@, *obj, ot@, range@),
{
    match ot {
        Type::Array(inner) => {
            if !ctx.is_exec() {
                ctx.emit(
                    "WS007",
                    cat3(
                        "array index read '",
                        target_name(obj).as_str(),
                        "[...]' outside an exec context",
                    ),
                    range.clone(),
                );
            }
            (&**inner).clone()
        },
        _ => Type::Any,
    }
}

pub fn infer_pick(ctx: &mut TypeCheckCtx, ot: &Type, index: usize, range: &SourceRange) -> (r: Type)
    ensures
        (final(ctx)@, r@) == pick_rule(old(ctx)@, ot@, index as nat, range@),
{
    match ot {
        Type::Tuple(fields) => {
            if index < fields.len() {
                fields[index].clone()
            } else {
                ctx.emit(
                    "WS010",
                    cat3("tuple index .", dec(index).as_str(), " out of range"),
                    range.clone(),
                );
                Type::Any
            }
        },
        Type::Record(fields) => {
            if index < fields.len() {
                fields[index].1.clone()
            } else {
                Type::Any
            }
        },
        _ => Type::Any,
    }
}

pub fn infer_deref(ctx: &mut TypeCheckCtx, operand: &Expr, t: Type, range: &SourceRange) -> (r: Type)
    ensures
        (final(ctx)@, r@) == deref_rule(old(ctx)@, *operand, t@, range@),
{
    if ctx.is_exec() {
        if let Some(inner) = named_var(ctx, operand) {
            return inner;
        }
    }
    match &t {
        Type::Ref(inner) => (&**inner).clone(),
        Type::Any => Type::Any,
        _ => {
            ctx.emit(
                "WS003",
                cat2("expected ref T, got ", type_debug(&t).as_str()),
                range.clone(),
            );
            Type::Any
        },
    }
}

pub fn join_arms(tys: Vec<Type>) -> (r: Type)
    ensures
        r@ == match_type(type_views(tys@)),
{
    let ghost all = type_views(tys@);
    if tys.len() == 0 {
        return Type::Any;
    }
    let mut i: usize = 0;
    while i < tys.len()
        invariant
            i <= tys@.len(),
            tys@.len() > 0,
            all == type_views(tys@),
            forall|k: int|
                0 <= k < i ==> crate::types::kind_index(#[trigger] all[k])
                    == crate::types::kind_index(all[0]),
        decreases tys.len() - i,
    {
        if !same_kind(&tys[i], &tys[0]) {
            assert(crate::types::kind_index(all[i as int]) != crate::types::kind_index(all[0]));
            return Type::Union(tys);
        }
        i += 1;
    }
    tys[0].clone()
}

proof fn lemma_put_in_place(fields: Fields, name: Seq<char>, ty: TypeView, i: int)
    requires
        0 <= i < fields.len(),
        fields[i].0 == name,
        forall|k: int| 0 <= k < i ==> fields[k].0 != name,
    ensures
        put_field(fields, name, ty) == fields.update(i, (name, ty)),
    decreases fields.len(),
{
    if i == 0 {
        assert(put_field(fields, name, ty) =~= fields.update(0, (name, ty)));
    } else {
        let rest = fields.drop_first();
        lemma_put_in_place(rest, name, ty, i - 1);
        assert(fields[0].0 != name);
        assert(put_field(fields, name, ty) =~= fields.update(i, (name, ty)));
    }
}

proof fn lemma_put_at_end(fields: Fields, name: Seq<char>, ty: TypeView)
    requires
        forall|k: int| 0 <= k < fields.len() ==> fields[k].0 != name,
    ensures
        put_field(fields, name, ty) == fields.push((name, ty)),
    decreases fields.len(),
{
    if fields.len() == 0 {
        assert(put_field(fields, name, ty) =~= fields.push((name, ty)));
    } else {
        let rest = fields.drop_first();
        assert forall|k: int| 0 <= k < rest.len() implies rest[k].0 != name by {
            assert(rest[k] == fields[k + 1]);
        }
        lemma_put_at_end(rest, name, ty);
        assert(fields[0].0 != name);
        assert(put_field(fields, name, ty) =~= fields.push((name, ty)));
    }
}

/// Sets a field: in place if it is there, else at the end.
pub fn set_field(fields: &mut Vec<(String, Type)>, name: &String, ty: Type)
    ensures
        field_views(final(fields)@) == put_field(field_views(old(fields)@), name@, ty@),
{
    let ghost before = field_views(fields@);
    let mut i: usize = 0;
    while i < fields.len()
        invariant
            i <= fields@.len(),
            before == field_views(fields@),
            before == field_views(old(fields)@),
            forall|k: int| 0 <= k < i ==> before[k].0 != name@,
        decreases fields.len() - i,
    {
        if str_eq(fields[i].0.as_str(), name.as_str()) {
            let ghost t = ty@;
            proof {
                lemma_put_in_place(before, name@, t, i as int);
            }
            fields[i].1 = ty;
            assert(field_views(fields@) =~= before.update(i as int, (name@, t)));
            return ;
        }
        i += 1;
    }
    let ghost t = ty@;
    proof {
        lemma_put_at_end(before, name@, t);
    }
    fields.push((name.clone(), ty));
    assert(field_views(fields@) =~= before.push((name@, t)));
}

pub fn set_fields(fields: &mut Vec<(String, Type)>, more: &Vec<(String, Type)>)
    ensures
        field_views(final(fields)@) == put_fields(
            field_views(old(fields)@),
            field_views(more@),
            more@.len(),
        ),
{
    let mut i: usize = 0;
    while i < more.len()
        invariant
            i <= more@.len(),
            field_views(fields@) == put_fields(
                field_views(old(fields)@),
                field_views(more@),
                i as nat,
            ),
        decreases more.len() - i,
    {
        set_field(fields, &more[i].0, more[i].1.clone());
        i += 1;
    }
}

pub fn infer_shorthand(ctx: &TypeCheckCtx, name: &String) -> (r: Type)
    ensures
        r@ == shorthand_type(ctx@, name@),
{
    match ctx.lookup(name) {
        Some(sym) => sym.ty.clone(),
        None => Type::Any,
    }
}

// ---------- calls ----------

pub fn count_positional(args: &Vec<CallArg>) -> (r: usize)
    ensures
        r == positional_count(args@, args@.len()),
        r <= args@.len(),
{
    let mut count: usize = 0;
    let mut i: usize = 0;
    while i < args.len()
        invariant
            i <= args@.len(),
            count <= i,
            count == positional_count(args@, i as nat),
        decreases args.len() - i,
    {
        if let CallArg::Positional(_) = &args[i] {
            count += 1;
        }
        i += 1;
    }
    count
}

fn exec_arg_given(args: &Vec<CallArg>) -> (r: bool)
    ensures
        r == has_exec_arg(args@),
{
    let mut i: usize = 0;
    while i < args.len()
        invariant
            i <= args@.len(),
            forall|k: int| 0 <= k < i ==> !is_exec_arg(#[trigger] args@[k]),
        decreases args.len() - i,
    {
        if let CallArg::Named { name, .. } = &args[i] {
            if str_eq(name.as_str(), "exec") {
                assert(is_exec_arg(args@[i as int]));
                return true;
            }
        }
        i += 1;
    }
    false
}

fn spread_given(args: &Vec<CallArg>) -> (r: bool)
    ensures
        r == has_spread(args@),
{
    let mut i: usize = 0;
    while i < args.len()
        invariant
            i <= args@.len(),
            forall|k: int| 0 <= k < i ==> !((#[trigger] args@[k]) is Spread),
        decreases args.len() - i,
    {
        if let CallArg::Spread(_) = &args[i] {
            assert(args@[i as int] is Spread);
            return true;
        }
        i += 1;
    }
    false
}

fn count_required(params: &Vec<ParamSpec>) -> (r: usize)
    ensures
        r == required_count(params@, params@.len()),
{
    let mut count: usize = 0;
    let mut i: usize = 0;
    while i < params.len()
        invariant
            i <= params@.len(),
            count <= i,
            count == required_count(params@, i as nat),
        decreases params.len() - i,
    {
        if !params[i].optional {
            count += 1;
        }
        i += 1;
    }
    count
}

fn plural_of(n: usize, one: &'static str, many: &'static str) -> (r: &'static str)
    ensures
        r@ == crate::text::plural(n as nat, one@, many@),
{
    if n == 1 {
        one
    } else {
        many
    }
}

pub fn check_arg_count(ctx: &mut TypeCheckCtx, spec_: &CallSpec, given: u128, range: &SourceRange)
    ensures
        final(ctx)@ == counted(old(ctx)@, *spec_, given as nat, range@),
{
    let most: usize = spec_.params.len();
    let least: usize = count_required(&spec_.params);
    if given > most as u128 {
        let mut message = cat5(
            "'",
            spec_.name.as_str(),
            "' expects at most ",
            dec(most).as_str(),
            " positional arg",
        );
        message.append(plural_of(most, "", "s"));
        message.append(", got ");
        message.append(dec_wide(given).as_str());
        ctx.emit("WS011", message, range.clone());
    } else if given < least as u128 {
        let mut message = cat5(
            "'",
            spec_.name.as_str(),
            "' requires ",
            dec(least).as_str(),
            " arg",
        );
        message.append(plural_of(least, "", "s"));
        message.append(", got ");
        message.append(dec_wide(given).as_str());
        ctx.emit("WS011", message, range.clone());
    }
}

pub fn check_arg(ctx: &mut TypeCheckCtx, cat: &Catalog, p: &ParamSpec, t: &Type, range: &SourceRange)
    ensures
        final(ctx)@ == argument(old(ctx)@, *cat, *p, t@, range@),
{
    let u = unwrap_ref(t);
    if !fits(cat, &u, &p.ty) {
        let mut message = cat5(
            "argument '",
            p.name.as_str(),
            "': expected ",
            type_debug(&p.ty).as_str(),
            ", got ",
        );
        message.append(type_debug(&u).as_str());
        ctx.emit("WS003", message, range.clone());
    }
}

pub fn call_outputs(spec_: &CallSpec) -> (r: Option<Type>)
    ensures
        r is Some <==> outputs_type(*spec_) is Some,
        r matches Some(t) ==> outputs_type(*spec_) == Some(t@),
{
    if spec_.outputs.len() == 1 {
        Some(spec_.outputs[0].ty.clone())
    } else if spec_.outputs.len() > 1 {
        Some(port_record(&spec_.outputs))
    } else {
        None
    }
}

pub fn call_type(spec_: &CallSpec) -> (r: Type)
    ensures
        r@ == builtin_type(*spec_),
{
    match call_outputs(spec_) {
        Some(t) => t,
        None => {
            if spec_.needs_exec || spec_.params.len() == 0 {
                Type::Any
            } else {
                spec_.params[0].ty.clone()
            }
        },
    }
}

pub fn check_exec_call(
    ctx: &mut TypeCheckCtx,
    spec_: &CallSpec,
    name: &String,
    args: &Vec<CallArg>,
    range: &SourceRange,
)
    ensures
        final(ctx)@ == exec_call(old(ctx)@, *spec_, name@, args@, range@),
{
    if spec_.needs_exec && !ctx.is_exec() && !exec_arg_given(args) {
        ctx.emit(
            "WS007",
            cat3(
                "exec call '",
                name.as_str(),
                "' outside an exec context (pass exec = ... to override)",
            ),
            range.clone(),
        );
    }
}

pub fn is_componentwise(t: &Type) -> (r: bool)
    ensures
        r == componentwise(t@),
{
    matches!(t, Type::Vector | Type::Color | Type::Rotator | Type::Quat)
}

fn check_declared_above(
    ctx: &mut TypeCheckCtx,
    sym: &SymbolInfo,
    name: &String,
    range: &SourceRange,
)
    ensures
        final(ctx)@ == declared_above(old(ctx)@, sym@, name@, range@),
{
    let before = range.start.line < sym.decl_range.start.line || (range.start.line
        == sym.decl_range.start.line && range.start.col < sym.decl_range.start.col);
    if sym.kind == SymbolKind::Chip && sym.signature.is_some() && str_eq(
        sym.decl_range.file.as_str(),
        range.file.as_str(),
    ) && before {
        ctx.emit(
            "WS021",
            cat3(
                "call to `",
                name.as_str(),
                "` before its declaration — chips and mods must be declared before the point where they are used (move the declaration above its first caller)",
            ),
            range.clone(),
        );
    }
}

fn check_arity(
    ctx: &mut TypeCheckCtx,
    sym: &SymbolInfo,
    name: &String,
    args: &Vec<CallArg>,
    range: &SourceRange,
)
    ensures
        final(ctx)@ == arity(old(ctx)@, sym@, name@, args@, range@),
{
    if let Some(sig) = &sym.signature {
        let given: usize = count_positional(args);
        let expected: usize = sig.params.len();
        assert(sig@.params.len() == expected);
        if !spread_given(args) && given != expected {
            let mut message = cat5(
                "`",
                name.as_str(),
                "` expects ",
                dec(expected).as_str(),
                " argument",
            );
            message.append(plural_of(expected, "", "s"));
            message.append(" but ");
            message.append(dec(given).as_str());
            message.append(" ");
            message.append(plural_of(given, "was", "were"));
            message.append(" given");
            ctx.emit("WS022", message, range.clone());
        }
    }
}

fn record_of_outputs(outs: &Vec<EventDataField>) -> (r: Vec<(String, Type)>)
    ensures
        field_views(r@) == output_record(data_views(outs@)),
{
    let mut fields: Vec<(String, Type)> = Vec::new();
    let mut i: usize = 0;
    while i < outs.len()
        invariant
            i <= outs@.len(),
            fields@.len() == i,
            forall|k: int|
                0 <= k < i ==> (#[trigger] fields@[k]).0@ == outs@[k].name@ && fields@[k].1@
                    == outs@[k].ty@,
        decreases outs.len() - i,
    {
        fields.push((outs[i].name.clone(), outs[i].ty.clone()));
        i += 1;
    }
    assert(field_views(fields@) =~= output_record(data_views(outs@)));
    fields
}

fn result_of(sym: &SymbolInfo, args: &Vec<CallArg>) -> (r: Type)
    ensures
        r@ == declared_result(sym@, args@),
{
    match &sym.signature {
        None => Type::Any,
        Some(sig) => {
            assert(sig@.outputs.len() == sig.outputs@.len());
            let triggered = exec_arg_given(args);
            if sig.outputs.len() == 1 && !triggered {
                return sig.outputs[0].ty.clone();
            }
            if sig.outputs.len() == 0 {
                return Type::Any;
            }
            let mut fields = record_of_outputs(&sig.outputs);
            let ghost before = field_views(fields@);
            if triggered && find_field(&fields, "exec").is_none() {
                fields.push((owned("exec"), Type::Exec));
                assert(field_views(fields@) =~= before.push(("exec"@, TypeView::Exec)));
            }
            Type::Record(fields)
        },
    }
}

pub fn infer_declared_call(
    ctx: &mut TypeCheckCtx,
    name: &String,
    args: &Vec<CallArg>,
    range: &SourceRange,
) -> (r: Type)
    ensures
        (final(ctx)@, r@) == declared_call(old(ctx)@, name@, args@, range@),
{
    match ctx.symbol(name) {
        None => {
            ctx.emit("WS002", cat3("unknown identifier '", name.as_str(), "'"), range.clone());
            Type::Any
        },
        Some(sym) => {
            check_declared_above(ctx, &sym, name, range);
            check_arity(ctx, &sym, name, args, range);
            result_of(&sym, args)
        },
    }
}

pub fn namespace_name<'a>(ctx: &TypeCheckCtx, obj: &'a Expr) -> (r: Option<&'a String>)
    ensures
        r is Some <==> names_namespace(ctx@, *obj),
        r matches Some(n) ==> obj is Ident && n@ == (*obj)->Ident_name@,
{
    match obj {
        Expr::Ident { name, .. } => match ctx.lookup(name) {
            Some(sym) => {
                if sym.kind == SymbolKind::Namespace {
                    Some(name)
                } else {
                    None
                }
            },
            None => None,
        },
        _ => None,
    }
}

pub fn infer_namespace_call(
    ctx: &mut TypeCheckCtx,
    ns: &String,
    field: &String,
    range: &SourceRange,
) -> (r: Type)
    ensures
        (final(ctx)@, r@) == namespace_call(old(ctx)@, ns@, field@, range@),
{
    let mut found = false;
    let mut is_chip = false;
    let mut ret: Option<TypeExpr> = None;
    if let Some(members) = ctx.namespaces.get(ns) {
        if let Some(info) = members.get(field) {
            found = true;
            is_chip = info.kind == SymbolKind::Chip;
            ret = match &info.return_type {
                Some(t) => Some(t.clone()),
                None => None,
            };
        }
    }
    if !found {
        ctx.emit(
            "WS002",
            cat5("'", field.as_str(), "' not found in namespace '", ns.as_str(), "'"),
            range.clone(),
        );
        return Type::Any;
    }
    if is_chip {
        return Type::Any;
    }
    match &ret {
        Some(t) => resolve_type_expr(ctx, t),
        None => Type::Any,
    }
}

pub fn array_element(ctx: &TypeCheckCtx, obj: &Expr) -> (r: Option<Type>)
    ensures
        r is Some <==> array_behind(ctx@, *obj) is Some,
        r matches Some(t) ==> array_behind(ctx@, *obj) == Some(t@),
{
    match obj {
        Expr::Ident { name, .. } => match ctx.lookup(name) {
            Some(sym) => {
                let u = unwrap_ref(&sym.ty);
                match u {
                    Type::Array(inner) => Some(*inner),
                    _ => {
                        if sym.kind == SymbolKind::Array {
                            Some(Type::Any)
                        } else {
                            None
                        }
                    },
                }
            },
            None => None,
        },
        _ => None,
    }
}

pub fn check_dangling(ctx: &mut TypeCheckCtx, cat: &Catalog, obj: &Expr, field: &String)
    ensures
        final(ctx)@ == dangling(old(ctx)@, *cat, *obj, field@),
{
    if let Expr::Ident { name, range } = obj {
        if ctx.lookup(name).is_none() && cat.find_call(name.as_str()).is_none() {
            let mut message = cat7(
                "unknown identifier '",
                name.as_str(),
                "' in call `",
                name.as_str(),
                ".",
                field.as_str(),
                "(...)` — no namespace, variable, or value named '",
            );
            message.append(name.as_str());
            message.append("' is in scope (is an import missing?)");
            ctx.emit("WS002", message, range.clone());
        }
    }
}

// ---------- bindings ----------

fn bind_tuple(ctx: &mut TypeCheckCtx, names: &Vec<String>, tys: &Vec<Type>, range: &SourceRange)
    requires
        names@.len() == tys@.len(),
    ensures
        final(ctx)@ == bound_tuple(
            old(ctx)@,
            names@,
            type_views(tys@),
            range@,
            names@.len(),
        ),
{
    let mut i: usize = 0;
    while i < names.len()
        invariant
            i <= names@.len(),
            names@.len() == tys@.len(),
            ctx@ == bound_tuple(old(ctx)@, names@, type_views(tys@), range@, i as nat),
        decreases names.len() - i,
    {
        let info = plain_info(SymbolKind::LetBinding, &names[i], tys[i].clone(), range);
        ctx.declare(&names[i], info);
        i += 1;
    }
}

fn bind_any(ctx: &mut TypeCheckCtx, names: &Vec<String>, range: &SourceRange)
    ensures
        final(ctx)@ == bound_any(old(ctx)@, names@, range@, names@.len()),
{
    let mut i: usize = 0;
    while i < names.len()
        invariant
            i <= names@.len(),
            ctx@ == bound_any(old(ctx)@, names@, range@, i as nat),
        decreases names.len() - i,
    {
        let info = plain_info(SymbolKind::LetBinding, &names[i], Type::Any, range);
        ctx.declare(&names[i], info);
        i += 1;
    }
}

fn bind_record(ctx: &mut TypeCheckCtx, names: &Vec<String>, t: &Type, range: &SourceRange)
    ensures
        final(ctx)@ == bound_record(old(ctx)@, names@, t@, range@, names@.len()),
{
    let mut i: usize = 0;
    while i < names.len()
        invariant
            i <= names@.len(),
            ctx@ == bound_record(old(ctx)@, names@, t@, range@, i as nat),
        decreases names.len() - i,
    {
        let info = plain_info(
            SymbolKind::LetBinding,
            &names[i],
            field_of(t, names[i].as_str()),
            range,
        );
        ctx.declare(&names[i], info);
        i += 1;
    }
}

fn bind_fields(
    ctx: &mut TypeCheckCtx,
    kind: SymbolKind,
    fields: &Vec<RecordDestructField>,
    t: &Type,
    range: &SourceRange,
)
    ensures
        final(ctx)@ == bound_fields(old(ctx)@, kind, fields@, t@, range@, fields@.len()),
{
    let mut i: usize = 0;
    while i < fields.len()
        invariant
            i <= fields@.len(),
            ctx@ == bound_fields(old(ctx)@, kind, fields@, t@, range@, i as nat),
        decreases fields.len() - i,
    {
        match &fields[i] {
            RecordDestructField::Named { name, alias, .. } => {
                let bind_name = match alias {
                    Some(a) => a,
                    None => name,
                };
                let info = plain_info(kind, bind_name, field_of(t, name.as_str()), range);
                ctx.declare(bind_name, info);
            },
            RecordDestructField::Rest { name, .. } => {
                let info = plain_info(kind, name, Type::Any, range);
                ctx.declare(name, info);
            },
        }
        i += 1;
    }
}

pub fn bind_let(ctx: &mut TypeCheckCtx, b: &LetBinding, t: &Type)
    ensures
        final(ctx)@ == bound_let(old(ctx)@, *b, t@),
{
    match b {
        LetBinding::Ident { name, range } => {
            let info = plain_info(SymbolKind::LetBinding, name, t.clone(), range);
            ctx.declare(name, info);
        },
        LetBinding::Tuple { names, range, .. } => {
            if let Type::Tuple(tys) = t {
                assert(type_views(tys@).len() == tys@.len());
                if tys.len() == names.len() {
                    bind_tuple(ctx, names, tys, range);
                    return ;
                }
            }
            ctx.emit(
                "WS010",
                cat4(
                    "destructure shape: expected tuple[",
                    dec(names.len()).as_str(),
                    "], got ",
                    type_debug(t).as_str(),
                ),
                range.clone(),
            );
            bind_any(ctx, names, range);
        },
        LetBinding::Record { names, range } => bind_record(ctx, names, t, range),
        LetBinding::RecordDestruct { fields, range } => bind_fields(
            ctx,
            SymbolKind::LetBinding,
            fields,
            t,
            range,
        ),
    }
}

fn bind_param_tuple(ctx: &mut TypeCheckCtx, names: &Vec<String>, t: &Type, range: &SourceRange)
    ensures
        final(ctx)@ == bound_param_tuple(old(ctx)@, names@, t@, range@, names@.len()),
{
    let mut i: usize = 0;
    while i < names.len()
        invariant
            i <= names@.len(),
            ctx@ == bound_param_tuple(old(ctx)@, names@, t@, range@, i as nat),
        decreases names.len() - i,
    {
        let ty = match t {
            Type::Tuple(tys) => {
                if i < tys.len() {
                    tys[i].clone()
                } else {
                    Type::Any
                }
            },
            _ => Type::Any,
        };
        let info = plain_info(SymbolKind::Param, &names[i], ty, range);
        ctx.declare(&names[i], info);
        i += 1;
    }
}

fn bind_param(ctx: &mut TypeCheckCtx, p: &Param)
    ensures
        final(ctx)@ == bound_param(old(ctx)@, *p),
{
    let ty = resolve_type_expr(ctx, &p.typ);
    match &p.pattern {
        None => {
            let kind = match &p.typ {
                TypeExpr::Ref { .. } => SymbolKind::Var,
                TypeExpr::Array { .. } => SymbolKind::Var,
                _ => SymbolKind::Param,
            };
            let info = plain_info(kind, &p.name, ty, &p.range);
            ctx.declare(&p.name, info);
        },
        Some(pattern) => {
            let info = plain_info(SymbolKind::Param, &p.name, ty.clone(), &p.range);
            ctx.declare(&p.name, info);
            match pattern {
                ParamPattern::Record { fields, .. } => bind_fields(
                    ctx,
                    SymbolKind::Param,
                    fields,
                    &ty,
                    &p.range,
                ),
                ParamPattern::Tuple { names, .. } => bind_param_tuple(ctx, names, &ty, &p.range),
            }
        },
    }
}

pub fn bind_params(ctx: &mut TypeCheckCtx, params: &Vec<Param>)
    ensures
        final(ctx)@ == bound_params(old(ctx)@, params@, params@.len()),
{
    let mut i: usize = 0;
    while i < params.len()
        invariant
            i <= params@.len(),
            ctx@ == bound_params(old(ctx)@, params@, i as nat),
        decreases params.len() - i,
    {
        bind_param(ctx, &params[i]);
        i += 1;
    }
}

pub fn bind_fn_params(ctx: &mut TypeCheckCtx, params: &Vec<Param>)
    ensures
        final(ctx)@ == bound_fn_params(old(ctx)@, params@, params@.len()),
{
    let mut i: usize = 0;
    while i < params.len()
        invariant
            i <= params@.len(),
            ctx@ == bound_fn_params(old(ctx)@, params@, i as nat),
        decreases params.len() - i,
    {
        let p = &params[i];
        let ty = resolve_type_expr(ctx, &p.typ);
        let info = plain_info(SymbolKind::Param, &p.name, ty, &p.range);
        ctx.declare(&p.name, info);
        i += 1;
    }
}

// ---------- handlers ----------

fn can_trigger(sym: &SymbolInfo) -> (r: bool)
    ensures
        r == triggers(sym@),
{
    match sym.kind {
        SymbolKind::Event => true,
        SymbolKind::LetBinding => true,
        SymbolKind::In => matches!(
            sym.ty,
            Type::Exec | Type::Bool | Type::Int | Type::Float | Type::Vector | Type::Character
                | Type::Controller | Type::Entity
        ),
        SymbolKind::Buffer => matches!(
            sym.ty,
            Type::Exec | Type::Bool | Type::Int | Type::Float | Type::Any
        ),
        SymbolKind::Param => matches!(
            sym.ty,
            Type::Exec | Type::Bool | Type::Int | Type::Float | Type::Character | Type::Controller
                | Type::Entity
        ),
        _ => false,
    }
}

fn single_trigger(t: &Trigger) -> (r: Option<(&String, &SourceRange)>)
    ensures
        r is Some <==> trigger_name(*t) is Some,
        r matches Some(p) ==> trigger_name(*t) == Some((p.0@, p.1@)),
{
    match t {
        Trigger::Ident { name, range } => Some((name, range)),
        Trigger::Not { inner, .. } => match &**inner {
            Trigger::Ident { name, range } => Some((name, range)),
            _ => None,
        },
        _ => None,
    }
}

fn bind_event_params(
    ctx: &mut TypeCheckCtx,
    evt: Option<&EventSpec>,
    params: &Vec<String>,
    range: &SourceRange,
)
    ensures
        final(ctx)@ == bound_event_params(
            old(ctx)@,
            match evt {
                Some(e) => Some(*e),
                None => None,
            },
            params@,
            range@,
            params@.len(),
        ),
{
    let ghost known = match evt {
        Some(e) => Some(*e),
        None => None,
    };
    let mut i: usize = 0;
    while i < params.len()
        invariant
            i <= params@.len(),
            known == (match evt {
                Some(e) => Some(*e),
                None => None,
            }),
            ctx@ == bound_event_params(old(ctx)@, known, params@, range@, i as nat),
        decreases params.len() - i,
    {
        let ty = match evt {
            Some(e) => {
                if i < e.data.len() {
                    e.data[i].ty.clone()
                } else {
                    Type::Any
                }
            },
            None => Type::Any,
        };
        let info = plain_info(SymbolKind::EventParam, &params[i], ty, range);
        ctx.declare(&params[i], info);
        i += 1;
    }
}

pub fn bind_handler_trigger_params(ctx: &mut TypeCheckCtx, cat: &Catalog, h: &Handler)
    ensures
        final(ctx)@ == bound_trigger(old(ctx)@, *cat, *h),
{
    let (name, range) = match single_trigger(&h.trigger) {
        Some(p) => p,
        None => {
            return ;
        },
    };
    let evt = cat.find_event(name.as_str());
    let known = evt.is_some() || match ctx.lookup(name) {
        Some(sym) => can_trigger(sym),
        None => false,
    };
    if !known {
        ctx.emit(
            "WS001",
            cat3("unknown event or trigger '", name.as_str(), "'"),
            range.clone(),
        );
    }
    if let Some(e) = evt {
        if h.params.len() > 0 && e.data.len() < h.params.len() {
            ctx.emit(
                "WS010",
                cat4(
                    "destructure shape: expected ",
                    dec(e.data.len()).as_str(),
                    " param(s), got ",
                    dec(h.params.len()).as_str(),
                ),
                h.range.clone(),
            );
        }
    }
    bind_event_params(ctx, evt, &h.params, &h.range);
}

// ---------- outputs of a chip ----------

/// The names in a list, in any order.
pub open spec fn name_set(names: Seq<String>) -> Set<Seq<char>> {
    Set::new(|n: Seq<char>| exists|i: int| 0 <= i < names.len() && (#[trigger] names[i])@ == n)
}

proof fn lemma_name_set_push(names: Seq<String>, x: String)
    ensures
        name_set(names.push(x)) == name_set(names).insert(x@),
{
    let after = names.push(x);
    assert forall|n: Seq<char>| name_set(after).contains(n) == name_set(names).insert(x@).contains(
        n,
    ) by {
        if n == x@ {
            assert(after[names.len() as int]@ == n);
        }
        if name_set(names).contains(n) {
            let i = choose|i: int| 0 <= i < names.len() && (#[trigger] names[i])@ == n;
            assert(after[i]@ == n);
        }
        if name_set(after).contains(n) && n != x@ {
            let i = choose|i: int| 0 <= i < after.len() && (#[trigger] after[i])@ == n;
            assert(names[i]@ == n);
        }
    }
    assert(name_set(after) =~= name_set(names).insert(x@));
}

fn add_name(names: &mut Vec<String>, name: &String)
    ensures
        name_set(final(names)@) == name_set(old(names)@).insert(name@),
{
    proof {
        lemma_name_set_push(names@, *name);
    }
    names.push(name.clone());
}

/// Collect names assigned as outputs anywhere in a block.
pub fn collect_output_assignments(block: &Block, names: &mut Vec<String>)
    ensures
        name_set(final(names)@) == name_set(old(names)@) + assigned(
            block.stmts@,
            block.stmts@.len(),
        ),
    decreases block,
{
    let stmts = &block.stmts;
    let ghost start = name_set(names@);
    let mut i: usize = 0;
    assert(start + Set::<Seq<char>>::empty() =~= start);
    while i < stmts.len()
        invariant
            i <= stmts@.len(),
            stmts == &block.stmts,
            start == name_set(old(names)@),
            name_set(names@) == start + assigned(stmts@, i as nat),
            forall|k: int| 0 <= k < stmts@.len() ==> decreases_to!(block => stmts@[k]),
        decreases stmts.len() - i,
    {
        let ghost before = assigned(stmts@, i as nat);
        let ghost had = name_set(names@);
        match &stmts[i] {
            Stmt::OutBinding(o) => {
                add_name(names, &o.name);
                assert(start + before.insert(o.name@) =~= had.insert(o.name@));
            },
            Stmt::Emit(e) => {
                add_name(names, &e.name);
                assert(start + before.insert(e.name@) =~= had.insert(e.name@));
            },
            Stmt::Assign(a) => {
                if let Expr::Ident { name, .. } = &a.target {
                    add_name(names, name);
                    assert(start + before.insert(name@) =~= had.insert(name@));
                }
            },
            Stmt::If(f) => {
                collect_output_assignments(&f.then_block, names);
                let ghost in_then = assigned(f.then_block.stmts@, f.then_block.stmts@.len());
                assert(had + in_then =~= start + (before + in_then));
                if let Some(eb) = &f.else_block {
                    let ghost had2 = name_set(names@);
                    collect_output_assignments(eb, names);
                    let ghost in_else = assigned(eb.stmts@, eb.stmts@.len());
                    assert(had2 + in_else =~= start + (before + in_then + in_else));
                }
            },
            Stmt::Handler(h) => {
                collect_output_assignments(&h.body, names);
                let ghost inside = assigned(h.body.stmts@, h.body.stmts@.len());
                assert(had + inside =~= start + (before + inside));
            },
            Stmt::AnonChip(ac) => {
                collect_output_assignments(&ac.body, names);
                let ghost inside = assigned(ac.body.stmts@, ac.body.stmts@.len());
                assert(had + inside =~= start + (before + inside));
            },
            _ => {},
        }
        i += 1;
    }
}

pub fn block_has_return_value(block: &Block) -> (r: bool)
    ensures
        r == returns_value(block.stmts@, block.stmts@.len()),
    decreases block,
{
    let stmts = &block.stmts;
    let mut found = false;
    let mut i: usize = 0;
    while i < stmts.len()
        invariant
            i <= stmts@.len(),
            stmts == &block.stmts,
            found == returns_value(stmts@, i as nat),
            forall|k: int| 0 <= k < stmts@.len() ==> decreases_to!(block => stmts@[k]),
        decreases stmts.len() - i,
    {
        match &stmts[i] {
            Stmt::Return { value, .. } => {
                if value.is_some() {
                    found = true;
                }
            },
            Stmt::If(f) => {
                if block_has_return_value(&f.then_block) {
                    found = true;
                }
                if let Some(eb) = &f.else_block {
                    if block_has_return_value(eb) {
                        found = true;
                    }
                }
            },
            _ => {},
        }
        i += 1;
    }
    found
}

fn holds_name(names: &Vec<String>, name: &String) -> (r: bool)
    ensures
        r == name_set(names@).contains(name@),
{
    let mut i: usize = 0;
    while i < names.len()
        invariant
            i <= names@.len(),
            forall|k: int| 0 <= k < i ==> (#[trigger] names@[k])@ != name@,
        decreases names.len() - i,
    {
        if str_eq(names[i].as_str(), name.as_str()) {
            assert(names@[i as int]@ == name@);
            return true;
        }
        i += 1;
    }
    false
}

pub fn check_outputs(ctx: &mut TypeCheckCtx, ch: &ChipDecl)
    ensures
        final(ctx)@ == outputs_checked(old(ctx)@, *ch),
{
    if ch.outputs.len() == 0 || block_has_return_value(&ch.body) {
        return ;
    }
    let mut names: Vec<String> = Vec::new();
    assert(name_set(names@) =~= Set::empty());
    collect_output_assignments(&ch.body, &mut names);
    let ghost all = assigned(ch.body.stmts@, ch.body.stmts@.len());
    assert(Set::<Seq<char>>::empty() + all =~= all);
    let outs = &ch.outputs;
    let mut i: usize = 0;
    while i < outs.len()
        invariant
            i <= outs@.len(),
            name_set(names@) == all,
            ctx@ == unassigned_reports(old(ctx)@, outs@, all, i as nat),
        decreases outs.len() - i,
    {
        let out = &outs[i];
        if !holds_name(&names, &out.name) {
            let n = out.name.as_str();
            let message = cat7(
                "output '",
                n,
                "' is never assigned — use `out ",
                n,
                " = expr`, `emit ",
                n,
                "`, or `return expr`",
            );
            ctx.emit("WS013", message, out.range.clone());
        }
        i += 1;
    }
}

} // verus!
