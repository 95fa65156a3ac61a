//! First pass: type expressions and the registration of declarations.

use crate::assoc::AssocMap;
use crate::ast::{
    ArrayDecl, ArrayElem, BufferDecl, Callback, ChipDecl, EventDecl, Expr, FnDecl, InDecl,
    NamedOutput, NamespaceDecl, Param, Stmt, TopDecl, TypeAliasDecl, TypeExpr, VarDecl,
};
use crate::catalog::{
    clone_data, data_eq, data_views, Catalog, EventDataField, EventSpec, FieldView,
};
use crate::diagnostic::{no_range, RangeView, SourceRange};
use crate::text::{cat3, owned, str_eq};
use crate::type_expr::{field_models, models, TypeExprView, TypeFieldView};
use crate::typecheck::ctx::{NsDeclInfo, NsView, State, TypeCheckCtx};
use crate::typecheck::scope::{
    local, plain_info, plain_symbol, FnOrChipSig, SigView, SymView, SymbolInfo, SymbolKind,
};
use crate::types::{
    field_views, group_type_views, type_views, Fields, Type, TypeView,
};
use vstd::prelude::*;

verus! {

broadcast use crate::types::group_type_views;

// ---------- type expressions ----------

/// The type that a word of the language names.
pub open spec fn primitive(name: Seq<char>) -> Option<TypeView> {
    if name == "bool"@ {
        Some(TypeView::Bool)
    } else if name == "int"@ {
        Some(TypeView::Int)
    } else if name == "float"@ {
        Some(TypeView::Float)
    } else if name == "string"@ {
        Some(TypeView::String)
    } else if name == "vector"@ {
        Some(TypeView::Vector)
    } else if name == "rotator"@ {
        Some(TypeView::Rotator)
    } else if name == "quat"@ {
        Some(TypeView::Quat)
    } else if name == "color"@ {
        Some(TypeView::Color)
    } else if name == "entity"@ {
        Some(TypeView::Entity)
    } else if name == "character"@ {
        Some(TypeView::Character)
    } else if name == "controller"@ {
        Some(TypeView::Controller)
    } else if name == "brick"@ {
        Some(TypeView::Brick)
    } else if name == "prefab"@ {
        Some(TypeView::Prefab)
    } else if name == "exec"@ {
        Some(TypeView::Exec)
    } else if name == "any"@ {
        Some(TypeView::Any)
    } else if name == "never"@ {
        Some(TypeView::Never)
    } else {
        None
    }
}

pub fn primitive_name(name: &str) -> (r: Option<Type>)
    ensures
        r is Some <==> primitive(name@) is Some,
        r matches Some(t) ==> primitive(name@) == Some(t@),
{
    if str_eq(name, "bool") {
        Some(Type::Bool)
    } else if str_eq(name, "int") {
        Some(Type::Int)
    } else if str_eq(name, "float") {
        Some(Type::Float)
    } else if str_eq(name, "string") {
        Some(Type::String)
    } else if str_eq(name, "vector") {
        Some(Type::Vector)
    } else if str_eq(name, "rotator") {
        Some(Type::Rotator)
    } else if str_eq(name, "quat") {
        Some(Type::Quat)
    } else if str_eq(name, "color") {
        Some(Type::Color)
    } else if str_eq(name, "entity") {
        Some(Type::Entity)
    } else if str_eq(name, "character") {
        Some(Type::Character)
    } else if str_eq(name, "controller") {
        Some(Type::Controller)
    } else if str_eq(name, "brick") {
        Some(Type::Brick)
    } else if str_eq(name, "prefab") {
        Some(Type::Prefab)
    } else if str_eq(name, "exec") {
        Some(Type::Exec)
    } else if str_eq(name, "any") {
        Some(Type::Any)
    } else if str_eq(name, "never") {
        Some(Type::Never)
    } else {
        None
    }
}

/// The type a type expression denotes. A name is a word of the language or a
/// declared type alias; any other name is reported and stands for `any`.
pub open spec fn resolved(s: State, t: TypeExprView) -> (State, TypeView)
    decreases t, 0nat,
{
    match t {
        TypeExprView::Name { name, range } => match primitive(name) {
            Some(p) => (s, p),
            None => match s.lookup(name) {
                Some(sym) => if sym.kind == SymbolKind::Type {
                    (s, sym.ty)
                } else {
                    (s.error("WS002"@, "unknown type '"@ + name + "'"@, range), TypeView::Any)
                },
                None => (s.error("WS002"@, "unknown type '"@ + name + "'"@, range), TypeView::Any),
            },
        },
        TypeExprView::Ref { inner, .. } => {
            let (s1, ty) = resolved(s, *inner);
            (s1, TypeView::Ref(Box::new(ty)))
        },
        TypeExprView::Array { inner, .. } => {
            let (s1, ty) = resolved(s, *inner);
            (s1, TypeView::Array(Box::new(ty)))
        },
        TypeExprView::Tuple { fields, .. } => {
            let (s1, tys) = resolved_list(s, fields, fields.len());
            (s1, TypeView::Tuple(tys))
        },
        TypeExprView::Union { options, .. } => {
            let (s1, tys) = resolved_list(s, options, options.len());
            (s1, TypeView::Union(tys))
        },
        TypeExprView::Record { fields, .. } => {
            let (s1, tys) = resolved_fields(s, fields, fields.len());
            (s1, TypeView::Record(tys))
        },
    }
}

/// The first `n` type expressions of a list, from left to right.
pub open spec fn resolved_list(s: State, v: Seq<TypeExprView>, n: nat) -> (State, Seq<TypeView>)
    decreases v, n,
{
    if n == 0 || n > v.len() {
        (s, Seq::empty())
    } else {
        let (s1, before) = resolved_list(s, v, (n - 1) as nat);
        let (s2, ty) = resolved(s1, v[n - 1]);
        (s2, before.push(ty))
    }
}

/// The first `n` fields of a record type, from left to right.
pub open spec fn resolved_fields(s: State, v: Seq<TypeFieldView>, n: nat) -> (State, Fields)
    decreases v, n,
{
    if n == 0 || n > v.len() {
        (s, Seq::empty())
    } else {
        let (s1, before) = resolved_fields(s, v, (n - 1) as nat);
        let (s2, ty) = resolved(s1, v[n - 1].typ);
        (s2, before.push((v[n - 1].name, ty)))
    }
}

pub fn resolve_type_expr(ctx: &mut TypeCheckCtx, t: &TypeExpr) -> (r: Type)
    ensures
        (final(ctx)@, r@) == resolved(old(ctx)@, t@),
    decreases t,
{
    match t {
        TypeExpr::Name { name, range } => {
            if let Some(prim) = primitive_name(name.as_str()) {
                return prim;
            }
            if let Some(sym) = ctx.lookup(name) {
                if sym.kind == SymbolKind::Type {
                    return sym.ty.clone();
                }
            }
            ctx.emit("WS002", cat3("unknown type '", name.as_str(), "'"), range.clone());
            Type::Any
        },
        TypeExpr::Ref { inner, .. } => Type::Ref(Box::new(resolve_type_expr(ctx, inner))),
        TypeExpr::Array { inner, .. } => Type::Array(Box::new(resolve_type_expr(ctx, inner))),
        TypeExpr::Tuple { fields, .. } => {
            let mut out: Vec<Type> = Vec::new();
            let mut i: usize = 0;
            assert(type_views(out@) =~= Seq::empty());
            while i < fields.len()
                invariant
                    i <= fields@.len(),
                    (ctx@, type_views(out@)) == resolved_list(
                        old(ctx)@,
                        models(fields@),
                        i as nat,
                    ),
                    forall|k: int| 0 <= k < fields@.len() ==> decreases_to!(t => fields@[k]),
                decreases fields.len() - i,
            {
                let ghost before = out@;
                let ty = resolve_type_expr(ctx, &fields[i]);
                out.push(ty);
                assert(type_views(out@) =~= type_views(before).push(ty@));
                i += 1;
            }
            Type::Tuple(out)
        },
        TypeExpr::Union { options, .. } => {
            let mut out: Vec<Type> = Vec::new();
            let mut i: usize = 0;
            assert(type_views(out@) =~= Seq::empty());
            while i < options.len()
                invariant
                    i <= options@.len(),
                    (ctx@, type_views(out@)) == resolved_list(
                        old(ctx)@,
                        models(options@),
                        i as nat,
                    ),
                    forall|k: int| 0 <= k < options@.len() ==> decreases_to!(t => options@[k]),
                decreases options.len() - i,
            {
                let ghost before = out@;
                let ty = resolve_type_expr(ctx, &options[i]);
                out.push(ty);
                assert(type_views(out@) =~= type_views(before).push(ty@));
                i += 1;
            }
            Type::Union(out)
        },
        TypeExpr::Record { fields, .. } => {
            let mut out: Vec<(String, Type)> = Vec::new();
            let mut i: usize = 0;
            assert(field_views(out@) =~= Seq::empty());
            while i < fields.len()
                invariant
                    i <= fields@.len(),
                    (ctx@, field_views(out@)) == resolved_fields(
                        old(ctx)@,
                        field_models(fields@),
                        i as nat,
                    ),
                    forall|k: int| 0 <= k < fields@.len() ==> decreases_to!(t => fields@[k].typ),
                decreases fields.len() - i,
            {
                let ghost before = out@;
                let ty = resolve_type_expr(ctx, &fields[i].typ);
                out.push((fields[i].name.clone(), ty));
                assert(field_views(out@) =~= field_views(before).push(
                    (fields@[i as int].name@, ty@),
                ));
                i += 1;
            }
            Type::Record(out)
        },
    }
}

/// The type of an optional annotation, or `any`.
pub open spec fn resolved_or_any(s: State, t: Option<TypeExpr>) -> (State, TypeView) {
    match t {
        Some(te) => resolved(s, te@),
        None => (s, TypeView::Any),
    }
}

pub fn resolve_or_any(ctx: &mut TypeCheckCtx, t: &Option<TypeExpr>) -> (r: Type)
    ensures
        (final(ctx)@, r@) == resolved_or_any(old(ctx)@, *t),
{
    match t {
        Some(te) => resolve_type_expr(ctx, te),
        None => Type::Any,
    }
}

// ---------- registration ----------

/// The type of a constant-literal expression, used to infer an unannotated
/// var's (or array var's element) type at registration.
pub open spec fn literal_type(e: Expr) -> Option<TypeView>
    decreases e,
{
    match e {
        Expr::IntLit { .. } => Some(TypeView::Int),
        Expr::FloatLit { .. } => Some(TypeView::Float),
        Expr::BoolLit { .. } => Some(TypeView::Bool),
        Expr::StringLit { .. } => Some(TypeView::String),
        Expr::InterpLit { .. } => Some(TypeView::String),
        Expr::UnOp { op, operand, .. } => if op@ == "-"@ {
            literal_type(*operand)
        } else {
            None
        },
        Expr::Call { callee, .. } => match *callee {
            Expr::Ident { name, .. } => if name@ == "Vec"@ {
                Some(TypeView::Vector)
            } else if name@ == "Rotation"@ {
                Some(TypeView::Rotator)
            } else if name@ == "Color"@ || name@ == "ColorSRGB"@ || name@ == "ColorHex"@ {
                Some(TypeView::Color)
            } else {
                None
            },
            _ => None,
        },
        _ => None,
    }
}

pub fn literal_expr_type(e: &Expr) -> (r: Option<Type>)
    ensures
        r is Some <==> literal_type(*e) is Some,
        r matches Some(t) ==> literal_type(*e) == Some(t@),
    decreases e,
{
    match e {
        Expr::IntLit { .. } => Some(Type::Int),
        Expr::FloatLit { .. } => Some(Type::Float),
        Expr::BoolLit { .. } => Some(Type::Bool),
        Expr::StringLit { .. } => Some(Type::String),
        Expr::InterpLit { .. } => Some(Type::String),
        Expr::UnOp { op, operand, .. } => {
            if str_eq(op.as_str(), "-") {
                literal_expr_type(operand)
            } else {
                None
            }
        },
        Expr::Call { callee, .. } => match &**callee {
            Expr::Ident { name, .. } => {
                let n = name.as_str();
                if str_eq(n, "Vec") {
                    Some(Type::Vector)
                } else if str_eq(n, "Rotation") {
                    Some(Type::Rotator)
                } else if str_eq(n, "Color") || str_eq(n, "ColorSRGB") || str_eq(n, "ColorHex") {
                    Some(Type::Color)
                } else {
                    None
                }
            },
            _ => None,
        },
        _ => None,
    }
}

/// Types a Variable gate can hold as a wire variant.
pub open spec fn storable(t: TypeView) -> bool {
    match t {
        TypeView::Bool => true,
        TypeView::Int => true,
        TypeView::Float => true,
        TypeView::String => true,
        TypeView::Vector => true,
        TypeView::Rotator => true,
        TypeView::Quat => true,
        TypeView::Color => true,
        TypeView::Entity => true,
        TypeView::Character => true,
        TypeView::Controller => true,
        TypeView::Brick => true,
        TypeView::Prefab => true,
        _ => false,
    }
}

pub fn var_storable(t: &Type) -> (r: bool)
    ensures
        r == storable(t@),
{
    match t {
        Type::Bool => true,
        Type::Int => true,
        Type::Float => true,
        Type::String => true,
        Type::Vector => true,
        Type::Rotator => true,
        Type::Quat => true,
        Type::Color => true,
        Type::Entity => true,
        Type::Character => true,
        Type::Controller => true,
        Type::Brick => true,
        Type::Prefab => true,
        _ => false,
    }
}

/// The type of the first element whose literal type is known.
pub open spec fn first_literal_type(elements: Seq<ArrayElem>) -> Option<TypeView>
    decreases elements.len(),
{
    if elements.len() == 0 {
        None
    } else {
        match literal_type(elements[0].inner()) {
            Some(t) => Some(t),
            None => first_literal_type(elements.drop_first()),
        }
    }
}

/// What an initializer alone says of a variable's type.
pub open spec fn init_type(init: Option<Expr>) -> TypeView {
    match init {
        Some(Expr::Array { elements, .. }) => TypeView::Array(
            Box::new(
                match first_literal_type(elements@) {
                    Some(t) => t,
                    None => TypeView::Any,
                },
            ),
        ),
        Some(e) => match literal_type(e) {
            Some(t) => t,
            None => TypeView::Any,
        },
        None => TypeView::Any,
    }
}

fn infer_elem_type(elements: &Vec<ArrayElem>) -> (r: Type)
    ensures
        r@ == match first_literal_type(elements@) {
            Some(t) => t,
            None => TypeView::Any,
        },
{
    let mut i: usize = 0;
    assert(elements@.skip(0) =~= elements@);
    while i < elements.len()
        invariant
            i <= elements@.len(),
            first_literal_type(elements@) == first_literal_type(elements@.skip(i as int)),
        decreases elements.len() - i,
    {
        assert(elements@.skip(i as int).drop_first() =~= elements@.skip(i + 1));
        if let Some(t) = literal_expr_type(elements[i].expr()) {
            return t;
        }
        i += 1;
    }
    Type::Any
}

fn infer_init_type(init: &Option<Expr>) -> (r: Type)
    ensures
        r@ == init_type(*init),
{
    match init {
        Some(Expr::Array { elements, .. }) => Type::Array(Box::new(infer_elem_type(elements))),
        Some(e) => match literal_expr_type(e) {
            Some(t) => t,
            None => Type::Any,
        },
        None => Type::Any,
    }
}

/// Declares a name; a second declaration in the same scope replaces the first
/// and is reported.
pub open spec fn declared_once(s: State, name: Seq<char>, info: SymView) -> State {
    if local(s.scopes, name) is Some {
        s.declare(name, info).error(
            "WS013"@,
            "duplicate declaration of '"@ + name + "'"@,
            info.decl_range,
        )
    } else {
        s.declare(name, info)
    }
}

pub fn declare_or_dup(ctx: &mut TypeCheckCtx, name: &String, info: SymbolInfo)
    ensures
        final(ctx)@ == declared_once(old(ctx)@, name@, info@),
{
    let range = info.decl_range.clone();
    if ctx.declare(name, info).is_some() {
        ctx.emit("WS013", cat3("duplicate declaration of '", name.as_str(), "'"), range);
    }
}

/// The signature of a symbol; one without a signature has no parameters and no
/// outputs.
pub open spec fn signature_or_empty(info: SymView) -> SigView {
    match info.signature {
        Some(sig) => sig,
        None => SigView { params: Seq::empty(), outputs: Seq::empty() },
    }
}

/// One report for each way in which two signatures differ: in the number of
/// parameters, in the number of outputs, in the parameters, in the outputs.
pub open spec fn signature_reports(
    s: State,
    name: Seq<char>,
    prior: SigView,
    sig: SigView,
    range: RangeView,
) -> State {
    let message = "mismatched signature for callback '"@ + name + "'"@;
    let s1 = if prior.params.len() != sig.params.len() {
        s.error("WS025"@, message, range)
    } else {
        s
    };
    let s2 = if prior.outputs.len() != sig.outputs.len() {
        s1.error("WS025"@, message, range)
    } else {
        s1
    };
    let s3 = if prior.params != sig.params {
        s2.error("WS025"@, message, range)
    } else {
        s2
    };
    if prior.outputs != sig.outputs {
        s3.error("WS025"@, message, range)
    } else {
        s3
    }
}

/// Declares a callback; further callbacks of the same name are welcome as long
/// as their signatures agree.
pub open spec fn declared_callback(s: State, name: Seq<char>, info: SymView) -> State {
    match local(s.scopes, name) {
        None => s.declare(name, info),
        Some(prior) => signature_reports(
            s.declare(name, info),
            name,
            signature_or_empty(prior),
            signature_or_empty(info),
            info.decl_range,
        ),
    }
}

fn signature_of(info: &SymbolInfo) -> (r: FnOrChipSig)
    ensures
        r@ == signature_or_empty(info@),
{
    match &info.signature {
        Some(sig) => sig.clone(),
        None => {
            let r = FnOrChipSig { params: Vec::new(), outputs: Vec::new() };
            assert(r@ =~= signature_or_empty(info@));
            r
        },
    }
}

pub fn declare_if_same_sig(ctx: &mut TypeCheckCtx, name: &String, info: SymbolInfo)
    ensures
        final(ctx)@ == declared_callback(old(ctx)@, name@, info@),
{
    let range = info.decl_range.clone();
    let new_sig = signature_of(&info);
    if let Some(prior) = ctx.declare(name, info) {
        let old_sig = signature_of(&prior);
        assert(old_sig@.params.len() == old_sig.params@.len());
        assert(old_sig@.outputs.len() == old_sig.outputs@.len());
        if old_sig.params.len() != new_sig.params.len() {
            ctx.emit(
                "WS025",
                cat3("mismatched signature for callback '", name.as_str(), "'"),
                range.clone(),
            );
        }
        if old_sig.outputs.len() != new_sig.outputs.len() {
            ctx.emit(
                "WS025",
                cat3("mismatched signature for callback '", name.as_str(), "'"),
                range.clone(),
            );
        }
        if !data_eq(&old_sig.params, &new_sig.params) {
            ctx.emit(
                "WS025",
                cat3("mismatched signature for callback '", name.as_str(), "'"),
                range.clone(),
            );
        }
        if !data_eq(&old_sig.outputs, &new_sig.outputs) {
            ctx.emit(
                "WS025",
                cat3("mismatched signature for callback '", name.as_str(), "'"),
                range.clone(),
            );
        }
    }
}

/// The names and types of the first `n` parameters.
pub open spec fn param_fields(s: State, params: Seq<Param>, n: nat) -> (State, Seq<FieldView>)
    decreases n,
{
    if n == 0 || n > params.len() {
        (s, Seq::empty())
    } else {
        let (s1, before) = param_fields(s, params, (n - 1) as nat);
        let (s2, ty) = resolved(s1, params[n - 1].typ@);
        (s2, before.push(FieldView { name: params[n - 1].name@, ty }))
    }
}

/// The names and types of the first `n` outputs.
pub open spec fn named_output_fields(s: State, outs: Seq<NamedOutput>, n: nat) -> (
    State,
    Seq<FieldView>,
)
    decreases n,
{
    if n == 0 || n > outs.len() {
        (s, Seq::empty())
    } else {
        let (s1, before) = named_output_fields(s, outs, (n - 1) as nat);
        let (s2, ty) = resolved(s1, outs[n - 1].typ@);
        (s2, before.push(FieldView { name: outs[n - 1].name@, ty }))
    }
}

fn resolve_params(ctx: &mut TypeCheckCtx, params: &Vec<Param>) -> (r: Vec<EventDataField>)
    ensures
        (final(ctx)@, data_views(r@)) == param_fields(old(ctx)@, params@, params@.len()),
{
    let mut out: Vec<EventDataField> = Vec::new();
    let mut i: usize = 0;
    assert(data_views(out@) =~= Seq::empty());
    while i < params.len()
        invariant
            i <= params@.len(),
            (ctx@, data_views(out@)) == param_fields(old(ctx)@, params@, i as nat),
        decreases params.len() - i,
    {
        let ghost before = out@;
        let ty = resolve_type_expr(ctx, &params[i].typ);
        let f = EventDataField { name: params[i].name.clone(), ty };
        out.push(f);
        assert(data_views(out@) =~= data_views(before).push(f@));
        i += 1;
    }
    out
}

fn resolve_outputs(ctx: &mut TypeCheckCtx, outs: &Vec<NamedOutput>) -> (r: Vec<EventDataField>)
    ensures
        (final(ctx)@, data_views(r@)) == named_output_fields(old(ctx)@, outs@, outs@.len()),
{
    let mut out: Vec<EventDataField> = Vec::new();
    let mut i: usize = 0;
    assert(data_views(out@) =~= Seq::empty());
    while i < outs.len()
        invariant
            i <= outs@.len(),
            (ctx@, data_views(out@)) == named_output_fields(old(ctx)@, outs@, i as nat),
        decreases outs.len() - i,
    {
        let ghost before = out@;
        let ty = resolve_type_expr(ctx, &outs[i].typ);
        let f = EventDataField { name: outs[i].name.clone(), ty };
        out.push(f);
        assert(data_views(out@) =~= data_views(before).push(f@));
        i += 1;
    }
    out
}

/// A `var` is a reference to its annotated type, or to what its initializer
/// says.
pub open spec fn registered_var(s: State, v: VarDecl) -> State {
    let (s1, inner) = match v.typ {
        Some(t) => resolved(s, t@),
        None => (s, init_type(v.init)),
    };
    declared_once(
        s1,
        v.name@,
        plain_symbol(SymbolKind::Var, v.name@, TypeView::Ref(Box::new(inner)), v.range@),
    )
}

pub fn register_var(ctx: &mut TypeCheckCtx, v: &VarDecl)
    ensures
        final(ctx)@ == registered_var(old(ctx)@, *v),
{
    let inner = match &v.typ {
        Some(t) => resolve_type_expr(ctx, t),
        None => infer_init_type(&v.init),
    };
    let info = plain_info(SymbolKind::Var, &v.name, Type::Ref(Box::new(inner)), &v.range);
    declare_or_dup(ctx, &v.name, info);
}

pub open spec fn registered_array(s: State, a: ArrayDecl) -> State {
    let (s1, inner) = resolved(s, a.element_type@);
    declared_once(
        s1,
        a.name@,
        plain_symbol(SymbolKind::Array, a.name@, TypeView::Array(Box::new(inner)), a.range@),
    )
}

pub fn register_array(ctx: &mut TypeCheckCtx, a: &ArrayDecl)
    ensures
        final(ctx)@ == registered_array(old(ctx)@, *a),
{
    let inner = resolve_type_expr(ctx, &a.element_type);
    let info = plain_info(SymbolKind::Array, &a.name, Type::Array(Box::new(inner)), &a.range);
    declare_or_dup(ctx, &a.name, info);
}

pub open spec fn registered_buffer(s: State, b: BufferDecl) -> State {
    let (s1, ty) = resolved_or_any(s, b.typ);
    declared_once(s1, b.name@, plain_symbol(SymbolKind::Buffer, b.name@, ty, b.range@))
}

pub fn register_buffer(ctx: &mut TypeCheckCtx, b: &BufferDecl)
    ensures
        final(ctx)@ == registered_buffer(old(ctx)@, *b),
{
    let placeholder = resolve_or_any(ctx, &b.typ);
    let info = plain_info(SymbolKind::Buffer, &b.name, placeholder, &b.range);
    declare_or_dup(ctx, &b.name, info);
}

pub open spec fn registered_in(s: State, d: InDecl) -> State {
    let (s1, ty) = resolved(s, d.typ@);
    declared_once(s1, d.name@, plain_symbol(SymbolKind::In, d.name@, ty, d.range@))
}

pub fn register_in(ctx: &mut TypeCheckCtx, d: &InDecl)
    ensures
        final(ctx)@ == registered_in(old(ctx)@, *d),
{
    let ty = resolve_type_expr(ctx, &d.typ);
    let info = plain_info(SymbolKind::In, &d.name, ty, &d.range);
    declare_or_dup(ctx, &d.name, info);
}

pub open spec fn callable(
    kind: SymbolKind,
    name: Seq<char>,
    range: RangeView,
    params: Seq<FieldView>,
    outputs: Seq<FieldView>,
) -> SymView {
    SymView {
        kind,
        name,
        ty: TypeView::Any,
        decl_range: range,
        signature: Some(SigView { params, outputs }),
        event_data: None,
    }
}

pub open spec fn registered_fn(s: State, f: FnDecl) -> State {
    let (s1, params) = param_fields(s, f.params@, f.params@.len());
    let (s2, ret) = resolved_or_any(s1, f.return_type);
    declared_once(
        s2,
        f.name@,
        callable(
            SymbolKind::Fn,
            f.name@,
            f.range@,
            params,
            seq![FieldView { name: "_"@, ty: ret }],
        ),
    )
}

pub fn register_fn(ctx: &mut TypeCheckCtx, f: &FnDecl)
    ensures
        final(ctx)@ == registered_fn(old(ctx)@, *f),
{
    let params = resolve_params(ctx, &f.params);
    let ret = resolve_or_any(ctx, &f.return_type);
    let ghost ret_ty = ret@;
    let mut outputs: Vec<EventDataField> = Vec::new();
    outputs.push(EventDataField { name: owned("_"), ty: ret });
    assert(data_views(outputs@) =~= seq![FieldView { name: "_"@, ty: ret_ty }]);
    let info = SymbolInfo {
        kind: SymbolKind::Fn,
        name: f.name.clone(),
        ty: Type::Any,
        decl_range: f.range.clone(),
        signature: Some(FnOrChipSig { params, outputs }),
        event_data: None,
    };
    declare_or_dup(ctx, &f.name, info);
}

pub open spec fn registered_chip(s: State, c: ChipDecl) -> State {
    let (s1, params) = param_fields(s, c.inputs@, c.inputs@.len());
    let (s2, outputs) = named_output_fields(s1, c.outputs@, c.outputs@.len());
    declared_once(s2, c.name@, callable(SymbolKind::Chip, c.name@, c.range@, params, outputs))
}

pub fn register_chip(ctx: &mut TypeCheckCtx, c: &ChipDecl)
    ensures
        final(ctx)@ == registered_chip(old(ctx)@, *c),
{
    let params = resolve_params(ctx, &c.inputs);
    let outputs = resolve_outputs(ctx, &c.outputs);
    let info = SymbolInfo {
        kind: SymbolKind::Chip,
        name: c.name.clone(),
        ty: Type::Any,
        decl_range: c.range.clone(),
        signature: Some(FnOrChipSig { params, outputs }),
        event_data: None,
    };
    declare_or_dup(ctx, &c.name, info);
}

pub open spec fn registered_callback(s: State, c: Callback) -> State {
    let (s1, params) = param_fields(s, c.inputs@, c.inputs@.len());
    let (s2, outputs) = named_output_fields(s1, c.outputs@, c.outputs@.len());
    declared_callback(
        s2,
        c.name@,
        callable(SymbolKind::Callback, c.name@, c.range@, params, outputs),
    )
}

pub fn register_callback(ctx: &mut TypeCheckCtx, c: &Callback)
    ensures
        final(ctx)@ == registered_callback(old(ctx)@, *c),
{
    let params = resolve_params(ctx, &c.inputs);
    let outputs = resolve_outputs(ctx, &c.outputs);
    let info = SymbolInfo {
        kind: SymbolKind::Callback,
        name: c.name.clone(),
        ty: Type::Any,
        decl_range: c.range.clone(),
        signature: Some(FnOrChipSig { params, outputs }),
        event_data: None,
    };
    declare_if_same_sig(ctx, &c.name, info);
}

/// An anonymous chip shares its parent's scope: the variables, buffers, arrays
/// and inputs among its first `n` statements are registered there.
pub open spec fn registered_stmts(s: State, stmts: Seq<Stmt>, n: nat) -> State
    decreases n,
{
    if n == 0 || n > stmts.len() {
        s
    } else {
        let s1 = registered_stmts(s, stmts, (n - 1) as nat);
        match stmts[n - 1] {
            Stmt::Var(v) => registered_var(s1, v),
            Stmt::Buffer(b) => registered_buffer(s1, b),
            Stmt::Array(a) => registered_array(s1, a),
            Stmt::In(d) => registered_in(s1, d),
            _ => s1,
        }
    }
}

pub fn register_stmts(ctx: &mut TypeCheckCtx, stmts: &Vec<Stmt>)
    ensures
        final(ctx)@ == registered_stmts(old(ctx)@, stmts@, stmts@.len()),
{
    let mut i: usize = 0;
    while i < stmts.len()
        invariant
            i <= stmts@.len(),
            ctx@ == registered_stmts(old(ctx)@, stmts@, i as nat),
        decreases stmts.len() - i,
    {
        match &stmts[i] {
            Stmt::Var(v) => register_var(ctx, v),
            Stmt::Buffer(b) => register_buffer(ctx, b),
            Stmt::Array(a) => register_array(ctx, a),
            Stmt::In(d) => register_in(ctx, d),
            _ => {},
        }
        i += 1;
    }
}

/// The chips and functions among the first `n` declarations of a namespace.
pub open spec fn namespace_members(decls: Seq<TopDecl>, n: nat) -> Map<Seq<char>, NsView>
    decreases n,
{
    if n == 0 || n > decls.len() {
        Map::empty()
    } else {
        let before = namespace_members(decls, (n - 1) as nat);
        match decls[n - 1] {
            TopDecl::Chip(c) => before.insert(
                c.name@,
                NsView { kind: SymbolKind::Chip, return_type: None },
            ),
            TopDecl::Fn(f) => before.insert(
                f.name@,
                NsView {
                    kind: SymbolKind::Fn,
                    return_type: match f.return_type {
                        Some(t) => Some(t@),
                        None => None,
                    },
                },
            ),
            _ => before,
        }
    }
}

pub open spec fn registered_namespace(s: State, ns: NamespaceDecl) -> State {
    declared_once(
        s,
        ns.name@,
        plain_symbol(SymbolKind::Namespace, ns.name@, TypeView::Any, ns.range@),
    ).add_namespace(ns.name@, namespace_members(ns.decls@, ns.decls@.len()))
}

pub fn register_namespace(ctx: &mut TypeCheckCtx, ns: &NamespaceDecl)
    ensures
        final(ctx)@ == registered_namespace(old(ctx)@, *ns),
{
    let info = plain_info(SymbolKind::Namespace, &ns.name, Type::Any, &ns.range);
    declare_or_dup(ctx, &ns.name, info);
    let mut members: AssocMap<String, NsDeclInfo> = AssocMap::new();
    let mut i: usize = 0;
    while i < ns.decls.len()
        invariant
            i <= ns.decls@.len(),
            members@ == namespace_members(ns.decls@, i as nat),
        decreases ns.decls.len() - i,
    {
        match &ns.decls[i] {
            TopDecl::Chip(c) => {
                members.insert(
                    c.name.clone(),
                    NsDeclInfo { kind: SymbolKind::Chip, return_type: None },
                );
            },
            TopDecl::Fn(f) => {
                let return_type = match &f.return_type {
                    Some(t) => Some(t.clone()),
                    None => None,
                };
                members.insert(f.name.clone(), NsDeclInfo { kind: SymbolKind::Fn, return_type });
            },
            _ => {},
        }
        i += 1;
    }
    ctx.add_namespace(&ns.name, members);
}

pub open spec fn registered_event(s: State, e: EventDecl) -> State {
    declared_once(
        s,
        e.name@,
        plain_symbol(SymbolKind::Event, e.name@, TypeView::Exec, e.range@),
    )
}

pub open spec fn registered_alias(s: State, t: TypeAliasDecl) -> State {
    let (s1, ty) = resolved(s, t.typ@);
    declared_once(s1, t.name@, plain_symbol(SymbolKind::Type, t.name@, ty, t.range@))
}

/// What registering a declaration does. Outputs, lets, handlers, statements
/// and imports declare nothing before they are checked.
pub open spec fn registered(s: State, d: TopDecl) -> State {
    match d {
        TopDecl::Var(v) => registered_var(s, v),
        TopDecl::Array(a) => registered_array(s, a),
        TopDecl::Buffer(b) => registered_buffer(s, b),
        TopDecl::In(i) => registered_in(s, i),
        TopDecl::Fn(f) => registered_fn(s, f),
        TopDecl::Chip(c) => registered_chip(s, c),
        TopDecl::Callback(c) => registered_callback(s, c),
        TopDecl::Event(e) => registered_event(s, e),
        TopDecl::AnonChip(ac) => registered_stmts(s, ac.body.stmts@, ac.body.stmts@.len()),
        TopDecl::TypeAlias(t) => registered_alias(s, t),
        TopDecl::Namespace(ns) => registered_namespace(s, ns),
        _ => s,
    }
}

pub fn register_decl(ctx: &mut TypeCheckCtx, d: &TopDecl)
    ensures
        final(ctx)@ == registered(old(ctx)@, *d),
{
    match d {
        TopDecl::Var(v) => register_var(ctx, v),
        TopDecl::Array(a) => register_array(ctx, a),
        TopDecl::Buffer(b) => register_buffer(ctx, b),
        TopDecl::In(i) => register_in(ctx, i),
        TopDecl::Fn(f) => register_fn(ctx, f),
        TopDecl::Chip(c) => register_chip(ctx, c),
        TopDecl::Callback(c) => register_callback(ctx, c),
        TopDecl::Event(e) => {
            let info = plain_info(SymbolKind::Event, &e.name, Type::Exec, &e.range);
            declare_or_dup(ctx, &e.name, info);
        },
        TopDecl::AnonChip(ac) => register_stmts(ctx, &ac.body.stmts),
        TopDecl::TypeAlias(t) => {
            let ty = resolve_type_expr(ctx, &t.typ);
            let info = plain_info(SymbolKind::Type, &t.name, ty, &t.range);
            declare_or_dup(ctx, &t.name, info);
        },
        TopDecl::Namespace(ns) => register_namespace(ctx, ns),
        _ => {},
    }
}

/// The first `n` declarations of a list, registered in order.
pub open spec fn registered_all(s: State, decls: Seq<TopDecl>, n: nat) -> State
    decreases n,
{
    if n == 0 || n > decls.len() {
        s
    } else {
        registered(registered_all(s, decls, (n - 1) as nat), decls[n - 1])
    }
}

pub fn register_all(ctx: &mut TypeCheckCtx, decls: &Vec<TopDecl>)
    ensures
        final(ctx)@ == registered_all(old(ctx)@, decls@, decls@.len()),
{
    let mut i: usize = 0;
    while i < decls.len()
        invariant
            i <= decls@.len(),
            ctx@ == registered_all(old(ctx)@, decls@, i as nat),
        decreases decls.len() - i,
    {
        register_decl(ctx, &decls[i]);
        i += 1;
    }
}

/// The symbol of a built-in event.
pub open spec fn event_symbol(e: EventSpec) -> SymView {
    SymView {
        kind: SymbolKind::Event,
        name: e.surface_name@,
        ty: TypeView::Exec,
        decl_range: no_range(),
        signature: None,
        event_data: Some(data_views(e.data@)),
    }
}

/// The first `n` built-in events, declared in order.
pub open spec fn builtin_events(s: State, events: Seq<EventSpec>, n: nat) -> State
    decreases n,
{
    if n == 0 || n > events.len() {
        s
    } else {
        builtin_events(s, events, (n - 1) as nat).declare(
            events[n - 1].surface_name@,
            event_symbol(events[n - 1]),
        )
    }
}

pub fn register_builtin_events(ctx: &mut TypeCheckCtx, cat: &Catalog)
    ensures
        final(ctx)@ == builtin_events(old(ctx)@, cat.events@, cat.events@.len()),
{
    let mut i: usize = 0;
    while i < cat.events.len()
        invariant
            i <= cat.events@.len(),
            ctx@ == builtin_events(old(ctx)@, cat.events@, i as nat),
        decreases cat.events.len() - i,
    {
        let e = &cat.events[i];
        let info = SymbolInfo {
            kind: SymbolKind::Event,
            name: e.surface_name.clone(),
            ty: Type::Exec,
            decl_range: SourceRange::default(),
            signature: None,
            event_data: Some(clone_data(&e.data)),
        };
        ctx.declare(&e.surface_name, info);
        i += 1;
    }
}

} // verus!
