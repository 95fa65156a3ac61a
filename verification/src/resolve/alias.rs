//! Type aliases written out.

use crate::assoc::AssocMap;
use crate::ast::{NamedOutput, Param, RecordTypeField, TopDecl, TypeExpr};
use crate::ast_view::{
    named_outputs_view, params_view, BufferDeclView, CallbackView, ChipDeclView,
    FnDeclView, InDeclView, LetDeclView, NamedOutputView, OutBindingView, ParamView, TopDeclView, VarDeclView,
};
use crate::type_expr::{field_models, models, TypeExprView, TypeFieldView};
use vstd::prelude::*;

verus! {

pub type Aliases = Map<Seq<char>, TypeExprView>;

/// A type expression with every alias in it replaced by what it stands for.
/// What an alias stands for is not looked into again.
pub open spec fn expanded(t: TypeExprView, aliases: Aliases) -> TypeExprView
    decreases t, 0nat,
{
    match t {
        TypeExprView::Name { name, .. } => if aliases.contains_key(name) {
            aliases[name]
        } else {
            t
        },
        TypeExprView::Ref { inner, range } => TypeExprView::Ref {
            inner: Box::new(expanded(*inner, aliases)),
            range,
        },
        TypeExprView::Array { inner, range } => TypeExprView::Array {
            inner: Box::new(expanded(*inner, aliases)),
            range,
        },
        TypeExprView::Tuple { fields, range } => TypeExprView::Tuple {
            fields: expanded_types(fields, aliases, fields.len()),
            range,
        },
        TypeExprView::Record { fields, range } => TypeExprView::Record {
            fields: expanded_fields(fields, aliases, fields.len()),
            range,
        },
        TypeExprView::Union { options, range } => TypeExprView::Union {
            options: expanded_types(options, aliases, options.len()),
            range,
        },
    }
}

pub open spec fn expanded_types(v: Seq<TypeExprView>, aliases: Aliases, n: nat) -> Seq<TypeExprView>
    decreases v, n,
{
    if n == 0 || n > v.len() {
        Seq::empty()
    } else {
        expanded_types(v, aliases, (n - 1) as nat).push(expanded(v[n - 1], aliases))
    }
}

pub open spec fn expanded_fields(
    v: Seq<TypeFieldView>,
    aliases: Aliases,
    n: nat,
) -> Seq<TypeFieldView>
    decreases v, n,
{
    if n == 0 || n > v.len() {
        Seq::empty()
    } else {
        expanded_fields(v, aliases, (n - 1) as nat).push(
            TypeFieldView { typ: expanded(v[n - 1].typ, aliases), ..v[n - 1] },
        )
    }
}

pub open spec fn expanded_opt(t: Option<TypeExprView>, aliases: Aliases) -> Option<TypeExprView> {
    match t {
        Some(t) => Some(expanded(t, aliases)),
        None => None,
    }
}

pub open spec fn expanded_params(v: Seq<ParamView>, aliases: Aliases) -> Seq<ParamView> {
    Seq::new(
        v.len(),
        |i: int| ParamView { typ: expanded(v[i].typ, aliases), ..v[i] },
    )
}

pub open spec fn expanded_outputs(v: Seq<NamedOutputView>, aliases: Aliases) -> Seq<
    NamedOutputView,
> {
    Seq::new(
        v.len(),
        |i: int| NamedOutputView { typ: expanded(v[i].typ, aliases), ..v[i] },
    )
}

/// A declaration with the aliases written out in its parameters, and in the
/// results and annotations of chips, functions and single values. Arrays, and
/// the outputs of callbacks, keep the types that they are written with.
pub open spec fn expanded_decl(d: TopDeclView, aliases: Aliases) -> TopDeclView {
    match d {
        TopDeclView::Chip(c) => TopDeclView::Chip(
            ChipDeclView {
                inputs: expanded_params(c.inputs, aliases),
                outputs: expanded_outputs(c.outputs, aliases),
                ..c
            },
        ),
        TopDeclView::Fn(f) => TopDeclView::Fn(
            FnDeclView {
                params: expanded_params(f.params, aliases),
                return_type: expanded_opt(f.return_type, aliases),
                ..f
            },
        ),
        TopDeclView::Callback(c) => TopDeclView::Callback(
            CallbackView { inputs: expanded_params(c.inputs, aliases), ..c },
        ),
        TopDeclView::Let(l) => TopDeclView::Let(
            LetDeclView { typ: expanded_opt(l.typ, aliases), ..l },
        ),
        TopDeclView::Var(v) => TopDeclView::Var(
            VarDeclView { typ: expanded_opt(v.typ, aliases), ..v },
        ),
        TopDeclView::Out(o) => TopDeclView::Out(
            OutBindingView { typ: expanded_opt(o.typ, aliases), ..o },
        ),
        TopDeclView::Buffer(b) => TopDeclView::Buffer(
            BufferDeclView { typ: expanded_opt(b.typ, aliases), ..b },
        ),
        TopDeclView::In(i) => TopDeclView::In(InDeclView { typ: expanded(i.typ, aliases), ..i }),
        other => other,
    }
}

pub open spec fn expanded_decls(v: Seq<TopDeclView>, aliases: Aliases) -> Seq<TopDeclView> {
    Seq::new(v.len(), |i: int| expanded_decl(v[i], aliases))
}

/// The type expression with the aliases written out.
pub fn expand(t: &TypeExpr, aliases: &AssocMap<String, TypeExpr>) -> (r: TypeExpr)
    ensures
        r@ == expanded(t@, aliases@),
    decreases t, 1nat,
{
    match t {
        TypeExpr::Name { name, .. } => match aliases.get(name) {
            Some(e) => e.clone(),
            None => t.clone(),
        },
        TypeExpr::Ref { inner, range } => TypeExpr::Ref {
            inner: Box::new(expand(inner, aliases)),
            range: range.clone(),
        },
        TypeExpr::Array { inner, range } => TypeExpr::Array {
            inner: Box::new(expand(inner, aliases)),
            range: range.clone(),
        },
        TypeExpr::Tuple { fields, range } => TypeExpr::Tuple {
            fields: expand_types(fields, aliases),
            range: range.clone(),
        },
        TypeExpr::Record { fields, range } => TypeExpr::Record {
            fields: expand_fields(fields, aliases),
            range: range.clone(),
        },
        TypeExpr::Union { options, range } => TypeExpr::Union {
            options: expand_types(options, aliases),
            range: range.clone(),
        },
    }
}

fn expand_types(v: &Vec<TypeExpr>, aliases: &AssocMap<String, TypeExpr>) -> (r: Vec<TypeExpr>)
    ensures
        models(r@) == expanded_types(models(v@), aliases@, v@.len()),
    decreases v@, 0nat,
{
    let mut out: Vec<TypeExpr> = Vec::new();
    let mut i: usize = 0;
    assert(models(out@) =~= Seq::empty());
    while i < v.len()
        invariant
            i <= v@.len(),
            models(out@) == expanded_types(models(v@), aliases@, i as nat),
        decreases v.len() - i,
    {
        let ghost before = out@;
        let t = expand(&v[i], aliases);
        out.push(t);
        assert(models(out@) =~= models(before).push(t@));
        i += 1;
    }
    out
}

fn expand_fields(v: &Vec<RecordTypeField>, aliases: &AssocMap<String, TypeExpr>) -> (r: Vec<
    RecordTypeField,
>)
    ensures
        field_models(r@) == expanded_fields(field_models(v@), aliases@, v@.len()),
    decreases v@, 0nat,
{
    let mut out: Vec<RecordTypeField> = Vec::new();
    let mut i: usize = 0;
    assert(field_models(out@) =~= Seq::empty());
    while i < v.len()
        invariant
            i <= v@.len(),
            field_models(out@) == expanded_fields(field_models(v@), aliases@, i as nat),
        decreases v.len() - i,
    {
        let ghost before = out@;
        let f = RecordTypeField {
            name: v[i].name.clone(),
            typ: expand(&v[i].typ, aliases),
            range: v[i].range.clone(),
        };
        out.push(f);
        assert(field_models(out@) =~= field_models(before).push(f@));
        i += 1;
    }
    out
}

pub fn expand_type_aliases_in_type_expr(t: &mut TypeExpr, aliases: &AssocMap<String, TypeExpr>)
    ensures
        final(t)@ == expanded(old(t)@, aliases@),
{
    let e = expand(t, aliases);
    *t = e;
}

fn expand_opt(t: &Option<TypeExpr>, aliases: &AssocMap<String, TypeExpr>) -> (r: Option<TypeExpr>)
    ensures
        match r {
            Some(x) => Some(x@),
            None => None::<TypeExprView>,
        } == expanded_opt(
            match *t {
                Some(x) => Some(x@),
                None => None,
            },
            aliases@,
        ),
{
    match t {
        Some(t) => Some(expand(t, aliases)),
        None => None,
    }
}

fn expand_params(v: &mut Vec<Param>, aliases: &AssocMap<String, TypeExpr>)
    ensures
        params_view(final(v)@) == expanded_params(params_view(old(v)@), aliases@),
{
    let mut i: usize = 0;
    while i < v.len()
        invariant
            v@.len() == old(v)@.len(),
            i <= v@.len(),
            forall|k: int|
                0 <= k < i ==> (#[trigger] v@[k])@ == (ParamView {
                    typ: expanded(old(v)@[k]@.typ, aliases@),
                    ..old(v)@[k]@
                }),
            forall|k: int| i <= k < v@.len() ==> v@[k] == old(v)@[k],
        decreases v.len() - i,
    {
        let t = expand(&v[i].typ, aliases);
        v[i].typ = t;
        i += 1;
    }
    assert(params_view(v@) =~= expanded_params(params_view(old(v)@), aliases@));
}

fn expand_outputs(v: &mut Vec<NamedOutput>, aliases: &AssocMap<String, TypeExpr>)
    ensures
        named_outputs_view(final(v)@) == expanded_outputs(named_outputs_view(old(v)@), aliases@),
{
    let mut i: usize = 0;
    while i < v.len()
        invariant
            v@.len() == old(v)@.len(),
            i <= v@.len(),
            forall|k: int|
                0 <= k < i ==> (#[trigger] v@[k])@ == (NamedOutputView {
                    typ: expanded(old(v)@[k]@.typ, aliases@),
                    ..old(v)@[k]@
                }),
            forall|k: int| i <= k < v@.len() ==> v@[k] == old(v)@[k],
        decreases v.len() - i,
    {
        let t = expand(&v[i].typ, aliases);
        v[i].typ = t;
        i += 1;
    }
    assert(named_outputs_view(v@) =~= expanded_outputs(named_outputs_view(old(v)@), aliases@));
}

pub fn expand_type_aliases_in_decl(d: &mut TopDecl, aliases: &AssocMap<String, TypeExpr>)
    ensures
        final(d)@ == expanded_decl(old(d)@, aliases@),
{
    match d {
        TopDecl::Chip(c) => {
            expand_params(&mut c.inputs, aliases);
            expand_outputs(&mut c.outputs, aliases);
        },
        TopDecl::Fn(f) => {
            expand_params(&mut f.params, aliases);
            let t = expand_opt(&f.return_type, aliases);
            f.return_type = t;
        },
        TopDecl::Callback(c) => {
            expand_params(&mut c.inputs, aliases);
        },
        TopDecl::Let(l) => {
            let t = expand_opt(&l.typ, aliases);
            l.typ = t;
        },
        TopDecl::Var(v) => {
            let t = expand_opt(&v.typ, aliases);
            v.typ = t;
        },
        TopDecl::Out(o) => {
            let t = expand_opt(&o.typ, aliases);
            o.typ = t;
        },
        TopDecl::Buffer(b) => {
            let t = expand_opt(&b.typ, aliases);
            b.typ = t;
        },
        TopDecl::In(i) => {
            expand_type_aliases_in_type_expr(&mut i.typ, aliases);
        },
        _ => {},
    }
}

/// Without aliases a type expression stays as it is.
pub proof fn no_alias_no_change(t: TypeExprView)
    ensures
        expanded(t, Map::empty()) == t,
    decreases t, 0nat,
{
    let none: Aliases = Map::empty();
    match t {
        TypeExprView::Name { .. } => {},
        TypeExprView::Ref { inner, .. } => no_alias_no_change(*inner),
        TypeExprView::Array { inner, .. } => no_alias_no_change(*inner),
        TypeExprView::Tuple { fields, .. } => {
            lemma_no_alias_types(fields, fields.len());
            assert(fields.take(fields.len() as int) =~= fields);
        },
        TypeExprView::Record { fields, .. } => {
            lemma_no_alias_fields(fields, fields.len());
            assert(fields.take(fields.len() as int) =~= fields);
        },
        TypeExprView::Union { options, .. } => {
            lemma_no_alias_types(options, options.len());
            assert(options.take(options.len() as int) =~= options);
        },
    }
}

proof fn lemma_no_alias_types(v: Seq<TypeExprView>, n: nat)
    requires
        n <= v.len(),
    ensures
        expanded_types(v, Map::empty(), n) == v.take(n as int),
    decreases v, n,
{
    if n > 0 {
        lemma_no_alias_types(v, (n - 1) as nat);
        no_alias_no_change(v[n - 1]);
        assert(v.take(n as int) =~= v.take(n - 1).push(v[n - 1]));
    } else {
        assert(v.take(0) =~= Seq::empty());
    }
}

proof fn lemma_no_alias_fields(v: Seq<TypeFieldView>, n: nat)
    requires
        n <= v.len(),
    ensures
        expanded_fields(v, Map::empty(), n) == v.take(n as int),
    decreases v, n,
{
    if n > 0 {
        lemma_no_alias_fields(v, (n - 1) as nat);
        no_alias_no_change(v[n - 1].typ);
        assert(v.take(n as int) =~= v.take(n - 1).push(v[n - 1]));
    } else {
        assert(v.take(0) =~= Seq::empty());
    }
}

} // verus!
