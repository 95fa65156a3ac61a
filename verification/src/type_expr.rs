//! Type expressions as mathematical values, and their surface form.

use crate::ast::{RecordTypeField, TypeExpr};
use crate::diagnostic::RangeView;
use crate::text::{cat2, cat3, join, joined, texts};
use vstd::prelude::*;
use vstd::string::*;

verus! {

/// A type expression as a mathematical value.
pub enum TypeExprView {
    Name { name: Seq<char>, range: RangeView },
    Ref { inner: Box<TypeExprView>, range: RangeView },
    Array { inner: Box<TypeExprView>, range: RangeView },
    Tuple { fields: Seq<TypeExprView>, range: RangeView },
    Union { options: Seq<TypeExprView>, range: RangeView },
    Record { fields: Seq<TypeFieldView>, range: RangeView },
}

pub struct TypeFieldView {
    pub name: Seq<char>,
    pub typ: TypeExprView,
    pub range: RangeView,
}

impl TypeExpr {
    pub open spec fn model(self) -> TypeExprView
        decreases self,
    {
        match self {
            TypeExpr::Name { name, range } => TypeExprView::Name { name: name@, range: range@ },
            TypeExpr::Ref { inner, range } => TypeExprView::Ref {
                inner: Box::new(inner.model()),
                range: range@,
            },
            TypeExpr::Array { inner, range } => TypeExprView::Array {
                inner: Box::new(inner.model()),
                range: range@,
            },
            TypeExpr::Tuple { fields, range } => TypeExprView::Tuple {
                fields: models(fields@),
                range: range@,
            },
            TypeExpr::Union { options, range } => TypeExprView::Union {
                options: models(options@),
                range: range@,
            },
            TypeExpr::Record { fields, range } => TypeExprView::Record {
                fields: field_models(fields@),
                range: range@,
            },
        }
    }
}

pub open spec fn models(v: Seq<TypeExpr>) -> Seq<TypeExprView>
    decreases v,
{
    Seq::new(
        v.len(),
        |i: int|
            if 0 <= i < v.len() {
                v[i].model()
            } else {
                arbitrary()
            },
    )
}

pub open spec fn field_models(v: Seq<RecordTypeField>) -> Seq<TypeFieldView>
    decreases v,
{
    Seq::new(
        v.len(),
        |i: int|
            if 0 <= i < v.len() {
                TypeFieldView { name: v[i].name@, typ: v[i].typ.model(), range: v[i].range@ }
            } else {
                arbitrary()
            },
    )
}

impl View for TypeExpr {
    type V = TypeExprView;

    open spec fn view(&self) -> TypeExprView {
        self.model()
    }
}

impl View for RecordTypeField {
    type V = TypeFieldView;

    open spec fn view(&self) -> TypeFieldView {
        TypeFieldView { name: self.name@, typ: self.typ@, range: self.range@ }
    }
}

fn clone_all(v: &Vec<TypeExpr>) -> (r: Vec<TypeExpr>)
    ensures
        models(r@) == models(v@),
    decreases v@, 0nat,
{
    let mut out: Vec<TypeExpr> = Vec::new();
    let mut i: usize = 0;
    while i < v.len()
        invariant
            i <= v@.len(),
            out@.len() == i,
            forall|k: int| 0 <= k < i ==> (#[trigger] out@[k]).model() == v@[k].model(),
        decreases v.len() - i,
    {
        out.push(v[i].clone());
        i += 1;
    }
    assert(models(out@) =~= models(v@));
    out
}

fn clone_fields(v: &Vec<RecordTypeField>) -> (r: Vec<RecordTypeField>)
    ensures
        field_models(r@) == field_models(v@),
    decreases v@, 0nat,
{
    let mut out: Vec<RecordTypeField> = Vec::new();
    let mut i: usize = 0;
    while i < v.len()
        invariant
            i <= v@.len(),
            out@.len() == i,
            forall|k: int| 0 <= k < i ==> (#[trigger] out@[k])@ == v@[k]@,
        decreases v.len() - i,
    {
        let f = &v[i];
        out.push(
            RecordTypeField {
                name: f.name.clone(),
                typ: f.typ.clone(),
                range: f.range.clone(),
            },
        );
        i += 1;
    }
    assert forall|k: int| 0 <= k < v@.len() implies field_models(out@)[k] == field_models(v@)[k] by {
        assert(out@[k]@ == v@[k]@);
    }
    assert(field_models(out@) =~= field_models(v@));
    out
}

impl Clone for TypeExpr {
    fn clone(&self) -> (r: TypeExpr)
        ensures
            r@ == self@,
        decreases self, 1nat,
    {
        match self {
            TypeExpr::Name { name, range } => TypeExpr::Name {
                name: name.clone(),
                range: range.clone(),
            },
            TypeExpr::Ref { inner, range } => TypeExpr::Ref {
                inner: Box::new((&**inner).clone()),
                range: range.clone(),
            },
            TypeExpr::Array { inner, range } => TypeExpr::Array {
                inner: Box::new((&**inner).clone()),
                range: range.clone(),
            },
            TypeExpr::Tuple { fields, range } => TypeExpr::Tuple {
                fields: clone_all(fields),
                range: range.clone(),
            },
            TypeExpr::Union { options, range } => TypeExpr::Union {
                options: clone_all(options),
                range: range.clone(),
            },
            TypeExpr::Record { fields, range } => TypeExpr::Record {
                fields: clone_fields(fields),
                range: range.clone(),
            },
        }
    }
}

impl Clone for RecordTypeField {
    fn clone(&self) -> (r: RecordTypeField)
        ensures
            r@ == self@,
    {
        RecordTypeField {
            name: self.name.clone(),
            typ: self.typ.clone(),
            range: self.range.clone(),
        }
    }
}

/// The surface form of a type expression, spelled as types are.
pub open spec fn type_expr_text(t: TypeExprView) -> Seq<char>
    decreases t,
{
    match t {
        TypeExprView::Name { name, .. } => name,
        TypeExprView::Ref { inner, .. } => "*"@ + type_expr_text(*inner),
        TypeExprView::Array { inner, .. } => type_expr_text(*inner) + "[]"@,
        TypeExprView::Tuple { fields, .. } => "("@ + joined(type_expr_texts(fields), ", "@) + ")"@,
        TypeExprView::Union { options, .. } => joined(type_expr_texts(options), " | "@),
        TypeExprView::Record { fields, .. } => "{"@ + joined(type_field_texts(fields), ", "@)
            + "}"@,
    }
}

pub open spec fn type_expr_texts(v: Seq<TypeExprView>) -> Seq<Seq<char>>
    decreases v,
{
    Seq::new(
        v.len(),
        |i: int|
            if 0 <= i < v.len() {
                type_expr_text(v[i])
            } else {
                Seq::empty()
            },
    )
}

pub open spec fn type_field_texts(v: Seq<TypeFieldView>) -> Seq<Seq<char>>
    decreases v,
{
    Seq::new(
        v.len(),
        |i: int|
            if 0 <= i < v.len() {
                v[i].name + ": "@ + type_expr_text(v[i].typ)
            } else {
                Seq::empty()
            },
    )
}

fn expr_parts(v: &Vec<TypeExpr>) -> (r: Vec<String>)
    ensures
        texts(r@) == type_expr_texts(models(v@)),
    decreases v@, 0nat,
{
    let mut out: Vec<String> = Vec::new();
    let mut i: usize = 0;
    while i < v.len()
        invariant
            i <= v@.len(),
            out@.len() == i,
            forall|k: int| 0 <= k < i ==> (#[trigger] out@[k])@ == type_expr_text(v@[k]@),
        decreases v.len() - i,
    {
        out.push(type_expr_str(&v[i]));
        i += 1;
    }
    assert(texts(out@) =~= type_expr_texts(models(v@)));
    out
}

fn field_parts(v: &Vec<RecordTypeField>) -> (r: Vec<String>)
    ensures
        texts(r@) == type_field_texts(field_models(v@)),
    decreases v@, 0nat,
{
    let mut out: Vec<String> = Vec::new();
    let mut i: usize = 0;
    while i < v.len()
        invariant
            i <= v@.len(),
            out@.len() == i,
            forall|k: int|
                0 <= k < i ==> (#[trigger] out@[k])@ == v@[k].name@ + ": "@ + type_expr_text(
                    v@[k].typ@,
                ),
        decreases v.len() - i,
    {
        let inner = type_expr_str(&v[i].typ);
        out.push(cat3(v[i].name.as_str(), ": ", inner.as_str()));
        i += 1;
    }
    assert(texts(out@) =~= type_field_texts(field_models(v@)));
    out
}

/// Renders a type expression in its surface form.
pub fn type_expr_str(t: &TypeExpr) -> (r: String)
    ensures
        r@ == type_expr_text(t@),
    decreases t, 1nat,
{
    match t {
        TypeExpr::Name { name, .. } => name.clone(),
        TypeExpr::Ref { inner, .. } => cat2("*", type_expr_str(inner).as_str()),
        TypeExpr::Array { inner, .. } => cat2(type_expr_str(inner).as_str(), "[]"),
        TypeExpr::Tuple { fields, .. } => {
            let parts = expr_parts(fields);
            cat3("(", join(&parts, ", ").as_str(), ")")
        },
        TypeExpr::Union { options, .. } => {
            let parts = expr_parts(options);
            join(&parts, " | ")
        },
        TypeExpr::Record { fields, .. } => {
            let parts = field_parts(fields);
            cat3("{", join(&parts, ", ").as_str(), "}")
        },
    }
}

} // verus!
