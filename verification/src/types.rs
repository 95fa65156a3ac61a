//! Value types of the language.

use crate::text::{cat2, cat3, cat5, join, joined, owned, str_eq, texts};
use vstd::prelude::*;
use vstd::string::*;

verus! {

#[derive(Debug)]
pub enum Type {
    Bool,
    Int,
    Float,
    String,
    Vector,
    Rotator,
    Quat,
    Color,
    Entity,
    Character,
    Controller,
    Brick,
    Prefab,
    Exec,
    Any,
    Never,
    Ref(Box<Type>),
    Array(Box<Type>),
    Tuple(Vec<Type>),
    Union(Vec<Type>),
    Record(Vec<(std::string::String, Type)>),
}

/// A type as a mathematical value.
pub enum TypeView {
    Bool,
    Int,
    Float,
    String,
    Vector,
    Rotator,
    Quat,
    Color,
    Entity,
    Character,
    Controller,
    Brick,
    Prefab,
    Exec,
    Any,
    Never,
    Ref(Box<TypeView>),
    Array(Box<TypeView>),
    Tuple(Seq<TypeView>),
    Union(Seq<TypeView>),
    Record(Seq<(Seq<char>, TypeView)>),
}

pub type Fields = Seq<(Seq<char>, TypeView)>;

impl Type {
    pub open spec fn model(self) -> TypeView
        decreases self,
    {
        match self {
            Type::Bool => TypeView::Bool,
            Type::Int => TypeView::Int,
            Type::Float => TypeView::Float,
            Type::String => TypeView::String,
            Type::Vector => TypeView::Vector,
            Type::Rotator => TypeView::Rotator,
            Type::Quat => TypeView::Quat,
            Type::Color => TypeView::Color,
            Type::Entity => TypeView::Entity,
            Type::Character => TypeView::Character,
            Type::Controller => TypeView::Controller,
            Type::Brick => TypeView::Brick,
            Type::Prefab => TypeView::Prefab,
            Type::Exec => TypeView::Exec,
            Type::Any => TypeView::Any,
            Type::Never => TypeView::Never,
            Type::Ref(inner) => TypeView::Ref(Box::new(inner.model())),
            Type::Array(inner) => TypeView::Array(Box::new(inner.model())),
            Type::Tuple(v) => TypeView::Tuple(
                Seq::new(
                    v@.len(),
                    |i: int|
                        if 0 <= i < v@.len() {
                            v@[i].model()
                        } else {
                            TypeView::Any
                        },
                ),
            ),
            Type::Union(v) => TypeView::Union(
                Seq::new(
                    v@.len(),
                    |i: int|
                        if 0 <= i < v@.len() {
                            v@[i].model()
                        } else {
                            TypeView::Any
                        },
                ),
            ),
            Type::Record(v) => TypeView::Record(
                Seq::new(
                    v@.len(),
                    |i: int|
                        if 0 <= i < v@.len() {
                            (v@[i].0@, v@[i].1.model())
                        } else {
                            (Seq::empty(), TypeView::Any)
                        },
                ),
            ),
        }
    }
}

impl View for Type {
    type V = TypeView;

    open spec fn view(&self) -> TypeView {
        self.model()
    }
}

/// The types of a list, in order.
pub open spec fn type_views(v: Seq<Type>) -> Seq<TypeView> {
    Seq::new(v.len(), |i: int| v[i]@)
}

/// The fields of a record, in order.
pub open spec fn field_views(v: Seq<(std::string::String, Type)>) -> Fields {
    Seq::new(v.len(), |i: int| (v[i].0@, v[i].1@))
}

pub broadcast proof fn lemma_tuple_view(v: Vec<Type>)
    ensures
        #[trigger] Type::Tuple(v).model() == TypeView::Tuple(type_views(v@)),
{
    assert(Type::Tuple(v).model()->Tuple_0 =~= type_views(v@));
}

pub broadcast proof fn lemma_union_view(v: Vec<Type>)
    ensures
        #[trigger] Type::Union(v).model() == TypeView::Union(type_views(v@)),
{
    assert(Type::Union(v).model()->Union_0 =~= type_views(v@));
}

pub broadcast proof fn lemma_record_view(v: Vec<(std::string::String, Type)>)
    ensures
        #[trigger] Type::Record(v).model() == TypeView::Record(field_views(v@)),
{
    assert(Type::Record(v).model()->Record_0 =~= field_views(v@));
}

pub broadcast group group_type_views {
    lemma_tuple_view,
    lemma_union_view,
    lemma_record_view,
}

impl Clone for Type {
    fn clone(&self) -> (r: Type)
        ensures
            r@ == self@,
        decreases self,
    {
        broadcast use group_type_views;

        match self {
            Type::Bool => Type::Bool,
            Type::Int => Type::Int,
            Type::Float => Type::Float,
            Type::String => Type::String,
            Type::Vector => Type::Vector,
            Type::Rotator => Type::Rotator,
            Type::Quat => Type::Quat,
            Type::Color => Type::Color,
            Type::Entity => Type::Entity,
            Type::Character => Type::Character,
            Type::Controller => Type::Controller,
            Type::Brick => Type::Brick,
            Type::Prefab => Type::Prefab,
            Type::Exec => Type::Exec,
            Type::Any => Type::Any,
            Type::Never => Type::Never,
            Type::Ref(inner) => Type::Ref(Box::new((&**inner).clone())),
            Type::Array(inner) => Type::Array(Box::new((&**inner).clone())),
            Type::Tuple(v) => {
                let mut out: Vec<Type> = Vec::new();
                let mut i: usize = 0;
                while i < v.len()
                    invariant
                        i <= v@.len(),
                        out@.len() == i,
                        forall|k: int| 0 <= k < i ==> (#[trigger] out@[k])@ == v@[k]@,
                        forall|k: int| 0 <= k < v@.len() ==> decreases_to!(self => v@[k]),
                    decreases v.len() - i,
                {
                    out.push(v[i].clone());
                    i += 1;
                }
                assert(type_views(out@) =~= type_views(v@));
                Type::Tuple(out)
            },
            Type::Union(v) => {
                let mut out: Vec<Type> = Vec::new();
                let mut i: usize = 0;
                while i < v.len()
                    invariant
                        i <= v@.len(),
                        out@.len() == i,
                        forall|k: int| 0 <= k < i ==> (#[trigger] out@[k])@ == v@[k]@,
                        forall|k: int| 0 <= k < v@.len() ==> decreases_to!(self => v@[k]),
                    decreases v.len() - i,
                {
                    out.push(v[i].clone());
                    i += 1;
                }
                assert(type_views(out@) =~= type_views(v@));
                Type::Union(out)
            },
            Type::Record(v) => {
                let mut out: Vec<(std::string::String, Type)> = Vec::new();
                let mut i: usize = 0;
                while i < v.len()
                    invariant
                        i <= v@.len(),
                        out@.len() == i,
                        forall|k: int|
                            0 <= k < i ==> (#[trigger] out@[k]).0@ == v@[k].0@ && out@[k].1@
                                == v@[k].1@,
                        forall|k: int| 0 <= k < v@.len() ==> decreases_to!(self => v@[k].1),
                    decreases v.len() - i,
                {
                    out.push((v[i].0.clone(), v[i].1.clone()));
                    i += 1;
                }
                assert(field_views(out@) =~= field_views(v@));
                Type::Record(out)
            },
        }
    }
}

/// The name of the variant of a type without components.
pub open spec fn plain_debug(t: TypeView) -> Seq<char> {
    match t {
        TypeView::Bool => "Bool"@,
        TypeView::Int => "Int"@,
        TypeView::Float => "Float"@,
        TypeView::String => "String"@,
        TypeView::Vector => "Vector"@,
        TypeView::Rotator => "Rotator"@,
        TypeView::Quat => "Quat"@,
        TypeView::Color => "Color"@,
        TypeView::Entity => "Entity"@,
        TypeView::Character => "Character"@,
        TypeView::Controller => "Controller"@,
        TypeView::Brick => "Brick"@,
        TypeView::Prefab => "Prefab"@,
        TypeView::Exec => "Exec"@,
        TypeView::Any => "Any"@,
        _ => "Never"@,
    }
}

/// The surface name of a type without components.
pub open spec fn plain_name(t: TypeView) -> Seq<char> {
    match t {
        TypeView::Bool => "bool"@,
        TypeView::Int => "int"@,
        TypeView::Float => "float"@,
        TypeView::String => "string"@,
        TypeView::Vector => "vector"@,
        TypeView::Rotator => "rotator"@,
        TypeView::Quat => "quat"@,
        TypeView::Color => "color"@,
        TypeView::Entity => "entity"@,
        TypeView::Character => "character"@,
        TypeView::Controller => "controller"@,
        TypeView::Brick => "brick"@,
        TypeView::Prefab => "prefab"@,
        TypeView::Exec => "exec"@,
        TypeView::Any => "any"@,
        _ => "never"@,
    }
}

/// The constructor form of a type, as diagnostics print it. Field names are
/// put between quotes as they are.
pub open spec fn debug_text(t: TypeView) -> Seq<char>
    decreases t,
{
    match t {
        TypeView::Ref(inner) => "Ref("@ + debug_text(*inner) + ")"@,
        TypeView::Array(inner) => "Array("@ + debug_text(*inner) + ")"@,
        TypeView::Tuple(v) => "Tuple(["@ + joined(debug_list(v), ", "@) + "])"@,
        TypeView::Union(v) => "Union(["@ + joined(debug_list(v), ", "@) + "])"@,
        TypeView::Record(v) => "Record(["@ + joined(debug_fields(v), ", "@) + "])"@,
        _ => plain_debug(t),
    }
}

/// The surface form of a type: `int`, `*int`, `int[]`, `(int, bool)`,
/// `int | bool`, `{x: int, y: bool}`.
pub open spec fn type_text(t: TypeView) -> Seq<char>
    decreases t,
{
    match t {
        TypeView::Ref(inner) => "*"@ + type_text(*inner),
        TypeView::Array(inner) => type_text(*inner) + "[]"@,
        TypeView::Tuple(v) => "("@ + joined(type_list(v), ", "@) + ")"@,
        TypeView::Union(v) => joined(type_list(v), " | "@),
        TypeView::Record(v) => "{"@ + joined(type_fields(v), ", "@) + "}"@,
        _ => plain_name(t),
    }
}

pub open spec fn debug_list(v: Seq<TypeView>) -> Seq<Seq<char>>
    decreases v,
{
    Seq::new(
        v.len(),
        |i: int|
            if 0 <= i < v.len() {
                debug_text(v[i])
            } else {
                Seq::empty()
            },
    )
}

pub open spec fn debug_fields(v: Fields) -> Seq<Seq<char>>
    decreases v,
{
    Seq::new(
        v.len(),
        |i: int|
            if 0 <= i < v.len() {
                "(\""@ + v[i].0 + "\", "@ + debug_text(v[i].1) + ")"@
            } else {
                Seq::empty()
            },
    )
}

pub open spec fn type_list(v: Seq<TypeView>) -> Seq<Seq<char>>
    decreases v,
{
    Seq::new(
        v.len(),
        |i: int|
            if 0 <= i < v.len() {
                type_text(v[i])
            } else {
                Seq::empty()
            },
    )
}

pub open spec fn type_fields(v: Fields) -> Seq<Seq<char>>
    decreases v,
{
    Seq::new(
        v.len(),
        |i: int|
            if 0 <= i < v.len() {
                v[i].0 + ": "@ + type_text(v[i].1)
            } else {
                Seq::empty()
            },
    )
}

fn plain_debug_of(t: &Type) -> (r: &'static str)
    ensures
        r@ == plain_debug(t@),
{
    match t {
        Type::Bool => "Bool",
        Type::Int => "Int",
        Type::Float => "Float",
        Type::String => "String",
        Type::Vector => "Vector",
        Type::Rotator => "Rotator",
        Type::Quat => "Quat",
        Type::Color => "Color",
        Type::Entity => "Entity",
        Type::Character => "Character",
        Type::Controller => "Controller",
        Type::Brick => "Brick",
        Type::Prefab => "Prefab",
        Type::Exec => "Exec",
        Type::Any => "Any",
        _ => "Never",
    }
}

fn plain_name_of(t: &Type) -> (r: &'static str)
    ensures
        r@ == plain_name(t@),
{
    match t {
        Type::Bool => "bool",
        Type::Int => "int",
        Type::Float => "float",
        Type::String => "string",
        Type::Vector => "vector",
        Type::Rotator => "rotator",
        Type::Quat => "quat",
        Type::Color => "color",
        Type::Entity => "entity",
        Type::Character => "character",
        Type::Controller => "controller",
        Type::Brick => "brick",
        Type::Prefab => "prefab",
        Type::Exec => "exec",
        Type::Any => "any",
        _ => "never",
    }
}

/// Renders a type in constructor form.
pub fn type_debug(t: &Type) -> (r: std::string::String)
    ensures
        r@ == debug_text(t@),
    decreases t, 1nat,
{
    broadcast use group_type_views;

    match t {
        Type::Ref(inner) => cat3("Ref(", type_debug(inner).as_str(), ")"),
        Type::Array(inner) => cat3("Array(", type_debug(inner).as_str(), ")"),
        Type::Tuple(v) => {
            let parts = debug_parts(v, t);
            assert(texts(parts@) =~= debug_list(type_views(v@)));
            cat3("Tuple([", join(&parts, ", ").as_str(), "])")
        },
        Type::Union(v) => {
            let parts = debug_parts(v, t);
            assert(texts(parts@) =~= debug_list(type_views(v@)));
            cat3("Union([", join(&parts, ", ").as_str(), "])")
        },
        Type::Record(v) => {
            let mut parts: Vec<std::string::String> = Vec::new();
            let mut i: usize = 0;
            while i < v.len()
                invariant
                    i <= v@.len(),
                    parts@.len() == i,
                    forall|k: int|
                        0 <= k < i ==> (#[trigger] parts@[k])@ == "(\""@ + v@[k].0@ + "\", "@
                            + debug_text(v@[k].1@) + ")"@,
                    forall|k: int| 0 <= k < v@.len() ==> decreases_to!(t => v@[k].1),
                decreases v.len() - i,
            {
                let inner = type_debug(&v[i].1);
                parts.push(cat5("(\"", v[i].0.as_str(), "\", ", inner.as_str(), ")"));
                i += 1;
            }
            assert(texts(parts@) =~= debug_fields(field_views(v@)));
            cat3("Record([", join(&parts, ", ").as_str(), "])")
        },
        _ => owned(plain_debug_of(t)),
    }
}

fn debug_parts(v: &Vec<Type>, whole: &Type) -> (parts: Vec<std::string::String>)
    requires
        forall|k: int| 0 <= k < v@.len() ==> decreases_to!(whole => v@[k]),
    ensures
        parts@.len() == v@.len(),
        forall|k: int| 0 <= k < v@.len() ==> (#[trigger] parts@[k])@ == debug_text(v@[k]@),
    decreases whole, 0nat,
{
    let mut parts: Vec<std::string::String> = Vec::new();
    let mut i: usize = 0;
    while i < v.len()
        invariant
            i <= v@.len(),
            parts@.len() == i,
            forall|k: int| 0 <= k < i ==> (#[trigger] parts@[k])@ == debug_text(v@[k]@),
            forall|k: int| 0 <= k < v@.len() ==> decreases_to!(whole => v@[k]),
        decreases v.len() - i,
    {
        parts.push(type_debug(&v[i]));
        i += 1;
    }
    parts
}

/// Renders a type in its surface form.
pub fn type_str(t: &Type) -> (r: std::string::String)
    ensures
        r@ == type_text(t@),
    decreases t, 1nat,
{
    broadcast use group_type_views;

    match t {
        Type::Ref(inner) => cat2("*", type_str(inner).as_str()),
        Type::Array(inner) => cat2(type_str(inner).as_str(), "[]"),
        Type::Tuple(v) => {
            let parts = str_parts(v, t);
            assert(texts(parts@) =~= type_list(type_views(v@)));
            cat3("(", join(&parts, ", ").as_str(), ")")
        },
        Type::Union(v) => {
            let parts = str_parts(v, t);
            assert(texts(parts@) =~= type_list(type_views(v@)));
            join(&parts, " | ")
        },
        Type::Record(v) => {
            let mut parts: Vec<std::string::String> = Vec::new();
            let mut i: usize = 0;
            while i < v.len()
                invariant
                    i <= v@.len(),
                    parts@.len() == i,
                    forall|k: int|
                        0 <= k < i ==> (#[trigger] parts@[k])@ == v@[k].0@ + ": "@ + type_text(
                            v@[k].1@,
                        ),
                    forall|k: int| 0 <= k < v@.len() ==> decreases_to!(t => v@[k].1),
                decreases v.len() - i,
            {
                let inner = type_str(&v[i].1);
                parts.push(cat3(v[i].0.as_str(), ": ", inner.as_str()));
                i += 1;
            }
            assert(texts(parts@) =~= type_fields(field_views(v@)));
            cat3("{", join(&parts, ", ").as_str(), "}")
        },
        _ => owned(plain_name_of(t)),
    }
}

fn str_parts(v: &Vec<Type>, whole: &Type) -> (parts: Vec<std::string::String>)
    requires
        forall|k: int| 0 <= k < v@.len() ==> decreases_to!(whole => v@[k]),
    ensures
        parts@.len() == v@.len(),
        forall|k: int| 0 <= k < v@.len() ==> (#[trigger] parts@[k])@ == type_text(v@[k]@),
    decreases whole, 0nat,
{
    let mut parts: Vec<std::string::String> = Vec::new();
    let mut i: usize = 0;
    while i < v.len()
        invariant
            i <= v@.len(),
            parts@.len() == i,
            forall|k: int| 0 <= k < i ==> (#[trigger] parts@[k])@ == type_text(v@[k]@),
            forall|k: int| 0 <= k < v@.len() ==> decreases_to!(whole => v@[k]),
        decreases v.len() - i,
    {
        parts.push(type_str(&v[i]));
        i += 1;
    }
    parts
}

/// Whether two types are the same.
pub fn type_eq(a: &Type, b: &Type) -> (r: bool)
    ensures
        r == (a@ == b@),
    decreases a,
{
    broadcast use group_type_views;

    match (a, b) {
        (Type::Ref(x), Type::Ref(y)) => type_eq(x, y),
        (Type::Array(x), Type::Array(y)) => type_eq(x, y),
        (Type::Tuple(x), Type::Tuple(y)) => {
            if x.len() != y.len() {
                assert(type_views(x@).len() != type_views(y@).len());
                return false;
            }
            let mut i: usize = 0;
            while i < x.len()
                invariant
                    i <= x@.len(),
                    x@.len() == y@.len(),
                    a@ == TypeView::Tuple(type_views(x@)),
                    b@ == TypeView::Tuple(type_views(y@)),
                    forall|k: int| 0 <= k < i ==> type_views(x@)[k] == type_views(y@)[k],
                    forall|k: int| 0 <= k < x@.len() ==> decreases_to!(a => x@[k]),
                decreases x.len() - i,
            {
                if !type_eq(&x[i], &y[i]) {
                    assert(type_views(x@)[i as int] != type_views(y@)[i as int]);
                    return false;
                }
                i += 1;
            }
            assert(type_views(x@) =~= type_views(y@));
            true
        },
        (Type::Union(x), Type::Union(y)) => {
            if x.len() != y.len() {
                assert(type_views(x@).len() != type_views(y@).len());
                return false;
            }
            let mut i: usize = 0;
            while i < x.len()
                invariant
                    i <= x@.len(),
                    x@.len() == y@.len(),
                    a@ == TypeView::Union(type_views(x@)),
                    b@ == TypeView::Union(type_views(y@)),
                    forall|k: int| 0 <= k < i ==> type_views(x@)[k] == type_views(y@)[k],
                    forall|k: int| 0 <= k < x@.len() ==> decreases_to!(a => x@[k]),
                decreases x.len() - i,
            {
                if !type_eq(&x[i], &y[i]) {
                    assert(type_views(x@)[i as int] != type_views(y@)[i as int]);
                    return false;
                }
                i += 1;
            }
            assert(type_views(x@) =~= type_views(y@));
            true
        },
        (Type::Record(x), Type::Record(y)) => {
            if x.len() != y.len() {
                assert(field_views(x@).len() != field_views(y@).len());
                return false;
            }
            let mut i: usize = 0;
            while i < x.len()
                invariant
                    i <= x@.len(),
                    x@.len() == y@.len(),
                    a@ == TypeView::Record(field_views(x@)),
                    b@ == TypeView::Record(field_views(y@)),
                    forall|k: int| 0 <= k < i ==> field_views(x@)[k] == field_views(y@)[k],
                    forall|k: int| 0 <= k < x@.len() ==> decreases_to!(a => x@[k].1),
                decreases x.len() - i,
            {
                if !str_eq(x[i].0.as_str(), y[i].0.as_str()) || !type_eq(&x[i].1, &y[i].1) {
                    assert(field_views(x@)[i as int] != field_views(y@)[i as int]);
                    return false;
                }
                i += 1;
            }
            assert(field_views(x@) =~= field_views(y@));
            true
        },
        _ => same_kind(a, b) && is_plain(a),
    }
}

/// A number for each constructor of types.
pub open spec fn kind_index(t: TypeView) -> nat {
    match t {
        TypeView::Bool => 0,
        TypeView::Int => 1,
        TypeView::Float => 2,
        TypeView::String => 3,
        TypeView::Vector => 4,
        TypeView::Rotator => 5,
        TypeView::Quat => 6,
        TypeView::Color => 7,
        TypeView::Entity => 8,
        TypeView::Character => 9,
        TypeView::Controller => 10,
        TypeView::Brick => 11,
        TypeView::Prefab => 12,
        TypeView::Exec => 13,
        TypeView::Any => 14,
        TypeView::Never => 15,
        TypeView::Ref(_) => 16,
        TypeView::Array(_) => 17,
        TypeView::Tuple(_) => 18,
        TypeView::Union(_) => 19,
        TypeView::Record(_) => 20,
    }
}

fn kind_of(t: &Type) -> (r: usize)
    ensures
        r == kind_index(t@),
{
    match t {
        Type::Bool => 0,
        Type::Int => 1,
        Type::Float => 2,
        Type::String => 3,
        Type::Vector => 4,
        Type::Rotator => 5,
        Type::Quat => 6,
        Type::Color => 7,
        Type::Entity => 8,
        Type::Character => 9,
        Type::Controller => 10,
        Type::Brick => 11,
        Type::Prefab => 12,
        Type::Exec => 13,
        Type::Any => 14,
        Type::Never => 15,
        Type::Ref(_) => 16,
        Type::Array(_) => 17,
        Type::Tuple(_) => 18,
        Type::Union(_) => 19,
        Type::Record(_) => 20,
    }
}

/// Whether two types have the same outermost constructor.
pub fn same_kind(a: &Type, b: &Type) -> (r: bool)
    ensures
        r == (kind_index(a@) == kind_index(b@)),
{
    kind_of(a) == kind_of(b)
}

fn is_plain(t: &Type) -> (r: bool)
    ensures
        r == (kind_index(t@) < 16),
{
    kind_of(t) < 16
}

/// A reference stands for what it refers to; other types for themselves.
pub open spec fn unref(t: TypeView) -> TypeView {
    match t {
        TypeView::Ref(inner) => *inner,
        other => other,
    }
}

/// Strips one level of reference.
pub fn unwrap_ref(t: &Type) -> (r: Type)
    ensures
        r@ == unref(t@),
{
    match t {
        Type::Ref(inner) => (&**inner).clone(),
        other => other.clone(),
    }
}

/// The type of the first field called `name`.
pub open spec fn field_type(fields: Fields, name: Seq<char>) -> Option<TypeView>
    decreases fields.len(),
{
    if fields.len() == 0 {
        None
    } else if fields[0].0 == name {
        Some(fields[0].1)
    } else {
        field_type(fields.drop_first(), name)
    }
}

pub fn find_field<'a>(fields: &'a Vec<(std::string::String, Type)>, name: &str) -> (r: Option<&'a Type>)
    ensures
        r is Some <==> field_type(field_views(fields@), name@) is Some,
        r matches Some(t) ==> field_type(field_views(fields@), name@) == Some(t@),
{
    let ghost all = field_views(fields@);
    let mut i: usize = 0;
    assert(all.skip(0) =~= all);
    while i < fields.len()
        invariant
            i <= fields@.len(),
            all == field_views(fields@),
            field_type(all, name@) == field_type(all.skip(i as int), name@),
        decreases fields.len() - i,
    {
        assert(all.skip(i as int).drop_first() =~= all.skip(i + 1));
        if str_eq(fields[i].0.as_str(), name) {
            return Some(&fields[i].1);
        }
        i += 1;
    }
    None
}

/// The type of a field of a record, or `any` for whatever is not there.
pub open spec fn field_or_any(t: TypeView, name: Seq<char>) -> TypeView {
    match t {
        TypeView::Record(fields) => match field_type(fields, name) {
            Some(ft) => ft,
            None => TypeView::Any,
        },
        _ => TypeView::Any,
    }
}

pub fn field_of(t: &Type, name: &str) -> (r: Type)
    ensures
        r@ == field_or_any(t@, name@),
{
    broadcast use group_type_views;

    match t {
        Type::Record(fields) => match find_field(fields, name) {
            Some(ft) => ft.clone(),
            None => Type::Any,
        },
        _ => Type::Any,
    }
}

} // verus!
