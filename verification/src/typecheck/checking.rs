//! What declarations make known, and what statements and declarations report.

use crate::ast::{
    ArrayDecl, ArrayElem, Assign, AwaitStmt, BufferDecl, CallArg, ChipDecl, Emit, EventDecl, Expr,
    FnDecl, Handler, If, InDecl, LetBinding, LetDecl, NamedOutput, OutBinding, Param,
    RecordDestructField, Stmt, TopDecl, TypeAliasDecl, VarDecl,
};
use crate::catalog::{CallSpec, Catalog, EventSpec, FieldView, ParamSpec};
use crate::diagnostic::{DiagnosticView, RangeView, Severity};
use crate::literal::literal_of;
use crate::text::decimal;
use crate::type_expr::TypeExprView;
use crate::typecheck::ctx::{ExecMode, State};
use crate::typecheck::judge::{
    annotated, baked_element, checked_assign, checked_await, checked_buffer, checked_emit,
    checked_stmt, inferred, initialized, out_annotated, target_type,
};
use crate::typecheck::register::{
    declared_callback, declared_once, init_type, literal_type, named_output_fields, param_fields,
    primitive, registered, registered_var, resolved, resolved_fields, resolved_list,
};
use crate::typecheck::rules::{
    argument, arity, bound_event_params, bound_fields, bound_let, bound_params, bound_trigger,
    bound_tuple, builtin_type, counted, declared_above, declared_call, declared_result, exec_call,
    has_exec_arg, namespace_call, positional_count, unassigned_reports,
};
use crate::typecheck::scope::{declared_leaves_others, SymView, SymbolKind};
use crate::typecheck::typing::{one_error, one_warning};
use crate::types::{debug_text, field_type, type_text, unref, TypeView};
use vstd::prelude::*;

verus! {

// ---------- types as they are written ----------

/// The words for types without parts.
pub proof fn type_words(t: TypeView)
    ensures
        primitive("bool"@) == Some(TypeView::Bool),
        primitive("int"@) == Some(TypeView::Int),
        primitive("float"@) == Some(TypeView::Float),
        primitive("string"@) == Some(TypeView::String),
        primitive("vector"@) == Some(TypeView::Vector),
        primitive("rotator"@) == Some(TypeView::Rotator),
        primitive("quat"@) == Some(TypeView::Quat),
        primitive("color"@) == Some(TypeView::Color),
        primitive("entity"@) == Some(TypeView::Entity),
        primitive("character"@) == Some(TypeView::Character),
        primitive("controller"@) == Some(TypeView::Controller),
        primitive("brick"@) == Some(TypeView::Brick),
        primitive("prefab"@) == Some(TypeView::Prefab),
        primitive("exec"@) == Some(TypeView::Exec),
        primitive("any"@) == Some(TypeView::Any),
        primitive("never"@) == Some(TypeView::Never),
        t is Bool ==> type_text(t) == "bool"@ && debug_text(t) == "Bool"@,
        t is Int ==> type_text(t) == "int"@ && debug_text(t) == "Int"@,
        t is Float ==> type_text(t) == "float"@ && debug_text(t) == "Float"@,
        t is String ==> type_text(t) == "string"@ && debug_text(t) == "String"@,
        t is Vector ==> type_text(t) == "vector"@ && debug_text(t) == "Vector"@,
        t is Rotator ==> type_text(t) == "rotator"@ && debug_text(t) == "Rotator"@,
        t is Quat ==> type_text(t) == "quat"@ && debug_text(t) == "Quat"@,
        t is Color ==> type_text(t) == "color"@ && debug_text(t) == "Color"@,
        t is Entity ==> type_text(t) == "entity"@ && debug_text(t) == "Entity"@,
        t is Character ==> type_text(t) == "character"@ && debug_text(t) == "Character"@,
        t is Controller ==> type_text(t) == "controller"@ && debug_text(t) == "Controller"@,
        t is Brick ==> type_text(t) == "brick"@ && debug_text(t) == "Brick"@,
        t is Prefab ==> type_text(t) == "prefab"@ && debug_text(t) == "Prefab"@,
        t is Exec ==> type_text(t) == "exec"@ && debug_text(t) == "Exec"@,
        t is Any ==> type_text(t) == "any"@ && debug_text(t) == "Any"@,
        t is Never ==> type_text(t) == "never"@ && debug_text(t) == "Never"@,
{
    crate::typecheck::laws::plain_types_read_back(TypeView::Bool);
    crate::typecheck::laws::plain_types_read_back(TypeView::Int);
    crate::typecheck::laws::plain_types_read_back(TypeView::Float);
    crate::typecheck::laws::plain_types_read_back(TypeView::String);
    crate::typecheck::laws::plain_types_read_back(TypeView::Vector);
    crate::typecheck::laws::plain_types_read_back(TypeView::Rotator);
    crate::typecheck::laws::plain_types_read_back(TypeView::Quat);
    crate::typecheck::laws::plain_types_read_back(TypeView::Color);
    crate::typecheck::laws::plain_types_read_back(TypeView::Entity);
    crate::typecheck::laws::plain_types_read_back(TypeView::Character);
    crate::typecheck::laws::plain_types_read_back(TypeView::Controller);
    crate::typecheck::laws::plain_types_read_back(TypeView::Brick);
    crate::typecheck::laws::plain_types_read_back(TypeView::Prefab);
    crate::typecheck::laws::plain_types_read_back(TypeView::Exec);
    crate::typecheck::laws::plain_types_read_back(TypeView::Any);
    crate::typecheck::laws::plain_types_read_back(TypeView::Never);
}

/// How types with parts are written.
pub proof fn compound_types_are_written(a: TypeView, b: TypeView, n: Seq<char>, m: Seq<char>)
    ensures
        type_text(TypeView::Ref(Box::new(a))) == "*"@ + type_text(a),
        type_text(TypeView::Array(Box::new(a))) == type_text(a) + "[]"@,
        type_text(TypeView::Tuple(seq![a, b])) == "("@ + (type_text(a) + ", "@ + type_text(b)) + ")"@,
        type_text(TypeView::Union(seq![a, b])) == type_text(a) + " | "@ + type_text(b),
        type_text(TypeView::Record(seq![(n, a), (m, b)])) == "{"@ + ((n + ": "@ + type_text(a))
            + ", "@ + (m + ": "@ + type_text(b))) + "}"@,
        type_text(TypeView::Record(seq![(n, a)])) == "{"@ + (n + ": "@ + type_text(a)) + "}"@,
{
    let pair = seq![a, b];
    let fields = seq![(n, a), (m, b)];
    let list = crate::types::type_list(pair);
    let shown = crate::types::type_fields(fields);
    assert(list =~= seq![type_text(a), type_text(b)]);
    assert(shown =~= seq![n + ": "@ + type_text(a), m + ": "@ + type_text(b)]);
    lemma_joined_two(type_text(a), type_text(b), ", "@);
    lemma_joined_two(type_text(a), type_text(b), " | "@);
    lemma_joined_two(n + ": "@ + type_text(a), m + ": "@ + type_text(b), ", "@);
    let one = crate::types::type_fields(seq![(n, a)]);
    assert(one =~= seq![n + ": "@ + type_text(a)]);
}

pub proof fn lemma_joined_two(a: Seq<char>, b: Seq<char>, sep: Seq<char>)
    ensures
        crate::text::joined(seq![a, b], sep) == a + sep + b,
{
    let v = seq![a, b];
    assert(v.drop_last() =~= seq![a]);
    assert(crate::text::joined(seq![a], sep) == a);
}

/// What a type expression denotes: a word its type, the name of an alias what
/// the alias stands for, and parts what their parts denote. Any other name is
/// reported and stands for `any`.
pub proof fn type_expressions_denote(s: State, t: TypeExprView)
    ensures
        t matches TypeExprView::Name { name, range } ==> match primitive(name) {
            Some(p) => resolved(s, t) == (s, p),
            None => match s.lookup(name) {
                Some(sym) => if sym.kind == SymbolKind::Type {
                    resolved(s, t) == (s, sym.ty)
                } else {
                    resolved(s, t).1 is Any && one_error(
                        s,
                        resolved(s, t).0,
                        "WS002"@,
                        "unknown type '"@ + name + "'"@,
                        range,
                    )
                },
                None => resolved(s, t).1 is Any && one_error(
                    s,
                    resolved(s, t).0,
                    "WS002"@,
                    "unknown type '"@ + name + "'"@,
                    range,
                ),
            },
        },
        t matches TypeExprView::Ref { inner, .. } ==> resolved(s, t) == (
            resolved(s, *inner).0,
            TypeView::Ref(Box::new(resolved(s, *inner).1)),
        ),
        t matches TypeExprView::Array { inner, .. } ==> resolved(s, t) == (
            resolved(s, *inner).0,
            TypeView::Array(Box::new(resolved(s, *inner).1)),
        ),
        t matches TypeExprView::Tuple { fields, .. } ==> (resolved(s, t).1 matches TypeView::Tuple(
            tys,
        ) && tys.len() == fields.len()),
        t matches TypeExprView::Union { options, .. } ==> (resolved(s, t).1 matches TypeView::Union(
            tys,
        ) && tys.len() == options.len()),
        t matches TypeExprView::Record { fields, .. } ==> (resolved(s, t).1 matches TypeView::Record(
            fs,
        ) && fs.len() == fields.len() && forall|i: int|
            0 <= i < fs.len() ==> (#[trigger] fs[i]).0 == fields[i].name),
{
    match t {
        TypeExprView::Tuple { fields, .. } => lemma_listed(s, fields, fields.len()),
        TypeExprView::Union { options, .. } => lemma_listed(s, options, options.len()),
        TypeExprView::Record { fields, .. } => lemma_named(s, fields, fields.len()),
        _ => {},
    }
}

proof fn lemma_listed(s: State, v: Seq<TypeExprView>, n: nat)
    requires
        n <= v.len(),
    ensures
        resolved_list(s, v, n).1.len() == n,
        forall|i: int|
            0 <= i < n ==> #[trigger] resolved_list(s, v, n).1[i] == resolved(
                resolved_list(s, v, i as nat).0,
                v[i],
            ).1,
    decreases n,
{
    if n > 0 {
        lemma_listed(s, v, (n - 1) as nat);
    }
}

proof fn lemma_named(s: State, v: Seq<crate::type_expr::TypeFieldView>, n: nat)
    requires
        n <= v.len(),
    ensures
        resolved_fields(s, v, n).1.len() == n,
        forall|i: int|
            0 <= i < n ==> (#[trigger] resolved_fields(s, v, n).1[i]).0 == v[i].name
                && resolved_fields(s, v, n).1[i].1 == resolved(
                resolved_fields(s, v, i as nat).0,
                v[i].typ,
            ).1,
    decreases n,
{
    if n > 0 {
        lemma_named(s, v, (n - 1) as nat);
    }
}

/// The part at each place of a tuple or union, and the field at each place of a
/// record, denotes what is written there.
pub proof fn parts_denote_in_order(s: State, t: TypeExprView, i: int)
    ensures
        t matches TypeExprView::Tuple { fields, .. } ==> 0 <= i < fields.len() ==> resolved(
            s,
            t,
        ).1->Tuple_0[i] == resolved(resolved_list(s, fields, i as nat).0, fields[i]).1,
        t matches TypeExprView::Union { options, .. } ==> 0 <= i < options.len() ==> resolved(
            s,
            t,
        ).1->Union_0[i] == resolved(resolved_list(s, options, i as nat).0, options[i]).1,
        t matches TypeExprView::Record { fields, .. } ==> 0 <= i < fields.len() ==> resolved(
            s,
            t,
        ).1->Record_0[i].1 == resolved(resolved_fields(s, fields, i as nat).0, fields[i].typ).1,
{
    match t {
        TypeExprView::Tuple { fields, .. } => lemma_listed(s, fields, fields.len()),
        TypeExprView::Union { options, .. } => lemma_listed(s, options, options.len()),
        TypeExprView::Record { fields, .. } => lemma_named(s, fields, fields.len()),
        _ => {},
    }
}

// ---------- what declarations make known ----------

/// Whether a name is known as a symbol of a kind and type, with nothing more.
pub open spec fn known_as(s: State, name: Seq<char>, kind: SymbolKind, ty: TypeView) -> bool {
    s.lookup(name) matches Some(sym) && sym.kind == kind && sym.ty == ty && sym.name == name
}

/// A variable is a reference to its annotated type, or to the type that its
/// initializer is written in.
pub proof fn variables_are_declared(s: State, v: VarDecl)
    ensures
        v.typ matches Some(t) ==> known_as(
            registered_var(s, v),
            v.name@,
            SymbolKind::Var,
            TypeView::Ref(Box::new(resolved(s, t@).1)),
        ),
        v.typ is None && v.init is None ==> known_as(
            registered_var(s, v),
            v.name@,
            SymbolKind::Var,
            TypeView::Ref(Box::new(TypeView::Any)),
        ),
        v.typ is None && v.init is Some && v.init->0 is IntLit ==> known_as(
            registered_var(s, v),
            v.name@,
            SymbolKind::Var,
            TypeView::Ref(Box::new(TypeView::Int)),
        ),
        v.typ is None && v.init is Some && v.init->0 is FloatLit ==> known_as(
            registered_var(s, v),
            v.name@,
            SymbolKind::Var,
            TypeView::Ref(Box::new(TypeView::Float)),
        ),
        v.typ is None && v.init is Some && v.init->0 is BoolLit ==> known_as(
            registered_var(s, v),
            v.name@,
            SymbolKind::Var,
            TypeView::Ref(Box::new(TypeView::Bool)),
        ),
        v.typ is None && v.init is Some && (v.init->0 is StringLit || v.init->0 is InterpLit) ==> known_as(
            registered_var(s, v),
            v.name@,
            SymbolKind::Var,
            TypeView::Ref(Box::new(TypeView::String)),
        ),
{
}

/// The type of a constructor call and of a negated literal is known from the
/// way it is written.
pub proof fn written_values_have_types(e: Expr)
    ensures
        e matches Expr::UnOp { op, operand, .. } && op@ == "-"@ ==> literal_type(e) == literal_type(
            *e->UnOp_operand,
        ),
        e matches Expr::Call { callee, .. } && (*callee matches Expr::Ident { name, .. } && name@
            == "Vec"@) ==> literal_type(e) == Some(TypeView::Vector),
        e matches Expr::Call { callee, .. } && (*callee matches Expr::Ident { name, .. } && name@
            == "Rotation"@) ==> literal_type(e) == Some(TypeView::Rotator),
        e matches Expr::Call { callee, .. } && (*callee matches Expr::Ident { name, .. } && (name@
            == "Color"@ || name@ == "ColorSRGB"@ || name@ == "ColorHex"@)) ==> literal_type(e)
            == Some(TypeView::Color),
{
    reveal_strlit("Vec");
    reveal_strlit("Rotation");
    reveal_strlit("Color");
    reveal_strlit("ColorSRGB");
    reveal_strlit("ColorHex");
    assert("Vec"@.len() == 3 && "Rotation"@.len() == 8 && "Color"@.len() == 5);
    assert("ColorSRGB"@.len() == 9 && "ColorHex"@.len() == 8);
    assert("ColorHex"@[0] == 'C' && "Rotation"@[0] == 'R');
}

/// An unannotated array variable takes its element type from its first element.
pub proof fn array_variables_take_their_first_element(v: VarDecl)
    ensures
        v.init matches Some(Expr::Array { elements, .. }) && elements@.len() > 0 && literal_type(
            elements@[0].inner(),
        ) is Some ==> init_type(v.init) == TypeView::Array(
            Box::new(literal_type((v.init->0)->elements@[0].inner())->0),
        ),
{
}

/// Arrays, buffers, inputs, events and aliases are known as what they are
/// declared as.
pub proof fn values_are_declared(
    s: State,
    a: ArrayDecl,
    b: BufferDecl,
    i: InDecl,
    e: EventDecl,
    t: TypeAliasDecl,
)
    ensures
        known_as(
            registered(s, TopDecl::Array(a)),
            a.name@,
            SymbolKind::Array,
            TypeView::Array(Box::new(resolved(s, a.element_type@).1)),
        ),
        b.typ matches Some(te) ==> known_as(
            registered(s, TopDecl::Buffer(b)),
            b.name@,
            SymbolKind::Buffer,
            resolved(s, te@).1,
        ),
        b.typ is None ==> known_as(
            registered(s, TopDecl::Buffer(b)),
            b.name@,
            SymbolKind::Buffer,
            TypeView::Any,
        ),
        known_as(
            registered(s, TopDecl::In(i)),
            i.name@,
            SymbolKind::In,
            resolved(s, i.typ@).1,
        ),
        known_as(registered(s, TopDecl::Event(e)), e.name@, SymbolKind::Event, TypeView::Exec),
        known_as(
            registered(s, TopDecl::TypeAlias(t)),
            t.name@,
            SymbolKind::Type,
            resolved(s, t.typ@).1,
        ),
{
}

/// The signature of a callable lists its parameters, each with its own name and
/// the type that is written for it.
pub proof fn parameters_are_listed(s: State, params: Seq<Param>, n: nat, i: int)
    requires
        0 <= i < n <= params.len(),
    ensures
        param_fields(s, params, n).1.len() == n,
        param_fields(s, params, n).1[i].name == params[i].name@,
        param_fields(s, params, n).1[i].ty == resolved(
            param_fields(s, params, i as nat).0,
            params[i].typ@,
        ).1,
    decreases n,
{
    if n > 1 && i < n - 1 {
        parameters_are_listed(s, params, (n - 1) as nat, i);
    } else {
        lemma_param_len(s, params, (n - 1) as nat);
    }
}

proof fn lemma_param_len(s: State, params: Seq<Param>, n: nat)
    requires
        n <= params.len(),
    ensures
        param_fields(s, params, n).1.len() == n,
    decreases n,
{
    if n > 0 {
        lemma_param_len(s, params, (n - 1) as nat);
    }
}

/// And its outputs likewise.
pub proof fn outputs_are_listed(s: State, outs: Seq<NamedOutput>, n: nat, i: int)
    requires
        0 <= i < n <= outs.len(),
    ensures
        named_output_fields(s, outs, n).1.len() == n,
        named_output_fields(s, outs, n).1[i].name == outs[i].name@,
        named_output_fields(s, outs, n).1[i].ty == resolved(
            named_output_fields(s, outs, i as nat).0,
            outs[i].typ@,
        ).1,
    decreases n,
{
    if n > 1 && i < n - 1 {
        outputs_are_listed(s, outs, (n - 1) as nat, i);
    } else {
        lemma_output_len(s, outs, (n - 1) as nat);
    }
}

proof fn lemma_output_len(s: State, outs: Seq<NamedOutput>, n: nat)
    requires
        n <= outs.len(),
    ensures
        named_output_fields(s, outs, n).1.len() == n,
    decreases n,
{
    if n > 0 {
        lemma_output_len(s, outs, (n - 1) as nat);
    }
}

/// Whether a name is known as a callable with a signature.
pub open spec fn callable_as(
    s: State,
    name: Seq<char>,
    kind: SymbolKind,
    params: Seq<FieldView>,
    outputs: Seq<FieldView>,
) -> bool {
    s.lookup(name) matches Some(sym) && sym.kind == kind && (sym.signature matches Some(sig)
        && sig.params == params && sig.outputs == outputs)
}

/// Functions and chips are known with their signatures. A function has one
/// output, of the type that it returns.
pub proof fn callables_are_declared(s: State, f: FnDecl, c: ChipDecl)
    ensures
        ({
            let (s1, params) = param_fields(s, f.params@, f.params@.len());
            f.return_type matches Some(t) ==> callable_as(
                registered(s, TopDecl::Fn(f)),
                f.name@,
                SymbolKind::Fn,
                params,
                seq![FieldView { name: "_"@, ty: resolved(s1, t@).1 }],
            )
        }),
        ({
            let (s1, params) = param_fields(s, c.inputs@, c.inputs@.len());
            let outputs = named_output_fields(s1, c.outputs@, c.outputs@.len()).1;
            callable_as(registered(s, TopDecl::Chip(c)), c.name@, SymbolKind::Chip, params, outputs)
        }),
{
}

/// A second declaration of a name in one scope is reported, and counts.
pub proof fn duplicates_are_reported(s: State, name: Seq<char>, info: SymView)
    requires
        s.scopes.len() >= 1,
    ensures
        declared_once(s, name, info).lookup(name) == Some(info),
        s.scopes.last().contains_key(name) ==> one_error(
            s,
            declared_once(s, name, info),
            "WS013"@,
            "duplicate declaration of '"@ + name + "'"@,
            info.decl_range,
        ),
        !s.scopes.last().contains_key(name) ==> declared_once(s, name, info).diags == s.diags,
{
}

/// Several callbacks may share a name where their signatures agree; callbacks
/// whose signatures differ are reported.
pub proof fn callbacks_agree(s: State, name: Seq<char>, info: SymView)
    requires
        s.scopes.len() >= 1,
    ensures
        declared_callback(s, name, info).lookup(name) == Some(info),
        !s.scopes.last().contains_key(name) ==> declared_callback(s, name, info).diags == s.diags,
        s.scopes.last().contains_key(name) ==> ({
            let prior = s.scopes.last()[name];
            let after = declared_callback(s, name, info).diags;
            prior.signature is Some && info.signature is Some ==> {
                &&& prior.signature == info.signature ==> after == s.diags
                &&& prior.signature != info.signature ==> after.len() > s.diags.len() && after[
                    s.diags.len() as int].code == "WS025"@ && after[s.diags.len() as int].message
                    == "mismatched signature for callback '"@ + name + "'"@
            }
        }),
{
    if s.scopes.last().contains_key(name) {
        let prior = s.scopes.last()[name];
        if prior.signature is Some && info.signature is Some {
            let p = prior.signature->0;
            let q = info.signature->0;
            if prior.signature != info.signature {
                assert(p.params != q.params || p.outputs != q.outputs);
            }
        }
    }
}

// ---------- lets ----------

/// A let is known by its name, with the type of its value.
pub proof fn lets_are_bound(s: State, b: LetBinding, t: TypeView)
    ensures
        b matches LetBinding::Ident { name, .. } ==> known_as(
            bound_let(s, b, t),
            name@,
            SymbolKind::LetBinding,
            t,
        ) && bound_let(s, b, t).diags == s.diags,
{
}

/// The names of a destructured tuple have the types at their places.
pub proof fn tuple_names_are_bound(
    s: State,
    names: Seq<String>,
    tys: Seq<TypeView>,
    range: RangeView,
    n: nat,
    i: int,
)
    requires
        0 <= i < n <= names.len(),
        forall|k: int| i < k < names.len() ==> (#[trigger] names[k])@ != names[i]@,
    ensures
        known_as(
            bound_tuple(s, names, tys, range, n),
            names[i]@,
            SymbolKind::LetBinding,
            tys[i],
        ),
    decreases n,
{
    if i < n - 1 {
        tuple_names_are_bound(s, names, tys, range, (n - 1) as nat, i);
        let before = bound_tuple(s, names, tys, range, (n - 1) as nat);
        declared_leaves_others(
            before.scopes,
            names[n - 1]@,
            crate::typecheck::rules::let_symbol(names[n - 1]@, tys[n - 1], range),
            names[i]@,
        );
    }
}

/// A tuple of another length is reported.
pub proof fn tuples_must_match(s: State, b: LetBinding, tys: Seq<TypeView>)
    requires
        b is Tuple,
        b->Tuple_names@.len() != tys.len(),
    ensures
        ({
            let after = bound_let(s, b, TypeView::Tuple(tys)).diags;
            after == s.diags.push(
                DiagnosticView {
                    severity: Severity::Error,
                    code: "WS010"@,
                    message: "destructure shape: expected tuple["@ + decimal(b->Tuple_names@.len())
                        + "], got "@ + debug_text(TypeView::Tuple(tys)),
                    range: b->Tuple_range@,
                },
            )
        }),
{
    lemma_any_quiet(
        crate::typecheck::rules::tuple_mismatch(s, Seq::empty(), TypeView::Tuple(tys), b->Tuple_range@),
        b->Tuple_names@,
        b->Tuple_range@,
        0,
    );
    let s1 = s.error(
        "WS010"@,
        "destructure shape: expected tuple["@ + decimal(b->Tuple_names@.len()) + "], got "@
            + debug_text(TypeView::Tuple(tys)),
        b->Tuple_range@,
    );
    lemma_any_quiet(s1, b->Tuple_names@, b->Tuple_range@, b->Tuple_names@.len());
}

proof fn lemma_any_quiet(s: State, names: Seq<String>, range: RangeView, n: nat)
    ensures
        crate::typecheck::rules::bound_any(s, names, range, n).diags == s.diags,
    decreases n,
{
    if n > 0 && n <= names.len() {
        lemma_any_quiet(s, names, range, (n - 1) as nat);
    }
}

/// A destructured field is known by its own name or its alias, with the type
/// of the field; a field that the value does not have is `any`.
pub proof fn fields_are_bound(
    s: State,
    kind: SymbolKind,
    fields: Seq<RecordDestructField>,
    t: TypeView,
    range: RangeView,
    n: nat,
)
    requires
        0 < n <= fields.len(),
        fields[n - 1] is Named,
    ensures
        ({
            let f = fields[n - 1];
            let local = match f->Named_alias {
                Some(a) => a@,
                None => f->Named_name@,
            };
            let ty = match t {
                TypeView::Record(have) => match field_type(have, f->Named_name@) {
                    Some(ft) => ft,
                    None => TypeView::Any,
                },
                _ => TypeView::Any,
            };
            known_as(bound_fields(s, kind, fields, t, range, n), local, kind, ty)
        }),
{
}

/// A let whose value does not fit its annotation is warned of; one that fits is
/// not.
pub proof fn annotations_are_held(s: State, c: Catalog, l: LetDecl, t: TypeView)
    requires
        l.typ is Some,
        !(l.value is RecordLit),
        l.binding is Ident,
    ensures
        ({
            let te = (l.typ->0)@;
            let (s1, want) = resolved(s, te);
            let after = annotated(s, c, l, t);
            &&& c.fits(t, want) ==> after == s1
            &&& !c.fits(t, want) ==> one_warning(
                s1,
                after,
                "WS016"@,
                "let '"@ + l.binding->Ident_name@ + "' annotated as "@
                    + crate::type_expr::type_expr_text(te) + ", but expression has type "@
                    + type_text(t),
                l.range@,
            )
        }),
{
}

// ---------- statements ----------

/// In exec context a variable takes what fits the type that it holds, and
/// anything else is reported.
pub proof fn assignments_must_fit(s: State, c: Catalog, a: Assign, held: TypeView)
    requires
        s.is_exec(),
        a.target is Ident,
        a.target->Ident_name@ != "_"@,
        known_as(s, a.target->Ident_name@, SymbolKind::Var, TypeView::Ref(Box::new(held))),
    ensures
        ({
            let (s1, value) = inferred(s, c, a.value);
            let t = checked_assign(s, c, a);
            &&& c.fits(value, held) ==> t == s1
            &&& !c.fits(value, held) ==> one_error(
                s1,
                t,
                "WS003"@,
                "expected "@ + debug_text(held) + ", got "@ + debug_text(value),
                a.value.rng()@,
            )
        }),
{
}

/// What cannot be written to is reported.
pub proof fn only_variables_are_written(s: State, c: Catalog, e: Expr)
    requires
        e is Ident,
        e->Ident_name@ != "_"@,
        s.lookup(e->Ident_name@) matches Some(sym) && (sym.kind == SymbolKind::Fn || sym.kind
            == SymbolKind::Chip || sym.kind == SymbolKind::Event || sym.kind == SymbolKind::Buffer
            || sym.kind == SymbolKind::EventParam || sym.kind == SymbolKind::Out || sym.kind
            == SymbolKind::Namespace || sym.kind == SymbolKind::Type),
    ensures
        target_type(s, c, e).1 is Any,
        one_error(
            s,
            target_type(s, c, e).0,
            "WS007"@,
            "'"@ + e->Ident_name@ + "' isn't a writable target"@,
            e->Ident_range@,
        ),
{
}

/// A signal is emitted in exec context; one that carries a value is noted with
/// the type of the value.
pub proof fn emits_are_checked(s: State, c: Catalog, e: Emit)
    ensures
        e.value is None && s.is_exec() ==> checked_emit(s, c, e) == s,
        e.value is None && !s.is_exec() ==> one_error(
            s,
            checked_emit(s, c, e),
            "WS007"@,
            "emit '"@ + e.name@ + "' outside an exec context"@,
            e.range@,
        ),
        e.value matches Some(v) ==> ({
            let (s1, ty) = inferred(s, c, v);
            let t = checked_emit(s, c, e);
            t.diags == s1.diags && t.payloads.contains_key(e.name@) && t.payloads[e.name@] == ty
        }),
{
}

/// A return without a value belongs in exec context.
pub proof fn returns_are_checked(s: State, c: Catalog, st: Stmt)
    requires
        st is Return,
        st->Return_value is None,
    ensures
        s.is_exec() ==> checked_stmt(s, c, st) == s,
        !s.is_exec() ==> one_error(
            s,
            checked_stmt(s, c, st),
            "WS007"@,
            "'return' (without value) outside an exec context"@,
            st->Return_range@,
        ),
{
}

/// An await binds its name to what it waits for: the value, or else what the
/// awaited expression gives.
pub proof fn awaits_bind_their_value(s: State, c: Catalog, a: AwaitStmt)
    requires
        s.is_exec(),
        a.binding is Some,
        a.destructure is None,
        a.value_expr is Some,
    ensures
        ({
            let armed = s.push_scope().declare(
                "_"@,
                crate::typecheck::rules::let_symbol("_"@, TypeView::Bool, a.range@),
            );
            let s3 = inferred(armed, c, a.exec_expr).0.pop_scope();
            known_as(
                checked_await(s, c, a),
                (a.binding->0)@,
                SymbolKind::LetBinding,
                inferred(s3, c, a.value_expr->0).1,
            )
        }),
{
}

/// An unannotated variable takes over the type of its initializer, seen through
/// a reference, where a variable can hold it.
pub proof fn initializers_refine_variables(
    s: State,
    c: Catalog,
    v: VarDecl,
    t: TypeView,
    range: RangeView,
)
    requires
        v.typ is None,
        known_as(s, v.name@, SymbolKind::Var, TypeView::Ref(Box::new(TypeView::Any))),
        t is Int || t is Float || t is Bool || t is String || t is Vector || t is Rotator || t is Quat
            || t is Color || t is Entity || t is Character || t is Controller,
    ensures
        known_as(
            initialized(s, c, v, TypeView::Any, t, range),
            v.name@,
            SymbolKind::Var,
            TypeView::Ref(Box::new(t)),
        ),
        initialized(s, c, v, TypeView::Any, t, range).diags == s.diags,
{
    crate::typecheck::scope::retyped_changes_one_type(
        s.scopes,
        v.name@,
        TypeView::Ref(Box::new(t)),
        v.name@,
    );
}

/// An initializer must fit the variable.
pub proof fn initializers_must_fit(
    s: State,
    c: Catalog,
    v: VarDecl,
    inner: TypeView,
    t: TypeView,
    range: RangeView,
)
    requires
        v.typ is Some,
    ensures
        c.fits(t, inner) ==> initialized(s, c, v, inner, t, range) == s,
        !c.fits(t, inner) ==> one_error(
            s,
            initialized(s, c, v, inner, t, range),
            "WS003"@,
            "expected "@ + debug_text(inner) + ", got "@ + debug_text(t),
            range,
        ),
{
}

/// An unannotated buffer takes over the type of its value.
pub proof fn buffers_take_their_type(s: State, c: Catalog, b: BufferDecl)
    requires
        b.typ is None,
    ensures
        ({
            let (s1, t) = inferred(s.push_mode(ExecMode::Pure), c, b.init);
            s1.lookup(b.name@) matches Some(sym) ==> (checked_buffer(s, c, b).lookup(b.name@)
                matches Some(after) && after.kind == sym.kind && after.ty == unref(t))
        }),
{
    let (s1, t) = inferred(s.push_mode(ExecMode::Pure), c, b.init);
    crate::typecheck::scope::retyped_changes_one_type(s1.scopes, b.name@, unref(t), b.name@);
}

/// The elements of an array that is baked into its gate must be constants of
/// the element type.
pub proof fn baked_elements_are_constants(
    s: State,
    c: Catalog,
    el: ArrayElem,
    elem_ty: TypeView,
    t: TypeView,
)
    ensures
        ({
            let after = baked_element(s, c, el, elem_ty, t);
            let r = el.inner().rng()@;
            &&& el is Spread ==> after.diags.len() == s.diags.len() + 1 && after.diags.last().code
                == "WS003"@ && after.diags.last().severity == Severity::Error
            &&& el is Item && literal_of(el.inner()) is None ==> after.diags.len() == s.diags.len()
                + 1 && after.diags.last().code == "WS003"@ && after.diags.last().range == r
            &&& el is Item && (el.inner() is AssetRef || el.inner() is PrefabRef) ==> after.diags.len()
                == s.diags.len() + 1 && after.diags.last().code == "WS024"@
                && after.diags.last().severity == Severity::Warning
            &&& el is Item && (el.inner() is IntLit || el.inner() is FloatLit || el.inner() is BoolLit
                || el.inner() is StringLit) && (elem_ty is Any || c.fits(t, elem_ty)) ==> after == s
            &&& el is Item && (el.inner() is IntLit || el.inner() is FloatLit || el.inner() is BoolLit
                || el.inner() is StringLit) && !(elem_ty is Any) && !c.fits(t, elem_ty) ==> one_error(
                s,
                after,
                "WS003"@,
                "array element: expected "@ + type_text(elem_ty) + ", got "@ + type_text(t),
                r,
            )
        }),
{
}

/// An output that is the value of a variable should say what is meant: without
/// an annotation it is warned of.
pub proof fn bare_variables_as_outputs(s: State, b: OutBinding, value: Expr, held: TypeView)
    requires
        b.typ is None,
        value is Ident,
        known_as(s, value->Ident_name@, SymbolKind::Var, TypeView::Ref(Box::new(held))),
    ensures
        one_warning(
            s,
            out_annotated(s, b, value),
            "WS017"@,
            "out '"@ + b.name@ + "' infers type from var '"@ + value->Ident_name@
                + "' — add explicit type: `out "@ + b.name@ + ": "@ + type_text(held) + " = "@
                + value->Ident_name@ + "` for value, or `out "@ + b.name@ + ": *"@ + type_text(held)
                + " = "@ + value->Ident_name@ + "` for ref"@,
            b.range@,
        ),
{
}

// ---------- handlers ----------

/// The parameters of a handler are the data of its event, each of the type at
/// its place; a parameter beyond the data is `any`.
pub proof fn handler_parameters_are_bound(
    s: State,
    evt: EventSpec,
    params: Seq<String>,
    range: RangeView,
    n: nat,
    i: int,
)
    requires
        0 <= i < n <= params.len(),
        forall|k: int| i < k < params.len() ==> (#[trigger] params[k])@ != params[i]@,
    ensures
        known_as(
            bound_event_params(s, Some(evt), params, range, n),
            params[i]@,
            SymbolKind::EventParam,
            if i < evt.data@.len() {
                evt.data@[i].ty@
            } else {
                TypeView::Any
            },
        ),
    decreases n,
{
    if i < n - 1 {
        handler_parameters_are_bound(s, evt, params, range, (n - 1) as nat, i);
        let before = bound_event_params(s, Some(evt), params, range, (n - 1) as nat);
        declared_leaves_others(
            before.scopes,
            params[n - 1]@,
            crate::typecheck::scope::plain_symbol(
                SymbolKind::EventParam,
                params[n - 1]@,
                crate::typecheck::rules::event_param_type(Some(evt), n - 1),
                range,
            ),
            params[i]@,
        );
    }
}

/// A handler may wait for an event of the language, an event or let of the
/// script, and an input, parameter or buffer that can pulse or change. Anything
/// else is reported.
pub proof fn triggers_must_be_known(s: State, c: Catalog, h: Handler, name: Seq<char>)
    requires
        h.params@.len() == 0,
        h.trigger matches crate::ast::Trigger::Ident { name: n, .. } && n@ == name,
    ensures
        c.event(name) is Some ==> bound_trigger(s, c, h) == s,
        c.event(name) is None && s.lookup(name) is None ==> one_error(
            s,
            bound_trigger(s, c, h),
            "WS001"@,
            "unknown event or trigger '"@ + name + "'"@,
            h.trigger->Ident_range@,
        ),
        s.lookup(name) matches Some(sym) && (sym.kind == SymbolKind::Event || sym.kind
            == SymbolKind::LetBinding) ==> bound_trigger(s, c, h) == s,
        s.lookup(name) matches Some(sym) && (sym.kind == SymbolKind::In || sym.kind
            == SymbolKind::Param || sym.kind == SymbolKind::Buffer) && (sym.ty is Exec || sym.ty is Bool
            || sym.ty is Int || sym.ty is Float) ==> bound_trigger(s, c, h) == s,
        c.event(name) is None && (s.lookup(name) matches Some(sym) && (sym.kind == SymbolKind::Var
            || sym.kind == SymbolKind::Fn || sym.kind == SymbolKind::Chip)) ==> bound_trigger(
            s,
            c,
            h,
        ).diags.len() == s.diags.len() + 1,
{
}

// ---------- outputs ----------

/// An output that nothing gives a value to is reported, and one that something
/// gives a value to is not.
pub proof fn outputs_need_values(
    s: State,
    outs: Seq<NamedOutput>,
    names: Set<Seq<char>>,
    n: nat,
)
    requires
        0 < n <= outs.len(),
    ensures
        ({
            let before = unassigned_reports(s, outs, names, (n - 1) as nat);
            let after = unassigned_reports(s, outs, names, n);
            let name = outs[n - 1].name@;
            &&& names.contains(name) ==> after == before
            &&& !names.contains(name) ==> one_error(
                before,
                after,
                "WS013"@,
                "output '"@ + name + "' is never assigned — use `out "@ + name + " = expr`, `emit "@
                    + name + "`, or `return expr`"@,
                outs[n - 1].range@,
            )
        }),
{
}

/// What counts as giving an output a value.
pub proof fn assigned_outputs(stmts: Seq<Stmt>, n: nat)
    requires
        0 < n <= stmts.len(),
    ensures
        ({
            let all = crate::typecheck::rules::assigned(stmts, n);
            match stmts[n - 1] {
                Stmt::OutBinding(o) => all.contains(o.name@),
                Stmt::Emit(e) => all.contains(e.name@),
                Stmt::Assign(a) => a.target is Ident ==> all.contains(a.target->Ident_name@),
                Stmt::Handler(h) => crate::typecheck::rules::assigned(
                    h.body.stmts@,
                    h.body.stmts@.len(),
                ).subset_of(all),
                Stmt::AnonChip(ac) => crate::typecheck::rules::assigned(
                    ac.body.stmts@,
                    ac.body.stmts@.len(),
                ).subset_of(all),
                Stmt::If(i) => crate::typecheck::rules::assigned(
                    i.then_block.stmts@,
                    i.then_block.stmts@.len(),
                ).subset_of(all) && (i.else_block matches Some(eb) ==> crate::typecheck::rules::assigned(
                    eb.stmts@,
                    eb.stmts@.len(),
                ).subset_of(all)),
                _ => true,
            }
        }),
        crate::typecheck::rules::assigned(stmts, (n - 1) as nat).subset_of(
            crate::typecheck::rules::assigned(stmts, n),
        ),
{
}

// ---------- calls ----------

/// Too few and too many arguments of a built-in call are reported, and a number
/// in between is not.
pub proof fn arguments_are_counted(s: State, f: CallSpec, given: nat, range: RangeView)
    requires
        forall|i: int| 0 <= i < f.params@.len() ==> !(#[trigger] f.params@[i]).optional,
    ensures
        given == f.params@.len() ==> counted(s, f, given, range) == s,
        given > f.params@.len() ==> one_error(
            s,
            counted(s, f, given, range),
            "WS011"@,
            "'"@ + f.name@ + "' expects at most "@ + decimal(f.params@.len()) + " positional arg"@
                + (if f.params@.len() == 1 {
                ""@
            } else {
                "s"@
            }) + ", got "@ + decimal(given),
            range,
        ),
        given < f.params@.len() ==> one_error(
            s,
            counted(s, f, given, range),
            "WS011"@,
            "'"@ + f.name@ + "' requires "@ + decimal(f.params@.len()) + " arg"@ + (if f.params@.len()
                == 1 {
                ""@
            } else {
                "s"@
            }) + ", got "@ + decimal(given),
            range,
        ),
{
    lemma_all_required(f.params@, f.params@.len());
}

proof fn lemma_all_required(params: Seq<ParamSpec>, n: nat)
    requires
        n <= params.len(),
        forall|i: int| 0 <= i < params.len() ==> !(#[trigger] params[i]).optional,
    ensures
        crate::typecheck::rules::required_count(params, n) == n,
    decreases n,
{
    if n > 0 {
        lemma_all_required(params, (n - 1) as nat);
    }
}

/// Parameters that may be left out need not be given.
pub proof fn optional_arguments_may_be_left_out(s: State, f: CallSpec, given: nat, range: RangeView)
    requires
        forall|i: int| 0 <= i < f.params@.len() ==> (#[trigger] f.params@[i]).optional,
        given <= f.params@.len(),
    ensures
        counted(s, f, given, range) == s,
{
    lemma_none_required(f.params@, f.params@.len());
}

proof fn lemma_none_required(params: Seq<ParamSpec>, n: nat)
    requires
        n <= params.len(),
        forall|i: int| 0 <= i < params.len() ==> (#[trigger] params[i]).optional,
    ensures
        crate::typecheck::rules::required_count(params, n) == 0,
    decreases n,
{
    if n > 0 {
        lemma_none_required(params, (n - 1) as nat);
    }
}

/// An argument must fit its parameter, seen through a reference.
pub proof fn arguments_must_fit(s: State, c: Catalog, p: ParamSpec, t: TypeView, range: RangeView)
    requires
        !(t is Ref),
    ensures
        c.fits(t, p.ty@) ==> argument(s, c, p, t, range) == s,
        c.fits(t, p.ty@) ==> argument(s, c, p, TypeView::Ref(Box::new(t)), range) == s,
        !c.fits(t, p.ty@) ==> one_error(
            s,
            argument(s, c, p, t, range),
            "WS003"@,
            "argument '"@ + p.name@ + "': expected "@ + debug_text(p.ty@) + ", got "@ + debug_text(t),
            range,
        ),
{
}

/// What a built-in call gives: its one output, or a record with a field for
/// each of its outputs.
pub proof fn built_in_calls_are_typed(f: CallSpec)
    ensures
        f.outputs@.len() == 1 ==> builtin_type(f) == f.outputs@[0].ty@,
        f.outputs@.len() > 1 ==> (builtin_type(f) matches TypeView::Record(fields) && fields.len()
            == f.outputs@.len() && forall|i: int|
            0 <= i < fields.len() ==> (#[trigger] fields[i]).0 == f.outputs@[i].port@ && fields[i].1
                == f.outputs@[i].ty@),
        f.outputs@.len() == 0 && f.needs_exec ==> builtin_type(f) is Any,
        f.outputs@.len() == 0 && !f.needs_exec && f.params@.len() > 0 ==> builtin_type(f)
            == f.params@[0].ty@,
{
}

/// A call that takes a pulse belongs in exec context, or is given its pulse.
pub proof fn exec_calls_need_exec(
    s: State,
    f: CallSpec,
    name: Seq<char>,
    args: Seq<CallArg>,
    range: RangeView,
    i: int,
)
    ensures
        !f.needs_exec || s.is_exec() ==> exec_call(s, f, name, args, range) == s,
        0 <= i < args.len() && (args[i] matches CallArg::Named { name: n, .. } && n@ == "exec"@)
            ==> exec_call(s, f, name, args, range) == s,
        f.needs_exec && !s.is_exec() && args.len() == 0 ==> one_error(
            s,
            exec_call(s, f, name, args, range),
            "WS007"@,
            "exec call '"@ + name + "' outside an exec context (pass exec = ... to override)"@,
            range,
        ),
{
}

/// What a declared callable gives: its one output, or a record of its outputs,
/// each with its own name and type. A call with an `exec` argument gives the
/// pulse of its end as well.
pub proof fn declared_calls_are_typed(sym: SymView, args: Seq<CallArg>)
    requires
        sym.signature is Some,
    ensures
        ({
            let outs = (sym.signature->0).outputs;
            let t = declared_result(sym, args);
            &&& outs.len() == 1 && args.len() == 0 ==> t == outs[0].ty
            &&& outs.len() > 1 ==> t is Record && t->Record_0.len() >= outs.len()
            &&& outs.len() > 1 ==> forall|i: int|
                0 <= i < outs.len() ==> (#[trigger] t->Record_0[i]).0 == outs[i].name
                    && t->Record_0[i].1 == outs[i].ty
            &&& outs.len() > 1 && args.len() == 0 ==> t->Record_0.len() == outs.len()
            &&& outs.len() >= 1 && has_exec_arg(args) && (forall|i: int|
                0 <= i < outs.len() ==> (#[trigger] outs[i]).name != "exec"@) ==> t is Record
                && t->Record_0.len() == outs.len() + 1 && t->Record_0.last() == (
                "exec"@,
                TypeView::Exec,
            )
            &&& outs.len() == 0 ==> t is Any
        }),
{
    let outs = (sym.signature->0).outputs;
    let fields = crate::typecheck::rules::output_record(outs);
    if forall|i: int| 0 <= i < outs.len() ==> (#[trigger] outs[i]).name != "exec"@ {
        assert forall|k: int| 0 <= k < fields.len() implies (#[trigger] fields[k]).0 != "exec"@ by {
            assert(outs[k].name != "exec"@);
        }
        crate::typecheck::typing::fields_are_found_by_name(fields, "exec"@, 0);
    }
}

/// A callable takes as many positional arguments as it has parameters, unless
/// an argument is spread.
pub proof fn arity_is_held(
    s: State,
    sym: SymView,
    name: Seq<char>,
    args: Seq<CallArg>,
    range: RangeView,
)
    requires
        sym.signature is Some,
        forall|i: int| 0 <= i < args.len() ==> (#[trigger] args[i]) is Positional,
    ensures
        ({
            let want = (sym.signature->0).params.len();
            &&& args.len() == want ==> arity(s, sym, name, args, range) == s
            &&& args.len() != want ==> one_error(
                s,
                arity(s, sym, name, args, range),
                "WS022"@,
                "`"@ + name + "` expects "@ + decimal(want) + " argument"@ + (if want == 1 {
                    ""@
                } else {
                    "s"@
                }) + " but "@ + decimal(args.len()) + " "@ + (if args.len() == 1 {
                    "was"@
                } else {
                    "were"@
                }) + " given"@,
                range,
            )
        }),
{
    lemma_all_positional(args, args.len());
}

proof fn lemma_all_positional(args: Seq<CallArg>, n: nat)
    requires
        n <= args.len(),
        forall|i: int| 0 <= i < args.len() ==> (#[trigger] args[i]) is Positional,
    ensures
        positional_count(args, n) == n,
    decreases n,
{
    if n > 0 {
        lemma_all_positional(args, (n - 1) as nat);
    }
}

/// A chip is called below its declaration; in another file it always is.
pub proof fn chips_are_declared_first(s: State, sym: SymView, name: Seq<char>, range: RangeView)
    requires
        sym.kind == SymbolKind::Chip,
        sym.signature is Some,
    ensures
        sym.decl_range.file != range.file ==> declared_above(s, sym, name, range) == s,
        sym.decl_range.start.line < range.start.line ==> declared_above(s, sym, name, range) == s,
        sym.decl_range.start.line == range.start.line && sym.decl_range.start.col <= range.start.col
            ==> declared_above(s, sym, name, range) == s,
        sym.decl_range.file == range.file && range.start.line < sym.decl_range.start.line
            ==> one_error(
            s,
            declared_above(s, sym, name, range),
            "WS021"@,
            "call to `"@ + name
                + "` before its declaration — chips and mods must be declared before the point where they are used (move the declaration above its first caller)"@,
            range,
        ),
{
}

/// A name that is called and not known is reported.
pub proof fn called_names_must_be_known(
    s: State,
    name: Seq<char>,
    args: Seq<CallArg>,
    range: RangeView,
)
    requires
        s.lookup(name) is None,
    ensures
        declared_call(s, name, args, range).1 is Any,
        one_error(
            s,
            declared_call(s, name, args, range).0,
            "WS002"@,
            "unknown identifier '"@ + name + "'"@,
            range,
        ),
{
}

/// A member of a namespace must be there: a function gives the type that it
/// returns, a chip `any`.
pub proof fn namespace_members_are_called(
    s: State,
    ns: Seq<char>,
    field: Seq<char>,
    range: RangeView,
)
    requires
        s.namespaces.contains_key(ns),
    ensures
        !s.namespaces[ns].contains_key(field) ==> namespace_call(s, ns, field, range).1 is Any
            && one_error(
            s,
            namespace_call(s, ns, field, range).0,
            "WS002"@,
            "'"@ + field + "' not found in namespace '"@ + ns + "'"@,
            range,
        ),
        s.namespaces[ns].contains_key(field) && s.namespaces[ns][field].kind == SymbolKind::Fn ==> (
        s.namespaces[ns][field].return_type matches Some(t) ==> namespace_call(s, ns, field, range)
            == resolved(s, t)),
        s.namespaces[ns].contains_key(field) && s.namespaces[ns][field].kind == SymbolKind::Chip
            ==> namespace_call(s, ns, field, range) == (s, TypeView::Any),
{
}

/// Whether an expression calls something by its name.
pub open spec fn calls_name(e: Expr, name: Seq<char>) -> bool {
    e matches Expr::Call { callee, .. } && (*callee matches Expr::Ident { name: n, .. } && n@ == name)
}

/// A call by name goes to the built-in call of that name if there is one, and
/// to what the script declares otherwise.
pub proof fn calls_go_by_name(s: State, c: Catalog, e: Expr, name: Seq<char>)
    requires
        calls_name(e, name),
        name != "Random"@,
    ensures
        c.call(name) matches Some(f) ==> inferred(s, c, e).1 == builtin_type(f),
        c.call(name) is None ==> ({
            let args = e->Call_args@;
            let s1 = crate::typecheck::judge::call_args(s, c, args, args.len());
            inferred(s, c, e).1 == match s1.lookup(name) {
                Some(sym) => declared_result(sym, args),
                None => TypeView::Any,
            }
        }),
{
    reveal_with_fuel(inferred, 2);
}

/// A random value between two vectors, colors, rotators or quaternions is of
/// the same kind.
pub proof fn random_takes_over_its_bounds(s: State, c: Catalog, args: Seq<CallArg>)
    requires
        args.len() > 0,
        args[0] is Positional,
        ({
            let t = unref(inferred(s, c, args[0]->Positional_0).1);
            t is Vector || t is Color || t is Rotator || t is Quat
        }),
    ensures
        crate::typecheck::judge::random_bound(s, c, args, args.len()).1 == Some(
            unref(inferred(s, c, args[0]->Positional_0).1),
        ),
{
    lemma_random_first(s, c, args, args.len());
}

proof fn lemma_random_first(s: State, c: Catalog, args: Seq<CallArg>, n: nat)
    requires
        0 < n <= args.len(),
        args[0] is Positional,
        ({
            let t = unref(inferred(s, c, args[0]->Positional_0).1);
            t is Vector || t is Color || t is Rotator || t is Quat
        }),
    ensures
        crate::typecheck::judge::random_bound(s, c, args, n).1 == Some(
            unref(inferred(s, c, args[0]->Positional_0).1),
        ),
    decreases n,
{
    if n > 1 {
        lemma_random_first(s, c, args, (n - 1) as nat);
    } else {
        assert(crate::typecheck::judge::random_bound(s, c, args, 0) == (s, None::<TypeView>));
    }
}

/// A random number between other bounds is no different from other calls.
pub proof fn random_numbers_are_plain(s: State, c: Catalog, args: Seq<CallArg>)
    requires
        args.len() == 1,
        args[0] is Positional,
        ({
            let t = unref(inferred(s, c, args[0]->Positional_0).1);
            t is Int || t is Float
        }),
    ensures
        crate::typecheck::judge::random_bound(s, c, args, 1).1 is None,
{
    assert(crate::typecheck::judge::random_bound(s, c, args, 0) == (s, None::<TypeView>));
}

/// What a script writes `a.method(..)` on an array `a` goes to the method.
pub proof fn array_methods_are_called(s: State, c: Catalog, e: Expr, elem: TypeView)
    requires
        e is Call,
        *e->callee is FieldAccess,
        *(*e->callee)->FieldAccess_obj is Ident,
        c.method((*e->callee)->field@) is Some,
        ({
            let args = e->Call_args@;
            let s1 = crate::typecheck::judge::call_args(s, c, args, args.len());
            let name = (*(*e->callee)->FieldAccess_obj)->Ident_name@;
            s1.lookup(name) matches Some(sym) && (sym.kind == SymbolKind::Var || sym.kind
                == SymbolKind::Array) && (sym.ty == TypeView::Array(Box::new(elem)) || sym.ty
                == TypeView::Ref(Box::new(TypeView::Array(Box::new(elem)))))
        }),
    ensures
        inferred(s, c, e).1 == c.method_result((*e->callee)->field@, elem),
{
    reveal_with_fuel(inferred, 2);
}

// ---------- contexts ----------

/// Whether the read of a variable is noted with a context.
pub open spec fn read_noted(s: State, e: Expr, in_exec: bool) -> bool {
    let r = e->Ident_range@;
    s.reads.contains_key((r.file, r.start.offset)) && s.reads[(r.file, r.start.offset)] == in_exec
}

/// Whether an expression is the name of a variable.
pub open spec fn names_variable(s: State, e: Expr) -> bool {
    e is Ident && (s.lookup(e->Ident_name@) matches Some(sym) && sym.kind == SymbolKind::Var)
}

/// The values of lets, buffers and statements at the top of a script are pure:
/// a variable is read there without a pulse, also behind handlers.
pub proof fn top_level_values_are_pure(s: State, c: Catalog, l: LetDecl, b: BufferDecl)
    ensures
        l.typ is None && l.binding is Ident && names_variable(s, l.value) ==> read_noted(
            crate::typecheck::judge::checked_decl(s, c, TopDecl::Let(l)),
            l.value,
            false,
        ),
        names_variable(s, b.init) ==> read_noted(
            crate::typecheck::judge::checked_decl(s, c, TopDecl::Buffer(b)),
            b.init,
            false,
        ),
{
    if l.typ is None && l.binding is Ident && names_variable(s, l.value) {
        let p = s.push_mode(ExecMode::Pure);
        assert(!p.is_exec());
        assert(p.lookup(l.value->Ident_name@) == s.lookup(l.value->Ident_name@));
        crate::typecheck::typing::reads_note_their_context(p, c, l.value);
    }
    if names_variable(s, b.init) {
        let p = s.push_mode(ExecMode::Pure);
        assert(!p.is_exec());
        assert(p.lookup(b.init->Ident_name@) == s.lookup(b.init->Ident_name@));
        crate::typecheck::typing::reads_note_their_context(p, c, b.init);
    }
}

/// The body of a handler, a chip or a callback runs on a pulse: nothing in it
/// is reported for want of one.
pub proof fn bodies_run_on_a_pulse(s: State, c: Catalog, h: Handler, ch: ChipDecl)
    ensures
        h.params@.len() == 0 && (h.trigger matches crate::ast::Trigger::Ident { name, .. } && c.event(
            name@,
        ) is Some) && bare_return(h.body.stmts@)
            ==> crate::typecheck::judge::checked_handler(s, c, h).diags == s.diags,
        ch.inputs@.len() == 0 && ch.outputs@.len() == 0 && bare_return(ch.body.stmts@)
            ==> crate::typecheck::judge::checked_chip(s, c, ch).diags == s.diags,
{
    let p = s.push_scope();
    if h.params@.len() == 0 && (h.trigger matches crate::ast::Trigger::Ident { name, .. } && c.event(
        name@,
    ) is Some) && bare_return(h.body.stmts@) {
        let m = p.push_mode(ExecMode::Exec);
        assert(bound_trigger(p, c, h).diags == s.diags);
        lemma_bare_return(bound_trigger(p, c, h).push_mode(ExecMode::Exec).push_scope(), c, h.body.stmts@);
    }
    if ch.inputs@.len() == 0 && ch.outputs@.len() == 0 && bare_return(ch.body.stmts@) {
        assert(bound_params(p, ch.inputs@, 0) == p);
        lemma_bare_return(p.push_mode(ExecMode::Exec).push_scope(), c, ch.body.stmts@);
    }
}

/// Whether a body is a single return without a value.
pub open spec fn bare_return(stmts: Seq<Stmt>) -> bool {
    stmts.len() == 1 && stmts[0] is Return && stmts[0]->Return_value is None
}

proof fn lemma_bare_return(s: State, c: Catalog, stmts: Seq<Stmt>)
    requires
        bare_return(stmts),
        s.is_exec(),
    ensures
        crate::typecheck::judge::checked_stmts(s, c, stmts, 1) == s,
{
    assert(crate::typecheck::judge::checked_stmts(s, c, stmts, 0) == s);
    returns_are_checked(s, c, stmts[0]);
}

/// Statements behind a handler run on the pulse that the handlers leave; those
/// before every handler do not.
pub proof fn statements_follow_handlers(s: State, c: Catalog, decls: Seq<TopDecl>, i: int, k: int)
    requires
        0 <= i < decls.len(),
        decls[i] is Assign,
    ensures
        0 <= k < i && decls[k] is Handler ==> crate::typecheck::judge::wrapped_decl(s, c, decls, i)
            == checked_assign(s.push_mode(ExecMode::Exec), c, decls[i]->Assign_0).pop_mode(),
        (forall|j: int| 0 <= j < i ==> !((#[trigger] decls[j]) is Handler) && !(decls[j] is AnonChip))
            ==> crate::typecheck::judge::wrapped_decl(s, c, decls, i) == checked_assign(
            s,
            c,
            decls[i]->Assign_0,
        ),
{
    if 0 <= k < i && decls[k] is Handler {
        assert(crate::typecheck::judge::holds_handler(decls[k]));
        assert(crate::typecheck::judge::saw_handler(decls, i as nat));
    }
}

} // verus!
