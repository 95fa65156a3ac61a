//! The language tables: built-in calls, events, operators, coercions and
//! array methods.
//!
//! The tables are data. Everything the type checker decides from them is decided
//! by the lookups below.

use crate::text::str_eq;
use crate::types::{
    field_views, group_type_views, type_eq, type_views, Fields, Type, TypeView,
};
use vstd::prelude::*;
use vstd::string::*;

verus! {

/// A named, typed piece of data: an event output, a parameter, an output.
#[derive(Debug)]
pub struct EventDataField {
    pub name: String,
    pub ty: Type,
}

#[verifier::ext_equal]
pub struct FieldView {
    pub name: Seq<char>,
    pub ty: TypeView,
}

impl View for EventDataField {
    type V = FieldView;

    open spec fn view(&self) -> FieldView {
        FieldView { name: self.name@, ty: self.ty@ }
    }
}

impl Clone for EventDataField {
    fn clone(&self) -> (r: EventDataField)
        ensures
            r@ == self@,
    {
        EventDataField { name: self.name.clone(), ty: self.ty.clone() }
    }
}

/// The fields of a list, in order.
pub open spec fn data_views(v: Seq<EventDataField>) -> Seq<FieldView> {
    Seq::new(v.len(), |i: int| v[i]@)
}

pub fn clone_data(v: &Vec<EventDataField>) -> (r: Vec<EventDataField>)
    ensures
        data_views(r@) == data_views(v@),
{
    let mut out: Vec<EventDataField> = Vec::new();
    let mut i: usize = 0;
    while i < v.len()
        invariant
            i <= v@.len(),
            out@.len() == i,
            forall|k: int| 0 <= k < i ==> (#[trigger] out@[k])@ == v@[k]@,
        decreases v.len() - i,
    {
        out.push(v[i].clone());
        i += 1;
    }
    assert(data_views(out@) =~= data_views(v@));
    out
}

/// Whether two lists hold the same names and types.
pub fn data_eq(a: &Vec<EventDataField>, b: &Vec<EventDataField>) -> (r: bool)
    ensures
        r == (data_views(a@) == data_views(b@)),
{
    if a.len() != b.len() {
        assert(data_views(a@).len() != data_views(b@).len());
        return false;
    }
    let mut i: usize = 0;
    while i < a.len()
        invariant
            i <= a@.len(),
            a@.len() == b@.len(),
            forall|k: int| 0 <= k < i ==> data_views(a@)[k] == data_views(b@)[k],
        decreases a.len() - i,
    {
        if !str_eq(a[i].name.as_str(), b[i].name.as_str()) || !type_eq(&a[i].ty, &b[i].ty) {
            assert(data_views(a@)[i as int] != data_views(b@)[i as int]);
            return false;
        }
        i += 1;
    }
    assert(data_views(a@) =~= data_views(b@));
    true
}

/// A built-in event and the data it hands to its handlers.
#[derive(Debug)]
pub struct EventSpec {
    pub surface_name: String,
    pub data: Vec<EventDataField>,
}

/// A parameter of a built-in call, with the port of its gate that it feeds.
#[derive(Debug)]
pub struct ParamSpec {
    pub name: String,
    pub ty: Type,
    pub optional: bool,
    pub port: String,
}

/// An output port of a built-in call.
#[derive(Debug)]
pub struct OutputSpec {
    pub port: String,
    pub ty: Type,
}

/// A built-in call.
#[derive(Debug)]
pub struct CallSpec {
    pub name: String,
    pub gate_class: String,
    pub params: Vec<ParamSpec>,
    pub outputs: Vec<OutputSpec>,
    /// The type of the value the call can be a method of.
    pub receiver: Option<Type>,
    /// Whether the call runs on an exec pulse.
    pub needs_exec: bool,
}

/// An operator on given operand types.
#[derive(Debug)]
pub struct OpRule {
    pub op: String,
    pub operands: Vec<Type>,
    pub result: Type,
    pub gate_class: String,
}

#[verifier::ext_equal]
pub struct OpRuleView {
    pub op: Seq<char>,
    pub operands: Seq<TypeView>,
    pub result: TypeView,
    pub gate_class: Seq<char>,
}

impl View for OpRule {
    type V = OpRuleView;

    open spec fn view(&self) -> OpRuleView {
        OpRuleView {
            op: self.op@,
            operands: type_views(self.operands@),
            result: self.result@,
            gate_class: self.gate_class@,
        }
    }
}

impl Clone for OpRule {
    fn clone(&self) -> (r: OpRule)
        ensures
            r@ == self@,
    {
        let mut operands: Vec<Type> = Vec::new();
        let mut i: usize = 0;
        while i < self.operands.len()
            invariant
                i <= self.operands@.len(),
                operands@.len() == i,
                forall|k: int| 0 <= k < i ==> (#[trigger] operands@[k])@ == self.operands@[k]@,
            decreases self.operands.len() - i,
        {
            operands.push(self.operands[i].clone());
            i += 1;
        }
        assert(type_views(operands@) =~= type_views(self.operands@));
        OpRule {
            op: self.op.clone(),
            operands,
            result: self.result.clone(),
            gate_class: self.gate_class.clone(),
        }
    }
}

/// How a value of one type becomes a value of another.
#[derive(Clone, Copy, Debug, PartialEq, Eq, Structural)]
pub enum CoerceRule {
    Same,
    Implicit,
    ViaString,
    Mismatch,
}

/// One entry of the coercion table.
#[derive(Debug)]
pub struct Coercion {
    pub from: Type,
    pub to: Type,
    pub rule: CoerceRule,
}

/// A method of arrays. An output without a type of its own has the element
/// type of the array.
#[derive(Debug)]
pub struct ArrayMethod {
    pub name: String,
    pub signature: String,
    pub doc: String,
    pub outputs: Vec<(String, Option<Type>)>,
}

#[derive(Debug)]
pub struct Catalog {
    pub calls: Vec<CallSpec>,
    pub events: Vec<EventSpec>,
    pub operators: Vec<OpRule>,
    pub coercions: Vec<Coercion>,
    pub array_methods: Vec<ArrayMethod>,
}

pub open spec fn call_named(calls: Seq<CallSpec>, name: Seq<char>) -> Option<CallSpec>
    decreases calls.len(),
{
    if calls.len() == 0 {
        None
    } else if calls[0].name@ == name {
        Some(calls[0])
    } else {
        call_named(calls.drop_first(), name)
    }
}

pub open spec fn event_named(events: Seq<EventSpec>, name: Seq<char>) -> Option<EventSpec>
    decreases events.len(),
{
    if events.len() == 0 {
        None
    } else if events[0].surface_name@ == name {
        Some(events[0])
    } else {
        event_named(events.drop_first(), name)
    }
}

pub open spec fn method_named(methods: Seq<ArrayMethod>, name: Seq<char>) -> Option<ArrayMethod>
    decreases methods.len(),
{
    if methods.len() == 0 {
        None
    } else if methods[0].name@ == name {
        Some(methods[0])
    } else {
        method_named(methods.drop_first(), name)
    }
}

pub open spec fn rule_for(rules: Seq<OpRule>, op: Seq<char>, operands: Seq<TypeView>) -> Option<
    OpRule,
>
    decreases rules.len(),
{
    if rules.len() == 0 {
        None
    } else if rules[0].op@ == op && type_views(rules[0].operands@) == operands {
        Some(rules[0])
    } else {
        rule_for(rules.drop_first(), op, operands)
    }
}

pub open spec fn coercion_for(table: Seq<Coercion>, from: TypeView, to: TypeView) -> CoerceRule
    decreases table.len(),
{
    if table.len() == 0 {
        CoerceRule::Mismatch
    } else if table[0].from@ == from && table[0].to@ == to {
        table[0].rule
    } else {
        coercion_for(table.drop_first(), from, to)
    }
}

/// The type of one output of an array method on elements of type `elem`.
pub open spec fn output_type(o: (String, Option<Type>), elem: TypeView) -> TypeView {
    match o.1 {
        Some(t) => t@,
        None => elem,
    }
}

pub open spec fn output_fields(outs: Seq<(String, Option<Type>)>, elem: TypeView) -> Fields {
    Seq::new(outs.len(), |i: int| (outs[i].0@, output_type(outs[i], elem)))
}

impl Catalog {
    pub open spec fn call(self, name: Seq<char>) -> Option<CallSpec> {
        call_named(self.calls@, name)
    }

    pub open spec fn event(self, name: Seq<char>) -> Option<EventSpec> {
        event_named(self.events@, name)
    }

    pub open spec fn method(self, name: Seq<char>) -> Option<ArrayMethod> {
        method_named(self.array_methods@, name)
    }

    pub open spec fn op_rule(self, op: Seq<char>, operands: Seq<TypeView>) -> Option<OpRule> {
        rule_for(self.operators@, op, operands)
    }

    /// Equal types and `any` fit without a table entry; other pairs go by the
    /// first entry for them, and do not fit without one.
    pub open spec fn coercion(self, from: TypeView, to: TypeView) -> CoerceRule {
        if from == to || from is Any || to is Any {
            CoerceRule::Same
        } else {
            coercion_for(self.coercions@, from, to)
        }
    }

    /// Whether a value of type `from` can stand where `to` is wanted.
    pub open spec fn fits(self, from: TypeView, to: TypeView) -> bool {
        self.coercion(from, to) != CoerceRule::Mismatch
    }

    /// What an array method returns: its one output, a record of its several
    /// outputs, or `any` where it has none.
    pub open spec fn method_result(self, name: Seq<char>, elem: TypeView) -> TypeView {
        match self.method(name) {
            None => TypeView::Any,
            Some(m) => if m.outputs@.len() == 0 {
                TypeView::Any
            } else if m.outputs@.len() == 1 {
                output_type(m.outputs@[0], elem)
            } else {
                TypeView::Record(output_fields(m.outputs@, elem))
            },
        }
    }

    pub fn find_call(&self, name: &str) -> (r: Option<&CallSpec>)
        ensures
            r is Some <==> self.call(name@) is Some,
            r matches Some(c) ==> self.call(name@) == Some(*c),
    {
        let mut i: usize = 0;
        assert(self.calls@.skip(0) =~= self.calls@);
        while i < self.calls.len()
            invariant
                i <= self.calls@.len(),
                self.call(name@) == call_named(self.calls@.skip(i as int), name@),
            decreases self.calls.len() - i,
        {
            assert(self.calls@.skip(i as int).drop_first() =~= self.calls@.skip(i + 1));
            if str_eq(self.calls[i].name.as_str(), name) {
                return Some(&self.calls[i]);
            }
            i += 1;
        }
        None
    }

    pub fn find_event(&self, name: &str) -> (r: Option<&EventSpec>)
        ensures
            r is Some <==> self.event(name@) is Some,
            r matches Some(e) ==> self.event(name@) == Some(*e),
    {
        let mut i: usize = 0;
        assert(self.events@.skip(0) =~= self.events@);
        while i < self.events.len()
            invariant
                i <= self.events@.len(),
                self.event(name@) == event_named(self.events@.skip(i as int), name@),
            decreases self.events.len() - i,
        {
            assert(self.events@.skip(i as int).drop_first() =~= self.events@.skip(i + 1));
            if str_eq(self.events[i].surface_name.as_str(), name) {
                return Some(&self.events[i]);
            }
            i += 1;
        }
        None
    }

    pub fn find_method(&self, name: &str) -> (r: Option<&ArrayMethod>)
        ensures
            r is Some <==> self.method(name@) is Some,
            r matches Some(m) ==> self.method(name@) == Some(*m),
    {
        let mut i: usize = 0;
        assert(self.array_methods@.skip(0) =~= self.array_methods@);
        while i < self.array_methods.len()
            invariant
                i <= self.array_methods@.len(),
                self.method(name@) == method_named(self.array_methods@.skip(i as int), name@),
            decreases self.array_methods.len() - i,
        {
            assert(self.array_methods@.skip(i as int).drop_first() =~= self.array_methods@.skip(
                i + 1,
            ));
            if str_eq(self.array_methods[i].name.as_str(), name) {
                return Some(&self.array_methods[i]);
            }
            i += 1;
        }
        None
    }

    /// The first rule for an operator on exactly these operand types.
    pub fn resolve_op(&self, op: &str, operands: &Vec<Type>) -> (r: Option<&OpRule>)
        ensures
            r is Some <==> self.op_rule(op@, type_views(operands@)) is Some,
            r matches Some(rule) ==> self.op_rule(op@, type_views(operands@)) == Some(*rule),
    {
        let mut i: usize = 0;
        assert(self.operators@.skip(0) =~= self.operators@);
        while i < self.operators.len()
            invariant
                i <= self.operators@.len(),
                self.op_rule(op@, type_views(operands@)) == rule_for(
                    self.operators@.skip(i as int),
                    op@,
                    type_views(operands@),
                ),
            decreases self.operators.len() - i,
        {
            assert(self.operators@.skip(i as int).drop_first() =~= self.operators@.skip(i + 1));
            if str_eq(self.operators[i].op.as_str(), op) && types_eq(
                &self.operators[i].operands,
                operands,
            ) {
                return Some(&self.operators[i]);
            }
            i += 1;
        }
        None
    }

    pub fn coerce(&self, from: &Type, to: &Type) -> (r: CoerceRule)
        ensures
            r == self.coercion(from@, to@),
    {
        if type_eq(from, to) || matches!(from, Type::Any) || matches!(to, Type::Any) {
            return CoerceRule::Same;
        }
        let mut i: usize = 0;
        assert(self.coercions@.skip(0) =~= self.coercions@);
        while i < self.coercions.len()
            invariant
                i <= self.coercions@.len(),
                coercion_for(self.coercions@, from@, to@) == coercion_for(
                    self.coercions@.skip(i as int),
                    from@,
                    to@,
                ),
                self.coercion(from@, to@) == coercion_for(self.coercions@, from@, to@),
            decreases self.coercions.len() - i,
        {
            assert(self.coercions@.skip(i as int).drop_first() =~= self.coercions@.skip(i + 1));
            if type_eq(&self.coercions[i].from, from) && type_eq(&self.coercions[i].to, to) {
                return self.coercions[i].rule;
            }
            i += 1;
        }
        CoerceRule::Mismatch
    }

    pub fn array_return_type(&self, name: &str, elem: &Type) -> (r: Type)
        ensures
            r@ == self.method_result(name@, elem@),
    {
        broadcast use group_type_views;

        match self.find_method(name) {
            None => Type::Any,
            Some(m) => {
                if m.outputs.len() == 0 {
                    return Type::Any;
                }
                if m.outputs.len() == 1 {
                    return match &m.outputs[0].1 {
                        Some(t) => t.clone(),
                        None => elem.clone(),
                    };
                }
                let mut fields: Vec<(String, Type)> = Vec::new();
                let mut i: usize = 0;
                while i < m.outputs.len()
                    invariant
                        i <= m.outputs@.len(),
                        fields@.len() == i,
                        forall|k: int|
                            0 <= k < i ==> (#[trigger] fields@[k]).0@ == m.outputs@[k].0@
                                && fields@[k].1@ == output_type(m.outputs@[k], elem@),
                    decreases m.outputs.len() - i,
                {
                    let t = match &m.outputs[i].1 {
                        Some(t) => t.clone(),
                        None => elem.clone(),
                    };
                    fields.push((m.outputs[i].0.clone(), t));
                    i += 1;
                }
                assert(field_views(fields@) =~= output_fields(m.outputs@, elem@));
                Type::Record(fields)
            },
        }
    }
}

/// Whether two lists hold the same types.
pub fn types_eq(a: &Vec<Type>, b: &Vec<Type>) -> (r: bool)
    ensures
        r == (type_views(a@) == type_views(b@)),
{
    if a.len() != b.len() {
        assert(type_views(a@).len() != type_views(b@).len());
        return false;
    }
    let mut i: usize = 0;
    while i < a.len()
        invariant
            i <= a@.len(),
            a@.len() == b@.len(),
            forall|k: int| 0 <= k < i ==> type_views(a@)[k] == type_views(b@)[k],
        decreases a.len() - i,
    {
        if !type_eq(&a[i], &b[i]) {
            assert(type_views(a@)[i as int] != type_views(b@)[i as int]);
            return false;
        }
        i += 1;
    }
    assert(type_views(a@) =~= type_views(b@));
    true
}

/// The outputs of a call as record fields named after their ports.
pub open spec fn port_fields(outs: Seq<OutputSpec>) -> Fields {
    Seq::new(outs.len(), |i: int| (outs[i].port@, outs[i].ty@))
}

pub fn port_record(outs: &Vec<OutputSpec>) -> (r: Type)
    ensures
        r@ == TypeView::Record(port_fields(outs@)),
{
    broadcast use group_type_views;

    let mut fields: Vec<(String, Type)> = Vec::new();
    let mut i: usize = 0;
    while i < outs.len()
        invariant
            i <= outs@.len(),
            fields@.len() == i,
            forall|k: int|
                0 <= k < i ==> (#[trigger] fields@[k]).0@ == outs@[k].port@ && fields@[k].1@
                    == outs@[k].ty@,
        decreases outs.len() - i,
    {
        fields.push((outs[i].port.clone(), outs[i].ty.clone()));
        i += 1;
    }
    assert(field_views(fields@) =~= port_fields(outs@));
    Type::Record(fields)
}

} // verus!
