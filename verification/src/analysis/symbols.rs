//! What an editor knows of a script besides its text: the declared symbols,
//! the estimates of what they cost, and the documentation of gates.

use crate::assoc::{AssocMap, SameView};
use crate::diagnostic::SourceRange;
use crate::text::str_eq;
use vstd::prelude::*;
use vstd::string::*;

verus! {

/// A declared name: its kind as written (`var`, `mod`, `namespace`, ..), where
/// it is declared, its type in surface form, and whether it runs on exec
/// pulses.
#[derive(Debug)]
pub struct SymbolDef {
    pub name: String,
    pub kind: String,
    pub range: SourceRange,
    pub ty: Option<String>,
    pub is_exec: bool,
}

/// The first symbol from `i` on with a name.
pub open spec fn symbol_from(symbols: Seq<SymbolDef>, name: Seq<char>, i: int) -> Option<SymbolDef>
    decreases symbols.len() - i,
{
    if i < 0 || i >= symbols.len() {
        None
    } else if symbols[i].name@ == name {
        Some(symbols[i])
    } else {
        symbol_from(symbols, name, i + 1)
    }
}

/// The first symbol with a name.
pub open spec fn symbol_named(symbols: Seq<SymbolDef>, name: Seq<char>) -> Option<SymbolDef> {
    symbol_from(symbols, name, 0)
}

pub fn find_symbol<'a>(symbols: &'a Vec<SymbolDef>, name: &str) -> (r: Option<&'a SymbolDef>)
    ensures
        r is Some <==> symbol_named(symbols@, name@) is Some,
        r matches Some(s) ==> symbol_named(symbols@, name@) == Some(*s),
{
    let mut i: usize = 0;
    while i < symbols.len()
        invariant
            i <= symbols@.len(),
            symbol_named(symbols@, name@) == symbol_from(symbols@, name@, i as int),
        decreases symbols@.len() - i,
    {
        if str_eq(symbols[i].name.as_str(), name) {
            return Some(&symbols[i]);
        }
        i += 1;
    }
    None
}

/// The first symbol from `i` on with a kind and a name.
pub open spec fn kind_from(
    symbols: Seq<SymbolDef>,
    kind: Seq<char>,
    name: Seq<char>,
    i: int,
) -> Option<SymbolDef>
    decreases symbols.len() - i,
{
    if i < 0 || i >= symbols.len() {
        None
    } else if symbols[i].kind@ == kind && symbols[i].name@ == name {
        Some(symbols[i])
    } else {
        kind_from(symbols, kind, name, i + 1)
    }
}

/// The first symbol with a kind and a name.
pub open spec fn kind_named(symbols: Seq<SymbolDef>, kind: Seq<char>, name: Seq<char>) -> Option<
    SymbolDef,
> {
    kind_from(symbols, kind, name, 0)
}

pub fn find_of_kind<'a>(symbols: &'a Vec<SymbolDef>, kind: &str, name: &str) -> (r: Option<
    &'a SymbolDef,
>)
    ensures
        r is Some <==> kind_named(symbols@, kind@, name@) is Some,
        r matches Some(s) ==> kind_named(symbols@, kind@, name@) == Some(*s),
{
    let mut i: usize = 0;
    while i < symbols.len()
        invariant
            i <= symbols@.len(),
            kind_named(symbols@, kind@, name@) == kind_from(symbols@, kind@, name@, i as int),
        decreases symbols@.len() - i,
    {
        if str_eq(symbols[i].kind.as_str(), kind) && str_eq(symbols[i].name.as_str(), name) {
            return Some(&symbols[i]);
        }
        i += 1;
    }
    None
}

// ---------- estimates ----------

/// What a piece of a script becomes: gates, and microchips to hold them.
#[derive(Clone, Copy, Debug, PartialEq, Eq, Structural)]
pub struct ResourceEstimate {
    pub gates: usize,
    pub total_microchips: usize,
}

impl View for ResourceEstimate {
    type V = ResourceEstimate;

    open spec fn view(&self) -> ResourceEstimate {
        *self
    }
}

/// A declaration, by its name and the byte offset where it starts.
#[derive(Debug)]
pub struct DeclKey {
    pub name: String,
    pub start: usize,
}

impl View for DeclKey {
    type V = (Seq<char>, usize);

    open spec fn view(&self) -> (Seq<char>, usize) {
        (self.name@, self.start)
    }
}

impl SameView for DeclKey {
    fn same(&self, other: &DeclKey) -> (r: bool) {
        self.start == other.start && str_eq(self.name.as_str(), other.name.as_str())
    }
}

/// The estimates of a script: those of handlers and conditionals by where they
/// start, those of declarations by name and start.
#[derive(Debug)]
pub struct Estimates {
    pub scopes: AssocMap<usize, ResourceEstimate>,
    pub decls: AssocMap<DeclKey, ResourceEstimate>,
}

// ---------- gate documentation ----------

/// What a port of a gate is called and what it is for.
#[derive(Debug)]
pub struct PortDoc {
    pub display_name: String,
    pub tooltip: String,
}

/// What a gate is called, what it does, and its input ports.
#[derive(Debug)]
pub struct GateDoc {
    pub display_name: String,
    pub description: String,
    pub inputs: Vec<(String, PortDoc)>,
}

pub open spec fn port_from(inputs: Seq<(String, PortDoc)>, port: Seq<char>, i: int) -> Option<
    PortDoc,
>
    decreases inputs.len() - i,
{
    if i < 0 || i >= inputs.len() {
        None
    } else if inputs[i].0@ == port {
        Some(inputs[i].1)
    } else {
        port_from(inputs, port, i + 1)
    }
}

/// The documentation of an input port.
pub open spec fn port_doc(doc: GateDoc, port: Seq<char>) -> Option<PortDoc> {
    port_from(doc.inputs@, port, 0)
}

impl GateDoc {
    pub fn find_port(&self, port: &str) -> (r: Option<&PortDoc>)
        ensures
            r is Some <==> port_doc(*self, port@) is Some,
            r matches Some(d) ==> port_doc(*self, port@) == Some(*d),
    {
        let mut i: usize = 0;
        while i < self.inputs.len()
            invariant
                i <= self.inputs@.len(),
                port_doc(*self, port@) == port_from(self.inputs@, port@, i as int),
            decreases self.inputs@.len() - i,
        {
            if str_eq(self.inputs[i].0.as_str(), port) {
                return Some(&self.inputs[i].1);
            }
            i += 1;
        }
        None
    }
}

pub open spec fn doc_from(docs: Seq<(String, GateDoc)>, class: Seq<char>, i: int) -> Option<GateDoc>
    decreases docs.len() - i,
{
    if i < 0 || i >= docs.len() {
        None
    } else if docs[i].0@ == class {
        Some(docs[i].1)
    } else {
        doc_from(docs, class, i + 1)
    }
}

/// The documentation of a gate class.
pub open spec fn gate_doc(docs: Seq<(String, GateDoc)>, class: Seq<char>) -> Option<GateDoc> {
    doc_from(docs, class, 0)
}

pub fn find_gate_doc<'a>(docs: &'a Vec<(String, GateDoc)>, class: &str) -> (r: Option<&'a GateDoc>)
    ensures
        r is Some <==> gate_doc(docs@, class@) is Some,
        r matches Some(d) ==> gate_doc(docs@, class@) == Some(*d),
{
    let mut i: usize = 0;
    while i < docs.len()
        invariant
            i <= docs@.len(),
            gate_doc(docs@, class@) == doc_from(docs@, class@, i as int),
        decreases docs@.len() - i,
    {
        if str_eq(docs[i].0.as_str(), class) {
            return Some(&docs[i].1);
        }
        i += 1;
    }
    None
}

} // verus!
