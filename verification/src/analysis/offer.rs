//! What completion draws on: the text before the cursor, the tables of the
//! language, and the types of receivers.

use crate::analysis::symbols::{find_of_kind, kind_named, SymbolDef};
use crate::analysis::text::{
    alphanumeric, before_col, byte_len, bytes_before, chars_before, clamp, line_of, nth_line,
    slice_of,
};
use crate::text::{ends_with, ends_with_text, str_eq, texts};
use vstd::prelude::*;
use vstd::string::*;

verus! {

// ---------- the place ----------

/// What the text shows where completion is asked for: the receiver of a
/// member access, the call whose arguments the cursor stands in, and the named
/// argument whose value it stands in with what is written of the value.
#[derive(Debug)]
pub struct CursorSite {
    pub receiver: Option<String>,
    pub call: Option<String>,
    pub argument: Option<(String, String)>,
}

/// The place of the last occurrence of `c`, or -1.
pub open spec fn last_at(s: Seq<char>, c: char) -> int
    decreases s.len(),
{
    if s.len() == 0 {
        -1
    } else if s.last() == c {
        s.len() - 1
    } else {
        last_at(s.drop_last(), c)
    }
}

/// A `$` before the cursor: its byte column and what follows it.
pub open spec fn dollar_at(l: Seq<char>, col: usize) -> Option<(usize, Seq<char>)> {
    let before = before_col(l, col);
    let d = last_at(before, '$');
    if d < 0 {
        None
    } else {
        Some((clamp(byte_len(before.take(d))), before.skip(d + 1)))
    }
}

/// The `$` before a place of a script.
pub open spec fn dollar_in(source: Seq<char>, line: usize, col: usize) -> Option<
    (usize, Seq<char>),
> {
    match line_of(source, line) {
        Some(l) => dollar_at(l, col),
        None => None,
    }
}

pub open spec fn dollar_of(r: Option<(usize, Vec<char>)>) -> Option<(usize, Seq<char>)> {
    match r {
        Some(p) => Some((p.0, p.1@)),
        None => None,
    }
}

pub fn find_dollar(source: &str, line: usize, col: usize) -> (r: Option<(usize, Vec<char>)>)
    ensures
        dollar_of(r) == dollar_in(source@, line, col),
{
    let l = match nth_line(source, line) {
        Some(l) => l,
        None => return None,
    };
    let c: usize = chars_before(&l, col);
    let ghost before = before_col(l@, col);
    let mut i: usize = c;
    assert(before.take(c as int) =~= before);
    while i > 0
        invariant
            i <= c <= l@.len(),
            before == l@.take(c as int),
            before == before_col(l@, col),
            line_of(source@, line) == Some(l@),
            last_at(before, '$') == last_at(before.take(i as int), '$'),
        decreases i,
    {
        let ghost here = before.take(i as int);
        assert(here.drop_last() =~= before.take(i - 1));
        assert(here.last() == l@[i - 1]);
        if l[i - 1] == '$' {
            let rest = slice_of(&l, i, c);
            assert(rest@ =~= before.skip(i as int));
            assert(before.take(i - 1) =~= l@.take(i - 1));
            return Some((bytes_before(&l, i - 1), rest));
        }
        i -= 1;
    }
    assert(before.take(0) =~= Seq::empty());
    None
}

/// Characters of a prefab path.
pub open spec fn prefab_char(c: char) -> bool {
    alphanumeric(c) || c == '_' || c == '/' || c == '.' || c == '-'
}

/// Characters of an asset reference.
pub open spec fn asset_char(c: char) -> bool {
    alphanumeric(c) || c == '_' || c == '/'
}

/// Whether the text after a `$` is the start of a prefab path.
pub open spec fn prefab_fragment(frag: Seq<char>) -> bool {
    frag.len() > 0 && (frag[0] == '.' || frag[0] == '/') && forall|i: int|
        0 <= i < frag.len() ==> prefab_char(#[trigger] frag[i])
}

pub fn is_prefab_fragment(frag: &Vec<char>) -> (r: bool)
    ensures
        r == prefab_fragment(frag@),
{
    if frag.len() == 0 || (frag[0] != '.' && frag[0] != '/') {
        return false;
    }
    let mut i: usize = 0;
    while i < frag.len()
        invariant
            i <= frag@.len(),
            forall|k: int| 0 <= k < i ==> prefab_char(#[trigger] frag@[k]),
        decreases frag@.len() - i,
    {
        let c = frag[i];
        if !(c.is_alphanumeric() || c == '_' || c == '/' || c == '.' || c == '-') {
            assert(!prefab_char(frag@[i as int]));
            return false;
        }
        i += 1;
    }
    true
}

/// Whether the text after a `$` is the start of an asset reference.
pub open spec fn asset_fragment(frag: Seq<char>) -> bool {
    forall|i: int| 0 <= i < frag.len() ==> asset_char(#[trigger] frag[i])
}

pub fn is_asset_fragment(frag: &Vec<char>) -> (r: bool)
    ensures
        r == asset_fragment(frag@),
{
    let mut i: usize = 0;
    while i < frag.len()
        invariant
            i <= frag@.len(),
            forall|k: int| 0 <= k < i ==> asset_char(#[trigger] frag@[k]),
        decreases frag@.len() - i,
    {
        let c = frag[i];
        if !(c.is_alphanumeric() || c == '_' || c == '/') {
            assert(!asset_char(frag@[i as int]));
            return false;
        }
        i += 1;
    }
    true
}

// ---------- tables ----------

/// What is known of a type in surface form: the fields of a record, the
/// components of a value, its methods with their signatures, and the parameters
/// of a signature.
#[derive(Debug)]
pub struct TypeFacts {
    pub ty: String,
    pub fields: Option<Vec<String>>,
    pub swizzle: Vec<String>,
    pub methods: Vec<(String, String)>,
    pub params: Option<Vec<String>>,
}

/// The values of an enumerated input of a gate.
#[derive(Debug)]
pub struct EnumField {
    pub class: String,
    pub port: String,
    pub values: Vec<String>,
}

/// The tables that completion reads besides the catalog.
#[derive(Debug)]
pub struct Tables {
    pub types: Vec<TypeFacts>,
    /// Asset types with the names of their assets.
    pub assets: Vec<(String, Vec<String>)>,
    pub enums: Vec<EnumField>,
}

pub open spec fn facts_from(types: Seq<TypeFacts>, ty: Seq<char>, i: int) -> Option<TypeFacts>
    decreases types.len() - i,
{
    if i < 0 || i >= types.len() {
        None
    } else if types[i].ty@ == ty {
        Some(types[i])
    } else {
        facts_from(types, ty, i + 1)
    }
}

pub open spec fn assets_from(assets: Seq<(String, Vec<String>)>, ty: Seq<char>, i: int) -> Seq<
    Seq<char>,
>
    decreases assets.len() - i,
{
    if i < 0 || i >= assets.len() {
        Seq::empty()
    } else if assets[i].0@ == ty {
        texts(assets[i].1@)
    } else {
        assets_from(assets, ty, i + 1)
    }
}

pub open spec fn values_from(enums: Seq<EnumField>, class: Seq<char>, port: Seq<char>, i: int) -> Seq<
    Seq<char>,
>
    decreases enums.len() - i,
{
    if i < 0 || i >= enums.len() {
        Seq::empty()
    } else if enums[i].class@ == class && enums[i].port@ == port {
        texts(enums[i].values@)
    } else {
        values_from(enums, class, port, i + 1)
    }
}

impl Tables {
    /// What is known of a type.
    pub open spec fn facts(self, ty: Seq<char>) -> Option<TypeFacts> {
        facts_from(self.types@, ty, 0)
    }

    /// The names of the assets of a type.
    pub open spec fn asset_names(self, ty: Seq<char>) -> Seq<Seq<char>> {
        assets_from(self.assets@, ty, 0)
    }

    /// The values of an enumerated input; none for other inputs.
    pub open spec fn values(self, class: Seq<char>, port: Seq<char>) -> Seq<Seq<char>> {
        values_from(self.enums@, class, port, 0)
    }

    /// The fields of a record type.
    pub open spec fn fields(self, ty: Seq<char>) -> Option<Seq<Seq<char>>> {
        match self.facts(ty) {
            Some(f) => match f.fields {
                Some(v) => Some(texts(v@)),
                None => None,
            },
            None => None,
        }
    }

    /// The parameters of a signature; none for other texts.
    pub open spec fn params(self, sig: Seq<char>) -> Seq<Seq<char>> {
        match self.facts(sig) {
            Some(f) => match f.params {
                Some(v) => texts(v@),
                None => Seq::empty(),
            },
            None => Seq::empty(),
        }
    }

    /// The components of values of a type.
    pub open spec fn swizzle(self, ty: Seq<char>) -> Seq<Seq<char>> {
        match self.facts(ty) {
            Some(f) => texts(f.swizzle@),
            None => Seq::empty(),
        }
    }

    /// The methods of values of a type, with their signatures.
    pub open spec fn methods(self, ty: Seq<char>) -> Seq<(Seq<char>, Seq<char>)> {
        match self.facts(ty) {
            Some(f) => pair_texts(f.methods@),
            None => Seq::empty(),
        }
    }

    pub fn find_facts(&self, ty: &str) -> (r: Option<&TypeFacts>)
        ensures
            r is Some <==> self.facts(ty@) is Some,
            r matches Some(f) ==> self.facts(ty@) == Some(*f),
    {
        let mut i: usize = 0;
        while i < self.types.len()
            invariant
                i <= self.types@.len(),
                self.facts(ty@) == facts_from(self.types@, ty@, i as int),
            decreases self.types@.len() - i,
        {
            if str_eq(self.types[i].ty.as_str(), ty) {
                return Some(&self.types[i]);
            }
            i += 1;
        }
        None
    }

    pub fn find_assets(&self, ty: &str) -> (r: Option<&Vec<String>>)
        ensures
            self.asset_names(ty@) == (match r {
                Some(v) => texts(v@),
                None => Seq::empty(),
            }),
    {
        let mut i: usize = 0;
        while i < self.assets.len()
            invariant
                i <= self.assets@.len(),
                self.asset_names(ty@) == assets_from(self.assets@, ty@, i as int),
            decreases self.assets@.len() - i,
        {
            if str_eq(self.assets[i].0.as_str(), ty) {
                return Some(&self.assets[i].1);
            }
            i += 1;
        }
        None
    }

    pub fn find_values(&self, class: &str, port: &str) -> (r: Option<&Vec<String>>)
        ensures
            self.values(class@, port@) == (match r {
                Some(v) => texts(v@),
                None => Seq::empty(),
            }),
    {
        let mut i: usize = 0;
        while i < self.enums.len()
            invariant
                i <= self.enums@.len(),
                self.values(class@, port@) == values_from(self.enums@, class@, port@, i as int),
            decreases self.enums@.len() - i,
        {
            if str_eq(self.enums[i].class.as_str(), class) && str_eq(
                self.enums[i].port.as_str(),
                port,
            ) {
                return Some(&self.enums[i].values);
            }
            i += 1;
        }
        None
    }
}

pub open spec fn pair_texts(v: Seq<(String, String)>) -> Seq<(Seq<char>, Seq<char>)> {
    Seq::new(v.len(), |i: int| (v[i].0@, v[i].1@))
}

// ---------- receivers ----------

/// The type of a symbol in surface form.
pub open spec fn type_of_symbol(sym: Option<SymbolDef>) -> Option<Seq<char>> {
    match sym {
        Some(s) => match s.ty {
            Some(t) => Some(t@),
            None => None,
        },
        None => None,
    }
}

/// Whether a receiver is an array: declared as one, or of an array type.
pub open spec fn array_like(sym: SymbolDef) -> bool {
    sym.kind@ == "array"@ || (match sym.ty {
        Some(t) => ends_with_text(t@, "[]"@),
        None => false,
    })
}

pub fn is_array_like(sym: &SymbolDef) -> (r: bool)
    ensures
        r == array_like(*sym),
{
    if str_eq(sym.kind.as_str(), "array") {
        return true;
    }
    match &sym.ty {
        Some(t) => ends_with(t.as_str(), "[]"),
        None => false,
    }
}

/// Whether a receiver is a variable.
pub open spec fn variable(kind: Seq<char>) -> bool {
    kind == "var"@ || kind == "static var"@
}

pub fn is_variable(kind: &str) -> (r: bool)
    ensures
        r == variable(kind@),
{
    str_eq(kind, "var") || str_eq(kind, "static var")
}

/// The fields of a receiver type: a record written out, or a declared type
/// that names one.
pub open spec fn record_fields(tables: Tables, ty: Seq<char>, symbols: Seq<SymbolDef>) -> Option<
    Seq<Seq<char>>,
> {
    match tables.fields(ty) {
        Some(f) => Some(f),
        None => match type_of_symbol(kind_named(symbols, "type"@, ty)) {
            Some(t) => tables.fields(t),
            None => None,
        },
    }
}

/// Record fields for a receiver type: an inline `{…}` record, or a named `type`
/// alias resolved through its `type` symbol.
pub fn resolve_record_fields<'a>(tables: &'a Tables, ty: &str, symbols: &Vec<SymbolDef>) -> (r:
    Option<&'a Vec<String>>)
    ensures
        record_fields(*tables, ty@, symbols@) == (match r {
            Some(v) => Some(texts(v@)),
            None => None,
        }),
{
    if let Some(f) = tables.find_facts(ty) {
        if let Some(v) = &f.fields {
            return Some(v);
        }
    }
    let alias = match find_of_kind(symbols, "type", ty) {
        Some(s) => s,
        None => return None,
    };
    let t = match &alias.ty {
        Some(t) => t,
        None => return None,
    };
    match tables.find_facts(t.as_str()) {
        Some(f) => match &f.fields {
            Some(v) => Some(v),
            None => None,
        },
        None => None,
    }
}

} // verus!
