//! What the web editor is told: diagnostics, completions, locations and
//! symbols, in the shape in which it takes them.

use crate::analysis::hover::{
    find_param_named, is_callable, callable, param_from,
};
use crate::analysis::offer::{
    array_like, asset_fragment, dollar_in, find_dollar, is_array_like, is_asset_fragment,
    is_prefab_fragment, is_variable, prefab_fragment, record_fields, resolve_record_fields,
    type_of_symbol, variable, CursorSite, Tables,
};
use crate::analysis::symbols::{find_symbol, symbol_named, SymbolDef};
use crate::analysis::text::{
    find_char, first_at, has_at, has_char, slice_of, stands_at,
};
use crate::ast::{LetBinding, TopDecl};
use crate::ast_view::text_of;
use crate::catalog::{CallSpec, Catalog, EventDataField, EventSpec, ParamSpec};
use crate::diagnostic::{views, Diagnostic, DiagnosticView, Severity};
use crate::lexer::KEYWORDS;
use crate::text::{cat2, cat3, chars_of, join, joined, owned, str_eq, string_of, texts};
use crate::types::{type_str, type_text};
use vstd::prelude::*;
use vstd::string::*;

verus! {

// ---------- diagnostics ----------

#[derive(Debug)]
pub struct DiagnosticOut {
    pub severity: String,
    pub code: String,
    pub message: String,
    pub start_line: usize,
    pub start_col: usize,
    pub end_line: usize,
    pub end_col: usize,
}

#[verifier::ext_equal]
pub struct DiagnosticOutView {
    pub severity: Seq<char>,
    pub code: Seq<char>,
    pub message: Seq<char>,
    pub start_line: usize,
    pub start_col: usize,
    pub end_line: usize,
    pub end_col: usize,
}

impl View for DiagnosticOut {
    type V = DiagnosticOutView;

    open spec fn view(&self) -> DiagnosticOutView {
        DiagnosticOutView {
            severity: self.severity@,
            code: self.code@,
            message: self.message@,
            start_line: self.start_line,
            start_col: self.start_col,
            end_line: self.end_line,
            end_col: self.end_col,
        }
    }
}

/// A line or column that counts from one, counted from zero.
pub open spec fn from_zero(n: usize) -> usize {
    if n == 0 {
        0
    } else {
        (n - 1) as usize
    }
}

pub open spec fn severity_text(s: Severity) -> Seq<char> {
    match s {
        Severity::Error => "error"@,
        Severity::Warning => "warning"@,
        Severity::Info => "info"@,
    }
}

pub fn severity_name(s: Severity) -> (r: &'static str)
    ensures
        r@ == severity_text(s),
{
    match s {
        Severity::Error => "error",
        Severity::Warning => "warning",
        Severity::Info => "info",
    }
}

/// A diagnostic as the editor takes it.
pub open spec fn diagnostic_out(d: DiagnosticView) -> DiagnosticOutView {
    DiagnosticOutView {
        severity: severity_text(d.severity),
        code: d.code,
        message: d.message,
        start_line: from_zero(d.range.start.line),
        start_col: from_zero(d.range.start.col),
        end_line: from_zero(d.range.end.line),
        end_col: from_zero(d.range.end.col),
    }
}

/// Whether a diagnostic is shown in a file: it belongs to it or to none.
pub open spec fn shown_in(d: DiagnosticView, file: Seq<char>) -> bool {
    d.range.file == file || d.range.file.len() == 0
}

/// The diagnostics of a file among the first `n`.
pub open spec fn diagnostics_out(ds: Seq<DiagnosticView>, file: Seq<char>, n: nat) -> Seq<
    DiagnosticOutView,
>
    decreases n,
{
    if n == 0 || n > ds.len() {
        Seq::empty()
    } else {
        let before = diagnostics_out(ds, file, (n - 1) as nat);
        if shown_in(ds[n - 1], file) {
            before.push(diagnostic_out(ds[n - 1]))
        } else {
            before
        }
    }
}

pub fn is_shown_in(d: &Diagnostic, file: &str) -> (r: bool)
    ensures
        r == shown_in(d@, file@),
{
    str_eq(d.range.file.as_str(), file) || d.range.file.as_str().unicode_len() == 0
}

fn push_diagnostics(out: &mut Vec<DiagnosticOut>, ds: &Vec<Diagnostic>, file: &str)
    ensures
        views(final(out)@) == views(old(out)@) + diagnostics_out(views(ds@), file@, ds@.len()),
{
    let ghost head = views(out@);
    let mut i: usize = 0;
    assert(head + Seq::<DiagnosticOutView>::empty() =~= head);
    while i < ds.len()
        invariant
            i <= ds@.len(),
            views(out@) == head + diagnostics_out(views(ds@), file@, i as nat),
        decreases ds@.len() - i,
    {
        let d = &ds[i];
        let ghost before = out@;
        assert(views(ds@)[i as int] == d@);
        if is_shown_in(d, file) {
            let item = DiagnosticOut {
                severity: owned(severity_name(d.severity)),
                code: d.code.clone(),
                message: d.message.clone(),
                start_line: d.range.start.line.saturating_sub(1),
                start_col: d.range.start.col.saturating_sub(1),
                end_line: d.range.end.line.saturating_sub(1),
                end_col: d.range.end.col.saturating_sub(1),
            };
            assert(item@ == diagnostic_out(d@));
            out.push(item);
            assert(views(out@) =~= views(before).push(item@));
            assert(views(out@) =~= head + diagnostics_out(views(ds@), file@, (i + 1) as nat));
        }
        i += 1;
    }
}

/// The diagnostics of a script: those of its imports, then those of its types.
pub fn diagnostics(resolved: &Vec<Diagnostic>, checked: &Vec<Diagnostic>, file: &str) -> (r: Vec<
    DiagnosticOut,
>)
    ensures
        views(r@) == diagnostics_out(views(resolved@), file@, resolved@.len()) + diagnostics_out(
            views(checked@),
            file@,
            checked@.len(),
        ),
{
    let mut out: Vec<DiagnosticOut> = Vec::new();
    assert(views(out@) =~= Seq::empty());
    push_diagnostics(&mut out, resolved, file);
    assert(views(out@) =~= diagnostics_out(views(resolved@), file@, resolved@.len()));
    push_diagnostics(&mut out, checked, file);
    out
}

// ---------- completions ----------

#[derive(Debug)]
pub struct CompletionOut {
    pub label: String,
    pub kind: String,
    pub detail: Option<String>,
    pub insert_text: Option<String>,
}

#[verifier::ext_equal]
pub struct CompletionView {
    pub label: Seq<char>,
    pub kind: Seq<char>,
    pub detail: Option<Seq<char>>,
    pub insert: Option<Seq<char>>,
}

impl View for CompletionOut {
    type V = CompletionView;

    open spec fn view(&self) -> CompletionView {
        CompletionView {
            label: self.label@,
            kind: self.kind@,
            detail: text_of(self.detail),
            insert: text_of(self.insert_text),
        }
    }
}

/// An item with neither detail nor inserted text.
pub open spec fn bare(label: Seq<char>, kind: Seq<char>) -> CompletionView {
    CompletionView { label, kind, detail: None, insert: None }
}

fn bare_item(label: &str, kind: &str) -> (r: CompletionOut)
    ensures
        r@ == bare(label@, kind@),
{
    CompletionOut { label: owned(label), kind: owned(kind), detail: None, insert_text: None }
}

/// An item with a detail.
pub open spec fn detailed(label: Seq<char>, kind: Seq<char>, detail: Seq<char>) -> CompletionView {
    CompletionView { label, kind, detail: Some(detail), insert: None }
}

fn detailed_item(label: &str, kind: &str, detail: String) -> (r: CompletionOut)
    ensures
        r@ == detailed(label@, kind@, detail@),
{
    CompletionOut { label: owned(label), kind: owned(kind), detail: Some(detail), insert_text: None }
}

/// A field, with the word for its detail.
pub open spec fn field_item_of(name: Seq<char>, detail: Seq<char>) -> CompletionView {
    CompletionView { label: name, kind: "field"@, detail: Some(detail), insert: Some(name) }
}

fn field_item(name: &str, detail: &str) -> (r: CompletionOut)
    ensures
        r@ == field_item_of(name@, detail@),
{
    CompletionOut {
        label: owned(name),
        kind: owned("field"),
        detail: Some(owned(detail)),
        insert_text: Some(owned(name)),
    }
}

fn push_item(items: &mut Vec<CompletionOut>, item: CompletionOut)
    ensures
        views(final(items)@) == views(old(items)@).push(item@),
{
    let ghost before = items@;
    items.push(item);
    assert(views(items@) =~= views(before).push(item@));
}

/// The components and methods of values of a type.
pub open spec fn type_members(tables: Tables, ty: Seq<char>) -> Seq<CompletionView> {
    let parts = tables.swizzle(ty);
    let methods = tables.methods(ty);
    Seq::new(parts.len(), |i: int| field_item_of(parts[i], "field"@)) + Seq::new(
        methods.len(),
        |i: int| detailed(methods[i].0, "method"@, methods[i].1),
    )
}

/// Swizzle components (`vector`/`color`) + receiver methods valid for a typed value.
pub fn push_type_members(tables: &Tables, ty: &str, items: &mut Vec<CompletionOut>)
    ensures
        views(final(items)@) == views(old(items)@) + type_members(*tables, ty@),
{
    let ghost head = views(items@);
    let f = match tables.find_facts(ty) {
        Some(f) => f,
        None => {
            assert(head + type_members(*tables, ty@) =~= head);
            return;
        },
    };
    let ghost parts = tables.swizzle(ty@);
    let ghost methods = tables.methods(ty@);
    let ghost first = Seq::new(parts.len(), |i: int| field_item_of(parts[i], "field"@));
    let ghost second = Seq::new(
        methods.len(),
        |i: int| detailed(methods[i].0, "method"@, methods[i].1),
    );
    let mut i: usize = 0;
    assert(head + first.take(0) =~= head);
    while i < f.swizzle.len()
        invariant
            i <= f.swizzle@.len(),
            parts == texts(f.swizzle@),
            first == Seq::new(parts.len(), |i: int| field_item_of(parts[i], "field"@)),
            views(items@) == head + first.take(i as int),
        decreases f.swizzle@.len() - i,
    {
        push_item(items, field_item(f.swizzle[i].as_str(), "field"));
        assert(first.take(i + 1) =~= first.take(i as int).push(first[i as int]));
        assert(views(items@) =~= head + first.take(i + 1));
        i += 1;
    }
    assert(first.take(i as int) =~= first);
    let mut j: usize = 0;
    assert(head + first + second.take(0) =~= head + first);
    while j < f.methods.len()
        invariant
            j <= f.methods@.len(),
            methods == crate::analysis::offer::pair_texts(f.methods@),
            second == Seq::new(
                methods.len(),
                |i: int| detailed(methods[i].0, "method"@, methods[i].1),
            ),
            views(items@) == head + first + second.take(j as int),
        decreases f.methods@.len() - j,
    {
        push_item(
            items,
            detailed_item(f.methods[j].0.as_str(), "method", f.methods[j].1.clone()),
        );
        assert(second.take(j + 1) =~= second.take(j as int).push(second[j as int]));
        assert(views(items@) =~= head + first + second.take(j + 1));
        j += 1;
    }
    assert(second.take(j as int) =~= second);
    assert(views(items@) =~= head + type_members(*tables, ty@));
}

// ---------- `$` references ----------

/// The prefab paths among the first `n` that start with a fragment.
pub open spec fn prefab_items(frag: Seq<char>, paths: Seq<String>, n: nat) -> Seq<CompletionView>
    decreases n,
{
    if n == 0 || n > paths.len() {
        Seq::empty()
    } else {
        let before = prefab_items(frag, paths, (n - 1) as nat);
        let path = paths[n - 1]@;
        if has_at(path, 0, frag) {
            before.push(
                CompletionView { label: path, kind: "file"@, detail: None, insert: Some(path) },
            )
        } else {
            before
        }
    }
}

/// What is offered after a `$` that starts a prefab path.
pub open spec fn prefab_offers(dollar: Option<(usize, Seq<char>)>, paths: Seq<String>) -> Seq<
    CompletionView,
> {
    match dollar {
        Some((_, frag)) => if prefab_fragment(frag) {
            prefab_items(frag, paths, paths.len())
        } else {
            Seq::empty()
        },
        None => Seq::empty(),
    }
}

fn offer_prefabs(frag: &Vec<char>, paths: &Vec<String>) -> (r: Vec<CompletionOut>)
    ensures
        views(r@) == if prefab_fragment(frag@) {
            prefab_items(frag@, paths@, paths@.len())
        } else {
            Seq::empty()
        },
{
    let mut items: Vec<CompletionOut> = Vec::new();
    assert(views(items@) =~= Seq::empty());
    if !is_prefab_fragment(frag) {
        return items;
    }
    let start = string_of(frag, 0, frag.len());
    assert(start@ =~= frag@);
    let mut i: usize = 0;
    while i < paths.len()
        invariant
            i <= paths@.len(),
            start@ == frag@,
            views(items@) == prefab_items(frag@, paths@, i as nat),
        decreases paths@.len() - i,
    {
        let path = chars_of(paths[i].as_str());
        if stands_at(&path, 0, start.as_str()) {
            push_item(
                &mut items,
                CompletionOut {
                    label: paths[i].clone(),
                    kind: owned("file"),
                    detail: None,
                    insert_text: Some(paths[i].clone()),
                },
            );
        }
        i += 1;
    }
    items
}

/// What is offered after a `$` that starts an asset reference: names of assets
/// after the slash, types of assets before it.
pub open spec fn asset_offers(dollar: Option<(usize, Seq<char>)>, tables: Tables) -> Seq<
    CompletionView,
> {
    match dollar {
        Some((_, frag)) => if asset_fragment(frag) {
            asset_items(frag, tables)
        } else {
            Seq::empty()
        },
        None => Seq::empty(),
    }
}

pub open spec fn asset_items(frag: Seq<char>, tables: Tables) -> Seq<CompletionView> {
    let k = first_at(frag, '/');
    if k < frag.len() {
        let names = tables.asset_names(frag.take(k));
        Seq::new(names.len(), |i: int| bare(names[i], "constant"@))
    } else {
        Seq::new(
            tables.assets@.len(),
            |i: int|
                CompletionView {
                    label: tables.assets@[i].0@,
                    kind: "class"@,
                    detail: None,
                    insert: Some(tables.assets@[i].0@ + "/"@),
                },
        )
    }
}

fn offer_assets(frag: &Vec<char>, tables: &Tables) -> (r: Vec<CompletionOut>)
    ensures
        views(r@) == if asset_fragment(frag@) {
            asset_items(frag@, *tables)
        } else {
            Seq::empty()
        },
{
    let mut items: Vec<CompletionOut> = Vec::new();
    assert(views(items@) =~= Seq::empty());
    if !is_asset_fragment(frag) {
        return items;
    }
    assert(frag@.skip(0) =~= frag@);
    let k: usize = find_char(frag, 0, '/');
    let ghost all = asset_items(frag@, *tables);
    let mut i: usize = 0;
    assert(all.take(0) =~= Seq::empty());
    if k < frag.len() {
        let ty = string_of(frag, 0, k);
        assert(ty@ =~= frag@.take(k as int));
        if let Some(names) = tables.find_assets(ty.as_str()) {
            while i < names.len()
                invariant
                    i <= names@.len(),
                    all == Seq::new(
                        texts(names@).len(),
                        |i: int| bare(texts(names@)[i], "constant"@),
                    ),
                    views(items@) == all.take(i as int),
                decreases names@.len() - i,
            {
                push_item(&mut items, bare_item(names[i].as_str(), "constant"));
                assert(all.take(i + 1) =~= all.take(i as int).push(all[i as int]));
                i += 1;
            }
        }
    } else {
        while i < tables.assets.len()
            invariant
                i <= tables.assets@.len(),
                k >= frag@.len(),
                k == first_at(frag@, '/'),
                all == asset_items(frag@, *tables),
                views(items@) == all.take(i as int),
            decreases tables.assets@.len() - i,
        {
            let ty = &tables.assets[i].0;
            push_item(
                &mut items,
                CompletionOut {
                    label: ty.clone(),
                    kind: owned("class"),
                    detail: None,
                    insert_text: Some(cat2(ty.as_str(), "/")),
                },
            );
            assert(all.take(i + 1) =~= all.take(i as int).push(all[i as int]));
            i += 1;
        }
    }
    assert(all.take(i as int) =~= all);
    items
}

// ---------- members ----------

/// The methods of arrays.
pub open spec fn array_items(catalog: Catalog) -> Seq<CompletionView> {
    let ms = catalog.array_methods@;
    Seq::new(
        ms.len(),
        |i: int|
            detailed(
                ms[i].name@,
                "method"@,
                ms[i].name@ + ms[i].signature@ + " - "@ + ms[i].doc@,
            ),
    )
}

fn offer_array_methods(catalog: &Catalog) -> (r: Vec<CompletionOut>)
    ensures
        views(r@) == array_items(*catalog),
{
    let ghost all = array_items(*catalog);
    let mut items: Vec<CompletionOut> = Vec::new();
    let mut i: usize = 0;
    assert(views(items@) =~= all.take(0));
    while i < catalog.array_methods.len()
        invariant
            i <= catalog.array_methods@.len(),
            all == array_items(*catalog),
            views(items@) == all.take(i as int),
        decreases catalog.array_methods@.len() - i,
    {
        let m = &catalog.array_methods[i];
        let front = cat2(m.name.as_str(), m.signature.as_str());
        let detail = cat3(front.as_str(), " - ", m.doc.as_str());
        push_item(&mut items, detailed_item(m.name.as_str(), "method", detail));
        assert(all.take(i + 1) =~= all.take(i as int).push(all[i as int]));
        i += 1;
    }
    assert(all.take(i as int) =~= all);
    items
}

/// The members of a namespace among the first `n` symbols.
pub open spec fn namespace_items(symbols: Seq<SymbolDef>, prefix: Seq<char>, n: nat) -> Seq<
    CompletionView,
>
    decreases n,
{
    if n == 0 || n > symbols.len() {
        Seq::empty()
    } else {
        let before = namespace_items(symbols, prefix, (n - 1) as nat);
        let name = symbols[n - 1].name@;
        let member = name.skip(prefix.len() as int);
        if has_at(name, 0, prefix) && !member.contains('.') {
            before.push(
                CompletionView {
                    label: member,
                    kind: "method"@,
                    detail: None,
                    insert: Some(member),
                },
            )
        } else {
            before
        }
    }
}

fn offer_namespace(symbols: &Vec<SymbolDef>, prefix: &str) -> (r: Vec<CompletionOut>)
    ensures
        views(r@) == namespace_items(symbols@, prefix@, symbols@.len()),
{
    let skip: usize = prefix.unicode_len();
    let mut items: Vec<CompletionOut> = Vec::new();
    let mut i: usize = 0;
    assert(views(items@) =~= Seq::empty());
    while i < symbols.len()
        invariant
            i <= symbols@.len(),
            skip == prefix@.len(),
            views(items@) == namespace_items(symbols@, prefix@, i as nat),
        decreases symbols@.len() - i,
    {
        let name = chars_of(symbols[i].name.as_str());
        if stands_at(&name, 0, prefix) {
            let member = slice_of(&name, skip, name.len());
            assert(member@ =~= name@.skip(skip as int));
            if !has_char(&member, '.') {
                let text = string_of(&member, 0, member.len());
                assert(text@ =~= member@);
                push_item(
                    &mut items,
                    CompletionOut {
                        label: text.clone(),
                        kind: owned("method"),
                        detail: None,
                        insert_text: Some(text),
                    },
                );
            }
        }
        i += 1;
    }
    items
}

/// What is offered for the members of a receiver. An unknown receiver has none.
pub open spec fn member_items(
    receiver: Seq<char>,
    symbols: Seq<SymbolDef>,
    catalog: Catalog,
    tables: Tables,
) -> Seq<CompletionView> {
    match symbol_named(symbols, receiver) {
        None => Seq::empty(),
        Some(sym) => if array_like(sym) {
            array_items(catalog)
        } else if sym.kind@ == "namespace"@ {
            namespace_items(symbols, receiver + "."@, symbols.len())
        } else if variable(sym.kind@) {
            let own = seq![
                field_item_of("Value"@, "Read current value (pure)"@),
                field_item_of("prev"@, "Read previous tick's value"@),
            ];
            match type_of_symbol(Some(sym)) {
                Some(ty) => own + type_members(tables, ty),
                None => own,
            }
        } else {
            match type_of_symbol(Some(sym)) {
                Some(ty) => match record_fields(tables, ty, symbols) {
                    Some(names) => Seq::new(
                        names.len(),
                        |i: int| field_item_of(names[i], "field"@),
                    ),
                    None => type_members(tables, ty),
                },
                None => Seq::empty(),
            }
        },
    }
}

fn offer_fields(names: &Vec<String>) -> (r: Vec<CompletionOut>)
    ensures
        views(r@) == Seq::new(
            texts(names@).len(),
            |i: int| field_item_of(texts(names@)[i], "field"@),
        ),
{
    let ghost all = Seq::new(
        texts(names@).len(),
        |i: int| field_item_of(texts(names@)[i], "field"@),
    );
    let mut items: Vec<CompletionOut> = Vec::new();
    let mut i: usize = 0;
    assert(views(items@) =~= all.take(0));
    while i < names.len()
        invariant
            i <= names@.len(),
            all == Seq::new(
                texts(names@).len(),
                |i: int| field_item_of(texts(names@)[i], "field"@),
            ),
            views(items@) == all.take(i as int),
        decreases names@.len() - i,
    {
        push_item(&mut items, field_item(names[i].as_str(), "field"));
        assert(all.take(i + 1) =~= all.take(i as int).push(all[i as int]));
        i += 1;
    }
    assert(all.take(i as int) =~= all);
    items
}

fn offer_members(
    receiver: &str,
    symbols: &Vec<SymbolDef>,
    catalog: &Catalog,
    tables: &Tables,
) -> (r: Vec<CompletionOut>)
    ensures
        views(r@) == member_items(receiver@, symbols@, *catalog, *tables),
{
    let mut items: Vec<CompletionOut> = Vec::new();
    assert(views(items@) =~= Seq::empty());
    let sym = match find_symbol(symbols, receiver) {
        Some(s) => s,
        None => return items,
    };
    if is_array_like(sym) {
        return offer_array_methods(catalog);
    }
    if str_eq(sym.kind.as_str(), "namespace") {
        let prefix = cat2(receiver, ".");
        return offer_namespace(symbols, prefix.as_str());
    }
    if is_variable(sym.kind.as_str()) {
        push_item(&mut items, field_item("Value", "Read current value (pure)"));
        push_item(&mut items, field_item("prev", "Read previous tick's value"));
        assert(views(items@) =~= seq![
            field_item_of("Value"@, "Read current value (pure)"@),
            field_item_of("prev"@, "Read previous tick's value"@),
        ]);
        if let Some(ty) = &sym.ty {
            push_type_members(tables, ty.as_str(), &mut items);
        }
        return items;
    }
    let ty = match &sym.ty {
        Some(t) => t,
        None => return items,
    };
    if let Some(names) = resolve_record_fields(tables, ty.as_str(), symbols) {
        return offer_fields(names);
    }
    push_type_members(tables, ty.as_str(), &mut items);
    assert(Seq::<CompletionView>::empty() + type_members(*tables, ty@) =~= type_members(
        *tables,
        ty@,
    ));
    items
}

// ---------- arguments ----------

/// The values of an enumerated argument. Quotes come with a value where none
/// is written yet.
pub open spec fn value_items(values: Seq<Seq<char>>, param: Seq<char>, written: Seq<char>) -> Seq<
    CompletionView,
> {
    Seq::new(
        values.len(),
        |i: int|
            CompletionView {
                label: values[i],
                kind: "enum"@,
                detail: Some(param + " value"@),
                insert: Some(
                    if written.contains('"') {
                        values[i]
                    } else {
                        "\""@ + values[i] + "\""@
                    },
                ),
            },
    )
}

/// What is offered for the value of a named argument of a call.
pub open spec fn enum_items(
    spec: CallSpec,
    argument: Option<(Seq<char>, Seq<char>)>,
    tables: Tables,
) -> Seq<CompletionView> {
    match argument {
        Some((param, written)) => match param_from(spec.params@, param, 0) {
            Some(p) => value_items(tables.values(spec.gate_class@, p.port@), param, written),
            None => Seq::empty(),
        },
        None => Seq::empty(),
    }
}

pub open spec fn argument_of(a: Option<(String, String)>) -> Option<(Seq<char>, Seq<char>)> {
    match a {
        Some(p) => Some((p.0@, p.1@)),
        None => None,
    }
}

fn offer_values(spec: &CallSpec, argument: &Option<(String, String)>, tables: &Tables) -> (r: Vec<
    CompletionOut,
>)
    ensures
        views(r@) == enum_items(*spec, argument_of(*argument), *tables),
{
    let mut items: Vec<CompletionOut> = Vec::new();
    assert(views(items@) =~= Seq::empty());
    let (param, written) = match argument {
        Some(p) => (&p.0, &p.1),
        None => return items,
    };
    let p = match find_param_named(&spec.params, param.as_str()) {
        Some(p) => p,
        None => return items,
    };
    let values = match tables.find_values(spec.gate_class.as_str(), p.port.as_str()) {
        Some(v) => v,
        None => {
            assert(views(items@) =~= value_items(Seq::empty(), param@, written@));
            return items;
        },
    };
    let chars = chars_of(written.as_str());
    let quoted: bool = has_char(&chars, '"');
    let ghost all = value_items(texts(values@), param@, written@);
    let mut i: usize = 0;
    assert(all.take(0) =~= Seq::empty());
    while i < values.len()
        invariant
            i <= values@.len(),
            quoted == written@.contains('"'),
            all == value_items(texts(values@), param@, written@),
            views(items@) == all.take(i as int),
        decreases values@.len() - i,
    {
        let v = &values[i];
        let insert = if quoted {
            v.clone()
        } else {
            cat3("\"", v.as_str(), "\"")
        };
        push_item(
            &mut items,
            CompletionOut {
                label: v.clone(),
                kind: owned("enum"),
                detail: Some(cat2(param.as_str(), " value")),
                insert_text: Some(insert),
            },
        );
        assert(all.take(i + 1) =~= all.take(i as int).push(all[i as int]));
        i += 1;
    }
    assert(all.take(i as int) =~= all);
    items
}

/// A parameter as it is offered: an optional one by name.
pub open spec fn param_item(p: ParamSpec) -> CompletionView {
    if p.optional {
        CompletionView {
            label: p.name@ + " = "@,
            kind: "field"@,
            detail: Some(type_text(p.ty@) + " (optional)"@),
            insert: Some(p.name@ + " = "@),
        }
    } else {
        detailed(p.name@, "field"@, type_text(p.ty@) + " (required)"@)
    }
}

/// The parameters that are offered among the first `n`: all but a receiver.
pub open spec fn param_items(spec: CallSpec, n: nat) -> Seq<CompletionView>
    decreases n,
{
    if n == 0 || n > spec.params@.len() {
        Seq::empty()
    } else {
        let before = param_items(spec, (n - 1) as nat);
        if n == 1 && spec.receiver is Some {
            before
        } else {
            before.push(param_item(spec.params@[n - 1]))
        }
    }
}

fn offer_params(spec: &CallSpec) -> (r: Vec<CompletionOut>)
    ensures
        views(r@) == param_items(*spec, spec.params@.len()),
{
    let mut items: Vec<CompletionOut> = Vec::new();
    let mut i: usize = 0;
    assert(views(items@) =~= Seq::empty());
    while i < spec.params.len()
        invariant
            i <= spec.params@.len(),
            views(items@) == param_items(*spec, i as nat),
        decreases spec.params@.len() - i,
    {
        let p = &spec.params[i];
        if !(i == 0 && spec.receiver.is_some()) {
            let ty = type_str(&p.ty);
            let item = if p.optional {
                CompletionOut {
                    label: cat2(p.name.as_str(), " = "),
                    kind: owned("field"),
                    detail: Some(cat2(ty.as_str(), " (optional)")),
                    insert_text: Some(cat2(p.name.as_str(), " = ")),
                }
            } else {
                detailed_item(p.name.as_str(), "field", cat2(ty.as_str(), " (required)"))
            };
            assert(item@ == param_item(*p));
            push_item(&mut items, item);
        }
        i += 1;
    }
    items
}

/// The first callable symbol with a name, from the `i`-th on.
pub open spec fn callable_from(symbols: Seq<SymbolDef>, name: Seq<char>, i: int) -> Option<SymbolDef>
    decreases symbols.len() - i,
{
    if i < 0 || i >= symbols.len() {
        None
    } else if symbols[i].name@ == name && callable(symbols[i].kind@) {
        Some(symbols[i])
    } else {
        callable_from(symbols, name, i + 1)
    }
}

/// What is offered for the parameters of a declared callable.
pub open spec fn user_items(name: Seq<char>, symbols: Seq<SymbolDef>, tables: Tables) -> Seq<
    CompletionView,
> {
    match type_of_symbol(callable_from(symbols, name, 0)) {
        Some(sig) => {
            let names = tables.params(sig);
            Seq::new(
                names.len(),
                |i: int|
                    CompletionView {
                        label: names[i],
                        kind: "field"@,
                        detail: None,
                        insert: Some(names[i]),
                    },
            )
        },
        None => Seq::empty(),
    }
}

fn offer_user_params(name: &str, symbols: &Vec<SymbolDef>, tables: &Tables) -> (r: Vec<
    CompletionOut,
>)
    ensures
        views(r@) == user_items(name@, symbols@, *tables),
{
    let mut items: Vec<CompletionOut> = Vec::new();
    let ghost all = user_items(name@, symbols@, *tables);
    assert(views(items@) =~= Seq::empty());
    let mut k: usize = 0;
    while k < symbols.len() && !(str_eq(symbols[k].name.as_str(), name) && is_callable(
        symbols[k].kind.as_str(),
    ))
        invariant
            k <= symbols@.len(),
            callable_from(symbols@, name@, 0) == callable_from(symbols@, name@, k as int),
        decreases symbols@.len() - k,
    {
        k += 1;
    }
    if k >= symbols.len() {
        return items;
    }
    let sig = match &symbols[k].ty {
        Some(t) => t,
        None => return items,
    };
    assert(type_of_symbol(callable_from(symbols@, name@, 0)) == Some(sig@));
    let f = match tables.find_facts(sig.as_str()) {
        Some(f) => f,
        None => {
            assert(views(items@) =~= all);
            return items;
        },
    };
    let names = match &f.params {
        Some(v) => v,
        None => {
            assert(views(items@) =~= all);
            return items;
        },
    };
    let mut i: usize = 0;
    assert(all.take(0) =~= Seq::empty());
    while i < names.len()
        invariant
            i <= names@.len(),
            all == Seq::new(
                texts(names@).len(),
                |i: int|
                    CompletionView {
                        label: texts(names@)[i],
                        kind: "field"@,
                        detail: None,
                        insert: Some(texts(names@)[i]),
                    },
            ),
            views(items@) == all.take(i as int),
        decreases names@.len() - i,
    {
        push_item(
            &mut items,
            CompletionOut {
                label: names[i].clone(),
                kind: owned("field"),
                detail: None,
                insert_text: Some(names[i].clone()),
            },
        );
        assert(all.take(i + 1) =~= all.take(i as int).push(all[i as int]));
        i += 1;
    }
    assert(all.take(i as int) =~= all);
    items
}

/// What is offered inside the brackets of a call.
pub open spec fn call_items(
    site: CursorSite,
    symbols: Seq<SymbolDef>,
    catalog: Catalog,
    tables: Tables,
) -> Seq<CompletionView> {
    match site.call {
        None => Seq::empty(),
        Some(name) => match catalog.call(name@) {
            Some(spec) => {
                let values = enum_items(spec, argument_of(site.argument), tables);
                if values.len() > 0 {
                    values
                } else {
                    param_items(spec, spec.params@.len())
                }
            },
            None => user_items(name@, symbols, tables),
        },
    }
}

fn offer_call(
    site: &CursorSite,
    symbols: &Vec<SymbolDef>,
    catalog: &Catalog,
    tables: &Tables,
) -> (r: Vec<CompletionOut>)
    ensures
        views(r@) == call_items(*site, symbols@, *catalog, *tables),
{
    let name = match &site.call {
        Some(n) => n,
        None => {
            let items: Vec<CompletionOut> = Vec::new();
            assert(views(items@) =~= Seq::empty());
            return items;
        },
    };
    match catalog.find_call(name.as_str()) {
        Some(spec) => {
            let values = offer_values(spec, &site.argument, tables);
            assert(views(values@).len() == values@.len());
            if values.len() > 0 {
                return values;
            }
            offer_params(spec)
        },
        None => offer_user_params(name.as_str(), symbols, tables),
    }
}

// ---------- everything ----------

/// The types that are offered by name.
pub const TYPE_NAMES: [&'static str; 11] = [
    "int",
    "float",
    "bool",
    "string",
    "entity",
    "controller",
    "character",
    "vector",
    "rotator",
    "color",
    "exec",
];

/// The annotations: `@side` port pins plus the chip annotations.
pub const ANNOTATIONS: [(&'static str, &'static str); 6] = [
    ("@left", "outer rerouter pin"),
    ("@right", "outer rerouter pin"),
    ("@top", "outer rerouter pin"),
    ("@bottom", "outer rerouter pin"),
    ("@label", "display-text override"),
    ("@closed", "compile chip collapsed"),
];

/// The names of the data of an event.
pub open spec fn data_names(data: Seq<EventDataField>) -> Seq<Seq<char>> {
    Seq::new(data.len(), |i: int| data[i].name@)
}

pub fn data_name_list(data: &Vec<EventDataField>) -> (r: Vec<String>)
    ensures
        texts(r@) == data_names(data@),
{
    let mut out: Vec<String> = Vec::new();
    let mut i: usize = 0;
    while i < data.len()
        invariant
            i <= data@.len(),
            out@.len() == i,
            forall|k: int| 0 <= k < i ==> (#[trigger] out@[k])@ == data@[k].name@,
        decreases data@.len() - i,
    {
        out.push(data[i].name.clone());
        i += 1;
    }
    assert(texts(out@) =~= data_names(data@));
    out
}

/// The data of an event in brackets, if it has any.
pub open spec fn event_detail(data: Seq<EventDataField>) -> Option<Seq<char>> {
    if data.len() == 0 {
        None
    } else {
        Some("("@ + joined(data_names(data), ", "@) + ")"@)
    }
}

pub fn event_detail_of(data: &Vec<EventDataField>) -> (r: Option<String>)
    ensures
        text_of(r) == event_detail(data@),
{
    if data.len() == 0 {
        None
    } else {
        Some(cat3("(", join(&data_name_list(data), ", ").as_str(), ")"))
    }
}

pub open spec fn keyword_items() -> Seq<CompletionView> {
    Seq::new(KEYWORDS@.len(), |i: int| bare(KEYWORDS@[i]@, "keyword"@))
}

pub open spec fn event_items(events: Seq<EventSpec>) -> Seq<CompletionView> {
    Seq::new(
        events.len(),
        |i: int|
            CompletionView {
                label: events[i].surface_name@,
                kind: "event"@,
                detail: event_detail(events[i].data@),
                insert: None,
            },
    )
}

/// The names of the required parameters among the first `n`.
pub open spec fn required_names(params: Seq<ParamSpec>, n: nat) -> Seq<Seq<char>>
    decreases n,
{
    if n == 0 || n > params.len() {
        Seq::empty()
    } else {
        let before = required_names(params, (n - 1) as nat);
        if params[n - 1].optional {
            before
        } else {
            before.push(params[n - 1].name@)
        }
    }
}

fn required_name_list(params: &Vec<ParamSpec>) -> (r: Vec<String>)
    ensures
        texts(r@) == required_names(params@, params@.len()),
{
    let mut out: Vec<String> = Vec::new();
    let mut i: usize = 0;
    assert(texts(out@) =~= Seq::empty());
    while i < params.len()
        invariant
            i <= params@.len(),
            texts(out@) == required_names(params@, i as nat),
        decreases params@.len() - i,
    {
        if !params[i].optional {
            let ghost before = out@;
            out.push(params[i].name.clone());
            assert(texts(out@) =~= texts(before).push(params@[i as int].name@));
        }
        i += 1;
    }
    out
}

pub open spec fn function_items(calls: Seq<CallSpec>) -> Seq<CompletionView> {
    Seq::new(
        calls.len(),
        |i: int|
            detailed(
                calls[i].name@,
                "function"@,
                "("@ + joined(required_names(calls[i].params@, calls[i].params@.len()), ", "@)
                    + ")"@,
            ),
    )
}

pub open spec fn type_items() -> Seq<CompletionView> {
    Seq::new(TYPE_NAMES@.len(), |i: int| bare(TYPE_NAMES@[i]@, "type"@))
}

pub open spec fn annotation_items() -> Seq<CompletionView> {
    Seq::new(
        ANNOTATIONS@.len(),
        |i: int| detailed(ANNOTATIONS@[i].0@, "keyword"@, ANNOTATIONS@[i].1@),
    )
}

/// The symbols among the first `n` that a bare name can mean.
pub open spec fn symbol_items(symbols: Seq<SymbolDef>, n: nat) -> Seq<CompletionView>
    decreases n,
{
    if n == 0 || n > symbols.len() {
        Seq::empty()
    } else {
        let before = symbol_items(symbols, (n - 1) as nat);
        let sym = symbols[n - 1];
        if sym.name@.contains('.') {
            before
        } else {
            before.push(
                CompletionView {
                    label: sym.name@,
                    kind: sym.kind@,
                    detail: text_of(sym.ty),
                    insert: None,
                },
            )
        }
    }
}

/// What is offered where nothing narrows it down.
pub open spec fn global_items(symbols: Seq<SymbolDef>, catalog: Catalog) -> Seq<CompletionView> {
    keyword_items() + event_items(catalog.events@) + function_items(catalog.calls@) + type_items()
        + annotation_items() + symbol_items(symbols, symbols.len())
}

fn push_keywords(items: &mut Vec<CompletionOut>)
    ensures
        views(final(items)@) == views(old(items)@) + keyword_items(),
{
    let ghost head = views(items@);
    let ghost all = keyword_items();
    let mut i: usize = 0;
    assert(head + all.take(0) =~= head);
    while i < KEYWORDS.len()
        invariant
            i <= KEYWORDS@.len(),
            all == keyword_items(),
            views(items@) == head + all.take(i as int),
        decreases KEYWORDS@.len() - i,
    {
        push_item(items, bare_item(KEYWORDS[i], "keyword"));
        assert(all.take(i + 1) =~= all.take(i as int).push(all[i as int]));
        assert(views(items@) =~= head + all.take(i + 1));
        i += 1;
    }
    assert(all.take(i as int) =~= all);
}

fn push_events(items: &mut Vec<CompletionOut>, events: &Vec<EventSpec>)
    ensures
        views(final(items)@) == views(old(items)@) + event_items(events@),
{
    let ghost head = views(items@);
    let ghost all = event_items(events@);
    let mut i: usize = 0;
    assert(head + all.take(0) =~= head);
    while i < events.len()
        invariant
            i <= events@.len(),
            all == event_items(events@),
            views(items@) == head + all.take(i as int),
        decreases events@.len() - i,
    {
        push_item(
            items,
            CompletionOut {
                label: events[i].surface_name.clone(),
                kind: owned("event"),
                detail: event_detail_of(&events[i].data),
                insert_text: None,
            },
        );
        assert(all.take(i + 1) =~= all.take(i as int).push(all[i as int]));
        assert(views(items@) =~= head + all.take(i + 1));
        i += 1;
    }
    assert(all.take(i as int) =~= all);
}

fn push_functions(items: &mut Vec<CompletionOut>, calls: &Vec<CallSpec>)
    ensures
        views(final(items)@) == views(old(items)@) + function_items(calls@),
{
    let ghost head = views(items@);
    let ghost all = function_items(calls@);
    let mut i: usize = 0;
    assert(head + all.take(0) =~= head);
    while i < calls.len()
        invariant
            i <= calls@.len(),
            all == function_items(calls@),
            views(items@) == head + all.take(i as int),
        decreases calls@.len() - i,
    {
        let names = required_name_list(&calls[i].params);
        let detail = cat3("(", join(&names, ", ").as_str(), ")");
        push_item(items, detailed_item(calls[i].name.as_str(), "function", detail));
        assert(all.take(i + 1) =~= all.take(i as int).push(all[i as int]));
        assert(views(items@) =~= head + all.take(i + 1));
        i += 1;
    }
    assert(all.take(i as int) =~= all);
}

fn push_types(items: &mut Vec<CompletionOut>)
    ensures
        views(final(items)@) == views(old(items)@) + type_items(),
{
    let ghost head = views(items@);
    let ghost all = type_items();
    let mut i: usize = 0;
    assert(head + all.take(0) =~= head);
    while i < TYPE_NAMES.len()
        invariant
            i <= TYPE_NAMES@.len(),
            all == type_items(),
            views(items@) == head + all.take(i as int),
        decreases TYPE_NAMES@.len() - i,
    {
        push_item(items, bare_item(TYPE_NAMES[i], "type"));
        assert(all.take(i + 1) =~= all.take(i as int).push(all[i as int]));
        assert(views(items@) =~= head + all.take(i + 1));
        i += 1;
    }
    assert(all.take(i as int) =~= all);
}

fn push_annotations(items: &mut Vec<CompletionOut>)
    ensures
        views(final(items)@) == views(old(items)@) + annotation_items(),
{
    let ghost head = views(items@);
    let ghost all = annotation_items();
    let mut i: usize = 0;
    assert(head + all.take(0) =~= head);
    while i < ANNOTATIONS.len()
        invariant
            i <= ANNOTATIONS@.len(),
            all == annotation_items(),
            views(items@) == head + all.take(i as int),
        decreases ANNOTATIONS@.len() - i,
    {
        push_item(items, detailed_item(ANNOTATIONS[i].0, "keyword", owned(ANNOTATIONS[i].1)));
        assert(all.take(i + 1) =~= all.take(i as int).push(all[i as int]));
        assert(views(items@) =~= head + all.take(i + 1));
        i += 1;
    }
    assert(all.take(i as int) =~= all);
}

/// A copy of an optional text.
pub fn copy_of(t: &Option<String>) -> (r: Option<String>)
    ensures
        text_of(r) == text_of(*t),
{
    match t {
        Some(s) => Some(s.clone()),
        None => None,
    }
}

fn push_symbols(items: &mut Vec<CompletionOut>, symbols: &Vec<SymbolDef>)
    ensures
        views(final(items)@) == views(old(items)@) + symbol_items(symbols@, symbols@.len()),
{
    let ghost head = views(items@);
    let mut i: usize = 0;
    assert(head + Seq::<CompletionView>::empty() =~= head);
    while i < symbols.len()
        invariant
            i <= symbols@.len(),
            views(items@) == head + symbol_items(symbols@, i as nat),
        decreases symbols@.len() - i,
    {
        let sym = &symbols[i];
        let name = chars_of(sym.name.as_str());
        if !has_char(&name, '.') {
            push_item(
                items,
                CompletionOut {
                    label: sym.name.clone(),
                    kind: sym.kind.clone(),
                    detail: copy_of(&sym.ty),
                    insert_text: None,
                },
            );
            assert(views(items@) =~= head + symbol_items(symbols@, (i + 1) as nat));
        }
        i += 1;
    }
}

/// The completions at a place: prefab paths, assets, members of a receiver,
/// arguments of a call, and else everything. Members are never mixed with
/// anything else, even when there are none.
pub open spec fn completion_list(
    source: Seq<char>,
    symbols: Seq<SymbolDef>,
    catalog: Catalog,
    tables: Tables,
    site: CursorSite,
    line: usize,
    col: usize,
    paths: Seq<String>,
) -> Seq<CompletionView> {
    let dollar = dollar_in(source, line, col);
    let prefabs = prefab_offers(dollar, paths);
    let assets = asset_offers(dollar, tables);
    if prefabs.len() > 0 {
        prefabs
    } else if assets.len() > 0 {
        assets
    } else {
        match site.receiver {
            Some(r) => member_items(r@, symbols, catalog, tables),
            None => {
                let arguments = call_items(site, symbols, catalog, tables);
                if arguments.len() > 0 {
                    arguments
                } else {
                    global_items(symbols, catalog)
                }
            },
        }
    }
}

pub fn completions(
    source: &str,
    symbols: &Vec<SymbolDef>,
    catalog: &Catalog,
    tables: &Tables,
    site: &CursorSite,
    line: usize,
    col: usize,
    prefab_paths: &Vec<String>,
) -> (r: Vec<CompletionOut>)
    ensures
        views(r@) == completion_list(
            source@,
            symbols@,
            *catalog,
            *tables,
            *site,
            line,
            col,
            prefab_paths@,
        ),
{
    if let Some((_, frag)) = find_dollar(source, line, col) {
        let prefabs = offer_prefabs(&frag, prefab_paths);
        assert(views(prefabs@).len() == prefabs@.len());
        if prefabs.len() > 0 {
            return prefabs;
        }
        let assets = offer_assets(&frag, tables);
        assert(views(assets@).len() == assets@.len());
        if assets.len() > 0 {
            return assets;
        }
    }
    if let Some(receiver) = &site.receiver {
        return offer_members(receiver.as_str(), symbols, catalog, tables);
    }
    let arguments = offer_call(site, symbols, catalog, tables);
    assert(views(arguments@).len() == arguments@.len());
    if arguments.len() > 0 {
        return arguments;
    }
    let mut items: Vec<CompletionOut> = Vec::new();
    assert(views(items@) =~= Seq::empty());
    push_keywords(&mut items);
    assert(views(items@) =~= keyword_items());
    push_events(&mut items, &catalog.events);
    push_functions(&mut items, &catalog.calls);
    push_types(&mut items);
    push_annotations(&mut items);
    push_symbols(&mut items, symbols);
    items
}

// ---------- laws of completion ----------

/// Whether every item is labelled with a bare name.
pub open spec fn all_bare(items: Seq<CompletionView>) -> bool {
    forall|i: int| 0 <= i < items.len() ==> !(#[trigger] items[i]).label.contains('.')
}

/// Qualified names are reached only through their namespace: neither the
/// symbols that are offered for a bare name nor the members of a namespace
/// hold a dot.
pub proof fn qualified_names_stay_hidden(symbols: Seq<SymbolDef>, prefix: Seq<char>, n: nat)
    ensures
        all_bare(symbol_items(symbols, n)),
        all_bare(namespace_items(symbols, prefix, n)),
    decreases n,
{
    if n > 0 && n <= symbols.len() {
        qualified_names_stay_hidden(symbols, prefix, (n - 1) as nat);
    }
}

/// A symbol with a bare name is offered where nothing narrows the choice.
pub proof fn bare_symbols_are_offered(symbols: Seq<SymbolDef>, catalog: Catalog, k: int)
    requires
        0 <= k < symbols.len(),
        !symbols[k].name@.contains('.'),
    ensures
        exists|i: int|
            0 <= i < global_items(symbols, catalog).len() && (#[trigger] global_items(
                symbols,
                catalog,
            )[i]).label == symbols[k].name@,
{
    lemma_symbol_offered(symbols, symbols.len(), k);
    let own = symbol_items(symbols, symbols.len());
    let i = choose|i: int| 0 <= i < own.len() && (#[trigger] own[i]).label == symbols[k].name@;
    let all = global_items(symbols, catalog);
    let head = all.len() - own.len();
    assert(all[head + i] == own[i]);
}

proof fn lemma_symbol_offered(symbols: Seq<SymbolDef>, n: nat, k: int)
    requires
        0 <= k < n <= symbols.len(),
        !symbols[k].name@.contains('.'),
    ensures
        exists|i: int|
            0 <= i < symbol_items(symbols, n).len() && (#[trigger] symbol_items(symbols, n)[i]).label
                == symbols[k].name@,
    decreases n,
{
    let items = symbol_items(symbols, n);
    let before = symbol_items(symbols, (n - 1) as nat);
    if k == n - 1 {
        assert(items[items.len() - 1].label == symbols[k].name@);
    } else {
        lemma_symbol_offered(symbols, (n - 1) as nat, k);
        let i = choose|i: int|
            0 <= i < before.len() && (#[trigger] before[i]).label == symbols[k].name@;
        assert(items[i] == before[i]);
    }
}

/// Where a receiver stands before the cursor, its members are all that is
/// offered, unless a `$` reference is being written.
pub proof fn members_stay_alone(
    source: Seq<char>,
    symbols: Seq<SymbolDef>,
    catalog: Catalog,
    tables: Tables,
    site: CursorSite,
    line: usize,
    col: usize,
    paths: Seq<String>,
)
    requires
        site.receiver is Some,
        dollar_in(source, line, col) is None,
    ensures
        completion_list(source, symbols, catalog, tables, site, line, col, paths) == member_items(
            site.receiver->0@,
            symbols,
            catalog,
            tables,
        ),
{
}

// ---------- hover and locations ----------

#[derive(Debug)]
pub struct HoverOut {
    pub value: String,
}

/// A card as the editor takes it.
pub fn hover(card: Option<String>) -> (r: Option<HoverOut>)
    ensures
        text_of(card) == (match r {
            Some(h) => Some(h.value@),
            None => None,
        }),
{
    match card {
        Some(value) => Some(HoverOut { value }),
        None => None,
    }
}

/// A place in some file; in the asking file without a name.
#[derive(Debug)]
pub struct Location {
    pub start_line: usize,
    pub start_col: usize,
    pub end_line: usize,
    pub end_col: usize,
    pub file: Option<String>,
}

/// A stretch of a text.
#[derive(Clone, Copy, Debug, PartialEq, Eq, Structural)]
pub struct TextRange {
    pub start_line: usize,
    pub start_col: usize,
    pub end_line: usize,
    pub end_col: usize,
}

#[derive(Debug)]
pub struct LocationOut {
    pub start_line: usize,
    pub start_col: usize,
    pub end_line: usize,
    pub end_col: usize,
    pub file: Option<String>,
}

impl From<Location> for LocationOut {
    fn from(loc: Location) -> (r: LocationOut) {
        LocationOut {
            start_line: loc.start_line,
            start_col: loc.start_col,
            end_line: loc.end_line,
            end_col: loc.end_col,
            file: loc.file,
        }
    }
}

impl vstd::std_specs::convert::FromSpecImpl<Location> for LocationOut {
    open spec fn obeys_from_spec() -> bool {
        true
    }

    open spec fn from_spec(loc: Location) -> LocationOut {
        LocationOut {
            start_line: loc.start_line,
            start_col: loc.start_col,
            end_line: loc.end_line,
            end_col: loc.end_col,
            file: loc.file,
        }
    }
}

impl From<TextRange> for LocationOut {
    fn from(t: TextRange) -> (r: LocationOut) {
        LocationOut {
            start_line: t.start_line,
            start_col: t.start_col,
            end_line: t.end_line,
            end_col: t.end_col,
            file: None,
        }
    }
}

impl vstd::std_specs::convert::FromSpecImpl<TextRange> for LocationOut {
    open spec fn obeys_from_spec() -> bool {
        true
    }

    open spec fn from_spec(t: TextRange) -> LocationOut {
        LocationOut {
            start_line: t.start_line,
            start_col: t.start_col,
            end_line: t.end_line,
            end_col: t.end_col,
            file: None,
        }
    }
}

/// The place of a definition that was found.
pub open spec fn located(loc: Location) -> LocationOut {
    LocationOut {
        start_line: loc.start_line,
        start_col: loc.start_col,
        end_line: loc.end_line,
        end_col: loc.end_col,
        file: loc.file,
    }
}

/// The place of a reference in the asking file.
pub open spec fn referenced(t: TextRange) -> LocationOut {
    LocationOut {
        start_line: t.start_line,
        start_col: t.start_col,
        end_line: t.end_line,
        end_col: t.end_col,
        file: None,
    }
}

/// Where the name under the cursor is declared, if that was found.
pub fn definition_with_files(found: Option<Location>) -> (r: Option<LocationOut>)
    ensures
        r == (match found {
            Some(loc) => Some(located(loc)),
            None => None,
        }),
{
    match found {
        Some(loc) => Some(LocationOut::from(loc)),
        None => None,
    }
}

/// The references that were found for the word under the cursor; nothing where
/// there is no word.
pub fn references_with_files(word: &Option<String>, found: &Vec<TextRange>) -> (r: Option<Vec<LocationOut>>)
    ensures
        r is Some <==> word is Some,
        r matches Some(v) ==> v@ == Seq::new(found@.len(), |i: int| referenced(found@[i])),
{
    if word.is_none() {
        return None;
    }
    let mut out: Vec<LocationOut> = Vec::new();
    let mut i: usize = 0;
    while i < found.len()
        invariant
            i <= found@.len(),
            out@.len() == i,
            forall|k: int| 0 <= k < i ==> #[trigger] out@[k] == referenced(found@[k]),
        decreases found@.len() - i,
    {
        out.push(LocationOut::from(found[i]));
        i += 1;
    }
    assert(out@ =~= Seq::new(found@.len(), |i: int| referenced(found@[i])));
    Some(out)
}

// ---------- formatting ----------

/// One step of indentation.
pub open spec fn indent_text(tab_size: u32, use_tabs: bool) -> Seq<char> {
    if use_tabs {
        seq!['\t']
    } else {
        Seq::new(tab_size as nat, |i: int| ' ')
    }
}

pub fn indent(tab_size: u32, use_tabs: bool) -> (r: String)
    ensures
        r@ == indent_text(tab_size, use_tabs),
{
    let mut out = String::new();
    if use_tabs {
        out.push('\t');
        assert(out@ =~= seq!['\t']);
        return out;
    }
    let mut i: u32 = 0;
    while i < tab_size
        invariant
            i <= tab_size,
            out@ == Seq::new(i as nat, |i: int| ' '),
        decreases tab_size - i,
    {
        out.push(' ');
        i += 1;
        assert(out@ =~= Seq::new(i as nat, |i: int| ' '));
    }
    out
}

/// Whether a formatter may lay a script out as `r` with the chosen indentation.
pub open spec fn laid_out<F: Fn(&str, &str) -> String>(
    formatter: F,
    source: &str,
    tab_size: u32,
    use_tabs: bool,
    r: String,
) -> bool {
    exists|tab: &str|
        tab@ == indent_text(tab_size, use_tabs) && #[trigger] call_ensures(
            formatter,
            (source, tab),
            r,
        )
}

/// The script as a formatter lays it out with the chosen indentation.
pub fn format<F: Fn(&str, &str) -> String>(
    source: &str,
    tab_size: u32,
    use_tabs: bool,
    formatter: &F,
) -> (r: String)
    requires
        forall|s: &str, t: &str| #[trigger] call_requires(*formatter, (s, t)),
    ensures
        laid_out(*formatter, source, tab_size, use_tabs, r),
{
    let tab = indent(tab_size, use_tabs);
    formatter(source, tab.as_str())
}

/// Whether what a formatter gives depends on the texts that it is given alone.
pub open spec fn goes_by_texts<F: Fn(&str, &str) -> String>(formatter: F) -> bool {
    forall|s: &str, t: &str, u: &str, x: String, y: String|
        t@ == u@ && #[trigger] call_ensures(formatter, (s, t), x) && #[trigger] call_ensures(
            formatter,
            (s, u),
            y,
        ) ==> x@ == y@
}

/// The tab size has no influence where tabs are used: what can come out for one
/// size can come out for every other, and from a formatter that goes by its
/// texts nothing else does.
pub proof fn tab_size_is_for_spaces<F: Fn(&str, &str) -> String>(
    formatter: F,
    source: &str,
    a: u32,
    b: u32,
    x: String,
    y: String,
)
    requires
        laid_out(formatter, source, a, true, x),
    ensures
        laid_out(formatter, source, b, true, x),
        goes_by_texts(formatter) && laid_out(formatter, source, b, true, y) ==> x@ == y@,
{
    let tab = choose|tab: &str|
        tab@ == indent_text(a, true) && #[trigger] call_ensures(formatter, (source, tab), x);
    assert(tab@ == indent_text(b, true));
    if goes_by_texts(formatter) && laid_out(formatter, source, b, true, y) {
        let other = choose|other: &str|
            other@ == indent_text(b, true) && #[trigger] call_ensures(formatter, (source, other), y);
        assert(call_ensures(formatter, (source, other), y));
    }
}

// ---------- symbols of a workspace ----------

#[derive(Debug)]
pub struct WorkspaceSymbol {
    pub name: String,
    pub kind: String,
    pub file: String,
    pub detail: Option<String>,
}

#[verifier::ext_equal]
pub struct WorkspaceSymbolView {
    pub name: Seq<char>,
    pub kind: Seq<char>,
    pub file: Seq<char>,
    pub detail: Option<Seq<char>>,
}

impl View for WorkspaceSymbol {
    type V = WorkspaceSymbolView;

    open spec fn view(&self) -> WorkspaceSymbolView {
        WorkspaceSymbolView {
            name: self.name@,
            kind: self.kind@,
            file: self.file@,
            detail: text_of(self.detail),
        }
    }
}

/// The name and kind under which a declaration is listed: chips, mods,
/// functions, plain lets and events are.
pub open spec fn listed_as(d: TopDecl) -> Option<(Seq<char>, Seq<char>)> {
    match d {
        TopDecl::Chip(c) => Some(
            (
                c.name@,
                if c.inline {
                    "mod"@
                } else {
                    "chip"@
                },
            ),
        ),
        TopDecl::Fn(f) => Some((f.name@, "fn"@)),
        TopDecl::Let(l) => match l.binding {
            LetBinding::Ident { name, .. } => Some((name@, "let"@)),
            _ => None,
        },
        TopDecl::Event(e) => Some((e.name@, "event"@)),
        _ => None,
    }
}

/// The listed declarations of a file among the first `n`.
pub open spec fn file_symbols(file: Seq<char>, decls: Seq<TopDecl>, n: nat) -> Seq<
    WorkspaceSymbolView,
>
    decreases n,
{
    if n == 0 || n > decls.len() {
        Seq::empty()
    } else {
        let before = file_symbols(file, decls, (n - 1) as nat);
        match listed_as(decls[n - 1]) {
            Some((name, kind)) => before.push(
                WorkspaceSymbolView { name, kind, file, detail: None },
            ),
            None => before,
        }
    }
}

/// The listed declarations of the first `n` files.
pub open spec fn symbols_of(files: Seq<(String, Vec<TopDecl>)>, n: nat) -> Seq<WorkspaceSymbolView>
    decreases n,
{
    if n == 0 || n > files.len() {
        Seq::empty()
    } else {
        symbols_of(files, (n - 1) as nat) + file_symbols(
            files[n - 1].0@,
            files[n - 1].1@,
            files[n - 1].1@.len(),
        )
    }
}

fn name_and_kind(d: &TopDecl) -> (r: Option<(String, &'static str)>)
    ensures
        listed_as(*d) == (match r {
            Some(p) => Some((p.0@, p.1@)),
            None => None,
        }),
{
    match d {
        TopDecl::Chip(c) => Some(
            (
                c.name.clone(),
                if c.inline {
                    "mod"
                } else {
                    "chip"
                },
            ),
        ),
        TopDecl::Fn(f) => Some((f.name.clone(), "fn")),
        TopDecl::Let(l) => match &l.binding {
            LetBinding::Ident { name, .. } => Some((name.clone(), "let")),
            _ => None,
        },
        TopDecl::Event(e) => Some((e.name.clone(), "event")),
        _ => None,
    }
}

/// The listed declarations of parsed files, file by file.
pub fn workspace_symbols(files: &Vec<(String, Vec<TopDecl>)>) -> (r: Vec<WorkspaceSymbol>)
    ensures
        views(r@) == symbols_of(files@, files@.len()),
{
    let mut out: Vec<WorkspaceSymbol> = Vec::new();
    let mut i: usize = 0;
    assert(views(out@) =~= Seq::empty());
    while i < files.len()
        invariant
            i <= files@.len(),
            views(out@) == symbols_of(files@, i as nat),
        decreases files@.len() - i,
    {
        let (file, decls) = (&files[i].0, &files[i].1);
        let ghost head = views(out@);
        let mut j: usize = 0;
        assert(head + Seq::<WorkspaceSymbolView>::empty() =~= head);
        while j < decls.len()
            invariant
                j <= decls@.len(),
                views(out@) == head + file_symbols(file@, decls@, j as nat),
            decreases decls@.len() - j,
        {
            if let Some((name, kind)) = name_and_kind(&decls[j]) {
                let ghost before = out@;
                let item = WorkspaceSymbol {
                    name,
                    kind: owned(kind),
                    file: file.clone(),
                    detail: None,
                };
                out.push(item);
                assert(views(out@) =~= views(before).push(item@));
                assert(views(out@) =~= head + file_symbols(file@, decls@, (j + 1) as nat));
            }
            j += 1;
        }
        i += 1;
    }
    out
}

// ---------- inlay hints ----------

#[derive(Clone, Copy, Debug, PartialEq, Eq, Structural)]
pub enum InlayHintKind {
    Type,
    Parameter,
}

#[derive(Debug)]
pub struct InlayHint {
    pub line: usize,
    pub col: usize,
    pub label: String,
    pub kind: InlayHintKind,
}

#[derive(Debug)]
pub struct InlayHintOut {
    pub line: usize,
    pub col: usize,
    pub label: String,
    pub kind: String,
}

/// Whether a hint says what another one says, with its kind in words.
pub open spec fn same_hint(h: InlayHint, o: InlayHintOut) -> bool {
    &&& o.line == h.line
    &&& o.col == h.col
    &&& o.label@ == h.label@
    &&& o.kind@ == (match h.kind {
        InlayHintKind::Type => "type"@,
        InlayHintKind::Parameter => "parameter"@,
    })
}

pub fn inlay_hints(hints: &Vec<InlayHint>) -> (r: Vec<InlayHintOut>)
    ensures
        r@.len() == hints@.len(),
        forall|i: int| 0 <= i < r@.len() ==> same_hint(hints@[i], #[trigger] r@[i]),
{
    let mut out: Vec<InlayHintOut> = Vec::new();
    let mut i: usize = 0;
    while i < hints.len()
        invariant
            i <= hints@.len(),
            out@.len() == i,
            forall|k: int| 0 <= k < i ==> same_hint(hints@[k], #[trigger] out@[k]),
        decreases hints@.len() - i,
    {
        let h = &hints[i];
        out.push(
            InlayHintOut {
                line: h.line,
                col: h.col,
                label: h.label.clone(),
                kind: owned(
                    match h.kind {
                        InlayHintKind::Type => "type",
                        InlayHintKind::Parameter => "parameter",
                    },
                ),
            },
        );
        i += 1;
    }
    out
}

} // verus!
