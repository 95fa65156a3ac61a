//! What the language server tells an editor: completions, diagnostics, where
//! names lead and how they are renamed.

use crate::analysis::hover::{find_param_named, param_from};
use crate::analysis::offer::{
    array_like, asset_fragment, dollar_in, find_dollar, is_array_like, is_asset_fragment,
    is_prefab_fragment, is_variable, prefab_fragment, record_fields, resolve_record_fields,
    type_of_symbol, variable, CursorSite, Tables,
};
use crate::analysis::symbols::{find_symbol, symbol_named, SymbolDef};
use crate::analysis::text::{clamp, find_char, first_at, has_at, has_char, slice_of, stands_at};
use crate::analysis::web::{
    argument_of, copy_of, event_detail, event_detail_of, from_zero, TextRange, ANNOTATIONS,
    TYPE_NAMES,
};
use crate::ast_view::text_of;
use crate::catalog::{CallSpec, Catalog, EventSpec, ParamSpec};
use crate::diagnostic::{views, Pos, SourceRange};
use crate::lexer::KEYWORDS;
use crate::text::{cat2, cat3, chars_of, join, joined, owned, str_eq, string_of, texts};
use crate::types::{type_str, type_text};
use vstd::prelude::*;
use vstd::string::*;

verus! {

// ---------- positions ----------

/// A stretch of a text as the protocol counts: from zero, in 32 bits.
#[derive(Clone, Copy, Debug, PartialEq, Eq, Structural)]
pub struct LspRange {
    pub start_line: u32,
    pub start_char: u32,
    pub end_line: u32,
    pub end_char: u32,
}

pub open spec fn lsp_range(start: Pos, end: Pos) -> LspRange {
    LspRange {
        start_line: from_zero(start.line) as u32,
        start_char: from_zero(start.col) as u32,
        end_line: from_zero(end.line) as u32,
        end_char: from_zero(end.col) as u32,
    }
}

pub fn pos_to_lsp(p: Pos) -> (r: (u32, u32))
    ensures
        r.0 == from_zero(p.line) as u32,
        r.1 == from_zero(p.col) as u32,
{
    (p.line.saturating_sub(1) as u32, p.col.saturating_sub(1) as u32)
}

pub fn range_to_lsp(range: &SourceRange) -> (r: LspRange)
    ensures
        r == lsp_range(range.start, range.end),
{
    let start = pos_to_lsp(range.start);
    let end = pos_to_lsp(range.end);
    LspRange { start_line: start.0, start_char: start.1, end_line: end.0, end_char: end.1 }
}

pub fn text_range_to_lsp(t: &TextRange) -> (r: LspRange)
    ensures
        r == (LspRange {
            start_line: t.start_line as u32,
            start_char: t.start_col as u32,
            end_line: t.end_line as u32,
            end_char: t.end_col as u32,
        }),
{
    LspRange {
        start_line: t.start_line as u32,
        start_char: t.start_col as u32,
        end_line: t.end_line as u32,
        end_char: t.end_col as u32,
    }
}

// ---------- completion items ----------

#[derive(Clone, Copy, Debug, PartialEq, Eq, Structural)]
pub enum ItemKind {
    Text,
    Method,
    Function,
    Field,
    Variable,
    Class,
    Module,
    EnumMember,
    Keyword,
    File,
    Constant,
    Event,
}

/// A text that replaces a stretch of one line.
#[derive(Debug)]
pub struct LineEdit {
    pub range: LspRange,
    pub new_text: String,
}

#[derive(Debug)]
pub struct CompletionItem {
    pub label: String,
    pub kind: ItemKind,
    pub detail: Option<String>,
    pub documentation: Option<String>,
    pub insert_text: Option<String>,
    pub text_edit: Option<LineEdit>,
}

#[verifier::ext_equal]
pub struct ItemView {
    pub label: Seq<char>,
    pub kind: ItemKind,
    pub detail: Option<Seq<char>>,
    pub documentation: Option<Seq<char>>,
    pub insert: Option<Seq<char>>,
    pub edit: Option<(LspRange, Seq<char>)>,
}

impl View for CompletionItem {
    type V = ItemView;

    open spec fn view(&self) -> ItemView {
        ItemView {
            label: self.label@,
            kind: self.kind,
            detail: text_of(self.detail),
            documentation: text_of(self.documentation),
            insert: text_of(self.insert_text),
            edit: match self.text_edit {
                Some(e) => Some((e.range, e.new_text@)),
                None => None,
            },
        }
    }
}

/// An item with a detail and an inserted text, where it has them.
pub open spec fn item(
    label: Seq<char>,
    kind: ItemKind,
    detail: Option<Seq<char>>,
    insert: Option<Seq<char>>,
) -> ItemView {
    ItemView { label, kind, detail, documentation: None, insert, edit: None }
}

fn make_item(
    label: String,
    kind: ItemKind,
    detail: Option<String>,
    insert_text: Option<String>,
) -> (r: CompletionItem)
    ensures
        r@ == item(label@, kind, text_of(detail), text_of(insert_text)),
{
    CompletionItem { label, kind, detail, documentation: None, insert_text, text_edit: None }
}

/// A field.
pub open spec fn field_of_record(name: Seq<char>) -> ItemView {
    item(name, ItemKind::Field, Some("field"@), Some(name))
}

fn field_item(name: &str) -> (r: CompletionItem)
    ensures
        r@ == field_of_record(name@),
{
    make_item(owned(name), ItemKind::Field, Some(owned("field")), Some(owned(name)))
}

fn push_item(items: &mut Vec<CompletionItem>, x: CompletionItem)
    ensures
        views(final(items)@) == views(old(items)@).push(x@),
{
    let ghost before = items@;
    items.push(x);
    assert(views(items@) =~= views(before).push(x@));
}

// ---------- members ----------

/// The components and methods of values of a type.
pub open spec fn type_members(tables: Tables, ty: Seq<char>) -> Seq<ItemView> {
    let parts = tables.swizzle(ty);
    let methods = tables.methods(ty);
    Seq::new(parts.len(), |i: int| field_of_record(parts[i])) + Seq::new(
        methods.len(),
        |i: int| item(methods[i].0, ItemKind::Method, Some(methods[i].1), None),
    )
}

fn push_members_of_type(tables: &Tables, ty: &str, items: &mut Vec<CompletionItem>)
    ensures
        views(final(items)@) == views(old(items)@) + type_members(*tables, ty@),
{
    let ghost head = views(items@);
    let f = match tables.find_facts(ty) {
        Some(f) => f,
        None => {
            assert(head + type_members(*tables, ty@) =~= head);
            return;
        },
    };
    let ghost parts = tables.swizzle(ty@);
    let ghost methods = tables.methods(ty@);
    let ghost first = Seq::new(parts.len(), |i: int| field_of_record(parts[i]));
    let ghost second = Seq::new(
        methods.len(),
        |i: int| item(methods[i].0, ItemKind::Method, Some(methods[i].1), None),
    );
    let mut i: usize = 0;
    assert(head + first.take(0) =~= head);
    while i < f.swizzle.len()
        invariant
            i <= f.swizzle@.len(),
            parts == texts(f.swizzle@),
            first == Seq::new(parts.len(), |i: int| field_of_record(parts[i])),
            views(items@) == head + first.take(i as int),
        decreases f.swizzle@.len() - i,
    {
        push_item(items, field_item(f.swizzle[i].as_str()));
        assert(first.take(i + 1) =~= first.take(i as int).push(first[i as int]));
        assert(views(items@) =~= head + first.take(i + 1));
        i += 1;
    }
    assert(first.take(i as int) =~= first);
    let mut j: usize = 0;
    assert(head + first + second.take(0) =~= head + first);
    while j < f.methods.len()
        invariant
            j <= f.methods@.len(),
            methods == crate::analysis::offer::pair_texts(f.methods@),
            second == Seq::new(
                methods.len(),
                |i: int| item(methods[i].0, ItemKind::Method, Some(methods[i].1), None),
            ),
            views(items@) == head + first + second.take(j as int),
        decreases f.methods@.len() - j,
    {
        push_item(
            items,
            make_item(
                f.methods[j].0.clone(),
                ItemKind::Method,
                Some(f.methods[j].1.clone()),
                None,
            ),
        );
        assert(second.take(j + 1) =~= second.take(j as int).push(second[j as int]));
        assert(views(items@) =~= head + first + second.take(j + 1));
        j += 1;
    }
    assert(second.take(j as int) =~= second);
    assert(views(items@) =~= head + type_members(*tables, ty@));
}

/// The methods of arrays, with their documentation.
pub open spec fn array_items(catalog: Catalog) -> Seq<ItemView> {
    let ms = catalog.array_methods@;
    Seq::new(
        ms.len(),
        |i: int|
            ItemView {
                label: ms[i].name@,
                kind: ItemKind::Method,
                detail: Some(ms[i].name@ + ms[i].signature@),
                documentation: Some(ms[i].doc@),
                insert: None,
                edit: None,
            },
    )
}

fn array_method_items(catalog: &Catalog) -> (r: Vec<CompletionItem>)
    ensures
        views(r@) == array_items(*catalog),
{
    let ghost all = array_items(*catalog);
    let mut items: Vec<CompletionItem> = Vec::new();
    let mut i: usize = 0;
    assert(views(items@) =~= all.take(0));
    while i < catalog.array_methods.len()
        invariant
            i <= catalog.array_methods@.len(),
            all == array_items(*catalog),
            views(items@) == all.take(i as int),
        decreases catalog.array_methods@.len() - i,
    {
        let m = &catalog.array_methods[i];
        push_item(
            &mut items,
            CompletionItem {
                label: m.name.clone(),
                kind: ItemKind::Method,
                detail: Some(cat2(m.name.as_str(), m.signature.as_str())),
                documentation: Some(m.doc.clone()),
                insert_text: None,
                text_edit: None,
            },
        );
        assert(all.take(i + 1) =~= all.take(i as int).push(all[i as int]));
        i += 1;
    }
    assert(all.take(i as int) =~= all);
    items
}

/// How a member of a namespace is shown, by the kind of its declaration.
pub open spec fn member_kind(kind: Seq<char>) -> ItemKind {
    if kind == "mod"@ || kind == "chip"@ || kind == "fn"@ || kind == "callback"@ {
        ItemKind::Function
    } else if kind == "let"@ {
        ItemKind::Constant
    } else if kind == "type"@ {
        ItemKind::Class
    } else if kind == "event"@ {
        ItemKind::Event
    } else {
        ItemKind::Field
    }
}

/// The completion-item kind for a namespace member of the given symbol kind.
pub fn namespace_member_kind(kind: &str) -> (r: ItemKind)
    ensures
        r == member_kind(kind@),
{
    if str_eq(kind, "mod") || str_eq(kind, "chip") || str_eq(kind, "fn") || str_eq(
        kind,
        "callback",
    ) {
        ItemKind::Function
    } else if str_eq(kind, "let") {
        ItemKind::Constant
    } else if str_eq(kind, "type") {
        ItemKind::Class
    } else if str_eq(kind, "event") {
        ItemKind::Event
    } else {
        ItemKind::Field
    }
}

/// The members of a namespace among the first `n` symbols.
pub open spec fn namespace_items(symbols: Seq<SymbolDef>, prefix: Seq<char>, n: nat) -> Seq<ItemView>
    decreases n,
{
    if n == 0 || n > symbols.len() {
        Seq::empty()
    } else {
        let before = namespace_items(symbols, prefix, (n - 1) as nat);
        let name = symbols[n - 1].name@;
        let member = name.skip(prefix.len() as int);
        if has_at(name, 0, prefix) && !member.contains('.') {
            before.push(item(member, member_kind(symbols[n - 1].kind@), None, Some(member)))
        } else {
            before
        }
    }
}

fn namespace_member_items(symbols: &Vec<SymbolDef>, prefix: &str) -> (r: Vec<CompletionItem>)
    ensures
        views(r@) == namespace_items(symbols@, prefix@, symbols@.len()),
{
    let skip: usize = prefix.unicode_len();
    let mut items: Vec<CompletionItem> = Vec::new();
    let mut i: usize = 0;
    assert(views(items@) =~= Seq::empty());
    while i < symbols.len()
        invariant
            i <= symbols@.len(),
            skip == prefix@.len(),
            views(items@) == namespace_items(symbols@, prefix@, i as nat),
        decreases symbols@.len() - i,
    {
        let name = chars_of(symbols[i].name.as_str());
        if stands_at(&name, 0, prefix) {
            let member = slice_of(&name, skip, name.len());
            assert(member@ =~= name@.skip(skip as int));
            if !has_char(&member, '.') {
                let text = string_of(&member, 0, member.len());
                assert(text@ =~= member@);
                let kind = namespace_member_kind(symbols[i].kind.as_str());
                push_item(&mut items, make_item(text.clone(), kind, None, Some(text)));
            }
        }
        i += 1;
    }
    items
}

/// The members of a receiver. An unknown receiver has none.
pub open spec fn member_items(
    receiver: Seq<char>,
    symbols: Seq<SymbolDef>,
    catalog: Catalog,
    tables: Tables,
) -> Seq<ItemView> {
    match symbol_named(symbols, receiver) {
        None => Seq::empty(),
        Some(sym) => if array_like(sym) {
            array_items(catalog)
        } else if sym.kind@ == "namespace"@ {
            namespace_items(symbols, receiver + "."@, symbols.len())
        } else if variable(sym.kind@) {
            let own = seq![
                item(
                    "Value"@,
                    ItemKind::Field,
                    Some("Read current value (pure)"@),
                    Some("Value"@),
                ),
                item(
                    "prev"@,
                    ItemKind::Field,
                    Some("Read previous tick's value"@),
                    Some("prev"@),
                ),
            ];
            match type_of_symbol(Some(sym)) {
                Some(ty) => own + type_members(tables, ty),
                None => own,
            }
        } else {
            match type_of_symbol(Some(sym)) {
                Some(ty) => match record_fields(tables, ty, symbols) {
                    Some(names) => Seq::new(names.len(), |i: int| field_of_record(names[i])),
                    None => type_members(tables, ty),
                },
                None => Seq::empty(),
            }
        },
    }
}

/// Completions for `receiver.` — array methods, var fields, record fields, or
/// the receiver methods valid for a typed value. Returns only the members of the
/// receiver (possibly empty); it never falls through to the global
/// keyword/function list, so e.g. a `string` receiver shows only string methods.
pub fn member_completions(
    var_name: &str,
    symbols: &Vec<SymbolDef>,
    catalog: &Catalog,
    tables: &Tables,
) -> (r: Vec<CompletionItem>)
    ensures
        views(r@) == member_items(var_name@, symbols@, *catalog, *tables),
{
    let mut items: Vec<CompletionItem> = Vec::new();
    assert(views(items@) =~= Seq::empty());
    let sym = match find_symbol(symbols, var_name) {
        Some(s) => s,
        None => return items,
    };
    if is_array_like(sym) {
        return array_method_items(catalog);
    }
    if str_eq(sym.kind.as_str(), "namespace") {
        let prefix = cat2(var_name, ".");
        return namespace_member_items(symbols, prefix.as_str());
    }
    if is_variable(sym.kind.as_str()) {
        push_item(
            &mut items,
            make_item(
                owned("Value"),
                ItemKind::Field,
                Some(owned("Read current value (pure)")),
                Some(owned("Value")),
            ),
        );
        push_item(
            &mut items,
            make_item(
                owned("prev"),
                ItemKind::Field,
                Some(owned("Read previous tick's value")),
                Some(owned("prev")),
            ),
        );
        assert(views(items@) =~= seq![
            item(
                "Value"@,
                ItemKind::Field,
                Some("Read current value (pure)"@),
                Some("Value"@),
            ),
            item(
                "prev"@,
                ItemKind::Field,
                Some("Read previous tick's value"@),
                Some("prev"@),
            ),
        ]);
        if let Some(ty) = &sym.ty {
            push_members_of_type(tables, ty.as_str(), &mut items);
        }
        return items;
    }
    let ty = match &sym.ty {
        Some(t) => t,
        None => return items,
    };
    if let Some(names) = resolve_record_fields(tables, ty.as_str(), symbols) {
        let ghost all = Seq::new(
            texts(names@).len(),
            |i: int| field_of_record(texts(names@)[i]),
        );
        let mut i: usize = 0;
        assert(all.take(0) =~= Seq::empty());
        while i < names.len()
            invariant
                i <= names@.len(),
                all == Seq::new(
                    texts(names@).len(),
                    |i: int| field_of_record(texts(names@)[i]),
                ),
                views(items@) == all.take(i as int),
            decreases names@.len() - i,
        {
            push_item(&mut items, field_item(names[i].as_str()));
            assert(all.take(i + 1) =~= all.take(i as int).push(all[i as int]));
            i += 1;
        }
        assert(all.take(i as int) =~= all);
        return items;
    }
    push_members_of_type(tables, ty.as_str(), &mut items);
    assert(Seq::<ItemView>::empty() + type_members(*tables, ty@) =~= type_members(*tables, ty@));
    items
}

// ---------- `$` references ----------

/// The prefab paths among the first `n` that start with a fragment. Each
/// replaces the fragment.
pub open spec fn prefab_items(
    frag: Seq<char>,
    range: LspRange,
    paths: Seq<String>,
    n: nat,
) -> Seq<ItemView>
    decreases n,
{
    if n == 0 || n > paths.len() {
        Seq::empty()
    } else {
        let before = prefab_items(frag, range, paths, (n - 1) as nat);
        let path = paths[n - 1]@;
        if has_at(path, 0, frag) {
            before.push(
                ItemView {
                    label: path,
                    kind: ItemKind::File,
                    detail: None,
                    documentation: None,
                    insert: None,
                    edit: Some((range, path)),
                },
            )
        } else {
            before
        }
    }
}

/// From behind the `$` to the cursor.
pub open spec fn fragment_range(line: usize, dollar: usize, col: usize) -> LspRange {
    LspRange {
        start_line: line as u32,
        start_char: clamp((dollar + 1) as nat) as u32,
        end_line: line as u32,
        end_char: col as u32,
    }
}

pub open spec fn prefab_offers(
    dollar: Option<(usize, Seq<char>)>,
    line: usize,
    col: usize,
    paths: Seq<String>,
) -> Seq<ItemView> {
    match dollar {
        Some((at, frag)) => if prefab_fragment(frag) {
            prefab_items(frag, fragment_range(line, at, col), paths, paths.len())
        } else {
            Seq::empty()
        },
        None => Seq::empty(),
    }
}

fn offer_prefabs(
    frag: &Vec<char>,
    at: usize,
    line: usize,
    col: usize,
    paths: &Vec<String>,
) -> (r: Vec<CompletionItem>)
    ensures
        views(r@) == if prefab_fragment(frag@) {
            prefab_items(frag@, fragment_range(line, at, col), paths@, paths@.len())
        } else {
            Seq::empty()
        },
{
    let mut items: Vec<CompletionItem> = Vec::new();
    assert(views(items@) =~= Seq::empty());
    if !is_prefab_fragment(frag) {
        return items;
    }
    let range = LspRange {
        start_line: line as u32,
        start_char: at.saturating_add(1) as u32,
        end_line: line as u32,
        end_char: col as u32,
    };
    let start = string_of(frag, 0, frag.len());
    assert(start@ =~= frag@);
    let mut i: usize = 0;
    while i < paths.len()
        invariant
            i <= paths@.len(),
            start@ == frag@,
            range == fragment_range(line, at, col),
            views(items@) == prefab_items(frag@, range, paths@, i as nat),
        decreases paths@.len() - i,
    {
        let path = chars_of(paths[i].as_str());
        if stands_at(&path, 0, start.as_str()) {
            push_item(
                &mut items,
                CompletionItem {
                    label: paths[i].clone(),
                    kind: ItemKind::File,
                    detail: None,
                    documentation: None,
                    insert_text: None,
                    text_edit: Some(LineEdit { range, new_text: paths[i].clone() }),
                },
            );
        }
        i += 1;
    }
    items
}

/// Names of assets after the slash, types of assets before it.
pub open spec fn asset_items(frag: Seq<char>, tables: Tables) -> Seq<ItemView> {
    let k = first_at(frag, '/');
    if k < frag.len() {
        let names = tables.asset_names(frag.take(k));
        Seq::new(names.len(), |i: int| item(names[i], ItemKind::Constant, None, None))
    } else {
        Seq::new(
            tables.assets@.len(),
            |i: int|
                item(
                    tables.assets@[i].0@,
                    ItemKind::Class,
                    None,
                    Some(tables.assets@[i].0@ + "/"@),
                ),
        )
    }
}

pub open spec fn asset_offers(dollar: Option<(usize, Seq<char>)>, tables: Tables) -> Seq<ItemView> {
    match dollar {
        Some((_, frag)) => if asset_fragment(frag) {
            asset_items(frag, tables)
        } else {
            Seq::empty()
        },
        None => Seq::empty(),
    }
}

fn offer_assets(frag: &Vec<char>, tables: &Tables) -> (r: Vec<CompletionItem>)
    ensures
        views(r@) == if asset_fragment(frag@) {
            asset_items(frag@, *tables)
        } else {
            Seq::empty()
        },
{
    let mut items: Vec<CompletionItem> = Vec::new();
    assert(views(items@) =~= Seq::empty());
    if !is_asset_fragment(frag) {
        return items;
    }
    assert(frag@.skip(0) =~= frag@);
    let k: usize = find_char(frag, 0, '/');
    let ghost all = asset_items(frag@, *tables);
    let mut i: usize = 0;
    assert(all.take(0) =~= Seq::empty());
    if k < frag.len() {
        let ty = string_of(frag, 0, k);
        assert(ty@ =~= frag@.take(k as int));
        if let Some(names) = tables.find_assets(ty.as_str()) {
            while i < names.len()
                invariant
                    i <= names@.len(),
                    all == Seq::new(
                        texts(names@).len(),
                        |i: int| item(texts(names@)[i], ItemKind::Constant, None, None),
                    ),
                    views(items@) == all.take(i as int),
                decreases names@.len() - i,
            {
                push_item(&mut items, make_item(names[i].clone(), ItemKind::Constant, None, None));
                assert(all.take(i + 1) =~= all.take(i as int).push(all[i as int]));
                i += 1;
            }
        }
    } else {
        while i < tables.assets.len()
            invariant
                i <= tables.assets@.len(),
                k >= frag@.len(),
                k == first_at(frag@, '/'),
                all == asset_items(frag@, *tables),
                views(items@) == all.take(i as int),
            decreases tables.assets@.len() - i,
        {
            let ty = &tables.assets[i].0;
            push_item(
                &mut items,
                make_item(ty.clone(), ItemKind::Class, None, Some(cat2(ty.as_str(), "/"))),
            );
            assert(all.take(i + 1) =~= all.take(i as int).push(all[i as int]));
            i += 1;
        }
    }
    assert(all.take(i as int) =~= all);
    items
}

// ---------- arguments ----------

/// The values of an enumerated argument. Quotes come with a value where none
/// is written yet.
pub open spec fn value_items(values: Seq<Seq<char>>, param: Seq<char>, written: Seq<char>) -> Seq<
    ItemView,
> {
    Seq::new(
        values.len(),
        |i: int|
            item(
                values[i],
                ItemKind::EnumMember,
                Some(param + " value"@),
                Some(
                    if written.contains('"') {
                        values[i]
                    } else {
                        "\""@ + values[i] + "\""@
                    },
                ),
            ),
    )
}

pub open spec fn enum_items(
    spec: CallSpec,
    argument: Option<(Seq<char>, Seq<char>)>,
    tables: Tables,
) -> Seq<ItemView> {
    match argument {
        Some((param, written)) => match param_from(spec.params@, param, 0) {
            Some(p) => value_items(tables.values(spec.gate_class@, p.port@), param, written),
            None => Seq::empty(),
        },
        None => Seq::empty(),
    }
}

fn offer_values(spec: &CallSpec, argument: &Option<(String, String)>, tables: &Tables) -> (r: Vec<
    CompletionItem,
>)
    ensures
        views(r@) == enum_items(*spec, argument_of(*argument), *tables),
{
    let mut items: Vec<CompletionItem> = Vec::new();
    assert(views(items@) =~= Seq::empty());
    let (param, written) = match argument {
        Some(p) => (&p.0, &p.1),
        None => return items,
    };
    let p = match find_param_named(&spec.params, param.as_str()) {
        Some(p) => p,
        None => return items,
    };
    let values = match tables.find_values(spec.gate_class.as_str(), p.port.as_str()) {
        Some(v) => v,
        None => {
            assert(views(items@) =~= value_items(Seq::empty(), param@, written@));
            return items;
        },
    };
    let chars = chars_of(written.as_str());
    let quoted: bool = has_char(&chars, '"');
    let ghost all = value_items(texts(values@), param@, written@);
    let mut i: usize = 0;
    assert(all.take(0) =~= Seq::empty());
    while i < values.len()
        invariant
            i <= values@.len(),
            quoted == written@.contains('"'),
            all == value_items(texts(values@), param@, written@),
            views(items@) == all.take(i as int),
        decreases values@.len() - i,
    {
        let v = &values[i];
        let insert = if quoted {
            v.clone()
        } else {
            cat3("\"", v.as_str(), "\"")
        };
        push_item(
            &mut items,
            make_item(
                v.clone(),
                ItemKind::EnumMember,
                Some(cat2(param.as_str(), " value")),
                Some(insert),
            ),
        );
        assert(all.take(i + 1) =~= all.take(i as int).push(all[i as int]));
        i += 1;
    }
    assert(all.take(i as int) =~= all);
    items
}

/// A parameter as it is offered: an optional one by name.
pub open spec fn param_item(p: ParamSpec) -> ItemView {
    if p.optional {
        item(
            p.name@ + " = "@,
            ItemKind::Field,
            Some(type_text(p.ty@) + " (optional)"@),
            Some(p.name@ + " = "@),
        )
    } else {
        item(p.name@, ItemKind::Field, Some(type_text(p.ty@) + " (required)"@), None)
    }
}

/// The parameters that are offered among the first `n`: all but a receiver.
pub open spec fn param_items(spec: CallSpec, n: nat) -> Seq<ItemView>
    decreases n,
{
    if n == 0 || n > spec.params@.len() {
        Seq::empty()
    } else {
        let before = param_items(spec, (n - 1) as nat);
        if n == 1 && spec.receiver is Some {
            before
        } else {
            before.push(param_item(spec.params@[n - 1]))
        }
    }
}

fn offer_params(spec: &CallSpec) -> (r: Vec<CompletionItem>)
    ensures
        views(r@) == param_items(*spec, spec.params@.len()),
{
    let mut items: Vec<CompletionItem> = Vec::new();
    let mut i: usize = 0;
    assert(views(items@) =~= Seq::empty());
    while i < spec.params.len()
        invariant
            i <= spec.params@.len(),
            views(items@) == param_items(*spec, i as nat),
        decreases spec.params@.len() - i,
    {
        let p = &spec.params[i];
        if !(i == 0 && spec.receiver.is_some()) {
            let ty = type_str(&p.ty);
            let x = if p.optional {
                make_item(
                    cat2(p.name.as_str(), " = "),
                    ItemKind::Field,
                    Some(cat2(ty.as_str(), " (optional)")),
                    Some(cat2(p.name.as_str(), " = ")),
                )
            } else {
                make_item(
                    p.name.clone(),
                    ItemKind::Field,
                    Some(cat2(ty.as_str(), " (required)")),
                    None,
                )
            };
            assert(x@ == param_item(*p));
            push_item(&mut items, x);
        }
        i += 1;
    }
    items
}

/// Whether a declared name can be called.
pub open spec fn can_be_called(kind: Seq<char>) -> bool {
    kind == "mod"@ || kind == "chip"@ || kind == "fn"@ || kind == "callback"@
}

fn is_called(kind: &str) -> (r: bool)
    ensures
        r == can_be_called(kind@),
{
    str_eq(kind, "mod") || str_eq(kind, "chip") || str_eq(kind, "fn") || str_eq(kind, "callback")
}

/// The first symbol with a name that can be called, from the `i`-th on.
pub open spec fn called_from(symbols: Seq<SymbolDef>, name: Seq<char>, i: int) -> Option<SymbolDef>
    decreases symbols.len() - i,
{
    if i < 0 || i >= symbols.len() {
        None
    } else if symbols[i].name@ == name && can_be_called(symbols[i].kind@) {
        Some(symbols[i])
    } else {
        called_from(symbols, name, i + 1)
    }
}

/// The parameters of a declared callable.
pub open spec fn user_items(name: Seq<char>, symbols: Seq<SymbolDef>, tables: Tables) -> Seq<
    ItemView,
> {
    match type_of_symbol(called_from(symbols, name, 0)) {
        Some(sig) => {
            let names = tables.params(sig);
            Seq::new(
                names.len(),
                |i: int| item(names[i], ItemKind::Field, None, Some(names[i])),
            )
        },
        None => Seq::empty(),
    }
}

fn offer_user_params(name: &str, symbols: &Vec<SymbolDef>, tables: &Tables) -> (r: Vec<
    CompletionItem,
>)
    ensures
        views(r@) == user_items(name@, symbols@, *tables),
{
    let mut items: Vec<CompletionItem> = Vec::new();
    let ghost all = user_items(name@, symbols@, *tables);
    assert(views(items@) =~= Seq::empty());
    let mut k: usize = 0;
    while k < symbols.len() && !(str_eq(symbols[k].name.as_str(), name) && is_called(
        symbols[k].kind.as_str(),
    ))
        invariant
            k <= symbols@.len(),
            called_from(symbols@, name@, 0) == called_from(symbols@, name@, k as int),
        decreases symbols@.len() - k,
    {
        k += 1;
    }
    if k >= symbols.len() {
        return items;
    }
    let sig = match &symbols[k].ty {
        Some(t) => t,
        None => return items,
    };
    assert(type_of_symbol(called_from(symbols@, name@, 0)) == Some(sig@));
    let f = match tables.find_facts(sig.as_str()) {
        Some(f) => f,
        None => {
            assert(views(items@) =~= all);
            return items;
        },
    };
    let names = match &f.params {
        Some(v) => v,
        None => {
            assert(views(items@) =~= all);
            return items;
        },
    };
    let mut i: usize = 0;
    assert(all.take(0) =~= Seq::empty());
    while i < names.len()
        invariant
            i <= names@.len(),
            all == Seq::new(
                texts(names@).len(),
                |i: int| item(texts(names@)[i], ItemKind::Field, None, Some(texts(names@)[i])),
            ),
            views(items@) == all.take(i as int),
        decreases names@.len() - i,
    {
        push_item(
            &mut items,
            make_item(names[i].clone(), ItemKind::Field, None, Some(names[i].clone())),
        );
        assert(all.take(i + 1) =~= all.take(i as int).push(all[i as int]));
        i += 1;
    }
    assert(all.take(i as int) =~= all);
    items
}

/// What is offered inside the brackets of a call.
pub open spec fn call_items(
    site: CursorSite,
    symbols: Seq<SymbolDef>,
    catalog: Catalog,
    tables: Tables,
) -> Seq<ItemView> {
    match site.call {
        None => Seq::empty(),
        Some(name) => match catalog.call(name@) {
            Some(spec) => {
                let values = enum_items(spec, argument_of(site.argument), tables);
                if values.len() > 0 {
                    values
                } else {
                    param_items(spec, spec.params@.len())
                }
            },
            None => user_items(name@, symbols, tables),
        },
    }
}

fn offer_call(
    site: &CursorSite,
    symbols: &Vec<SymbolDef>,
    catalog: &Catalog,
    tables: &Tables,
) -> (r: Vec<CompletionItem>)
    ensures
        views(r@) == call_items(*site, symbols@, *catalog, *tables),
{
    let name = match &site.call {
        Some(n) => n,
        None => {
            let items: Vec<CompletionItem> = Vec::new();
            assert(views(items@) =~= Seq::empty());
            return items;
        },
    };
    match catalog.find_call(name.as_str()) {
        Some(spec) => {
            let values = offer_values(spec, &site.argument, tables);
            assert(views(values@).len() == values@.len());
            if values.len() > 0 {
                return values;
            }
            offer_params(spec)
        },
        None => offer_user_params(name.as_str(), symbols, tables),
    }
}

// ---------- everything ----------

/// How a symbol is shown, by the kind of its declaration.
pub open spec fn symbol_kind(kind: Seq<char>) -> ItemKind {
    if kind == "var"@ || kind == "static var"@ || kind == "buffer"@ || kind == "array"@ {
        ItemKind::Variable
    } else if kind == "fn"@ || kind == "mod"@ || kind == "chip"@ || kind == "callback"@ {
        ItemKind::Function
    } else if kind == "in"@ {
        ItemKind::Field
    } else if kind == "let"@ {
        ItemKind::Constant
    } else if kind == "event"@ {
        ItemKind::Event
    } else if kind == "namespace"@ {
        ItemKind::Module
    } else if kind == "type"@ {
        ItemKind::Class
    } else {
        ItemKind::Text
    }
}

fn kind_of_symbol(kind: &str) -> (r: ItemKind)
    ensures
        r == symbol_kind(kind@),
{
    if str_eq(kind, "var") || str_eq(kind, "static var") || str_eq(kind, "buffer") || str_eq(
        kind,
        "array",
    ) {
        ItemKind::Variable
    } else if str_eq(kind, "fn") || str_eq(kind, "mod") || str_eq(kind, "chip") || str_eq(
        kind,
        "callback",
    ) {
        ItemKind::Function
    } else if str_eq(kind, "in") {
        ItemKind::Field
    } else if str_eq(kind, "let") {
        ItemKind::Constant
    } else if str_eq(kind, "event") {
        ItemKind::Event
    } else if str_eq(kind, "namespace") {
        ItemKind::Module
    } else if str_eq(kind, "type") {
        ItemKind::Class
    } else {
        ItemKind::Text
    }
}

/// Whether a list has an item with a label.
pub open spec fn has_label(items: Seq<ItemView>, label: Seq<char>) -> bool {
    exists|i: int| 0 <= i < items.len() && (#[trigger] items[i]).label == label
}

fn label_taken(items: &Vec<CompletionItem>, label: &str) -> (r: bool)
    ensures
        r == has_label(views(items@), label@),
{
    let mut i: usize = 0;
    while i < items.len()
        invariant
            i <= items@.len(),
            forall|k: int| 0 <= k < i ==> (#[trigger] views(items@)[k]).label != label@,
        decreases items@.len() - i,
    {
        assert(views(items@)[i as int] == items@[i as int]@);
        if str_eq(items[i].label.as_str(), label) {
            return true;
        }
        i += 1;
    }
    false
}

/// The symbols among the first `n` that a bare name can mean. A callback that
/// is declared several times is offered once.
pub open spec fn symbol_items(symbols: Seq<SymbolDef>, n: nat) -> Seq<ItemView>
    decreases n,
{
    if n == 0 || n > symbols.len() {
        Seq::empty()
    } else {
        let before = symbol_items(symbols, (n - 1) as nat);
        let sym = symbols[n - 1];
        if sym.name@.contains('.') || (sym.kind@ == "callback"@ && has_label(before, sym.name@)) {
            before
        } else {
            before.push(item(sym.name@, symbol_kind(sym.kind@), text_of(sym.ty), None))
        }
    }
}

fn offer_symbols(symbols: &Vec<SymbolDef>) -> (r: Vec<CompletionItem>)
    ensures
        views(r@) == symbol_items(symbols@, symbols@.len()),
{
    let mut items: Vec<CompletionItem> = Vec::new();
    let mut i: usize = 0;
    assert(views(items@) =~= Seq::empty());
    while i < symbols.len()
        invariant
            i <= symbols@.len(),
            views(items@) == symbol_items(symbols@, i as nat),
        decreases symbols@.len() - i,
    {
        let sym = &symbols[i];
        let name = chars_of(sym.name.as_str());
        if !has_char(&name, '.') && !(str_eq(sym.kind.as_str(), "callback") && label_taken(
            &items,
            sym.name.as_str(),
        )) {
            push_item(
                &mut items,
                make_item(
                    sym.name.clone(),
                    kind_of_symbol(sym.kind.as_str()),
                    copy_of(&sym.ty),
                    None,
                ),
            );
        }
        i += 1;
    }
    items
}

pub open spec fn keyword_items() -> Seq<ItemView> {
    Seq::new(KEYWORDS@.len(), |i: int| item(KEYWORDS@[i]@, ItemKind::Keyword, None, None))
}

pub open spec fn annotation_items() -> Seq<ItemView> {
    Seq::new(
        ANNOTATIONS@.len(),
        |i: int| item(ANNOTATIONS@[i].0@, ItemKind::Keyword, Some(ANNOTATIONS@[i].1@), None),
    )
}

pub open spec fn event_items(events: Seq<EventSpec>) -> Seq<ItemView> {
    Seq::new(
        events.len(),
        |i: int|
            item(events[i].surface_name@, ItemKind::Event, event_detail(events[i].data@), None),
    )
}

/// The names of parameters, with a question mark behind optional ones.
pub open spec fn marked_names(params: Seq<ParamSpec>) -> Seq<Seq<char>> {
    Seq::new(
        params.len(),
        |i: int|
            if params[i].optional {
                params[i].name@ + "?"@
            } else {
                params[i].name@
            },
    )
}

fn marked_name_list(params: &Vec<ParamSpec>) -> (r: Vec<String>)
    ensures
        texts(r@) == marked_names(params@),
{
    let mut out: Vec<String> = Vec::new();
    let mut i: usize = 0;
    while i < params.len()
        invariant
            i <= params@.len(),
            out@.len() == i,
            forall|k: int| 0 <= k < i ==> (#[trigger] out@[k])@ == marked_names(params@)[k],
        decreases params@.len() - i,
    {
        let p = &params[i];
        if p.optional {
            out.push(cat2(p.name.as_str(), "?"));
        } else {
            out.push(p.name.clone());
        }
        i += 1;
    }
    assert(texts(out@) =~= marked_names(params@));
    out
}

pub open spec fn function_items(calls: Seq<CallSpec>) -> Seq<ItemView> {
    Seq::new(
        calls.len(),
        |i: int|
            item(
                calls[i].name@,
                ItemKind::Function,
                Some("("@ + joined(marked_names(calls[i].params@), ", "@) + ")"@),
                None,
            ),
    )
}

pub open spec fn type_items() -> Seq<ItemView> {
    Seq::new(TYPE_NAMES@.len(), |i: int| item(TYPE_NAMES@[i]@, ItemKind::Class, None, None))
}

/// What is offered where nothing narrows it down.
pub open spec fn global_items(symbols: Seq<SymbolDef>, catalog: Catalog) -> Seq<ItemView> {
    symbol_items(symbols, symbols.len()) + keyword_items() + annotation_items() + event_items(
        catalog.events@,
    ) + function_items(catalog.calls@) + type_items()
}

fn push_keywords(items: &mut Vec<CompletionItem>)
    ensures
        views(final(items)@) == views(old(items)@) + keyword_items(),
{
    let ghost head = views(items@);
    let ghost all = keyword_items();
    let mut i: usize = 0;
    assert(head + all.take(0) =~= head);
    while i < KEYWORDS.len()
        invariant
            i <= KEYWORDS@.len(),
            all == keyword_items(),
            views(items@) == head + all.take(i as int),
        decreases KEYWORDS@.len() - i,
    {
        push_item(items, make_item(owned(KEYWORDS[i]), ItemKind::Keyword, None, None));
        assert(all.take(i + 1) =~= all.take(i as int).push(all[i as int]));
        assert(views(items@) =~= head + all.take(i + 1));
        i += 1;
    }
    assert(all.take(i as int) =~= all);
}

fn push_annotations(items: &mut Vec<CompletionItem>)
    ensures
        views(final(items)@) == views(old(items)@) + annotation_items(),
{
    let ghost head = views(items@);
    let ghost all = annotation_items();
    let mut i: usize = 0;
    assert(head + all.take(0) =~= head);
    while i < ANNOTATIONS.len()
        invariant
            i <= ANNOTATIONS@.len(),
            all == annotation_items(),
            views(items@) == head + all.take(i as int),
        decreases ANNOTATIONS@.len() - i,
    {
        push_item(
            items,
            make_item(
                owned(ANNOTATIONS[i].0),
                ItemKind::Keyword,
                Some(owned(ANNOTATIONS[i].1)),
                None,
            ),
        );
        assert(all.take(i + 1) =~= all.take(i as int).push(all[i as int]));
        assert(views(items@) =~= head + all.take(i + 1));
        i += 1;
    }
    assert(all.take(i as int) =~= all);
}

fn push_events(items: &mut Vec<CompletionItem>, events: &Vec<EventSpec>)
    ensures
        views(final(items)@) == views(old(items)@) + event_items(events@),
{
    let ghost head = views(items@);
    let ghost all = event_items(events@);
    let mut i: usize = 0;
    assert(head + all.take(0) =~= head);
    while i < events.len()
        invariant
            i <= events@.len(),
            all == event_items(events@),
            views(items@) == head + all.take(i as int),
        decreases events@.len() - i,
    {
        push_item(
            items,
            make_item(
                events[i].surface_name.clone(),
                ItemKind::Event,
                event_detail_of(&events[i].data),
                None,
            ),
        );
        assert(all.take(i + 1) =~= all.take(i as int).push(all[i as int]));
        assert(views(items@) =~= head + all.take(i + 1));
        i += 1;
    }
    assert(all.take(i as int) =~= all);
}

fn push_functions(items: &mut Vec<CompletionItem>, calls: &Vec<CallSpec>)
    ensures
        views(final(items)@) == views(old(items)@) + function_items(calls@),
{
    let ghost head = views(items@);
    let ghost all = function_items(calls@);
    let mut i: usize = 0;
    assert(head + all.take(0) =~= head);
    while i < calls.len()
        invariant
            i <= calls@.len(),
            all == function_items(calls@),
            views(items@) == head + all.take(i as int),
        decreases calls@.len() - i,
    {
        let names = marked_name_list(&calls[i].params);
        let detail = cat3("(", join(&names, ", ").as_str(), ")");
        push_item(
            items,
            make_item(calls[i].name.clone(), ItemKind::Function, Some(detail), None),
        );
        assert(all.take(i + 1) =~= all.take(i as int).push(all[i as int]));
        assert(views(items@) =~= head + all.take(i + 1));
        i += 1;
    }
    assert(all.take(i as int) =~= all);
}

fn push_types(items: &mut Vec<CompletionItem>)
    ensures
        views(final(items)@) == views(old(items)@) + type_items(),
{
    let ghost head = views(items@);
    let ghost all = type_items();
    let mut i: usize = 0;
    assert(head + all.take(0) =~= head);
    while i < TYPE_NAMES.len()
        invariant
            i <= TYPE_NAMES@.len(),
            all == type_items(),
            views(items@) == head + all.take(i as int),
        decreases TYPE_NAMES@.len() - i,
    {
        push_item(items, make_item(owned(TYPE_NAMES[i]), ItemKind::Class, None, None));
        assert(all.take(i + 1) =~= all.take(i as int).push(all[i as int]));
        assert(views(items@) =~= head + all.take(i + 1));
        i += 1;
    }
    assert(all.take(i as int) =~= all);
}

/// The completions at a place: prefab paths, assets, members of a receiver,
/// arguments of a call, and else everything. Members are never mixed with
/// anything else, even when there are none.
pub open spec fn completion_list(
    source: Seq<char>,
    symbols: Seq<SymbolDef>,
    catalog: Catalog,
    tables: Tables,
    site: CursorSite,
    line: usize,
    col: usize,
    paths: Seq<String>,
) -> Seq<ItemView> {
    let dollar = dollar_in(source, line, col);
    let prefabs = prefab_offers(dollar, line, col, paths);
    let assets = asset_offers(dollar, tables);
    if prefabs.len() > 0 {
        prefabs
    } else if assets.len() > 0 {
        assets
    } else {
        match site.receiver {
            Some(r) => member_items(r@, symbols, catalog, tables),
            None => {
                let arguments = call_items(site, symbols, catalog, tables);
                if arguments.len() > 0 {
                    arguments
                } else {
                    global_items(symbols, catalog)
                }
            },
        }
    }
}

/// Build completion items for a position.
pub fn build_completions(
    source: &str,
    symbols: &Vec<SymbolDef>,
    catalog: &Catalog,
    tables: &Tables,
    site: &CursorSite,
    line: usize,
    col: usize,
    prefab_paths: &Vec<String>,
) -> (r: Vec<CompletionItem>)
    ensures
        views(r@) == completion_list(
            source@,
            symbols@,
            *catalog,
            *tables,
            *site,
            line,
            col,
            prefab_paths@,
        ),
{
    if let Some((at, frag)) = find_dollar(source, line, col) {
        let prefabs = offer_prefabs(&frag, at, line, col, prefab_paths);
        assert(views(prefabs@).len() == prefabs@.len());
        if prefabs.len() > 0 {
            return prefabs;
        }
        let assets = offer_assets(&frag, tables);
        assert(views(assets@).len() == assets@.len());
        if assets.len() > 0 {
            return assets;
        }
    }
    if let Some(receiver) = &site.receiver {
        return member_completions(receiver.as_str(), symbols, catalog, tables);
    }
    let arguments = offer_call(site, symbols, catalog, tables);
    assert(views(arguments@).len() == arguments@.len());
    if arguments.len() > 0 {
        return arguments;
    }
    let mut items = offer_symbols(symbols);
    push_keywords(&mut items);
    push_annotations(&mut items);
    push_events(&mut items, &catalog.events);
    push_functions(&mut items, &catalog.calls);
    push_types(&mut items);
    items
}

/// Where a receiver stands before the cursor, its members are all that is
/// offered, unless a `$` reference is being written.
pub proof fn members_stay_alone(
    source: Seq<char>,
    symbols: Seq<SymbolDef>,
    catalog: Catalog,
    tables: Tables,
    site: CursorSite,
    line: usize,
    col: usize,
    paths: Seq<String>,
)
    requires
        site.receiver is Some,
        dollar_in(source, line, col) is None,
    ensures
        completion_list(source, symbols, catalog, tables, site, line, col, paths) == member_items(
            site.receiver->0@,
            symbols,
            catalog,
            tables,
        ),
{
}

/// Qualified names are reached only through their namespace: neither the
/// symbols that are offered for a bare name nor the members of a namespace
/// hold a dot.
pub proof fn qualified_names_stay_hidden(symbols: Seq<SymbolDef>, prefix: Seq<char>, n: nat)
    ensures
        forall|i: int|
            0 <= i < symbol_items(symbols, n).len() ==> !(#[trigger] symbol_items(
                symbols,
                n,
            )[i]).label.contains('.'),
        forall|i: int|
            0 <= i < namespace_items(symbols, prefix, n).len() ==> !(#[trigger] namespace_items(
                symbols,
                prefix,
                n,
            )[i]).label.contains('.'),
    decreases n,
{
    if n > 0 && n <= symbols.len() {
        qualified_names_stay_hidden(symbols, prefix, (n - 1) as nat);
    }
}

/// A symbol with a bare name is offered where nothing narrows the choice.
pub proof fn bare_symbols_are_offered(symbols: Seq<SymbolDef>, n: nat, k: int)
    requires
        0 <= k < n <= symbols.len(),
        !symbols[k].name@.contains('.'),
    ensures
        has_label(symbol_items(symbols, n), symbols[k].name@),
    decreases n,
{
    let items = symbol_items(symbols, n);
    let before = symbol_items(symbols, (n - 1) as nat);
    if k == n - 1 {
        if !(symbols[k].kind@ == "callback"@ && has_label(before, symbols[k].name@)) {
            assert(items[items.len() - 1].label == symbols[k].name@);
        }
    } else {
        bare_symbols_are_offered(symbols, (n - 1) as nat, k);
        let i = choose|i: int|
            0 <= i < before.len() && (#[trigger] before[i]).label == symbols[k].name@;
        assert(items[i] == before[i]);
    }
}

} // verus!
