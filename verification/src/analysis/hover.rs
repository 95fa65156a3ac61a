//! Hover cards: what an editor shows for the word under the cursor.

use crate::analysis::fields::{
    ending_type, extract_record_field_type, find_ending, find_obj_type, found_type, literal_field,
    member_type, record_field_text, resolve_field_in_type, resolve_field_via_symbols,
    resolve_record_lit_field, symbol_field, Types,
};
use crate::analysis::symbols::{
    find_gate_doc, find_of_kind, find_symbol, gate_doc, kind_named, port_doc, symbol_named, DeclKey,
    Estimates, GateDoc, PortDoc, ResourceEstimate, SymbolDef,
};
use crate::analysis::text::{
    before_col, byte_len, bytes_before, chars_before, clamp, cut, find_text, first_at, found_at,
    has_at, has_char, last_break, line_of, line_offset_at, line_start, lines, next_break, nth_line,
    skip_white, slice_of, stands_at, trimmed_start, word_begin, word_end, word_start,
    word_start_in_line,
};
use crate::assoc::{AssocMap, PosKey, SpanKey};
use crate::ast_view::text_of;
use crate::catalog::{CallSpec, Catalog, EventDataField, OutputSpec, ParamSpec};
use crate::text::{
    cat2, cat3, cat4, cat5, cat7, chars_of, dec, dec_wide, decimal, ends_with, ends_with_text, join,
    joined, owned, plural, str_eq, string_of, texts,
};
use crate::types::{type_str, type_text, Type, TypeView};
use vstd::prelude::*;
use vstd::string::*;

verus! {

// ---------- what is known of the cursor ----------

/// A `$` reference: its path, and whether it names a file.
#[derive(Debug)]
pub struct AssetRef {
    pub path: String,
    pub is_file: bool,
}

/// What is on disk where a prefab reference leads.
#[derive(Clone, Copy, Debug, PartialEq, Eq, Structural)]
pub enum OnDisk {
    Unchecked,
    Bytes(u64),
    Missing,
}

/// What the text shows at the cursor: the word, the call whose arguments it
/// stands in, and a `$` reference with the path it leads to.
#[derive(Debug)]
pub struct Site {
    pub word: Option<String>,
    pub call: Option<String>,
    pub asset: Option<AssetRef>,
    pub resolved: String,
    pub disk: OnDisk,
}

// ---------- estimates ----------

#[derive(Clone, Copy, Debug, PartialEq, Eq, Structural)]
pub enum EstimateKind {
    Chip,
    Mod,
    Scope,
}

/// An estimate in words. A chip counts itself; a mod is inlined.
pub open spec fn estimate_text(est: ResourceEstimate, kind: EstimateKind) -> Seq<char> {
    let chips: nat = match kind {
        EstimateKind::Chip => (est.total_microchips + 1) as nat,
        _ => est.total_microchips as nat,
    };
    let counts = seq!["~"@ + decimal(est.gates as nat) + " gates"@, decimal(chips) + " chips"@];
    let parts = if kind is Mod {
        counts.push("inlined per call"@)
    } else {
        counts
    };
    "*"@ + joined(parts, ", "@) + "*"@
}

pub fn format_estimate(est: &ResourceEstimate, kind: EstimateKind) -> (r: String)
    ensures
        r@ == estimate_text(*est, kind),
{
    let chips: u128 = match kind {
        EstimateKind::Chip => est.total_microchips as u128 + 1,
        _ => est.total_microchips as u128,
    };
    let mut parts: Vec<String> = Vec::new();
    parts.push(cat3("~", dec(est.gates).as_str(), " gates"));
    parts.push(cat2(dec_wide(chips).as_str(), " chips"));
    if let EstimateKind::Mod = kind {
        parts.push(owned("inlined per call"));
    }
    let ghost counts = seq![
        "~"@ + decimal(est.gates as nat) + " gates"@,
        decimal(chips as nat) + " chips"@,
    ];
    assert(texts(parts@) =~= if kind is Mod {
        counts.push("inlined per call"@)
    } else {
        counts
    });
    cat3("*", join(&parts, ", ").as_str(), "*")
}

/// The estimate under a card, if there is one.
pub open spec fn under(card: Seq<char>, est: Option<ResourceEstimate>, kind: EstimateKind) -> Seq<
    char,
> {
    match est {
        Some(e) => card + "\n\n"@ + estimate_text(e, kind),
        None => card,
    }
}

fn with_estimate(card: String, est: Option<&ResourceEstimate>, kind: EstimateKind) -> (r: String)
    ensures
        r@ == under(
            card@,
            match est {
                Some(e) => Some(*e),
                None => None,
            },
            kind,
        ),
{
    match est {
        Some(e) => cat3(card.as_str(), "\n\n", format_estimate(e, kind).as_str()),
        None => card,
    }
}

/// The estimate of a handler or a conditional.
pub open spec fn scope_estimate(estimates: Estimates, offset: usize) -> Option<ResourceEstimate> {
    if estimates.scopes@.contains_key(offset) {
        Some(estimates.scopes@[offset])
    } else {
        None
    }
}

/// The estimate of a declaration.
pub open spec fn decl_estimate(estimates: Estimates, sym: SymbolDef) -> Option<ResourceEstimate> {
    let key = (sym.name@, sym.range.start.offset);
    if estimates.decls@.contains_key(key) {
        Some(estimates.decls@[key])
    } else {
        None
    }
}

fn lookup_estimate<'a>(estimates: &'a Estimates, sym: &SymbolDef) -> (r: Option<
    &'a ResourceEstimate,
>)
    ensures
        decl_estimate(*estimates, *sym) == (match r {
            Some(e) => Some(*e),
            None => None,
        }),
{
    estimates.decls.get(&DeclKey { name: sym.name.clone(), start: sym.range.start.offset })
}

// ---------- `$` references ----------

/// Where a prefab reference leads.
#[derive(Debug)]
pub enum PrefabTarget {
    /// A path next to the file that holds the reference.
    Beside(String),
    /// A path from the root.
    Absolute(String),
}

pub enum TargetView {
    Beside(Seq<char>),
    Absolute(Seq<char>),
}

impl View for PrefabTarget {
    type V = TargetView;

    open spec fn view(&self) -> TargetView {
        match self {
            PrefabTarget::Beside(p) => TargetView::Beside(p@),
            PrefabTarget::Absolute(p) => TargetView::Absolute(p@),
        }
    }
}

/// `./x` and `x` lead next to the file, `/x` from the root.
pub open spec fn target_of(path: Seq<char>) -> TargetView {
    if has_at(path, 0, "./"@) {
        TargetView::Beside(path.skip("./"@.len() as int))
    } else if path.len() > 0 && path[0] == '/' {
        TargetView::Absolute(path)
    } else {
        TargetView::Beside(path)
    }
}

pub fn prefab_target(path: &str) -> (r: PrefabTarget)
    ensures
        r@ == target_of(path@),
{
    let chars = chars_of(path);
    if stands_at(&chars, 0, "./") {
        proof {
            reveal_strlit("./");
        }
        let rest = string_of(&chars, 2, chars.len());
        assert(rest@ =~= path@.skip("./"@.len() as int));
        PrefabTarget::Beside(rest)
    } else if chars.len() > 0 && chars[0] == '/' {
        PrefabTarget::Absolute(owned(path))
    } else {
        PrefabTarget::Beside(owned(path))
    }
}

/// What a card says of the disk.
pub open spec fn disk_text(disk: OnDisk) -> Seq<char> {
    match disk {
        OnDisk::Unchecked => Seq::empty(),
        OnDisk::Bytes(n) => "- On disk: "@ + decimal(n as nat) + " bytes\n"@,
        OnDisk::Missing => "- ⚠️ Not found on disk\n"@,
    }
}

/// The card of a prefab reference.
pub open spec fn prefab_card(path: Seq<char>, resolved: Seq<char>, disk: OnDisk) -> Seq<char> {
    let head =
        "**Prefab file reference**\n\nEmbeds a `.brz` archive into `SpawnPrefab`.\n\n- Reference: `$"@
        + path + "`\n- Resolves to: `"@ + resolved + "`\n"@;
    let warned = if ends_with_text(path, ".brz"@) {
        head
    } else {
        head + "\n⚠️ Prefab references must end in `.brz` (WS019).\n"@
    };
    warned + disk_text(disk)
}

/// Markdown hover for a prefab file reference (`$./x.brz` / `$/abs.brz`).
pub fn render_prefab_file_hover(path: &str, resolved: &str, disk: OnDisk) -> (r: String)
    ensures
        r@ == prefab_card(path@, resolved@, disk),
{
    let head = cat5(
        "**Prefab file reference**\n\nEmbeds a `.brz` archive into `SpawnPrefab`.\n\n- Reference: `$",
        path,
        "`\n- Resolves to: `",
        resolved,
        "`\n",
    );
    let warned = if ends_with(path, ".brz") {
        head
    } else {
        cat2(head.as_str(), "\n⚠️ Prefab references must end in `.brz` (WS019).\n")
    };
    match disk {
        OnDisk::Unchecked => {
            assert(warned@ + Seq::<char>::empty() =~= warned@);
            warned
        },
        OnDisk::Bytes(n) => {
            let line = cat3("- On disk: ", dec_wide(n as u128).as_str(), " bytes\n");
            cat2(warned.as_str(), line.as_str())
        },
        OnDisk::Missing => cat2(warned.as_str(), "- ⚠️ Not found on disk\n"),
    }
}

/// The card of an asset reference: type and name at the first slash.
pub open spec fn asset_card(path: Seq<char>) -> Seq<char> {
    let head = "**Asset reference**\n\nAn external Brickadia asset, inlined into the "@
        + "gate's data.\n\n"@;
    let k = first_at(path, '/');
    if k < path.len() {
        head + "- Type: `"@ + path.take(k) + "`\n- Name: `"@ + path.skip(k + 1) + "`\n"@
    } else {
        head + "- Asset: `"@ + path + "`\n"@
    }
}

/// Markdown hover for an external asset reference (`$Type/Name`).
pub fn render_asset_hover(path: &str) -> (r: String)
    ensures
        r@ == asset_card(path@),
{
    let head = cat2(
        "**Asset reference**\n\nAn external Brickadia asset, inlined into the ",
        "gate's data.\n\n",
    );
    let chars = chars_of(path);
    assert(chars@.skip(0) =~= chars@);
    let k: usize = crate::analysis::text::find_char(&chars, 0, '/');
    if k < chars.len() {
        let ty = string_of(&chars, 0, k);
        let name = string_of(&chars, k + 1, chars.len());
        assert(ty@ =~= path@.take(k as int));
        assert(name@ =~= path@.skip(k + 1));
        let front = cat3(head.as_str(), "- Type: `", ty.as_str());
        cat4(front.as_str(), "`\n- Name: `", name.as_str(), "`\n")
    } else {
        cat4(head.as_str(), "- Asset: `", path, "`\n")
    }
}

/// The card of the `$` reference under the cursor.
pub open spec fn reference_card(site: Site) -> Option<Seq<char>> {
    match site.asset {
        Some(a) => Some(
            if a.is_file {
                prefab_card(a.path@, site.resolved@, site.disk)
            } else {
                asset_card(a.path@)
            },
        ),
        None => None,
    }
}

/// Hover for a `$` reference token under the cursor: a prefab file reference
/// (`$./rel.brz`, `$/abs.brz`) or an external asset reference (`$Type/Name`).
pub fn hover_asset_ref(site: &Site) -> (r: Option<String>)
    ensures
        text_of(r) == reference_card(*site),
{
    match &site.asset {
        Some(a) => Some(
            if a.is_file {
                render_prefab_file_hover(a.path.as_str(), site.resolved.as_str(), site.disk)
            } else {
                render_asset_hover(a.path.as_str())
            },
        ),
        None => None,
    }
}

// ---------- the word in its line ----------

/// The byte offset of a place in a line.
pub open spec fn offset_of(source: Seq<char>, line: usize, at: usize) -> usize {
    clamp((line_start(source, line) + at) as nat)
}

/// The byte offset of the start of the word around a column.
pub open spec fn word_offset(source: Seq<char>, line: usize, l: Seq<char>, col: usize) -> usize {
    offset_of(source, line, word_start(l, col))
}

fn offset_at(source: &str, line: usize, at: usize) -> (r: usize)
    ensures
        r == offset_of(source@, line, at),
{
    line_offset_at(source, line).saturating_add(at)
}

/// What follows the word around a column.
pub open spec fn after_word(l: Seq<char>, col: usize) -> Seq<char> {
    trimmed_start(l.skip(next_break(l, cut(l, col as nat))))
}

/// Whether the word around a column stands behind a dot.
pub open spec fn behind_dot(l: Seq<char>, col: usize) -> bool {
    let b = last_break(before_col(l, col));
    b >= 0 && l[b] == '.'
}

fn is_behind_dot(l: &Vec<char>, col: usize) -> (r: bool)
    ensures
        r == behind_dot(l@, col),
{
    let c: usize = chars_before(l, col);
    let b: usize = word_begin(l, c);
    b > 0 && l[b - 1] == '.'
}

/// Whether the word around a column is followed by a single `=`.
pub open spec fn names_argument(source: Seq<char>, line: usize, col: usize) -> bool {
    match line_of(source, line) {
        Some(l) => has_at(after_word(l, col), 0, "="@) && !has_at(after_word(l, col), 0, "=="@),
        None => false,
    }
}

/// Is the hovered word in named-argument-name position — followed (modulo
/// spaces) by a single `=` (not `==`)? Inside call parens `name = value` can
/// only be a named arg, while a value identifier is never followed by a bare
/// `=`, so this cleanly separates the two sides of `delay = delay`.
pub fn word_is_named_arg_name(source: &str, line: usize, col: usize) -> (r: bool)
    ensures
        r == names_argument(source@, line, col),
{
    let l = match nth_line(source, line) {
        Some(l) => l,
        None => return false,
    };
    let c: usize = chars_before(&l, col);
    let e: usize = word_end(&l, c);
    let w: usize = skip_white(&l, e);
    let rest = slice_of(&l, w, l.len());
    assert(rest@ =~= l@.skip(w as int));
    stands_at(&rest, 0, "=") && !stands_at(&rest, 0, "==")
}

/// Whether the word around a column stands behind a dot or before a `(`.
pub open spec fn calls_something(source: Seq<char>, line: usize, col: usize) -> bool {
    match line_of(source, line) {
        Some(l) => behind_dot(l, col) || has_at(after_word(l, col), 0, "("@),
        None => false,
    }
}

/// Is the hovered word actually being used as a call or method access — i.e.
/// preceded by `.` (`recv.method`) or immediately followed by `(` (`call(...)`)?
/// Call/method hovers only fire in these positions, so a plain identifier that
/// merely shares a builtin's name (`var Teleport = 0`) hovers as itself.
pub fn word_is_call_or_method(source: &str, line: usize, col: usize) -> (r: bool)
    ensures
        r == calls_something(source@, line, col),
{
    let l = match nth_line(source, line) {
        Some(l) => l,
        None => return false,
    };
    if is_behind_dot(&l, col) {
        return true;
    }
    let c: usize = chars_before(&l, col);
    let e: usize = word_end(&l, c);
    let w: usize = skip_white(&l, e);
    let rest = slice_of(&l, w, l.len());
    assert(rest@ =~= l@.skip(w as int));
    stands_at(&rest, 0, "(")
}

// ---------- keywords ----------

/// The card of `if`, by whether it branches exec or selects a value.
pub open spec fn if_card(is_exec: bool) -> Seq<char> {
    if is_exec {
        "```wirescript\nif (exec) → Branch gate\n```\nExec-context conditional. Produces an **Exec_Branch** gate that routes the exec chain to the true or false arm."@
    } else {
        "```wirescript\nif (pure) → Select gate\n```\nPure-context conditional. Produces a **Select** gate that picks one of two values based on the condition."@
    }
}

pub open spec fn if_hover(
    source: Seq<char>,
    file: Seq<char>,
    word: Seq<char>,
    ifs: Map<(Seq<char>, usize), bool>,
    estimates: Estimates,
    line: usize,
    col: usize,
) -> Option<Seq<char>> {
    match line_of(source, line) {
        Some(l) => {
            let offset = word_offset(source, line, l, col);
            if word == "if"@ && ifs.contains_key((file, offset)) {
                Some(
                    under(
                        if_card(ifs[(file, offset)]),
                        scope_estimate(estimates, offset),
                        EstimateKind::Scope,
                    ),
                )
            } else {
                None
            }
        },
        None => None,
    }
}

/// `if` keyword: show exec (Branch gate) vs pure (Select gate) context.
pub fn hover_if_keyword(
    source: &str,
    file: &str,
    word: &str,
    if_contexts: &AssocMap<PosKey, bool>,
    resource_estimates: &Estimates,
    line: usize,
    col: usize,
) -> (r: Option<String>)
    ensures
        text_of(r) == if_hover(
            source@,
            file@,
            word@,
            if_contexts@,
            *resource_estimates,
            line,
            col,
        ),
{
    if !str_eq(word, "if") {
        return None;
    }
    let l = match nth_line(source, line) {
        Some(l) => l,
        None => return None,
    };
    let offset: usize = offset_at(source, line, word_start_in_line(&l, col));
    let is_exec: bool = match if_contexts.get(&PosKey { file: owned(file), start: offset }) {
        Some(b) => *b,
        None => return None,
    };
    let card = if is_exec {
        owned(
            "```wirescript\nif (exec) → Branch gate\n```\nExec-context conditional. Produces an **Exec_Branch** gate that routes the exec chain to the true or false arm.",
        )
    } else {
        owned(
            "```wirescript\nif (pure) → Select gate\n```\nPure-context conditional. Produces a **Select** gate that picks one of two values based on the condition.",
        )
    };
    Some(with_estimate(card, resource_estimates.scopes.get(&offset), EstimateKind::Scope))
}

/// The end of a line: the start of the next one.
pub open spec fn line_end(source: Seq<char>, line: usize) -> usize {
    match line_of(source, line) {
        Some(l) => clamp((line_start(source, line) + clamp((clamp(byte_len(l)) + 1) as nat)) as nat),
        None => line_start(source, line),
    }
}

/// The first chip or mod that starts between two offsets, from the `i`-th
/// symbol on.
pub open spec fn chip_between(symbols: Seq<SymbolDef>, lo: usize, hi: usize, i: int) -> Option<
    SymbolDef,
>
    decreases symbols.len() - i,
{
    if i < 0 || i >= symbols.len() {
        None
    } else if (symbols[i].kind@ == "chip"@ || symbols[i].kind@ == "mod"@) && lo
        <= symbols[i].range.start.offset < hi {
        Some(symbols[i])
    } else {
        chip_between(symbols, lo, hi, i + 1)
    }
}

/// The kind of estimate that a declaration has.
pub open spec fn estimate_kind(sym: SymbolDef) -> EstimateKind {
    if sym.kind@ == "mod"@ {
        EstimateKind::Mod
    } else {
        EstimateKind::Chip
    }
}

fn kind_of_estimate(sym: &SymbolDef) -> (r: EstimateKind)
    ensures
        r == estimate_kind(*sym),
{
    if str_eq(sym.kind.as_str(), "mod") {
        EstimateKind::Mod
    } else {
        EstimateKind::Chip
    }
}

/// The card of a `chip` or `mod` keyword.
pub open spec fn chip_card(sym: SymbolDef) -> Seq<char> {
    let name = if sym.name@.len() == 0 || sym.name@[0] == '_' {
        "(anonymous)"@
    } else {
        sym.name@
    };
    "```wirescript\n"@ + sym.kind@ + " "@ + name + (if sym.is_exec {
        " (exec)\n```\n\nExec context - body runs as sequential exec chain"@
    } else {
        " (pure)\n```\n\nPure context - body is evaluated as signal-flow (combinational)"@
    })
}

pub open spec fn chip_hover(
    source: Seq<char>,
    word: Seq<char>,
    symbols: Seq<SymbolDef>,
    estimates: Estimates,
    line: usize,
) -> Option<Seq<char>> {
    if word == "chip"@ || word == "mod"@ {
        match chip_between(symbols, line_start(source, line), line_end(source, line), 0) {
            Some(sym) => Some(
                under(chip_card(sym), decl_estimate(estimates, sym), estimate_kind(sym)),
            ),
            None => None,
        }
    } else {
        None
    }
}

fn find_chip_between<'a>(symbols: &'a Vec<SymbolDef>, lo: usize, hi: usize) -> (r: Option<
    &'a SymbolDef,
>)
    ensures
        r is Some <==> chip_between(symbols@, lo, hi, 0) is Some,
        r matches Some(s) ==> chip_between(symbols@, lo, hi, 0) == Some(*s),
{
    let mut i: usize = 0;
    while i < symbols.len()
        invariant
            i <= symbols@.len(),
            chip_between(symbols@, lo, hi, 0) == chip_between(symbols@, lo, hi, i as int),
        decreases symbols@.len() - i,
    {
        let sym = &symbols[i];
        if (str_eq(sym.kind.as_str(), "chip") || str_eq(sym.kind.as_str(), "mod"))
            && sym.range.start.offset >= lo && sym.range.start.offset < hi {
            return Some(sym);
        }
        i += 1;
    }
    None
}

/// `chip` or `mod` keyword: show exec/pure context and resource estimate.
pub fn hover_chip_or_mod_keyword(
    source: &str,
    word: &str,
    symbols: &Vec<SymbolDef>,
    resource_estimates: &Estimates,
    line: usize,
) -> (r: Option<String>)
    ensures
        text_of(r) == chip_hover(source@, word@, symbols@, *resource_estimates, line),
{
    if !str_eq(word, "chip") && !str_eq(word, "mod") {
        return None;
    }
    let lo: usize = line_offset_at(source, line);
    let hi: usize = match nth_line(source, line) {
        Some(l) => {
            assert(l@.take(l@.len() as int) =~= l@);
            lo.saturating_add(bytes_before(&l, l.len()).saturating_add(1))
        },
        None => lo,
    };
    let sym = match find_chip_between(symbols, lo, hi) {
        Some(s) => s,
        None => return None,
    };
    let chars = chars_of(sym.name.as_str());
    let name = if chars.len() == 0 || chars[0] == '_' {
        "(anonymous)"
    } else {
        sym.name.as_str()
    };
    let head = cat4("```wirescript\n", sym.kind.as_str(), " ", name);
    let card = cat2(
        head.as_str(),
        if sym.is_exec {
            " (exec)\n```\n\nExec context - body runs as sequential exec chain"
        } else {
            " (pure)\n```\n\nPure context - body is evaluated as signal-flow (combinational)"
        },
    );
    Some(with_estimate(card, lookup_estimate(resource_estimates, sym), kind_of_estimate(sym)))
}

/// Where the first `on` of a line starts, in bytes; its start without one.
pub open spec fn on_column(l: Seq<char>) -> usize {
    match found_at(l, "on"@, 0) {
        Some(i) => clamp(byte_len(l.take(i))),
        None => 0,
    }
}

pub open spec fn on_hover(
    source: Seq<char>,
    word: Seq<char>,
    estimates: Estimates,
    line: usize,
) -> Option<Seq<char>> {
    match line_of(source, line) {
        Some(l) => match scope_estimate(estimates, offset_of(source, line, on_column(l))) {
            Some(est) if word == "on"@ => Some(
                under("```wirescript\non handler (exec)\n```"@, Some(est), EstimateKind::Scope),
            ),
            _ => None,
        },
        None => None,
    }
}

/// `on` keyword: show handler resource estimate.
pub fn hover_on_keyword(
    source: &str,
    word: &str,
    resource_estimates: &Estimates,
    line: usize,
) -> (r: Option<String>)
    ensures
        text_of(r) == on_hover(source@, word@, *resource_estimates, line),
{
    if !str_eq(word, "on") {
        return None;
    }
    let l = match nth_line(source, line) {
        Some(l) => l,
        None => return None,
    };
    let at: usize = match find_text(&l, "on") {
        Some(i) => bytes_before(&l, i),
        None => 0,
    };
    let offset: usize = offset_at(source, line, at);
    match resource_estimates.scopes.get(&offset) {
        Some(est) => Some(
            with_estimate(
                owned("```wirescript\non handler (exec)\n```"),
                Some(est),
                EstimateKind::Scope,
            ),
        ),
        None => None,
    }
}

// ---------- built-in names ----------

pub open spec fn param_from(params: Seq<ParamSpec>, name: Seq<char>, i: int) -> Option<ParamSpec>
    decreases params.len() - i,
{
    if i < 0 || i >= params.len() {
        None
    } else if params[i].name@ == name {
        Some(params[i])
    } else {
        param_from(params, name, i + 1)
    }
}

pub fn find_param_named<'a>(params: &'a Vec<ParamSpec>, name: &str) -> (r: Option<&'a ParamSpec>)
    ensures
        r is Some <==> param_from(params@, name@, 0) is Some,
        r matches Some(p) ==> param_from(params@, name@, 0) == Some(*p),
{
    let mut i: usize = 0;
    while i < params.len()
        invariant
            i <= params@.len(),
            param_from(params@, name@, 0) == param_from(params@, name@, i as int),
        decreases params@.len() - i,
    {
        if str_eq(params[i].name.as_str(), name) {
            return Some(&params[i]);
        }
        i += 1;
    }
    None
}

/// The documentation of the port that a parameter feeds.
pub open spec fn param_doc(
    docs: Seq<(String, GateDoc)>,
    class: Seq<char>,
    port: Seq<char>,
) -> Option<PortDoc> {
    match gate_doc(docs, class) {
        Some(g) => port_doc(g, port),
        None => None,
    }
}

/// The card of a named parameter.
pub open spec fn param_card(p: ParamSpec, doc: Option<PortDoc>) -> Seq<char> {
    let display = match doc {
        Some(d) => d.display_name@,
        None => p.name@,
    };
    let head = "**"@ + display + "** `"@ + p.name@ + ": "@ + type_text(p.ty@) + "`"@;
    let marked = if p.optional {
        head + " *(optional)*"@
    } else {
        head
    };
    match doc {
        Some(d) if d.tooltip@.len() > 0 => marked + "\n\n"@ + d.tooltip@,
        _ => marked,
    }
}

pub open spec fn param_hover(
    source: Seq<char>,
    word: Seq<char>,
    call: Option<Seq<char>>,
    catalog: Catalog,
    docs: Seq<(String, GateDoc)>,
    line: usize,
    col: usize,
) -> Option<Seq<char>> {
    if names_argument(source, line, col) {
        match call {
            Some(name) => match catalog.call(name) {
                Some(spec) => match param_from(spec.params@, word, 0) {
                    Some(p) => Some(param_card(p, param_doc(docs, spec.gate_class@, p.port@))),
                    None => None,
                },
                None => None,
            },
            None => None,
        }
    } else {
        None
    }
}

/// Named parameter inside a builtin call (e.g. `delay` in `Sleep(_, delay = 1.0)`).
/// Only fires in arg-name position — the word followed by a single `=` — so a
/// value expression that shares a param's name (`delay = delay`) hovers as the
/// symbol it is, not as the param docs.
pub fn hover_named_param(
    source: &str,
    word: &str,
    call: &Option<String>,
    catalog: &Catalog,
    docs: &Vec<(String, GateDoc)>,
    line: usize,
    col: usize,
) -> (r: Option<String>)
    ensures
        text_of(r) == param_hover(source@, word@, text_of(*call), *catalog, docs@, line, col),
{
    if !word_is_named_arg_name(source, line, col) {
        return None;
    }
    let name = match call {
        Some(n) => n,
        None => return None,
    };
    let spec = match catalog.find_call(name.as_str()) {
        Some(s) => s,
        None => return None,
    };
    let p = match find_param_named(&spec.params, word) {
        Some(p) => p,
        None => return None,
    };
    let doc = match find_gate_doc(docs, spec.gate_class.as_str()) {
        Some(g) => g.find_port(p.port.as_str()),
        None => None,
    };
    let display = match doc {
        Some(d) => d.display_name.as_str(),
        None => p.name.as_str(),
    };
    let ty = type_str(&p.ty);
    let head = cat7("**", display, "** `", p.name.as_str(), ": ", ty.as_str(), "`");
    let marked = if p.optional {
        cat2(head.as_str(), " *(optional)*")
    } else {
        head
    };
    match doc {
        Some(d) => {
            if d.tooltip.as_str().unicode_len() > 0 {
                return Some(cat3(marked.as_str(), "\n\n", d.tooltip.as_str()));
            }
            Some(marked)
        },
        None => Some(marked),
    }
}

pub open spec fn method_hover(
    source: Seq<char>,
    word: Seq<char>,
    catalog: Catalog,
    line: usize,
    col: usize,
) -> Option<Seq<char>> {
    match line_of(source, line) {
        Some(l) => match catalog.method(word) {
            Some(m) if behind_dot(l, col) => Some(
                "**array."@ + m.name@ + "**\n\n"@ + m.name@ + m.signature@ + " - "@ + m.doc@,
            ),
            _ => None,
        },
        None => None,
    }
}

/// Array methods like `push`, `pop`, `length`, etc. Only fires on a `.method`
/// access (the hovered word is immediately preceded by `.`), so a user symbol
/// that happens to share a method name — e.g. `var sum = 0` — still hovers as
/// itself rather than as `array.sum`.
pub fn hover_array_method(
    source: &str,
    word: &str,
    catalog: &Catalog,
    line: usize,
    col: usize,
) -> (r: Option<String>)
    ensures
        text_of(r) == method_hover(source@, word@, *catalog, line, col),
{
    let l = match nth_line(source, line) {
        Some(l) => l,
        None => return None,
    };
    if !is_behind_dot(&l, col) {
        return None;
    }
    match catalog.find_method(word) {
        Some(m) => Some(
            cat7(
                "**array.",
                m.name.as_str(),
                "**\n\n",
                m.name.as_str(),
                m.signature.as_str(),
                " - ",
                m.doc.as_str(),
            ),
        ),
        None => None,
    }
}

/// The data of an event, each piece with its type.
pub open spec fn event_data(data: Seq<EventDataField>) -> Seq<Seq<char>> {
    Seq::new(data.len(), |i: int| data[i].name@ + ": "@ + type_text(data[i].ty@))
}

/// The data of an event in brackets; nothing without data.
pub open spec fn event_signature(data: Seq<EventDataField>) -> Seq<char> {
    if data.len() == 0 {
        Seq::empty()
    } else {
        "("@ + joined(event_data(data), ", "@) + ")"@
    }
}

pub fn event_sig(data: &Vec<EventDataField>) -> (r: String)
    ensures
        r@ == event_signature(data@),
{
    if data.len() == 0 {
        return String::new();
    }
    let mut parts: Vec<String> = Vec::new();
    let mut i: usize = 0;
    while i < data.len()
        invariant
            i <= data@.len(),
            parts@.len() == i,
            forall|k: int|
                0 <= k < i ==> (#[trigger] parts@[k])@ == data@[k].name@ + ": "@ + type_text(
                    data@[k].ty@,
                ),
        decreases data@.len() - i,
    {
        let ty = type_str(&data[i].ty);
        parts.push(cat3(data[i].name.as_str(), ": ", ty.as_str()));
        i += 1;
    }
    assert(texts(parts@) =~= event_data(data@));
    cat3("(", join(&parts, ", ").as_str(), ")")
}

pub open spec fn event_hover(word: Seq<char>, catalog: Catalog) -> Option<Seq<char>> {
    match catalog.event(word) {
        Some(e) => Some(
            "```wirescript\non "@ + e.surface_name@ + event_signature(e.data@) + "\n```"@,
        ),
        None => None,
    }
}

/// Built-in event names like `RoundStart`, `CharacterSpawned`, etc.
pub fn hover_builtin_event(word: &str, catalog: &Catalog) -> (r: Option<String>)
    ensures
        text_of(r) == event_hover(word@, *catalog),
{
    match catalog.find_event(word) {
        Some(e) => {
            let sig = event_sig(&e.data);
            Some(cat4("```wirescript\non ", e.surface_name.as_str(), sig.as_str(), "\n```"))
        },
        None => None,
    }
}

/// A parameter in a signature; an optional one has a question mark.
pub open spec fn param_text(p: ParamSpec) -> Seq<char> {
    p.name@ + (if p.optional {
        "?: "@
    } else {
        ": "@
    }) + type_text(p.ty@)
}

/// The parameters of a call, after `exec` where it runs on a pulse.
pub open spec fn call_params(spec: CallSpec) -> Seq<Seq<char>> {
    let own = Seq::new(spec.params@.len(), |i: int| param_text(spec.params@[i]));
    if spec.needs_exec {
        seq!["exec"@] + own
    } else {
        own
    }
}

fn call_param_list(spec: &CallSpec) -> (r: Vec<String>)
    ensures
        texts(r@) == call_params(*spec),
{
    let mut parts: Vec<String> = Vec::new();
    if spec.needs_exec {
        parts.push(owned("exec"));
    }
    let ghost head = texts(parts@);
    let ghost own = Seq::new(spec.params@.len(), |i: int| param_text(spec.params@[i]));
    assert(head =~= if spec.needs_exec {
        seq!["exec"@]
    } else {
        Seq::empty()
    });
    assert(texts(parts@) =~= head + own.take(0));
    let mut i: usize = 0;
    while i < spec.params.len()
        invariant
            i <= spec.params@.len(),
            own == Seq::new(spec.params@.len(), |i: int| param_text(spec.params@[i])),
            texts(parts@) == head + own.take(i as int),
        decreases spec.params@.len() - i,
    {
        let ghost before = parts@;
        let p = &spec.params[i];
        let ty = type_str(&p.ty);
        parts.push(
            cat3(
                p.name.as_str(),
                if p.optional {
                    "?: "
                } else {
                    ": "
                },
                ty.as_str(),
            ),
        );
        assert(texts(parts@) =~= texts(before).push(own[i as int]));
        assert(texts(parts@) =~= head + own.take(i + 1));
        i += 1;
    }
    assert(own.take(i as int) =~= own);
    assert(texts(parts@) =~= call_params(*spec));
    parts
}

/// The outputs of a call, each with its port.
pub open spec fn output_texts(outs: Seq<OutputSpec>) -> Seq<Seq<char>> {
    Seq::new(outs.len(), |i: int| outs[i].port@ + ": "@ + type_text(outs[i].ty@))
}

/// What a call gives back, as a signature says it.
pub open spec fn outputs_text(outs: Seq<OutputSpec>) -> Seq<char> {
    if outs.len() == 0 {
        Seq::empty()
    } else if outs.len() == 1 {
        " -> "@ + type_text(outs[0].ty@)
    } else {
        " -> ("@ + joined(output_texts(outs), ", "@) + ")"@
    }
}

pub fn outputs_sig(outs: &Vec<OutputSpec>) -> (r: String)
    ensures
        r@ == outputs_text(outs@),
{
    if outs.len() == 0 {
        return String::new();
    }
    if outs.len() == 1 {
        let ty = type_str(&outs[0].ty);
        return cat2(" -> ", ty.as_str());
    }
    let mut parts: Vec<String> = Vec::new();
    let mut i: usize = 0;
    while i < outs.len()
        invariant
            i <= outs@.len(),
            parts@.len() == i,
            forall|k: int|
                0 <= k < i ==> (#[trigger] parts@[k])@ == outs@[k].port@ + ": "@ + type_text(
                    outs@[k].ty@,
                ),
        decreases outs@.len() - i,
    {
        let ty = type_str(&outs[i].ty);
        parts.push(cat3(outs[i].port.as_str(), ": ", ty.as_str()));
        i += 1;
    }
    assert(texts(parts@) =~= output_texts(outs@));
    cat3(" -> (", join(&parts, ", ").as_str(), ")")
}

/// The documented ports among the first `n` parameters.
pub open spec fn port_notes(params: Seq<ParamSpec>, doc: GateDoc, n: nat) -> Seq<Seq<char>>
    decreases n,
{
    if n == 0 || n > params.len() {
        Seq::empty()
    } else {
        let before = port_notes(params, doc, (n - 1) as nat);
        match port_doc(doc, params[n - 1].port@) {
            Some(d) if d.tooltip@.len() > 0 => before.push(
                "- **"@ + d.display_name@ + "** - "@ + d.tooltip@,
            ),
            _ => before,
        }
    }
}

fn port_note_list(params: &Vec<ParamSpec>, doc: &GateDoc) -> (r: Vec<String>)
    ensures
        texts(r@) == port_notes(params@, *doc, params@.len()),
{
    let mut out: Vec<String> = Vec::new();
    let mut i: usize = 0;
    assert(texts(out@) =~= Seq::empty());
    while i < params.len()
        invariant
            i <= params@.len(),
            texts(out@) == port_notes(params@, *doc, i as nat),
        decreases params@.len() - i,
    {
        if let Some(d) = doc.find_port(params[i].port.as_str()) {
            if d.tooltip.as_str().unicode_len() > 0 {
                let ghost before = out@;
                let note = cat4("- **", d.display_name.as_str(), "** - ", d.tooltip.as_str());
                out.push(note);
                assert(texts(out@) =~= texts(before).push(note@));
            }
        }
        i += 1;
    }
    out
}

/// The paragraphs of the card of a call.
pub open spec fn call_parts(spec: CallSpec, doc: Option<GateDoc>) -> Seq<Seq<char>> {
    let title = match doc {
        Some(g) => g.display_name@,
        None => spec.name@,
    };
    let head = "### "@ + title + "\n```wirescript\n"@ + spec.name@ + "("@ + joined(
        call_params(spec),
        ", "@,
    ) + ")"@ + outputs_text(spec.outputs@) + "\n```"@;
    match doc {
        None => seq![head],
        Some(g) => {
            let described = if g.description@.len() > 0 {
                seq![head, g.description@]
            } else {
                seq![head]
            };
            let notes = port_notes(spec.params@, g, spec.params@.len());
            if notes.len() > 0 {
                described.push("**Parameters:**\n"@ + joined(notes, "\n"@))
            } else {
                described
            }
        },
    }
}

pub open spec fn call_hover(
    source: Seq<char>,
    word: Seq<char>,
    catalog: Catalog,
    docs: Seq<(String, GateDoc)>,
    line: usize,
    col: usize,
) -> Option<Seq<char>> {
    match catalog.call(word) {
        Some(spec) if calls_something(source, line, col) => Some(
            joined(call_parts(spec, gate_doc(docs, spec.gate_class@)), "\n\n"@),
        ),
        _ => None,
    }
}

/// Built-in function/gate calls like `Sleep`, `SetLocation`, etc.
pub fn hover_builtin_call(
    source: &str,
    word: &str,
    catalog: &Catalog,
    docs: &Vec<(String, GateDoc)>,
    line: usize,
    col: usize,
) -> (r: Option<String>)
    ensures
        text_of(r) == call_hover(source@, word@, *catalog, docs@, line, col),
{
    if !word_is_call_or_method(source, line, col) {
        return None;
    }
    let spec = match catalog.find_call(word) {
        Some(s) => s,
        None => return None,
    };
    let doc = find_gate_doc(docs, spec.gate_class.as_str());
    let title = match doc {
        Some(g) => g.display_name.as_str(),
        None => spec.name.as_str(),
    };
    let params = join(&call_param_list(spec), ", ");
    let outs = outputs_sig(&spec.outputs);
    let front = cat7(
        "### ",
        title,
        "\n```wirescript\n",
        spec.name.as_str(),
        "(",
        params.as_str(),
        ")",
    );
    let head = cat3(front.as_str(), outs.as_str(), "\n```");
    let ghost first = head@;
    let mut parts: Vec<String> = Vec::new();
    parts.push(head);
    assert(texts(parts@) =~= seq![first]);
    if let Some(g) = doc {
        if g.description.as_str().unicode_len() > 0 {
            parts.push(g.description.clone());
            assert(texts(parts@) =~= seq![first, g.description@]);
        }
        let ghost before = parts@;
        let notes = port_note_list(&spec.params, g);
        if notes.len() > 0 {
            assert(texts(notes@).len() == notes@.len());
            let note = cat2("**Parameters:**\n", join(&notes, "\n").as_str());
            parts.push(note);
            assert(texts(parts@) =~= texts(before).push(note@));
        } else {
            assert(texts(notes@).len() == 0);
        }
    }
    Some(join(&parts, "\n\n"))
}

// ---------- declared names ----------

/// The documentation under a card, if there is any.
pub open spec fn documented(card: Seq<char>, docs: Map<usize, Seq<char>>, at: usize) -> Seq<char> {
    if docs.contains_key(at) {
        card + "\n\n"@ + docs[at]
    } else {
        card
    }
}

fn with_doc(card: String, docs: &AssocMap<usize, String>, at: usize) -> (r: String)
    ensures
        r@ == documented(card@, docs@, at),
{
    match docs.get(&at) {
        Some(d) => cat3(card.as_str(), "\n\n", d.as_str()),
        None => card,
    }
}

/// Whether a kind of declaration can be called.
pub open spec fn callable(kind: Seq<char>) -> bool {
    kind == "mod"@ || kind == "chip"@ || kind == "fn"@
}

pub fn is_callable(kind: &str) -> (r: bool)
    ensures
        r == callable(kind@),
{
    str_eq(kind, "mod") || str_eq(kind, "chip") || str_eq(kind, "fn")
}

/// The signature of a callable: `exec` comes first where it runs on a pulse.
pub open spec fn signature_text(is_exec: bool, ty: Seq<char>) -> Seq<char> {
    if is_exec {
        if ty.len() > 0 && ty[0] == '(' && byte_len(ty) > 2 {
            "(exec, "@ + ty.skip(1)
        } else {
            "(exec)"@
        }
    } else {
        ty
    }
}

fn signature(is_exec: bool, ty: &str) -> (r: String)
    ensures
        r@ == signature_text(is_exec, ty@),
{
    if !is_exec {
        return owned(ty);
    }
    let chars = chars_of(ty);
    assert(chars@.take(chars@.len() as int) =~= chars@);
    if chars.len() > 0 && chars[0] == '(' && bytes_before(&chars, chars.len()) > 2 {
        let rest = string_of(&chars, 1, chars.len());
        assert(rest@ =~= ty@.skip(1));
        cat2("(exec, ", rest.as_str())
    } else {
        owned("(exec)")
    }
}

/// The type of a symbol in words.
pub open spec fn symbol_type(sym: SymbolDef) -> Seq<char> {
    match sym.ty {
        Some(t) => t@,
        None => "unknown"@,
    }
}

/// The first lines of the card of a declaration.
pub open spec fn decl_head(sym: SymbolDef) -> Seq<char> {
    let head = "```wirescript\n"@ + sym.kind@ + " "@ + sym.name@;
    if callable(sym.kind@) {
        head + signature_text(sym.is_exec, symbol_type(sym)) + "\n```"@
    } else {
        head + ": "@ + symbol_type(sym) + "\n```"@
    }
}

/// The card of a declaration.
pub open spec fn decl_card(
    sym: SymbolDef,
    docs: Map<usize, Seq<char>>,
    estimates: Estimates,
) -> Seq<char> {
    let card = documented(decl_head(sym), docs, sym.range.start.offset);
    if callable(sym.kind@) {
        under(card, decl_estimate(estimates, sym), estimate_kind(sym))
    } else {
        card
    }
}

/// Render a declaration symbol's hover card: its signature line (mods/chips/fns
/// show `(exec, params) -> ret`; everything else `kind name: type`), followed by
/// its doc comment and, for callables, a resource estimate. Shared by plain
/// symbol hover and namespace-member hover.
pub fn render_decl_hover(
    sym: &SymbolDef,
    doc_comments: &AssocMap<usize, String>,
    resource_estimates: &Estimates,
) -> (r: String)
    ensures
        r@ == decl_card(*sym, doc_comments@, *resource_estimates),
{
    let ty = match &sym.ty {
        Some(t) => t.as_str(),
        None => "unknown",
    };
    let front = cat4("```wirescript\n", sym.kind.as_str(), " ", sym.name.as_str());
    let called: bool = is_callable(sym.kind.as_str());
    let head = if called {
        let sig = signature(sym.is_exec, ty);
        cat3(front.as_str(), sig.as_str(), "\n```")
    } else {
        cat4(front.as_str(), ": ", ty, "\n```")
    };
    let card = with_doc(head, doc_comments, sym.range.start.offset);
    if called {
        with_estimate(card, lookup_estimate(resource_estimates, sym), kind_of_estimate(sym))
    } else {
        card
    }
}

/// The members of a namespace among the first `n` symbols: the names behind
/// its prefix, without those of nested namespaces.
pub open spec fn namespace_members(symbols: Seq<SymbolDef>, prefix: Seq<char>, n: nat) -> Seq<
    Seq<char>,
>
    decreases n,
{
    if n == 0 || n > symbols.len() {
        Seq::empty()
    } else {
        let before = namespace_members(symbols, prefix, (n - 1) as nat);
        let name = symbols[n - 1].name@;
        let member = name.skip(prefix.len() as int);
        if has_at(name, 0, prefix) && !member.contains('.') {
            before.push(member)
        } else {
            before
        }
    }
}

fn member_list(symbols: &Vec<SymbolDef>, prefix: &str) -> (r: Vec<String>)
    ensures
        texts(r@) == namespace_members(symbols@, prefix@, symbols@.len()),
{
    let skip: usize = prefix.unicode_len();
    let mut out: Vec<String> = Vec::new();
    let mut i: usize = 0;
    assert(texts(out@) =~= Seq::empty());
    while i < symbols.len()
        invariant
            i <= symbols@.len(),
            skip == prefix@.len(),
            texts(out@) == namespace_members(symbols@, prefix@, i as nat),
        decreases symbols@.len() - i,
    {
        let name = chars_of(symbols[i].name.as_str());
        if stands_at(&name, 0, prefix) {
            let member = slice_of(&name, skip, name.len());
            assert(member@ =~= name@.skip(skip as int));
            if !has_char(&member, '.') {
                let ghost before = out@;
                let text = string_of(&member, 0, member.len());
                assert(text@ =~= member@);
                out.push(text);
                assert(texts(out@) =~= texts(before).push(member@));
            }
        }
        i += 1;
    }
    out
}

/// The card of a namespace: its name and its members.
pub open spec fn namespace_card(symbols: Seq<SymbolDef>, sym: SymbolDef) -> Seq<char> {
    let members = namespace_members(symbols, sym.name@ + "."@, symbols.len());
    let head = "```wirescript\nnamespace "@ + sym.name@ + "\n```"@;
    if members.len() == 0 {
        head
    } else {
        head + "\n\n"@ + decimal(members.len()) + plural(
            members.len(),
            " member: "@,
            " members: "@,
        ) + joined(members, ", "@)
    }
}

/// How a variable is read at an offset, if it is.
pub open spec fn read_note(reads: Map<(Seq<char>, usize), bool>, file: Seq<char>, at: usize) -> Seq<
    char,
> {
    if reads.contains_key((file, at)) {
        if reads[(file, at)] {
            "\n\n*(exec) reads current value via Var\\_Get*"@
        } else {
            "\n\n*(pure) reads previous tick's value via Value field*"@
        }
    } else {
        Seq::empty()
    }
}

pub open spec fn symbol_hover(
    source: Seq<char>,
    file: Seq<char>,
    symbols: Seq<SymbolDef>,
    docs: Map<usize, Seq<char>>,
    reads: Map<(Seq<char>, usize), bool>,
    estimates: Estimates,
    word: Seq<char>,
    line: usize,
    col: usize,
) -> Option<Seq<char>> {
    match symbol_named(symbols, word) {
        None => None,
        Some(sym) => if sym.kind@ == "namespace"@ {
            Some(namespace_card(symbols, sym))
        } else if sym.kind@ == "var"@ {
            match line_of(source, line) {
                Some(l) => Some(
                    decl_card(sym, docs, estimates) + read_note(
                        reads,
                        file,
                        word_offset(source, line, l, col),
                    ),
                ),
                None => None,
            }
        } else {
            Some(decl_card(sym, docs, estimates))
        },
    }
}

/// User-defined symbol: var, let, buffer, in, out, mod, chip, fn, type, etc.
pub fn hover_user_symbol(
    source: &str,
    file: &str,
    symbols: &Vec<SymbolDef>,
    doc_comments: &AssocMap<usize, String>,
    var_read_contexts: &AssocMap<PosKey, bool>,
    resource_estimates: &Estimates,
    word: &str,
    line: usize,
    col: usize,
) -> (r: Option<String>)
    ensures
        text_of(r) == symbol_hover(
            source@,
            file@,
            symbols@,
            doc_comments@,
            var_read_contexts@,
            *resource_estimates,
            word@,
            line,
            col,
        ),
{
    let sym = match find_symbol(symbols, word) {
        Some(s) => s,
        None => return None,
    };
    if str_eq(sym.kind.as_str(), "namespace") {
        let prefix = cat2(sym.name.as_str(), ".");
        let members = member_list(symbols, prefix.as_str());
        let head = cat3("```wirescript\nnamespace ", sym.name.as_str(), "\n```");
        let n: usize = members.len();
        assert(texts(members@).len() == n);
        if n == 0 {
            return Some(head);
        }
        let names = join(&members, ", ");
        return Some(
            cat5(
                head.as_str(),
                "\n\n",
                dec(n).as_str(),
                if n == 1 {
                    " member: "
                } else {
                    " members: "
                },
                names.as_str(),
            ),
        );
    }
    let card = render_decl_hover(sym, doc_comments, resource_estimates);
    if !str_eq(sym.kind.as_str(), "var") {
        return Some(card);
    }
    let l = match nth_line(source, line) {
        Some(l) => l,
        None => return None,
    };
    let offset: usize = offset_at(source, line, word_start_in_line(&l, col));
    match var_read_contexts.get(&PosKey { file: owned(file), start: offset }) {
        Some(is_exec) => Some(
            cat2(
                card.as_str(),
                if *is_exec {
                    "\n\n*(exec) reads current value via Var\\_Get*"
                } else {
                    "\n\n*(pure) reads previous tick's value via Value field*"
                },
            ),
        ),
        None => {
            assert(card@ + Seq::<char>::empty() =~= card@);
            Some(card)
        },
    }
}

/// The object before the dot that the word around a column stands behind:
/// the places of its start and of the dot.
pub open spec fn object_span(l: Seq<char>, col: usize) -> Option<(int, int)> {
    let b = last_break(before_col(l, col));
    if b >= 0 && l[b] == '.' {
        Some((last_break(l.take(b)) + 1, b))
    } else {
        None
    }
}

fn find_object(l: &Vec<char>, col: usize) -> (r: Option<(usize, usize)>)
    ensures
        r is Some <==> object_span(l@, col) is Some,
        r matches Some(p) ==> p.0 <= p.1 < l@.len() && object_span(l@, col) == Some(
            (p.0 as int, p.1 as int),
        ),
{
    let c: usize = chars_before(l, col);
    let b: usize = word_begin(l, c);
    if b > 0 && l[b - 1] == '.' {
        Some((word_begin(l, b - 1), b - 1))
    } else {
        None
    }
}

pub open spec fn member_hover(
    source: Seq<char>,
    symbols: Seq<SymbolDef>,
    docs: Map<usize, Seq<char>>,
    estimates: Estimates,
    word: Seq<char>,
    line: usize,
    col: usize,
) -> Option<Seq<char>> {
    match line_of(source, line) {
        None => None,
        Some(l) => match object_span(l, col) {
            None => None,
            Some((a, b)) => {
                let obj = l.subrange(a, b);
                match symbol_named(symbols, obj + "."@ + word) {
                    Some(sym) if kind_named(symbols, "namespace"@, obj) is Some => Some(
                        decl_card(sym, docs, estimates),
                    ),
                    _ => None,
                }
            },
        },
    }
}

/// Hover for the member in a namespace-qualified reference — the `drawTopText`
/// in `card.drawTopText` where `card` is an `import * as card`. The member is
/// stored in `symbols` under its qualified `card.drawTopText` name.
pub fn hover_namespace_member(
    source: &str,
    symbols: &Vec<SymbolDef>,
    doc_comments: &AssocMap<usize, String>,
    resource_estimates: &Estimates,
    word: &str,
    line: usize,
    col: usize,
) -> (r: Option<String>)
    ensures
        text_of(r) == member_hover(
            source@,
            symbols@,
            doc_comments@,
            *resource_estimates,
            word@,
            line,
            col,
        ),
{
    let l = match nth_line(source, line) {
        Some(l) => l,
        None => return None,
    };
    let (a, b): (usize, usize) = match find_object(&l, col) {
        Some(p) => p,
        None => return None,
    };
    let obj = string_of(&l, a, b);
    if find_of_kind(symbols, "namespace", obj.as_str()).is_none() {
        return None;
    }
    let qualified = cat3(obj.as_str(), ".", word);
    match find_symbol(symbols, qualified.as_str()) {
        Some(sym) => Some(render_decl_hover(sym, doc_comments, resource_estimates)),
        None => None,
    }
}

// ---------- fields ----------

/// Whether a line lies within a declaration, whose lines count from one.
pub open spec fn spans_line(sym: SymbolDef, line: usize) -> bool {
    sym.range.start.line <= line + 1 && line + 1 <= (if sym.range.end.line == 0 {
        1
    } else {
        sym.range.end.line as int
    })
}

/// The card of a field of the first declared record type around the line that
/// has the field, from the `i`-th symbol on.
pub open spec fn type_field_from(
    source: Seq<char>,
    symbols: Seq<SymbolDef>,
    docs: Map<usize, Seq<char>>,
    word: Seq<char>,
    line: usize,
    col: usize,
    i: int,
) -> Option<Seq<char>>
    decreases symbols.len() - i,
{
    if i < 0 || i >= symbols.len() {
        None
    } else {
        let sym = symbols[i];
        let ty = if sym.kind@ == "type"@ && spans_line(sym, line) {
            match sym.ty {
                Some(t) => record_field_text(t@, word),
                None => None,
            }
        } else {
            None
        };
        match ty {
            Some(t) => match line_of(source, line) {
                Some(l) => Some(
                    documented(
                        crate::analysis::fields::field_card(sym.name@, word, t),
                        docs,
                        word_offset(source, line, l, col),
                    ),
                ),
                None => None,
            },
            None => type_field_from(source, symbols, docs, word, line, col, i + 1),
        }
    }
}

pub open spec fn field_decl_hover(
    source: Seq<char>,
    symbols: Seq<SymbolDef>,
    docs: Map<usize, Seq<char>>,
    word: Seq<char>,
    line: usize,
    col: usize,
) -> Option<Seq<char>> {
    match literal_field(lines(source), symbols, word, line as int) {
        Some(card) => Some(card),
        None => type_field_from(source, symbols, docs, word, line, col, 0),
    }
}

/// Record literal field or type declaration field.
/// Checked before general symbol lookup so `counter` in `{ counter: score }`
/// shows as a field, not as a param.
pub fn hover_record_or_type_field(
    source: &str,
    symbols: &Vec<SymbolDef>,
    doc_comments: &AssocMap<usize, String>,
    word: &str,
    line: usize,
    col: usize,
) -> (r: Option<String>)
    ensures
        text_of(r) == field_decl_hover(source@, symbols@, doc_comments@, word@, line, col),
{
    let literal = resolve_record_lit_field(source, symbols, word, line);
    if literal.is_some() {
        return literal;
    }
    let mut i: usize = 0;
    while i < symbols.len()
        invariant
            i <= symbols@.len(),
            field_decl_hover(source@, symbols@, doc_comments@, word@, line, col)
                == type_field_from(
                source@,
                symbols@,
                doc_comments@,
                word@,
                line,
                col,
                i as int,
            ),
        decreases symbols@.len() - i,
    {
        let sym = &symbols[i];
        if str_eq(sym.kind.as_str(), "type") && sym.range.start.line.saturating_sub(1) <= line
            && sym.range.end.line.saturating_sub(1) >= line {
            if let Some(t) = &sym.ty {
                if let Some(ty) = extract_record_field_type(t.as_str(), word) {
                    let card = cat7(
                        "```wirescript\n",
                        sym.name.as_str(),
                        ".",
                        word,
                        ": ",
                        ty.as_str(),
                        "\n```",
                    );
                    let l = match nth_line(source, line) {
                        Some(l) => l,
                        None => return None,
                    };
                    let at: usize = offset_at(source, line, word_start_in_line(&l, col));
                    return Some(with_doc(card, doc_comments, at));
                }
            }
        }
        i += 1;
    }
    None
}

/// How a field is shown by its type.
pub open spec fn typed_field(field: Seq<char>, ty: Seq<char>) -> Seq<char> {
    "```wirescript\nfield "@ + field + ": "@ + ty + "\n```"@
}

/// The byte column where a stretch of a line starts.
pub open spec fn start_column(l: Seq<char>, a: int) -> usize {
    clamp(byte_len(l.take(a)))
}

/// The member of a type that may not be known.
pub open spec fn member_of(t: Option<TypeView>, field: Seq<char>) -> Option<TypeView> {
    match t {
        Some(ty) => member_type(ty, field),
        None => None,
    }
}

/// The card of a field behind a dot, where `obj` is the type that is found for
/// the object before it: by the type of the whole access, by the object's type,
/// by the innermost expression that ends at the dot, and by the object's name.
pub open spec fn field_hover(
    source: Seq<char>,
    file: Seq<char>,
    types: Types,
    symbols: Seq<SymbolDef>,
    line: usize,
    col: usize,
    field: Seq<char>,
    obj: Option<TypeView>,
) -> Option<Seq<char>> {
    match line_of(source, line) {
        None => None,
        Some(l) => match object_span(l, col) {
            None => None,
            Some((a, b)) => {
                let start = offset_of(source, line, start_column(l, a));
                let dot = offset_of(source, line, clamp(byte_len(l.take(b))));
                let e = next_break(l, cut(l, col as nat));
                let end = offset_of(source, line, clamp(byte_len(l.take(e))));
                let name = l.subrange(a, b);
                if types.contains_key((file, start, end)) {
                    Some(typed_field(field, type_text(types[(file, start, end)])))
                } else if member_of(obj, field) is Some {
                    Some(typed_field(field, type_text(member_of(obj, field)->0)))
                } else if member_of(ending_type(types, file, dot), field) is Some {
                    Some(
                        typed_field(
                            field,
                            type_text(member_of(ending_type(types, file, dot), field)->0),
                        ),
                    )
                } else if name.len() > 0 {
                    match symbol_field(symbols, name, field) {
                        Some(t) => Some(typed_field(field, t)),
                        None => None,
                    }
                } else {
                    None
                }
            },
        },
    }
}

/// Whether `t` is the type that is found for the object before the dot, if the
/// word around the column stands behind one.
pub open spec fn object_type(
    source: Seq<char>,
    file: Seq<char>,
    types: Types,
    line: usize,
    col: usize,
    t: Option<TypeView>,
) -> bool {
    match line_of(source, line) {
        None => true,
        Some(l) => match object_span(l, col) {
            None => true,
            Some((a, b)) => found_type(
                types,
                file,
                offset_of(source, line, start_column(l, a)),
                offset_of(source, line, clamp(byte_len(l.take(b)))),
                t,
            ),
        },
    }
}

/// For every place there is an outcome of the search for the object's type.
proof fn some_type_is_found(
    source: Seq<char>,
    file: Seq<char>,
    types: Types,
    line: usize,
    col: usize,
)
    ensures
        exists|t: Option<TypeView>| #[trigger] object_type(source, file, types, line, col, t),
{
    let none: Option<TypeView> = None;
    if let Some(l) = line_of(source, line) {
        if let Some((a, b)) = object_span(l, col) {
            let start = offset_of(source, line, start_column(l, a));
            let end = offset_of(source, line, clamp(byte_len(l.take(b))));
            let found = crate::analysis::fields::some_type(types, file, start, end);
            crate::analysis::fields::some_type_fits(types, file, start, end);
            assert(object_type(source, file, types, line, col, found));
        } else {
            assert(object_type(source, file, types, line, col, none));
        }
    } else {
        assert(object_type(source, file, types, line, col, none));
    }
}

fn typed_field_card(field: &str, ty: &Type) -> (r: String)
    ensures
        r@ == typed_field(field@, type_text(ty@)),
{
    let t = type_str(ty);
    cat5("```wirescript\nfield ", field, ": ", t.as_str(), "\n```")
}

/// The field of a value behind a dot.
pub fn resolve_field_hover(
    source: &str,
    file: &str,
    type_map: &AssocMap<SpanKey, Type>,
    symbols: &Vec<SymbolDef>,
    line: usize,
    col: usize,
    field: &str,
) -> (r: Option<String>)
    ensures
        exists|t: Option<TypeView>| #[trigger]
            object_type(source@, file@, type_map@, line, col, t) && text_of(r) == field_hover(
                source@,
                file@,
                type_map@,
                symbols@,
                line,
                col,
                field@,
                t,
            ),
{
    let ghost none: Option<TypeView> = None;
    let l = match nth_line(source, line) {
        Some(l) => l,
        None => {
            assert(object_type(source@, file@, type_map@, line, col, none));
            return None;
        },
    };
    let (a, b): (usize, usize) = match find_object(&l, col) {
        Some(p) => p,
        None => {
            assert(object_type(source@, file@, type_map@, line, col, none));
            return None;
        },
    };
    let start: usize = offset_at(source, line, bytes_before(&l, a));
    let dot: usize = offset_at(source, line, bytes_before(&l, b));
    let c: usize = chars_before(&l, col);
    let e: usize = word_end(&l, c);
    let end: usize = offset_at(source, line, bytes_before(&l, e));
    let obj = find_obj_type(type_map, file, start, dot);
    let ghost t: Option<TypeView> = match obj {
        Some(ty) => Some(ty@),
        None => None,
    };
    assert(object_type(source@, file@, type_map@, line, col, t));
    if let Some(ty) = type_map.get(&SpanKey { file: owned(file), start, end }) {
        return Some(typed_field_card(field, ty));
    }
    if let Some(ty) = obj {
        if let Some(ft) = resolve_field_in_type(ty, field) {
            return Some(typed_field_card(field, &ft));
        }
    }
    if let Some(ty) = find_ending(type_map, file, dot) {
        if let Some(ft) = resolve_field_in_type(ty, field) {
            return Some(typed_field_card(field, &ft));
        }
    }
    if a < b {
        let name = string_of(&l, a, b);
        return match resolve_field_via_symbols(symbols, name.as_str(), field) {
            Some(ty) => Some(
                cat5("```wirescript\nfield ", field, ": ", ty.as_str(), "\n```"),
            ),
            None => None,
        };
    }
    None
}

// ---------- all together ----------

/// The first of two cards.
pub open spec fn either(a: Option<Seq<char>>, b: Option<Seq<char>>) -> Option<Seq<char>> {
    match a {
        Some(card) => Some(card),
        None => b,
    }
}

/// The card for a word, where `obj` is the type that is found for the object
/// before it. Earlier kinds of cards win.
pub open spec fn word_card(
    source: Seq<char>,
    file: Seq<char>,
    symbols: Seq<SymbolDef>,
    types: Types,
    comments: Map<usize, Seq<char>>,
    ifs: Map<(Seq<char>, usize), bool>,
    reads: Map<(Seq<char>, usize), bool>,
    estimates: Estimates,
    site: Site,
    catalog: Catalog,
    docs: Seq<(String, GateDoc)>,
    line: usize,
    col: usize,
    obj: Option<TypeView>,
    word: Seq<char>,
) -> Option<Seq<char>> {
    either(
        if_hover(source, file, word, ifs, estimates, line, col),
        either(
            param_hover(source, word, text_of(site.call), catalog, docs, line, col),
            either(
                method_hover(source, word, catalog, line, col),
                either(
                    event_hover(word, catalog),
                    either(
                        call_hover(source, word, catalog, docs, line, col),
                        either(
                            chip_hover(source, word, symbols, estimates, line),
                            either(
                                on_hover(source, word, estimates, line),
                                either(
                                    field_decl_hover(source, symbols, comments, word, line, col),
                                    either(
                                        member_hover(
                                            source,
                                            symbols,
                                            comments,
                                            estimates,
                                            word,
                                            line,
                                            col,
                                        ),
                                        either(
                                            field_hover(
                                                source,
                                                file,
                                                types,
                                                symbols,
                                                line,
                                                col,
                                                word,
                                                obj,
                                            ),
                                            symbol_hover(
                                                source,
                                                file,
                                                symbols,
                                                comments,
                                                reads,
                                                estimates,
                                                word,
                                                line,
                                                col,
                                            ),
                                        ),
                                    ),
                                ),
                            ),
                        ),
                    ),
                ),
            ),
        ),
    )
}

/// The card at the cursor: that of a `$` reference, else that of the word.
pub open spec fn hover_card(
    source: Seq<char>,
    file: Seq<char>,
    symbols: Seq<SymbolDef>,
    types: Types,
    comments: Map<usize, Seq<char>>,
    ifs: Map<(Seq<char>, usize), bool>,
    reads: Map<(Seq<char>, usize), bool>,
    estimates: Estimates,
    site: Site,
    catalog: Catalog,
    docs: Seq<(String, GateDoc)>,
    line: usize,
    col: usize,
    obj: Option<TypeView>,
) -> Option<Seq<char>> {
    either(
        reference_card(site),
        match site.word {
            Some(word) => word_card(
                source,
                file,
                symbols,
                types,
                comments,
                ifs,
                reads,
                estimates,
                site,
                catalog,
                docs,
                line,
                col,
                obj,
                word@,
            ),
            None => None,
        },
    )
}

/// The hover card at a place of a script.
pub fn hover_at(
    source: &str,
    file: &str,
    symbols: &Vec<SymbolDef>,
    type_map: &AssocMap<SpanKey, Type>,
    doc_comments: &AssocMap<usize, String>,
    if_contexts: &AssocMap<PosKey, bool>,
    var_read_contexts: &AssocMap<PosKey, bool>,
    resource_estimates: &Estimates,
    site: &Site,
    catalog: &Catalog,
    docs: &Vec<(String, GateDoc)>,
    line: usize,
    col: usize,
) -> (r: Option<String>)
    ensures
        exists|t: Option<TypeView>| #[trigger]
            object_type(source@, file@, type_map@, line, col, t) && text_of(r) == hover_card(
                source@,
                file@,
                symbols@,
                type_map@,
                doc_comments@,
                if_contexts@,
                var_read_contexts@,
                *resource_estimates,
                *site,
                *catalog,
                docs@,
                line,
                col,
                t,
            ),
{
    proof {
        some_type_is_found(source@, file@, type_map@, line, col);
    }
    let card = hover_asset_ref(site);
    if card.is_some() {
        return card;
    }
    let word = match &site.word {
        Some(w) => w.as_str(),
        None => return None,
    };
    let card = hover_if_keyword(source, file, word, if_contexts, resource_estimates, line, col);
    if card.is_some() {
        return card;
    }
    let card = hover_named_param(source, word, &site.call, catalog, docs, line, col);
    if card.is_some() {
        return card;
    }
    let card = hover_array_method(source, word, catalog, line, col);
    if card.is_some() {
        return card;
    }
    let card = hover_builtin_event(word, catalog);
    if card.is_some() {
        return card;
    }
    let card = hover_builtin_call(source, word, catalog, docs, line, col);
    if card.is_some() {
        return card;
    }
    let card = hover_chip_or_mod_keyword(source, word, symbols, resource_estimates, line);
    if card.is_some() {
        return card;
    }
    let card = hover_on_keyword(source, word, resource_estimates, line);
    if card.is_some() {
        return card;
    }
    let card = hover_record_or_type_field(source, symbols, doc_comments, word, line, col);
    if card.is_some() {
        return card;
    }
    let card = hover_namespace_member(
        source,
        symbols,
        doc_comments,
        resource_estimates,
        word,
        line,
        col,
    );
    if card.is_some() {
        return card;
    }
    let card = resolve_field_hover(source, file, type_map, symbols, line, col, word);
    if card.is_some() {
        return card;
    }
    hover_user_symbol(
        source,
        file,
        symbols,
        doc_comments,
        var_read_contexts,
        resource_estimates,
        word,
        line,
        col,
    )
}

} // verus!
