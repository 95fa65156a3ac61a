//! Requests of an editor beyond completion: diagnostics, references, going to
//! definitions, renaming, formatting and compiling.

use crate::analysis::hover::{spans_line, AssetRef};
use crate::analysis::server::{lsp_range, range_to_lsp, LspRange};
use crate::analysis::symbols::{find_symbol, symbol_named, SymbolDef};
use crate::analysis::text::{
    byte_len, bytes_before, clamp, last_break, line_of, lines, next_break, nth_line, rows,
    split_lines, word_begin, word_end,
};
use crate::analysis::web::{
    from_zero, is_shown_in, severity_name, severity_text, shown_in, TextRange,
};
use crate::catalog::Catalog;
use crate::diagnostic::{views, Diagnostic, DiagnosticView, Severity, SourceRange};
use crate::lexer::{is_keyword, keyword_set};
use crate::text::{cat2, cat3, chars_of, ends_with, ends_with_text, owned, str_eq};
use vstd::prelude::*;
use vstd::string::*;

verus! {

// ---------- diagnostics ----------

#[derive(Debug)]
pub struct ServerDiagnostic {
    pub range: LspRange,
    pub severity: Severity,
    pub code: String,
    pub message: String,
}

#[verifier::ext_equal]
pub struct ServerDiagnosticView {
    pub range: LspRange,
    pub severity: Severity,
    pub code: Seq<char>,
    pub message: Seq<char>,
}

impl View for ServerDiagnostic {
    type V = ServerDiagnosticView;

    open spec fn view(&self) -> ServerDiagnosticView {
        ServerDiagnosticView {
            range: self.range,
            severity: self.severity,
            code: self.code@,
            message: self.message@,
        }
    }
}

/// A `$` reference that names a file: where it stands, the path it leads to,
/// and whether there is a file.
#[derive(Debug)]
pub struct FoundRef {
    pub path: String,
    pub is_file: bool,
    pub line: usize,
    pub start_col: usize,
    pub end_col: usize,
    pub resolved: String,
    pub on_disk: bool,
}

pub open spec fn ref_range(r: FoundRef) -> LspRange {
    LspRange {
        start_line: r.line as u32,
        start_char: r.start_col as u32,
        end_line: r.line as u32,
        end_char: r.end_col as u32,
    }
}

fn range_of_ref(r: &FoundRef) -> (range: LspRange)
    ensures
        range == ref_range(*r),
{
    LspRange {
        start_line: r.line as u32,
        start_char: r.start_col as u32,
        end_line: r.line as u32,
        end_char: r.end_col as u32,
    }
}

/// What is wrong with a reference to a prefab file: a wrong extension, else a
/// missing file.
pub open spec fn ref_fault(r: FoundRef) -> Option<ServerDiagnosticView> {
    if !r.is_file {
        None
    } else if !ends_with_text(r.path@, ".brz"@) {
        Some(
            ServerDiagnosticView {
                range: ref_range(r),
                severity: Severity::Warning,
                code: "prefab-ext"@,
                message: "prefab reference `$"@ + r.path@ + "` must end in `.brz`"@,
            },
        )
    } else if !r.on_disk {
        Some(
            ServerDiagnosticView {
                range: ref_range(r),
                severity: Severity::Warning,
                code: "prefab-missing"@,
                message: "prefab file not found: "@ + r.resolved@,
            },
        )
    } else {
        None
    }
}

/// The faults of the first `n` references.
pub open spec fn ref_faults(refs: Seq<FoundRef>, n: nat) -> Seq<ServerDiagnosticView>
    decreases n,
{
    if n == 0 || n > refs.len() {
        Seq::empty()
    } else {
        let before = ref_faults(refs, (n - 1) as nat);
        match ref_fault(refs[n - 1]) {
            Some(d) => before.push(d),
            None => before,
        }
    }
}

/// LSP diagnostics for prefab file references that don't resolve: a missing
/// `.brz` on disk, or a ref without the required `.brz` extension.
pub fn prefab_ref_diagnostics(refs: &Vec<FoundRef>) -> (r: Vec<ServerDiagnostic>)
    ensures
        views(r@) == ref_faults(refs@, refs@.len()),
{
    let mut out: Vec<ServerDiagnostic> = Vec::new();
    let mut i: usize = 0;
    assert(views(out@) =~= Seq::empty());
    while i < refs.len()
        invariant
            i <= refs@.len(),
            views(out@) == ref_faults(refs@, i as nat),
        decreases refs@.len() - i,
    {
        let f = &refs[i];
        let ghost before = out@;
        if f.is_file {
            if !ends_with(f.path.as_str(), ".brz") {
                let d = ServerDiagnostic {
                    range: range_of_ref(f),
                    severity: Severity::Warning,
                    code: owned("prefab-ext"),
                    message: cat3("prefab reference `$", f.path.as_str(), "` must end in `.brz`"),
                };
                out.push(d);
                assert(views(out@) =~= views(before).push(d@));
            } else if !f.on_disk {
                let d = ServerDiagnostic {
                    range: range_of_ref(f),
                    severity: Severity::Warning,
                    code: owned("prefab-missing"),
                    message: cat2("prefab file not found: ", f.resolved.as_str()),
                };
                out.push(d);
                assert(views(out@) =~= views(before).push(d@));
            }
        }
        i += 1;
    }
    out
}

/// Where the references to files that exist lead, among the first `n`.
pub open spec fn links_of(refs: Seq<FoundRef>, n: nat) -> Seq<(LspRange, Seq<char>)>
    decreases n,
{
    if n == 0 || n > refs.len() {
        Seq::empty()
    } else {
        let before = links_of(refs, (n - 1) as nat);
        let f = refs[n - 1];
        if f.is_file && f.on_disk {
            before.push((ref_range(f), f.resolved@))
        } else {
            before
        }
    }
}

pub open spec fn link_views(v: Seq<(LspRange, String)>) -> Seq<(LspRange, Seq<char>)> {
    Seq::new(v.len(), |i: int| (v[i].0, v[i].1@))
}

/// Clickable links for prefab file references that exist on disk.
pub fn document_links(refs: &Vec<FoundRef>) -> (r: Vec<(LspRange, String)>)
    ensures
        link_views(r@) == links_of(refs@, refs@.len()),
{
    let mut out: Vec<(LspRange, String)> = Vec::new();
    let mut i: usize = 0;
    assert(link_views(out@) =~= Seq::empty());
    while i < refs.len()
        invariant
            i <= refs@.len(),
            link_views(out@) == links_of(refs@, i as nat),
        decreases refs@.len() - i,
    {
        let f = &refs[i];
        if f.is_file && f.on_disk {
            let ghost before = out@;
            out.push((range_of_ref(f), f.resolved.clone()));
            assert(link_views(out@) =~= link_views(before).push((ref_range(*f), f.resolved@)));
        }
        i += 1;
    }
    out
}

pub open spec fn server_diagnostic(d: DiagnosticView) -> ServerDiagnosticView {
    ServerDiagnosticView {
        range: lsp_range(d.range.start, d.range.end),
        severity: d.severity,
        code: d.code,
        message: d.message,
    }
}

/// The diagnostics of a file among the first `n`.
pub open spec fn server_diagnostics(ds: Seq<DiagnosticView>, file: Seq<char>, n: nat) -> Seq<
    ServerDiagnosticView,
>
    decreases n,
{
    if n == 0 || n > ds.len() {
        Seq::empty()
    } else {
        let before = server_diagnostics(ds, file, (n - 1) as nat);
        if shown_in(ds[n - 1], file) {
            before.push(server_diagnostic(ds[n - 1]))
        } else {
            before
        }
    }
}

fn push_shown(out: &mut Vec<ServerDiagnostic>, ds: &Vec<Diagnostic>, file: &str)
    ensures
        views(final(out)@) == views(old(out)@) + server_diagnostics(views(ds@), file@, ds@.len()),
{
    let ghost head = views(out@);
    let mut i: usize = 0;
    assert(head + Seq::<ServerDiagnosticView>::empty() =~= head);
    while i < ds.len()
        invariant
            i <= ds@.len(),
            views(out@) == head + server_diagnostics(views(ds@), file@, i as nat),
        decreases ds@.len() - i,
    {
        let d = &ds[i];
        assert(views(ds@)[i as int] == d@);
        if is_shown_in(d, file) {
            let ghost before = out@;
            let x = ServerDiagnostic {
                range: range_to_lsp(&d.range),
                severity: d.severity,
                code: d.code.clone(),
                message: d.message.clone(),
            };
            out.push(x);
            assert(views(out@) =~= views(before).push(x@));
            assert(views(out@) =~= head + server_diagnostics(views(ds@), file@, (i + 1) as nat));
        }
        i += 1;
    }
}

/// All diagnostics of a document: those of its imports, of its types, and of
/// its prefab references.
pub fn analyze(
    resolved: &Vec<Diagnostic>,
    checked: &Vec<Diagnostic>,
    refs: &Vec<FoundRef>,
    file: &str,
) -> (r: Vec<ServerDiagnostic>)
    ensures
        views(r@) == server_diagnostics(views(resolved@), file@, resolved@.len())
            + server_diagnostics(views(checked@), file@, checked@.len()) + ref_faults(
            refs@,
            refs@.len(),
        ),
{
    let mut out: Vec<ServerDiagnostic> = Vec::new();
    assert(views(out@) =~= Seq::empty());
    push_shown(&mut out, resolved, file);
    assert(views(out@) =~= server_diagnostics(views(resolved@), file@, resolved@.len()));
    push_shown(&mut out, checked, file);
    let ghost front = out@;
    let mut faults = prefab_ref_diagnostics(refs);
    let ghost back = faults@;
    out.append(&mut faults);
    assert(views(out@) =~= views(front) + views(back));
    out
}

// ---------- references ----------

/// Whether a text comes before another one, character by character.
pub open spec fn text_before(a: Seq<char>, b: Seq<char>) -> bool
    decreases a.len(),
{
    if b.len() == 0 {
        false
    } else if a.len() == 0 {
        true
    } else if a[0] != b[0] {
        a[0] < b[0]
    } else {
        text_before(a.drop_first(), b.drop_first())
    }
}

proof fn lemma_text_irreflexive(a: Seq<char>)
    ensures
        !text_before(a, a),
    decreases a.len(),
{
    if a.len() > 0 {
        lemma_text_irreflexive(a.drop_first());
    }
}

proof fn lemma_text_total(a: Seq<char>, b: Seq<char>)
    ensures
        a == b || text_before(a, b) || text_before(b, a),
    decreases a.len(),
{
    if a.len() > 0 && b.len() > 0 && a[0] == b[0] {
        lemma_text_total(a.drop_first(), b.drop_first());
        if a.drop_first() == b.drop_first() {
            assert(a =~= seq![a[0]] + a.drop_first());
            assert(b =~= seq![b[0]] + b.drop_first());
        }
    } else if a.len() == 0 && b.len() == 0 {
        assert(a =~= b);
    }
}

proof fn lemma_text_transitive(a: Seq<char>, b: Seq<char>, c: Seq<char>)
    requires
        text_before(a, b),
        text_before(b, c),
    ensures
        text_before(a, c),
    decreases a.len(),
{
    if a.len() > 0 && b.len() > 0 && c.len() > 0 && a[0] == b[0] && b[0] == c[0] {
        lemma_text_transitive(a.drop_first(), b.drop_first(), c.drop_first());
    }
}

fn comes_before(a: &str, b: &str) -> (r: bool)
    ensures
        r == text_before(a@, b@),
{
    let x = chars_of(a);
    let y = chars_of(b);
    let mut i: usize = 0;
    assert(x@.skip(0) =~= x@);
    assert(y@.skip(0) =~= y@);
    while i < x.len() && i < y.len()
        invariant
            i <= x@.len(),
            i <= y@.len(),
            text_before(a@, b@) == text_before(x@.skip(i as int), y@.skip(i as int)),
        decreases x@.len() - i,
    {
        assert(x@.skip(i as int).drop_first() =~= x@.skip(i + 1));
        assert(y@.skip(i as int).drop_first() =~= y@.skip(i + 1));
        if x[i] != y[i] {
            return x[i] < y[i];
        }
        i += 1;
    }
    i < y.len()
}

/// A reference: the document it stands in and the stretch it covers.
pub type Reference = (Seq<char>, TextRange);

/// The order in which references are listed: by document, then by place.
pub open spec fn listed_before(a: Reference, b: Reference) -> bool {
    if a.0 != b.0 {
        text_before(a.0, b.0)
    } else if a.1.start_line != b.1.start_line {
        a.1.start_line < b.1.start_line
    } else if a.1.start_col != b.1.start_col {
        a.1.start_col < b.1.start_col
    } else if a.1.end_line != b.1.end_line {
        a.1.end_line < b.1.end_line
    } else {
        a.1.end_col < b.1.end_col
    }
}

proof fn lemma_listed_transitive(a: Reference, b: Reference, c: Reference)
    requires
        listed_before(a, b),
        listed_before(b, c),
    ensures
        listed_before(a, c),
{
    lemma_text_irreflexive(a.0);
    if text_before(a.0, b.0) && text_before(b.0, c.0) {
        lemma_text_transitive(a.0, b.0, c.0);
    }
}

pub open spec fn reference_views(v: Seq<(String, TextRange)>) -> Seq<Reference> {
    Seq::new(v.len(), |i: int| (v[i].0@, v[i].1))
}

/// Whether references are listed in order, each once.
pub open spec fn in_order(v: Seq<Reference>) -> bool {
    forall|i: int, j: int| 0 <= i < j < v.len() ==> listed_before(#[trigger] v[i], #[trigger] v[j])
}

/// How two references are listed: -1 for before, 0 for the same, 1 for after.
fn order_of(a: &(String, TextRange), b: &(String, TextRange)) -> (r: i8)
    ensures
        r == -1 <==> listed_before((a.0@, a.1), (b.0@, b.1)),
        r == 0 <==> (a.0@, a.1) == (b.0@, b.1),
        r == 1 <==> listed_before((b.0@, b.1), (a.0@, a.1)),
        -1 <= r <= 1,
{
    proof {
        lemma_text_total(a.0@, b.0@);
        lemma_text_irreflexive(a.0@);
        if text_before(a.0@, b.0@) && text_before(b.0@, a.0@) {
            lemma_text_transitive(a.0@, b.0@, a.0@);
        }
    }
    if comes_before(a.0.as_str(), b.0.as_str()) {
        return -1;
    }
    if comes_before(b.0.as_str(), a.0.as_str()) {
        return 1;
    }
    let (x, y) = (a.1, b.1);
    if x.start_line != y.start_line {
        return if x.start_line < y.start_line {
            -1
        } else {
            1
        };
    }
    if x.start_col != y.start_col {
        return if x.start_col < y.start_col {
            -1
        } else {
            1
        };
    }
    if x.end_line != y.end_line {
        return if x.end_line < y.end_line {
            -1
        } else {
            1
        };
    }
    if x.end_col != y.end_col {
        return if x.end_col < y.end_col {
            -1
        } else {
            1
        };
    }
    0
}

/// Puts a reference in its place, unless it is there already.
fn place(out: &mut Vec<(String, TextRange)>, x: (String, TextRange))
    requires
        in_order(reference_views(old(out)@)),
    ensures
        in_order(reference_views(final(out)@)),
        forall|y: Reference|
            #![trigger reference_views(final(out)@).contains(y)]
            reference_views(final(out)@).contains(y) <==> (reference_views(old(out)@).contains(y)
                || y == (x.0@, x.1)),
{
    let ghost v = reference_views(out@);
    let ghost key: Reference = (x.0@, x.1);
    let mut i: usize = 0;
    while i < out.len()
        invariant
            i <= out@.len(),
            v == reference_views(out@),
            in_order(v),
            key == (x.0@, x.1),
            out@ == old(out)@,
            forall|k: int| 0 <= k < i ==> listed_before(#[trigger] v[k], key),
        decreases out@.len() - i,
    {
        let o = order_of(&out[i], &x);
        assert(v[i as int] == (out@[i as int].0@, out@[i as int].1));
        if o == 0 {
            assert(v[i as int] == key);
            assert(v.contains(key));
            return;
        }
        if o == 1 {
            out.insert(i, x);
            let ghost w = reference_views(out@);
            assert(w =~= v.insert(i as int, key));
            proof {
                assert forall|a: int, b: int| 0 <= a < b < w.len() implies listed_before(
                    #[trigger] w[a],
                    #[trigger] w[b],
                ) by {
                    let p = if a < i { a } else { a - 1 };
                    let q = if b < i { b } else { b - 1 };
                    if a == i {
                        if b > i + 1 {
                            lemma_listed_transitive(key, v[i as int], v[q]);
                        }
                    } else if b == i {
                        assert(listed_before(v[p], key));
                    } else {
                        assert(listed_before(v[p], v[q]));
                    }
                }
                lemma_insert_contains(v, i as int, key);
            }
            return;
        }
        i += 1;
    }
    out.push(x);
    let ghost w = reference_views(out@);
    assert(w =~= v.push(key));
    proof {
        assert(v.push(key) =~= v.insert(v.len() as int, key));
        lemma_insert_contains(v, v.len() as int, key);
    }
}

proof fn lemma_insert_contains(v: Seq<Reference>, i: int, key: Reference)
    requires
        0 <= i <= v.len(),
    ensures
        forall|y: Reference|
            #![trigger v.insert(i, key).contains(y)]
            v.insert(i, key).contains(y) <==> (v.contains(y) || y == key),
{
    let w = v.insert(i, key);
    assert forall|y: Reference|
        #![trigger w.contains(y)]
        w.contains(y) <==> (v.contains(y) || y == key) by {
        if w.contains(y) {
            let k = choose|k: int| 0 <= k < w.len() && w[k] == y;
            if k < i {
                assert(v[k] == y);
            } else if k > i {
                assert(v[k - 1] == y);
            }
        }
        if v.contains(y) {
            let k = choose|k: int| 0 <= k < v.len() && v[k] == y;
            if k < i {
                assert(w[k] == y);
            } else {
                assert(w[k + 1] == y);
            }
        }
        if y == key {
            assert(w[i] == y);
        }
    }
}

/// References in order and each once, so that no place is edited twice.
pub fn sorted_references(found: Vec<(String, TextRange)>) -> (r: Vec<(String, TextRange)>)
    ensures
        in_order(reference_views(r@)),
        forall|y: Reference|
            #![trigger reference_views(r@).contains(y)]
            reference_views(r@).contains(y) <==> reference_views(found@).contains(y),
{
    let mut out: Vec<(String, TextRange)> = Vec::new();
    let ghost all = reference_views(found@);
    let mut i: usize = 0;
    assert(all.take(0) =~= Seq::empty());
    while i < found.len()
        invariant
            i <= found@.len(),
            all == reference_views(found@),
            in_order(reference_views(out@)),
            forall|y: Reference|
                #![trigger reference_views(out@).contains(y)]
                reference_views(out@).contains(y) <==> all.take(i as int).contains(y),
        decreases found@.len() - i,
    {
        let x = (found[i].0.clone(), found[i].1);
        let ghost key: Reference = (x.0@, x.1);
        let ghost before = reference_views(out@);
        assert(all[i as int] == key);
        place(&mut out, x);
        proof {
            assert(all.take(i + 1) =~= all.take(i as int).insert(i as int, key));
            lemma_insert_contains(all.take(i as int), i as int, key);
            assert forall|y: Reference|
                #![trigger reference_views(out@).contains(y)]
                reference_views(out@).contains(y) <==> all.take(i + 1).contains(y) by {
                assert(before.contains(y) <==> all.take(i as int).contains(y));
            }
        }
        i += 1;
    }
    assert(all.take(i as int) =~= all);
    out
}

/// Lists of references in order with the same members are the same.
pub proof fn order_is_unique(a: Seq<Reference>, b: Seq<Reference>)
    requires
        in_order(a),
        in_order(b),
        forall|y: Reference| a.contains(y) <==> b.contains(y),
    ensures
        a == b,
    decreases a.len(),
{
    if a.len() == 0 {
        if b.len() > 0 {
            assert(b.contains(b[0]));
        }
        assert(a =~= b);
    } else if b.len() == 0 {
        assert(a.contains(a[0]));
    } else {
        let (x, y) = (a.last(), b.last());
        assert(a.contains(x) && b.contains(y));
        if x != y {
            let i = choose|i: int| 0 <= i < b.len() && b[i] == x;
            let j = choose|j: int| 0 <= j < a.len() && a[j] == y;
            assert(listed_before(b[i], b[b.len() - 1]));
            assert(listed_before(a[j], a[a.len() - 1]));
            lemma_listed_transitive(x, y, x);
            lemma_text_irreflexive(x.0);
        }
        assert forall|z: Reference| a.drop_last().contains(z) <==> b.drop_last().contains(z) by {
            lemma_last_once(a, z);
            lemma_last_once(b, z);
        }
        assert(in_order(a.drop_last()));
        assert(in_order(b.drop_last()));
        order_is_unique(a.drop_last(), b.drop_last());
        assert(a =~= a.drop_last().push(x));
        assert(b =~= b.drop_last().push(y));
    }
}

proof fn lemma_last_once(a: Seq<Reference>, z: Reference)
    requires
        in_order(a),
        a.len() > 0,
    ensures
        a.drop_last().contains(z) <==> (a.contains(z) && z != a.last()),
{
    if a.drop_last().contains(z) {
        let i = choose|i: int| 0 <= i < a.drop_last().len() && a.drop_last()[i] == z;
        assert(a[i] == z);
        assert(listed_before(a[i], a[a.len() - 1]));
        lemma_text_irreflexive(z.0);
    }
    if a.contains(z) && z != a.last() {
        let i = choose|i: int| 0 <= i < a.len() && a[i] == z;
        assert(a.drop_last()[i] == z);
    }
}

// ---------- searching for references ----------

/// Whether a path is among some paths.
pub open spec fn among(paths: Seq<String>, path: Seq<char>) -> bool {
    exists|i: int| 0 <= i < paths.len() && #[trigger] paths[i]@ == path
}

fn is_among(paths: &Vec<String>, path: &str) -> (r: bool)
    ensures
        r == among(paths@, path@),
{
    let mut i: usize = 0;
    while i < paths.len()
        invariant
            i <= paths@.len(),
            forall|k: int| 0 <= k < i ==> (#[trigger] paths@[k])@ != path@,
        decreases paths.len() - i,
    {
        if str_eq(paths[i].as_str(), path) {
            return true;
        }
        i += 1;
    }
    false
}

/// The places of the scripts that are to be searched on disk, where each script
/// is given by its address and its canonical path, and `open` holds the
/// canonical paths of the open documents. Addresses do not decide: an editor
/// may spell that of an open document in more than one way.
pub fn scripts_to_search(beside: &Vec<(String, String)>, open: &Vec<String>) -> (r: Vec<usize>)
    ensures
        forall|i: int, j: int| 0 <= i < j < r@.len() ==> r@[i] < r@[j],
        forall|k: usize| #[trigger]
            r@.contains(k) <==> k < beside@.len() && !among(open@, beside@[k as int].1@),
{
    let mut out: Vec<usize> = Vec::new();
    let mut i: usize = 0;
    while i < beside.len()
        invariant
            i <= beside@.len(),
            forall|a: int, b: int| 0 <= a < b < out@.len() ==> out@[a] < out@[b],
            forall|k: usize| #[trigger]
                out@.contains(k) <==> k < i && !among(open@, beside@[k as int].1@),
        decreases beside.len() - i,
    {
        let ghost before = out@;
        if !is_among(open, beside[i].1.as_str()) {
            out.push(i);
            assert forall|k: usize| #[trigger] out@.contains(k) <==> before.contains(k) || k == i by {
                if before.contains(k) {
                    let a = choose|a: int| 0 <= a < before.len() && before[a] == k;
                    assert(out@[a] == k);
                }
                if k == i {
                    assert(out@[before.len() as int] == k);
                }
            }
            assert forall|a: int, b: int| 0 <= a < b < out@.len() implies out@[a] < out@[b] by {
                assert(before.contains(before[a]));
            }
        }
        i += 1;
    }
    out
}

/// A document in which a word was searched: its address, its canonical path if
/// it is a file, and where the word stands in it.
#[derive(Debug)]
pub struct Searched {
    pub uri: String,
    pub path: Option<String>,
    pub places: Vec<TextRange>,
}

impl Searched {
    pub open spec fn holds(self, y: Reference) -> bool {
        self.uri@ == y.0 && self.places@.contains(y.1)
    }

    pub open spec fn is_at(self, path: Seq<char>) -> bool {
        self.path matches Some(p) && p@ == path
    }
}

/// Whether one of the first `n` documents holds a reference.
pub open spec fn held_by_one(docs: Seq<Searched>, n: int, y: Reference) -> bool {
    exists|i: int| 0 <= i < n && i < docs.len() && #[trigger] docs[i].holds(y)
}

/// Whether a document is open, by its path.
pub open spec fn is_open(open: Seq<Searched>, d: Searched) -> bool {
    d.path matches Some(p) && exists|i: int|
        0 <= i < open.len() && #[trigger] open[i].is_at(p@)
}

/// Whether a reference is to be listed: it stands in an open document, or in a
/// script beside them that is not open.
pub open spec fn found_across(open: Seq<Searched>, beside: Seq<Searched>, y: Reference) -> bool {
    held_by_one(open, open.len() as int, y) || exists|i: int|
        0 <= i < beside.len() && !is_open(open, beside[i]) && #[trigger] beside[i].holds(y)
}

fn add_places(found: &mut Vec<(String, TextRange)>, d: &Searched)
    ensures
        forall|y: Reference|
            #![trigger reference_views(final(found)@).contains(y)]
            reference_views(final(found)@).contains(y) <==> (reference_views(
                old(found)@,
            ).contains(y) || d.holds(y)),
{
    let ghost first = reference_views(found@);
    let mut i: usize = 0;
    while i < d.places.len()
        invariant
            i <= d.places@.len(),
            forall|y: Reference|
                #![trigger reference_views(found@).contains(y)]
                reference_views(found@).contains(y) <==> (first.contains(y) || (d.uri@ == y.0
                    && d.places@.take(i as int).contains(y.1))),
        decreases d.places.len() - i,
    {
        let ghost before = reference_views(found@);
        let ghost key: Reference = (d.uri@, d.places@[i as int]);
        let ghost seen = d.places@.take(i as int);
        found.push((d.uri.clone(), d.places[i]));
        proof {
            let after = reference_views(found@);
            assert(after =~= before.insert(before.len() as int, key));
            lemma_insert_contains(before, before.len() as int, key);
            let next = d.places@.take(i + 1);
            assert(next =~= seen.push(d.places@[i as int]));
            assert forall|y: Reference|
                #![trigger after.contains(y)]
                after.contains(y) <==> (first.contains(y) || (d.uri@ == y.0 && next.contains(
                    y.1,
                ))) by {
                assert(before.contains(y) <==> (first.contains(y) || (d.uri@ == y.0
                    && seen.contains(y.1))));
                lemma_push_contains(seen, d.places@[i as int], y.1);
            }
        }
        i += 1;
    }
    assert(d.places@.take(i as int) =~= d.places@);
}

proof fn lemma_push_contains(v: Seq<TextRange>, x: TextRange, y: TextRange)
    ensures
        v.push(x).contains(y) <==> (v.contains(y) || x == y),
{
    if v.contains(y) {
        let i = choose|i: int| 0 <= i < v.len() && v[i] == y;
        assert(v.push(x)[i] == y);
    }
    if x == y {
        assert(v.push(x)[v.len() as int] == y);
    }
}

fn open_paths(open: &Vec<Searched>) -> (r: Vec<String>)
    ensures
        forall|p: Seq<char>| #[trigger]
            among(r@, p) <==> exists|i: int| 0 <= i < open@.len() && #[trigger] open@[i].is_at(p),
{
    let mut out: Vec<String> = Vec::new();
    let mut i: usize = 0;
    while i < open.len()
        invariant
            i <= open@.len(),
            forall|p: Seq<char>| #[trigger]
                among(out@, p) <==> exists|k: int| 0 <= k < i && #[trigger] open@[k].is_at(p),
        decreases open.len() - i,
    {
        let ghost before = out@;
        if let Some(path) = &open[i].path {
            out.push(path.clone());
            assert forall|p: Seq<char>| #[trigger] among(out@, p) <==> (among(before, p) || p
                == path@) by {
                if among(before, p) {
                    let k = choose|k: int| 0 <= k < before.len() && #[trigger] before[k]@ == p;
                    assert(out@[k]@ == p);
                }
                if p == path@ {
                    assert(out@[before.len() as int]@ == p);
                }
                if among(out@, p) {
                    let k = choose|k: int| 0 <= k < out@.len() && #[trigger] out@[k]@ == p;
                    if k < before.len() {
                        assert(before[k]@ == p);
                    }
                }
            }
        }
        i += 1;
        assert forall|p: Seq<char>| #[trigger] among(out@, p) <==> exists|k: int|
            0 <= k < i && #[trigger] open@[k].is_at(p) by {
            assert(among(before, p) <==> exists|k: int|
                0 <= k < i - 1 && #[trigger] open@[k].is_at(p));
            if open@[i - 1].is_at(p) {
                assert(among(out@, p));
            }
        }
    }
    out
}

/// The references of a word in the open documents and in the scripts beside
/// them, in order and each once.
pub fn collect_references_across_files(open: &Vec<Searched>, beside: &Vec<Searched>) -> (r: Vec<
    (String, TextRange),
>)
    ensures
        in_order(reference_views(r@)),
        forall|y: Reference|
            #![trigger reference_views(r@).contains(y)]
            reference_views(r@).contains(y) <==> found_across(open@, beside@, y),
{
    let mut found: Vec<(String, TextRange)> = Vec::new();
    let mut i: usize = 0;
    while i < open.len()
        invariant
            i <= open@.len(),
            forall|y: Reference|
                #![trigger reference_views(found@).contains(y)]
                reference_views(found@).contains(y) <==> held_by_one(open@, i as int, y),
        decreases open.len() - i,
    {
        let ghost before = reference_views(found@);
        add_places(&mut found, &open[i]);
        i += 1;
        assert forall|y: Reference|
            #![trigger reference_views(found@).contains(y)]
            reference_views(found@).contains(y) <==> held_by_one(open@, i as int, y) by {
            assert(before.contains(y) <==> held_by_one(open@, i - 1, y));
            if open@[i - 1].holds(y) {
                assert(held_by_one(open@, i as int, y));
            }
        }
    }
    let paths = open_paths(open);
    let mut j: usize = 0;
    while j < beside.len()
        invariant
            j <= beside@.len(),
            forall|p: Seq<char>| #[trigger]
                among(paths@, p) <==> exists|i: int|
                    0 <= i < open@.len() && #[trigger] open@[i].is_at(p),
            forall|y: Reference|
                #![trigger reference_views(found@).contains(y)]
                reference_views(found@).contains(y) <==> found_across(
                    open@,
                    beside@.take(j as int),
                    y,
                ),
        decreases beside.len() - j,
    {
        let ghost before = reference_views(found@);
        let d = &beside[j];
        let skip = match &d.path {
            Some(p) => is_among(&paths, p.as_str()),
            None => false,
        };
        assert(skip == is_open(open@, *d));
        if !skip {
            add_places(&mut found, d);
        }
        j += 1;
        proof {
            let seen = beside@.take(j - 1);
            let next = beside@.take(j as int);
            assert(next =~= seen.push(*d));
            assert forall|y: Reference|
                #![trigger reference_views(found@).contains(y)]
                reference_views(found@).contains(y) <==> found_across(open@, next, y) by {
                assert(before.contains(y) <==> found_across(open@, seen, y));
                lemma_one_more(open@, seen, *d, y);
            }
        }
    }
    assert(beside@.take(j as int) =~= beside@);
    sorted_references(found)
}

proof fn lemma_one_more(open: Seq<Searched>, beside: Seq<Searched>, d: Searched, y: Reference)
    ensures
        found_across(open, beside.push(d), y) <==> (found_across(open, beside, y) || (!is_open(
            open,
            d,
        ) && d.holds(y))),
{
    let all = beside.push(d);
    if found_across(open, beside, y) && !held_by_one(open, open.len() as int, y) {
        let i = choose|i: int|
            0 <= i < beside.len() && !is_open(open, beside[i]) && #[trigger] beside[i].holds(y);
        assert(all[i].holds(y));
    }
    if !is_open(open, d) && d.holds(y) {
        assert(all[beside.len() as int].holds(y));
    }
    if found_across(open, all, y) && !held_by_one(open, open.len() as int, y) {
        let i = choose|i: int|
            0 <= i < all.len() && !is_open(open, all[i]) && #[trigger] all[i].holds(y);
        if i < beside.len() {
            assert(beside[i].holds(y));
        }
    }
}

/// A script that is open under another spelling of its address is reported
/// under the address of the open document alone.
pub proof fn open_scripts_go_by_one_address(
    open: Seq<Searched>,
    beside: Seq<Searched>,
    uri: Seq<char>,
    y: Reference,
)
    requires
        forall|i: int| 0 <= i < open.len() ==> (#[trigger] open[i]).uri@ != uri,
        forall|i: int|
            0 <= i < beside.len() && (#[trigger] beside[i]).uri@ == uri ==> is_open(open, beside[i]),
        y.0 == uri,
    ensures
        !found_across(open, beside, y),
{
}

// ---------- going to definitions ----------

/// Whether a line lies within the declaration of a type.
pub open spec fn in_type(symbols: Seq<SymbolDef>, line: usize) -> bool {
    exists|i: int|
        0 <= i < symbols.len() && (#[trigger] symbols[i]).kind@ == "type"@ && spans_line(
            symbols[i],
            line,
        )
}

pub fn in_type_def(symbols: &Vec<SymbolDef>, line: usize) -> (r: bool)
    ensures
        r == in_type(symbols@, line),
{
    let mut i: usize = 0;
    while i < symbols.len()
        invariant
            i <= symbols@.len(),
            forall|k: int|
                0 <= k < i ==> !((#[trigger] symbols@[k]).kind@ == "type"@ && spans_line(
                    symbols@[k],
                    line,
                )),
        decreases symbols@.len() - i,
    {
        let s = &symbols[i];
        if str_eq(s.kind.as_str(), "type") && s.range.start.line.saturating_sub(1) <= line
            && s.range.end.line.saturating_sub(1) >= line {
            assert(symbols@[i as int].kind@ == "type"@ && spans_line(symbols@[i as int], line));
            return true;
        }
        i += 1;
    }
    false
}

/// What to do when asked for a definition.
#[derive(Debug)]
pub enum GotoPlan {
    /// There is nowhere to go.
    Nothing,
    /// Open the file that a prefab reference leads to, if there is one.
    OpenPrefab(String),
    /// List the references of a field, or else go to the definition.
    ListReferences(String),
    /// Go to the definition.
    FindDefinition,
}

pub enum GotoView {
    Nothing,
    OpenPrefab(Seq<char>),
    ListReferences(Seq<char>),
    FindDefinition,
}

impl View for GotoPlan {
    type V = GotoView;

    open spec fn view(&self) -> GotoView {
        match self {
            GotoPlan::Nothing => GotoView::Nothing,
            GotoPlan::OpenPrefab(p) => GotoView::OpenPrefab(p@),
            GotoPlan::ListReferences(w) => GotoView::ListReferences(w@),
            GotoPlan::FindDefinition => GotoView::FindDefinition,
        }
    }
}

pub open spec fn goto_view(
    asset: Option<AssetRef>,
    word: Option<String>,
    symbols: Seq<SymbolDef>,
    line: usize,
) -> GotoView {
    match asset {
        Some(a) => if a.is_file {
            GotoView::OpenPrefab(a.path@)
        } else {
            GotoView::Nothing
        },
        None => match word {
            Some(w) => if in_type(symbols, line) {
                GotoView::ListReferences(w@)
            } else {
                GotoView::FindDefinition
            },
            None => GotoView::FindDefinition,
        },
    }
}

pub fn goto_definition(
    asset: &Option<AssetRef>,
    word: &Option<String>,
    symbols: &Vec<SymbolDef>,
    line: usize,
) -> (r: GotoPlan)
    ensures
        r@ == goto_view(*asset, *word, symbols@, line),
{
    if let Some(a) = asset {
        return if a.is_file {
            GotoPlan::OpenPrefab(a.path.clone())
        } else {
            GotoPlan::Nothing
        };
    }
    match word {
        Some(w) => {
            if in_type_def(symbols, line) {
                return GotoPlan::ListReferences(w.clone());
            }
            GotoPlan::FindDefinition
        },
        None => GotoPlan::FindDefinition,
    }
}

// ---------- renaming ----------

/// What to do when asked to rename.
#[derive(Debug)]
pub enum RenamePlan {
    /// The name cannot be changed.
    Refuse,
    /// The word itself, between two byte columns of its line.
    Word(u32, u32),
    /// The name within a declaration.
    Symbol(SourceRange),
}

/// The byte columns of the word around a place that counts characters.
pub open spec fn word_columns(source: Seq<char>, line: usize, col: usize) -> (u32, u32) {
    match line_of(source, line) {
        Some(l) => {
            let c = if col < l.len() {
                col as int
            } else {
                l.len() as int
            };
            let start = clamp(byte_len(l.take(last_break(l.take(c)) + 1)));
            (start as u32, clamp(byte_len(l.take(next_break(l, c)))) as u32)
        },
        None => (0, 0),
    }
}

pub fn word_range(source: &str, line: usize, col: usize) -> (r: (u32, u32))
    ensures
        r == word_columns(source@, line, col),
{
    let l = match nth_line(source, line) {
        Some(l) => l,
        None => return (0, 0),
    };
    let c: usize = if col < l.len() {
        col
    } else {
        l.len()
    };
    let b: usize = word_begin(&l, c);
    let start: usize = bytes_before(&l, b);
    let e: usize = word_end(&l, c);
    (start as u32, bytes_before(&l, e) as u32)
}

/// Whether a name is part of the language.
pub open spec fn built_in(catalog: Catalog, word: Seq<char>) -> bool {
    catalog.call(word) is Some || is_keyword(word) || catalog.event(word) is Some
}

/// Whether `plan` is what to do when asked to rename: built-in names are
/// refused; inside a type the word is taken; a symbol is taken by its
/// declaration, any other word as it stands.
pub open spec fn rename_fits(
    plan: RenamePlan,
    word: Option<String>,
    source: Seq<char>,
    symbols: Seq<SymbolDef>,
    catalog: Catalog,
    line: usize,
    col: usize,
) -> bool {
    match word {
        None => plan is Refuse,
        Some(w) => if built_in(catalog, w@) {
            plan is Refuse
        } else if in_type(symbols, line) {
            plan == RenamePlan::Word(
                word_columns(source, line, col).0,
                word_columns(source, line, col).1,
            )
        } else {
            match symbol_named(symbols, w@) {
                Some(s) => plan == RenamePlan::Symbol(s.range),
                None => plan == RenamePlan::Word(
                    word_columns(source, line, col).0,
                    word_columns(source, line, col).1,
                ),
            }
        },
    }
}

pub fn prepare_rename(
    word: &Option<String>,
    source: &str,
    symbols: &Vec<SymbolDef>,
    catalog: &Catalog,
    line: usize,
    col: usize,
) -> (r: RenamePlan)
    ensures
        rename_fits(r, *word, source@, symbols@, *catalog, line, col),
{
    let w = match word {
        Some(w) => w.as_str(),
        None => return RenamePlan::Refuse,
    };
    if catalog.find_call(w).is_some() || keyword_set().contains(w) || catalog.find_event(
        w,
    ).is_some() {
        return RenamePlan::Refuse;
    }
    if in_type_def(symbols, line) {
        let (start, end): (u32, u32) = word_range(source, line, col);
        return RenamePlan::Word(start, end);
    }
    match find_symbol(symbols, w) {
        Some(s) => RenamePlan::Symbol(s.range.clone()),
        None => {
            let (start, end): (u32, u32) = word_range(source, line, col);
            RenamePlan::Word(start, end)
        },
    }
}

/// An edit of a document.
#[derive(Debug)]
pub struct RenameEdit {
    pub range: LspRange,
    pub new_text: String,
}

#[verifier::ext_equal]
pub struct RenameEditView {
    pub range: LspRange,
    pub new_text: Seq<char>,
}

impl View for RenameEdit {
    type V = RenameEditView;

    open spec fn view(&self) -> RenameEditView {
        RenameEditView { range: self.range, new_text: self.new_text@ }
    }
}

/// The edits of a document.
#[derive(Debug)]
pub struct DocumentEdits {
    pub document: String,
    pub edits: Vec<RenameEdit>,
}

#[verifier::ext_equal]
pub struct DocumentEditsView {
    pub document: Seq<char>,
    pub edits: Seq<RenameEditView>,
}

impl View for DocumentEdits {
    type V = DocumentEditsView;

    open spec fn view(&self) -> DocumentEditsView {
        DocumentEditsView { document: self.document@, edits: views(self.edits@) }
    }
}

/// The place of a document's edits, or the length when it has none.
pub open spec fn slot_of(groups: Seq<DocumentEditsView>, document: Seq<char>, i: int) -> int
    decreases groups.len() - i,
{
    if i < 0 || i >= groups.len() || groups[i].document == document {
        i
    } else {
        slot_of(groups, document, i + 1)
    }
}

/// Adds an edit to those of its document.
pub open spec fn with_edit(
    groups: Seq<DocumentEditsView>,
    document: Seq<char>,
    edit: RenameEditView,
) -> Seq<DocumentEditsView> {
    let i = slot_of(groups, document, 0);
    if i < groups.len() {
        groups.update(
            i,
            DocumentEditsView { document, edits: groups[i].edits.push(edit) },
        )
    } else {
        groups.push(DocumentEditsView { document, edits: seq![edit] })
    }
}

/// The first `n` edits by document, documents in the order in which they come.
pub open spec fn by_document(edits: Seq<(String, RenameEdit)>, n: nat) -> Seq<DocumentEditsView>
    decreases n,
{
    if n == 0 || n > edits.len() {
        Seq::empty()
    } else {
        with_edit(by_document(edits, (n - 1) as nat), edits[n - 1].0@, edits[n - 1].1@)
    }
}

/// The edits of a renaming, gathered by document.
pub fn rename(edits: Vec<(String, RenameEdit)>) -> (r: Vec<DocumentEdits>)
    ensures
        views(r@) == by_document(edits@, edits@.len()),
{
    let mut out: Vec<DocumentEdits> = Vec::new();
    let mut i: usize = 0;
    assert(views(out@) =~= Seq::empty());
    while i < edits.len()
        invariant
            i <= edits@.len(),
            views(out@) == by_document(edits@, i as nat),
        decreases edits@.len() - i,
    {
        let document = edits[i].0.clone();
        let edit = RenameEdit {
            range: edits[i].1.range,
            new_text: edits[i].1.new_text.clone(),
        };
        let ghost groups = views(out@);
        let ghost ev = edit@;
        assert(ev == edits@[i as int].1@);
        let mut k: usize = 0;
        while k < out.len() && !str_eq(out[k].document.as_str(), document.as_str())
            invariant
                k <= out@.len(),
                groups == views(out@),
                slot_of(groups, document@, 0) == slot_of(groups, document@, k as int),
            decreases out@.len() - k,
        {
            assert(groups[k as int] == out@[k as int]@);
            k += 1;
        }
        if k < out.len() {
            assert(groups[k as int] == out@[k as int]@);
            let ghost before = out@;
            let ghost own = out@[k as int].edits@;
            out[k].edits.push(edit);
            assert(views(out@[k as int].edits@) =~= views(own).push(ev));
            assert(views(out@) =~= with_edit(groups, document@, ev));
        } else {
            let ghost before = out@;
            let mut own: Vec<RenameEdit> = Vec::new();
            own.push(edit);
            assert(views(own@) =~= seq![ev]);
            let ghost name = document@;
            out.push(DocumentEdits { document, edits: own });
            assert(views(out@) =~= views(before).push(
                DocumentEditsView { document: name, edits: seq![ev] },
            ));
        }
        i += 1;
    }
    out
}

/// The edits of one document among the first `n`, in order.
pub open spec fn edits_of(edits: Seq<(String, RenameEdit)>, document: Seq<char>, n: nat) -> Seq<
    RenameEditView,
>
    decreases n,
{
    if n == 0 || n > edits.len() {
        Seq::empty()
    } else if edits[n - 1].0@ == document {
        edits_of(edits, document, (n - 1) as nat).push(edits[n - 1].1@)
    } else {
        edits_of(edits, document, (n - 1) as nat)
    }
}

proof fn lemma_slot_of(groups: Seq<DocumentEditsView>, document: Seq<char>, i: int)
    requires
        0 <= i <= groups.len(),
    ensures
        i <= slot_of(groups, document, i) <= groups.len(),
        slot_of(groups, document, i) < groups.len() ==> groups[slot_of(
            groups,
            document,
            i,
        )].document == document,
        forall|k: int|
            i <= k < slot_of(groups, document, i) ==> (#[trigger] groups[k]).document != document,
    decreases groups.len() - i,
{
    if i < groups.len() && groups[i].document != document {
        lemma_slot_of(groups, document, i + 1);
    }
}

/// A renaming lists each document once, with all of its edits in order, and
/// leaves none out.
pub proof fn renaming_keeps_edits(edits: Seq<(String, RenameEdit)>, n: nat)
    requires
        n <= edits.len(),
    ensures
        forall|i: int, j: int|
            0 <= i < j < by_document(edits, n).len() ==> (#[trigger] by_document(
                edits,
                n,
            )[i]).document != (#[trigger] by_document(edits, n)[j]).document,
        forall|i: int|
            0 <= i < by_document(edits, n).len() ==> (#[trigger] by_document(edits, n)[i]).edits
                == edits_of(edits, by_document(edits, n)[i].document, n),
        forall|k: int|
            0 <= k < n ==> exists|i: int|
                0 <= i < by_document(edits, n).len() && (#[trigger] by_document(
                    edits,
                    n,
                )[i]).document == (#[trigger] edits[k]).0@,
    decreases n,
{
    if n > 0 {
        let m = (n - 1) as nat;
        renaming_keeps_edits(edits, m);
        let before = by_document(edits, m);
        let after = by_document(edits, n);
        let document = edits[n - 1].0@;
        let s = slot_of(before, document, 0);
        lemma_slot_of(before, document, 0);
        assert(after[s].document == document);
        assert forall|i: int, j: int| 0 <= i < j < after.len() implies (#[trigger] after[i]).document
            != (#[trigger] after[j]).document by {
            if i != s && j != s {
                assert(before[i].document != before[j].document);
            }
        }
        lemma_absent(edits, document, m);
        assert forall|i: int| 0 <= i < after.len() implies (#[trigger] after[i]).edits == edits_of(
            edits,
            after[i].document,
            n,
        ) by {
            if i < before.len() {
                assert(before[i].edits == edits_of(edits, before[i].document, m));
            }
            if i != s {
                assert(after[i] == before[i]);
                if s < before.len() {
                    assert(before[i].document != before[s].document);
                }
            } else if s == before.len() {
                assert(edits_of(edits, document, m) =~= Seq::empty());
                assert(after[i].edits =~= edits_of(edits, document, n));
            }
        }
        assert forall|k: int| 0 <= k < n implies exists|i: int|
            0 <= i < after.len() && (#[trigger] after[i]).document == (#[trigger] edits[k]).0@ by {
            if k < m {
                let i = choose|i: int|
                    0 <= i < before.len() && (#[trigger] before[i]).document == edits[k].0@;
                assert(after[i].document == before[i].document);
            } else {
                assert(after[s].document == document);
            }
        }
    }
}

/// A document without a group has no edits.
proof fn lemma_absent(edits: Seq<(String, RenameEdit)>, document: Seq<char>, n: nat)
    requires
        n <= edits.len(),
        forall|k: int|
            0 <= k < n ==> exists|i: int|
                0 <= i < by_document(edits, n).len() && (#[trigger] by_document(
                    edits,
                    n,
                )[i]).document == (#[trigger] edits[k]).0@,
    ensures
        slot_of(by_document(edits, n), document, 0) == by_document(edits, n).len() ==> edits_of(
            edits,
            document,
            n,
        ).len() == 0,
{
    let groups = by_document(edits, n);
    lemma_slot_of(groups, document, 0);
    if slot_of(groups, document, 0) == groups.len() {
        assert forall|k: int| 0 <= k < n implies (#[trigger] edits[k]).0@ != document by {
            let i = choose|i: int|
                0 <= i < groups.len() && (#[trigger] groups[i]).document == edits[k].0@;
            assert(groups[i].document != document);
        }
        lemma_none_of(edits, document, n);
    }
}

proof fn lemma_none_of(edits: Seq<(String, RenameEdit)>, document: Seq<char>, n: nat)
    requires
        n <= edits.len(),
        forall|k: int| 0 <= k < n ==> (#[trigger] edits[k]).0@ != document,
    ensures
        edits_of(edits, document, n).len() == 0,
    decreases n,
{
    if n > 0 {
        lemma_none_of(edits, document, (n - 1) as nat);
    }
}

// ---------- formatting ----------

/// The end of a text as an edit of the whole counts it: the number of lines,
/// and the bytes of the last one.
pub open spec fn whole_end(source: Seq<char>) -> (u32, u32) {
    let ls = lines(source);
    (
        ls.len() as usize as u32,
        if ls.len() == 0 {
            0
        } else {
            clamp(byte_len(ls.last())) as u32
        },
    )
}

/// The edit that lays a document out; none where nothing changes.
pub fn formatting(source: &str, formatted: String) -> (r: Option<RenameEdit>)
    ensures
        r is None <==> formatted@ == source@,
        r matches Some(e) ==> e@ == (RenameEditView {
            range: LspRange {
                start_line: 0,
                start_char: 0,
                end_line: whole_end(source@).0,
                end_char: whole_end(source@).1,
            },
            new_text: formatted@,
        }),
{
    if str_eq(formatted.as_str(), source) {
        return None;
    }
    let all = split_lines(source);
    assert(rows(all@).len() == all@.len());
    let n: usize = all.len();
    let end: usize = if n == 0 {
        0
    } else {
        let last = &all[n - 1];
        assert(rows(all@)[n - 1] == last@);
        assert(last@.take(last@.len() as int) =~= last@);
        bytes_before(last, last.len())
    };
    Some(
        RenameEdit {
            range: LspRange {
                start_line: 0,
                start_char: 0,
                end_line: n as u32,
                end_char: end as u32,
            },
            new_text: formatted,
        },
    )
}

// ---------- prefab files ----------

/// Whether a scan for prefab files goes on: not too deep, not too many.
pub open spec fn scan_goes_on(depth: usize, found: usize) -> bool {
    depth <= 6 && found <= 500
}

pub fn keep_scanning(depth: usize, found: usize) -> (r: bool)
    ensures
        r == scan_goes_on(depth, found),
{
    !(depth > 6 || found > 500)
}

/// A path with forward slashes.
pub open spec fn forward(path: Seq<char>) -> Seq<char> {
    Seq::new(
        path.len(),
        |i: int|
            if path[i] == '\\' {
                '/'
            } else {
                path[i]
            },
    )
}

/// A path below the document's directory, as a reference spells it.
pub fn prefab_reference(rel: &str) -> (r: String)
    ensures
        r@ == "./"@ + forward(rel@),
{
    let chars = chars_of(rel);
    let mut out = owned("./");
    let mut i: usize = 0;
    let ghost all = forward(rel@);
    assert("./"@ + all.take(0) =~= "./"@);
    while i < chars.len()
        invariant
            i <= chars@.len(),
            chars@ == rel@,
            all == forward(rel@),
            out@ == "./"@ + all.take(i as int),
        decreases chars@.len() - i,
    {
        out.push(
            if chars[i] == '\\' {
                '/'
            } else {
                chars[i]
            },
        );
        assert(out@ =~= "./"@ + all.take(i + 1));
        i += 1;
    }
    assert(all.take(i as int) =~= all);
    out
}

// ---------- compiling ----------

/// What to do with a command of the editor.
#[derive(Debug)]
pub enum CommandPlan {
    /// It is none of ours.
    Ignore,
    /// The document or the place for the result is missing.
    Invalid,
    /// Compile a document to a file.
    Compile(String, String),
}

/// The text at a place of the arguments; empty where there is none.
pub open spec fn argument_text(args: Seq<Option<String>>, i: int) -> Seq<char> {
    if i < args.len() {
        match args[i] {
            Some(t) => t@,
            None => Seq::empty(),
        }
    } else {
        Seq::empty()
    }
}

fn argument_at(args: &Vec<Option<String>>, i: usize) -> (r: String)
    ensures
        r@ == argument_text(args@, i as int),
{
    if i < args.len() {
        match &args[i] {
            Some(t) => t.clone(),
            None => String::new(),
        }
    } else {
        String::new()
    }
}

pub fn execute_command(command: &str, args: &Vec<Option<String>>) -> (r: CommandPlan)
    ensures
        match r {
            CommandPlan::Ignore => command@ != "wirescript.compile"@,
            CommandPlan::Invalid => command@ == "wirescript.compile"@ && (argument_text(
                args@,
                0,
            ).len() == 0 || argument_text(args@, 1).len() == 0),
            CommandPlan::Compile(uri, out) => {
                &&& command@ == "wirescript.compile"@
                &&& uri@ == argument_text(args@, 0)
                &&& out@ == argument_text(args@, 1)
                &&& uri@.len() > 0
                &&& out@.len() > 0
            },
        },
{
    if !str_eq(command, "wirescript.compile") {
        return CommandPlan::Ignore;
    }
    let uri = argument_at(args, 0);
    let out = argument_at(args, 1);
    if uri.as_str().unicode_len() == 0 || out.as_str().unicode_len() == 0 {
        return CommandPlan::Invalid;
    }
    CommandPlan::Compile(uri, out)
}

/// A diagnostic of a compilation, in its own file.
#[derive(Debug)]
pub struct CompileDiagnostic {
    pub file: String,
    pub start_line: usize,
    pub start_char: usize,
    pub end_line: usize,
    pub end_char: usize,
    pub severity: String,
    pub code: String,
    pub message: String,
}

#[verifier::ext_equal]
pub struct CompileDiagnosticView {
    pub file: Seq<char>,
    pub start_line: usize,
    pub start_char: usize,
    pub end_line: usize,
    pub end_char: usize,
    pub severity: Seq<char>,
    pub code: Seq<char>,
    pub message: Seq<char>,
}

impl View for CompileDiagnostic {
    type V = CompileDiagnosticView;

    open spec fn view(&self) -> CompileDiagnosticView {
        CompileDiagnosticView {
            file: self.file@,
            start_line: self.start_line,
            start_char: self.start_char,
            end_line: self.end_line,
            end_char: self.end_char,
            severity: self.severity@,
            code: self.code@,
            message: self.message@,
        }
    }
}

pub open spec fn compile_diagnostic(d: DiagnosticView) -> CompileDiagnosticView {
    CompileDiagnosticView {
        file: d.range.file,
        start_line: from_zero(d.range.start.line),
        start_char: from_zero(d.range.start.col),
        end_line: from_zero(d.range.end.line),
        end_char: from_zero(d.range.end.col),
        severity: severity_text(d.severity),
        code: d.code,
        message: d.message,
    }
}

/// The diagnostics of a compilation that failed, each with its file.
pub fn compile_diagnostics(ds: &Vec<Diagnostic>) -> (r: Vec<CompileDiagnostic>)
    ensures
        views(r@) == Seq::new(ds@.len(), |i: int| compile_diagnostic(ds@[i]@)),
{
    let mut out: Vec<CompileDiagnostic> = Vec::new();
    let mut i: usize = 0;
    while i < ds.len()
        invariant
            i <= ds@.len(),
            out@.len() == i,
            forall|k: int| 0 <= k < i ==> (#[trigger] out@[k])@ == compile_diagnostic(ds@[k]@),
        decreases ds@.len() - i,
    {
        let d = &ds[i];
        out.push(
            CompileDiagnostic {
                file: d.range.file.clone(),
                start_line: d.range.start.line.saturating_sub(1),
                start_char: d.range.start.col.saturating_sub(1),
                end_line: d.range.end.line.saturating_sub(1),
                end_char: d.range.end.col.saturating_sub(1),
                severity: owned(severity_name(d.severity)),
                code: d.code.clone(),
                message: d.message.clone(),
            },
        );
        i += 1;
    }
    assert(views(out@) =~= Seq::new(ds@.len(), |i: int| compile_diagnostic(ds@[i]@)));
    out
}

} // verus!
