//! Resolution of the imports of a script.

use crate::assoc::AssocMap;
use crate::ast::{ImportBinding, ImportDecl, ImportKind, Script, TopDecl};
use crate::ast_view::{
    import_bindings_view, text_of, top_decls_view, ImportBindingView, ImportDeclView,
    ImportKindView, TopDeclView,
};
use crate::diagnostic::{lemma_views_push, views, Diagnostic, DiagnosticView, RangeView, Severity};
use crate::resolve::files::{
    clone_docs, doc_at, doc_views, entry_of, entry_place, find_doc, CachedFile, FileTable, FileView, ParseResult,
    Table,
};
use crate::resolve::idents::{collect_idents_in_decls, decls_idents, NameSet, Names};
use crate::resolve::merge::{import_error, local_name, merge_import, merged, push_error, Decls};
use crate::text::{cat3, owned};
use vstd::prelude::*;

verus! {

/// What has been gathered while imports are resolved.
#[verifier::ext_equal]
pub struct Progress {
    /// Files whose own imports are resolved, by canonical path.
    pub cache: Map<Seq<char>, FileView>,
    pub diags: Seq<DiagnosticView>,
}

/// The declarations and doc comments gathered for one file.
#[verifier::ext_equal]
pub struct Gathered {
    pub progress: Progress,
    pub decls: Decls,
    pub docs: Map<usize, Seq<char>>,
}

/// Doc comments added, later ones winning.
pub open spec fn with_docs(
    m: Map<usize, Seq<char>>,
    docs: Seq<(usize, Seq<char>)>,
    n: nat,
) -> Map<usize, Seq<char>>
    decreases n,
{
    if n == 0 || n > docs.len() {
        m
    } else {
        with_docs(m, docs, (n - 1) as nat).insert(docs[n - 1].0, docs[n - 1].1)
    }
}

/// The number of the first `n` entries whose file is not being resolved.
pub open spec fn open_files(t: Table, stack: Names, n: nat) -> nat
    decreases n,
{
    if n == 0 || n > t.len() {
        0
    } else {
        open_files(t, stack, (n - 1) as nat) + if stack.contains(t[n - 1].canonical) {
            0nat
        } else {
            1nat
        }
    }
}

proof fn lemma_open_less(t: Table, stack: Names, canon: Seq<char>, n: nat)
    ensures
        open_files(t, stack.insert(canon), n) <= open_files(t, stack, n),
    decreases n,
{
    if n > 0 && n <= t.len() {
        lemma_open_less(t, stack, canon, (n - 1) as nat);
    }
}

proof fn lemma_open_strict(t: Table, stack: Names, i: int, n: nat)
    requires
        0 <= i < n <= t.len(),
        !stack.contains(t[i].canonical),
    ensures
        open_files(t, stack.insert(t[i].canonical), n) < open_files(t, stack, n),
    decreases n,
{
    lemma_open_less(t, stack, t[i].canonical, (n - 1) as nat);
    if i < n - 1 {
        lemma_open_strict(t, stack, i, (n - 1) as nat);
    }
}

/// Entering the file of an entry leaves fewer files open.
proof fn lemma_entering(t: Table, stack: Names, path: Seq<char>, relative_to: Seq<char>)
    ensures
        entry_of(t, path, relative_to) matches Some(e) ==> !stack.contains(e.canonical)
            ==> open_files(t, stack.insert(e.canonical), t.len()) < open_files(
            t,
            stack,
            t.len(),
        ),
{
    if entry_of(t, path, relative_to) is Some {
        let i = entry_place(t, path, relative_to) as int;
        if !stack.contains(t[i].canonical) {
            lemma_open_strict(t, stack, i, t.len());
        }
    }
}

/// The first `n` declarations that are no imports.
pub open spec fn own_decls(decls: Decls, n: nat) -> Decls
    decreases n,
{
    if n == 0 || n > decls.len() {
        Seq::empty()
    } else {
        let before = own_decls(decls, (n - 1) as nat);
        if decls[n - 1] is Import {
            before
        } else {
            before.push(decls[n - 1])
        }
    }
}

/// Where a declaration starts.
pub open spec fn decl_start(d: TopDeclView) -> usize {
    match d {
        TopDeclView::Import(d) => d.range.start.offset,
        TopDeclView::Namespace(d) => d.range.start.offset,
        TopDeclView::Var(d) => d.range.start.offset,
        TopDeclView::Array(d) => d.range.start.offset,
        TopDeclView::Buffer(d) => d.range.start.offset,
        TopDeclView::Fn(d) => d.range.start.offset,
        TopDeclView::Chip(d) => d.range.start.offset,
        TopDeclView::AnonChip(d) => d.range.start.offset,
        TopDeclView::Event(d) => d.range.start.offset,
        TopDeclView::In(d) => d.range.start.offset,
        TopDeclView::Out(d) => d.range.start.offset,
        TopDeclView::Handler(d) => d.range.start.offset,
        TopDeclView::Callback(d) => d.range.start.offset,
        TopDeclView::Let(d) => d.range.start.offset,
        TopDeclView::Await(d) => d.range.start.offset,
        TopDeclView::Assign(d) => d.range.start.offset,
        TopDeclView::If(d) => d.range.start.offset,
        TopDeclView::ExprStmt(d) => d.range.start.offset,
        TopDeclView::TypeAlias(d) => d.range.start.offset,
    }
}

/// The doc of a file as a module: its own, or else that of the first declaration
/// that is no import.
pub open spec fn module_doc_of(file: FileView) -> Option<Seq<char>> {
    let own = own_decls(file.decls, file.decls.len());
    match file.module_doc {
        Some(d) => Some(d),
        None => if own.len() > 0 {
            doc_at(file.docs, decl_start(own[0]))
        } else {
            None
        },
    }
}

/// A file resolved, unless it is being resolved already or cannot be loaded:
/// its canonical path, under which it is cached. What a file imports stands
/// before what it declares.
pub open spec fn file_resolved(
    t: Table,
    p: Progress,
    path: Seq<char>,
    relative_to: Seq<char>,
    stack: Names,
) -> (Progress, Option<Seq<char>>)
    decreases open_files(t, stack, t.len()), 0nat, 0nat,
    via file_resolved_decreases
{
    match entry_of(t, path, relative_to) {
        None => (p, None),
        Some(e) => if stack.contains(e.canonical) {
            (p, None)
        } else if p.cache.contains_key(e.canonical) {
            (p, Some(e.canonical))
        } else {
            match e.parsed {
                None => (p, None),
                Some(f) => {
                    let g = imports_resolved(
                        t,
                        Gathered { progress: p, decls: Seq::empty(), docs: Map::empty() },
                        f.decls,
                        f.decls.len(),
                        e.canonical,
                        stack.insert(e.canonical),
                    );
                    (
                        Progress {
                            cache: g.progress.cache.insert(
                                e.canonical,
                                FileView {
                                    decls: g.decls + own_decls(f.decls, f.decls.len()),
                                    docs: f.docs,
                                    module_doc: module_doc_of(f),
                                },
                            ),
                            diags: g.progress.diags,
                        },
                        Some(e.canonical),
                    )
                },
            }
        },
    }
}

#[via_fn]
proof fn file_resolved_decreases(
    t: Table,
    p: Progress,
    path: Seq<char>,
    relative_to: Seq<char>,
    stack: Names,
) {
    lemma_entering(t, stack, path, relative_to);
}

pub open spec fn circular_error(imp: ImportDeclView) -> DiagnosticView {
    import_error("circular import: '"@ + imp.path + "'"@, imp.range)
}

pub open spec fn unresolved_error(imp: ImportDeclView) -> DiagnosticView {
    import_error("cannot resolve import '"@ + imp.path + "'"@, imp.range)
}

pub open spec fn with_error(g: Gathered, d: DiagnosticView) -> Gathered {
    Gathered { progress: Progress { diags: g.progress.diags.push(d), ..g.progress }, ..g }
}

/// What is gathered once the file of an import is there.
pub open spec fn import_merged(g: Gathered, imp: ImportDeclView, file: FileView) -> Gathered {
    let (decls, diags) = merged(g.decls, g.progress.diags, imp, file);
    Gathered {
        progress: Progress { diags, ..g.progress },
        decls,
        docs: with_docs(g.docs, file.docs, file.docs.len()),
    }
}

/// One import resolved.
pub open spec fn import_resolved(
    t: Table,
    g: Gathered,
    imp: ImportDeclView,
    relative_to: Seq<char>,
    stack: Names,
) -> Gathered
    decreases open_files(t, stack, t.len()), 1nat, 0nat,
{
    match entry_of(t, imp.path, relative_to) {
        Some(e) => if stack.contains(e.canonical) {
            with_error(g, circular_error(imp))
        } else {
            let (p, canon) = file_resolved(t, g.progress, imp.path, relative_to, stack);
            let g1 = Gathered { progress: p, ..g };
            match canon {
                Some(c) => import_merged(g1, imp, p.cache[c]),
                None => with_error(g1, unresolved_error(imp)),
            }
        },
        None => with_error(g, unresolved_error(imp)),
    }
}

/// The imports among the first `n` declarations resolved in order.
pub open spec fn imports_resolved(
    t: Table,
    g: Gathered,
    decls: Decls,
    n: nat,
    relative_to: Seq<char>,
    stack: Names,
) -> Gathered
    decreases open_files(t, stack, t.len()), 2nat, n,
{
    if n == 0 || n > decls.len() {
        g
    } else {
        let before = imports_resolved(t, g, decls, (n - 1) as nat, relative_to, stack);
        match decls[n - 1] {
            TopDeclView::Import(imp) => import_resolved(t, before, imp, relative_to, stack),
            _ => before,
        }
    }
}

/// A cached file is under the path that resolving it gives.
proof fn lemma_resolved_is_cached(
    t: Table,
    p: Progress,
    path: Seq<char>,
    relative_to: Seq<char>,
    stack: Names,
)
    ensures
        file_resolved(t, p, path, relative_to, stack).1 matches Some(c) ==> file_resolved(
            t,
            p,
            path,
            relative_to,
            stack,
        ).0.cache.contains_key(c),
{
    reveal_with_fuel(file_resolved, 2);
}

// ---------- resolving ----------

/// The state of resolution.
#[derive(Debug)]
pub struct Resolver<'t> {
    pub files: &'t FileTable,
    pub cache: AssocMap<String, CachedFile>,
    pub diagnostics: Vec<Diagnostic>,
}

impl<'t> View for Resolver<'t> {
    type V = Progress;

    open spec fn view(&self) -> Progress {
        Progress { cache: self.cache@, diags: views(self.diagnostics@) }
    }
}

/// What a resolver has gathered for one file.
pub open spec fn gathered<'t>(
    r: Resolver<'t>,
    decls: Seq<TopDecl>,
    docs: Map<usize, Seq<char>>,
) -> Gathered {
    Gathered { progress: r@, decls: top_decls_view(decls), docs }
}

fn put_docs(m: &mut AssocMap<usize, String>, docs: &Vec<(usize, String)>)
    ensures
        final(m)@ == with_docs(old(m)@, doc_views(docs@), docs@.len()),
{
    let mut i: usize = 0;
    while i < docs.len()
        invariant
            i <= docs@.len(),
            m@ == with_docs(old(m)@, doc_views(docs@), i as nat),
        decreases docs.len() - i,
    {
        m.insert(docs[i].0, docs[i].1.clone());
        i += 1;
    }
}

fn clone_own(decls: &Vec<TopDecl>, out: &mut Vec<TopDecl>)
    ensures
        top_decls_view(final(out)@) == top_decls_view(old(out)@) + own_decls(
            top_decls_view(decls@),
            decls@.len(),
        ),
{
    let mut i: usize = 0;
    assert(top_decls_view(out@) =~= top_decls_view(old(out)@) + own_decls(
        top_decls_view(decls@),
        0,
    ));
    while i < decls.len()
        invariant
            i <= decls@.len(),
            top_decls_view(out@) == top_decls_view(old(out)@) + own_decls(
                top_decls_view(decls@),
                i as nat,
            ),
        decreases decls.len() - i,
    {
        let ghost before = out@;
        assert(top_decls_view(decls@)[i as int] == decls@[i as int]@);
        match &decls[i] {
            TopDecl::Import(_) => {},
            d => {
                let copy = d.clone();
                out.push(copy);
                assert(top_decls_view(out@) =~= top_decls_view(before).push(copy@));
            },
        }
        i += 1;
        assert(top_decls_view(out@) =~= top_decls_view(old(out)@) + own_decls(
            top_decls_view(decls@),
            i as nat,
        ));
    }
}

proof fn lemma_own_prefix(decls: Decls, m: nat, n: nat)
    requires
        m <= n <= decls.len(),
    ensures
        own_decls(decls, m).is_prefix_of(own_decls(decls, n)),
    decreases n,
{
    if m < n {
        lemma_own_prefix(decls, m, (n - 1) as nat);
    }
}

fn find_module_doc(parsed: &ParseResult) -> (r: Option<String>)
    ensures
        text_of(r) == module_doc_of(parsed.file()),
{
    if let Some(d) = &parsed.ast.module_doc {
        return Some(d.clone());
    }
    let decls = &parsed.ast.decls;
    let ghost all = top_decls_view(decls@);
    let mut i: usize = 0;
    while i < decls.len()
        invariant
            i <= decls@.len(),
            decls == parsed.ast.decls,
            all == top_decls_view(decls@),
            parsed.ast.module_doc is None,
            own_decls(all, i as nat).len() == 0,
        decreases decls.len() - i,
    {
        assert(all[i as int] == decls@[i as int]@);
        match &decls[i] {
            TopDecl::Import(_) => {},
            d => {
                proof {
                    lemma_own_prefix(all, (i + 1) as nat, all.len());
                    let first = own_decls(all, (i + 1) as nat);
                    assert(first[0] == all[i as int]);
                    assert(own_decls(all, all.len())[0] == first[0]);
                }
                return find_doc(&parsed.doc_comments, d.range().start.offset);
            },
        }
        i += 1;
    }
    None
}

impl<'t> Resolver<'t> {
    /// Resolves the imports of a file, and caches it.
    pub fn resolve_file(&mut self, path: &str, relative_to: &str, stack: &NameSet) -> (r: Option<
        String,
    >)
        ensures
            final(self).files == old(self).files,
            (final(self)@, text_of(r)) == file_resolved(
                old(self).files@,
                old(self)@,
                path@,
                relative_to@,
                stack@,
            ),
        decreases open_files(old(self).files@, stack@, old(self).files@.len()), 0nat, 0nat,
    {
        let files = self.files;
        let k = match files.find(path, relative_to) {
            Some(k) => k,
            None => {
                return None;
            },
        };
        let entry = &files.entries[k];
        if stack.contains(entry.canonical.as_str()) {
            return None;
        }
        if self.cache.contains(&entry.canonical) {
            return Some(entry.canonical.clone());
        }
        let parsed = match &entry.parsed {
            Some(p) => p,
            None => {
                return None;
            },
        };
        let mut inner = stack.clone();
        inner.insert(entry.canonical.clone());
        proof {
            lemma_entering(files@, stack@, path@, relative_to@);
        }
        let mut decls: Vec<TopDecl> = Vec::new();
        let mut docs: AssocMap<usize, String> = AssocMap::new();
        assert(top_decls_view(decls@) =~= Seq::empty());
        self.resolve_imports(
            &parsed.ast.decls,
            entry.canonical.as_str(),
            &inner,
            &mut decls,
            &mut docs,
        );
        clone_own(&parsed.ast.decls, &mut decls);
        let file = CachedFile {
            decls,
            docs: clone_docs(&parsed.doc_comments),
            module_doc: find_module_doc(parsed),
        };
        self.cache.insert(entry.canonical.clone(), file);
        Some(entry.canonical.clone())
    }

    /// Resolves one import into `target_decls` and `target_docs`.
    pub fn resolve_import(
        &mut self,
        imp: &ImportDecl,
        relative_to: &str,
        stack: &NameSet,
        target_decls: &mut Vec<TopDecl>,
        target_docs: &mut AssocMap<usize, String>,
    )
        ensures
            final(self).files == old(self).files,
            gathered(*final(self), final(target_decls)@, final(target_docs)@) == import_resolved(
                old(self).files@,
                gathered(*old(self), old(target_decls)@, old(target_docs)@),
                imp@,
                relative_to@,
                stack@,
            ),
        decreases open_files(old(self).files@, stack@, old(self).files@.len()), 1nat, 0nat,
    {
        let files = self.files;
        if let Some(k) = files.find(imp.path.as_str(), relative_to) {
            if stack.contains(files.entries[k].canonical.as_str()) {
                push_error(
                    &mut self.diagnostics,
                    cat3("circular import: '", imp.path.as_str(), "'"),
                    &imp.range,
                );
                return ;
            }
        }
        proof {
            lemma_resolved_is_cached(files@, self@, imp.path@, relative_to@, stack@);
        }
        let canon = match self.resolve_file(imp.path.as_str(), relative_to, stack) {
            Some(c) => c,
            None => {
                push_error(
                    &mut self.diagnostics,
                    cat3("cannot resolve import '", imp.path.as_str(), "'"),
                    &imp.range,
                );
                return ;
            },
        };
        if let Some(file) = self.cache.get(&canon) {
            put_docs(target_docs, &file.docs);
            merge_import(file, imp, target_decls, &mut self.diagnostics);
        }
    }

    /// Resolves the imports among some declarations in order.
    pub fn resolve_imports(
        &mut self,
        decls: &Vec<TopDecl>,
        relative_to: &str,
        stack: &NameSet,
        target_decls: &mut Vec<TopDecl>,
        target_docs: &mut AssocMap<usize, String>,
    )
        ensures
            final(self).files == old(self).files,
            gathered(*final(self), final(target_decls)@, final(target_docs)@) == imports_resolved(
                old(self).files@,
                gathered(*old(self), old(target_decls)@, old(target_docs)@),
                top_decls_view(decls@),
                decls@.len(),
                relative_to@,
                stack@,
            ),
        decreases
            open_files(old(self).files@, stack@, old(self).files@.len()),
            2nat,
            decls@.len(),
    {
        let mut i: usize = 0;
        while i < decls.len()
            invariant
                i <= decls@.len(),
                self.files == old(self).files,
                gathered(*self, target_decls@, target_docs@) == imports_resolved(
                    old(self).files@,
                    gathered(*old(self), old(target_decls)@, old(target_docs)@),
                    top_decls_view(decls@),
                    i as nat,
                    relative_to@,
                    stack@,
                ),
            decreases decls.len() - i,
        {
            assert(top_decls_view(decls@)[i as int] == decls@[i as int]@);
            if let TopDecl::Import(imp) = &decls[i] {
                self.resolve_import(imp, relative_to, stack, target_decls, target_docs);
            }
            i += 1;
        }
    }
}

// ---------- unused imports ----------

pub open spec fn unused_warning(b: ImportBindingView) -> DiagnosticView {
    DiagnosticView {
        severity: Severity::Warning,
        code: "WS014"@,
        message: "unused import '"@ + local_name(b) + "'"@,
        range: b.range,
    }
}

/// The warnings for the first `n` imported names that nothing refers to.
pub open spec fn unused_names(
    diags: Seq<DiagnosticView>,
    bindings: Seq<ImportBindingView>,
    used: Names,
    n: nat,
) -> Seq<DiagnosticView>
    decreases n,
{
    if n == 0 || n > bindings.len() {
        diags
    } else {
        let before = unused_names(diags, bindings, used, (n - 1) as nat);
        if used.contains(local_name(bindings[n - 1])) {
            before
        } else {
            before.push(unused_warning(bindings[n - 1]))
        }
    }
}

/// The warnings for the names that the first `n` declarations import in vain.
pub open spec fn unused_imports(
    diags: Seq<DiagnosticView>,
    decls: Decls,
    used: Names,
    n: nat,
) -> Seq<DiagnosticView>
    decreases n,
{
    if n == 0 || n > decls.len() {
        diags
    } else {
        let before = unused_imports(diags, decls, used, (n - 1) as nat);
        match decls[n - 1] {
            TopDeclView::Import(imp) => match imp.kind {
                ImportKindView::Named(bindings) => unused_names(
                    before,
                    bindings,
                    used,
                    bindings.len(),
                ),
                _ => before,
            },
            _ => before,
        }
    }
}

fn warn_unused_names(diags: &mut Vec<Diagnostic>, bindings: &Vec<ImportBinding>, used: &NameSet)
    ensures
        views(final(diags)@) == unused_names(
            views(old(diags)@),
            import_bindings_view(bindings@),
            used@,
            bindings@.len(),
        ),
{
    let mut i: usize = 0;
    while i < bindings.len()
        invariant
            i <= bindings@.len(),
            views(diags@) == unused_names(
                views(old(diags)@),
                import_bindings_view(bindings@),
                used@,
                i as nat,
            ),
        decreases bindings.len() - i,
    {
        let b = &bindings[i];
        assert(import_bindings_view(bindings@)[i as int] == b@);
        let name = match &b.alias {
            Some(a) => a.as_str(),
            None => b.name.as_str(),
        };
        if !used.contains(name) {
            let d = Diagnostic {
                severity: Severity::Warning,
                code: owned("WS014"),
                message: cat3("unused import '", name, "'"),
                range: b.range.clone(),
            };
            proof {
                lemma_views_push(diags@, d);
            }
            assert(d@ =~= unused_warning(b@));
            diags.push(d);
        }
        i += 1;
    }
}

fn warn_unused_imports(diags: &mut Vec<Diagnostic>, decls: &Vec<TopDecl>, used: &NameSet)
    ensures
        views(final(diags)@) == unused_imports(
            views(old(diags)@),
            top_decls_view(decls@),
            used@,
            decls@.len(),
        ),
{
    let mut i: usize = 0;
    while i < decls.len()
        invariant
            i <= decls@.len(),
            views(diags@) == unused_imports(
                views(old(diags)@),
                top_decls_view(decls@),
                used@,
                i as nat,
            ),
        decreases decls.len() - i,
    {
        assert(top_decls_view(decls@)[i as int] == decls@[i as int]@);
        if let TopDecl::Import(imp) = &decls[i] {
            if let ImportKind::Named(bindings) = &imp.kind {
                warn_unused_names(diags, bindings, used);
            }
        }
        i += 1;
    }
}

// ---------- scripts ----------

#[derive(Debug)]
pub struct ResolveResult {
    pub ast: Script,
    pub diagnostics: Vec<Diagnostic>,
    pub doc_comments: AssocMap<usize, String>,
}

/// A resolved script as a mathematical value.
#[verifier::ext_equal]
pub struct ResolvedView {
    pub decls: Decls,
    pub range: RangeView,
    pub module_doc: Option<Seq<char>>,
    pub diags: Seq<DiagnosticView>,
    pub docs: Map<usize, Seq<char>>,
}

impl View for ResolveResult {
    type V = ResolvedView;

    open spec fn view(&self) -> ResolvedView {
        ResolvedView {
            decls: top_decls_view(self.ast.decls@),
            range: self.ast.range@,
            module_doc: text_of(self.ast.module_doc),
            diags: views(self.diagnostics@),
            docs: self.doc_comments@,
        }
    }
}

/// What the imports of a script contribute.
pub open spec fn contributed(
    t: Table,
    file: FileView,
    diags: Seq<DiagnosticView>,
    path: Seq<char>,
    canon: Seq<char>,
) -> Gathered {
    imports_resolved(
        t,
        Gathered {
            progress: Progress { cache: Map::empty(), diags },
            decls: Seq::empty(),
            docs: with_docs(Map::empty(), file.docs, file.docs.len()),
        },
        file.decls,
        file.decls.len(),
        path,
        set![canon],
    )
}

/// A script with its imports resolved: what they contribute comes first, then
/// what the script declares itself. A name imported in vain is reported.
pub open spec fn resolved_script(
    t: Table,
    file: FileView,
    diags: Seq<DiagnosticView>,
    range: RangeView,
    path: Seq<char>,
    canon: Seq<char>,
) -> ResolvedView {
    let g = contributed(t, file, diags, path, canon);
    let own = own_decls(file.decls, file.decls.len());
    let used = decls_idents(own, own.len()).union(decls_idents(g.decls, g.decls.len()));
    ResolvedView {
        decls: g.decls + own,
        range,
        module_doc: file.module_doc,
        diags: unused_imports(g.progress.diags, file.decls, used, file.decls.len()),
        docs: g.docs,
    }
}

/// Resolves the imports of a parsed script. `canon_self` is the canonical path
/// of the script itself, and `files` is what its imports lead to.
pub fn resolve(parsed: ParseResult, file: &str, canon_self: &str, files: &FileTable) -> (r:
    ResolveResult)
    ensures
        r@ == resolved_script(
            files@,
            parsed.file(),
            views(parsed.diagnostics@),
            parsed.ast.range@,
            file@,
            canon_self@,
        ),
{
    let ghost view = parsed.file();
    let mut docs: AssocMap<usize, String> = AssocMap::new();
    put_docs(&mut docs, &parsed.doc_comments);
    let mut stack = NameSet::new();
    stack.insert(owned(canon_self));
    assert(stack@ =~= set![canon_self@]);
    let mut resolver = Resolver { files, cache: AssocMap::new(), diagnostics: parsed.diagnostics };
    let mut decls: Vec<TopDecl> = Vec::new();
    assert(top_decls_view(decls@) =~= Seq::empty());
    resolver.resolve_imports(&parsed.ast.decls, file, &stack, &mut decls, &mut docs);
    let ghost g = gathered(resolver, decls@, docs@);
    assert(g == contributed(
        files@,
        view,
        views(parsed.diagnostics@),
        file@,
        canon_self@,
    ));
    let mut main_decls: Vec<TopDecl> = Vec::new();
    assert(top_decls_view(main_decls@) =~= Seq::empty());
    clone_own(&parsed.ast.decls, &mut main_decls);
    let ghost own = own_decls(view.decls, view.decls.len());
    assert(top_decls_view(main_decls@) =~= own);
    let mut used = NameSet::new();
    collect_idents_in_decls(&main_decls, &mut used);
    collect_idents_in_decls(&decls, &mut used);
    assert(used@ =~= decls_idents(own, own.len()).union(
        decls_idents(g.decls, g.decls.len()),
    ));
    let mut diagnostics = resolver.diagnostics;
    warn_unused_imports(&mut diagnostics, &parsed.ast.decls, &used);
    decls.append(&mut main_decls);
    assert(top_decls_view(decls@) =~= g.decls + own);
    ResolveResult {
        ast: Script { decls, range: parsed.ast.range, module_doc: parsed.ast.module_doc },
        diagnostics,
        doc_comments: docs,
    }
}

// ---------- laws ----------

/// The declarations of a script itself come last, in their order, after what
/// its imports contribute.
pub proof fn own_decls_come_last(
    t: Table,
    file: FileView,
    diags: Seq<DiagnosticView>,
    range: RangeView,
    path: Seq<char>,
    canon: Seq<char>,
)
    ensures
        ({
            let own = own_decls(file.decls, file.decls.len());
            let all = resolved_script(t, file, diags, range, path, canon).decls;
            all.len() >= own.len() && all.skip(all.len() - own.len()) == own
        }),
{
    let own = own_decls(file.decls, file.decls.len());
    let all = resolved_script(t, file, diags, range, path, canon).decls;
    assert(all.skip(all.len() - own.len()) =~= own);
}

/// The names that one declaration imports one by one.
pub open spec fn bindings_of(d: TopDeclView) -> Seq<ImportBindingView> {
    match d {
        TopDeclView::Import(imp) => match imp.kind {
            ImportKindView::Named(bindings) => bindings,
            _ => Seq::empty(),
        },
        _ => Seq::empty(),
    }
}

/// Whether a diagnostic reports a name that is imported and not used.
pub open spec fn in_vain(decls: Decls, used: Names, d: DiagnosticView) -> bool {
    exists|j: int, k: int|
        0 <= j < decls.len() && 0 <= k < bindings_of(decls[j]).len() && !used.contains(
            local_name(#[trigger] bindings_of(decls[j])[k]),
        ) && d == unused_warning(bindings_of(decls[j])[k])
}

/// An import counts as used when the script itself or an imported declaration
/// refers to it: beyond what parsing and importing report, a script is warned
/// of names alone that neither refers to.
pub proof fn used_imports_are_not_reported(
    t: Table,
    file: FileView,
    diags: Seq<DiagnosticView>,
    range: RangeView,
    path: Seq<char>,
    canon: Seq<char>,
    i: int,
)
    ensures
        ({
            let g = contributed(t, file, diags, path, canon);
            let own = own_decls(file.decls, file.decls.len());
            let used = decls_idents(own, own.len()).union(decls_idents(g.decls, g.decls.len()));
            let all = resolved_script(t, file, diags, range, path, canon).diags;
            g.progress.diags.len() <= i < all.len() ==> in_vain(file.decls, used, all[i])
        }),
{
    let g = contributed(t, file, diags, path, canon);
    let own = own_decls(file.decls, file.decls.len());
    let used = decls_idents(own, own.len()).union(decls_idents(g.decls, g.decls.len()));
    lemma_in_vain(g.progress.diags, file.decls, used, file.decls.len(), i);
}

proof fn lemma_in_vain(
    diags: Seq<DiagnosticView>,
    decls: Decls,
    used: Names,
    n: nat,
    i: int,
)
    ensures
        diags.len() <= i < unused_imports(diags, decls, used, n).len() ==> in_vain(
            decls,
            used,
            unused_imports(diags, decls, used, n)[i],
        ),
        diags.is_prefix_of(unused_imports(diags, decls, used, n)),
    decreases n,
{
    if n > 0 && n <= decls.len() {
        let before = unused_imports(diags, decls, used, (n - 1) as nat);
        lemma_in_vain(diags, decls, used, (n - 1) as nat, i);
        let bs = bindings_of(decls[n - 1]);
        lemma_names_in_vain(before, decls, n - 1, used, bs.len(), i);
        assert(unused_imports(diags, decls, used, n) == unused_names(before, bs, used, bs.len()));
    }
}

proof fn lemma_names_in_vain(
    before: Seq<DiagnosticView>,
    decls: Decls,
    j: int,
    used: Names,
    n: nat,
    i: int,
)
    requires
        0 <= j < decls.len(),
    ensures
        ({
            let after = unused_names(before, bindings_of(decls[j]), used, n);
            &&& before.len() <= i < after.len() ==> in_vain(decls, used, after[i])
            &&& before.is_prefix_of(after)
        }),
    decreases n,
{
    let bs = bindings_of(decls[j]);
    if n > 0 && n <= bs.len() {
        lemma_names_in_vain(before, decls, j, used, (n - 1) as nat, i);
        let mid = unused_names(before, bs, used, (n - 1) as nat);
        let after = unused_names(before, bs, used, n);
        if i == mid.len() && i < after.len() {
            assert(after[i] == unused_warning(bs[n - 1]));
            assert(in_vain(decls, used, after[i]));
        }
    }
}

/// A script without imports is left as it is.
pub proof fn no_imports_no_change(
    t: Table,
    file: FileView,
    diags: Seq<DiagnosticView>,
    range: RangeView,
    path: Seq<char>,
    canon: Seq<char>,
)
    requires
        forall|i: int| 0 <= i < file.decls.len() ==> !((#[trigger] file.decls[i]) is Import),
    ensures
        resolved_script(t, file, diags, range, path, canon).decls == file.decls,
        resolved_script(t, file, diags, range, path, canon).diags == diags,
{
    let g0 = Gathered {
        progress: Progress { cache: Map::empty(), diags },
        decls: Seq::empty(),
        docs: with_docs(Map::empty(), file.docs, file.docs.len()),
    };
    lemma_no_imports(t, g0, file.decls, file.decls.len(), path, set![canon]);
    lemma_all_own(file.decls, file.decls.len());
    let g = contributed(t, file, diags, path, canon);
    let own = own_decls(file.decls, file.decls.len());
    let used = decls_idents(own, own.len()).union(decls_idents(g.decls, g.decls.len()));
    lemma_no_unused(diags, file.decls, used, file.decls.len());
    assert(file.decls.take(file.decls.len() as int) =~= file.decls);
    assert(g.decls + own =~= file.decls);
}

proof fn lemma_no_imports(
    t: Table,
    g: Gathered,
    decls: Decls,
    n: nat,
    path: Seq<char>,
    stack: Names,
)
    requires
        forall|i: int| 0 <= i < decls.len() ==> !((#[trigger] decls[i]) is Import),
    ensures
        imports_resolved(t, g, decls, n, path, stack) == g,
    decreases n,
{
    if n > 0 && n <= decls.len() {
        lemma_no_imports(t, g, decls, (n - 1) as nat, path, stack);
    }
}

proof fn lemma_all_own(decls: Decls, n: nat)
    requires
        n <= decls.len(),
        forall|i: int| 0 <= i < decls.len() ==> !((#[trigger] decls[i]) is Import),
    ensures
        own_decls(decls, n) == decls.take(n as int),
    decreases n,
{
    if n > 0 {
        lemma_all_own(decls, (n - 1) as nat);
        assert(decls.take(n as int) =~= decls.take(n - 1).push(decls[n - 1]));
    } else {
        assert(decls.take(0) =~= Seq::empty());
    }
}

proof fn lemma_no_unused(diags: Seq<DiagnosticView>, decls: Decls, used: Names, n: nat)
    requires
        forall|i: int| 0 <= i < decls.len() ==> !((#[trigger] decls[i]) is Import),
    ensures
        unused_imports(diags, decls, used, n) == diags,
    decreases n,
{
    if n > 0 && n <= decls.len() {
        lemma_no_unused(diags, decls, used, (n - 1) as nat);
    }
}

/// An import of a file that is being resolved is reported, and contributes
/// nothing.
pub proof fn circular_import_contributes_nothing(
    t: Table,
    g: Gathered,
    imp: ImportDeclView,
    relative_to: Seq<char>,
    stack: Names,
)
    requires
        entry_of(t, imp.path, relative_to) matches Some(e) && stack.contains(e.canonical),
    ensures
        import_resolved(t, g, imp, relative_to, stack).decls == g.decls,
        import_resolved(t, g, imp, relative_to, stack).docs == g.docs,
        import_resolved(t, g, imp, relative_to, stack).progress.diags == g.progress.diags.push(
            circular_error(imp),
        ),
{
}

/// Resolving a file that is cached changes nothing.
pub proof fn cached_file_is_final(
    t: Table,
    p: Progress,
    path: Seq<char>,
    relative_to: Seq<char>,
    stack: Names,
)
    requires
        entry_of(t, path, relative_to) matches Some(e) && !stack.contains(e.canonical)
            && p.cache.contains_key(e.canonical),
    ensures
        file_resolved(t, p, path, relative_to, stack) == (
            p,
            Some(entry_of(t, path, relative_to)->0.canonical),
        ),
{
}

} // verus!
