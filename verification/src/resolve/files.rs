//! Where the text of scripts comes from, and what is known of each file.

use crate::assoc::AssocMap;
use crate::ast::{Script, TopDecl};
use crate::ast_view::{text_of, top_decls_view, TopDeclView};
use crate::diagnostic::{views, Diagnostic};
use crate::text::{cat2, cat3, ends_with, ends_with_text, owned, str_eq};
use vstd::prelude::*;

verus! {

/// Abstracts file access so scripts can come from a disk or from memory.
pub trait FileLoader {
    /// The text of a file, or why there is none.
    fn load(&self, path: &str, relative_to: &str) -> Result<String, String>;

    /// A path that is the same however the file is referred to.
    fn canonical_path(&self, path: &str, relative_to: &str) -> String;
}

/// A path with the suffix of scripts.
pub open spec fn script_path(path: Seq<char>) -> Seq<char> {
    if ends_with_text(path, ".ws"@) {
        path
    } else {
        path + ".ws"@
    }
}

fn with_suffix(path: &str) -> (r: String)
    ensures
        r@ == script_path(path@),
{
    if ends_with(path, ".ws") {
        owned(path)
    } else {
        cat2(path, ".ws")
    }
}

/// Files held in memory by their paths.
#[derive(Debug)]
pub struct MemLoader {
    pub files: AssocMap<String, String>,
}

/// What memory holds under a path, with or without the suffix of scripts.
pub open spec fn held(files: Map<Seq<char>, Seq<char>>, path: Seq<char>) -> Option<Seq<char>> {
    if files.contains_key(script_path(path)) {
        Some(files[script_path(path)])
    } else if files.contains_key(path) {
        Some(files[path])
    } else {
        None
    }
}

impl FileLoader for MemLoader {
    fn load(&self, path: &str, relative_to: &str) -> (r: Result<String, String>)
        ensures
            r matches Ok(text) ==> held(self.files@, path@) == Some(text@),
            r matches Err(e) ==> held(self.files@, path@) is None && e@ == "file not found: '"@
                + path@ + "'"@,
    {
        let key = with_suffix(path);
        if let Some(text) = self.files.get(&key) {
            return Ok(text.clone());
        }
        let bare = owned(path);
        if let Some(text) = self.files.get(&bare) {
            return Ok(text.clone());
        }
        Err(cat3("file not found: '", path, "'"))
    }

    fn canonical_path(&self, path: &str, relative_to: &str) -> (r: String)
        ensures
            r@ == script_path(path@),
    {
        with_suffix(path)
    }
}

/// A path keeps its canonical form.
pub proof fn canonical_path_is_stable(path: Seq<char>)
    ensures
        script_path(script_path(path)) == script_path(path),
{
    reveal_strlit(".ws");
    let with = path + ".ws"@;
    assert(with.skip(with.len() - 3) =~= ".ws"@);
}

// ---------- parsed files ----------

/// A script as it was parsed.
#[derive(Debug)]
pub struct ParseResult {
    pub ast: Script,
    pub diagnostics: Vec<Diagnostic>,
    /// Doc comments with the offset of the declaration each stands before.
    pub doc_comments: Vec<(usize, String)>,
}

/// What other files see of a script.
#[verifier::ext_equal]
pub struct FileView {
    pub decls: Seq<TopDeclView>,
    pub docs: Seq<(usize, Seq<char>)>,
    pub module_doc: Option<Seq<char>>,
}

/// Doc comments as mathematical values.
pub open spec fn doc_views(v: Seq<(usize, String)>) -> Seq<(usize, Seq<char>)> {
    Seq::new(v.len(), |i: int| (v[i].0, v[i].1@))
}

impl ParseResult {
    pub open spec fn file(self) -> FileView {
        FileView {
            decls: top_decls_view(self.ast.decls@),
            docs: doc_views(self.doc_comments@),
            module_doc: text_of(self.ast.module_doc),
        }
    }
}

/// A file with the declarations that its own imports contribute, and with its
/// doc as a module.
#[derive(Debug)]
pub struct CachedFile {
    pub decls: Vec<TopDecl>,
    pub docs: Vec<(usize, String)>,
    pub module_doc: Option<String>,
}

impl View for CachedFile {
    type V = FileView;

    open spec fn view(&self) -> FileView {
        FileView {
            decls: top_decls_view(self.decls@),
            docs: doc_views(self.docs@),
            module_doc: text_of(self.module_doc),
        }
    }
}

/// The doc comment noted for an offset, the latest if there are several.
pub open spec fn doc_at(docs: Seq<(usize, Seq<char>)>, offset: usize) -> Option<Seq<char>>
    decreases docs.len(),
{
    if docs.len() == 0 {
        None
    } else if docs.last().0 == offset {
        Some(docs.last().1)
    } else {
        doc_at(docs.drop_last(), offset)
    }
}

pub fn find_doc(docs: &Vec<(usize, String)>, offset: usize) -> (r: Option<String>)
    ensures
        text_of(r) == doc_at(doc_views(docs@), offset),
{
    let ghost all = doc_views(docs@);
    let mut i: usize = docs.len();
    assert(all.take(i as int) =~= all);
    while i > 0
        invariant
            all == doc_views(docs@),
            i <= docs@.len(),
            doc_at(all.take(i as int), offset) == doc_at(all, offset),
        decreases i,
    {
        assert(all.take(i as int).drop_last() =~= all.take(i - 1));
        i -= 1;
        if docs[i].0 == offset {
            return Some(docs[i].1.clone());
        }
    }
    assert(all.take(0) =~= Seq::empty());
    None
}

pub fn clone_docs(docs: &Vec<(usize, String)>) -> (r: Vec<(usize, String)>)
    ensures
        doc_views(r@) == doc_views(docs@),
{
    let mut out: Vec<(usize, String)> = Vec::new();
    let mut i: usize = 0;
    while i < docs.len()
        invariant
            i <= docs@.len(),
            out@.len() == i,
            forall|k: int| 0 <= k < i ==> (#[trigger] out@[k]).0 == docs@[k].0 && out@[k].1@ == docs@[k].1@,
        decreases docs.len() - i,
    {
        out.push((docs[i].0, docs[i].1.clone()));
        i += 1;
    }
    assert(doc_views(out@) =~= doc_views(docs@));
    out
}

// ---------- the files that imports lead to ----------

/// What an import of `path` in the file `relative_to` leads to. A file that
/// cannot be loaded has nothing parsed.
#[derive(Debug)]
pub struct FileEntry {
    pub path: String,
    pub relative_to: String,
    pub canonical: String,
    pub parsed: Option<ParseResult>,
}

pub struct EntryView {
    pub path: Seq<char>,
    pub relative_to: Seq<char>,
    pub canonical: Seq<char>,
    pub parsed: Option<FileView>,
}

impl View for FileEntry {
    type V = EntryView;

    open spec fn view(&self) -> EntryView {
        EntryView {
            path: self.path@,
            relative_to: self.relative_to@,
            canonical: self.canonical@,
            parsed: match self.parsed {
                Some(p) => Some(p.file()),
                None => None,
            },
        }
    }
}

/// The files that have been looked up so far.
#[derive(Debug)]
pub struct FileTable {
    pub entries: Vec<FileEntry>,
}

pub type Table = Seq<EntryView>;

impl View for FileTable {
    type V = Table;

    open spec fn view(&self) -> Table {
        views(self.entries@)
    }
}

pub open spec fn is_entry(e: EntryView, path: Seq<char>, relative_to: Seq<char>) -> bool {
    e.path == path && e.relative_to == relative_to
}

/// The place of the first entry for an import, or the length when there is
/// none.
pub open spec fn entry_place(t: Table, path: Seq<char>, relative_to: Seq<char>) -> nat
    decreases t.len(),
{
    if t.len() == 0 {
        0
    } else if entry_place(t.drop_last(), path, relative_to) < t.len() - 1 {
        entry_place(t.drop_last(), path, relative_to)
    } else if is_entry(t.last(), path, relative_to) {
        (t.len() - 1) as nat
    } else {
        t.len()
    }
}

/// What an import leads to.
pub open spec fn entry_of(t: Table, path: Seq<char>, relative_to: Seq<char>) -> Option<EntryView> {
    if entry_place(t, path, relative_to) < t.len() {
        Some(t[entry_place(t, path, relative_to) as int])
    } else {
        None
    }
}

proof fn lemma_entry_prefix(t: Table, path: Seq<char>, relative_to: Seq<char>, n: int)
    requires
        0 <= n <= t.len(),
        entry_place(t.take(n), path, relative_to) < n,
    ensures
        entry_place(t, path, relative_to) == entry_place(t.take(n), path, relative_to),
    decreases t.len(),
{
    if n == t.len() {
        assert(t.take(n) =~= t);
    } else {
        assert(t.drop_last().take(n) =~= t.take(n));
        lemma_entry_prefix(t.drop_last(), path, relative_to, n);
    }
}

impl FileTable {
    pub fn new() -> (r: FileTable)
        ensures
            r@ == Seq::<EntryView>::empty(),
    {
        let r = FileTable { entries: Vec::new() };
        assert(r@ =~= Seq::<EntryView>::empty());
        r
    }

    pub fn find(&self, path: &str, relative_to: &str) -> (r: Option<usize>)
        ensures
            r is Some <==> entry_of(self@, path@, relative_to@) is Some,
            r matches Some(i) ==> i < self.entries@.len() && entry_of(self@, path@, relative_to@)
                == Some(self.entries@[i as int]@),
    {
        let ghost all = self@;
        let mut i: usize = 0;
        while i < self.entries.len()
            invariant
                all == self@,
                i <= self.entries@.len(),
                entry_place(all.take(i as int), path@, relative_to@) == i,
            decreases self.entries@.len() - i,
        {
            assert(all.take(i + 1).drop_last() =~= all.take(i as int));
            let e = &self.entries[i];
            if str_eq(e.path.as_str(), path) && str_eq(e.relative_to.as_str(), relative_to) {
                proof {
                    lemma_entry_prefix(all, path@, relative_to@, i + 1);
                }
                return Some(i);
            }
            i += 1;
        }
        assert(all.take(i as int) =~= all);
        None
    }

    /// Adds what an import leads to.
    pub fn add_entry(&mut self, entry: FileEntry)
        ensures
            final(self)@ == old(self)@.push(entry@),
    {
        proof {
            crate::diagnostic::lemma_views_push(self.entries@, entry);
        }
        self.entries.push(entry);
    }
}

// ---------- which file to look up next ----------

/// The first of the first `n` declarations that is an import without an entry.
pub open spec fn missing_import(
    t: Table,
    decls: Seq<TopDeclView>,
    n: nat,
    relative_to: Seq<char>,
) -> Option<Seq<char>>
    decreases n,
{
    if n == 0 || n > decls.len() {
        None
    } else {
        match missing_import(t, decls, (n - 1) as nat, relative_to) {
            Some(p) => Some(p),
            None => match decls[n - 1] {
                TopDeclView::Import(imp) => if entry_of(t, imp.path, relative_to) is None {
                    Some(imp.path)
                } else {
                    None
                },
                _ => None,
            },
        }
    }
}

/// The first import without an entry among the files of the first `n` entries,
/// with the file it stands in.
pub open spec fn missing_in_table(t: Table, n: nat) -> Option<(Seq<char>, Seq<char>)>
    decreases n,
{
    if n == 0 || n > t.len() {
        None
    } else {
        match missing_in_table(t, (n - 1) as nat) {
            Some(p) => Some(p),
            None => match t[n - 1].parsed {
                Some(f) => match missing_import(t, f.decls, f.decls.len(), t[n - 1].canonical) {
                    Some(path) => Some((path, t[n - 1].canonical)),
                    None => None,
                },
                None => None,
            },
        }
    }
}

/// The next file to look up: an import of the script, or of a file that it
/// leads to.
pub open spec fn next_missing(t: Table, decls: Seq<TopDeclView>, file: Seq<char>) -> Option<
    (Seq<char>, Seq<char>),
> {
    match missing_import(t, decls, decls.len(), file) {
        Some(path) => Some((path, file)),
        None => missing_in_table(t, t.len()),
    }
}

proof fn lemma_missing_prefix(
    t: Table,
    decls: Seq<TopDeclView>,
    n: nat,
    m: nat,
    relative_to: Seq<char>,
)
    requires
        n <= m <= decls.len(),
        missing_import(t, decls, n, relative_to) is Some,
    ensures
        missing_import(t, decls, m, relative_to) == missing_import(t, decls, n, relative_to),
    decreases m - n,
{
    if n < m {
        lemma_missing_prefix(t, decls, n, (m - 1) as nat, relative_to);
    }
}

fn find_missing(files: &FileTable, decls: &Vec<TopDecl>, relative_to: &str) -> (r: Option<String>)
    ensures
        text_of(r) == missing_import(
            files@,
            top_decls_view(decls@),
            decls@.len(),
            relative_to@,
        ),
{
    let ghost all = top_decls_view(decls@);
    let mut i: usize = 0;
    while i < decls.len()
        invariant
            all == top_decls_view(decls@),
            i <= decls@.len(),
            missing_import(files@, all, i as nat, relative_to@) is None,
        decreases decls.len() - i,
    {
        if let TopDecl::Import(imp) = &decls[i] {
            if files.find(imp.path.as_str(), relative_to).is_none() {
                proof {
                    lemma_missing_prefix(files@, all, (i + 1) as nat, decls@.len(), relative_to@);
                }
                return Some(imp.path.clone());
            }
        }
        i += 1;
    }
    None
}

proof fn lemma_missing_table_prefix(t: Table, n: nat, m: nat)
    requires
        n <= m <= t.len(),
        missing_in_table(t, n) is Some,
    ensures
        missing_in_table(t, m) == missing_in_table(t, n),
    decreases m - n,
{
    if n < m {
        lemma_missing_table_prefix(t, n, (m - 1) as nat);
    }
}

/// The next import to look up before a script can be resolved, and the file it
/// stands in.
pub fn next_import(files: &FileTable, main: &Script, file: &str) -> (r: Option<(String, String)>)
    ensures
        match r {
            Some((p, f)) => Some((p@, f@)),
            None => None::<(Seq<char>, Seq<char>)>,
        } == next_missing(files@, top_decls_view(main.decls@), file@),
{
    if let Some(path) = find_missing(files, &main.decls, file) {
        return Some((path, owned(file)));
    }
    let mut i: usize = 0;
    while i < files.entries.len()
        invariant
            i <= files.entries@.len(),
            missing_import(files@, top_decls_view(main.decls@), main.decls@.len(), file@) is None,
            missing_in_table(files@, i as nat) is None,
        decreases files.entries.len() - i,
    {
        let e = &files.entries[i];
        assert(files@[i as int] == e@);
        if let Some(p) = &e.parsed {
            if let Some(path) = find_missing(files, &p.ast.decls, e.canonical.as_str()) {
                proof {
                    lemma_missing_table_prefix(files@, (i + 1) as nat, files@.len());
                }
                return Some((path, e.canonical.clone()));
            }
        }
        i += 1;
    }
    None
}

} // verus!
