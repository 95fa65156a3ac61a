//! Which files are asked for, and what of a file is kept.

use crate::ast_view::{ImportDeclView, TopDeclView};
use crate::diagnostic::{DiagnosticView, RangeView};
use crate::resolve::files::{
    doc_at, entry_of, entry_place, missing_import, missing_in_table, next_missing, EntryView,
    FileView, Table,
};
use crate::resolve::idents::Names;
use crate::resolve::imports::{
    circular_error, file_resolved, import_resolved, imports_resolved, module_doc_of, own_decls,
    resolved_script, unresolved_error, Gathered,
};
use crate::resolve::merge::{merged, Decls};
use crate::type_expr::{
    type_expr_text, type_expr_texts, type_field_texts, TypeExprView, TypeFieldView,
};
use vstd::prelude::*;

verus! {

/// A file is found by the path that was written and the file that it was
/// written in, the first entry of several.
pub proof fn entries_are_found(t: Table, path: Seq<char>, relative_to: Seq<char>, i: int)
    requires
        0 <= i < t.len(),
        t[i].path == path && t[i].relative_to == relative_to,
        forall|k: int|
            0 <= k < i ==> !((#[trigger] t[k]).path == path && t[k].relative_to == relative_to),
    ensures
        entry_of(t, path, relative_to) == Some(t[i]),
{
    lemma_entry_place(t, path, relative_to, i);
}

proof fn lemma_entry_place(t: Table, path: Seq<char>, relative_to: Seq<char>, i: int)
    requires
        0 <= i < t.len(),
        t[i].path == path && t[i].relative_to == relative_to,
        forall|k: int|
            0 <= k < i ==> !((#[trigger] t[k]).path == path && t[k].relative_to == relative_to),
    ensures
        entry_place(t, path, relative_to) == i,
    decreases t.len(),
{
    let rest = t.drop_last();
    assert forall|k: int| 0 <= k < rest.len() && k < i implies !((#[trigger] rest[k]).path == path
        && rest[k].relative_to == relative_to) by {
        assert(rest[k] == t[k]);
    }
    if i < rest.len() {
        assert(rest[i] == t[i]);
        lemma_entry_place(rest, path, relative_to, i);
    } else {
        crate::resolve::import_laws::lemma_no_entry(rest, path, relative_to);
    }
}

/// A path is asked for where no entry answers it: the first such import of a
/// file. Without one every import of the file has its entry.
pub proof fn first_unanswered_import_is_asked_for(
    t: Table,
    decls: Seq<TopDeclView>,
    n: nat,
    relative_to: Seq<char>,
    i: int,
)
    requires
        n <= decls.len(),
    ensures
        missing_import(t, decls, n, relative_to) matches Some(p) ==> exists|k: int|
            0 <= k < n && (#[trigger] decls[k]) is Import && decls[k]->Import_0.path == p
                && entry_of(t, p, relative_to) is None,
        missing_import(t, decls, n, relative_to) is None ==> (0 <= i < n && decls[i] is Import
            ==> entry_of(t, decls[i]->Import_0.path, relative_to) is Some),
        0 <= i < n && decls[i] is Import && entry_of(t, decls[i]->Import_0.path, relative_to) is None
            && (forall|k: int|
            0 <= k < i && (#[trigger] decls[k]) is Import ==> entry_of(
                t,
                decls[k]->Import_0.path,
                relative_to,
            ) is Some) ==> missing_import(t, decls, n, relative_to) == Some(
            decls[i]->Import_0.path,
        ),
    decreases n,
{
    if n > 0 {
        first_unanswered_import_is_asked_for(t, decls, (n - 1) as nat, relative_to, i);
        if let Some(p) = missing_import(t, decls, (n - 1) as nat, relative_to) {
            let k = choose|k: int|
                0 <= k < n - 1 && (#[trigger] decls[k]) is Import && decls[k]->Import_0.path == p
                    && entry_of(t, p, relative_to) is None;
            assert(decls[k] is Import);
        } else {
            assert(decls[n - 1] == decls[n - 1]);
        }
    }
}

/// The imports of the script itself are asked for first; then those of the files
/// that are there, each relative to its own place.
pub proof fn own_imports_are_asked_for_first(t: Table, decls: Seq<TopDeclView>, file: Seq<char>)
    ensures
        missing_import(t, decls, decls.len(), file) matches Some(p) ==> next_missing(t, decls, file)
            == Some((p, file)),
        missing_import(t, decls, decls.len(), file) is None ==> next_missing(t, decls, file)
            == missing_in_table(t, t.len()),
{
}

/// Once nothing is asked for, every import of every file that was read has its
/// entry.
pub proof fn nothing_is_left_to_ask_for(t: Table, n: nat, e: int, i: int)
    requires
        n <= t.len(),
        missing_in_table(t, n) is None,
        0 <= e < n,
        t[e].parsed is Some,
        0 <= i < (t[e].parsed->0).decls.len(),
        (t[e].parsed->0).decls[i] is Import,
    ensures
        entry_of(t, (t[e].parsed->0).decls[i]->Import_0.path, t[e].canonical) is Some,
    decreases n,
{
    if e < n - 1 {
        nothing_is_left_to_ask_for(t, (n - 1) as nat, e, i);
    } else {
        let f = t[e].parsed->0;
        first_unanswered_import_is_asked_for(t, f.decls, f.decls.len(), t[e].canonical, i);
    }
}

/// What is asked for in a file is asked for relative to it.
pub proof fn files_ask_relative_to_themselves(t: Table, n: nat)
    requires
        n <= t.len(),
    ensures
        missing_in_table(t, n) matches Some(p) ==> exists|e: int|
            0 <= e < n && (#[trigger] t[e]).canonical == p.1 && t[e].parsed is Some && entry_of(
                t,
                p.0,
                p.1,
            ) is None,
    decreases n,
{
    if n > 0 {
        files_ask_relative_to_themselves(t, (n - 1) as nat);
        if let Some(p) = missing_in_table(t, (n - 1) as nat) {
            let e = choose|e: int|
                0 <= e < n - 1 && (#[trigger] t[e]).canonical == p.1 && t[e].parsed is Some
                    && entry_of(t, p.0, p.1) is None;
            assert(t[e].canonical == p.1);
        } else if let Some(f) = t[n - 1].parsed {
            first_unanswered_import_is_asked_for(t, f.decls, f.decls.len(), t[n - 1].canonical, 0);
            assert(t[n - 1].canonical == t[n - 1].canonical);
        }
    }
}

/// The documentation of a file is its own, or that of the first thing it
/// declares.
pub proof fn files_are_documented(file: FileView)
    ensures
        file.module_doc matches Some(d) ==> module_doc_of(file) == Some(d),
        file.module_doc is None && own_decls(file.decls, file.decls.len()).len() == 0
            ==> module_doc_of(file) is None,
        file.module_doc is None && file.decls.len() > 0 && file.decls.len() == 1 ==> (
        file.decls[0] matches TopDeclView::Chip(c) ==> module_doc_of(file) == doc_at(
            file.docs,
            c.range.start.offset,
        )),
        file.module_doc is None && file.decls.len() == 1 ==> (file.decls[0] matches TopDeclView::Var(v)
            ==> module_doc_of(file) == doc_at(file.docs, v.range.start.offset)),
{
    if file.decls.len() == 1 && !(file.decls[0] is Import) {
        reveal_with_fuel(own_decls, 2);
        assert(own_decls(file.decls, 1) =~= seq![file.decls[0]]);
    }
}

/// The documentation of a place is what was written last for it.
pub proof fn last_documentation_counts(docs: Seq<(usize, Seq<char>)>, at: usize, d: Seq<char>)
    ensures
        doc_at(docs.push((at, d)), at) == Some(d),
        forall|other: usize|
            other != at ==> #[trigger] doc_at(docs.push((at, d)), other) == doc_at(docs, other),
{
    assert(docs.push((at, d)).drop_last() =~= docs);
}

/// Imports are resolved one behind the other.
pub proof fn imports_are_resolved_in_order(
    t: Table,
    g: Gathered,
    decls: Decls,
    n: nat,
    relative_to: Seq<char>,
    stack: Names,
)
    requires
        0 < n <= decls.len(),
    ensures
        ({
            let before = imports_resolved(t, g, decls, (n - 1) as nat, relative_to, stack);
            let after = imports_resolved(t, g, decls, n, relative_to, stack);
            match decls[n - 1] {
                TopDeclView::Import(imp) => after == import_resolved(
                    t,
                    before,
                    imp,
                    relative_to,
                    stack,
                ),
                _ => after == before,
            }
        }),
{
    reveal_with_fuel(imports_resolved, 2);
}

/// An import of a file that is being read already is circular: it is reported
/// and brings nothing.
pub proof fn circles_are_reported(
    t: Table,
    g: Gathered,
    imp: ImportDeclView,
    relative_to: Seq<char>,
    stack: Names,
    e: EntryView,
)
    requires
        entry_of(t, imp.path, relative_to) == Some(e),
        stack.contains(e.canonical),
    ensures
        ({
            let r = import_resolved(t, g, imp, relative_to, stack);
            &&& r.decls == g.decls
            &&& r.docs == g.docs
            &&& r.progress.cache == g.progress.cache
            &&& r.progress.diags == g.progress.diags.push(circular_error(imp))
        }),
{
}

/// A file that was resolved before is merged as it was resolved.
pub proof fn resolved_files_are_merged(
    t: Table,
    g: Gathered,
    imp: ImportDeclView,
    relative_to: Seq<char>,
    stack: Names,
    e: EntryView,
)
    requires
        entry_of(t, imp.path, relative_to) == Some(e),
        !stack.contains(e.canonical),
        g.progress.cache.contains_key(e.canonical),
    ensures
        ({
            let r = import_resolved(t, g, imp, relative_to, stack);
            let file = g.progress.cache[e.canonical];
            &&& r.decls == merged(g.decls, g.progress.diags, imp, file).0
            &&& r.progress.diags == merged(g.decls, g.progress.diags, imp, file).1
            &&& r.progress.cache == g.progress.cache
        }),
{
    reveal_with_fuel(file_resolved, 2);
    reveal_with_fuel(import_resolved, 2);
}

/// A file that could not be read is reported as one that was not found.
pub proof fn unreadable_files_are_reported(
    t: Table,
    g: Gathered,
    imp: ImportDeclView,
    relative_to: Seq<char>,
    stack: Names,
    e: EntryView,
)
    requires
        entry_of(t, imp.path, relative_to) == Some(e),
        !stack.contains(e.canonical),
        !g.progress.cache.contains_key(e.canonical),
        e.parsed is None,
    ensures
        ({
            let r = import_resolved(t, g, imp, relative_to, stack);
            &&& r.decls == g.decls
            &&& r.progress.diags == g.progress.diags.push(unresolved_error(imp))
        }),
{
    reveal_with_fuel(file_resolved, 2);
    reveal_with_fuel(import_resolved, 2);
}

/// A script keeps its own range and documentation.
pub proof fn scripts_keep_their_documentation(
    t: Table,
    file: FileView,
    diags: Seq<DiagnosticView>,
    range: RangeView,
    path: Seq<char>,
    canon: Seq<char>,
)
    ensures
        resolved_script(t, file, diags, range, path, canon).range == range,
        resolved_script(t, file, diags, range, path, canon).module_doc == file.module_doc,
{
}

// ---------- types as they are written ----------

/// A type expression is written back with its parts in order.
pub proof fn type_expressions_are_written(
    a: TypeExprView,
    b: TypeExprView,
    t: TypeExprView,
    f: TypeFieldView,
    g: TypeFieldView,
)
    ensures
        t matches TypeExprView::Name { name, .. } ==> type_expr_text(t) == name,
        t matches TypeExprView::Ref { inner, .. } ==> *inner == a ==> type_expr_text(t) == "*"@
            + type_expr_text(a),
        t matches TypeExprView::Array { inner, .. } ==> *inner == a ==> type_expr_text(t)
            == type_expr_text(a) + "[]"@,
        t matches TypeExprView::Tuple { fields, .. } ==> fields == seq![a, b] ==> type_expr_text(t)
            == "("@ + (type_expr_text(a) + ", "@ + type_expr_text(b)) + ")"@,
        t matches TypeExprView::Union { options, .. } ==> options == seq![a, b] ==> type_expr_text(t)
            == type_expr_text(a) + " | "@ + type_expr_text(b),
        t matches TypeExprView::Record { fields, .. } ==> fields == seq![f, g] ==> type_expr_text(t)
            == "{"@ + ((f.name + ": "@ + type_expr_text(f.typ)) + ", "@ + (g.name + ": "@
            + type_expr_text(g.typ))) + "}"@,
{
    let ta = type_expr_text(a);
    let tb = type_expr_text(b);
    let two = seq![a, b];
    reveal_with_fuel(type_expr_texts, 2);
    reveal_with_fuel(type_field_texts, 2);
    assert(two[0] == a && two[1] == b);
    assert(type_expr_texts(two)[0] == ta && type_expr_texts(two)[1] == tb);
    assert(type_expr_texts(two) =~= seq![ta, tb]);
    crate::text_laws::parts_are_joined(seq![ta], ta, tb, ", "@);
    crate::text_laws::parts_are_joined(seq![ta], ta, tb, " | "@);
    let tf = f.name + ": "@ + type_expr_text(f.typ);
    let tg = g.name + ": "@ + type_expr_text(g.typ);
    let fs = seq![f, g];
    assert(fs[0] == f && fs[1] == g);
    assert(type_field_texts(fs)[0] == tf && type_field_texts(fs)[1] == tg);
    assert(type_field_texts(fs) =~= seq![tf, tg]);
    crate::text_laws::parts_are_joined(seq![tf], tf, tg, ", "@);
}

} // verus!
