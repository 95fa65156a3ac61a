//! What imports bring into a script.

use crate::ast_view::{
    ArrayElemView, CallArgView, ExprView, ImportBindingView, ImportDeclView, ImportKindView,
    LetBindingView, RecordLitFieldView, StmtView, TopDeclView,
};
use crate::diagnostic::{DiagnosticView, Severity};
use crate::resolve::alias::{expanded, expanded_decl, Aliases};
use crate::resolve::files::{entry_place, held, script_path, FileView, Table};
use crate::resolve::idents::{
    args_idents, array_idents, buffer_idents, callback_idents, chip_idents, decl_names, decls_names,
    decls_runtime, elems_idents, expr_idents, handler_idents, let_idents, opt_expr_idents,
    out_idents, record_idents, stmt_idents, stmts_idents, trigger_idents, type_idents, var_idents,
    Names,
};
use crate::resolve::imports::{
    circular_error, import_resolved, own_decls, unresolved_error, unused_names, unused_warning,
    with_docs, Gathered,
};
use crate::resolve::merge::{
    aliases_of, all_merged, goes_by, has_any, has_own, importable, importables, local_name, merged,
    name_of, named_decl, names_merged, pull_round, pulled, redefinable, renamed, Decls,
};
use crate::type_expr::TypeExprView;
use vstd::prelude::*;

verus! {

/// Whether a declaration of one of the kinds that can be imported declares a
/// name.
pub open spec fn declares(d: TopDeclView, name: Seq<char>) -> bool {
    match d {
        TopDeclView::Chip(x) => x.name == name,
        TopDeclView::Fn(x) => x.name == name,
        TopDeclView::Let(x) => x.binding matches LetBindingView::Ident { name: n, .. } && n == name,
        TopDeclView::Event(x) => x.name == name,
        TopDeclView::Var(x) => x.name == name,
        TopDeclView::Array(x) => x.name == name,
        TopDeclView::Buffer(x) => x.name == name,
        TopDeclView::In(x) => x.name == name,
        TopDeclView::Out(x) => x.name == name,
        TopDeclView::TypeAlias(x) => x.name == name,
        TopDeclView::Callback(x) => x.name == name,
        _ => false,
    }
}

/// Whether some declaration of a list declares a name.
pub open spec fn declared_in(decls: Decls, name: Seq<char>) -> bool {
    exists|i: int| 0 <= i < decls.len() && declares(#[trigger] decls[i], name)
}

// ---------- importing everything ----------

/// Importing a whole file keeps what was there, in its place, and adds only
/// declarations of the file.
pub proof fn importing_all_adds_behind(target: Decls, decls: Decls, n: nat)
    ensures
        target.is_prefix_of(all_merged(target, decls, n)),
        forall|j: int|
            target.len() <= j < all_merged(target, decls, n).len() ==> decls.contains(
                #[trigger] all_merged(target, decls, n)[j],
            ),
    decreases n,
{
    if n > 0 && n <= decls.len() {
        importing_all_adds_behind(target, decls, (n - 1) as nat);
        let before = all_merged(target, decls, (n - 1) as nat);
        let after = all_merged(target, decls, n);
        assert forall|j: int| target.len() <= j < after.len() implies decls.contains(
            #[trigger] after[j],
        ) by {
            if j < before.len() {
                assert(after[j] == before[j]);
            } else {
                assert(after[j] == decls[n - 1]);
            }
        }
    }
}

proof fn lemma_all_grows(target: Decls, decls: Decls, n: nat, m: nat)
    requires
        n <= m <= decls.len(),
    ensures
        all_merged(target, decls, n).is_prefix_of(all_merged(target, decls, m)),
    decreases m,
{
    if n < m {
        lemma_all_grows(target, decls, n, (m - 1) as nat);
    }
}

/// After a whole file is imported, every name that it declares is declared; and
/// where the name was free, by the file's own declaration.
pub proof fn importing_all_brings_every_name(target: Decls, decls: Decls, i: int, name: Seq<char>)
    requires
        0 <= i < decls.len(),
        declares(decls[i], name),
    ensures
        ({
            let all = all_merged(target, decls, decls.len());
            &&& declared_in(all, name)
            &&& !declared_in(target, name) && (forall|k: int|
                0 <= k < i ==> !declares(#[trigger] decls[k], name)) ==> all.contains(decls[i])
        }),
{
    let all = all_merged(target, decls, decls.len());
    let before = all_merged(target, decls, i as nat);
    let after = all_merged(target, decls, (i + 1) as nat);
    let d = decls[i];
    assert(importable(d) && name_of(d) == Some(name));
    lemma_all_grows(target, decls, (i + 1) as nat, decls.len());
    lemma_all_grows(target, decls, i as nat, decls.len());
    if has_own(before, name) {
        let k = choose|k: int|
            0 <= k < before.len() && goes_by(#[trigger] before[k], name) && !redefinable(before[k]);
        assert(all[k] == before[k]);
        assert(declares(all[k], name));
        if !declared_in(target, name) && (forall|k: int|
            0 <= k < i ==> !declares(#[trigger] decls[k], name)) {
            importing_all_adds_behind(target, decls, i as nat);
            lemma_from_first(target, decls, i as nat, k);
            if k < target.len() {
                assert(target[k] == before[k]);
                assert(declares(target[k], name));
            } else {
                let m = choose|m: int| 0 <= m < i && decls[m] == before[k];
                assert(declares(decls[m], name));
            }
        }
    } else {
        assert(after[before.len() as int] == d);
        assert(all[before.len() as int] == d);
        assert(declares(all[before.len() as int], name));
    }
}

proof fn lemma_from_first(target: Decls, decls: Decls, n: nat, k: int)
    requires
        n <= decls.len(),
        0 <= k < all_merged(target, decls, n).len(),
    ensures
        k < target.len() || exists|m: int|
            0 <= m < n && decls[m] == all_merged(target, decls, n)[k],
    decreases n,
{
    if n > 0 {
        let before = all_merged(target, decls, (n - 1) as nat);
        if k < before.len() {
            lemma_from_first(target, decls, (n - 1) as nat, k);
            assert(all_merged(target, decls, n)[k] == before[k]);
            if k >= target.len() {
                let m = choose|m: int| 0 <= m < n - 1 && decls[m] == before[k];
                assert(0 <= m < n && decls[m] == all_merged(target, decls, n)[k]);
            }
        } else {
            assert(decls[n - 1] == all_merged(target, decls, n)[k]);
        }
    }
}

/// A callback joins the callbacks that share its name.
pub proof fn callbacks_are_imported_beside_others(target: Decls, decls: Decls, i: int)
    requires
        0 <= i < decls.len(),
        decls[i] is Callback,
        forall|k: int|
            0 <= k < target.len() && declares(#[trigger] target[k], decls[i]->Callback_0.name)
                ==> target[k] is Callback,
        forall|k: int|
            0 <= k < decls.len() && declares(#[trigger] decls[k], decls[i]->Callback_0.name)
                ==> decls[k] is Callback,
    ensures
        all_merged(target, decls, decls.len()).contains(decls[i]),
{
    let name = decls[i]->Callback_0.name;
    let all = all_merged(target, decls, decls.len());
    let before = all_merged(target, decls, i as nat);
    importing_all_adds_behind(target, decls, i as nat);
    assert(!has_own(before, name)) by {
        if has_own(before, name) {
            let k = choose|k: int|
                0 <= k < before.len() && goes_by(#[trigger] before[k], name) && !redefinable(
                    before[k],
                );
            lemma_from_first(target, decls, i as nat, k);
            assert(declares(before[k], name));
            if k < target.len() {
                assert(target[k] == before[k]);
            } else {
                let m = choose|m: int| 0 <= m < i && decls[m] == before[k];
                assert(declares(decls[m], name));
            }
        }
    }
    let after = all_merged(target, decls, (i + 1) as nat);
    lemma_all_grows(target, decls, (i + 1) as nat, decls.len());
    assert(after[before.len() as int] == decls[i]);
    assert(all[before.len() as int] == decls[i]);
}

/// The whole import of a file reports nothing.
pub proof fn whole_imports_bring_every_name(
    target: Decls,
    diags: Seq<DiagnosticView>,
    imp: ImportDeclView,
    file: FileView,
    i: int,
    name: Seq<char>,
)
    requires
        imp.kind is All,
        0 <= i < file.decls.len(),
        declares(file.decls[i], name),
    ensures
        merged(target, diags, imp, file).1 == diags,
        declared_in(merged(target, diags, imp, file).0, name),
{
    importing_all_brings_every_name(target, file.decls, i, name);
}

// ---------- importing by name ----------

/// The declaration that an import by name finds: the first of that name.
pub proof fn first_declaration_is_found(decls: Decls, name: Seq<char>, n: nat, i: int)
    requires
        n <= decls.len(),
    ensures
        0 <= i < n && declares(decls[i], name) && (forall|k: int|
            0 <= k < i ==> !declares(#[trigger] decls[k], name)) ==> named_decl(decls, name, n)
            == Some(decls[i]),
        (forall|k: int| 0 <= k < n ==> !declares(#[trigger] decls[k], name)) ==> named_decl(
            decls,
            name,
            n,
        ) is None,
    decreases n,
{
    if n > 0 {
        first_declaration_is_found(decls, name, (n - 1) as nat, i);
        assert(importable(decls[n - 1]) && goes_by(decls[n - 1], name) <==> declares(
            decls[n - 1],
            name,
        ));
        if i == n - 1 && declares(decls[i], name) && (forall|k: int|
            0 <= k < i ==> !declares(#[trigger] decls[k], name)) {
            assert(forall|k: int| 0 <= k < n - 1 ==> !declares(#[trigger] decls[k], name));
        }
    }
}

/// A renamed declaration declares the new name and stays what it is.
pub proof fn renaming_changes_the_name(d: TopDeclView, old_name: Seq<char>, name: Seq<char>)
    requires
        declares(d, old_name),
        !(d is Callback),
    ensures
        declares(renamed(d, name), name),
        d matches TopDeclView::Chip(a) ==> (renamed(d, name) matches TopDeclView::Chip(b) && a.body
            == b.body && a.inputs == b.inputs && a.outputs == b.outputs),
        d matches TopDeclView::Fn(a) ==> (renamed(d, name) matches TopDeclView::Fn(b) && a.body
            == b.body && a.params == b.params && a.return_type == b.return_type),
        d matches TopDeclView::Let(a) ==> (renamed(d, name) matches TopDeclView::Let(b) && a.value
            == b.value && a.typ == b.typ),
        d matches TopDeclView::Var(a) ==> (renamed(d, name) matches TopDeclView::Var(b) && a.init
            == b.init && a.typ == b.typ && a.is_static == b.is_static),
        d matches TopDeclView::Array(a) ==> (renamed(d, name) matches TopDeclView::Array(b)
            && a.element_type == b.element_type && a.init == b.init),
        d matches TopDeclView::TypeAlias(a) ==> (renamed(d, name) matches TopDeclView::TypeAlias(b)
            && a.typ == b.typ),
        d matches TopDeclView::Buffer(a) ==> (renamed(d, name) matches TopDeclView::Buffer(b)
            && a.init == b.init && a.typ == b.typ),
        d matches TopDeclView::In(a) ==> (renamed(d, name) matches TopDeclView::In(b) && a.typ
            == b.typ),
        d matches TopDeclView::Event(a) ==> (renamed(d, name) matches TopDeclView::Event(b)
            && a.source == b.source && a.captured_body == b.captured_body),
{
}

/// One name imported: the file's declaration of it is added, under the alias if
/// there is one, unless the name is taken; a name that the file does not
/// declare is reported.
pub proof fn names_are_imported(
    target: Decls,
    diags: Seq<DiagnosticView>,
    decls: Decls,
    imp: ImportDeclView,
    b: ImportBindingView,
    i: int,
)
    requires
        !declared_in(
            target,
            match b.alias {
                Some(a) => a,
                None => b.name,
            },
        ),
    ensures
        ({
            let (t, d) = names_merged(target, diags, decls, imp, seq![b], 1);
            &&& 0 <= i < decls.len() && declares(decls[i], b.name) && (forall|k: int|
                0 <= k < i ==> !declares(#[trigger] decls[k], b.name)) ==> {
                &&& d == diags
                &&& t.len() == target.len() + 1 && t.drop_last() == target
                &&& b.alias is None ==> t.last() == decls[i]
                &&& b.alias matches Some(a) ==> !(decls[i] is Callback) ==> declares(t.last(), a)
            }
            &&& (forall|k: int| 0 <= k < decls.len() ==> !declares(#[trigger] decls[k], b.name)) ==> {
                &&& t == target
                &&& d == diags.push(
                    DiagnosticView {
                        severity: Severity::Error,
                        code: "WS012"@,
                        message: "'"@ + b.name + "' not found in '"@ + imp.path + "'"@,
                        range: imp.range,
                    },
                )
            }
        }),
{
    let bs = seq![b];
    assert(names_merged(target, diags, decls, imp, bs, 0) == (target, diags));
    first_declaration_is_found(decls, b.name, decls.len(), i);
    assert(!has_own(target, local_name(b))) by {
        if has_own(target, local_name(b)) {
            let k = choose|k: int|
                0 <= k < target.len() && goes_by(#[trigger] target[k], local_name(b))
                    && !redefinable(target[k]);
            assert(declares(target[k], local_name(b)));
        }
    }
    let t = names_merged(target, diags, decls, imp, bs, 1).0;
    assert(bs[0] == b);
    if 0 <= i < decls.len() && declares(decls[i], b.name) && (forall|k: int|
        0 <= k < i ==> !declares(#[trigger] decls[k], b.name)) {
        assert(t.drop_last() =~= target);
        if b.alias is Some && !(decls[i] is Callback) {
            renaming_changes_the_name(decls[i], b.name, b.alias->0);
        }
    }
}

/// What the imported declarations refer to comes along: at the end, no name
/// that they refer to when they run, that the file declares, and that was not
/// asked for, is missing. Type aliases are written out instead.
pub proof fn references_come_along(
    target: Decls,
    decls: Decls,
    asked: Names,
    i: int,
    name: Seq<char>,
)
    requires
        0 <= i < decls.len(),
        declares(decls[i], name),
        !(decls[i] is TypeAlias),
        !asked.contains(name),
    ensures
        ({
            let all = pulled(target, decls, asked);
            decls_runtime(all, all.len()).contains(name) ==> declared_in(all, name)
        }),
    decreases crate::resolve::merge::absent(decls, target, decls.len()),
{
    let used = decls_runtime(target, target.len());
    let next = pull_round(target, used, decls, asked, decls.len());
    if next.len() > target.len() {
        crate::resolve::merge::lemma_pull_shrinks(target, decls, asked);
        references_come_along(next, decls, asked, i, name);
    } else {
        if used.contains(name) {
            lemma_round_pulls(target, used, decls, asked, decls.len(), i, name);
            assert(next =~= target) by {
                lemma_round_prefix(target, used, decls, asked, decls.len());
            }
            let k = choose|k: int| 0 <= k < next.len() && goes_by(#[trigger] next[k], name);
            lemma_any_declares(next, name);
        }
    }
}

proof fn lemma_any_declares(v: Decls, name: Seq<char>)
    requires
        has_any(v, name),
    ensures
        declared_in(v, name),
{
    let k = choose|k: int| 0 <= k < v.len() && goes_by(#[trigger] v[k], name);
    assert(declares(v[k], name));
}

proof fn lemma_round_prefix(target: Decls, used: Names, decls: Decls, asked: Names, n: nat)
    ensures
        target.is_prefix_of(pull_round(target, used, decls, asked, n)),
    decreases n,
{
    if n > 0 && n <= decls.len() {
        lemma_round_prefix(target, used, decls, asked, (n - 1) as nat);
    }
}

proof fn lemma_round_pulls(
    target: Decls,
    used: Names,
    decls: Decls,
    asked: Names,
    n: nat,
    i: int,
    name: Seq<char>,
)
    requires
        0 <= i < n <= decls.len(),
        declares(decls[i], name),
        !(decls[i] is TypeAlias),
        !asked.contains(name),
        used.contains(name),
    ensures
        has_any(pull_round(target, used, decls, asked, n), name),
    decreases n,
{
    let before = pull_round(target, used, decls, asked, (n - 1) as nat);
    let after = pull_round(target, used, decls, asked, n);
    if i < n - 1 {
        lemma_round_pulls(target, used, decls, asked, (n - 1) as nat, i, name);
        let k = choose|k: int| 0 <= k < before.len() && goes_by(#[trigger] before[k], name);
        assert(after[k] == before[k]);
    } else {
        assert(importable(decls[i]) && name_of(decls[i]) == Some(name));
        if has_any(before, name) {
            let k = choose|k: int| 0 <= k < before.len() && goes_by(#[trigger] before[k], name);
            assert(after[k] == before[k]);
        } else {
            assert(after[before.len() as int] == decls[i]);
            assert(goes_by(after[before.len() as int], name));
        }
    }
}

// ---------- namespaces ----------

/// The members of a namespace are the declarations of the file that can be
/// imported, in their order.
pub proof fn namespaces_hold_the_file(
    target: Decls,
    diags: Seq<DiagnosticView>,
    imp: ImportDeclView,
    file: FileView,
    ns: Seq<char>,
    i: int,
    name: Seq<char>,
)
    requires
        imp.kind == ImportKindView::Namespace(ns),
    ensures
        ({
            let (t, d) = merged(target, diags, imp, file);
            &&& d == diags
            &&& t.len() == target.len() + 1 && t.drop_last() == target
            &&& t.last() matches TopDeclView::Namespace(n) && n.name == ns && n.source_path
                == imp.path && n.module_doc == file.module_doc && (0 <= i < file.decls.len()
                && declares(file.decls[i], name) ==> n.decls.contains(file.decls[i])) && (forall|
                k: int,
            |
                0 <= k < n.decls.len() ==> file.decls.contains(#[trigger] n.decls[k]))
        }),
{
    let t = merged(target, diags, imp, file).0;
    assert(t.drop_last() =~= target);
    lemma_importables(file.decls, file.decls.len(), i, name);
}

proof fn lemma_importables(decls: Decls, n: nat, i: int, name: Seq<char>)
    requires
        n <= decls.len(),
    ensures
        0 <= i < n && declares(decls[i], name) ==> importables(decls, n).contains(decls[i]),
        forall|k: int|
            0 <= k < importables(decls, n).len() ==> decls.contains(
                #[trigger] importables(decls, n)[k],
            ),
    decreases n,
{
    if n > 0 {
        lemma_importables(decls, (n - 1) as nat, i, name);
        let before = importables(decls, (n - 1) as nat);
        let after = importables(decls, n);
        if 0 <= i < n - 1 && declares(decls[i], name) {
            let k = choose|k: int| 0 <= k < before.len() && before[k] == decls[i];
            assert(after[k] == decls[i]);
        }
        if i == n - 1 && declares(decls[i], name) {
            assert(after[before.len() as int] == decls[i]);
        }
        assert forall|k: int| 0 <= k < after.len() implies decls.contains(#[trigger] after[k]) by {
            if k < before.len() {
                assert(after[k] == before[k]);
            } else {
                assert(after[k] == decls[n - 1]);
            }
        }
    }
}

// ---------- aliases ----------

/// An alias is replaced by what it stands for, wherever its name stands in a
/// type; every other name stays.
pub proof fn aliases_are_replaced(t: TypeExprView, aliases: Aliases)
    ensures
        t matches TypeExprView::Name { name, .. } ==> aliases.contains_key(name) ==> expanded(
            t,
            aliases,
        ) == aliases[name],
        t matches TypeExprView::Name { name, .. } ==> !aliases.contains_key(name) ==> expanded(
            t,
            aliases,
        ) == t,
        t matches TypeExprView::Ref { inner, range } ==> expanded(t, aliases) == (
        TypeExprView::Ref { inner: Box::new(expanded(*inner, aliases)), range }),
        t matches TypeExprView::Array { inner, range } ==> expanded(t, aliases) == (
        TypeExprView::Array { inner: Box::new(expanded(*inner, aliases)), range }),
        t matches TypeExprView::Tuple { fields, .. } ==> (expanded(
            t,
            aliases,
        ) matches TypeExprView::Tuple { fields: after, .. } && after.len() == fields.len() && forall|
            i: int,
        |
            0 <= i < fields.len() ==> #[trigger] after[i] == expanded(fields[i], aliases)),
        t matches TypeExprView::Union { options, .. } ==> (expanded(
            t,
            aliases,
        ) matches TypeExprView::Union { options: after, .. } && after.len() == options.len()
            && forall|i: int|
            0 <= i < options.len() ==> #[trigger] after[i] == expanded(options[i], aliases)),
        t matches TypeExprView::Record { fields, .. } ==> (expanded(
            t,
            aliases,
        ) matches TypeExprView::Record { fields: after, .. } && after.len() == fields.len()
            && forall|i: int|
            0 <= i < fields.len() ==> (#[trigger] after[i]).name == fields[i].name && after[i].typ
                == expanded(fields[i].typ, aliases)),
{
    match t {
        TypeExprView::Tuple { fields, .. } => lemma_expanded_types(fields, aliases, fields.len()),
        TypeExprView::Union { options, .. } => lemma_expanded_types(options, aliases, options.len()),
        TypeExprView::Record { fields, .. } => lemma_expanded_fields(fields, aliases, fields.len()),
        _ => {},
    }
}

proof fn lemma_expanded_types(v: Seq<TypeExprView>, aliases: Aliases, n: nat)
    requires
        n <= v.len(),
    ensures
        crate::resolve::alias::expanded_types(v, aliases, n).len() == n,
        forall|i: int|
            0 <= i < n ==> #[trigger] crate::resolve::alias::expanded_types(v, aliases, n)[i]
                == expanded(v[i], aliases),
    decreases n,
{
    if n > 0 {
        lemma_expanded_types(v, aliases, (n - 1) as nat);
    }
}

proof fn lemma_expanded_fields(
    v: Seq<crate::type_expr::TypeFieldView>,
    aliases: Aliases,
    n: nat,
)
    requires
        n <= v.len(),
    ensures
        crate::resolve::alias::expanded_fields(v, aliases, n).len() == n,
        forall|i: int|
            0 <= i < n ==> (#[trigger] crate::resolve::alias::expanded_fields(v, aliases, n)[i]).name
                == v[i].name && crate::resolve::alias::expanded_fields(v, aliases, n)[i].typ
                == expanded(v[i].typ, aliases),
    decreases n,
{
    if n > 0 {
        lemma_expanded_fields(v, aliases, (n - 1) as nat);
    }
}

/// The aliases of a file are found under their names, the last of several.
pub proof fn aliases_are_collected(decls: Decls, n: nat, i: int)
    requires
        0 <= i < n <= decls.len(),
        decls[i] is TypeAlias,
        forall|k: int|
            i < k < n && (#[trigger] decls[k]) is TypeAlias ==> decls[k]->TypeAlias_0.name
                != decls[i]->TypeAlias_0.name,
    ensures
        aliases_of(decls, n).contains_key(decls[i]->TypeAlias_0.name),
        aliases_of(decls, n)[decls[i]->TypeAlias_0.name] == decls[i]->TypeAlias_0.typ,
    decreases n,
{
    if i < n - 1 {
        aliases_are_collected(decls, (n - 1) as nat, i);
    }
}

/// Writing out aliases changes types alone: every declaration keeps its name,
/// and the parameters of chips, functions and callbacks and the annotations of
/// lets, variables, buffers, inputs and outputs have their aliases written out.
pub proof fn declarations_are_written_out(
    d: TopDeclView,
    aliases: Aliases,
    i: int,
    name: Seq<char>,
)
    ensures
        declares(d, name) ==> declares(expanded_decl(d, aliases), name),
        d matches TopDeclView::Chip(a) ==> (expanded_decl(d, aliases) matches TopDeclView::Chip(b)
            && a.body == b.body && b.inputs.len() == a.inputs.len() && b.outputs.len()
            == a.outputs.len() && (0 <= i < a.inputs.len() ==> b.inputs[i].name == a.inputs[i].name
            && b.inputs[i].typ == expanded(a.inputs[i].typ, aliases)) && (0 <= i < a.outputs.len()
            ==> b.outputs[i].name == a.outputs[i].name && b.outputs[i].typ == expanded(
            a.outputs[i].typ,
            aliases,
        ))),
        d matches TopDeclView::Fn(a) ==> (expanded_decl(d, aliases) matches TopDeclView::Fn(b)
            && a.body == b.body && b.params.len() == a.params.len() && (0 <= i < a.params.len()
            ==> b.params[i].typ == expanded(a.params[i].typ, aliases)) && (a.return_type matches Some(
            t,
        ) ==> b.return_type == Some(expanded(t, aliases)))),
        d matches TopDeclView::Callback(a) ==> (expanded_decl(
            d,
            aliases,
        ) matches TopDeclView::Callback(b) && a.body == b.body && b.inputs.len() == a.inputs.len()
            && (0 <= i < a.inputs.len() ==> b.inputs[i].typ == expanded(a.inputs[i].typ, aliases))),
        d matches TopDeclView::Let(a) ==> (expanded_decl(d, aliases) matches TopDeclView::Let(b)
            && a.value == b.value && a.binding == b.binding && (a.typ matches Some(t) ==> b.typ
            == Some(expanded(t, aliases)))),
        d matches TopDeclView::Var(a) ==> (expanded_decl(d, aliases) matches TopDeclView::Var(b)
            && a.init == b.init && (a.typ matches Some(t) ==> b.typ == Some(expanded(t, aliases)))),
        d matches TopDeclView::Buffer(a) ==> (expanded_decl(d, aliases) matches TopDeclView::Buffer(
            b,
        ) && a.init == b.init && (a.typ matches Some(t) ==> b.typ == Some(expanded(t, aliases)))),
        d matches TopDeclView::Out(a) ==> (expanded_decl(d, aliases) matches TopDeclView::Out(b)
            && a.value == b.value && (a.typ matches Some(t) ==> b.typ == Some(
            expanded(t, aliases),
        ))),
        d matches TopDeclView::In(a) ==> (expanded_decl(d, aliases) matches TopDeclView::In(b)
            && b.typ == expanded(a.typ, aliases)),
        d is Array || d is Event || d is TypeAlias || d is Handler || d is Namespace || d is AnonChip
            ==> expanded_decl(d, aliases) == d,
{
}

// ---------- what is referred to ----------

/// An expression refers to its names and to what its parts refer to.
pub proof fn expressions_refer_to_their_parts(e: ExprView, i: int)
    ensures
        e matches ExprView::Ident { name, .. } ==> expr_idents(e) == set![name],
        e matches ExprView::BinOp { left, right, .. } ==> expr_idents(e) == expr_idents(*left).union(
            expr_idents(*right),
        ),
        e matches ExprView::UnOp { operand, .. } ==> expr_idents(e) == expr_idents(*operand),
        e matches ExprView::Deref { operand, .. } ==> expr_idents(e) == expr_idents(*operand),
        e matches ExprView::RefOf { operand, .. } ==> expr_idents(e) == expr_idents(*operand),
        e matches ExprView::FieldAccess { obj, .. } ==> expr_idents(e) == expr_idents(*obj),
        e matches ExprView::TuplePick { obj, .. } ==> expr_idents(e) == expr_idents(*obj),
        e matches ExprView::IndexAccess { obj, index, .. } ==> expr_idents(*obj).subset_of(
            expr_idents(e),
        ) && expr_idents(*index).subset_of(expr_idents(e)),
        e matches ExprView::IfExpr { cond, then_branch, else_branch, .. } ==> expr_idents(
            *cond,
        ).subset_of(expr_idents(e)) && expr_idents(*then_branch).subset_of(expr_idents(e))
            && expr_idents(*else_branch).subset_of(expr_idents(e)),
        e matches ExprView::Call { callee, args, .. } ==> expr_idents(*callee).subset_of(
            expr_idents(e),
        ) && (0 <= i < args.len() ==> expr_idents(argument_value(args[i])).subset_of(expr_idents(e))),
        e matches ExprView::Array { elements, .. } ==> 0 <= i < elements.len() ==> (
        elements[i] matches ArrayElemView::Item(x) ==> expr_idents(x).subset_of(expr_idents(e))),
        e matches ExprView::RecordLit { fields, .. } ==> 0 <= i < fields.len()
            ==> match fields[i] {
            RecordLitFieldView::Named { value, .. } => expr_idents(value).subset_of(expr_idents(e)),
            RecordLitFieldView::Shorthand { name, .. } => expr_idents(e).contains(name),
            RecordLitFieldView::Spread { value, .. } => expr_idents(value).subset_of(expr_idents(e)),
        },
        e is IntLit || e is FloatLit || e is StringLit || e is BoolLit ==> expr_idents(e)
            == Set::<Seq<char>>::empty(),
{
    match e {
        ExprView::Call { args, .. } => {
            if 0 <= i < args.len() {
                lemma_args(args, args.len(), i);
            }
        },
        ExprView::Array { elements, .. } => {
            if 0 <= i < elements.len() {
                lemma_elems(elements, elements.len(), i);
            }
        },
        ExprView::RecordLit { fields, .. } => {
            if 0 <= i < fields.len() {
                lemma_record(fields, fields.len(), i);
            }
        },
        _ => {},
    }
}

pub open spec fn argument_value(a: CallArgView) -> ExprView {
    match a {
        CallArgView::Positional(e) => e,
        CallArgView::Named { value, .. } => value,
        CallArgView::Spread(e) => e,
    }
}

proof fn lemma_args(v: Seq<CallArgView>, n: nat, i: int)
    requires
        0 <= i < n <= v.len(),
    ensures
        expr_idents(argument_value(v[i])).subset_of(args_idents(v, n)),
    decreases n,
{
    if i < n - 1 {
        lemma_args(v, (n - 1) as nat, i);
    }
}

proof fn lemma_elems(v: Seq<ArrayElemView>, n: nat, i: int)
    requires
        0 <= i < n <= v.len(),
    ensures
        match v[i] {
            ArrayElemView::Item(e) => expr_idents(e).subset_of(elems_idents(v, n)),
            ArrayElemView::Spread(e) => expr_idents(e).subset_of(elems_idents(v, n)),
        },
    decreases n,
{
    if i < n - 1 {
        lemma_elems(v, (n - 1) as nat, i);
    }
}

proof fn lemma_record(v: Seq<RecordLitFieldView>, n: nat, i: int)
    requires
        0 <= i < n <= v.len(),
    ensures
        match v[i] {
            RecordLitFieldView::Named { value, .. } => expr_idents(value).subset_of(
                record_idents(v, n),
            ),
            RecordLitFieldView::Shorthand { name, .. } => record_idents(v, n).contains(name),
            RecordLitFieldView::Spread { value, .. } => expr_idents(value).subset_of(
                record_idents(v, n),
            ),
        },
    decreases n,
{
    if i < n - 1 {
        lemma_record(v, (n - 1) as nat, i);
    }
}

/// A list of statements refers to what each of them refers to.
pub proof fn statements_refer_to_each(v: Seq<StmtView>, n: nat, all: bool, i: int)
    requires
        0 <= i < n <= v.len(),
    ensures
        stmt_idents(v[i], all).subset_of(stmts_idents(v, n, all)),
    decreases n,
{
    if i < n - 1 {
        statements_refer_to_each(v, (n - 1) as nat, all, i);
    }
}

/// A statement refers to what its values refer to, and, where types count, to
/// what its types refer to.
pub proof fn statements_refer_to_their_parts(s: StmtView, all: bool)
    ensures
        s matches StmtView::Assign(a) ==> expr_idents(a.target).subset_of(stmt_idents(s, all))
            && expr_idents(a.value).subset_of(stmt_idents(s, all)),
        s matches StmtView::Emit(e) ==> (e.value matches Some(v) ==> expr_idents(v).subset_of(
            stmt_idents(s, all),
        )),
        s matches StmtView::Await(a) ==> expr_idents(a.exec_expr).subset_of(stmt_idents(s, all)) && (
        a.value_expr matches Some(v) ==> expr_idents(v).subset_of(stmt_idents(s, all))),
        s matches StmtView::Let(l) ==> expr_idents(l.value).subset_of(stmt_idents(s, all)) && (all
            ==> (l.typ matches Some(t) ==> type_idents(t).subset_of(stmt_idents(s, all)))),
        s matches StmtView::Var(v) ==> (v.init matches Some(e) ==> expr_idents(e).subset_of(
            stmt_idents(s, all),
        )),
        s matches StmtView::Buffer(b) ==> expr_idents(b.init).subset_of(stmt_idents(s, all)),
        s matches StmtView::OutBinding(o) ==> (o.value matches Some(e) ==> expr_idents(e).subset_of(
            stmt_idents(s, all),
        )),
        s matches StmtView::ExprStmt(x) ==> expr_idents(x.expr).subset_of(stmt_idents(s, all)),
        s matches StmtView::Return { value, .. } ==> (value matches Some(e) ==> expr_idents(
            e,
        ).subset_of(stmt_idents(s, all))),
        s matches StmtView::If(x) ==> expr_idents(x.cond).subset_of(stmt_idents(s, all))
            && stmts_idents(x.then_block.stmts, x.then_block.stmts.len(), all).subset_of(
            stmt_idents(s, all),
        ) && (x.else_block matches Some(b) ==> stmts_idents(b.stmts, b.stmts.len(), all).subset_of(
            stmt_idents(s, all),
        )),
        s matches StmtView::Handler(h) ==> stmts_idents(h.body.stmts, h.body.stmts.len(), all).subset_of(
            stmt_idents(s, all),
        ) && trigger_idents(h.trigger).subset_of(stmt_idents(s, all)),
        s matches StmtView::ChipDecl(c) ==> stmts_idents(c.body.stmts, c.body.stmts.len(), all).subset_of(
            stmt_idents(s, all),
        ),
{
    reveal_with_fuel(stmt_idents, 4);
}

/// A list of declarations refers to what each of them refers to.
pub proof fn declarations_refer_to_each(v: Seq<TopDeclView>, n: nat, all: bool, i: int)
    requires
        0 <= i < n <= v.len(),
    ensures
        decl_names(v[i], all).subset_of(decls_names(v, n, all)),
    decreases n,
{
    if i < n - 1 {
        declarations_refer_to_each(v, (n - 1) as nat, all, i);
    }
}

/// A let, variable, function, chip or handler refers to what its value or body
/// refers to, and, where types count, to what its types refer to.
pub proof fn declarations_refer_to_their_parts(d: TopDeclView, all: bool)
    ensures
        d matches TopDeclView::Let(l) ==> expr_idents(l.value).subset_of(decl_names(d, all)) && (all
            ==> (l.typ matches Some(t) ==> type_idents(t).subset_of(decl_names(d, all)))),
        d matches TopDeclView::Var(v) ==> (v.init matches Some(e) ==> expr_idents(e).subset_of(
            decl_names(d, all),
        )) && (all ==> (v.typ matches Some(t) ==> type_idents(t).subset_of(decl_names(d, all)))),
        d matches TopDeclView::Buffer(b) ==> expr_idents(b.init).subset_of(decl_names(d, all)),
        d matches TopDeclView::Out(o) ==> (o.value matches Some(e) ==> expr_idents(e).subset_of(
            decl_names(d, all),
        )),
        d matches TopDeclView::Fn(f) ==> expr_idents(f.body).subset_of(decl_names(d, all)),
        d matches TopDeclView::Chip(c) ==> stmts_idents(
            c.body.stmts,
            c.body.stmts.len(),
            all,
        ).subset_of(decl_names(d, all)),
        d matches TopDeclView::Callback(c) ==> stmts_idents(
            c.body.stmts,
            c.body.stmts.len(),
            all,
        ).subset_of(decl_names(d, all)),
        d matches TopDeclView::Handler(h) ==> stmts_idents(
            h.body.stmts,
            h.body.stmts.len(),
            all,
        ).subset_of(decl_names(d, all)) && trigger_idents(h.trigger).subset_of(decl_names(d, all)),
        d matches TopDeclView::Array(a) ==> elems_idents(a.init, a.init.len()).subset_of(
            decl_names(d, all),
        ),
        d matches TopDeclView::In(x) ==> (all ==> type_idents(x.typ).subset_of(decl_names(d, all))),
{
    match d {
        TopDeclView::Let(l) => {
            assert(expr_idents(l.value).subset_of(let_idents(l, all)));
        },
        TopDeclView::Var(v) => {
            if let Some(e) = v.init {
                assert(opt_expr_idents(v.init) == expr_idents(e));
                assert(opt_expr_idents(v.init).subset_of(var_idents(v, all)));
            }
        },
        TopDeclView::Buffer(b) => {
            assert(expr_idents(b.init).subset_of(buffer_idents(b, all)));
        },
        TopDeclView::Out(o) => {
            if let Some(e) = o.value {
                assert(opt_expr_idents(o.value) == expr_idents(e));
                assert(opt_expr_idents(o.value).subset_of(out_idents(o, all)));
            }
        },
        TopDeclView::Array(a) => {
            assert(elems_idents(a.init, a.init.len()).subset_of(array_idents(a, all)));
        },
        TopDeclView::Chip(c) => {
            assert(stmts_idents(c.body.stmts, c.body.stmts.len(), all).subset_of(
                chip_idents(c, all),
            ));
        },
        TopDeclView::Callback(c) => {
            assert(stmts_idents(c.body.stmts, c.body.stmts.len(), all).subset_of(
                callback_idents(c, all),
            ));
        },
        TopDeclView::Handler(h) => {
            assert(stmts_idents(h.body.stmts, h.body.stmts.len(), all).subset_of(
                handler_idents(h, all),
            ));
        },
        _ => {},
    }
}

// ---------- reports ----------

/// What is said of an import that fails, and of a name that is imported in
/// vain.
pub proof fn import_reports(imp: ImportDeclView, b: ImportBindingView)
    ensures
        circular_error(imp) == (DiagnosticView {
            severity: Severity::Error,
            code: "WS012"@,
            message: "circular import: '"@ + imp.path + "'"@,
            range: imp.range,
        }),
        unresolved_error(imp) == (DiagnosticView {
            severity: Severity::Error,
            code: "WS012"@,
            message: "cannot resolve import '"@ + imp.path + "'"@,
            range: imp.range,
        }),
        b.alias is None ==> unused_warning(b) == (DiagnosticView {
            severity: Severity::Warning,
            code: "WS014"@,
            message: "unused import '"@ + b.name + "'"@,
            range: b.range,
        }),
        b.alias matches Some(a) ==> unused_warning(b) == (DiagnosticView {
            severity: Severity::Warning,
            code: "WS014"@,
            message: "unused import '"@ + a + "'"@,
            range: b.range,
        }),
{
}

/// A name that is imported and that nothing refers to is reported.
pub proof fn unused_names_are_reported(
    diags: Seq<DiagnosticView>,
    bindings: Seq<ImportBindingView>,
    used: Names,
    n: nat,
    i: int,
)
    requires
        0 <= i < n <= bindings.len(),
        !used.contains(
            match bindings[i].alias {
                Some(a) => a,
                None => bindings[i].name,
            },
        ),
    ensures
        unused_names(diags, bindings, used, n).contains(unused_warning(bindings[i])),
    decreases n,
{
    let before = unused_names(diags, bindings, used, (n - 1) as nat);
    let after = unused_names(diags, bindings, used, n);
    if i < n - 1 {
        unused_names_are_reported(diags, bindings, used, (n - 1) as nat, i);
        let k = choose|k: int| 0 <= k < before.len() && before[k] == unused_warning(bindings[i]);
        assert(after[k] == unused_warning(bindings[i]));
    } else {
        assert(after[before.len() as int] == unused_warning(bindings[i]));
    }
}

/// An import that leads nowhere is reported, and brings nothing.
pub proof fn unresolved_imports_bring_nothing(
    t: Table,
    g: Gathered,
    imp: ImportDeclView,
    relative_to: Seq<char>,
    stack: Names,
)
    requires
        forall|i: int|
            0 <= i < t.len() ==> !((#[trigger] t[i]).path == imp.path && t[i].relative_to
                == relative_to),
    ensures
        import_resolved(t, g, imp, relative_to, stack).decls == g.decls,
        import_resolved(t, g, imp, relative_to, stack).progress.diags == g.progress.diags.push(
            unresolved_error(imp),
        ),
{
    lemma_no_entry(t, imp.path, relative_to);
}

pub proof fn lemma_no_entry(t: Table, path: Seq<char>, relative_to: Seq<char>)
    requires
        forall|i: int|
            0 <= i < t.len() ==> !((#[trigger] t[i]).path == path && t[i].relative_to
                == relative_to),
    ensures
        entry_place(t, path, relative_to) == t.len(),
    decreases t.len(),
{
    if t.len() > 0 {
        let rest = t.drop_last();
        assert forall|i: int| 0 <= i < rest.len() implies !((#[trigger] rest[i]).path == path
            && rest[i].relative_to == relative_to) by {
            assert(rest[i] == t[i]);
        }
        lemma_no_entry(rest, path, relative_to);
        assert(!(t[t.len() - 1].path == path && t[t.len() - 1].relative_to == relative_to));
    }
}

// ---------- files ----------

/// A path names a script: it ends in `.ws`, added where it is not there.
pub proof fn script_paths_end_in_ws(stem: Seq<char>, path: Seq<char>)
    ensures
        script_path(stem + ".ws"@) == stem + ".ws"@,
        (forall|p: Seq<char>| path != #[trigger] (p + ".ws"@)) ==> script_path(path) == path + ".ws"@,
{
    reveal_strlit(".ws");
    let with = stem + ".ws"@;
    assert(with.skip(with.len() - 3) =~= ".ws"@);
    if forall|p: Seq<char>| path != #[trigger] (p + ".ws"@) {
        if crate::text::ends_with_text(path, ".ws"@) {
            let p = path.take(path.len() - 3);
            assert(p + ".ws"@ =~= path);
        }
    }
}

/// A file in memory is found with its suffix or without.
pub proof fn files_are_found(files: Map<Seq<char>, Seq<char>>, stem: Seq<char>)
    ensures
        files.contains_key(stem + ".ws"@) ==> held(files, stem + ".ws"@) == Some(
            files[stem + ".ws"@],
        ),
        files.contains_key(script_path(stem)) ==> held(files, stem) == Some(
            files[script_path(stem)],
        ),
        !files.contains_key(script_path(stem)) && files.contains_key(stem) ==> held(files, stem)
            == Some(files[stem]),
        !files.contains_key(script_path(stem)) && !files.contains_key(stem) ==> held(
            files,
            stem,
        ) is None,
{
    script_paths_end_in_ws(stem, stem);
}

/// The doc comments of an imported file are kept by their offsets.
pub proof fn imported_docs_are_kept(
    m: Map<usize, Seq<char>>,
    docs: Seq<(usize, Seq<char>)>,
    n: nat,
    i: int,
)
    requires
        0 <= i < n <= docs.len(),
        forall|k: int| i < k < n ==> (#[trigger] docs[k]).0 != docs[i].0,
    ensures
        with_docs(m, docs, n).contains_key(docs[i].0),
        with_docs(m, docs, n)[docs[i].0] == docs[i].1,
    decreases n,
{
    if i < n - 1 {
        imported_docs_are_kept(m, docs, (n - 1) as nat, i);
    }
}

/// What a script declares itself is everything but its imports, in order.
pub proof fn own_declarations_are_all_but_imports(decls: Decls, n: nat, i: int)
    requires
        n <= decls.len(),
    ensures
        0 <= i < n && !(decls[i] is Import) ==> own_decls(decls, n).contains(decls[i]),
        forall|k: int|
            0 <= k < own_decls(decls, n).len() ==> !((#[trigger] own_decls(decls, n)[k]) is Import)
                && decls.contains(own_decls(decls, n)[k]),
    decreases n,
{
    if n > 0 {
        own_declarations_are_all_but_imports(decls, (n - 1) as nat, i);
        let before = own_decls(decls, (n - 1) as nat);
        let after = own_decls(decls, n);
        if 0 <= i < n - 1 && !(decls[i] is Import) {
            let k = choose|k: int| 0 <= k < before.len() && before[k] == decls[i];
            assert(after[k] == decls[i]);
        }
        if i == n - 1 && !(decls[i] is Import) {
            assert(after[before.len() as int] == decls[i]);
        }
        assert forall|k: int| 0 <= k < after.len() implies !((#[trigger] after[k]) is Import)
            && decls.contains(after[k]) by {
            if k < before.len() {
                assert(after[k] == before[k]);
            } else {
                assert(after[k] == decls[n - 1]);
            }
        }
    }
}

} // verus!
