//! What an import adds to the declarations of the script that has it.

use crate::assoc::AssocMap;
use crate::ast::{
    ImportBinding, ImportDecl, ImportKind, LetBinding, NamespaceDecl, TopDecl, TypeExpr,
};
use crate::ast_view::{
    clone_text, import_bindings_view, text_of, top_decls_view, ArrayDeclView, BufferDeclView, ChipDeclView,
    EventDeclView, FnDeclView, ImportBindingView, ImportDeclView, ImportKindView, InDeclView,
    LetBindingView, LetDeclView, NamespaceDeclView, OutBindingView, TopDeclView, TypeAliasDeclView,
    VarDeclView,
};
use crate::diagnostic::{
    lemma_views_push, views, Diagnostic, DiagnosticView, RangeView, Severity, SourceRange,
};
use crate::resolve::alias::{expand_type_aliases_in_decl, expanded_decls, Aliases};
use crate::resolve::files::{CachedFile, FileView};
use crate::resolve::idents::{collect_runtime_idents_in_decls, decls_runtime, NameSet, Names};
use crate::text::{cat5, owned, str_eq};
use vstd::prelude::*;

verus! {

pub type Decls = Seq<TopDeclView>;

// ---------- declarations that can be imported ----------

pub open spec fn importable(d: TopDeclView) -> bool {
    d is Chip || d is Fn || d is Let || d is Event || d is Var || d is Array || d is Buffer
        || d is In || d is Out || d is TypeAlias || d is Callback
}

pub fn is_importable(d: &TopDecl) -> (r: bool)
    ensures
        r == importable(d@),
{
    matches!(
        d,
        TopDecl::Chip(_) | TopDecl::Fn(_) | TopDecl::Let(_) | TopDecl::Event(_) | TopDecl::Var(_)
            | TopDecl::Array(_) | TopDecl::Buffer(_) | TopDecl::In(_) | TopDecl::Out(_)
            | TopDecl::TypeAlias(_) | TopDecl::Callback(_)
    )
}

/// The name a declaration goes by.
pub open spec fn name_of(d: TopDeclView) -> Option<Seq<char>> {
    match d {
        TopDeclView::Chip(c) => Some(c.name),
        TopDeclView::Fn(f) => Some(f.name),
        TopDeclView::Let(l) => match l.binding {
            LetBindingView::Ident { name, .. } => Some(name),
            _ => None,
        },
        TopDeclView::Event(e) => Some(e.name),
        TopDeclView::Var(v) => Some(v.name),
        TopDeclView::Array(a) => Some(a.name),
        TopDeclView::Buffer(b) => Some(b.name),
        TopDeclView::In(i) => Some(i.name),
        TopDeclView::Out(o) => Some(o.name),
        TopDeclView::TypeAlias(t) => Some(t.name),
        TopDeclView::Callback(c) => Some(c.name),
        _ => None,
    }
}

pub fn decl_name(d: &TopDecl) -> (r: Option<&str>)
    ensures
        r is Some <==> name_of(d@) is Some,
        r matches Some(n) ==> name_of(d@) == Some(n@),
{
    match d {
        TopDecl::Chip(c) => Some(c.name.as_str()),
        TopDecl::Fn(f) => Some(f.name.as_str()),
        TopDecl::Let(l) => match &l.binding {
            LetBinding::Ident { name, .. } => Some(name.as_str()),
            _ => None,
        },
        TopDecl::Event(e) => Some(e.name.as_str()),
        TopDecl::Var(v) => Some(v.name.as_str()),
        TopDecl::Array(a) => Some(a.name.as_str()),
        TopDecl::Buffer(b) => Some(b.name.as_str()),
        TopDecl::In(i) => Some(i.name.as_str()),
        TopDecl::Out(o) => Some(o.name.as_str()),
        TopDecl::TypeAlias(t) => Some(t.name.as_str()),
        TopDecl::Callback(c) => Some(c.name.as_str()),
        _ => None,
    }
}

/// Whether several declarations may share a name.
pub open spec fn redefinable(d: TopDeclView) -> bool {
    d is Callback
}

pub fn is_redefinable(d: &TopDecl) -> (r: bool)
    ensures
        r == redefinable(d@),
{
    matches!(d, TopDecl::Callback(_))
}

/// A declaration under another name. A callback, and a `let` with a pattern,
/// keep their names.
pub open spec fn renamed(d: TopDeclView, name: Seq<char>) -> TopDeclView {
    match d {
        TopDeclView::Chip(c) => TopDeclView::Chip(ChipDeclView { name, ..c }),
        TopDeclView::Fn(f) => TopDeclView::Fn(FnDeclView { name, ..f }),
        TopDeclView::Let(l) => match l.binding {
            LetBindingView::Ident { range, .. } => TopDeclView::Let(
                LetDeclView { binding: LetBindingView::Ident { name, range }, ..l },
            ),
            _ => d,
        },
        TopDeclView::Event(e) => TopDeclView::Event(EventDeclView { name, ..e }),
        TopDeclView::Var(v) => TopDeclView::Var(VarDeclView { name, ..v }),
        TopDeclView::Array(a) => TopDeclView::Array(ArrayDeclView { name, ..a }),
        TopDeclView::Buffer(b) => TopDeclView::Buffer(BufferDeclView { name, ..b }),
        TopDeclView::In(i) => TopDeclView::In(InDeclView { name, ..i }),
        TopDeclView::Out(o) => TopDeclView::Out(OutBindingView { name, ..o }),
        TopDeclView::TypeAlias(t) => TopDeclView::TypeAlias(TypeAliasDeclView { name, ..t }),
        other => other,
    }
}

pub fn rename_decl(d: &mut TopDecl, new_name: &str)
    ensures
        final(d)@ == renamed(old(d)@, new_name@),
{
    match d {
        TopDecl::Chip(c) => {
            c.name = owned(new_name);
        },
        TopDecl::Fn(f) => {
            f.name = owned(new_name);
        },
        TopDecl::Let(l) => {
            if let LetBinding::Ident { name, .. } = &mut l.binding {
                *name = owned(new_name);
            }
        },
        TopDecl::Event(e) => {
            e.name = owned(new_name);
        },
        TopDecl::Var(v) => {
            v.name = owned(new_name);
        },
        TopDecl::Array(a) => {
            a.name = owned(new_name);
        },
        TopDecl::Buffer(b) => {
            b.name = owned(new_name);
        },
        TopDecl::In(i) => {
            i.name = owned(new_name);
        },
        TopDecl::Out(o) => {
            o.name = owned(new_name);
        },
        TopDecl::TypeAlias(t) => {
            t.name = owned(new_name);
        },
        _ => {},
    }
}

/// A renamed declaration goes by its new name, if it can be renamed at all.
pub proof fn renamed_goes_by_new_name(d: TopDeclView, name: Seq<char>)
    requires
        importable(d),
        name_of(d) is Some,
        !(d is Callback),
    ensures
        name_of(renamed(d, name)) == Some(name),
        importable(renamed(d, name)),
{
}

// ---------- names in use ----------

/// Whether a declaration goes by `name`.
pub open spec fn goes_by(d: TopDeclView, name: Seq<char>) -> bool {
    name_of(d) == Some(name)
}

/// Whether some declaration goes by `name`.
pub open spec fn has_any(decls: Decls, name: Seq<char>) -> bool {
    exists|i: int| 0 <= i < decls.len() && goes_by(#[trigger] decls[i], name)
}

/// Whether some declaration goes by `name` and lets no other share it.
pub open spec fn has_own(decls: Decls, name: Seq<char>) -> bool {
    exists|i: int|
        0 <= i < decls.len() && goes_by(#[trigger] decls[i], name) && !redefinable(decls[i])
}

fn decl_goes_by(d: &TopDecl, name: &str) -> (r: bool)
    ensures
        r == goes_by(d@, name@),
{
    match decl_name(d) {
        Some(n) => str_eq(n, name),
        None => false,
    }
}

fn any_goes_by(decls: &Vec<TopDecl>, name: &str) -> (r: bool)
    ensures
        r == has_any(top_decls_view(decls@), name@),
{
    let ghost all = top_decls_view(decls@);
    let mut i: usize = 0;
    while i < decls.len()
        invariant
            all == top_decls_view(decls@),
            i <= decls@.len(),
            forall|k: int| 0 <= k < i ==> !goes_by(#[trigger] all[k], name@),
        decreases decls.len() - i,
    {
        assert(all[i as int] == decls@[i as int]@);
        if decl_goes_by(&decls[i], name) {
            return true;
        }
        i += 1;
    }
    false
}

fn already_has(decls: &Vec<TopDecl>, name: &str) -> (r: bool)
    ensures
        r == has_own(top_decls_view(decls@), name@),
{
    let ghost all = top_decls_view(decls@);
    let mut i: usize = 0;
    while i < decls.len()
        invariant
            all == top_decls_view(decls@),
            i <= decls@.len(),
            forall|k: int|
                0 <= k < i ==> !(goes_by(#[trigger] all[k], name@) && !redefinable(all[k])),
        decreases decls.len() - i,
    {
        assert(all[i as int] == decls@[i as int]@);
        if decl_goes_by(&decls[i], name) && !is_redefinable(&decls[i]) {
            return true;
        }
        i += 1;
    }
    false
}

/// Appends a declaration, seen through its view.
fn push_decl(target: &mut Vec<TopDecl>, d: TopDecl)
    ensures
        top_decls_view(final(target)@) == top_decls_view(old(target)@).push(d@),
{
    target.push(d);
    assert(top_decls_view(target@) =~= top_decls_view(old(target)@).push(d@));
}

// ---------- import everything ----------

/// The importable ones of the first `n` declarations of a file added, but for
/// those whose name is taken.
pub open spec fn all_merged(target: Decls, decls: Decls, n: nat) -> Decls
    decreases n,
{
    if n == 0 || n > decls.len() {
        target
    } else {
        let before = all_merged(target, decls, (n - 1) as nat);
        let d = decls[n - 1];
        if importable(d) && !(name_of(d) is Some && has_own(before, name_of(d)->0)) {
            before.push(d)
        } else {
            before
        }
    }
}

fn merge_all(target: &mut Vec<TopDecl>, decls: &Vec<TopDecl>)
    ensures
        top_decls_view(final(target)@) == all_merged(
            top_decls_view(old(target)@),
            top_decls_view(decls@),
            decls@.len(),
        ),
{
    let mut i: usize = 0;
    while i < decls.len()
        invariant
            i <= decls@.len(),
            top_decls_view(target@) == all_merged(
                top_decls_view(old(target)@),
                top_decls_view(decls@),
                i as nat,
            ),
        decreases decls.len() - i,
    {
        let d = &decls[i];
        assert(top_decls_view(decls@)[i as int] == d@);
        if is_importable(d) {
            let taken = match decl_name(d) {
                Some(name) => already_has(target, name),
                None => false,
            };
            if !taken {
                push_decl(target, d.clone());
            }
        }
        i += 1;
    }
}

// ---------- import by name ----------

/// The first importable declaration that goes by `name`.
pub open spec fn named_decl(decls: Decls, name: Seq<char>, n: nat) -> Option<TopDeclView>
    decreases n,
{
    if n == 0 || n > decls.len() {
        None
    } else {
        match named_decl(decls, name, (n - 1) as nat) {
            Some(d) => Some(d),
            None => if importable(decls[n - 1]) && goes_by(decls[n - 1], name) {
                Some(decls[n - 1])
            } else {
                None
            },
        }
    }
}

proof fn lemma_named_prefix(decls: Decls, name: Seq<char>, n: nat, m: nat)
    requires
        n <= m <= decls.len(),
        named_decl(decls, name, n) is Some,
    ensures
        named_decl(decls, name, m) == named_decl(decls, name, n),
    decreases m - n,
{
    if n < m {
        lemma_named_prefix(decls, name, n, (m - 1) as nat);
    }
}

fn find_named(decls: &Vec<TopDecl>, name: &str) -> (r: Option<usize>)
    ensures
        r is Some <==> named_decl(top_decls_view(decls@), name@, decls@.len()) is Some,
        r matches Some(i) ==> i < decls@.len() && named_decl(
            top_decls_view(decls@),
            name@,
            decls@.len(),
        ) == Some(decls@[i as int]@),
{
    let ghost all = top_decls_view(decls@);
    let mut i: usize = 0;
    while i < decls.len()
        invariant
            all == top_decls_view(decls@),
            i <= decls@.len(),
            named_decl(all, name@, i as nat) is None,
        decreases decls.len() - i,
    {
        assert(all[i as int] == decls@[i as int]@);
        if is_importable(&decls[i]) && decl_goes_by(&decls[i], name) {
            proof {
                lemma_named_prefix(all, name@, (i + 1) as nat, decls@.len());
            }
            return Some(i);
        }
        i += 1;
    }
    None
}

/// The name that an import binding is known by.
pub open spec fn local_name(b: ImportBindingView) -> Seq<char> {
    match b.alias {
        Some(a) => a,
        None => b.name,
    }
}

/// An error with the code of imports.
pub open spec fn import_error(message: Seq<char>, range: RangeView) -> DiagnosticView {
    DiagnosticView { severity: Severity::Error, code: "WS012"@, message, range }
}

pub open spec fn not_found_error(b: ImportBindingView, imp: ImportDeclView) -> DiagnosticView {
    import_error("'"@ + b.name + "' not found in '"@ + imp.path + "'"@, imp.range)
}

/// The declarations and the errors after the first `n` names are imported.
pub open spec fn names_merged(
    target: Decls,
    diags: Seq<DiagnosticView>,
    decls: Decls,
    imp: ImportDeclView,
    bindings: Seq<ImportBindingView>,
    n: nat,
) -> (Decls, Seq<DiagnosticView>)
    decreases n,
{
    if n == 0 || n > bindings.len() {
        (target, diags)
    } else {
        let (t1, d1) = names_merged(target, diags, decls, imp, bindings, (n - 1) as nat);
        let b = bindings[n - 1];
        if has_own(t1, local_name(b)) {
            (t1, d1)
        } else {
            match named_decl(decls, b.name, decls.len()) {
                Some(d) => (
                    t1.push(
                        match b.alias {
                            Some(a) => renamed(d, a),
                            None => d,
                        },
                    ),
                    d1,
                ),
                None => (t1, d1.push(not_found_error(b, imp))),
            }
        }
    }
}

/// Appends an import error.
pub fn push_error(diags: &mut Vec<Diagnostic>, message: String, range: &SourceRange)
    ensures
        views(final(diags)@) == views(old(diags)@).push(import_error(message@, range@)),
{
    let d = Diagnostic {
        severity: Severity::Error,
        code: owned("WS012"),
        message,
        range: range.clone(),
    };
    proof {
        lemma_views_push(diags@, d);
    }
    diags.push(d);
}

fn merge_names(
    target: &mut Vec<TopDecl>,
    diags: &mut Vec<Diagnostic>,
    decls: &Vec<TopDecl>,
    imp: &ImportDecl,
    bindings: &Vec<ImportBinding>,
)
    ensures
        (top_decls_view(final(target)@), views(final(diags)@)) == names_merged(
            top_decls_view(old(target)@),
            views(old(diags)@),
            top_decls_view(decls@),
            imp@,
            import_bindings_view(bindings@),
            bindings@.len(),
        ),
{
    let mut i: usize = 0;
    while i < bindings.len()
        invariant
            i <= bindings@.len(),
            (top_decls_view(target@), views(diags@)) == names_merged(
                top_decls_view(old(target)@),
                views(old(diags)@),
                top_decls_view(decls@),
                imp@,
                import_bindings_view(bindings@),
                i as nat,
            ),
        decreases bindings.len() - i,
    {
        let b = &bindings[i];
        assert(import_bindings_view(bindings@)[i as int] == b@);
        let taken = match &b.alias {
            Some(a) => already_has(target, a.as_str()),
            None => already_has(target, b.name.as_str()),
        };
        if !taken {
            match find_named(decls, b.name.as_str()) {
                Some(k) => {
                    let mut d = decls[k].clone();
                    if let Some(alias) = &b.alias {
                        rename_decl(&mut d, alias.as_str());
                    }
                    push_decl(target, d);
                },
                None => {
                    push_error(
                        diags,
                        cat5("'", b.name.as_str(), "' not found in '", imp.path.as_str(), "'"),
                        &imp.range,
                    );
                },
            }
        }
        i += 1;
    }
}

// ---------- what the imported declarations need ----------

/// The names that an import asks for.
pub open spec fn asked_names(bindings: Seq<ImportBindingView>, n: nat) -> Names
    decreases n,
{
    if n == 0 || n > bindings.len() {
        Set::empty()
    } else {
        asked_names(bindings, (n - 1) as nat).insert(bindings[n - 1].name)
    }
}

fn collect_asked(bindings: &Vec<ImportBinding>) -> (r: NameSet)
    ensures
        r@ == asked_names(import_bindings_view(bindings@), bindings@.len()),
{
    let mut names = NameSet::new();
    let mut i: usize = 0;
    while i < bindings.len()
        invariant
            i <= bindings@.len(),
            names@ == asked_names(import_bindings_view(bindings@), i as nat),
        decreases bindings.len() - i,
    {
        names.insert(bindings[i].name.clone());
        i += 1;
    }
    names
}

/// Whether a declaration is pulled in: it was not asked for, it is used, and
/// nothing goes by its name yet. Type aliases are written out instead.
pub open spec fn is_pulled(d: TopDeclView, target: Decls, used: Names, asked: Names) -> bool {
    importable(d) && !(d is TypeAlias) && name_of(d) is Some && !asked.contains(name_of(d)->0)
        && used.contains(name_of(d)->0) && !has_any(target, name_of(d)->0)
}

/// One pass over the first `n` declarations of a file.
pub open spec fn pull_round(
    target: Decls,
    used: Names,
    decls: Decls,
    asked: Names,
    n: nat,
) -> Decls
    decreases n,
{
    if n == 0 || n > decls.len() {
        target
    } else {
        let before = pull_round(target, used, decls, asked, (n - 1) as nat);
        if is_pulled(decls[n - 1], before, used, asked) {
            before.push(decls[n - 1])
        } else {
            before
        }
    }
}

/// The number of the first `n` declarations whose name nothing goes by yet.
pub open spec fn absent(decls: Decls, target: Decls, n: nat) -> nat
    decreases n,
{
    if n == 0 || n > decls.len() {
        0
    } else {
        absent(decls, target, (n - 1) as nat) + if is_absent(decls[n - 1], target) {
            1nat
        } else {
            0nat
        }
    }
}

pub open spec fn is_absent(d: TopDeclView, target: Decls) -> bool {
    name_of(d) is Some && !has_any(target, name_of(d)->0)
}

proof fn lemma_has_more(a: Decls, b: Decls, name: Seq<char>)
    requires
        a.is_prefix_of(b),
        has_any(a, name),
    ensures
        has_any(b, name),
{
    let i = choose|i: int| 0 <= i < a.len() && goes_by(#[trigger] a[i], name);
    assert(b[i] == a[i]);
}

proof fn lemma_absent_less(decls: Decls, a: Decls, b: Decls, n: nat)
    requires
        a.is_prefix_of(b),
    ensures
        absent(decls, b, n) <= absent(decls, a, n),
    decreases n,
{
    if n > 0 && n <= decls.len() {
        lemma_absent_less(decls, a, b, (n - 1) as nat);
        let d = decls[n - 1];
        if name_of(d) is Some && has_any(a, name_of(d)->0) {
            lemma_has_more(a, b, name_of(d)->0);
        }
    }
}

proof fn lemma_absent_strict(decls: Decls, a: Decls, b: Decls, n: nat, i: int)
    requires
        a.is_prefix_of(b),
        0 <= i < n <= decls.len(),
        is_absent(decls[i], a),
        !is_absent(decls[i], b),
    ensures
        absent(decls, b, n) < absent(decls, a, n),
    decreases n,
{
    lemma_absent_less(decls, a, b, (n - 1) as nat);
    if i < n - 1 {
        lemma_absent_strict(decls, a, b, (n - 1) as nat, i);
        let d = decls[n - 1];
        if name_of(d) is Some && has_any(a, name_of(d)->0) {
            lemma_has_more(a, b, name_of(d)->0);
        }
    }
}

/// A pass only adds; when it adds, something that was absent no longer is.
proof fn lemma_round(target: Decls, used: Names, decls: Decls, asked: Names, n: nat) -> (i: int)
    requires
        n <= decls.len(),
    ensures
        target.is_prefix_of(pull_round(target, used, decls, asked, n)),
        pull_round(target, used, decls, asked, n).len() > target.len() ==> {
            &&& 0 <= i < n
            &&& is_absent(decls[i], target)
            &&& !is_absent(decls[i], pull_round(target, used, decls, asked, n))
        },
    decreases n,
{
    if n == 0 {
        0
    } else {
        let j = lemma_round(target, used, decls, asked, (n - 1) as nat);
        let before = pull_round(target, used, decls, asked, (n - 1) as nat);
        let after = pull_round(target, used, decls, asked, n);
        let d = decls[n - 1];
        assert(before.is_prefix_of(after));
        if before.len() > target.len() {
            if name_of(decls[j]) is Some {
                lemma_has_more(before, after, name_of(decls[j])->0);
            }
            j
        } else {
            assert(before =~= target);
            if is_pulled(d, before, used, asked) {
                assert(after[before.len() as int] == d);
                assert(goes_by(after[before.len() as int], name_of(d)->0));
                assert(has_any(after, name_of(d)->0));
            }
            n - 1
        }
    }
}

/// What the imported declarations use pulled in, until nothing more is used.
pub open spec fn pulled(target: Decls, decls: Decls, asked: Names) -> Decls
    decreases absent(decls, target, decls.len()),
    via pulled_decreases
{
    let next = pull_round(
        target,
        decls_runtime(target, target.len()),
        decls,
        asked,
        decls.len(),
    );
    if next.len() > target.len() {
        pulled(next, decls, asked)
    } else {
        target
    }
}

#[via_fn]
proof fn pulled_decreases(target: Decls, decls: Decls, asked: Names) {
    let used = decls_runtime(target, target.len());
    let next = pull_round(target, used, decls, asked, decls.len());
    if next.len() > target.len() {
        let i = lemma_round(target, used, decls, asked, decls.len());
        lemma_absent_strict(decls, target, next, decls.len(), i);
    }
}

fn pull_once(
    target: &mut Vec<TopDecl>,
    used: &NameSet,
    decls: &Vec<TopDecl>,
    asked: &NameSet,
)
    ensures
        top_decls_view(final(target)@) == pull_round(
            top_decls_view(old(target)@),
            used@,
            top_decls_view(decls@),
            asked@,
            decls@.len(),
        ),
{
    let mut i: usize = 0;
    while i < decls.len()
        invariant
            i <= decls@.len(),
            top_decls_view(target@) == pull_round(
                top_decls_view(old(target)@),
                used@,
                top_decls_view(decls@),
                asked@,
                i as nat,
            ),
        decreases decls.len() - i,
    {
        let d = &decls[i];
        assert(top_decls_view(decls@)[i as int] == d@);
        if is_importable(d) && !matches!(d, TopDecl::TypeAlias(_)) {
            if let Some(name) = decl_name(d) {
                if !asked.contains(name) && used.contains(name) && !any_goes_by(target, name) {
                    push_decl(target, d.clone());
                }
            }
        }
        i += 1;
    }
}

fn pull_used(target: &mut Vec<TopDecl>, decls: &Vec<TopDecl>, asked: &NameSet)
    ensures
        top_decls_view(final(target)@) == pulled(
            top_decls_view(old(target)@),
            top_decls_view(decls@),
            asked@,
        ),
{
    let ghost all = top_decls_view(decls@);
    let ghost start = top_decls_view(target@);
    loop
        invariant
            all == top_decls_view(decls@),
            pulled(start, all, asked@) == pulled(top_decls_view(target@), all, asked@),
        ensures
            pulled(start, all, asked@) == top_decls_view(target@),
        decreases absent(all, top_decls_view(target@), all.len()),
    {
        let ghost before = top_decls_view(target@);
        let count: usize = target.len();
        let used = collect_runtime_idents_in_decls(target);
        pull_once(target, &used, decls, asked);
        let ghost after = top_decls_view(target@);
        proof {
            let i = lemma_round(before, used@, all, asked@, all.len());
            if after.len() > before.len() {
                lemma_absent_strict(all, before, after, all.len(), i);
            } else {
                assert(before =~= after);
            }
        }
        if target.len() == count {
            break ;
        }
    }
}

// ---------- type aliases ----------

/// A pass that adds leaves fewer declarations without their name taken.
pub proof fn lemma_pull_shrinks(target: Decls, decls: Decls, asked: Names)
    ensures
        ({
            let used = decls_runtime(target, target.len());
            let next = pull_round(target, used, decls, asked, decls.len());
            next.len() > target.len() ==> absent(decls, next, decls.len()) < absent(
                decls,
                target,
                decls.len(),
            )
        }),
{
    let used = decls_runtime(target, target.len());
    let next = pull_round(target, used, decls, asked, decls.len());
    if next.len() > target.len() {
        let i = lemma_round(target, used, decls, asked, decls.len());
        lemma_absent_strict(decls, target, next, decls.len(), i);
    }
}

/// The type aliases among the first `n` declarations of a file.
pub open spec fn aliases_of(decls: Decls, n: nat) -> Aliases
    decreases n,
{
    if n == 0 || n > decls.len() {
        Map::empty()
    } else {
        match decls[n - 1] {
            TopDeclView::TypeAlias(t) => aliases_of(decls, (n - 1) as nat).insert(t.name, t.typ),
            _ => aliases_of(decls, (n - 1) as nat),
        }
    }
}

fn collect_aliases(decls: &Vec<TopDecl>) -> (r: AssocMap<String, TypeExpr>)
    ensures
        r@ == aliases_of(top_decls_view(decls@), decls@.len()),
{
    let mut map: AssocMap<String, TypeExpr> = AssocMap::new();
    let mut i: usize = 0;
    while i < decls.len()
        invariant
            i <= decls@.len(),
            map@ == aliases_of(top_decls_view(decls@), i as nat),
        decreases decls.len() - i,
    {
        assert(top_decls_view(decls@)[i as int] == decls@[i as int]@);
        if let TopDecl::TypeAlias(t) = &decls[i] {
            map.insert(t.name.clone(), t.typ.clone());
        }
        i += 1;
    }
    map
}

fn expand_all(target: &mut Vec<TopDecl>, aliases: &AssocMap<String, TypeExpr>)
    ensures
        top_decls_view(final(target)@) == expanded_decls(
            top_decls_view(old(target)@),
            aliases@,
        ),
{
    let mut i: usize = 0;
    while i < target.len()
        invariant
            target@.len() == old(target)@.len(),
            i <= target@.len(),
            forall|k: int|
                0 <= k < i ==> (#[trigger] target@[k])@ == crate::resolve::alias::expanded_decl(
                    old(target)@[k]@,
                    aliases@,
                ),
            forall|k: int| i <= k < target@.len() ==> target@[k] == old(target)@[k],
        decreases target.len() - i,
    {
        let mut d = target[i].clone();
        expand_type_aliases_in_decl(&mut d, aliases);
        target.set(i, d);
        i += 1;
    }
    assert(top_decls_view(target@) =~= expanded_decls(top_decls_view(old(target)@), aliases@));
}

// ---------- imports as a whole ----------

/// The importable declarations of a file.
pub open spec fn importables(decls: Decls, n: nat) -> Decls
    decreases n,
{
    if n == 0 || n > decls.len() {
        Seq::empty()
    } else {
        let before = importables(decls, (n - 1) as nat);
        if importable(decls[n - 1]) {
            before.push(decls[n - 1])
        } else {
            before
        }
    }
}

fn clone_importables(decls: &Vec<TopDecl>) -> (r: Vec<TopDecl>)
    ensures
        top_decls_view(r@) == importables(top_decls_view(decls@), decls@.len()),
{
    let mut out: Vec<TopDecl> = Vec::new();
    let mut i: usize = 0;
    assert(top_decls_view(out@) =~= Seq::empty());
    while i < decls.len()
        invariant
            i <= decls@.len(),
            top_decls_view(out@) == importables(top_decls_view(decls@), i as nat),
        decreases decls.len() - i,
    {
        assert(top_decls_view(decls@)[i as int] == decls@[i as int]@);
        if is_importable(&decls[i]) {
            push_decl(&mut out, decls[i].clone());
        }
        i += 1;
    }
    out
}

/// What an import adds, once the file that it names is there.
pub open spec fn merged(
    target: Decls,
    diags: Seq<DiagnosticView>,
    imp: ImportDeclView,
    file: FileView,
) -> (Decls, Seq<DiagnosticView>) {
    match imp.kind {
        ImportKindView::All => (all_merged(target, file.decls, file.decls.len()), diags),
        ImportKindView::Named(bindings) => {
            let (t1, d1) = names_merged(target, diags, file.decls, imp, bindings, bindings.len());
            let t2 = pulled(t1, file.decls, asked_names(bindings, bindings.len()));
            (expanded_decls(t2, aliases_of(file.decls, file.decls.len())), d1)
        },
        ImportKindView::Namespace(name) => (
            target.push(
                TopDeclView::Namespace(
                    NamespaceDeclView {
                        name,
                        decls: importables(file.decls, file.decls.len()),
                        source_path: imp.path,
                        module_doc: file.module_doc,
                        range: imp.range,
                    },
                ),
            ),
            diags,
        ),
    }
}

pub fn merge_import(
    file: &CachedFile,
    imp: &ImportDecl,
    target: &mut Vec<TopDecl>,
    diags: &mut Vec<Diagnostic>,
)
    ensures
        (top_decls_view(final(target)@), views(final(diags)@)) == merged(
            top_decls_view(old(target)@),
            views(old(diags)@),
            imp@,
            file@,
        ),
{
    match &imp.kind {
        ImportKind::All => merge_all(target, &file.decls),
        ImportKind::Named(bindings) => {
            merge_names(target, diags, &file.decls, imp, bindings);
            let asked = collect_asked(bindings);
            pull_used(target, &file.decls, &asked);
            let aliases = collect_aliases(&file.decls);
            expand_all(target, &aliases);
        },
        ImportKind::Namespace(ns_name) => {
            let ns = NamespaceDecl {
                name: ns_name.clone(),
                decls: clone_importables(&file.decls),
                source_path: imp.path.clone(),
                module_doc: clone_text(&file.module_doc),
                range: imp.range.clone(),
            };
            push_decl(target, TopDecl::Namespace(ns));
        },
    }
}

// ---------- laws ----------

/// Importing everything adds no second declaration of a name that lets no
/// other share it: a name is taken at most once.
pub proof fn import_all_keeps_names_apart(target: Decls, decls: Decls, n: nat)
    requires
        forall|i: int, j: int|
            0 <= i < j < target.len() && !redefinable(target[i]) && name_of(target[i]) is Some
                ==> name_of(#[trigger] target[j]) != name_of(#[trigger] target[i]),
    ensures
        forall|i: int, j: int|
            0 <= i < j < all_merged(target, decls, n).len() && !redefinable(
                all_merged(target, decls, n)[i],
            ) && name_of(all_merged(target, decls, n)[i]) is Some ==> name_of(
                #[trigger] all_merged(target, decls, n)[j],
            ) != name_of(#[trigger] all_merged(target, decls, n)[i]),
    decreases n,
{
    if n > 0 && n <= decls.len() {
        import_all_keeps_names_apart(target, decls, (n - 1) as nat);
        let before = all_merged(target, decls, (n - 1) as nat);
        let after = all_merged(target, decls, n);
        let d = decls[n - 1];
        assert forall|i: int, j: int|
            0 <= i < j < after.len() && !redefinable(after[i]) && name_of(after[i]) is Some implies name_of(
            #[trigger] after[j],
        ) != name_of(#[trigger] after[i]) by {
            if j < before.len() {
                assert(after[i] == before[i] && after[j] == before[j]);
            } else {
                assert(after[j] == d && after[i] == before[i]);
                if name_of(d) == name_of(before[i]) {
                    assert(goes_by(before[i], name_of(d)->0));
                    assert(has_own(before, name_of(d)->0));
                }
            }
        }
    }
}

/// Pulling in adds to the end, and never a type alias.
pub proof fn pulling_adds_no_alias(target: Decls, decls: Decls, asked: Names)
    ensures
        target.is_prefix_of(pulled(target, decls, asked)),
        forall|i: int|
            target.len() <= i < pulled(target, decls, asked).len() ==> !((
            #[trigger] pulled(target, decls, asked)[i]) is TypeAlias),
    decreases absent(decls, target, decls.len()),
{
    let used = decls_runtime(target, target.len());
    let next = pull_round(target, used, decls, asked, decls.len());
    lemma_round_no_alias(target, used, decls, asked, decls.len());
    let i = lemma_round(target, used, decls, asked, decls.len());
    if next.len() > target.len() {
        lemma_absent_strict(decls, target, next, decls.len(), i);
        pulling_adds_no_alias(next, decls, asked);
        let all = pulled(next, decls, asked);
        assert forall|k: int| target.len() <= k < all.len() implies !((#[trigger] all[k]) is TypeAlias) by {
            if k < next.len() {
                assert(all[k] == next[k]);
            }
        }
    }
}

proof fn lemma_round_no_alias(target: Decls, used: Names, decls: Decls, asked: Names, n: nat)
    ensures
        target.len() <= pull_round(target, used, decls, asked, n).len(),
        forall|i: int|
            target.len() <= i < pull_round(target, used, decls, asked, n).len() ==> !((
            #[trigger] pull_round(target, used, decls, asked, n)[i]) is TypeAlias),
    decreases n,
{
    if n > 0 && n <= decls.len() {
        lemma_round_no_alias(target, used, decls, asked, (n - 1) as nat);
    }
}

} // verus!
