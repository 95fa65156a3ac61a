//! Symbols and the stack of scopes that declares them.

use crate::assoc::AssocMap;
use crate::catalog::{clone_data, data_views, EventDataField, FieldView};
use crate::diagnostic::{RangeView, SourceRange};
use crate::types::{Type, TypeView};
use vstd::prelude::*;

verus! {

#[derive(Clone, Copy, Debug, PartialEq, Eq, Structural)]
pub enum SymbolKind {
    Var,
    Buffer,
    Array,
    Param,
    EventParam,
    LetBinding,
    Fn,
    Chip,
    Event,
    ChipInstance,
    In,
    Out,
    Namespace,
    Type,
    Callback,
}

#[derive(Debug)]
pub struct FnOrChipSig {
    pub params: Vec<EventDataField>,
    pub outputs: Vec<EventDataField>,
}

#[verifier::ext_equal]
pub struct SigView {
    pub params: Seq<FieldView>,
    pub outputs: Seq<FieldView>,
}

impl View for FnOrChipSig {
    type V = SigView;

    open spec fn view(&self) -> SigView {
        SigView { params: data_views(self.params@), outputs: data_views(self.outputs@) }
    }
}

impl Clone for FnOrChipSig {
    fn clone(&self) -> (r: FnOrChipSig)
        ensures
            r@ == self@,
    {
        FnOrChipSig { params: clone_data(&self.params), outputs: clone_data(&self.outputs) }
    }
}

#[derive(Debug)]
pub struct SymbolInfo {
    pub kind: SymbolKind,
    pub name: String,
    pub ty: Type,
    pub decl_range: SourceRange,
    pub signature: Option<FnOrChipSig>,
    pub event_data: Option<Vec<EventDataField>>,
}

#[verifier::ext_equal]
pub struct SymView {
    pub kind: SymbolKind,
    pub name: Seq<char>,
    pub ty: TypeView,
    pub decl_range: RangeView,
    pub signature: Option<SigView>,
    pub event_data: Option<Seq<FieldView>>,
}

/// A symbol with neither a signature nor event data.
pub open spec fn plain_symbol(
    kind: SymbolKind,
    name: Seq<char>,
    ty: TypeView,
    range: RangeView,
) -> SymView {
    SymView { kind, name, ty, decl_range: range, signature: None, event_data: None }
}

impl View for SymbolInfo {
    type V = SymView;

    open spec fn view(&self) -> SymView {
        SymView {
            kind: self.kind,
            name: self.name@,
            ty: self.ty@,
            decl_range: self.decl_range@,
            signature: match self.signature {
                Some(sig) => Some(sig@),
                None => None,
            },
            event_data: match self.event_data {
                Some(data) => Some(data_views(data@)),
                None => None,
            },
        }
    }
}

impl Clone for SymbolInfo {
    fn clone(&self) -> (r: SymbolInfo)
        ensures
            r@ == self@,
    {
        SymbolInfo {
            kind: self.kind,
            name: self.name.clone(),
            ty: self.ty.clone(),
            decl_range: self.decl_range.clone(),
            signature: match &self.signature {
                Some(sig) => Some(sig.clone()),
                None => None,
            },
            event_data: match &self.event_data {
                Some(data) => Some(clone_data(data)),
                None => None,
            },
        }
    }
}

/// A symbol with neither a signature nor event data.
pub fn plain_info(kind: SymbolKind, name: &String, ty: Type, range: &SourceRange) -> (r: SymbolInfo)
    ensures
        r@ == plain_symbol(kind, name@, ty@, range@),
{
    SymbolInfo {
        kind,
        name: name.clone(),
        ty,
        decl_range: range.clone(),
        signature: None,
        event_data: None,
    }
}

/// One scope: the symbols it declares.
pub type Frame = Map<Seq<char>, SymView>;

/// The scopes with `name` declared in the innermost one.
pub open spec fn declared(scopes: Seq<Frame>, name: Seq<char>, info: SymView) -> Seq<Frame> {
    if scopes.len() == 0 {
        seq![Map::empty().insert(name, info)]
    } else {
        scopes.update(scopes.len() - 1, scopes.last().insert(name, info))
    }
}

/// What the innermost scope alone says of `name`.
pub open spec fn local(scopes: Seq<Frame>, name: Seq<char>) -> Option<SymView> {
    if scopes.len() > 0 && scopes.last().contains_key(name) {
        Some(scopes.last()[name])
    } else {
        None
    }
}

/// What the innermost scope that declares `name` says of it.
pub open spec fn visible(scopes: Seq<Frame>, name: Seq<char>) -> Option<SymView>
    decreases scopes.len(),
{
    if scopes.len() == 0 {
        None
    } else if scopes.last().contains_key(name) {
        Some(scopes.last()[name])
    } else {
        visible(scopes.drop_last(), name)
    }
}

/// The scopes with the visible declaration of `name` given another type.
pub open spec fn retyped(scopes: Seq<Frame>, name: Seq<char>, ty: TypeView) -> Seq<Frame>
    decreases scopes.len(),
{
    if scopes.len() == 0 {
        scopes
    } else if scopes.last().contains_key(name) {
        scopes.update(
            scopes.len() - 1,
            scopes.last().insert(name, SymView { ty, ..scopes.last()[name] }),
        )
    } else {
        retyped(scopes.drop_last(), name, ty).push(scopes.last())
    }
}

/// The scopes without the innermost one; the outermost scope always stays.
pub open spec fn popped(scopes: Seq<Frame>) -> Seq<Frame> {
    if scopes.len() > 1 {
        scopes.drop_last()
    } else {
        scopes
    }
}

/// A stack of scopes. The outermost one is always there.
#[derive(Debug)]
pub struct Scope {
    outermost: AssocMap<String, SymbolInfo>,
    inner: Vec<AssocMap<String, SymbolInfo>>,
}

impl View for Scope {
    type V = Seq<Frame>;

    closed spec fn view(&self) -> Seq<Frame> {
        seq![self.outermost@] + Seq::new(self.inner@.len(), |i: int| self.inner@[i]@)
    }
}

impl Default for Scope {
    fn default() -> (r: Scope)
        ensures
            r@ == seq![Map::<Seq<char>, SymView>::empty()],
    {
        Scope::new()
    }
}

impl Scope {
    /// A single empty scope.
    pub fn new() -> (r: Scope)
        ensures
            r@ == seq![Map::<Seq<char>, SymView>::empty()],
    {
        let r = Scope { outermost: AssocMap::new(), inner: Vec::new() };
        assert(r@ =~= seq![Map::<Seq<char>, SymView>::empty()]);
        r
    }

    /// No stack of scopes is ever empty.
    pub proof fn never_empty(self)
        ensures
            self@.len() >= 1,
    {
    }

    /// Opens an empty scope inside the others.
    pub fn push(&mut self)
        ensures
            final(self)@ == old(self)@.push(Map::empty()),
    {
        self.inner.push(AssocMap::new());
        assert(self@ =~= old(self)@.push(Map::empty()));
    }

    /// Leaves the innermost scope.
    pub fn pop(&mut self)
        ensures
            final(self)@ == popped(old(self)@),
    {
        if self.inner.len() > 0 {
            self.inner.pop();
        }
        assert(self@ =~= popped(old(self)@));
    }

    /// Declare in the top-most frame. Returns the prior info if any.
    pub fn declare(&mut self, name: &String, info: SymbolInfo) -> (r: Option<SymbolInfo>)
        ensures
            final(self)@ == declared(old(self)@, name@, info@),
            r is Some <==> local(old(self)@, name@) is Some,
            r matches Some(prior) ==> local(old(self)@, name@) == Some(prior@),
    {
        let n: usize = self.inner.len();
        let found = if n == 0 {
            self.outermost.get(name)
        } else {
            self.inner[n - 1].get(name)
        };
        let prior = match found {
            Some(p) => Some(p.clone()),
            None => None,
        };
        if n == 0 {
            self.outermost.insert(name.clone(), info);
        } else {
            self.inner[n - 1].insert(name.clone(), info);
        }
        assert(self@ =~= declared(old(self)@, name@, info@));
        prior
    }

    /// Mutate an already-declared symbol's type (used to refine buffer
    /// types after their RHS infers).
    pub fn set_type(&mut self, name: &String, ty: Type)
        ensures
            final(self)@ == retyped(old(self)@, name@, ty@),
    {
        let ghost all = self@;
        let mut i: usize = self.inner.len();
        assert(all.take(i + 1) =~= all);
        assert(retyped(all, name@, ty@) =~= retyped(all.take(i + 1), name@, ty@) + all.skip(i + 1));
        while i > 0
            invariant
                all == self@,
                all == old(self)@,
                i <= self.inner@.len(),
                retyped(all, name@, ty@) == retyped(all.take(i + 1), name@, ty@) + all.skip(i + 1),
            decreases i,
        {
            let ghost here = all.take(i + 1);
            assert(here.last() == self.inner@[i - 1]@);
            assert(here.drop_last() =~= all.take(i as int));
            i -= 1;
            let found = match self.inner[i].get(name) {
                Some(p) => Some(p.clone()),
                None => None,
            };
            if let Some(mut info) = found {
                info.ty = ty;
                self.inner[i].insert(name.clone(), info);
                assert(self@ =~= retyped(here, name@, ty@) + all.skip(i + 2));
                return ;
            }
            assert(retyped(here, name@, ty@) + all.skip(i + 2) =~= retyped(
                all.take(i + 1),
                name@,
                ty@,
            ) + all.skip(i + 1));
        }
        assert(all.take(1).last() == self.outermost@);
        assert(all.take(1).drop_last() =~= Seq::empty());
        assert(retyped(Seq::empty(), name@, ty@).push(all[0]) =~= all.take(1));
        let found = match self.outermost.get(name) {
            Some(p) => Some(p.clone()),
            None => None,
        };
        if let Some(mut info) = found {
            info.ty = ty;
            self.outermost.insert(name.clone(), info);
        }
        assert(self@ =~= retyped(all.take(1), name@, ty@) + all.skip(1));
    }

    /// The innermost declaration of `name`.
    pub fn lookup(&self, name: &String) -> (r: Option<&SymbolInfo>)
        ensures
            r is Some <==> visible(self@, name@) is Some,
            r matches Some(info) ==> visible(self@, name@) == Some(info@),
    {
        let ghost all = self@;
        let mut i: usize = self.inner.len();
        assert(all.take(i + 1) =~= all);
        while i > 0
            invariant
                all == self@,
                i <= self.inner@.len(),
                visible(all, name@) == visible(all.take(i + 1), name@),
            decreases i,
        {
            assert(all.take(i + 1).last() == self.inner@[i - 1]@);
            assert(all.take(i + 1).drop_last() =~= all.take(i as int));
            i -= 1;
            let found = self.inner[i].get(name);
            if found.is_some() {
                return found;
            }
        }
        assert(all.take(1).last() == self.outermost@);
        assert(all.take(1).drop_last() =~= Seq::empty());
        assert(visible(Seq::empty(), name@) is None);
        self.outermost.get(name)
    }
}

/// What is declared is found, under its name, with what was declared of it.
pub proof fn declared_is_visible(scopes: Seq<Frame>, name: Seq<char>, info: SymView)
    ensures
        visible(declared(scopes, name, info), name) == Some(info),
{
}

/// A declaration leaves what is known of every other name as it was.
pub proof fn declared_leaves_others(
    scopes: Seq<Frame>,
    name: Seq<char>,
    info: SymView,
    other: Seq<char>,
)
    requires
        other != name,
    ensures
        visible(declared(scopes, name, info), other) == visible(scopes, other),
{
    let after = declared(scopes, name, info);
    if scopes.len() > 0 {
        assert(after.drop_last() =~= scopes.drop_last());
    } else {
        assert(after.drop_last() =~= scopes);
    }
}

/// The scopes after a list of declarations, in order, in the innermost one.
pub open spec fn declared_all(scopes: Seq<Frame>, decls: Seq<(Seq<char>, SymView)>) -> Seq<Frame>
    decreases decls.len(),
{
    if decls.len() == 0 {
        scopes
    } else {
        declared(declared_all(scopes, decls.drop_last()), decls.last().0, decls.last().1)
    }
}

/// Leaving a scope undoes everything that was declared in it: every name is
/// known as it was before the scope was opened.
pub proof fn popping_undoes_pushing(
    scope: Scope,
    decls: Seq<(Seq<char>, SymView)>,
    name: Seq<char>,
)
    ensures
        ({
            let left = popped(declared_all(scope@.push(Map::empty()), decls));
            left == scope@ && visible(left, name) == visible(scope@, name)
        }),
    decreases decls.len(),
{
    let opened = scope@.push(Map::<Seq<char>, SymView>::empty());
    scope.never_empty();
    if decls.len() == 0 {
        assert(opened.drop_last() =~= scope@);
    } else {
        lemma_declared_all(opened, decls.drop_last());
        popping_undoes_pushing(scope, decls.drop_last(), name);
        assert(declared_all(opened, decls).drop_last() =~= declared_all(
            opened,
            decls.drop_last(),
        ).drop_last());
    }
}

proof fn lemma_declared_all(scopes: Seq<Frame>, decls: Seq<(Seq<char>, SymView)>)
    requires
        scopes.len() >= 1,
    ensures
        declared_all(scopes, decls).len() == scopes.len(),
    decreases decls.len(),
{
    if decls.len() > 0 {
        lemma_declared_all(scopes, decls.drop_last());
    }
}

/// Giving a symbol another type changes the type of that symbol alone.
pub proof fn retyped_changes_one_type(
    scopes: Seq<Frame>,
    name: Seq<char>,
    ty: TypeView,
    other: Seq<char>,
)
    ensures
        visible(retyped(scopes, name, ty), name) == match visible(scopes, name) {
            Some(info) => Some(SymView { ty, ..info }),
            None => None,
        },
        other != name ==> visible(retyped(scopes, name, ty), other) == visible(scopes, other),
        retyped(scopes, name, ty).len() == scopes.len(),
    decreases scopes.len(),
{
    if scopes.len() > 0 {
        let after = retyped(scopes, name, ty);
        retyped_changes_one_type(scopes.drop_last(), name, ty, other);
        if scopes.last().contains_key(name) {
            assert(after.drop_last() =~= scopes.drop_last());
        } else {
            assert(after.drop_last() =~= retyped(scopes.drop_last(), name, ty));
        }
    }
}

} // verus!
