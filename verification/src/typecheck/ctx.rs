//! What the type checker carries along, and the single steps that change it.

use crate::assoc::{AssocMap, PosKey, SpanKey};
use crate::ast::TypeExpr;
use crate::catalog::{OpRule, OpRuleView};
use crate::diagnostic::{
    lemma_views_push, views, Diagnostic, DiagnosticView, RangeView, Severity, SourceRange,
};
use crate::text::owned;
use crate::type_expr::TypeExprView;
use crate::typecheck::scope::{
    declared, local, popped, retyped, visible, Frame, Scope, SymView, SymbolInfo, SymbolKind,
};
use crate::types::{Type, TypeView};
use vstd::prelude::*;

verus! {

#[derive(Clone, Copy, Debug, PartialEq, Eq, Structural)]
pub enum ExecMode {
    Exec,
    Pure,
}

/// Pre-indexed info about a namespace member.
#[derive(Debug)]
pub struct NsDeclInfo {
    pub kind: SymbolKind,
    pub return_type: Option<TypeExpr>,
}

#[verifier::ext_equal]
pub struct NsView {
    pub kind: SymbolKind,
    pub return_type: Option<TypeExprView>,
}

impl View for NsDeclInfo {
    type V = NsView;

    open spec fn view(&self) -> NsView {
        NsView {
            kind: self.kind,
            return_type: match self.return_type {
                Some(t) => Some(t@),
                None => None,
            },
        }
    }
}

pub type PosView = (Seq<char>, usize);

pub type SpanView = (Seq<char>, usize, usize);

/// Where something starts.
pub open spec fn pos_key(r: RangeView) -> PosView {
    (r.file, r.start.offset)
}

/// Where something starts and ends.
pub open spec fn span_key(r: RangeView) -> SpanView {
    (r.file, r.start.offset, r.end.offset)
}

/// The state of a check.
#[verifier::ext_equal]
pub struct State {
    /// The file that is checked.
    pub file: Seq<char>,
    pub diags: Seq<DiagnosticView>,
    pub scopes: Seq<Frame>,
    pub modes: Seq<ExecMode>,
    pub namespaces: Map<Seq<char>, Map<Seq<char>, NsView>>,
    pub ifs: Map<PosView, bool>,
    pub reads: Map<PosView, bool>,
    pub payloads: Map<Seq<char>, TypeView>,
    pub types: Map<SpanView, TypeView>,
    pub ops: Map<SpanView, OpRuleView>,
}

impl State {
    /// The state before anything of a file has been checked.
    pub open spec fn initial(file: Seq<char>) -> State {
        State {
            file,
            diags: Seq::empty(),
            scopes: seq![Map::empty()],
            modes: seq![ExecMode::Pure],
            namespaces: Map::empty(),
            ifs: Map::empty(),
            reads: Map::empty(),
            payloads: Map::empty(),
            types: Map::empty(),
            ops: Map::empty(),
        }
    }

    pub open spec fn mode(self) -> ExecMode {
        if self.modes.len() > 0 {
            self.modes.last()
        } else {
            ExecMode::Pure
        }
    }

    pub open spec fn is_exec(self) -> bool {
        self.mode() == ExecMode::Exec
    }

    pub open spec fn report(
        self,
        severity: Severity,
        code: Seq<char>,
        message: Seq<char>,
        range: RangeView,
    ) -> State {
        State {
            diags: self.diags.push(DiagnosticView { severity, code, message, range }),
            ..self
        }
    }

    pub open spec fn error(self, code: Seq<char>, message: Seq<char>, range: RangeView) -> State {
        self.report(Severity::Error, code, message, range)
    }

    pub open spec fn warning(self, code: Seq<char>, message: Seq<char>, range: RangeView) -> State {
        self.report(Severity::Warning, code, message, range)
    }

    pub open spec fn lookup(self, name: Seq<char>) -> Option<SymView> {
        visible(self.scopes, name)
    }

    pub open spec fn declare(self, name: Seq<char>, info: SymView) -> State {
        State { scopes: declared(self.scopes, name, info), ..self }
    }

    pub open spec fn set_type(self, name: Seq<char>, ty: TypeView) -> State {
        State { scopes: retyped(self.scopes, name, ty), ..self }
    }

    pub open spec fn push_scope(self) -> State {
        State { scopes: self.scopes.push(Map::empty()), ..self }
    }

    pub open spec fn pop_scope(self) -> State {
        State { scopes: popped(self.scopes), ..self }
    }

    pub open spec fn push_mode(self, mode: ExecMode) -> State {
        State { modes: self.modes.push(mode), ..self }
    }

    pub open spec fn pop_mode(self) -> State {
        State {
            modes: if self.modes.len() > 0 {
                self.modes.drop_last()
            } else {
                self.modes
            },
            ..self
        }
    }

    pub open spec fn note_if(self, range: RangeView, exec_mode: bool) -> State {
        State { ifs: self.ifs.insert(pos_key(range), exec_mode), ..self }
    }

    pub open spec fn note_read(self, range: RangeView, exec_mode: bool) -> State {
        State { reads: self.reads.insert(pos_key(range), exec_mode), ..self }
    }

    pub open spec fn forget_read(self, range: RangeView) -> State {
        State { reads: self.reads.remove(pos_key(range)), ..self }
    }

    pub open spec fn note_payload(self, signal: Seq<char>, ty: TypeView) -> State {
        State { payloads: self.payloads.insert(signal, ty), ..self }
    }

    pub open spec fn note_type(self, range: RangeView, ty: TypeView) -> State {
        State { types: self.types.insert(span_key(range), ty), ..self }
    }

    pub open spec fn note_op(self, range: RangeView, rule: OpRuleView) -> State {
        State { ops: self.ops.insert(span_key(range), rule), ..self }
    }

    pub open spec fn add_namespace(
        self,
        name: Seq<char>,
        members: Map<Seq<char>, NsView>,
    ) -> State {
        State { namespaces: self.namespaces.insert(name, members), ..self }
    }
}

pub struct TypeCheckCtx {
    pub diagnostics: Vec<Diagnostic>,
    pub scope: Scope,
    pub exec_stack: Vec<ExecMode>,
    pub file: String,
    pub namespaces: AssocMap<String, AssocMap<String, NsDeclInfo>>,
    pub if_contexts: AssocMap<PosKey, bool>,
    pub var_read_contexts: AssocMap<PosKey, bool>,
    /// Ferried payload type per local exec signal, recorded from
    /// `emit sig = <value>` so `let { a, b } = await sig` can type its fields.
    pub signal_payload_types: AssocMap<String, Type>,
    /// The type of every visited expression.
    pub type_of_expr: AssocMap<SpanKey, Type>,
    /// The operator rule chosen for every operator expression.
    pub op_resolutions: AssocMap<SpanKey, OpRule>,
}

impl View for TypeCheckCtx {
    type V = State;

    open spec fn view(&self) -> State {
        State {
            file: self.file@,
            diags: views(self.diagnostics@),
            scopes: self.scope@,
            modes: self.exec_stack@,
            namespaces: self.namespaces@,
            ifs: self.if_contexts@,
            reads: self.var_read_contexts@,
            payloads: self.signal_payload_types@,
            types: self.type_of_expr@,
            ops: self.op_resolutions@,
        }
    }
}

pub fn pos_of(range: &SourceRange) -> (r: PosKey)
    ensures
        r@ == pos_key(range@),
{
    PosKey { file: range.file.clone(), start: range.start.offset }
}

pub fn span_of(range: &SourceRange) -> (r: SpanKey)
    ensures
        r@ == span_key(range@),
{
    SpanKey { file: range.file.clone(), start: range.start.offset, end: range.end.offset }
}

impl TypeCheckCtx {
    pub fn new(file: &str) -> (r: TypeCheckCtx)
        ensures
            r@ == State::initial(file@),
    {
        let mut exec_stack: Vec<ExecMode> = Vec::new();
        exec_stack.push(ExecMode::Pure);
        let r = TypeCheckCtx {
            diagnostics: Vec::new(),
            scope: Scope::new(),
            exec_stack,
            file: owned(file),
            namespaces: AssocMap::new(),
            if_contexts: AssocMap::new(),
            var_read_contexts: AssocMap::new(),
            signal_payload_types: AssocMap::new(),
            type_of_expr: AssocMap::new(),
            op_resolutions: AssocMap::new(),
        };
        assert(r@ =~= State::initial(file@));
        r
    }

    pub fn exec_mode(&self) -> (r: ExecMode)
        ensures
            r == self@.mode(),
    {
        let n: usize = self.exec_stack.len();
        if n == 0 {
            ExecMode::Pure
        } else {
            self.exec_stack[n - 1]
        }
    }

    pub fn is_exec(&self) -> (r: bool)
        ensures
            r == self@.is_exec(),
    {
        self.exec_mode() == ExecMode::Exec
    }

    /// Runs `f` in exec mode, and goes back to the mode before it.
    pub fn in_exec<R>(&mut self, f: impl FnOnce(&mut TypeCheckCtx) -> R) -> (r: R)
        requires
            forall|c: &mut TypeCheckCtx|
                c@ == old(self)@.push_mode(ExecMode::Exec) ==> call_requires(f, (c,)),
        ensures
            exists|c: &mut TypeCheckCtx| #[trigger]
                call_ensures(f, (c,), r) && c@ == old(self)@.push_mode(ExecMode::Exec)
                    && final(self)@ == final(c)@.pop_mode(),
    {
        self.push_mode(ExecMode::Exec);
        let r = f(self);
        self.pop_mode();
        r
    }

    /// Runs `f` in pure mode, and goes back to the mode before it.
    pub fn in_pure<R>(&mut self, f: impl FnOnce(&mut TypeCheckCtx) -> R) -> (r: R)
        requires
            forall|c: &mut TypeCheckCtx|
                c@ == old(self)@.push_mode(ExecMode::Pure) ==> call_requires(f, (c,)),
        ensures
            exists|c: &mut TypeCheckCtx| #[trigger]
                call_ensures(f, (c,), r) && c@ == old(self)@.push_mode(ExecMode::Pure)
                    && final(self)@ == final(c)@.pop_mode(),
    {
        self.push_mode(ExecMode::Pure);
        let r = f(self);
        self.pop_mode();
        r
    }

    /// Reports an error.
    pub fn emit(&mut self, code: &str, message: String, range: SourceRange)
        ensures
            final(self)@ == old(self)@.error(code@, message@, range@),
    {
        self.report(Severity::Error, code, message, range);
    }

    /// Reports a warning.
    pub fn warn(&mut self, code: &str, message: String, range: SourceRange)
        ensures
            final(self)@ == old(self)@.warning(code@, message@, range@),
    {
        self.report(Severity::Warning, code, message, range);
    }

    fn report(&mut self, severity: Severity, code: &str, message: String, range: SourceRange)
        ensures
            final(self)@ == old(self)@.report(severity, code@, message@, range@),
    {
        let d = Diagnostic { severity, code: owned(code), message, range };
        proof {
            lemma_views_push(self.diagnostics@, d);
        }
        self.diagnostics.push(d);
    }

    pub fn lookup(&self, name: &String) -> (r: Option<&SymbolInfo>)
        ensures
            r is Some <==> self@.lookup(name@) is Some,
            r matches Some(info) ==> self@.lookup(name@) == Some(info@),
    {
        self.scope.lookup(name)
    }

    /// A copy of the innermost declaration of `name`.
    pub fn symbol(&self, name: &String) -> (r: Option<SymbolInfo>)
        ensures
            r is Some <==> self@.lookup(name@) is Some,
            r matches Some(info) ==> self@.lookup(name@) == Some(info@),
    {
        match self.scope.lookup(name) {
            Some(info) => Some(info.clone()),
            None => None,
        }
    }

    pub fn declare(&mut self, name: &String, info: SymbolInfo) -> (r: Option<SymbolInfo>)
        ensures
            final(self)@ == old(self)@.declare(name@, info@),
            r is Some <==> local(old(self)@.scopes, name@) is Some,
            r matches Some(prior) ==> local(old(self)@.scopes, name@) == Some(prior@),
    {
        self.scope.declare(name, info)
    }

    pub fn set_type(&mut self, name: &String, ty: Type)
        ensures
            final(self)@ == old(self)@.set_type(name@, ty@),
    {
        self.scope.set_type(name, ty);
    }

    pub fn push_scope(&mut self)
        ensures
            final(self)@ == old(self)@.push_scope(),
    {
        self.scope.push();
    }

    pub fn pop_scope(&mut self)
        ensures
            final(self)@ == old(self)@.pop_scope(),
    {
        self.scope.pop();
    }

    pub fn push_mode(&mut self, mode: ExecMode)
        ensures
            final(self)@ == old(self)@.push_mode(mode),
    {
        self.exec_stack.push(mode);
    }

    pub fn pop_mode(&mut self)
        ensures
            final(self)@ == old(self)@.pop_mode(),
    {
        self.exec_stack.pop();
    }

    pub fn note_if(&mut self, range: &SourceRange, exec_mode: bool)
        ensures
            final(self)@ == old(self)@.note_if(range@, exec_mode),
    {
        self.if_contexts.insert(pos_of(range), exec_mode);
    }

    pub fn note_read(&mut self, range: &SourceRange, exec_mode: bool)
        ensures
            final(self)@ == old(self)@.note_read(range@, exec_mode),
    {
        self.var_read_contexts.insert(pos_of(range), exec_mode);
    }

    pub fn forget_read(&mut self, range: &SourceRange)
        ensures
            final(self)@ == old(self)@.forget_read(range@),
    {
        self.var_read_contexts.remove(pos_of(range));
    }

    pub fn note_payload(&mut self, signal: &String, ty: Type)
        ensures
            final(self)@ == old(self)@.note_payload(signal@, ty@),
    {
        self.signal_payload_types.insert(signal.clone(), ty);
    }

    pub fn note_type(&mut self, range: &SourceRange, ty: Type)
        ensures
            final(self)@ == old(self)@.note_type(range@, ty@),
    {
        self.type_of_expr.insert(span_of(range), ty);
    }

    pub fn note_op(&mut self, range: &SourceRange, rule: OpRule)
        ensures
            final(self)@ == old(self)@.note_op(range@, rule@),
    {
        self.op_resolutions.insert(span_of(range), rule);
    }

    pub fn add_namespace(&mut self, name: &String, members: AssocMap<String, NsDeclInfo>)
        ensures
            final(self)@ == old(self)@.add_namespace(name@, members@),
    {
        self.namespaces.insert(name.clone(), members);
    }
}

} // verus!
