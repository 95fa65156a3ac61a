//! The identifiers that a script refers to.

use crate::ast::{
    ArrayDecl, ArrayElem, Assign, AwaitStmt, Block, BufferDecl, CallArg, Callback, ChipDecl, Emit,
    EventDecl, Expr, FnDecl, Handler, HandlerConfigArg, If, InterpPart, LetDecl, MatchArm,
    MatchBody, NamedOutput, OutBinding, Param, RecordLitField, RecordTypeField, Stmt, TopDecl,
    Trigger, TypeExpr, VarDecl,
};
use crate::ast_view::{
    array_elems_view, call_args_view, handler_config_args_view, interp_parts_view,
    match_arms_view, named_outputs_view, params_view, record_lit_fields_view, stmts_view,
    top_decls_view, triggers_view, ArrayDeclView, ArrayElemView, AssignView, AwaitStmtView,
    BufferDeclView, CallArgView, CallbackView, ChipDeclView, EmitView, EventDeclView, ExprView,
    FnDeclView, HandlerConfigArgView, HandlerView, IfView, InterpPartView, LetDeclView,
    MatchArmView, MatchBodyView, NamedOutputView, OutBindingView, ParamView, RecordLitFieldView,
    StmtView, TopDeclView, TriggerView, VarDeclView,
};
use crate::text::str_eq;
use crate::type_expr::{field_models, models, TypeExprView, TypeFieldView};
use vstd::prelude::*;

verus! {

/// A set of names.
#[derive(Debug)]
pub struct NameSet {
    names: Vec<String>,
}

impl View for NameSet {
    type V = Set<Seq<char>>;

    closed spec fn view(&self) -> Set<Seq<char>> {
        Set::new(|n: Seq<char>| exists|i: int| 0 <= i < self.names@.len() && #[trigger] self.names@[i]@ == n)
    }
}

impl NameSet {
    pub fn new() -> (r: NameSet)
        ensures
            r@ == Set::<Seq<char>>::empty(),
    {
        let r = NameSet { names: Vec::new() };
        assert(r@ =~= Set::<Seq<char>>::empty());
        r
    }

    pub fn contains(&self, name: &str) -> (r: bool)
        ensures
            r == self@.contains(name@),
    {
        let mut i: usize = 0;
        while i < self.names.len()
            invariant
                i <= self.names@.len(),
                forall|k: int| 0 <= k < i ==> (#[trigger] self.names@[k])@ != name@,
            decreases self.names.len() - i,
        {
            if str_eq(self.names[i].as_str(), name) {
                assert(self.names@[i as int]@ == name@);
                return true;
            }
            i += 1;
        }
        false
    }

    pub fn insert(&mut self, name: String)
        ensures
            final(self)@ == old(self)@.insert(name@),
    {
        let ghost before = self.names@;
        self.names.push(name);
        proof {
            let after = self.names@;
            assert forall|n: Seq<char>| self@.contains(n) == old(self)@.insert(name@).contains(n) by {
                if old(self)@.contains(n) {
                    let i = choose|i: int| 0 <= i < before.len() && #[trigger] before[i]@ == n;
                    assert(after[i]@ == n);
                }
                if n == name@ {
                    assert(after[before.len() as int]@ == n);
                }
                if self@.contains(n) {
                    let i = choose|i: int| 0 <= i < after.len() && #[trigger] after[i]@ == n;
                    if i < before.len() {
                        assert(before[i]@ == n);
                    }
                }
            }
            assert(self@ =~= old(self)@.insert(name@));
        }
    }
}

impl Clone for NameSet {
    fn clone(&self) -> (r: NameSet)
        ensures
            r@ == self@,
    {
        let mut r = NameSet { names: Vec::new() };
        let mut i: usize = 0;
        while i < self.names.len()
            invariant
                i <= self.names@.len(),
                r.names@.len() == i,
                forall|k: int| 0 <= k < i ==> (#[trigger] r.names@[k])@ == self.names@[k]@,
            decreases self.names.len() - i,
        {
            r.names.push(self.names[i].clone());
            i += 1;
        }
        proof {
            assert forall|n: Seq<char>| r@.contains(n) == self@.contains(n) by {
                if self@.contains(n) {
                    let k = choose|k: int| 0 <= k < self.names@.len() && #[trigger] self.names@[k]@ == n;
                    assert(r.names@[k]@ == n);
                }
                if r@.contains(n) {
                    let k = choose|k: int| 0 <= k < r.names@.len() && #[trigger] r.names@[k]@ == n;
                    assert(self.names@[k]@ == n);
                }
            }
            assert(r@ =~= self@);
        }
        r
    }
}

pub type Names = Set<Seq<char>>;

// ---------- types ----------

/// The names in a type expression.
pub open spec fn type_idents(t: TypeExprView) -> Names
    decreases t, 0nat,
{
    match t {
        TypeExprView::Name { name, .. } => set![name],
        TypeExprView::Ref { inner, .. } => type_idents(*inner),
        TypeExprView::Array { inner, .. } => type_idents(*inner),
        TypeExprView::Tuple { fields, .. } => types_idents(fields, fields.len()),
        TypeExprView::Record { fields, .. } => type_fields_idents(fields, fields.len()),
        TypeExprView::Union { options, .. } => types_idents(options, options.len()),
    }
}

pub open spec fn types_idents(v: Seq<TypeExprView>, n: nat) -> Names
    decreases v, n,
{
    if n == 0 || n > v.len() {
        Set::empty()
    } else {
        types_idents(v, (n - 1) as nat).union(type_idents(v[n - 1]))
    }
}

pub open spec fn type_fields_idents(v: Seq<TypeFieldView>, n: nat) -> Names
    decreases v, n,
{
    if n == 0 || n > v.len() {
        Set::empty()
    } else {
        type_fields_idents(v, (n - 1) as nat).union(type_idents(v[n - 1].typ))
    }
}

pub open spec fn opt_type_idents(t: Option<TypeExprView>) -> Names {
    match t {
        Some(t) => type_idents(t),
        None => Set::empty(),
    }
}

pub open spec fn params_idents(v: Seq<ParamView>, n: nat) -> Names
    decreases n,
{
    if n == 0 || n > v.len() {
        Set::empty()
    } else {
        params_idents(v, (n - 1) as nat).union(type_idents(v[n - 1].typ))
    }
}

pub open spec fn outputs_idents(v: Seq<NamedOutputView>, n: nat) -> Names
    decreases n,
{
    if n == 0 || n > v.len() {
        Set::empty()
    } else {
        outputs_idents(v, (n - 1) as nat).union(type_idents(v[n - 1].typ))
    }
}

/// Names that count only with `all`.
pub open spec fn when_all(names: Names, all: bool) -> Names {
    if all {
        names
    } else {
        Set::empty()
    }
}

// ---------- expressions ----------

/// The names an expression refers to.
pub open spec fn expr_idents(e: ExprView) -> Names
    decreases e, 0nat,
{
    match e {
        ExprView::Ident { name, .. } => set![name],
        ExprView::BinOp { left, right, .. } => expr_idents(*left).union(expr_idents(*right)),
        ExprView::UnOp { operand, .. } => expr_idents(*operand),
        ExprView::Deref { operand, .. } => expr_idents(*operand),
        ExprView::RefOf { operand, .. } => expr_idents(*operand),
        ExprView::Call { callee, args, .. } => expr_idents(*callee).union(
            args_idents(args, args.len()),
        ),
        ExprView::FieldAccess { obj, .. } => expr_idents(*obj),
        ExprView::IndexAccess { obj, index, .. } => expr_idents(*obj).union(expr_idents(*index)),
        ExprView::TuplePick { obj, .. } => expr_idents(*obj),
        ExprView::IfExpr { cond, then_branch, else_branch, .. } => expr_idents(*cond).union(
            expr_idents(*then_branch),
        ).union(expr_idents(*else_branch)),
        ExprView::InterpLit { parts, .. } => parts_idents(parts, parts.len()),
        ExprView::RecordLit { fields, .. } => record_idents(fields, fields.len()),
        ExprView::Array { elements, .. } => elems_idents(elements, elements.len()),
        ExprView::BlockExpr { stmts, value, .. } => stmts_idents(stmts, stmts.len(), true).union(
            expr_idents(*value),
        ),
        ExprView::MatchExpr { scrutinee, arms, .. } => expr_idents(*scrutinee).union(
            arms_idents(arms, arms.len()),
        ),
        ExprView::IntLit { .. } => Set::empty(),
        ExprView::FloatLit { .. } => Set::empty(),
        ExprView::StringLit { .. } => Set::empty(),
        ExprView::BoolLit { .. } => Set::empty(),
        ExprView::AssetRef { .. } => Set::empty(),
        ExprView::PrefabRef { .. } => Set::empty(),
    }
}

pub open spec fn args_idents(v: Seq<CallArgView>, n: nat) -> Names
    decreases v, n,
{
    if n == 0 || n > v.len() {
        Set::empty()
    } else {
        args_idents(v, (n - 1) as nat).union(
            match v[n - 1] {
                CallArgView::Positional(e) => expr_idents(e),
                CallArgView::Named { value, .. } => expr_idents(value),
                CallArgView::Spread(e) => expr_idents(e),
            },
        )
    }
}

pub open spec fn parts_idents(v: Seq<InterpPartView>, n: nat) -> Names
    decreases v, n,
{
    if n == 0 || n > v.len() {
        Set::empty()
    } else {
        parts_idents(v, (n - 1) as nat).union(
            match v[n - 1] {
                InterpPartView::Expr(e) => expr_idents(*e),
                InterpPartView::Lit(_) => Set::empty(),
            },
        )
    }
}

/// A shorthand field refers to the name it has.
pub open spec fn record_idents(v: Seq<RecordLitFieldView>, n: nat) -> Names
    decreases v, n,
{
    if n == 0 || n > v.len() {
        Set::empty()
    } else {
        record_idents(v, (n - 1) as nat).union(
            match v[n - 1] {
                RecordLitFieldView::Named { value, .. } => expr_idents(value),
                RecordLitFieldView::Shorthand { name, .. } => set![name],
                RecordLitFieldView::Spread { value, .. } => expr_idents(value),
            },
        )
    }
}

pub open spec fn elems_idents(v: Seq<ArrayElemView>, n: nat) -> Names
    decreases v, n,
{
    if n == 0 || n > v.len() {
        Set::empty()
    } else {
        elems_idents(v, (n - 1) as nat).union(
            match v[n - 1] {
                ArrayElemView::Item(e) => expr_idents(e),
                ArrayElemView::Spread(e) => expr_idents(e),
            },
        )
    }
}

/// An arm refers to the event it waits for and to what its body refers to.
pub open spec fn arms_idents(v: Seq<MatchArmView>, n: nat) -> Names
    decreases v, n,
{
    if n == 0 || n > v.len() {
        Set::empty()
    } else {
        arms_idents(v, (n - 1) as nat).insert(v[n - 1].event_name).union(
            match v[n - 1].body {
                MatchBodyView::Expr(e) => expr_idents(e),
                MatchBodyView::Block(b) => stmts_idents(b.stmts, b.stmts.len(), true),
            },
        )
    }
}

pub open spec fn opt_expr_idents(e: Option<ExprView>) -> Names
    decreases e, 0nat,
{
    match e {
        Some(e) => expr_idents(e),
        None => Set::empty(),
    }
}

// ---------- triggers ----------

/// The names of the events that a trigger waits for.
pub open spec fn trigger_idents(t: TriggerView) -> Names
    decreases t, 0nat,
{
    match t {
        TriggerView::Ident { name, .. } => set![name],
        TriggerView::Field { obj, .. } => set![obj],
        TriggerView::Not { inner, .. } => trigger_idents(*inner),
        TriggerView::Union { parts, .. } => triggers_idents(parts, parts.len()),
    }
}

pub open spec fn triggers_idents(v: Seq<TriggerView>, n: nat) -> Names
    decreases v, n,
{
    if n == 0 || n > v.len() {
        Set::empty()
    } else {
        triggers_idents(v, (n - 1) as nat).union(trigger_idents(v[n - 1]))
    }
}

pub open spec fn config_idents(v: Seq<HandlerConfigArgView>, n: nat) -> Names
    decreases v, n,
{
    if n == 0 || n > v.len() {
        Set::empty()
    } else {
        config_idents(v, (n - 1) as nat).union(
            match v[n - 1] {
                HandlerConfigArgView::Positional(e) => expr_idents(e),
                HandlerConfigArgView::Named { value, .. } => expr_idents(value),
            },
        )
    }
}

// ---------- statements ----------

/// The names that the first `n` statements refer to. With `all`, the names of
/// types and of what is emitted to count; without, only what the statements
/// refer to when they run.
pub open spec fn stmts_idents(v: Seq<StmtView>, n: nat, all: bool) -> Names
    decreases v, n,
{
    if n == 0 || n > v.len() {
        Set::empty()
    } else {
        stmts_idents(v, (n - 1) as nat, all).union(stmt_idents(v[n - 1], all))
    }
}

pub open spec fn stmt_idents(s: StmtView, all: bool) -> Names
    decreases s, 0nat,
{
    match s {
        StmtView::Assign(a) => assign_idents(a),
        StmtView::Emit(e) => emit_idents(e, all),
        StmtView::Await(a) => await_idents(a),
        StmtView::If(i) => if_idents(i, all),
        StmtView::In(i) => when_all(type_idents(i.typ), all),
        StmtView::Let(l) => let_idents(l, all),
        StmtView::OutBinding(o) => out_idents(o, all),
        StmtView::ExprStmt(es) => expr_idents(es.expr),
        StmtView::Var(v) => var_idents(v, all),
        StmtView::Buffer(b) => buffer_idents(b, all),
        StmtView::Array(a) => array_idents(a, all),
        StmtView::Handler(h) => handler_idents(h, all),
        StmtView::AnonChip(ac) => stmts_idents(ac.body.stmts, ac.body.stmts.len(), all),
        StmtView::ChipDecl(c) => chip_idents(c, all),
        StmtView::Callback(c) => callback_idents(c, all),
        StmtView::Return { value, .. } => match value {
            Some(e) => expr_idents(e),
            None => Set::empty(),
        },
    }
}

pub open spec fn assign_idents(a: AssignView) -> Names
    decreases a, 1nat,
{
    expr_idents(a.target).union(expr_idents(a.value))
}

pub open spec fn emit_idents(e: EmitView, all: bool) -> Names
    decreases e, 1nat,
{
    when_all(set![e.name], all).union(opt_expr_idents(e.value)).union(
        match e.buffer {
            Some(b) => opt_expr_idents(b.delay).union(opt_expr_idents(b.hold)),
            None => Set::empty(),
        },
    )
}

pub open spec fn await_idents(a: AwaitStmtView) -> Names
    decreases a, 1nat,
{
    opt_expr_idents(a.value_expr).union(expr_idents(a.exec_expr))
}

pub open spec fn if_idents(i: IfView, all: bool) -> Names
    decreases i, 1nat,
{
    expr_idents(i.cond).union(
        stmts_idents(i.then_block.stmts, i.then_block.stmts.len(), all),
    ).union(
        match i.else_block {
            Some(b) => stmts_idents(b.stmts, b.stmts.len(), all),
            None => Set::empty(),
        },
    )
}

pub open spec fn let_idents(l: LetDeclView, all: bool) -> Names
    decreases l, 1nat,
{
    when_all(opt_type_idents(l.typ), all).union(expr_idents(l.value))
}

pub open spec fn out_idents(o: OutBindingView, all: bool) -> Names
    decreases o, 1nat,
{
    when_all(opt_type_idents(o.typ), all).union(opt_expr_idents(o.value))
}

pub open spec fn var_idents(v: VarDeclView, all: bool) -> Names
    decreases v, 1nat,
{
    when_all(opt_type_idents(v.typ), all).union(opt_expr_idents(v.init))
}

pub open spec fn buffer_idents(b: BufferDeclView, all: bool) -> Names
    decreases b, 1nat,
{
    when_all(opt_type_idents(b.typ), all).union(expr_idents(b.init))
}

pub open spec fn array_idents(a: ArrayDeclView, all: bool) -> Names
    decreases a, 1nat,
{
    when_all(type_idents(a.element_type), all).union(elems_idents(a.init, a.init.len()))
}

pub open spec fn handler_idents(h: HandlerView, all: bool) -> Names
    decreases h, 1nat,
{
    trigger_idents(h.trigger).union(config_idents(h.config, h.config.len())).union(
        stmts_idents(h.body.stmts, h.body.stmts.len(), all),
    )
}

pub open spec fn chip_idents(c: ChipDeclView, all: bool) -> Names
    decreases c, 1nat,
{
    when_all(params_idents(c.inputs, c.inputs.len()), all).union(
        when_all(outputs_idents(c.outputs, c.outputs.len()), all),
    ).union(stmts_idents(c.body.stmts, c.body.stmts.len(), all))
}

pub open spec fn callback_idents(c: CallbackView, all: bool) -> Names
    decreases c, 1nat,
{
    when_all(params_idents(c.inputs, c.inputs.len()), all).union(
        when_all(outputs_idents(c.outputs, c.outputs.len()), all),
    ).union(stmts_idents(c.body.stmts, c.body.stmts.len(), all))
}

// ---------- declarations ----------

pub open spec fn fn_idents(f: FnDeclView, all: bool) -> Names {
    when_all(params_idents(f.params, f.params.len()), all).union(
        when_all(opt_type_idents(f.return_type), all),
    ).union(expr_idents(f.body))
}

pub open spec fn event_idents(e: EventDeclView, all: bool) -> Names {
    expr_idents(e.source).union(
        match e.captured_body {
            Some(b) => stmts_idents(b.stmts, b.stmts.len(), all),
            None => Set::empty(),
        },
    )
}

/// The names a declaration refers to, as for statements. What the members of a
/// namespace refer to when they run, they find in the namespace.
pub open spec fn decl_names(d: TopDeclView, all: bool) -> Names
    decreases d, 0nat,
{
    match d {
        TopDeclView::Import(_) => Set::empty(),
        TopDeclView::Namespace(ns) => if all {
            decls_names(ns.decls, ns.decls.len(), true)
        } else {
            Set::empty()
        },
        TopDeclView::Var(v) => var_idents(v, all),
        TopDeclView::Array(a) => array_idents(a, all),
        TopDeclView::Buffer(b) => buffer_idents(b, all),
        TopDeclView::Fn(f) => fn_idents(f, all),
        TopDeclView::Chip(c) => chip_idents(c, all),
        TopDeclView::AnonChip(ac) => stmts_idents(ac.body.stmts, ac.body.stmts.len(), all),
        TopDeclView::Event(e) => event_idents(e, all),
        TopDeclView::In(i) => when_all(type_idents(i.typ), all),
        TopDeclView::Out(o) => out_idents(o, all),
        TopDeclView::Handler(h) => handler_idents(h, all),
        TopDeclView::Callback(c) => callback_idents(c, all),
        TopDeclView::Let(l) => let_idents(l, all),
        TopDeclView::Await(a) => await_idents(a),
        TopDeclView::Assign(a) => assign_idents(a),
        TopDeclView::If(i) => if_idents(i, all),
        TopDeclView::ExprStmt(es) => expr_idents(es.expr),
        TopDeclView::TypeAlias(t) => when_all(type_idents(t.typ), all),
    }
}

pub open spec fn decls_names(v: Seq<TopDeclView>, n: nat, all: bool) -> Names
    decreases v, n,
{
    if n == 0 || n > v.len() {
        Set::empty()
    } else {
        decls_names(v, (n - 1) as nat, all).union(decl_names(v[n - 1], all))
    }
}

/// The names that the first `n` declarations refer to, in values and in types.
pub open spec fn decls_idents(v: Seq<TopDeclView>, n: nat) -> Names {
    decls_names(v, n, true)
}

/// The names that the first `n` declarations refer to when they run.
pub open spec fn decls_runtime(v: Seq<TopDeclView>, n: nat) -> Names {
    decls_names(v, n, false)
}

// ---------- collecting ----------

pub fn collect_idents_in_type_expr(t: &TypeExpr, idents: &mut NameSet)
    ensures
        final(idents)@ == old(idents)@.union(type_idents(t@)),
    decreases t, 1nat,
{
    match t {
        TypeExpr::Name { name, .. } => {
            idents.insert(name.clone());
        },
        TypeExpr::Ref { inner, .. } => collect_idents_in_type_expr(inner, idents),
        TypeExpr::Array { inner, .. } => collect_idents_in_type_expr(inner, idents),
        TypeExpr::Tuple { fields, .. } => collect_in_types(fields, idents),
        TypeExpr::Record { fields, .. } => collect_in_type_fields(fields, idents),
        TypeExpr::Union { options, .. } => collect_in_types(options, idents),
    }
    assert(idents@ =~= old(idents)@.union(type_idents(t@)));
}

fn collect_in_types(v: &Vec<TypeExpr>, idents: &mut NameSet)
    ensures
        final(idents)@ == old(idents)@.union(types_idents(models(v@), v@.len())),
    decreases v@, 0nat,
{
    let mut i: usize = 0;
    assert(idents@ =~= old(idents)@.union(types_idents(models(v@), 0)));
    while i < v.len()
        invariant
            i <= v@.len(),
            idents@ == old(idents)@.union(types_idents(models(v@), i as nat)),
        decreases v.len() - i,
    {
        collect_idents_in_type_expr(&v[i], idents);
        i += 1;
        assert(idents@ =~= old(idents)@.union(types_idents(models(v@), i as nat)));
    }
}

fn collect_in_type_fields(v: &Vec<RecordTypeField>, idents: &mut NameSet)
    ensures
        final(idents)@ == old(idents)@.union(type_fields_idents(field_models(v@), v@.len())),
    decreases v@, 0nat,
{
    let mut i: usize = 0;
    assert(idents@ =~= old(idents)@.union(type_fields_idents(field_models(v@), 0)));
    while i < v.len()
        invariant
            i <= v@.len(),
            idents@ == old(idents)@.union(type_fields_idents(field_models(v@), i as nat)),
        decreases v.len() - i,
    {
        collect_idents_in_type_expr(&v[i].typ, idents);
        i += 1;
        assert(idents@ =~= old(idents)@.union(type_fields_idents(field_models(v@), i as nat)));
    }
}

fn collect_in_params(v: &Vec<Param>, idents: &mut NameSet)
    ensures
        final(idents)@ == old(idents)@.union(params_idents(params_view(v@), v@.len())),
{
    let mut i: usize = 0;
    assert(idents@ =~= old(idents)@.union(params_idents(params_view(v@), 0)));
    while i < v.len()
        invariant
            i <= v@.len(),
            idents@ == old(idents)@.union(params_idents(params_view(v@), i as nat)),
        decreases v.len() - i,
    {
        collect_idents_in_type_expr(&v[i].typ, idents);
        i += 1;
        assert(idents@ =~= old(idents)@.union(params_idents(params_view(v@), i as nat)));
    }
}

fn collect_in_outputs(v: &Vec<NamedOutput>, idents: &mut NameSet)
    ensures
        final(idents)@ == old(idents)@.union(outputs_idents(named_outputs_view(v@), v@.len())),
{
    let mut i: usize = 0;
    assert(idents@ =~= old(idents)@.union(outputs_idents(named_outputs_view(v@), 0)));
    while i < v.len()
        invariant
            i <= v@.len(),
            idents@ == old(idents)@.union(outputs_idents(named_outputs_view(v@), i as nat)),
        decreases v.len() - i,
    {
        collect_idents_in_type_expr(&v[i].typ, idents);
        i += 1;
        assert(idents@ =~= old(idents)@.union(outputs_idents(named_outputs_view(v@), i as nat)));
    }
}

fn collect_in_opt_type(t: &Option<TypeExpr>, all: bool, idents: &mut NameSet)
    ensures
        final(idents)@ == old(idents)@.union(
            when_all(
                opt_type_idents(
                    match *t {
                        Some(x) => Some(x@),
                        None => None,
                    },
                ),
                all,
            ),
        ),
{
    if all {
        if let Some(t) = t {
            collect_idents_in_type_expr(t, idents);
        }
    }
    assert(idents@ =~= old(idents)@.union(
        when_all(
            opt_type_idents(
                match *t {
                    Some(x) => Some(x@),
                    None => None,
                },
            ),
            all,
        ),
    ));
}

pub fn collect_idents_in_expr(e: &Expr, idents: &mut NameSet)
    ensures
        final(idents)@ == old(idents)@.union(expr_idents(e@)),
    decreases e, 1nat,
{
    match e {
        Expr::Ident { name, .. } => {
            idents.insert(name.clone());
        },
        Expr::BinOp { left, right, .. } => {
            collect_idents_in_expr(left, idents);
            collect_idents_in_expr(right, idents);
        },
        Expr::UnOp { operand, .. } => collect_idents_in_expr(operand, idents),
        Expr::Deref { operand, .. } => collect_idents_in_expr(operand, idents),
        Expr::RefOf { operand, .. } => collect_idents_in_expr(operand, idents),
        Expr::Call { callee, args, .. } => {
            collect_idents_in_expr(callee, idents);
            collect_in_args(args, idents);
        },
        Expr::FieldAccess { obj, .. } => collect_idents_in_expr(obj, idents),
        Expr::IndexAccess { obj, index, .. } => {
            collect_idents_in_expr(obj, idents);
            collect_idents_in_expr(index, idents);
        },
        Expr::TuplePick { obj, .. } => collect_idents_in_expr(obj, idents),
        Expr::IfExpr { cond, then_branch, else_branch, .. } => {
            collect_idents_in_expr(cond, idents);
            collect_idents_in_expr(then_branch, idents);
            collect_idents_in_expr(else_branch, idents);
        },
        Expr::InterpLit { parts, .. } => collect_in_parts(parts, idents),
        Expr::RecordLit { fields, .. } => collect_in_record(fields, idents),
        Expr::Array { elements, .. } => collect_in_elems(elements, idents),
        Expr::BlockExpr { stmts, value, .. } => {
            collect_in_stmts(stmts, true, idents);
            collect_idents_in_expr(value, idents);
        },
        Expr::MatchExpr { scrutinee, arms, .. } => {
            collect_idents_in_expr(scrutinee, idents);
            collect_in_arms(arms, idents);
        },
        Expr::IntLit { .. } => {},
        Expr::FloatLit { .. } => {},
        Expr::StringLit { .. } => {},
        Expr::BoolLit { .. } => {},
        Expr::AssetRef { .. } => {},
        Expr::PrefabRef { .. } => {},
    }
    assert(idents@ =~= old(idents)@.union(expr_idents(e@)));
}

fn collect_in_opt_expr(e: &Option<Expr>, idents: &mut NameSet)
    ensures
        final(idents)@ == old(idents)@.union(
            opt_expr_idents(
                match *e {
                    Some(x) => Some(x@),
                    None => None,
                },
            ),
        ),
    decreases e, 0nat,
{
    if let Some(e) = e {
        collect_idents_in_expr(e, idents);
    }
    assert(idents@ =~= old(idents)@.union(
        opt_expr_idents(
            match *e {
                Some(x) => Some(x@),
                None => None,
            },
        ),
    ));
}

fn collect_in_arms(v: &Vec<MatchArm>, idents: &mut NameSet)
    ensures
        final(idents)@ == old(idents)@.union(arms_idents(match_arms_view(v@), v@.len())),
    decreases v@, 0nat,
{
    let mut i: usize = 0;
    assert(idents@ =~= old(idents)@.union(arms_idents(match_arms_view(v@), 0)));
    while i < v.len()
        invariant
            i <= v@.len(),
            idents@ == old(idents)@.union(arms_idents(match_arms_view(v@), i as nat)),
        decreases v.len() - i,
    {
        idents.insert(v[i].event_name.clone());
        match &v[i].body {
            MatchBody::Expr(e) => collect_idents_in_expr(e, idents),
            MatchBody::Block(b) => collect_in_stmts(&b.stmts, true, idents),
        }
        i += 1;
        assert(idents@ =~= old(idents)@.union(arms_idents(match_arms_view(v@), i as nat)));
    }
}

fn collect_in_args(v: &Vec<CallArg>, idents: &mut NameSet)
    ensures
        final(idents)@ == old(idents)@.union(args_idents(call_args_view(v@), v@.len())),
    decreases v@, 0nat,
{
    let mut i: usize = 0;
    assert(idents@ =~= old(idents)@.union(args_idents(call_args_view(v@), 0)));
    while i < v.len()
        invariant
            i <= v@.len(),
            idents@ == old(idents)@.union(args_idents(call_args_view(v@), i as nat)),
        decreases v.len() - i,
    {
        match &v[i] {
            CallArg::Positional(e) => collect_idents_in_expr(e, idents),
            CallArg::Named { value, .. } => collect_idents_in_expr(value, idents),
            CallArg::Spread(e) => collect_idents_in_expr(e, idents),
        }
        i += 1;
        assert(idents@ =~= old(idents)@.union(args_idents(call_args_view(v@), i as nat)));
    }
}

fn collect_in_parts(v: &Vec<InterpPart>, idents: &mut NameSet)
    ensures
        final(idents)@ == old(idents)@.union(parts_idents(interp_parts_view(v@), v@.len())),
    decreases v@, 0nat,
{
    let mut i: usize = 0;
    assert(idents@ =~= old(idents)@.union(parts_idents(interp_parts_view(v@), 0)));
    while i < v.len()
        invariant
            i <= v@.len(),
            idents@ == old(idents)@.union(parts_idents(interp_parts_view(v@), i as nat)),
        decreases v.len() - i,
    {
        if let InterpPart::Expr(e) = &v[i] {
            collect_idents_in_expr(e, idents);
        }
        i += 1;
        assert(idents@ =~= old(idents)@.union(parts_idents(interp_parts_view(v@), i as nat)));
    }
}

fn collect_in_record(v: &Vec<RecordLitField>, idents: &mut NameSet)
    ensures
        final(idents)@ == old(idents)@.union(record_idents(record_lit_fields_view(v@), v@.len())),
    decreases v@, 0nat,
{
    let mut i: usize = 0;
    assert(idents@ =~= old(idents)@.union(record_idents(record_lit_fields_view(v@), 0)));
    while i < v.len()
        invariant
            i <= v@.len(),
            idents@ == old(idents)@.union(record_idents(record_lit_fields_view(v@), i as nat)),
        decreases v.len() - i,
    {
        match &v[i] {
            RecordLitField::Named { value, .. } => collect_idents_in_expr(value, idents),
            RecordLitField::Shorthand { name, .. } => idents.insert(name.clone()),
            RecordLitField::Spread { value, .. } => collect_idents_in_expr(value, idents),
        }
        i += 1;
        assert(idents@ =~= old(idents)@.union(
            record_idents(record_lit_fields_view(v@), i as nat),
        ));
    }
}

fn collect_in_elems(v: &Vec<ArrayElem>, idents: &mut NameSet)
    ensures
        final(idents)@ == old(idents)@.union(elems_idents(array_elems_view(v@), v@.len())),
    decreases v@, 0nat,
{
    let mut i: usize = 0;
    assert(idents@ =~= old(idents)@.union(elems_idents(array_elems_view(v@), 0)));
    while i < v.len()
        invariant
            i <= v@.len(),
            idents@ == old(idents)@.union(elems_idents(array_elems_view(v@), i as nat)),
        decreases v.len() - i,
    {
        match &v[i] {
            ArrayElem::Item(e) => collect_idents_in_expr(e, idents),
            ArrayElem::Spread(e) => collect_idents_in_expr(e, idents),
        }
        i += 1;
        assert(idents@ =~= old(idents)@.union(elems_idents(array_elems_view(v@), i as nat)));
    }
}

fn collect_in_trigger(t: &Trigger, idents: &mut NameSet)
    ensures
        final(idents)@ == old(idents)@.union(trigger_idents(t@)),
    decreases t, 1nat,
{
    match t {
        Trigger::Ident { name, .. } => idents.insert(name.clone()),
        Trigger::Field { obj, .. } => idents.insert(obj.clone()),
        Trigger::Not { inner, .. } => collect_in_trigger(inner, idents),
        Trigger::Union { parts, .. } => collect_in_triggers(parts, idents),
    }
    assert(idents@ =~= old(idents)@.union(trigger_idents(t@)));
}

fn collect_in_triggers(v: &Vec<Trigger>, idents: &mut NameSet)
    ensures
        final(idents)@ == old(idents)@.union(triggers_idents(triggers_view(v@), v@.len())),
    decreases v@, 0nat,
{
    let mut i: usize = 0;
    assert(idents@ =~= old(idents)@.union(triggers_idents(triggers_view(v@), 0)));
    while i < v.len()
        invariant
            i <= v@.len(),
            idents@ == old(idents)@.union(triggers_idents(triggers_view(v@), i as nat)),
        decreases v.len() - i,
    {
        collect_in_trigger(&v[i], idents);
        i += 1;
        assert(idents@ =~= old(idents)@.union(triggers_idents(triggers_view(v@), i as nat)));
    }
}

fn collect_in_config(v: &Vec<HandlerConfigArg>, idents: &mut NameSet)
    ensures
        final(idents)@ == old(idents)@.union(config_idents(handler_config_args_view(v@), v@.len())),
    decreases v@, 0nat,
{
    let mut i: usize = 0;
    assert(idents@ =~= old(idents)@.union(config_idents(handler_config_args_view(v@), 0)));
    while i < v.len()
        invariant
            i <= v@.len(),
            idents@ == old(idents)@.union(config_idents(handler_config_args_view(v@), i as nat)),
        decreases v.len() - i,
    {
        match &v[i] {
            HandlerConfigArg::Positional(e) => collect_idents_in_expr(e, idents),
            HandlerConfigArg::Named { value, .. } => collect_idents_in_expr(value, idents),
        }
        i += 1;
        assert(idents@ =~= old(idents)@.union(config_idents(handler_config_args_view(v@), i as nat)));
    }
}

pub fn collect_idents_in_block(block: &Block, idents: &mut NameSet)
    ensures
        final(idents)@ == old(idents)@.union(stmts_idents(block@.stmts, block@.stmts.len(), true)),
{
    collect_in_stmts(&block.stmts, true, idents);
}

pub fn collect_runtime_idents_in_block(block: &Block, idents: &mut NameSet)
    ensures
        final(idents)@ == old(idents)@.union(stmts_idents(block@.stmts, block@.stmts.len(), false)),
{
    collect_in_stmts(&block.stmts, false, idents);
}

fn collect_in_stmts(v: &Vec<Stmt>, all: bool, idents: &mut NameSet)
    ensures
        final(idents)@ == old(idents)@.union(stmts_idents(stmts_view(v@), v@.len(), all)),
    decreases v@, 0nat,
{
    let mut i: usize = 0;
    assert(idents@ =~= old(idents)@.union(stmts_idents(stmts_view(v@), 0, all)));
    while i < v.len()
        invariant
            i <= v@.len(),
            idents@ == old(idents)@.union(stmts_idents(stmts_view(v@), i as nat, all)),
        decreases v.len() - i,
    {
        collect_in_stmt(&v[i], all, idents);
        i += 1;
        assert(idents@ =~= old(idents)@.union(stmts_idents(stmts_view(v@), i as nat, all)));
    }
}

fn collect_in_stmt(s: &Stmt, all: bool, idents: &mut NameSet)
    ensures
        final(idents)@ == old(idents)@.union(stmt_idents(s@, all)),
    decreases s, 1nat,
{
    match s {
        Stmt::Assign(a) => collect_in_assign(a, idents),
        Stmt::Emit(e) => collect_in_emit(e, all, idents),
        Stmt::Await(a) => collect_in_await(a, idents),
        Stmt::If(i) => collect_in_if(i, all, idents),
        Stmt::In(i) => {
            if all {
                collect_idents_in_type_expr(&i.typ, idents);
            }
        },
        Stmt::Let(l) => collect_in_let(l, all, idents),
        Stmt::OutBinding(o) => collect_in_out(o, all, idents),
        Stmt::ExprStmt(es) => collect_idents_in_expr(&es.expr, idents),
        Stmt::Var(v) => collect_in_var(v, all, idents),
        Stmt::Buffer(b) => collect_in_buffer(b, all, idents),
        Stmt::Array(a) => collect_in_array(a, all, idents),
        Stmt::Handler(h) => collect_in_handler(h, all, idents),
        Stmt::AnonChip(ac) => collect_in_stmts(&ac.body.stmts, all, idents),
        Stmt::ChipDecl(c) => collect_in_chip(c, all, idents),
        Stmt::Callback(c) => collect_in_callback(c, all, idents),
        Stmt::Return { value, .. } => {
            if let Some(e) = value {
                collect_idents_in_expr(e, idents);
            }
        },
    }
    assert(idents@ =~= old(idents)@.union(stmt_idents(s@, all)));
}

fn collect_in_assign(x: &Assign, idents: &mut NameSet)
    ensures
        final(idents)@ == old(idents)@.union(assign_idents(x@)),
    decreases x, 1nat,
{
    collect_idents_in_expr(&x.target, idents);
    collect_idents_in_expr(&x.value, idents);
    assert(idents@ =~= old(idents)@.union(assign_idents(x@)));
}

fn collect_in_emit(x: &Emit, all: bool, idents: &mut NameSet)
    ensures
        final(idents)@ == old(idents)@.union(emit_idents(x@, all)),
    decreases x, 1nat,
{
    if all {
        idents.insert(x.name.clone());
    }
    collect_in_opt_expr(&x.value, idents);
    if let Some(b) = &x.buffer {
        collect_in_opt_expr(&b.delay, idents);
        collect_in_opt_expr(&b.hold, idents);
    }
    assert(idents@ =~= old(idents)@.union(emit_idents(x@, all)));
}

fn collect_in_await(x: &AwaitStmt, idents: &mut NameSet)
    ensures
        final(idents)@ == old(idents)@.union(await_idents(x@)),
    decreases x, 1nat,
{
    collect_in_opt_expr(&x.value_expr, idents);
    collect_idents_in_expr(&x.exec_expr, idents);
    assert(idents@ =~= old(idents)@.union(await_idents(x@)));
}

fn collect_in_if(x: &If, all: bool, idents: &mut NameSet)
    ensures
        final(idents)@ == old(idents)@.union(if_idents(x@, all)),
    decreases x, 1nat,
{
    collect_idents_in_expr(&x.cond, idents);
    collect_in_stmts(&x.then_block.stmts, all, idents);
    if let Some(b) = &x.else_block {
        collect_in_stmts(&b.stmts, all, idents);
    }
    assert(idents@ =~= old(idents)@.union(if_idents(x@, all)));
}

fn collect_in_let(x: &LetDecl, all: bool, idents: &mut NameSet)
    ensures
        final(idents)@ == old(idents)@.union(let_idents(x@, all)),
    decreases x, 1nat,
{
    collect_in_opt_type(&x.typ, all, idents);
    collect_idents_in_expr(&x.value, idents);
    assert(idents@ =~= old(idents)@.union(let_idents(x@, all)));
}

fn collect_in_out(x: &OutBinding, all: bool, idents: &mut NameSet)
    ensures
        final(idents)@ == old(idents)@.union(out_idents(x@, all)),
    decreases x, 1nat,
{
    collect_in_opt_type(&x.typ, all, idents);
    collect_in_opt_expr(&x.value, idents);
    assert(idents@ =~= old(idents)@.union(out_idents(x@, all)));
}

fn collect_in_var(x: &VarDecl, all: bool, idents: &mut NameSet)
    ensures
        final(idents)@ == old(idents)@.union(var_idents(x@, all)),
    decreases x, 1nat,
{
    collect_in_opt_type(&x.typ, all, idents);
    collect_in_opt_expr(&x.init, idents);
    assert(idents@ =~= old(idents)@.union(var_idents(x@, all)));
}

fn collect_in_buffer(x: &BufferDecl, all: bool, idents: &mut NameSet)
    ensures
        final(idents)@ == old(idents)@.union(buffer_idents(x@, all)),
    decreases x, 1nat,
{
    collect_in_opt_type(&x.typ, all, idents);
    collect_idents_in_expr(&x.init, idents);
    assert(idents@ =~= old(idents)@.union(buffer_idents(x@, all)));
}

fn collect_in_array(x: &ArrayDecl, all: bool, idents: &mut NameSet)
    ensures
        final(idents)@ == old(idents)@.union(array_idents(x@, all)),
    decreases x, 1nat,
{
    if all {
        collect_idents_in_type_expr(&x.element_type, idents);
    }
    collect_in_elems(&x.init, idents);
    assert(idents@ =~= old(idents)@.union(array_idents(x@, all)));
}

fn collect_in_handler(x: &Handler, all: bool, idents: &mut NameSet)
    ensures
        final(idents)@ == old(idents)@.union(handler_idents(x@, all)),
    decreases x, 1nat,
{
    collect_in_trigger(&x.trigger, idents);
    collect_in_config(&x.config, idents);
    collect_in_stmts(&x.body.stmts, all, idents);
    assert(idents@ =~= old(idents)@.union(handler_idents(x@, all)));
}

fn collect_in_chip(x: &ChipDecl, all: bool, idents: &mut NameSet)
    ensures
        final(idents)@ == old(idents)@.union(chip_idents(x@, all)),
    decreases x, 1nat,
{
    if all {
        collect_in_params(&x.inputs, idents);
        collect_in_outputs(&x.outputs, idents);
    }
    collect_in_stmts(&x.body.stmts, all, idents);
    assert(idents@ =~= old(idents)@.union(chip_idents(x@, all)));
}

fn collect_in_callback(x: &Callback, all: bool, idents: &mut NameSet)
    ensures
        final(idents)@ == old(idents)@.union(callback_idents(x@, all)),
    decreases x, 1nat,
{
    if all {
        collect_in_params(&x.inputs, idents);
        collect_in_outputs(&x.outputs, idents);
    }
    collect_in_stmts(&x.body.stmts, all, idents);
    assert(idents@ =~= old(idents)@.union(callback_idents(x@, all)));
}

fn collect_in_fn(x: &FnDecl, all: bool, idents: &mut NameSet)
    ensures
        final(idents)@ == old(idents)@.union(fn_idents(x@, all)),
{
    if all {
        collect_in_params(&x.params, idents);
    }
    collect_in_opt_type(&x.return_type, all, idents);
    collect_idents_in_expr(&x.body, idents);
    assert(idents@ =~= old(idents)@.union(fn_idents(x@, all)));
}

fn collect_in_event(x: &EventDecl, all: bool, idents: &mut NameSet)
    ensures
        final(idents)@ == old(idents)@.union(event_idents(x@, all)),
{
    collect_idents_in_expr(&x.source, idents);
    if let Some(b) = &x.captured_body {
        collect_in_stmts(&b.stmts, all, idents);
    }
    assert(idents@ =~= old(idents)@.union(event_idents(x@, all)));
}

fn collect_in_decl(d: &TopDecl, all: bool, idents: &mut NameSet)
    ensures
        final(idents)@ == old(idents)@.union(decl_names(d@, all)),
    decreases d, 1nat,
{
    match d {
        TopDecl::Import(_) => {},
        TopDecl::Namespace(ns) => {
            if all {
                collect_in_decls(&ns.decls, true, idents);
            }
        },
        TopDecl::Var(v) => collect_in_var(v, all, idents),
        TopDecl::Array(a) => collect_in_array(a, all, idents),
        TopDecl::Buffer(b) => collect_in_buffer(b, all, idents),
        TopDecl::Fn(f) => collect_in_fn(f, all, idents),
        TopDecl::Chip(c) => collect_in_chip(c, all, idents),
        TopDecl::AnonChip(ac) => collect_in_stmts(&ac.body.stmts, all, idents),
        TopDecl::Event(e) => collect_in_event(e, all, idents),
        TopDecl::In(i) => {
            if all {
                collect_idents_in_type_expr(&i.typ, idents);
            }
        },
        TopDecl::Out(o) => collect_in_out(o, all, idents),
        TopDecl::Handler(h) => collect_in_handler(h, all, idents),
        TopDecl::Callback(c) => collect_in_callback(c, all, idents),
        TopDecl::Let(l) => collect_in_let(l, all, idents),
        TopDecl::Await(a) => collect_in_await(a, idents),
        TopDecl::Assign(a) => collect_in_assign(a, idents),
        TopDecl::If(i) => collect_in_if(i, all, idents),
        TopDecl::ExprStmt(es) => collect_idents_in_expr(&es.expr, idents),
        TopDecl::TypeAlias(t) => {
            if all {
                collect_idents_in_type_expr(&t.typ, idents);
            }
        },
    }
    assert(idents@ =~= old(idents)@.union(decl_names(d@, all)));
}

fn collect_in_decls(v: &Vec<TopDecl>, all: bool, idents: &mut NameSet)
    ensures
        final(idents)@ == old(idents)@.union(decls_names(top_decls_view(v@), v@.len(), all)),
    decreases v@, 0nat,
{
    let mut i: usize = 0;
    assert(idents@ =~= old(idents)@.union(decls_names(top_decls_view(v@), 0, all)));
    while i < v.len()
        invariant
            i <= v@.len(),
            idents@ == old(idents)@.union(decls_names(top_decls_view(v@), i as nat, all)),
        decreases v.len() - i,
    {
        collect_in_decl(&v[i], all, idents);
        i += 1;
        assert(idents@ =~= old(idents)@.union(decls_names(top_decls_view(v@), i as nat, all)));
    }
}

pub fn collect_idents_in_decl(d: &TopDecl, idents: &mut NameSet)
    ensures
        final(idents)@ == old(idents)@.union(decl_names(d@, true)),
{
    collect_in_decl(d, true, idents);
}

/// Adds the names that some declarations refer to.
pub fn collect_idents_in_decls(decls: &Vec<TopDecl>, idents: &mut NameSet)
    ensures
        final(idents)@ == old(idents)@.union(
            decls_idents(top_decls_view(decls@), decls@.len()),
        ),
{
    collect_in_decls(decls, true, idents);
}

pub fn collect_runtime_idents_in_decl(d: &TopDecl, idents: &mut NameSet)
    ensures
        final(idents)@ == old(idents)@.union(decl_names(d@, false)),
{
    collect_in_decl(d, false, idents);
}

/// The names that some declarations refer to when they run.
pub fn collect_runtime_idents_in_decls(decls: &Vec<TopDecl>) -> (r: NameSet)
    ensures
        r@ == decls_runtime(top_decls_view(decls@), decls@.len()),
{
    let mut idents = NameSet::new();
    collect_in_decls(decls, false, &mut idents);
    assert(idents@ =~= decls_runtime(top_decls_view(decls@), decls@.len()));
    idents
}

} // verus!
