//! Just which names a script refers to.

use crate::ast_view::{
    ArrayElemView, BlockView, CallArgView, ExprView, HandlerConfigArgView, InterpPartView,
    MatchArmView, MatchBodyView, NamedOutputView, ParamView, RecordLitFieldView, StmtView,
    TopDeclView, TriggerView,
};
use crate::diagnostic::{DiagnosticView, RangeView};
use crate::resolve::files::{FileView, Table};
use crate::resolve::idents::{
    args_idents, arms_idents, array_idents, assign_idents, await_idents, buffer_idents,
    callback_idents, chip_idents, config_idents, decl_names, decls_idents, decls_names,
    elems_idents, emit_idents, expr_idents, fn_idents, handler_idents, if_idents, let_idents,
    opt_expr_idents, out_idents, outputs_idents, params_idents, parts_idents, record_idents,
    stmt_idents, stmts_idents, trigger_idents, triggers_idents, type_fields_idents, type_idents,
    types_idents, var_idents, Names,
};
use crate::resolve::imports::{contributed, own_decls, resolved_script, unused_imports};
use crate::resolve::merge::{importable, name_of, pull_round, Decls};
use crate::type_expr::{TypeExprView, TypeFieldView};
use vstd::prelude::*;

verus! {

/// Whether an expression that may be missing refers to a name.
pub open spec fn maybe_refers(e: Option<ExprView>, x: Seq<char>) -> bool {
    e matches Some(v) && expr_idents(v).contains(x)
}

/// Whether a type that may be missing refers to a name.
pub open spec fn maybe_names(t: Option<TypeExprView>, x: Seq<char>) -> bool {
    t matches Some(v) && type_idents(v).contains(x)
}

/// Whether a block refers to a name.
pub open spec fn block_refers(b: BlockView, all: bool, x: Seq<char>) -> bool {
    stmts_idents(b.stmts, b.stmts.len(), all).contains(x)
}

/// A type refers to the names in it, wherever they stand.
pub proof fn names_in_types(t: TypeExprView, x: Seq<char>)
    ensures
        type_idents(t).contains(x) <==> match t {
            TypeExprView::Name { name, .. } => name == x,
            TypeExprView::Ref { inner, .. } => type_idents(*inner).contains(x),
            TypeExprView::Array { inner, .. } => type_idents(*inner).contains(x),
            TypeExprView::Tuple { fields, .. } => types_idents(fields, fields.len()).contains(x),
            TypeExprView::Record { fields, .. } => type_fields_idents(
                fields,
                fields.len(),
            ).contains(x),
            TypeExprView::Union { options, .. } => types_idents(options, options.len()).contains(x),
        },
{
}

/// Just these names an expression refers to; a field is no name, and neither is
/// a literal.
pub proof fn names_in_expressions(e: ExprView, x: Seq<char>)
    ensures
        expr_idents(e).contains(x) <==> match e {
            ExprView::Ident { name, .. } => name == x,
            ExprView::BinOp { left, right, .. } => expr_idents(*left).contains(x) || expr_idents(
                *right,
            ).contains(x),
            ExprView::UnOp { operand, .. } => expr_idents(*operand).contains(x),
            ExprView::Deref { operand, .. } => expr_idents(*operand).contains(x),
            ExprView::RefOf { operand, .. } => expr_idents(*operand).contains(x),
            ExprView::Call { callee, args, .. } => expr_idents(*callee).contains(x) || args_idents(
                args,
                args.len(),
            ).contains(x),
            ExprView::FieldAccess { obj, .. } => expr_idents(*obj).contains(x),
            ExprView::IndexAccess { obj, index, .. } => expr_idents(*obj).contains(x)
                || expr_idents(*index).contains(x),
            ExprView::TuplePick { obj, .. } => expr_idents(*obj).contains(x),
            ExprView::IfExpr { cond, then_branch, else_branch, .. } => expr_idents(*cond).contains(x)
                || expr_idents(*then_branch).contains(x) || expr_idents(*else_branch).contains(x),
            ExprView::InterpLit { parts, .. } => parts_idents(parts, parts.len()).contains(x),
            ExprView::RecordLit { fields, .. } => record_idents(fields, fields.len()).contains(x),
            ExprView::Array { elements, .. } => elems_idents(elements, elements.len()).contains(x),
            ExprView::BlockExpr { stmts, value, .. } => stmts_idents(
                stmts,
                stmts.len(),
                true,
            ).contains(x) || expr_idents(*value).contains(x),
            ExprView::MatchExpr { scrutinee, arms, .. } => expr_idents(*scrutinee).contains(x)
                || arms_idents(arms, arms.len()).contains(x),
            _ => false,
        },
{
    reveal_with_fuel(expr_idents, 2);
}

/// Lists refer to what their members refer to, one behind the other.
pub proof fn names_in_lists(
    types: Seq<TypeExprView>,
    fields: Seq<TypeFieldView>,
    params: Seq<ParamView>,
    outputs: Seq<NamedOutputView>,
    args: Seq<CallArgView>,
    elems: Seq<ArrayElemView>,
    parts: Seq<InterpPartView>,
    record: Seq<RecordLitFieldView>,
    x: Seq<char>,
)
    ensures
        types.len() > 0 ==> (types_idents(types, types.len()).contains(x) <==> types_idents(
            types,
            (types.len() - 1) as nat,
        ).contains(x) || type_idents(types.last()).contains(x)),
        fields.len() > 0 ==> (type_fields_idents(fields, fields.len()).contains(x)
            <==> type_fields_idents(fields, (fields.len() - 1) as nat).contains(x) || type_idents(
            fields.last().typ,
        ).contains(x)),
        params.len() > 0 ==> (params_idents(params, params.len()).contains(x) <==> params_idents(
            params,
            (params.len() - 1) as nat,
        ).contains(x) || type_idents(params.last().typ).contains(x)),
        outputs.len() > 0 ==> (outputs_idents(outputs, outputs.len()).contains(x) <==> outputs_idents(
            outputs,
            (outputs.len() - 1) as nat,
        ).contains(x) || type_idents(outputs.last().typ).contains(x)),
        args.len() > 0 ==> (args_idents(args, args.len()).contains(x) <==> args_idents(
            args,
            (args.len() - 1) as nat,
        ).contains(x) || expr_idents(
            crate::resolve::import_laws::argument_value(args.last()),
        ).contains(x)),
        elems.len() > 0 ==> (elems_idents(elems, elems.len()).contains(x) <==> elems_idents(
            elems,
            (elems.len() - 1) as nat,
        ).contains(x) || match elems.last() {
            ArrayElemView::Item(e) => expr_idents(e).contains(x),
            ArrayElemView::Spread(e) => expr_idents(e).contains(x),
        }),
        parts.len() > 0 ==> (parts_idents(parts, parts.len()).contains(x) <==> parts_idents(
            parts,
            (parts.len() - 1) as nat,
        ).contains(x) || match parts.last() {
            InterpPartView::Expr(e) => expr_idents(*e).contains(x),
            InterpPartView::Lit(_) => false,
        }),
        record.len() > 0 ==> (record_idents(record, record.len()).contains(x) <==> record_idents(
            record,
            (record.len() - 1) as nat,
        ).contains(x) || match record.last() {
            RecordLitFieldView::Named { value, .. } => expr_idents(value).contains(x),
            RecordLitFieldView::Shorthand { name, .. } => name == x,
            RecordLitFieldView::Spread { value, .. } => expr_idents(value).contains(x),
        }),
        !types_idents(types, 0).contains(x) && !params_idents(params, 0).contains(x)
            && !args_idents(args, 0).contains(x) && !elems_idents(elems, 0).contains(x)
            && !parts_idents(parts, 0).contains(x) && !record_idents(record, 0).contains(x)
            && !outputs_idents(outputs, 0).contains(x) && !type_fields_idents(fields, 0).contains(x),
{
    reveal_with_fuel(args_idents, 2);
    reveal_with_fuel(elems_idents, 2);
    reveal_with_fuel(parts_idents, 2);
    reveal_with_fuel(record_idents, 2);
    reveal_with_fuel(types_idents, 2);
    reveal_with_fuel(type_fields_idents, 2);
}

/// An arm of a match refers to its event and to its body.
pub proof fn names_in_arms(arms: Seq<MatchArmView>, n: nat, x: Seq<char>)
    requires
        0 < n <= arms.len(),
    ensures
        arms_idents(arms, n).contains(x) <==> arms_idents(arms, (n - 1) as nat).contains(x)
            || arms[n - 1].event_name == x || match arms[n - 1].body {
            MatchBodyView::Expr(e) => expr_idents(e).contains(x),
            MatchBodyView::Block(b) => block_refers(b, true, x),
        },
{
    reveal_with_fuel(arms_idents, 2);
}

/// A trigger refers to its name, a field trigger to its object; a union to all
/// of its parts.
pub proof fn names_in_triggers(t: TriggerView, parts: Seq<TriggerView>, n: nat, x: Seq<char>)
    requires
        0 < n <= parts.len(),
    ensures
        trigger_idents(t).contains(x) <==> match t {
            TriggerView::Ident { name, .. } => name == x,
            TriggerView::Field { obj, .. } => obj == x,
            TriggerView::Not { inner, .. } => trigger_idents(*inner).contains(x),
            TriggerView::Union { parts, .. } => triggers_idents(parts, parts.len()).contains(x),
        },
        triggers_idents(parts, n).contains(x) <==> triggers_idents(parts, (n - 1) as nat).contains(x)
            || trigger_idents(parts[n - 1]).contains(x),
{
    reveal_with_fuel(trigger_idents, 2);
    reveal_with_fuel(triggers_idents, 2);
}

/// A configuration refers to what its values refer to.
pub proof fn names_in_configurations(v: Seq<HandlerConfigArgView>, n: nat, x: Seq<char>)
    requires
        0 < n <= v.len(),
    ensures
        config_idents(v, n).contains(x) <==> config_idents(v, (n - 1) as nat).contains(x)
            || match v[n - 1] {
            HandlerConfigArgView::Positional(e) => expr_idents(e).contains(x),
            HandlerConfigArgView::Named { value, .. } => expr_idents(value).contains(x),
        },
{
}

/// Just these names a statement refers to; types and emitted names count where
/// all names are asked for, and not where only those that run are.
pub proof fn names_in_statements(s: StmtView, all: bool, x: Seq<char>)
    ensures
        stmt_idents(s, all).contains(x) <==> match s {
            StmtView::Assign(a) => expr_idents(a.target).contains(x) || expr_idents(
                a.value,
            ).contains(x),
            StmtView::Emit(e) => (all && e.name == x) || maybe_refers(e.value, x) || (
            e.buffer matches Some(b) && (maybe_refers(b.delay, x) || maybe_refers(b.hold, x))),
            StmtView::Await(a) => maybe_refers(a.value_expr, x) || expr_idents(
                a.exec_expr,
            ).contains(x),
            StmtView::If(i) => expr_idents(i.cond).contains(x) || block_refers(
                i.then_block,
                all,
                x,
            ) || (i.else_block matches Some(b) && block_refers(b, all, x)),
            StmtView::In(i) => all && type_idents(i.typ).contains(x),
            StmtView::Let(l) => (all && maybe_names(l.typ, x)) || expr_idents(l.value).contains(x),
            StmtView::OutBinding(o) => (all && maybe_names(o.typ, x)) || maybe_refers(o.value, x),
            StmtView::ExprStmt(es) => expr_idents(es.expr).contains(x),
            StmtView::Var(v) => (all && maybe_names(v.typ, x)) || maybe_refers(v.init, x),
            StmtView::Buffer(b) => (all && maybe_names(b.typ, x)) || expr_idents(b.init).contains(x),
            StmtView::Array(a) => (all && type_idents(a.element_type).contains(x)) || elems_idents(
                a.init,
                a.init.len(),
            ).contains(x),
            StmtView::Handler(h) => trigger_idents(h.trigger).contains(x) || config_idents(
                h.config,
                h.config.len(),
            ).contains(x) || block_refers(h.body, all, x),
            StmtView::AnonChip(ac) => block_refers(ac.body, all, x),
            StmtView::ChipDecl(c) => (all && (params_idents(c.inputs, c.inputs.len()).contains(x)
                || outputs_idents(c.outputs, c.outputs.len()).contains(x))) || block_refers(
                c.body,
                all,
                x,
            ),
            StmtView::Callback(c) => (all && (params_idents(c.inputs, c.inputs.len()).contains(x)
                || outputs_idents(c.outputs, c.outputs.len()).contains(x))) || block_refers(
                c.body,
                all,
                x,
            ),
            StmtView::Return { value, .. } => maybe_refers(value, x),
        },
{
    reveal_with_fuel(stmt_idents, 4);
    reveal_with_fuel(opt_expr_idents, 2);
    reveal_with_fuel(emit_idents, 2);
    reveal_with_fuel(await_idents, 2);
    reveal_with_fuel(assign_idents, 2);
    reveal_with_fuel(if_idents, 2);
    reveal_with_fuel(let_idents, 2);
    reveal_with_fuel(out_idents, 2);
    reveal_with_fuel(var_idents, 2);
    reveal_with_fuel(buffer_idents, 2);
    reveal_with_fuel(array_idents, 2);
    reveal_with_fuel(handler_idents, 2);
    reveal_with_fuel(chip_idents, 2);
    reveal_with_fuel(callback_idents, 2);
}

/// Just these names a declaration refers to that no statement is: functions,
/// events, aliases and namespaces. An import refers to none.
pub proof fn names_in_declarations(d: TopDeclView, all: bool, x: Seq<char>)
    ensures
        d is Import ==> !decl_names(d, all).contains(x),
        d matches TopDeclView::Fn(f) ==> (decl_names(d, all).contains(x) <==> (all && (params_idents(
            f.params,
            f.params.len(),
        ).contains(x) || maybe_names(f.return_type, x))) || expr_idents(f.body).contains(x)),
        d matches TopDeclView::Event(e) ==> (decl_names(d, all).contains(x) <==> expr_idents(
            e.source,
        ).contains(x) || (e.captured_body matches Some(b) && block_refers(b, all, x))),
        d matches TopDeclView::TypeAlias(t) ==> (decl_names(d, all).contains(x) <==> all
            && type_idents(t.typ).contains(x)),
        d matches TopDeclView::Namespace(ns) ==> (decl_names(d, all).contains(x) <==> all
            && decls_names(ns.decls, ns.decls.len(), true).contains(x)),
        d matches TopDeclView::Var(v) ==> decl_names(d, all) == stmt_idents(StmtView::Var(v), all),
        d matches TopDeclView::Array(a) ==> decl_names(d, all) == stmt_idents(
            StmtView::Array(a),
            all,
        ),
        d matches TopDeclView::Buffer(b) ==> decl_names(d, all) == stmt_idents(
            StmtView::Buffer(b),
            all,
        ),
        d matches TopDeclView::Chip(c) ==> decl_names(d, all) == stmt_idents(
            StmtView::ChipDecl(c),
            all,
        ),
        d matches TopDeclView::In(i) ==> decl_names(d, all) == stmt_idents(StmtView::In(i), all),
        d matches TopDeclView::Out(o) ==> decl_names(d, all) == stmt_idents(
            StmtView::OutBinding(o),
            all,
        ),
        d matches TopDeclView::Handler(h) ==> decl_names(d, all) == stmt_idents(
            StmtView::Handler(h),
            all,
        ),
        d matches TopDeclView::Callback(c) ==> decl_names(d, all) == stmt_idents(
            StmtView::Callback(c),
            all,
        ),
        d matches TopDeclView::Let(l) ==> decl_names(d, all) == stmt_idents(StmtView::Let(l), all),
        d matches TopDeclView::Assign(a) ==> decl_names(d, all) == stmt_idents(
            StmtView::Assign(a),
            all,
        ),
        d matches TopDeclView::Await(a) ==> decl_names(d, all) == stmt_idents(
            StmtView::Await(a),
            all,
        ),
        d matches TopDeclView::If(i) ==> decl_names(d, all) == stmt_idents(StmtView::If(i), all),
        d matches TopDeclView::ExprStmt(e) ==> decl_names(d, all) == stmt_idents(
            StmtView::ExprStmt(e),
            all,
        ),
        d matches TopDeclView::AnonChip(ac) ==> decl_names(d, all) == stmt_idents(
            StmtView::AnonChip(ac),
            all,
        ),
{
    reveal_with_fuel(stmt_idents, 4);
    reveal_with_fuel(decl_names, 2);
    reveal_with_fuel(fn_idents, 1);
}

proof fn lemma_names_concat(a: Decls, b: Decls, n: nat)
    requires
        n <= b.len(),
    ensures
        decls_names(a + b, a.len() + n, true) == decls_names(a, a.len(), true).union(
            decls_names(b, n, true),
        ),
    decreases n,
{
    let all = a + b;
    if n == 0 {
        lemma_names_prefix(a, b, a.len());
        assert(decls_names(b, 0, true) =~= Set::empty());
        assert(decls_names(a, a.len(), true).union(Set::empty()) =~= decls_names(
            a,
            a.len(),
            true,
        ));
    } else {
        lemma_names_concat(a, b, (n - 1) as nat);
        assert(all[a.len() + n - 1] == b[n - 1]);
        reveal_with_fuel(decls_names, 2);
        let m = (a.len() + n) as nat;
        assert((m - 1) as nat == a.len() + (n - 1) as nat);
        assert(decls_names(all, m, true) == decls_names(all, (m - 1) as nat, true).union(
            decl_names(all[m - 1], true),
        ));
        assert(decls_names(b, n, true) == decls_names(b, (n - 1) as nat, true).union(
            decl_names(b[n - 1], true),
        ));
        assert(decls_names(all, m, true) =~= decls_names(a, a.len(), true).union(
            decls_names(b, n, true),
        ));
    }
}

proof fn lemma_names_prefix(a: Decls, b: Decls, n: nat)
    requires
        n <= a.len(),
    ensures
        decls_names(a + b, n, true) == decls_names(a, n, true),
    decreases n,
{
    if n > 0 {
        lemma_names_prefix(a, b, (n - 1) as nat);
        assert((a + b)[n - 1] == a[n - 1]);
        reveal_with_fuel(decls_names, 2);
    }
}

/// An import is used where anything in the resolved script refers to it, its own
/// declarations and those that were imported alike.
pub proof fn imports_are_used_by_the_whole_script(
    t: Table,
    file: FileView,
    diags: Seq<DiagnosticView>,
    range: RangeView,
    path: Seq<char>,
    canon: Seq<char>,
)
    ensures
        ({
            let r = resolved_script(t, file, diags, range, path, canon);
            r.diags == unused_imports(
                contributed(t, file, diags, path, canon).progress.diags,
                file.decls,
                decls_idents(r.decls, r.decls.len()),
                file.decls.len(),
            )
        }),
{
    let g = contributed(t, file, diags, path, canon);
    let own = own_decls(file.decls, file.decls.len());
    lemma_names_concat(g.decls, own, own.len());
    let a = decls_idents(own, own.len());
    let b = decls_idents(g.decls, g.decls.len());
    assert(a.union(b) =~= b.union(a));
    assert((g.decls + own).len() == g.decls.len() + own.len());
}

/// What comes along with a name is referred to, was not asked for, is no alias,
/// and is not there yet.
pub proof fn only_references_come_along(
    target: Decls,
    used: Names,
    decls: Decls,
    asked: Names,
    n: nat,
    i: int,
)
    requires
        n <= decls.len(),
    ensures
        pull_round(target, used, decls, asked, n).len() >= target.len(),
        0 <= i < target.len() ==> pull_round(target, used, decls, asked, n)[i] == target[i],
        target.len() <= i < pull_round(target, used, decls, asked, n).len() ==> ({
            let d = pull_round(target, used, decls, asked, n)[i];
            &&& importable(d)
            &&& !(d is TypeAlias)
            &&& name_of(d) is Some
            &&& used.contains(name_of(d)->0)
            &&& !asked.contains(name_of(d)->0)
            &&& decls.contains(d)
        }),
    decreases n,
{
    if n > 0 {
        only_references_come_along(target, used, decls, asked, (n - 1) as nat, i);
        let before = pull_round(target, used, decls, asked, (n - 1) as nat);
        let after = pull_round(target, used, decls, asked, n);
        if 0 <= i < before.len() {
            assert(after[i] == before[i]);
        }
        assert(decls[n - 1] == decls[n - 1]);
        assert(decls.contains(decls[n - 1]));
    }
}

} // verus!
