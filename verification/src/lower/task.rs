//! The parts of lowering that statements and declarations leave to others.
//!
//! Statements and declarations are lowered around expressions, blocks,
//! handlers, events and array operations. How those are lowered is a parameter:
//! a function that runs one [`Task`] on the context, and gives the context back
//! with the port of the task's value. What a statement does is stated for every such function.

use crate::ast::{Block, EventDecl, Expr, Handler};
use crate::diagnostic::{RangeView, SourceRange};
use crate::lower::ctx::LowerCtx;
use crate::lower::graph::PortRef;
use crate::lower::state::LowerState;
use crate::types::{Type, TypeView};
use vstd::prelude::*;

verus! {

/// An operation on an array variable.
#[derive(Clone, Copy, Debug, PartialEq, Eq, Structural)]
pub enum ArrayOp {
    Clear,
    Push,
    Append,
}

impl ArrayOp {
    pub open spec fn word(self) -> Seq<char> {
        match self {
            ArrayOp::Clear => "clear"@,
            ArrayOp::Push => "push"@,
            ArrayOp::Append => "append"@,
        }
    }

    /// The name of the array method.
    pub fn as_str(self) -> (r: &'static str)
        ensures
            r@ == self.word(),
    {
        match self {
            ArrayOp::Clear => "clear",
            ArrayOp::Push => "push",
            ArrayOp::Append => "append",
        }
    }
}

/// A piece of a script to lower.
#[derive(Debug)]
pub enum Task<'a> {
    Expr(&'a Expr),
    /// An expression that is one identifier.
    Ident { name: &'a String, range: &'a SourceRange },
    Block(&'a Block),
    Handler(&'a Handler),
    Event(&'a EventDecl),
    /// `array.method(arg)` on behalf of `value`.
    ArrayMethod {
        array: PortRef,
        elem_type: Type,
        method: ArrayOp,
        arg: Option<&'a Expr>,
        range: &'a SourceRange,
        value: &'a Expr,
    },
    /// `obj[index] = value`.
    ArraySet {
        obj: &'a Expr,
        index: &'a Expr,
        value: &'a Expr,
        range: &'a SourceRange,
    },
}

/// A piece of a script to lower, as a mathematical value.
pub enum TaskView {
    Expr(Expr),
    Ident { name: Seq<char>, range: RangeView },
    Block(Block),
    Handler(Handler),
    Event(EventDecl),
    ArrayMethod {
        array: PortRef,
        elem_type: TypeView,
        method: ArrayOp,
        arg: Option<Expr>,
        range: RangeView,
        value: Expr,
    },
    ArraySet { obj: Expr, index: Expr, value: Expr, range: RangeView },
}

impl<'a> View for Task<'a> {
    type V = TaskView;

    open spec fn view(&self) -> TaskView {
        match *self {
            Task::Expr(e) => TaskView::Expr(*e),
            Task::Ident { name, range } => TaskView::Ident { name: name@, range: range@ },
            Task::Block(b) => TaskView::Block(*b),
            Task::Handler(h) => TaskView::Handler(*h),
            Task::Event(e) => TaskView::Event(*e),
            Task::ArrayMethod { array, elem_type, method, arg, range, value } => TaskView::ArrayMethod {
                array,
                elem_type: elem_type@,
                method,
                arg: match arg {
                    Some(e) => Some(*e),
                    None => None,
                },
                range: range@,
                value: *value,
            },
            Task::ArraySet { obj, index, value, range } => TaskView::ArraySet {
                obj: *obj,
                index: *index,
                value: *value,
                range: range@,
            },
        }
    }
}

/// Which states and ports a task may lead to from a state.
pub type Runs = spec_fn(LowerState, TaskView, LowerState, PortRef) -> bool;

/// What a function does with tasks.
pub open spec fn runs<'a, F: Fn(LowerCtx<'a>, Task<'a>) -> (LowerCtx<'a>, PortRef)>(f: F) -> Runs {
    |before: LowerState, t: TaskView, after: LowerState, port: PortRef|
        exists|c: LowerCtx<'a>, task: Task<'a>, d: LowerCtx<'a>| #[trigger]
            call_ensures(f, (c, task), (d, port)) && c@ == before && task@ == t && d@ == after
}

/// A function that runs every task on every context.
pub open spec fn total<'a, F: Fn(LowerCtx<'a>, Task<'a>) -> (LowerCtx<'a>, PortRef)>(f: F) -> bool {
    forall|c: LowerCtx<'a>, task: Task<'a>| #[trigger] call_requires(f, (c, task))
}

/// Running the task `t` may lead from one state to another, with its value at
/// `port`.
pub open spec fn step(
    run: Runs,
    before: LowerState,
    t: TaskView,
    after: LowerState,
    port: PortRef,
) -> bool {
    run(before, t, after, port)
}

/// True of everything: names the values that an `exists` speaks of.
pub open spec fn such<T>(x: T) -> bool {
    true
}

/// Runs one task.
pub fn run_task<'a, F: Fn(LowerCtx<'a>, Task<'a>) -> (LowerCtx<'a>, PortRef)>(
    f: &F,
    ctx: &mut LowerCtx<'a>,
    task: Task<'a>,
) -> (port: PortRef)
    requires
        total(*f),
    ensures
        step(runs(*f), old(ctx)@, task@, final(ctx)@, port),
{
    let mut taken = LowerCtx::new(
        ctx.type_of_expr,
        ctx.op_resolutions,
        ctx.doc_comments,
        ctx.is_root_module,
    );
    std::mem::swap(ctx, &mut taken);
    let (after, port) = f(taken, task);
    *ctx = after;
    port
}

} // verus!
