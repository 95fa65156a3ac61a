//! Syntax trees as mathematical values, and their copies.

use crate::ast::{
    AnonChipDecl, ArrayDecl, ArrayElem, Assign, AwaitStmt, Block, BufferDecl, BufferSpec, CallArg,
    Callback, ChipDecl, Emit, EventDecl, Expr, ExprStmt, FnDecl, Handler, HandlerConfigArg, If,
    ImportBinding, ImportDecl, ImportKind, InDecl, InterpPart, LetBinding, LetDecl, MatchArm,
    MatchBody, NamedOutput, NamespaceDecl, OutBinding, Param, ParamPattern, RecordDestructField,
    RecordLitField, Stmt, TopDecl, Trigger, TypeAliasDecl, VarDecl, PortSide,
};
use crate::diagnostic::RangeView;
use crate::text::texts;
use crate::type_expr::TypeExprView;
use vstd::prelude::*;

verus! {

// ---------- views ----------

pub struct BlockView {
    pub stmts: Seq<StmtView>,
    pub range: RangeView,
}

pub enum StmtView {
    Assign(AssignView),
    Emit(EmitView),
    Await(AwaitStmtView),
    If(IfView),
    In(InDeclView),
    Let(LetDeclView),
    OutBinding(OutBindingView),
    ExprStmt(ExprStmtView),
    Var(VarDeclView),
    Buffer(BufferDeclView),
    Array(ArrayDeclView),
    Handler(HandlerView),
    AnonChip(AnonChipDeclView),
    ChipDecl(ChipDeclView),
    Callback(CallbackView),
    Return { value: Option<ExprView>, range: RangeView },
}

pub struct AssignView {
    pub target: ExprView,
    pub value: ExprView,
    pub range: RangeView,
}

pub struct EmitView {
    pub name: Seq<char>,
    pub value: Option<ExprView>,
    pub buffer: Option<BufferSpecView>,
    pub range: RangeView,
}

pub struct BufferSpecView {
    pub delay: Option<ExprView>,
    pub hold: Option<ExprView>,
    pub seconds: bool,
    pub range: RangeView,
}

pub struct AwaitStmtView {
    pub binding: Option<Seq<char>>,
    pub destructure: Option<Seq<(Seq<char>, Seq<char>)>>,
    pub value_expr: Option<ExprView>,
    pub exec_expr: ExprView,
    pub range: RangeView,
}

pub struct IfView {
    pub cond: ExprView,
    pub then_block: BlockView,
    pub else_block: Option<BlockView>,
    pub range: RangeView,
}

pub struct OutBindingView {
    pub name: Seq<char>,
    pub value: Option<ExprView>,
    pub typ: Option<TypeExprView>,
    pub side: Option<PortSide>,
    pub label: Option<Seq<char>>,
    pub range: RangeView,
}

pub struct ExprStmtView {
    pub expr: ExprView,
    pub range: RangeView,
}

pub enum ExprView {
    IntLit { value: i64, text: Seq<char>, range: RangeView },
    FloatLit { bits: u64, text: Seq<char>, range: RangeView },
    StringLit { value: Seq<char>, range: RangeView },
    InterpLit { parts: Seq<InterpPartView>, range: RangeView },
    BoolLit { value: bool, range: RangeView },
    Ident { name: Seq<char>, range: RangeView },
    FieldAccess { obj: Box<ExprView>, field: Seq<char>, range: RangeView },
    IndexAccess { obj: Box<ExprView>, index: Box<ExprView>, range: RangeView },
    TuplePick { obj: Box<ExprView>, index: usize, range: RangeView },
    UnOp { op: Seq<char>, operand: Box<ExprView>, range: RangeView },
    BinOp { op: Seq<char>, left: Box<ExprView>, right: Box<ExprView>, range: RangeView },
    Call { callee: Box<ExprView>, args: Seq<CallArgView>, range: RangeView },
    Deref { operand: Box<ExprView>, range: RangeView },
    RefOf { operand: Box<ExprView>, range: RangeView },
    IfExpr { cond: Box<ExprView>, then_branch: Box<ExprView>, else_branch: Box<ExprView>, range: RangeView },
    BlockExpr { stmts: Seq<StmtView>, value: Box<ExprView>, range: RangeView },
    MatchExpr { scrutinee: Box<ExprView>, arms: Seq<MatchArmView>, range: RangeView },
    RecordLit { fields: Seq<RecordLitFieldView>, range: RangeView },
    Array { elements: Seq<ArrayElemView>, range: RangeView },
    AssetRef { asset_type: Seq<char>, asset_name: Seq<char>, range: RangeView },
    PrefabRef { path: Seq<char>, range: RangeView },
}

pub enum ArrayElemView {
    Item(ExprView),
    Spread(ExprView),
}

pub enum InterpPartView {
    Lit(Seq<char>),
    Expr(Box<ExprView>),
}

pub enum RecordLitFieldView {
    Named { name: Seq<char>, value: ExprView, range: RangeView },
    Shorthand { name: Seq<char>, range: RangeView },
    Spread { value: ExprView, range: RangeView },
}

pub enum CallArgView {
    Positional(ExprView),
    Named { name: Seq<char>, value: ExprView },
    Spread(ExprView),
}

pub struct MatchArmView {
    pub event_name: Seq<char>,
    pub binding: Option<Seq<char>>,
    pub body: MatchBodyView,
    pub range: RangeView,
}

pub enum MatchBodyView {
    Expr(ExprView),
    Block(BlockView),
}

pub struct VarDeclView {
    pub name: Seq<char>,
    pub typ: Option<TypeExprView>,
    pub init: Option<ExprView>,
    pub is_static: bool,
    pub range: RangeView,
}

pub struct ArrayDeclView {
    pub name: Seq<char>,
    pub element_type: TypeExprView,
    pub init: Seq<ArrayElemView>,
    pub range: RangeView,
}

pub struct BufferDeclView {
    pub name: Seq<char>,
    pub typ: Option<TypeExprView>,
    pub init: ExprView,
    pub range: RangeView,
}

pub struct ParamView {
    pub name: Seq<char>,
    pub typ: TypeExprView,
    pub pattern: Option<ParamPatternView>,
    pub range: RangeView,
}

pub enum ParamPatternView {
    Record { fields: Seq<RecordDestructFieldView>, rest: Option<Seq<char>> },
    Tuple { names: Seq<Seq<char>>, rest: Option<Seq<char>> },
}

pub struct NamedOutputView {
    pub name: Seq<char>,
    pub typ: TypeExprView,
    pub range: RangeView,
}

pub struct FnDeclView {
    pub name: Seq<char>,
    pub params: Seq<ParamView>,
    pub return_type: Option<TypeExprView>,
    pub body: ExprView,
    pub range: RangeView,
}

pub struct ChipDeclView {
    pub name: Seq<char>,
    pub inputs: Seq<ParamView>,
    pub outputs: Seq<NamedOutputView>,
    pub body: BlockView,
    pub range: RangeView,
    pub inline: bool,
    pub label: Option<Seq<char>>,
    pub closed: bool,
}

pub struct AnonChipDeclView {
    pub open: bool,
    pub body: BlockView,
    pub range: RangeView,
    pub label: Option<Seq<char>>,
    pub closed: bool,
}

pub struct EventDeclView {
    pub name: Seq<char>,
    pub source: ExprView,
    pub captured_body: Option<BlockView>,
    pub range: RangeView,
}

pub struct InDeclView {
    pub name: Seq<char>,
    pub typ: TypeExprView,
    pub side: Option<PortSide>,
    pub label: Option<Seq<char>>,
    pub range: RangeView,
}

pub struct LetDeclView {
    pub binding: LetBindingView,
    pub typ: Option<TypeExprView>,
    pub value: ExprView,
    pub range: RangeView,
}

pub enum LetBindingView {
    Ident { name: Seq<char>, range: RangeView },
    Tuple { names: Seq<Seq<char>>, rest: Option<Seq<char>>, range: RangeView },
    Record { names: Seq<Seq<char>>, range: RangeView },
    RecordDestruct { fields: Seq<RecordDestructFieldView>, range: RangeView },
}

pub enum RecordDestructFieldView {
    Named { name: Seq<char>, alias: Option<Seq<char>>, range: RangeView },
    Rest { name: Seq<char>, range: RangeView },
}

pub struct HandlerView {
    pub trigger: TriggerView,
    pub params: Seq<Seq<char>>,
    pub config: Seq<HandlerConfigArgView>,
    pub body: BlockView,
    pub range: RangeView,
}

pub struct CallbackView {
    pub name: Seq<char>,
    pub inputs: Seq<ParamView>,
    pub outputs: Seq<NamedOutputView>,
    pub body: BlockView,
    pub range: RangeView,
}

pub enum HandlerConfigArgView {
    Positional(ExprView),
    Named { name: Seq<char>, value: ExprView },
}

pub enum TriggerView {
    Ident { name: Seq<char>, range: RangeView },
    Field { obj: Seq<char>, field: Seq<char>, range: RangeView },
    Not { inner: Box<TriggerView>, range: RangeView },
    Union { parts: Seq<TriggerView>, range: RangeView },
}

pub struct TypeAliasDeclView {
    pub name: Seq<char>,
    pub typ: TypeExprView,
    pub range: RangeView,
}

pub struct ImportBindingView {
    pub name: Seq<char>,
    pub alias: Option<Seq<char>>,
    pub range: RangeView,
}

pub enum ImportKindView {
    All,
    Named(Seq<ImportBindingView>),
    Namespace(Seq<char>),
}

pub struct ImportDeclView {
    pub path: Seq<char>,
    pub kind: ImportKindView,
    pub range: RangeView,
}

pub struct NamespaceDeclView {
    pub name: Seq<char>,
    pub decls: Seq<TopDeclView>,
    pub source_path: Seq<char>,
    pub module_doc: Option<Seq<char>>,
    pub range: RangeView,
}

pub enum TopDeclView {
    Import(ImportDeclView),
    Namespace(NamespaceDeclView),
    Var(VarDeclView),
    Array(ArrayDeclView),
    Buffer(BufferDeclView),
    Fn(FnDeclView),
    Chip(ChipDeclView),
    AnonChip(AnonChipDeclView),
    Event(EventDeclView),
    In(InDeclView),
    Out(OutBindingView),
    Handler(HandlerView),
    Callback(CallbackView),
    Let(LetDeclView),
    Await(AwaitStmtView),
    Assign(AssignView),
    If(IfView),
    ExprStmt(ExprStmtView),
    TypeAlias(TypeAliasDeclView),
}

/// An optional text as a mathematical value.
pub open spec fn text_of(s: Option<String>) -> Option<Seq<char>> {
    match s {
        Some(t) => Some(t@),
        None => None,
    }
}

/// Optional pairs of texts as a mathematical value.
pub open spec fn pairs_of(s: Option<Vec<(String, String)>>) -> Option<
    Seq<(Seq<char>, Seq<char>)>,
> {
    match s {
        Some(v) => Some(Seq::new(v@.len(), |i: int| (v@[i].0@, v@[i].1@))),
        None => None,
    }
}

// ---------- models ----------

impl Block {
    pub open spec fn model(self) -> BlockView
        decreases self,
    {
        BlockView {
            stmts: stmts_view(self.stmts@),
            range: self.range@,
        }
    }
}

impl View for Block {
    type V = BlockView;

    open spec fn view(&self) -> BlockView {
        self.model()
    }
}

impl Stmt {
    pub open spec fn model(self) -> StmtView
        decreases self,
    {
        match self {
            Stmt::Assign(x) => StmtView::Assign(x.model()),
            Stmt::Emit(x) => StmtView::Emit(x.model()),
            Stmt::Await(x) => StmtView::Await(x.model()),
            Stmt::If(x) => StmtView::If(x.model()),
            Stmt::In(x) => StmtView::In(x.model()),
            Stmt::Let(x) => StmtView::Let(x.model()),
            Stmt::OutBinding(x) => StmtView::OutBinding(x.model()),
            Stmt::ExprStmt(x) => StmtView::ExprStmt(x.model()),
            Stmt::Var(x) => StmtView::Var(x.model()),
            Stmt::Buffer(x) => StmtView::Buffer(x.model()),
            Stmt::Array(x) => StmtView::Array(x.model()),
            Stmt::Handler(x) => StmtView::Handler(x.model()),
            Stmt::AnonChip(x) => StmtView::AnonChip(x.model()),
            Stmt::ChipDecl(x) => StmtView::ChipDecl(x.model()),
            Stmt::Callback(x) => StmtView::Callback(x.model()),
            Stmt::Return { value, range } => StmtView::Return {
                value: match value {
                    Some(x) => Some(x.model()),
                    None => None,
                },
                range: range@,
            },
        }
    }
}

impl View for Stmt {
    type V = StmtView;

    open spec fn view(&self) -> StmtView {
        self.model()
    }
}

impl Assign {
    pub open spec fn model(self) -> AssignView
        decreases self,
    {
        AssignView {
            target: self.target.model(),
            value: self.value.model(),
            range: self.range@,
        }
    }
}

impl View for Assign {
    type V = AssignView;

    open spec fn view(&self) -> AssignView {
        self.model()
    }
}

impl Emit {
    pub open spec fn model(self) -> EmitView
        decreases self,
    {
        EmitView {
            name: self.name@,
            value: match self.value {
                Some(x) => Some(x.model()),
                None => None,
            },
            buffer: match self.buffer {
                Some(x) => Some(x.model()),
                None => None,
            },
            range: self.range@,
        }
    }
}

impl View for Emit {
    type V = EmitView;

    open spec fn view(&self) -> EmitView {
        self.model()
    }
}

impl BufferSpec {
    pub open spec fn model(self) -> BufferSpecView
        decreases self,
    {
        BufferSpecView {
            delay: match self.delay {
                Some(x) => Some(x.model()),
                None => None,
            },
            hold: match self.hold {
                Some(x) => Some(x.model()),
                None => None,
            },
            seconds: self.seconds,
            range: self.range@,
        }
    }
}

impl View for BufferSpec {
    type V = BufferSpecView;

    open spec fn view(&self) -> BufferSpecView {
        self.model()
    }
}

impl AwaitStmt {
    pub open spec fn model(self) -> AwaitStmtView
        decreases self,
    {
        AwaitStmtView {
            binding: text_of(self.binding),
            destructure: pairs_of(self.destructure),
            value_expr: match self.value_expr {
                Some(x) => Some(x.model()),
                None => None,
            },
            exec_expr: self.exec_expr.model(),
            range: self.range@,
        }
    }
}

impl View for AwaitStmt {
    type V = AwaitStmtView;

    open spec fn view(&self) -> AwaitStmtView {
        self.model()
    }
}

impl If {
    pub open spec fn model(self) -> IfView
        decreases self,
    {
        IfView {
            cond: self.cond.model(),
            then_block: self.then_block.model(),
            else_block: match self.else_block {
                Some(x) => Some(x.model()),
                None => None,
            },
            range: self.range@,
        }
    }
}

impl View for If {
    type V = IfView;

    open spec fn view(&self) -> IfView {
        self.model()
    }
}

impl OutBinding {
    pub open spec fn model(self) -> OutBindingView
        decreases self,
    {
        OutBindingView {
            name: self.name@,
            value: match self.value {
                Some(x) => Some(x.model()),
                None => None,
            },
            typ: match self.typ {
                Some(t) => Some(t@),
                None => None,
            },
            side: self.side,
            label: text_of(self.label),
            range: self.range@,
        }
    }
}

impl View for OutBinding {
    type V = OutBindingView;

    open spec fn view(&self) -> OutBindingView {
        self.model()
    }
}

impl ExprStmt {
    pub open spec fn model(self) -> ExprStmtView
        decreases self,
    {
        ExprStmtView {
            expr: self.expr.model(),
            range: self.range@,
        }
    }
}

impl View for ExprStmt {
    type V = ExprStmtView;

    open spec fn view(&self) -> ExprStmtView {
        self.model()
    }
}

impl Expr {
    pub open spec fn model(self) -> ExprView
        decreases self,
    {
        match self {
            Expr::IntLit { value, text, range } => ExprView::IntLit {
                value,
                text: text@,
                range: range@,
            },
            Expr::FloatLit { bits, text, range } => ExprView::FloatLit {
                bits,
                text: text@,
                range: range@,
            },
            Expr::StringLit { value, range } => ExprView::StringLit {
                value: value@,
                range: range@,
            },
            Expr::InterpLit { parts, range } => ExprView::InterpLit {
                parts: interp_parts_view(parts@),
                range: range@,
            },
            Expr::BoolLit { value, range } => ExprView::BoolLit {
                value,
                range: range@,
            },
            Expr::Ident { name, range } => ExprView::Ident {
                name: name@,
                range: range@,
            },
            Expr::FieldAccess { obj, field, range } => ExprView::FieldAccess {
                obj: Box::new(obj.model()),
                field: field@,
                range: range@,
            },
            Expr::IndexAccess { obj, index, range } => ExprView::IndexAccess {
                obj: Box::new(obj.model()),
                index: Box::new(index.model()),
                range: range@,
            },
            Expr::TuplePick { obj, index, range } => ExprView::TuplePick {
                obj: Box::new(obj.model()),
                index,
                range: range@,
            },
            Expr::UnOp { op, operand, range } => ExprView::UnOp {
                op: op@,
                operand: Box::new(operand.model()),
                range: range@,
            },
            Expr::BinOp { op, left, right, range } => ExprView::BinOp {
                op: op@,
                left: Box::new(left.model()),
                right: Box::new(right.model()),
                range: range@,
            },
            Expr::Call { callee, args, range } => ExprView::Call {
                callee: Box::new(callee.model()),
                args: call_args_view(args@),
                range: range@,
            },
            Expr::Deref { operand, range } => ExprView::Deref {
                operand: Box::new(operand.model()),
                range: range@,
            },
            Expr::RefOf { operand, range } => ExprView::RefOf {
                operand: Box::new(operand.model()),
                range: range@,
            },
            Expr::IfExpr { cond, then_branch, else_branch, range } => ExprView::IfExpr {
                cond: Box::new(cond.model()),
                then_branch: Box::new(then_branch.model()),
                else_branch: Box::new(else_branch.model()),
                range: range@,
            },
            Expr::BlockExpr { stmts, value, range } => ExprView::BlockExpr {
                stmts: stmts_view(stmts@),
                value: Box::new(value.model()),
                range: range@,
            },
            Expr::MatchExpr { scrutinee, arms, range } => ExprView::MatchExpr {
                scrutinee: Box::new(scrutinee.model()),
                arms: match_arms_view(arms@),
                range: range@,
            },
            Expr::RecordLit { fields, range } => ExprView::RecordLit {
                fields: record_lit_fields_view(fields@),
                range: range@,
            },
            Expr::Array { elements, range } => ExprView::Array {
                elements: array_elems_view(elements@),
                range: range@,
            },
            Expr::AssetRef { asset_type, asset_name, range } => ExprView::AssetRef {
                asset_type: asset_type@,
                asset_name: asset_name@,
                range: range@,
            },
            Expr::PrefabRef { path, range } => ExprView::PrefabRef {
                path: path@,
                range: range@,
            },
        }
    }
}

impl View for Expr {
    type V = ExprView;

    open spec fn view(&self) -> ExprView {
        self.model()
    }
}

impl ArrayElem {
    pub open spec fn model(self) -> ArrayElemView
        decreases self,
    {
        match self {
            ArrayElem::Item(x) => ArrayElemView::Item(x.model()),
            ArrayElem::Spread(x) => ArrayElemView::Spread(x.model()),
        }
    }
}

impl View for ArrayElem {
    type V = ArrayElemView;

    open spec fn view(&self) -> ArrayElemView {
        self.model()
    }
}

impl InterpPart {
    pub open spec fn model(self) -> InterpPartView
        decreases self,
    {
        match self {
            InterpPart::Lit(x) => InterpPartView::Lit(x@),
            InterpPart::Expr(x) => InterpPartView::Expr(Box::new(x.model())),
        }
    }
}

impl View for InterpPart {
    type V = InterpPartView;

    open spec fn view(&self) -> InterpPartView {
        self.model()
    }
}

impl RecordLitField {
    pub open spec fn model(self) -> RecordLitFieldView
        decreases self,
    {
        match self {
            RecordLitField::Named { name, value, range } => RecordLitFieldView::Named {
                name: name@,
                value: value.model(),
                range: range@,
            },
            RecordLitField::Shorthand { name, range } => RecordLitFieldView::Shorthand {
                name: name@,
                range: range@,
            },
            RecordLitField::Spread { value, range } => RecordLitFieldView::Spread {
                value: value.model(),
                range: range@,
            },
        }
    }
}

impl View for RecordLitField {
    type V = RecordLitFieldView;

    open spec fn view(&self) -> RecordLitFieldView {
        self.model()
    }
}

impl CallArg {
    pub open spec fn model(self) -> CallArgView
        decreases self,
    {
        match self {
            CallArg::Positional(x) => CallArgView::Positional(x.model()),
            CallArg::Named { name, value } => CallArgView::Named {
                name: name@,
                value: value.model(),
            },
            CallArg::Spread(x) => CallArgView::Spread(x.model()),
        }
    }
}

impl View for CallArg {
    type V = CallArgView;

    open spec fn view(&self) -> CallArgView {
        self.model()
    }
}

impl MatchArm {
    pub open spec fn model(self) -> MatchArmView
        decreases self,
    {
        MatchArmView {
            event_name: self.event_name@,
            binding: text_of(self.binding),
            body: self.body.model(),
            range: self.range@,
        }
    }
}

impl View for MatchArm {
    type V = MatchArmView;

    open spec fn view(&self) -> MatchArmView {
        self.model()
    }
}

impl MatchBody {
    pub open spec fn model(self) -> MatchBodyView
        decreases self,
    {
        match self {
            MatchBody::Expr(x) => MatchBodyView::Expr(x.model()),
            MatchBody::Block(x) => MatchBodyView::Block(x.model()),
        }
    }
}

impl View for MatchBody {
    type V = MatchBodyView;

    open spec fn view(&self) -> MatchBodyView {
        self.model()
    }
}

impl VarDecl {
    pub open spec fn model(self) -> VarDeclView
        decreases self,
    {
        VarDeclView {
            name: self.name@,
            typ: match self.typ {
                Some(t) => Some(t@),
                None => None,
            },
            init: match self.init {
                Some(x) => Some(x.model()),
                None => None,
            },
            is_static: self.is_static,
            range: self.range@,
        }
    }
}

impl View for VarDecl {
    type V = VarDeclView;

    open spec fn view(&self) -> VarDeclView {
        self.model()
    }
}

impl ArrayDecl {
    pub open spec fn model(self) -> ArrayDeclView
        decreases self,
    {
        ArrayDeclView {
            name: self.name@,
            element_type: self.element_type@,
            init: array_elems_view(self.init@),
            range: self.range@,
        }
    }
}

impl View for ArrayDecl {
    type V = ArrayDeclView;

    open spec fn view(&self) -> ArrayDeclView {
        self.model()
    }
}

impl BufferDecl {
    pub open spec fn model(self) -> BufferDeclView
        decreases self,
    {
        BufferDeclView {
            name: self.name@,
            typ: match self.typ {
                Some(t) => Some(t@),
                None => None,
            },
            init: self.init.model(),
            range: self.range@,
        }
    }
}

impl View for BufferDecl {
    type V = BufferDeclView;

    open spec fn view(&self) -> BufferDeclView {
        self.model()
    }
}

impl Param {
    pub open spec fn model(self) -> ParamView
        decreases self,
    {
        ParamView {
            name: self.name@,
            typ: self.typ@,
            pattern: match self.pattern {
                Some(x) => Some(x.model()),
                None => None,
            },
            range: self.range@,
        }
    }
}

impl View for Param {
    type V = ParamView;

    open spec fn view(&self) -> ParamView {
        self.model()
    }
}

impl ParamPattern {
    pub open spec fn model(self) -> ParamPatternView
        decreases self,
    {
        match self {
            ParamPattern::Record { fields, rest } => ParamPatternView::Record {
                fields: record_destruct_fields_view(fields@),
                rest: text_of(rest),
            },
            ParamPattern::Tuple { names, rest } => ParamPatternView::Tuple {
                names: texts(names@),
                rest: text_of(rest),
            },
        }
    }
}

impl View for ParamPattern {
    type V = ParamPatternView;

    open spec fn view(&self) -> ParamPatternView {
        self.model()
    }
}

impl NamedOutput {
    pub open spec fn model(self) -> NamedOutputView
        decreases self,
    {
        NamedOutputView {
            name: self.name@,
            typ: self.typ@,
            range: self.range@,
        }
    }
}

impl View for NamedOutput {
    type V = NamedOutputView;

    open spec fn view(&self) -> NamedOutputView {
        self.model()
    }
}

impl FnDecl {
    pub open spec fn model(self) -> FnDeclView
        decreases self,
    {
        FnDeclView {
            name: self.name@,
            params: params_view(self.params@),
            return_type: match self.return_type {
                Some(t) => Some(t@),
                None => None,
            },
            body: self.body.model(),
            range: self.range@,
        }
    }
}

impl View for FnDecl {
    type V = FnDeclView;

    open spec fn view(&self) -> FnDeclView {
        self.model()
    }
}

impl ChipDecl {
    pub open spec fn model(self) -> ChipDeclView
        decreases self,
    {
        ChipDeclView {
            name: self.name@,
            inputs: params_view(self.inputs@),
            outputs: named_outputs_view(self.outputs@),
            body: self.body.model(),
            range: self.range@,
            inline: self.inline,
            label: text_of(self.label),
            closed: self.closed,
        }
    }
}

impl View for ChipDecl {
    type V = ChipDeclView;

    open spec fn view(&self) -> ChipDeclView {
        self.model()
    }
}

impl AnonChipDecl {
    pub open spec fn model(self) -> AnonChipDeclView
        decreases self,
    {
        AnonChipDeclView {
            open: self.open,
            body: self.body.model(),
            range: self.range@,
            label: text_of(self.label),
            closed: self.closed,
        }
    }
}

impl View for AnonChipDecl {
    type V = AnonChipDeclView;

    open spec fn view(&self) -> AnonChipDeclView {
        self.model()
    }
}

impl EventDecl {
    pub open spec fn model(self) -> EventDeclView
        decreases self,
    {
        EventDeclView {
            name: self.name@,
            source: self.source.model(),
            captured_body: match self.captured_body {
                Some(x) => Some(x.model()),
                None => None,
            },
            range: self.range@,
        }
    }
}

impl View for EventDecl {
    type V = EventDeclView;

    open spec fn view(&self) -> EventDeclView {
        self.model()
    }
}

impl InDecl {
    pub open spec fn model(self) -> InDeclView
        decreases self,
    {
        InDeclView {
            name: self.name@,
            typ: self.typ@,
            side: self.side,
            label: text_of(self.label),
            range: self.range@,
        }
    }
}

impl View for InDecl {
    type V = InDeclView;

    open spec fn view(&self) -> InDeclView {
        self.model()
    }
}

impl LetDecl {
    pub open spec fn model(self) -> LetDeclView
        decreases self,
    {
        LetDeclView {
            binding: self.binding.model(),
            typ: match self.typ {
                Some(t) => Some(t@),
                None => None,
            },
            value: self.value.model(),
            range: self.range@,
        }
    }
}

impl View for LetDecl {
    type V = LetDeclView;

    open spec fn view(&self) -> LetDeclView {
        self.model()
    }
}

impl LetBinding {
    pub open spec fn model(self) -> LetBindingView
        decreases self,
    {
        match self {
            LetBinding::Ident { name, range } => LetBindingView::Ident {
                name: name@,
                range: range@,
            },
            LetBinding::Tuple { names, rest, range } => LetBindingView::Tuple {
                names: texts(names@),
                rest: text_of(rest),
                range: range@,
            },
            LetBinding::Record { names, range } => LetBindingView::Record {
                names: texts(names@),
                range: range@,
            },
            LetBinding::RecordDestruct { fields, range } => LetBindingView::RecordDestruct {
                fields: record_destruct_fields_view(fields@),
                range: range@,
            },
        }
    }
}

impl View for LetBinding {
    type V = LetBindingView;

    open spec fn view(&self) -> LetBindingView {
        self.model()
    }
}

impl RecordDestructField {
    pub open spec fn model(self) -> RecordDestructFieldView
        decreases self,
    {
        match self {
            RecordDestructField::Named { name, alias, range } => RecordDestructFieldView::Named {
                name: name@,
                alias: text_of(alias),
                range: range@,
            },
            RecordDestructField::Rest { name, range } => RecordDestructFieldView::Rest {
                name: name@,
                range: range@,
            },
        }
    }
}

impl View for RecordDestructField {
    type V = RecordDestructFieldView;

    open spec fn view(&self) -> RecordDestructFieldView {
        self.model()
    }
}

impl Handler {
    pub open spec fn model(self) -> HandlerView
        decreases self,
    {
        HandlerView {
            trigger: self.trigger.model(),
            params: texts(self.params@),
            config: handler_config_args_view(self.config@),
            body: self.body.model(),
            range: self.range@,
        }
    }
}

impl View for Handler {
    type V = HandlerView;

    open spec fn view(&self) -> HandlerView {
        self.model()
    }
}

impl Callback {
    pub open spec fn model(self) -> CallbackView
        decreases self,
    {
        CallbackView {
            name: self.name@,
            inputs: params_view(self.inputs@),
            outputs: named_outputs_view(self.outputs@),
            body: self.body.model(),
            range: self.range@,
        }
    }
}

impl View for Callback {
    type V = CallbackView;

    open spec fn view(&self) -> CallbackView {
        self.model()
    }
}

impl HandlerConfigArg {
    pub open spec fn model(self) -> HandlerConfigArgView
        decreases self,
    {
        match self {
            HandlerConfigArg::Positional(x) => HandlerConfigArgView::Positional(x.model()),
            HandlerConfigArg::Named { name, value } => HandlerConfigArgView::Named {
                name: name@,
                value: value.model(),
            },
        }
    }
}

impl View for HandlerConfigArg {
    type V = HandlerConfigArgView;

    open spec fn view(&self) -> HandlerConfigArgView {
        self.model()
    }
}

impl Trigger {
    pub open spec fn model(self) -> TriggerView
        decreases self,
    {
        match self {
            Trigger::Ident { name, range } => TriggerView::Ident {
                name: name@,
                range: range@,
            },
            Trigger::Field { obj, field, range } => TriggerView::Field {
                obj: obj@,
                field: field@,
                range: range@,
            },
            Trigger::Not { inner, range } => TriggerView::Not {
                inner: Box::new(inner.model()),
                range: range@,
            },
            Trigger::Union { parts, range } => TriggerView::Union {
                parts: triggers_view(parts@),
                range: range@,
            },
        }
    }
}

impl View for Trigger {
    type V = TriggerView;

    open spec fn view(&self) -> TriggerView {
        self.model()
    }
}

impl TypeAliasDecl {
    pub open spec fn model(self) -> TypeAliasDeclView
        decreases self,
    {
        TypeAliasDeclView {
            name: self.name@,
            typ: self.typ@,
            range: self.range@,
        }
    }
}

impl View for TypeAliasDecl {
    type V = TypeAliasDeclView;

    open spec fn view(&self) -> TypeAliasDeclView {
        self.model()
    }
}

impl ImportBinding {
    pub open spec fn model(self) -> ImportBindingView
        decreases self,
    {
        ImportBindingView {
            name: self.name@,
            alias: text_of(self.alias),
            range: self.range@,
        }
    }
}

impl View for ImportBinding {
    type V = ImportBindingView;

    open spec fn view(&self) -> ImportBindingView {
        self.model()
    }
}

impl ImportKind {
    pub open spec fn model(self) -> ImportKindView
        decreases self,
    {
        match self {
            ImportKind::All => ImportKindView::All,
            ImportKind::Named(x) => ImportKindView::Named(import_bindings_view(x@)),
            ImportKind::Namespace(x) => ImportKindView::Namespace(x@),
        }
    }
}

impl View for ImportKind {
    type V = ImportKindView;

    open spec fn view(&self) -> ImportKindView {
        self.model()
    }
}

impl ImportDecl {
    pub open spec fn model(self) -> ImportDeclView
        decreases self,
    {
        ImportDeclView {
            path: self.path@,
            kind: self.kind.model(),
            range: self.range@,
        }
    }
}

impl View for ImportDecl {
    type V = ImportDeclView;

    open spec fn view(&self) -> ImportDeclView {
        self.model()
    }
}

impl NamespaceDecl {
    pub open spec fn model(self) -> NamespaceDeclView
        decreases self,
    {
        NamespaceDeclView {
            name: self.name@,
            decls: top_decls_view(self.decls@),
            source_path: self.source_path@,
            module_doc: text_of(self.module_doc),
            range: self.range@,
        }
    }
}

impl View for NamespaceDecl {
    type V = NamespaceDeclView;

    open spec fn view(&self) -> NamespaceDeclView {
        self.model()
    }
}

impl TopDecl {
    pub open spec fn model(self) -> TopDeclView
        decreases self,
    {
        match self {
            TopDecl::Import(x) => TopDeclView::Import(x.model()),
            TopDecl::Namespace(x) => TopDeclView::Namespace(x.model()),
            TopDecl::Var(x) => TopDeclView::Var(x.model()),
            TopDecl::Array(x) => TopDeclView::Array(x.model()),
            TopDecl::Buffer(x) => TopDeclView::Buffer(x.model()),
            TopDecl::Fn(x) => TopDeclView::Fn(x.model()),
            TopDecl::Chip(x) => TopDeclView::Chip(x.model()),
            TopDecl::AnonChip(x) => TopDeclView::AnonChip(x.model()),
            TopDecl::Event(x) => TopDeclView::Event(x.model()),
            TopDecl::In(x) => TopDeclView::In(x.model()),
            TopDecl::Out(x) => TopDeclView::Out(x.model()),
            TopDecl::Handler(x) => TopDeclView::Handler(x.model()),
            TopDecl::Callback(x) => TopDeclView::Callback(x.model()),
            TopDecl::Let(x) => TopDeclView::Let(x.model()),
            TopDecl::Await(x) => TopDeclView::Await(x.model()),
            TopDecl::Assign(x) => TopDeclView::Assign(x.model()),
            TopDecl::If(x) => TopDeclView::If(x.model()),
            TopDecl::ExprStmt(x) => TopDeclView::ExprStmt(x.model()),
            TopDecl::TypeAlias(x) => TopDeclView::TypeAlias(x.model()),
        }
    }
}

impl View for TopDecl {
    type V = TopDeclView;

    open spec fn view(&self) -> TopDeclView {
        self.model()
    }
}

pub open spec fn stmts_view(v: Seq<Stmt>) -> Seq<StmtView>
    decreases v,
{
    Seq::new(
        v.len(),
        |i: int|
            if 0 <= i < v.len() {
                v[i].model()
            } else {
                arbitrary()
            },
    )
}

pub open spec fn interp_parts_view(v: Seq<InterpPart>) -> Seq<InterpPartView>
    decreases v,
{
    Seq::new(
        v.len(),
        |i: int|
            if 0 <= i < v.len() {
                v[i].model()
            } else {
                arbitrary()
            },
    )
}

pub open spec fn call_args_view(v: Seq<CallArg>) -> Seq<CallArgView>
    decreases v,
{
    Seq::new(
        v.len(),
        |i: int|
            if 0 <= i < v.len() {
                v[i].model()
            } else {
                arbitrary()
            },
    )
}

pub open spec fn match_arms_view(v: Seq<MatchArm>) -> Seq<MatchArmView>
    decreases v,
{
    Seq::new(
        v.len(),
        |i: int|
            if 0 <= i < v.len() {
                v[i].model()
            } else {
                arbitrary()
            },
    )
}

pub open spec fn record_lit_fields_view(v: Seq<RecordLitField>) -> Seq<RecordLitFieldView>
    decreases v,
{
    Seq::new(
        v.len(),
        |i: int|
            if 0 <= i < v.len() {
                v[i].model()
            } else {
                arbitrary()
            },
    )
}

pub open spec fn array_elems_view(v: Seq<ArrayElem>) -> Seq<ArrayElemView>
    decreases v,
{
    Seq::new(
        v.len(),
        |i: int|
            if 0 <= i < v.len() {
                v[i].model()
            } else {
                arbitrary()
            },
    )
}

pub open spec fn record_destruct_fields_view(v: Seq<RecordDestructField>) -> Seq<RecordDestructFieldView>
    decreases v,
{
    Seq::new(
        v.len(),
        |i: int|
            if 0 <= i < v.len() {
                v[i].model()
            } else {
                arbitrary()
            },
    )
}

pub open spec fn params_view(v: Seq<Param>) -> Seq<ParamView>
    decreases v,
{
    Seq::new(
        v.len(),
        |i: int|
            if 0 <= i < v.len() {
                v[i].model()
            } else {
                arbitrary()
            },
    )
}

pub open spec fn named_outputs_view(v: Seq<NamedOutput>) -> Seq<NamedOutputView>
    decreases v,
{
    Seq::new(
        v.len(),
        |i: int|
            if 0 <= i < v.len() {
                v[i].model()
            } else {
                arbitrary()
            },
    )
}

pub open spec fn handler_config_args_view(v: Seq<HandlerConfigArg>) -> Seq<HandlerConfigArgView>
    decreases v,
{
    Seq::new(
        v.len(),
        |i: int|
            if 0 <= i < v.len() {
                v[i].model()
            } else {
                arbitrary()
            },
    )
}

pub open spec fn triggers_view(v: Seq<Trigger>) -> Seq<TriggerView>
    decreases v,
{
    Seq::new(
        v.len(),
        |i: int|
            if 0 <= i < v.len() {
                v[i].model()
            } else {
                arbitrary()
            },
    )
}

pub open spec fn import_bindings_view(v: Seq<ImportBinding>) -> Seq<ImportBindingView>
    decreases v,
{
    Seq::new(
        v.len(),
        |i: int|
            if 0 <= i < v.len() {
                v[i].model()
            } else {
                arbitrary()
            },
    )
}

pub open spec fn top_decls_view(v: Seq<TopDecl>) -> Seq<TopDeclView>
    decreases v,
{
    Seq::new(
        v.len(),
        |i: int|
            if 0 <= i < v.len() {
                v[i].model()
            } else {
                arbitrary()
            },
    )
}

// ---------- copies ----------

pub fn clone_text(s: &Option<String>) -> (r: Option<String>)
    ensures
        text_of(r) == text_of(*s),
{
    match s {
        Some(t) => Some(t.clone()),
        None => None,
    }
}

pub fn clone_texts(v: &Vec<String>) -> (r: Vec<String>)
    ensures
        texts(r@) == texts(v@),
{
    let mut out: Vec<String> = Vec::new();
    let mut i: usize = 0;
    while i < v.len()
        invariant
            i <= v@.len(),
            out@.len() == i,
            forall|k: int| 0 <= k < i ==> (#[trigger] out@[k])@ == v@[k]@,
        decreases v.len() - i,
    {
        out.push(v[i].clone());
        i += 1;
    }
    assert(texts(out@) =~= texts(v@));
    out
}

fn clone_pairs(s: &Option<Vec<(String, String)>>) -> (r: Option<Vec<(String, String)>>)
    ensures
        pairs_of(r) == pairs_of(*s),
{
    match s {
        Some(v) => {
            let mut out: Vec<(String, String)> = Vec::new();
            let mut i: usize = 0;
            while i < v.len()
                invariant
                    i <= v@.len(),
                    out@.len() == i,
                    forall|k: int|
                        0 <= k < i ==> (#[trigger] out@[k]).0@ == v@[k].0@ && out@[k].1@
                            == v@[k].1@,
                decreases v.len() - i,
            {
                out.push((v[i].0.clone(), v[i].1.clone()));
                i += 1;
            }
            let r = Some(out);
            assert(pairs_of(r)->0 =~= pairs_of(*s)->0);
            r
        },
        None => None,
    }
}

impl Clone for Block {
    fn clone(&self) -> (r: Block)
        ensures
            r@ == self@,
        decreases self, 1nat,
    {
        Block {
            stmts: clone_stmts(&self.stmts),
            range: self.range.clone(),
        }
    }
}

impl Clone for Stmt {
    fn clone(&self) -> (r: Stmt)
        ensures
            r@ == self@,
        decreases self, 1nat,
    {
        match self {
            Stmt::Assign(x) => Stmt::Assign(x.clone()),
            Stmt::Emit(x) => Stmt::Emit(x.clone()),
            Stmt::Await(x) => Stmt::Await(x.clone()),
            Stmt::If(x) => Stmt::If(x.clone()),
            Stmt::In(x) => Stmt::In(x.clone()),
            Stmt::Let(x) => Stmt::Let(x.clone()),
            Stmt::OutBinding(x) => Stmt::OutBinding(x.clone()),
            Stmt::ExprStmt(x) => Stmt::ExprStmt(x.clone()),
            Stmt::Var(x) => Stmt::Var(x.clone()),
            Stmt::Buffer(x) => Stmt::Buffer(x.clone()),
            Stmt::Array(x) => Stmt::Array(x.clone()),
            Stmt::Handler(x) => Stmt::Handler(x.clone()),
            Stmt::AnonChip(x) => Stmt::AnonChip(x.clone()),
            Stmt::ChipDecl(x) => Stmt::ChipDecl(x.clone()),
            Stmt::Callback(x) => Stmt::Callback(x.clone()),
            Stmt::Return { value, range } => Stmt::Return {
                value: match value {
                    Some(x) => Some(x.clone()),
                    None => None,
                },
                range: range.clone(),
            },
        }
    }
}

impl Clone for Assign {
    fn clone(&self) -> (r: Assign)
        ensures
            r@ == self@,
        decreases self, 1nat,
    {
        Assign {
            target: self.target.clone(),
            value: self.value.clone(),
            range: self.range.clone(),
        }
    }
}

impl Clone for Emit {
    fn clone(&self) -> (r: Emit)
        ensures
            r@ == self@,
        decreases self, 1nat,
    {
        Emit {
            name: self.name.clone(),
            value: match &self.value {
                Some(x) => Some(x.clone()),
                None => None,
            },
            buffer: match &self.buffer {
                Some(x) => Some(x.clone()),
                None => None,
            },
            range: self.range.clone(),
        }
    }
}

impl Clone for BufferSpec {
    fn clone(&self) -> (r: BufferSpec)
        ensures
            r@ == self@,
        decreases self, 1nat,
    {
        BufferSpec {
            delay: match &self.delay {
                Some(x) => Some(x.clone()),
                None => None,
            },
            hold: match &self.hold {
                Some(x) => Some(x.clone()),
                None => None,
            },
            seconds: self.seconds,
            range: self.range.clone(),
        }
    }
}

impl Clone for AwaitStmt {
    fn clone(&self) -> (r: AwaitStmt)
        ensures
            r@ == self@,
        decreases self, 1nat,
    {
        AwaitStmt {
            binding: clone_text(&self.binding),
            destructure: clone_pairs(&self.destructure),
            value_expr: match &self.value_expr {
                Some(x) => Some(x.clone()),
                None => None,
            },
            exec_expr: self.exec_expr.clone(),
            range: self.range.clone(),
        }
    }
}

impl Clone for If {
    fn clone(&self) -> (r: If)
        ensures
            r@ == self@,
        decreases self, 1nat,
    {
        If {
            cond: self.cond.clone(),
            then_block: self.then_block.clone(),
            else_block: match &self.else_block {
                Some(x) => Some(x.clone()),
                None => None,
            },
            range: self.range.clone(),
        }
    }
}

impl Clone for OutBinding {
    fn clone(&self) -> (r: OutBinding)
        ensures
            r@ == self@,
        decreases self, 1nat,
    {
        OutBinding {
            name: self.name.clone(),
            value: match &self.value {
                Some(x) => Some(x.clone()),
                None => None,
            },
            typ: match &self.typ {
                Some(t) => Some(t.clone()),
                None => None,
            },
            side: self.side,
            label: clone_text(&self.label),
            range: self.range.clone(),
        }
    }
}

impl Clone for ExprStmt {
    fn clone(&self) -> (r: ExprStmt)
        ensures
            r@ == self@,
        decreases self, 1nat,
    {
        ExprStmt {
            expr: self.expr.clone(),
            range: self.range.clone(),
        }
    }
}

impl Clone for Expr {
    fn clone(&self) -> (r: Expr)
        ensures
            r@ == self@,
        decreases self, 1nat,
    {
        match self {
            Expr::IntLit { value, text, range } => Expr::IntLit {
                value: *value,
                text: text.clone(),
                range: range.clone(),
            },
            Expr::FloatLit { bits, text, range } => Expr::FloatLit {
                bits: *bits,
                text: text.clone(),
                range: range.clone(),
            },
            Expr::StringLit { value, range } => Expr::StringLit {
                value: value.clone(),
                range: range.clone(),
            },
            Expr::InterpLit { parts, range } => Expr::InterpLit {
                parts: clone_interp_parts(parts),
                range: range.clone(),
            },
            Expr::BoolLit { value, range } => Expr::BoolLit {
                value: *value,
                range: range.clone(),
            },
            Expr::Ident { name, range } => Expr::Ident {
                name: name.clone(),
                range: range.clone(),
            },
            Expr::FieldAccess { obj, field, range } => Expr::FieldAccess {
                obj: Box::new((&**obj).clone()),
                field: field.clone(),
                range: range.clone(),
            },
            Expr::IndexAccess { obj, index, range } => Expr::IndexAccess {
                obj: Box::new((&**obj).clone()),
                index: Box::new((&**index).clone()),
                range: range.clone(),
            },
            Expr::TuplePick { obj, index, range } => Expr::TuplePick {
                obj: Box::new((&**obj).clone()),
                index: *index,
                range: range.clone(),
            },
            Expr::UnOp { op, operand, range } => Expr::UnOp {
                op: op.clone(),
                operand: Box::new((&**operand).clone()),
                range: range.clone(),
            },
            Expr::BinOp { op, left, right, range } => Expr::BinOp {
                op: op.clone(),
                left: Box::new((&**left).clone()),
                right: Box::new((&**right).clone()),
                range: range.clone(),
            },
            Expr::Call { callee, args, range } => Expr::Call {
                callee: Box::new((&**callee).clone()),
                args: clone_call_args(args),
                range: range.clone(),
            },
            Expr::Deref { operand, range } => Expr::Deref {
                operand: Box::new((&**operand).clone()),
                range: range.clone(),
            },
            Expr::RefOf { operand, range } => Expr::RefOf {
                operand: Box::new((&**operand).clone()),
                range: range.clone(),
            },
            Expr::IfExpr { cond, then_branch, else_branch, range } => Expr::IfExpr {
                cond: Box::new((&**cond).clone()),
                then_branch: Box::new((&**then_branch).clone()),
                else_branch: Box::new((&**else_branch).clone()),
                range: range.clone(),
            },
            Expr::BlockExpr { stmts, value, range } => Expr::BlockExpr {
                stmts: clone_stmts(stmts),
                value: Box::new((&**value).clone()),
                range: range.clone(),
            },
            Expr::MatchExpr { scrutinee, arms, range } => Expr::MatchExpr {
                scrutinee: Box::new((&**scrutinee).clone()),
                arms: clone_match_arms(arms),
                range: range.clone(),
            },
            Expr::RecordLit { fields, range } => Expr::RecordLit {
                fields: clone_record_lit_fields(fields),
                range: range.clone(),
            },
            Expr::Array { elements, range } => Expr::Array {
                elements: clone_array_elems(elements),
                range: range.clone(),
            },
            Expr::AssetRef { asset_type, asset_name, range } => Expr::AssetRef {
                asset_type: asset_type.clone(),
                asset_name: asset_name.clone(),
                range: range.clone(),
            },
            Expr::PrefabRef { path, range } => Expr::PrefabRef {
                path: path.clone(),
                range: range.clone(),
            },
        }
    }
}

impl Clone for ArrayElem {
    fn clone(&self) -> (r: ArrayElem)
        ensures
            r@ == self@,
        decreases self, 1nat,
    {
        match self {
            ArrayElem::Item(x) => ArrayElem::Item(x.clone()),
            ArrayElem::Spread(x) => ArrayElem::Spread(x.clone()),
        }
    }
}

impl Clone for InterpPart {
    fn clone(&self) -> (r: InterpPart)
        ensures
            r@ == self@,
        decreases self, 1nat,
    {
        match self {
            InterpPart::Lit(x) => InterpPart::Lit(x.clone()),
            InterpPart::Expr(x) => InterpPart::Expr(Box::new((&**x).clone())),
        }
    }
}

impl Clone for RecordLitField {
    fn clone(&self) -> (r: RecordLitField)
        ensures
            r@ == self@,
        decreases self, 1nat,
    {
        match self {
            RecordLitField::Named { name, value, range } => RecordLitField::Named {
                name: name.clone(),
                value: value.clone(),
                range: range.clone(),
            },
            RecordLitField::Shorthand { name, range } => RecordLitField::Shorthand {
                name: name.clone(),
                range: range.clone(),
            },
            RecordLitField::Spread { value, range } => RecordLitField::Spread {
                value: value.clone(),
                range: range.clone(),
            },
        }
    }
}

impl Clone for CallArg {
    fn clone(&self) -> (r: CallArg)
        ensures
            r@ == self@,
        decreases self, 1nat,
    {
        match self {
            CallArg::Positional(x) => CallArg::Positional(x.clone()),
            CallArg::Named { name, value } => CallArg::Named {
                name: name.clone(),
                value: value.clone(),
            },
            CallArg::Spread(x) => CallArg::Spread(x.clone()),
        }
    }
}

impl Clone for MatchArm {
    fn clone(&self) -> (r: MatchArm)
        ensures
            r@ == self@,
        decreases self, 1nat,
    {
        MatchArm {
            event_name: self.event_name.clone(),
            binding: clone_text(&self.binding),
            body: self.body.clone(),
            range: self.range.clone(),
        }
    }
}

impl Clone for MatchBody {
    fn clone(&self) -> (r: MatchBody)
        ensures
            r@ == self@,
        decreases self, 1nat,
    {
        match self {
            MatchBody::Expr(x) => MatchBody::Expr(x.clone()),
            MatchBody::Block(x) => MatchBody::Block(x.clone()),
        }
    }
}

impl Clone for VarDecl {
    fn clone(&self) -> (r: VarDecl)
        ensures
            r@ == self@,
        decreases self, 1nat,
    {
        VarDecl {
            name: self.name.clone(),
            typ: match &self.typ {
                Some(t) => Some(t.clone()),
                None => None,
            },
            init: match &self.init {
                Some(x) => Some(x.clone()),
                None => None,
            },
            is_static: self.is_static,
            range: self.range.clone(),
        }
    }
}

impl Clone for ArrayDecl {
    fn clone(&self) -> (r: ArrayDecl)
        ensures
            r@ == self@,
        decreases self, 1nat,
    {
        ArrayDecl {
            name: self.name.clone(),
            element_type: self.element_type.clone(),
            init: clone_array_elems(&self.init),
            range: self.range.clone(),
        }
    }
}

impl Clone for BufferDecl {
    fn clone(&self) -> (r: BufferDecl)
        ensures
            r@ == self@,
        decreases self, 1nat,
    {
        BufferDecl {
            name: self.name.clone(),
            typ: match &self.typ {
                Some(t) => Some(t.clone()),
                None => None,
            },
            init: self.init.clone(),
            range: self.range.clone(),
        }
    }
}

impl Clone for Param {
    fn clone(&self) -> (r: Param)
        ensures
            r@ == self@,
        decreases self, 1nat,
    {
        Param {
            name: self.name.clone(),
            typ: self.typ.clone(),
            pattern: match &self.pattern {
                Some(x) => Some(x.clone()),
                None => None,
            },
            range: self.range.clone(),
        }
    }
}

impl Clone for ParamPattern {
    fn clone(&self) -> (r: ParamPattern)
        ensures
            r@ == self@,
        decreases self, 1nat,
    {
        match self {
            ParamPattern::Record { fields, rest } => ParamPattern::Record {
                fields: clone_record_destruct_fields(fields),
                rest: clone_text(rest),
            },
            ParamPattern::Tuple { names, rest } => ParamPattern::Tuple {
                names: clone_texts(names),
                rest: clone_text(rest),
            },
        }
    }
}

impl Clone for NamedOutput {
    fn clone(&self) -> (r: NamedOutput)
        ensures
            r@ == self@,
        decreases self, 1nat,
    {
        NamedOutput {
            name: self.name.clone(),
            typ: self.typ.clone(),
            range: self.range.clone(),
        }
    }
}

impl Clone for FnDecl {
    fn clone(&self) -> (r: FnDecl)
        ensures
            r@ == self@,
        decreases self, 1nat,
    {
        FnDecl {
            name: self.name.clone(),
            params: clone_params(&self.params),
            return_type: match &self.return_type {
                Some(t) => Some(t.clone()),
                None => None,
            },
            body: self.body.clone(),
            range: self.range.clone(),
        }
    }
}

impl Clone for ChipDecl {
    fn clone(&self) -> (r: ChipDecl)
        ensures
            r@ == self@,
        decreases self, 1nat,
    {
        ChipDecl {
            name: self.name.clone(),
            inputs: clone_params(&self.inputs),
            outputs: clone_named_outputs(&self.outputs),
            body: self.body.clone(),
            range: self.range.clone(),
            inline: self.inline,
            label: clone_text(&self.label),
            closed: self.closed,
        }
    }
}

impl Clone for AnonChipDecl {
    fn clone(&self) -> (r: AnonChipDecl)
        ensures
            r@ == self@,
        decreases self, 1nat,
    {
        AnonChipDecl {
            open: self.open,
            body: self.body.clone(),
            range: self.range.clone(),
            label: clone_text(&self.label),
            closed: self.closed,
        }
    }
}

impl Clone for EventDecl {
    fn clone(&self) -> (r: EventDecl)
        ensures
            r@ == self@,
        decreases self, 1nat,
    {
        EventDecl {
            name: self.name.clone(),
            source: self.source.clone(),
            captured_body: match &self.captured_body {
                Some(x) => Some(x.clone()),
                None => None,
            },
            range: self.range.clone(),
        }
    }
}

impl Clone for InDecl {
    fn clone(&self) -> (r: InDecl)
        ensures
            r@ == self@,
        decreases self, 1nat,
    {
        InDecl {
            name: self.name.clone(),
            typ: self.typ.clone(),
            side: self.side,
            label: clone_text(&self.label),
            range: self.range.clone(),
        }
    }
}

impl Clone for LetDecl {
    fn clone(&self) -> (r: LetDecl)
        ensures
            r@ == self@,
        decreases self, 1nat,
    {
        LetDecl {
            binding: self.binding.clone(),
            typ: match &self.typ {
                Some(t) => Some(t.clone()),
                None => None,
            },
            value: self.value.clone(),
            range: self.range.clone(),
        }
    }
}

impl Clone for LetBinding {
    fn clone(&self) -> (r: LetBinding)
        ensures
            r@ == self@,
        decreases self, 1nat,
    {
        match self {
            LetBinding::Ident { name, range } => LetBinding::Ident {
                name: name.clone(),
                range: range.clone(),
            },
            LetBinding::Tuple { names, rest, range } => LetBinding::Tuple {
                names: clone_texts(names),
                rest: clone_text(rest),
                range: range.clone(),
            },
            LetBinding::Record { names, range } => LetBinding::Record {
                names: clone_texts(names),
                range: range.clone(),
            },
            LetBinding::RecordDestruct { fields, range } => LetBinding::RecordDestruct {
                fields: clone_record_destruct_fields(fields),
                range: range.clone(),
            },
        }
    }
}

impl Clone for RecordDestructField {
    fn clone(&self) -> (r: RecordDestructField)
        ensures
            r@ == self@,
        decreases self, 1nat,
    {
        match self {
            RecordDestructField::Named { name, alias, range } => RecordDestructField::Named {
                name: name.clone(),
                alias: clone_text(alias),
                range: range.clone(),
            },
            RecordDestructField::Rest { name, range } => RecordDestructField::Rest {
                name: name.clone(),
                range: range.clone(),
            },
        }
    }
}

impl Clone for Handler {
    fn clone(&self) -> (r: Handler)
        ensures
            r@ == self@,
        decreases self, 1nat,
    {
        Handler {
            trigger: self.trigger.clone(),
            params: clone_texts(&self.params),
            config: clone_handler_config_args(&self.config),
            body: self.body.clone(),
            range: self.range.clone(),
        }
    }
}

impl Clone for Callback {
    fn clone(&self) -> (r: Callback)
        ensures
            r@ == self@,
        decreases self, 1nat,
    {
        Callback {
            name: self.name.clone(),
            inputs: clone_params(&self.inputs),
            outputs: clone_named_outputs(&self.outputs),
            body: self.body.clone(),
            range: self.range.clone(),
        }
    }
}

impl Clone for HandlerConfigArg {
    fn clone(&self) -> (r: HandlerConfigArg)
        ensures
            r@ == self@,
        decreases self, 1nat,
    {
        match self {
            HandlerConfigArg::Positional(x) => HandlerConfigArg::Positional(x.clone()),
            HandlerConfigArg::Named { name, value } => HandlerConfigArg::Named {
                name: name.clone(),
                value: value.clone(),
            },
        }
    }
}

impl Clone for Trigger {
    fn clone(&self) -> (r: Trigger)
        ensures
            r@ == self@,
        decreases self, 1nat,
    {
        match self {
            Trigger::Ident { name, range } => Trigger::Ident {
                name: name.clone(),
                range: range.clone(),
            },
            Trigger::Field { obj, field, range } => Trigger::Field {
                obj: obj.clone(),
                field: field.clone(),
                range: range.clone(),
            },
            Trigger::Not { inner, range } => Trigger::Not {
                inner: Box::new((&**inner).clone()),
                range: range.clone(),
            },
            Trigger::Union { parts, range } => Trigger::Union {
                parts: clone_triggers(parts),
                range: range.clone(),
            },
        }
    }
}

impl Clone for TypeAliasDecl {
    fn clone(&self) -> (r: TypeAliasDecl)
        ensures
            r@ == self@,
        decreases self, 1nat,
    {
        TypeAliasDecl {
            name: self.name.clone(),
            typ: self.typ.clone(),
            range: self.range.clone(),
        }
    }
}

impl Clone for ImportBinding {
    fn clone(&self) -> (r: ImportBinding)
        ensures
            r@ == self@,
        decreases self, 1nat,
    {
        ImportBinding {
            name: self.name.clone(),
            alias: clone_text(&self.alias),
            range: self.range.clone(),
        }
    }
}

impl Clone for ImportKind {
    fn clone(&self) -> (r: ImportKind)
        ensures
            r@ == self@,
        decreases self, 1nat,
    {
        match self {
            ImportKind::All => ImportKind::All,
            ImportKind::Named(x) => ImportKind::Named(clone_import_bindings(x)),
            ImportKind::Namespace(x) => ImportKind::Namespace(x.clone()),
        }
    }
}

impl Clone for ImportDecl {
    fn clone(&self) -> (r: ImportDecl)
        ensures
            r@ == self@,
        decreases self, 1nat,
    {
        ImportDecl {
            path: self.path.clone(),
            kind: self.kind.clone(),
            range: self.range.clone(),
        }
    }
}

impl Clone for NamespaceDecl {
    fn clone(&self) -> (r: NamespaceDecl)
        ensures
            r@ == self@,
        decreases self, 1nat,
    {
        NamespaceDecl {
            name: self.name.clone(),
            decls: clone_top_decls(&self.decls),
            source_path: self.source_path.clone(),
            module_doc: clone_text(&self.module_doc),
            range: self.range.clone(),
        }
    }
}

impl Clone for TopDecl {
    fn clone(&self) -> (r: TopDecl)
        ensures
            r@ == self@,
        decreases self, 1nat,
    {
        match self {
            TopDecl::Import(x) => TopDecl::Import(x.clone()),
            TopDecl::Namespace(x) => TopDecl::Namespace(x.clone()),
            TopDecl::Var(x) => TopDecl::Var(x.clone()),
            TopDecl::Array(x) => TopDecl::Array(x.clone()),
            TopDecl::Buffer(x) => TopDecl::Buffer(x.clone()),
            TopDecl::Fn(x) => TopDecl::Fn(x.clone()),
            TopDecl::Chip(x) => TopDecl::Chip(x.clone()),
            TopDecl::AnonChip(x) => TopDecl::AnonChip(x.clone()),
            TopDecl::Event(x) => TopDecl::Event(x.clone()),
            TopDecl::In(x) => TopDecl::In(x.clone()),
            TopDecl::Out(x) => TopDecl::Out(x.clone()),
            TopDecl::Handler(x) => TopDecl::Handler(x.clone()),
            TopDecl::Callback(x) => TopDecl::Callback(x.clone()),
            TopDecl::Let(x) => TopDecl::Let(x.clone()),
            TopDecl::Await(x) => TopDecl::Await(x.clone()),
            TopDecl::Assign(x) => TopDecl::Assign(x.clone()),
            TopDecl::If(x) => TopDecl::If(x.clone()),
            TopDecl::ExprStmt(x) => TopDecl::ExprStmt(x.clone()),
            TopDecl::TypeAlias(x) => TopDecl::TypeAlias(x.clone()),
        }
    }
}

fn clone_stmts(v: &Vec<Stmt>) -> (r: Vec<Stmt>)
    ensures
        stmts_view(r@) == stmts_view(v@),
    decreases v@, 0nat,
{
    let mut out: Vec<Stmt> = Vec::new();
    let mut i: usize = 0;
    while i < v.len()
        invariant
            i <= v@.len(),
            out@.len() == i,
            forall|k: int| 0 <= k < i ==> (#[trigger] out@[k])@ == v@[k]@,
        decreases v.len() - i,
    {
        out.push(v[i].clone());
        i += 1;
    }
    assert(stmts_view(out@) =~= stmts_view(v@));
    out
}

fn clone_interp_parts(v: &Vec<InterpPart>) -> (r: Vec<InterpPart>)
    ensures
        interp_parts_view(r@) == interp_parts_view(v@),
    decreases v@, 0nat,
{
    let mut out: Vec<InterpPart> = Vec::new();
    let mut i: usize = 0;
    while i < v.len()
        invariant
            i <= v@.len(),
            out@.len() == i,
            forall|k: int| 0 <= k < i ==> (#[trigger] out@[k])@ == v@[k]@,
        decreases v.len() - i,
    {
        out.push(v[i].clone());
        i += 1;
    }
    assert(interp_parts_view(out@) =~= interp_parts_view(v@));
    out
}

fn clone_call_args(v: &Vec<CallArg>) -> (r: Vec<CallArg>)
    ensures
        call_args_view(r@) == call_args_view(v@),
    decreases v@, 0nat,
{
    let mut out: Vec<CallArg> = Vec::new();
    let mut i: usize = 0;
    while i < v.len()
        invariant
            i <= v@.len(),
            out@.len() == i,
            forall|k: int| 0 <= k < i ==> (#[trigger] out@[k])@ == v@[k]@,
        decreases v.len() - i,
    {
        out.push(v[i].clone());
        i += 1;
    }
    assert(call_args_view(out@) =~= call_args_view(v@));
    out
}

fn clone_match_arms(v: &Vec<MatchArm>) -> (r: Vec<MatchArm>)
    ensures
        match_arms_view(r@) == match_arms_view(v@),
    decreases v@, 0nat,
{
    let mut out: Vec<MatchArm> = Vec::new();
    let mut i: usize = 0;
    while i < v.len()
        invariant
            i <= v@.len(),
            out@.len() == i,
            forall|k: int| 0 <= k < i ==> (#[trigger] out@[k])@ == v@[k]@,
        decreases v.len() - i,
    {
        out.push(v[i].clone());
        i += 1;
    }
    assert(match_arms_view(out@) =~= match_arms_view(v@));
    out
}

fn clone_record_lit_fields(v: &Vec<RecordLitField>) -> (r: Vec<RecordLitField>)
    ensures
        record_lit_fields_view(r@) == record_lit_fields_view(v@),
    decreases v@, 0nat,
{
    let mut out: Vec<RecordLitField> = Vec::new();
    let mut i: usize = 0;
    while i < v.len()
        invariant
            i <= v@.len(),
            out@.len() == i,
            forall|k: int| 0 <= k < i ==> (#[trigger] out@[k])@ == v@[k]@,
        decreases v.len() - i,
    {
        out.push(v[i].clone());
        i += 1;
    }
    assert(record_lit_fields_view(out@) =~= record_lit_fields_view(v@));
    out
}

fn clone_array_elems(v: &Vec<ArrayElem>) -> (r: Vec<ArrayElem>)
    ensures
        array_elems_view(r@) == array_elems_view(v@),
    decreases v@, 0nat,
{
    let mut out: Vec<ArrayElem> = Vec::new();
    let mut i: usize = 0;
    while i < v.len()
        invariant
            i <= v@.len(),
            out@.len() == i,
            forall|k: int| 0 <= k < i ==> (#[trigger] out@[k])@ == v@[k]@,
        decreases v.len() - i,
    {
        out.push(v[i].clone());
        i += 1;
    }
    assert(array_elems_view(out@) =~= array_elems_view(v@));
    out
}

fn clone_record_destruct_fields(v: &Vec<RecordDestructField>) -> (r: Vec<RecordDestructField>)
    ensures
        record_destruct_fields_view(r@) == record_destruct_fields_view(v@),
    decreases v@, 0nat,
{
    let mut out: Vec<RecordDestructField> = Vec::new();
    let mut i: usize = 0;
    while i < v.len()
        invariant
            i <= v@.len(),
            out@.len() == i,
            forall|k: int| 0 <= k < i ==> (#[trigger] out@[k])@ == v@[k]@,
        decreases v.len() - i,
    {
        out.push(v[i].clone());
        i += 1;
    }
    assert(record_destruct_fields_view(out@) =~= record_destruct_fields_view(v@));
    out
}

pub fn clone_params(v: &Vec<Param>) -> (r: Vec<Param>)
    ensures
        params_view(r@) == params_view(v@),
    decreases v@, 0nat,
{
    let mut out: Vec<Param> = Vec::new();
    let mut i: usize = 0;
    while i < v.len()
        invariant
            i <= v@.len(),
            out@.len() == i,
            forall|k: int| 0 <= k < i ==> (#[trigger] out@[k])@ == v@[k]@,
        decreases v.len() - i,
    {
        out.push(v[i].clone());
        i += 1;
    }
    assert(params_view(out@) =~= params_view(v@));
    out
}

fn clone_named_outputs(v: &Vec<NamedOutput>) -> (r: Vec<NamedOutput>)
    ensures
        named_outputs_view(r@) == named_outputs_view(v@),
    decreases v@, 0nat,
{
    let mut out: Vec<NamedOutput> = Vec::new();
    let mut i: usize = 0;
    while i < v.len()
        invariant
            i <= v@.len(),
            out@.len() == i,
            forall|k: int| 0 <= k < i ==> (#[trigger] out@[k])@ == v@[k]@,
        decreases v.len() - i,
    {
        out.push(v[i].clone());
        i += 1;
    }
    assert(named_outputs_view(out@) =~= named_outputs_view(v@));
    out
}

fn clone_handler_config_args(v: &Vec<HandlerConfigArg>) -> (r: Vec<HandlerConfigArg>)
    ensures
        handler_config_args_view(r@) == handler_config_args_view(v@),
    decreases v@, 0nat,
{
    let mut out: Vec<HandlerConfigArg> = Vec::new();
    let mut i: usize = 0;
    while i < v.len()
        invariant
            i <= v@.len(),
            out@.len() == i,
            forall|k: int| 0 <= k < i ==> (#[trigger] out@[k])@ == v@[k]@,
        decreases v.len() - i,
    {
        out.push(v[i].clone());
        i += 1;
    }
    assert(handler_config_args_view(out@) =~= handler_config_args_view(v@));
    out
}

fn clone_triggers(v: &Vec<Trigger>) -> (r: Vec<Trigger>)
    ensures
        triggers_view(r@) == triggers_view(v@),
    decreases v@, 0nat,
{
    let mut out: Vec<Trigger> = Vec::new();
    let mut i: usize = 0;
    while i < v.len()
        invariant
            i <= v@.len(),
            out@.len() == i,
            forall|k: int| 0 <= k < i ==> (#[trigger] out@[k])@ == v@[k]@,
        decreases v.len() - i,
    {
        out.push(v[i].clone());
        i += 1;
    }
    assert(triggers_view(out@) =~= triggers_view(v@));
    out
}

fn clone_import_bindings(v: &Vec<ImportBinding>) -> (r: Vec<ImportBinding>)
    ensures
        import_bindings_view(r@) == import_bindings_view(v@),
    decreases v@, 0nat,
{
    let mut out: Vec<ImportBinding> = Vec::new();
    let mut i: usize = 0;
    while i < v.len()
        invariant
            i <= v@.len(),
            out@.len() == i,
            forall|k: int| 0 <= k < i ==> (#[trigger] out@[k])@ == v@[k]@,
        decreases v.len() - i,
    {
        out.push(v[i].clone());
        i += 1;
    }
    assert(import_bindings_view(out@) =~= import_bindings_view(v@));
    out
}

fn clone_top_decls(v: &Vec<TopDecl>) -> (r: Vec<TopDecl>)
    ensures
        top_decls_view(r@) == top_decls_view(v@),
    decreases v@, 0nat,
{
    let mut out: Vec<TopDecl> = Vec::new();
    let mut i: usize = 0;
    while i < v.len()
        invariant
            i <= v@.len(),
            out@.len() == i,
            forall|k: int| 0 <= k < i ==> (#[trigger] out@[k])@ == v@[k]@,
        decreases v.len() - i,
    {
        out.push(v[i].clone());
        i += 1;
    }
    assert(top_decls_view(out@) =~= top_decls_view(v@));
    out
}

} // verus!
