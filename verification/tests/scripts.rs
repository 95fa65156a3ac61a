//! Whole scripts, from text to diagnostics, hover cards, completions and wire graphs.

use wirescript::analysis::fields::resolve_record_param_field_type;
use wirescript::analysis::hover::{hover_at, prefab_target, AssetRef, OnDisk, PrefabTarget, Site};
use wirescript::analysis::offer::{CursorSite, EnumField, Tables, TypeFacts};
use wirescript::analysis::server::{build_completions, CompletionItem};
use wirescript::analysis::symbols::{Estimates, GateDoc, PortDoc, SymbolDef};
use wirescript::analysis::web::{completions, diagnostics, hover, workspace_symbols, CompletionOut};
use wirescript::assoc::{AssocMap, SpanKey};
use wirescript::ast::{
    AnonChipDecl, ArrayDecl, ArrayElem, Assign, AwaitStmt, Block, BufferDecl, BufferSpec, CallArg,
    Callback, ChipDecl, Emit, EventDecl, Expr, ExprStmt, FnDecl, Handler, HandlerConfigArg, If,
    ImportBinding, ImportDecl, ImportKind, InDecl, InterpPart, LetBinding, LetDecl, MatchArm,
    MatchBody, NamedOutput, NamespaceDecl, OutBinding, Param, ParamPattern, PortSide,
    RecordDestructField, RecordLitField, RecordTypeField, Script, Stmt, TopDecl, Trigger,
    TypeAliasDecl, TypeExpr, VarDecl,
};
use wirescript::catalog::{
    ArrayMethod, CallSpec, Catalog, CoerceRule, Coercion, EventDataField, EventSpec, OpRule,
    OutputSpec, ParamSpec,
};
use wirescript::diagnostic::{Diagnostic, Pos, Severity, SourceRange};
use wirescript::lexer::{lex, Token, TokenKind, TokenValue};
use wirescript::literal::{expr_to_literal, Literal, Number};
use wirescript::lower::assign::match_increment_self;
use wirescript::lower::awaiting::lower_await;
use wirescript::lower::ctx::{invalidate_var_cache, reset_var_get_caches, LowerCtx};
use wirescript::lower::decl::lower_decl;
use wirescript::lower::emit::lower_emit;
use wirescript::lower::gates::{build_exec_union, chain_var_get, make_literal};
use wirescript::lower::graph::{
    GateClass, GateIO, GateSpec, Node, NodeId, NodeKind, Note, PortName, PortRef, Prop, ScopeKind,
    Wire,
};
use wirescript::lower::predeclare::{
    build_exec_signal_hub, pre_declare_decl, pre_declare_input, type_of_type_expr,
};
use wirescript::lower::record::install_record_destruct;
use wirescript::lower::signals::{flush_pending_emits, splice_single_input_union};
use wirescript::lower::state::{Binding, ScopeTag};
use wirescript::lower::stmt::{block_contains_return, count_return_values, lower_stmt};
use wirescript::lower::task::{ArrayOp, Task};
use wirescript::resolve::alias::expand_type_aliases_in_decl;
use wirescript::resolve::files::{
    next_import, FileEntry, FileLoader, FileTable, MemLoader, ParseResult,
};
use wirescript::resolve::idents::{
    collect_idents_in_decls, collect_idents_in_expr, collect_runtime_idents_in_decls, NameSet,
};
use wirescript::resolve::imports::{resolve, ResolveResult};
use wirescript::resolve::merge::decl_name;
use wirescript::type_expr::type_expr_str;
use wirescript::typecheck::check::{check_decl, typecheck, TypeCheckResult};
use wirescript::typecheck::ctx::TypeCheckCtx;
use wirescript::typecheck::register::register_decl;
use wirescript::typecheck::scope::{plain_info, Scope, SymbolKind};
use wirescript::types::{type_str, Type};

// ---------- a parser for the scripts below ----------

struct Parser {
    tokens: Vec<Token>,
    at: usize,
    file: String,
    diagnostics: Vec<Diagnostic>,
    docs: Vec<(usize, String)>,
    pending_doc: Option<String>,
    triggers: usize,
}

impl Parser {
    fn kind(&self) -> TokenKind {
        self.tokens[self.at].kind
    }

    fn text(&self) -> &str {
        &self.tokens[self.at].text
    }

    fn is(&self, text: &str) -> bool {
        let k = self.kind();
        (k == TokenKind::Kw || k == TokenKind::Op || k == TokenKind::Ident) && self.text() == text
    }

    fn next(&mut self) {
        if self.at + 1 < self.tokens.len() {
            self.at += 1;
        }
    }

    fn eat(&mut self, text: &str) -> bool {
        if self.is(text) {
            self.next();
            true
        } else {
            false
        }
    }

    fn eat_kind(&mut self, kind: TokenKind) -> bool {
        if self.kind() == kind {
            self.next();
            true
        } else {
            false
        }
    }

    fn expect(&mut self, kind: TokenKind) {
        if !self.eat_kind(kind) {
            self.fail();
        }
    }

    fn fail(&mut self) {
        let t = &self.tokens[self.at];
        let d = Diagnostic {
            severity: Severity::Error,
            code: "WS000".to_string(),
            message: format!("unexpected '{}'", t.text),
            range: SourceRange { file: self.file.clone(), start: t.start, end: t.end },
        };
        self.diagnostics.push(d);
        self.next();
    }

    fn start(&self) -> Pos {
        self.tokens[self.at].start
    }

    fn from(&self, start: Pos) -> SourceRange {
        let end = if self.at > 0 { self.tokens[self.at - 1].end } else { start };
        SourceRange { file: self.file.clone(), start, end }
    }

    fn skip_lines(&mut self) {
        loop {
            match self.kind() {
                TokenKind::Newline | TokenKind::Semi => self.next(),
                TokenKind::DocComment => {
                    let text = self.text().trim_start_matches('/').trim().to_string();
                    self.pending_doc = Some(text);
                    self.next();
                }
                _ => return,
            }
        }
    }

    fn note_doc(&mut self, at: Pos) {
        if let Some(doc) = self.pending_doc.take() {
            self.docs.push((at.offset, doc));
        }
    }

    fn name(&mut self) -> String {
        let text = self.text().to_string();
        if self.kind() == TokenKind::Ident || self.kind() == TokenKind::Kw {
            self.next();
        } else {
            self.fail();
        }
        text
    }

    // ---------- types ----------

    fn type_expr(&mut self) -> TypeExpr {
        let start = self.start();
        let mut t = if self.eat("*") || self.eat("ref") {
            let inner = Box::new(self.type_expr());
            return TypeExpr::Ref { inner, range: self.from(start) };
        } else if self.eat_kind(TokenKind::LBrace) {
            let mut fields = Vec::new();
            self.skip_lines();
            while self.kind() != TokenKind::RBrace && self.kind() != TokenKind::Eof {
                let at = self.start();
                self.note_doc(at);
                let name = self.name();
                self.expect(TokenKind::Colon);
                let typ = self.type_expr();
                fields.push(RecordTypeField { name, typ, range: self.from(at) });
                self.eat_kind(TokenKind::Comma);
                self.skip_lines();
            }
            self.expect(TokenKind::RBrace);
            TypeExpr::Record { fields, range: self.from(start) }
        } else {
            let name = self.name();
            TypeExpr::Name { name, range: self.from(start) }
        };
        while self.kind() == TokenKind::LBracket {
            self.next();
            self.expect(TokenKind::RBracket);
            t = TypeExpr::Array { inner: Box::new(t), range: self.from(start) };
        }
        t
    }

    fn opt_type(&mut self) -> Option<TypeExpr> {
        if self.eat_kind(TokenKind::Colon) {
            Some(self.type_expr())
        } else {
            None
        }
    }

    // ---------- expressions ----------

    fn expr(&mut self) -> Expr {
        if self.is("if") {
            let start = self.start();
            self.next();
            let cond = Box::new(self.expr());
            self.eat("then");
            let then_branch = Box::new(self.expr());
            self.eat("else");
            let else_branch = Box::new(self.expr());
            return Expr::IfExpr { cond, then_branch, else_branch, range: self.from(start) };
        }
        self.binary(0)
    }

    fn level(op: &str) -> Option<usize> {
        match op {
            "||" => Some(0),
            "&&" => Some(1),
            "==" | "!=" => Some(2),
            "<" | ">" | "<=" | ">=" => Some(3),
            ".." => Some(4),
            "+" | "-" => Some(5),
            "*" | "/" | "%" => Some(6),
            _ => None,
        }
    }

    fn binary(&mut self, least: usize) -> Expr {
        let start = self.start();
        let mut left = self.unary();
        while self.kind() == TokenKind::Op {
            let op = self.text().to_string();
            let level = match Parser::level(&op) {
                Some(l) if l >= least => l,
                _ => break,
            };
            self.next();
            let right = self.binary(level + 1);
            left = Expr::BinOp {
                op,
                left: Box::new(left),
                right: Box::new(right),
                range: self.from(start),
            };
        }
        left
    }

    fn unary(&mut self) -> Expr {
        let start = self.start();
        if self.kind() == TokenKind::Op && (self.text() == "!" || self.text() == "-") {
            let op = self.text().to_string();
            self.next();
            let operand = Box::new(self.unary());
            return Expr::UnOp { op, operand, range: self.from(start) };
        }
        if self.kind() == TokenKind::Op && self.text() == "*" {
            self.next();
            let operand = Box::new(self.unary());
            return Expr::Deref { operand, range: self.from(start) };
        }
        let mut e = self.primary();
        loop {
            if self.kind() == TokenKind::Dot {
                self.next();
                if self.kind() != TokenKind::Ident && self.kind() != TokenKind::Kw {
                    return e;
                }
                let field = self.name();
                e = Expr::FieldAccess { obj: Box::new(e), field, range: self.from(start) };
            } else if self.kind() == TokenKind::LParen {
                let args = self.args();
                e = Expr::Call { callee: Box::new(e), args, range: self.from(start) };
            } else if self.kind() == TokenKind::LBracket {
                self.next();
                let index = Box::new(self.expr());
                self.expect(TokenKind::RBracket);
                e = Expr::IndexAccess { obj: Box::new(e), index, range: self.from(start) };
            } else {
                return e;
            }
        }
    }

    fn args(&mut self) -> Vec<CallArg> {
        let mut args = Vec::new();
        self.expect(TokenKind::LParen);
        self.skip_lines();
        while self.kind() != TokenKind::RParen && self.kind() != TokenKind::Eof {
            if self.eat("...") {
                args.push(CallArg::Spread(self.expr()));
            } else if self.kind() == TokenKind::Ident
                && self.tokens[self.at + 1].kind == TokenKind::Op
                && self.tokens[self.at + 1].text == "="
            {
                let name = self.name();
                self.next();
                args.push(CallArg::Named { name, value: self.expr() });
            } else {
                args.push(CallArg::Positional(self.expr()));
            }
            self.skip_lines();
            self.eat_kind(TokenKind::Comma);
            self.skip_lines();
        }
        self.expect(TokenKind::RParen);
        args
    }

    fn primary(&mut self) -> Expr {
        let start = self.start();
        let text = self.text().to_string();
        match self.kind() {
            TokenKind::Int => {
                self.next();
                let digits = text.replace('_', "");
                let value = if let Some(h) = digits.strip_prefix("0x") {
                    i64::from_str_radix(h, 16)
                } else if let Some(b) = digits.strip_prefix("0b") {
                    i64::from_str_radix(b, 2)
                } else if let Some(o) = digits.strip_prefix("0o") {
                    i64::from_str_radix(o, 8)
                } else {
                    digits.parse::<i64>()
                };
                Expr::IntLit { value: value.unwrap(), text, range: self.from(start) }
            }
            TokenKind::Float => {
                self.next();
                let bits = text.parse::<f64>().unwrap().to_bits();
                Expr::FloatLit { bits, text, range: self.from(start) }
            }
            TokenKind::Str => {
                let value = match &self.tokens[self.at].value {
                    Some(TokenValue::Str(s)) => s.clone(),
                    _ => String::new(),
                };
                self.next();
                Expr::StringLit { value, range: self.from(start) }
            }
            TokenKind::StrInterp => {
                let mut parts = Vec::new();
                if let Some(TokenValue::Interp(ps)) = &self.tokens[self.at].value {
                    for p in ps {
                        match p {
                            wirescript::lexer::InterpPart::Lit(s) => {
                                parts.push(InterpPart::Lit(s.clone()));
                            }
                            wirescript::lexer::InterpPart::Expr { source, .. } => {
                                let mut inner = parser_of(source, &self.file);
                                parts.push(InterpPart::Expr(Box::new(inner.expr())));
                            }
                        }
                    }
                }
                self.next();
                Expr::InterpLit { parts, range: self.from(start) }
            }
            TokenKind::AssetRef => {
                let path = match &self.tokens[self.at].value {
                    Some(TokenValue::Str(s)) => s.clone(),
                    _ => String::new(),
                };
                self.next();
                let range = self.from(start);
                if path.starts_with('.') || path.starts_with('/') {
                    Expr::PrefabRef { path, range }
                } else {
                    let (ty, name) = path.split_once('/').unwrap_or((&path, ""));
                    Expr::AssetRef {
                        asset_type: ty.to_string(),
                        asset_name: name.to_string(),
                        range,
                    }
                }
            }
            TokenKind::LParen => {
                self.next();
                let e = self.expr();
                self.expect(TokenKind::RParen);
                e
            }
            TokenKind::LBracket => {
                self.next();
                let mut elements = Vec::new();
                self.skip_lines();
                while self.kind() != TokenKind::RBracket && self.kind() != TokenKind::Eof {
                    if self.eat("...") {
                        elements.push(ArrayElem::Spread(self.expr()));
                    } else {
                        elements.push(ArrayElem::Item(self.expr()));
                    }
                    self.skip_lines();
                    self.eat_kind(TokenKind::Comma);
                    self.skip_lines();
                }
                self.expect(TokenKind::RBracket);
                Expr::Array { elements, range: self.from(start) }
            }
            TokenKind::LBrace => {
                self.next();
                let mut fields = Vec::new();
                self.skip_lines();
                while self.kind() != TokenKind::RBrace && self.kind() != TokenKind::Eof {
                    let at = self.start();
                    if self.eat("...") {
                        let value = self.expr();
                        fields.push(RecordLitField::Spread { value, range: self.from(at) });
                    } else {
                        let name = self.name();
                        if self.eat_kind(TokenKind::Colon) {
                            let value = self.expr();
                            let range = self.from(at);
                            fields.push(RecordLitField::Named { name, value, range });
                        } else {
                            let range = self.from(at);
                            fields.push(RecordLitField::Shorthand { name, range });
                        }
                    }
                    self.skip_lines();
                    self.eat_kind(TokenKind::Comma);
                    self.skip_lines();
                }
                self.expect(TokenKind::RBrace);
                Expr::RecordLit { fields, range: self.from(start) }
            }
            TokenKind::Kw if text == "true" || text == "false" => {
                self.next();
                Expr::BoolLit { value: text == "true", range: self.from(start) }
            }
            TokenKind::Ident => {
                self.next();
                Expr::Ident { name: text, range: self.from(start) }
            }
            _ => {
                self.fail();
                Expr::Ident { name: "_".to_string(), range: self.from(start) }
            }
        }
    }

    // ---------- statements ----------

    fn block(&mut self) -> Block {
        let start = self.start();
        self.expect(TokenKind::LBrace);
        let mut stmts = Vec::new();
        self.skip_lines();
        while self.kind() != TokenKind::RBrace && self.kind() != TokenKind::Eof {
            self.stmt(&mut stmts);
            self.skip_lines();
        }
        self.expect(TokenKind::RBrace);
        Block { stmts, range: self.from(start) }
    }

    fn stmt(&mut self, out: &mut Vec<Stmt>) {
        let start = self.start();
        let text = self.text().to_string();
        if self.kind() == TokenKind::Kw {
            match text.as_str() {
                "emit" => {
                    self.next();
                    let name = self.name();
                    let value = if self.eat("=") { Some(self.expr()) } else { None };
                    let range = self.from(start);
                    out.push(Stmt::Emit(Emit { name, value, buffer: None, range }));
                    return;
                }
                "return" => {
                    self.next();
                    let none = self.kind() == TokenKind::Newline
                        || self.kind() == TokenKind::RBrace
                        || self.kind() == TokenKind::Eof;
                    let value = if none { None } else { Some(self.expr()) };
                    out.push(Stmt::Return { value, range: self.from(start) });
                    return;
                }
                _ => {}
            }
        }
        let mut decls = Vec::new();
        self.decl(&mut decls);
        for d in decls {
            out.push(match d {
                TopDecl::Var(d) => Stmt::Var(d),
                TopDecl::Array(d) => Stmt::Array(d),
                TopDecl::Buffer(d) => Stmt::Buffer(d),
                TopDecl::Chip(d) => Stmt::ChipDecl(d),
                TopDecl::AnonChip(d) => Stmt::AnonChip(d),
                TopDecl::In(d) => Stmt::In(d),
                TopDecl::Out(d) => Stmt::OutBinding(d),
                TopDecl::Handler(d) => Stmt::Handler(d),
                TopDecl::Let(d) => Stmt::Let(d),
                TopDecl::Await(d) => Stmt::Await(d),
                TopDecl::Assign(d) => Stmt::Assign(d),
                TopDecl::If(d) => Stmt::If(d),
                TopDecl::ExprStmt(d) => Stmt::ExprStmt(d),
                other => panic!("not a statement: {other:?}"),
            });
        }
    }

    fn destructured(&mut self) -> Vec<RecordDestructField> {
        let mut fields = Vec::new();
        self.expect(TokenKind::LBrace);
        while self.kind() != TokenKind::RBrace && self.kind() != TokenKind::Eof {
            let at = self.start();
            let name = self.name();
            let alias = if self.eat_kind(TokenKind::Colon) { Some(self.name()) } else { None };
            fields.push(RecordDestructField::Named { name, alias, range: self.from(at) });
            self.eat_kind(TokenKind::Comma);
        }
        self.expect(TokenKind::RBrace);
        fields
    }

    fn params(&mut self) -> Vec<Param> {
        let mut params = Vec::new();
        self.expect(TokenKind::LParen);
        while self.kind() != TokenKind::RParen && self.kind() != TokenKind::Eof {
            let at = self.start();
            let (name, pattern) = if self.kind() == TokenKind::LBrace {
                let fields = self.destructured();
                let name = format!("_param_{}", params.len());
                (name, Some(ParamPattern::Record { fields, rest: None }))
            } else {
                (self.name(), None)
            };
            self.expect(TokenKind::Colon);
            let typ = self.type_expr();
            params.push(Param { name, typ, pattern, range: self.from(at) });
            self.eat_kind(TokenKind::Comma);
        }
        self.expect(TokenKind::RParen);
        params
    }

    fn outputs(&mut self) -> Vec<NamedOutput> {
        let mut outs = Vec::new();
        if !self.eat_kind(TokenKind::Arrow) {
            return outs;
        }
        if self.eat_kind(TokenKind::LParen) {
            while self.kind() != TokenKind::RParen && self.kind() != TokenKind::Eof {
                let at = self.start();
                let name = self.name();
                self.expect(TokenKind::Colon);
                let typ = self.type_expr();
                outs.push(NamedOutput { name, typ, range: self.from(at) });
                self.eat_kind(TokenKind::Comma);
            }
            self.expect(TokenKind::RParen);
        } else {
            let at = self.start();
            let typ = self.type_expr();
            outs.push(NamedOutput { name: "result".to_string(), typ, range: self.from(at) });
        }
        outs
    }

    fn import(&mut self, start: Pos) -> TopDecl {
        let kind = if self.eat_kind(TokenKind::LBrace) {
            let mut names = Vec::new();
            while self.kind() != TokenKind::RBrace && self.kind() != TokenKind::Eof {
                let at = self.start();
                let name = self.name();
                let alias = if self.eat("as") { Some(self.name()) } else { None };
                names.push(ImportBinding { name, alias, range: self.from(at) });
                self.eat_kind(TokenKind::Comma);
            }
            self.expect(TokenKind::RBrace);
            self.eat("from");
            ImportKind::Named(names)
        } else if self.eat("*") {
            self.eat("as");
            let name = self.name();
            self.eat("from");
            ImportKind::Namespace(name)
        } else {
            ImportKind::All
        };
        let path = match &self.tokens[self.at].value {
            Some(TokenValue::Str(s)) => s.clone(),
            _ => String::new(),
        };
        self.next();
        TopDecl::Import(ImportDecl { path, kind, range: self.from(start) })
    }

    fn handler(&mut self, start: Pos, out: &mut Vec<TopDecl>) {
        let at = self.start();
        let e = self.expr();
        let mut params = Vec::new();
        let trigger = match e {
            Expr::Ident { name, range } => Trigger::Ident { name, range },
            Expr::Call { callee, args, range } => {
                for a in args {
                    if let CallArg::Positional(Expr::Ident { name, .. }) = a {
                        params.push(name);
                    }
                }
                match *callee {
                    Expr::Ident { name, .. } => Trigger::Ident { name, range },
                    other => panic!("not an event: {other:?}"),
                }
            }
            Expr::FieldAccess { obj, field, range } => match *obj {
                Expr::Ident { name, .. } => Trigger::Field { obj: name, field, range },
                other => panic!("not a trigger: {other:?}"),
            },
            value => {
                let name = format!("_on_expr_{}", self.triggers);
                self.triggers += 1;
                let range = self.from(at);
                out.push(TopDecl::Let(LetDecl {
                    binding: LetBinding::Ident { name: name.clone(), range: range.clone() },
                    typ: None,
                    value,
                    range: range.clone(),
                }));
                Trigger::Ident { name, range }
            }
        };
        if self.kind() != TokenKind::LBrace {
            return;
        }
        let body = self.block();
        let range = self.from(start);
        out.push(TopDecl::Handler(Handler { trigger, params, config: Vec::new(), body, range }));
    }

    fn decl(&mut self, out: &mut Vec<TopDecl>) {
        let start = self.start();
        self.note_doc(start);
        let word = if self.kind() == TokenKind::Kw { self.text().to_string() } else { String::new() };
        match word.as_str() {
            "import" => {
                self.next();
                let d = self.import(start);
                out.push(d);
            }
            "static" | "var" => {
                let is_static = self.eat("static");
                self.next();
                let name = self.name();
                let typ = self.opt_type();
                let init = if self.eat("=") { Some(self.expr()) } else { None };
                let range = self.from(start);
                out.push(TopDecl::Var(VarDecl { name, typ, init, is_static, range }));
            }
            "array" => {
                self.next();
                let name = self.name();
                let element_type = match self.opt_type() {
                    Some(TypeExpr::Array { inner, .. }) => *inner,
                    other => panic!("not an array type: {other:?}"),
                };
                let init = if self.eat("=") {
                    match self.expr() {
                        Expr::Array { elements, .. } => elements,
                        other => panic!("not an array: {other:?}"),
                    }
                } else {
                    Vec::new()
                };
                let range = self.from(start);
                out.push(TopDecl::Array(ArrayDecl { name, element_type, init, range }));
            }
            "buffer" => {
                self.next();
                let name = self.name();
                let typ = self.opt_type();
                self.eat("=");
                let init = self.expr();
                let range = self.from(start);
                out.push(TopDecl::Buffer(BufferDecl { name, typ, init, range }));
            }
            "fn" => {
                self.next();
                let name = self.name();
                let params = self.params();
                let return_type = if self.eat_kind(TokenKind::Arrow) {
                    Some(self.type_expr())
                } else {
                    None
                };
                self.eat("=");
                let body = self.expr();
                let range = self.from(start);
                out.push(TopDecl::Fn(FnDecl { name, params, return_type, body, range }));
            }
            "chip" | "mod" => {
                self.next();
                if self.kind() == TokenKind::LBrace || self.is("on") || self.is("let") {
                    let body = if self.kind() == TokenKind::LBrace {
                        self.block()
                    } else {
                        let mut stmts = Vec::new();
                        self.stmt(&mut stmts);
                        Block { stmts, range: self.from(start) }
                    };
                    let range = self.from(start);
                    out.push(TopDecl::AnonChip(AnonChipDecl {
                        open: false,
                        body,
                        range,
                        label: None,
                        closed: false,
                    }));
                    return;
                }
                let name = self.name();
                let inputs = self.params();
                let outputs = self.outputs();
                let body = self.block();
                let range = self.from(start);
                out.push(TopDecl::Chip(ChipDecl {
                    name,
                    inputs,
                    outputs,
                    body,
                    range,
                    inline: word == "mod",
                    label: None,
                    closed: false,
                }));
            }
            "in" => {
                self.next();
                let name = self.name();
                let typ = self.opt_type().unwrap();
                let range = self.from(start);
                out.push(TopDecl::In(InDecl { name, typ, side: None, label: None, range }));
            }
            "out" => {
                self.next();
                let name = self.name();
                let typ = self.opt_type();
                let value = if self.eat("=") { Some(self.expr()) } else { None };
                let range = self.from(start);
                out.push(TopDecl::Out(OutBinding {
                    name,
                    value,
                    typ,
                    side: None,
                    label: None,
                    range,
                }));
            }
            "on" => {
                self.next();
                self.handler(start, out);
            }
            "let" => {
                self.next();
                let at = self.start();
                let binding = if self.kind() == TokenKind::LBrace {
                    let fields = self.destructured();
                    LetBinding::RecordDestruct { fields, range: self.from(at) }
                } else {
                    let name = self.name();
                    LetBinding::Ident { name, range: self.from(at) }
                };
                let typ = self.opt_type();
                self.eat("=");
                let value = self.expr();
                let range = self.from(start);
                out.push(TopDecl::Let(LetDecl { binding, typ, value, range }));
            }
            "type" => {
                self.next();
                let name = self.name();
                self.eat("=");
                let typ = self.type_expr();
                let range = self.from(start);
                out.push(TopDecl::TypeAlias(TypeAliasDecl { name, typ, range }));
            }
            "await" => {
                self.next();
                let exec_expr = self.expr();
                let range = self.from(start);
                out.push(TopDecl::Await(AwaitStmt {
                    binding: None,
                    destructure: None,
                    value_expr: None,
                    exec_expr,
                    range,
                }));
            }
            "if" => {
                self.next();
                let cond = self.expr();
                let then_block = self.block();
                let else_block = if self.eat("else") { Some(self.block()) } else { None };
                let range = self.from(start);
                out.push(TopDecl::If(If { cond, then_block, else_block, range }));
            }
            _ => {
                let e = self.expr();
                if self.eat("=") {
                    let value = self.expr();
                    let range = self.from(start);
                    out.push(TopDecl::Assign(Assign { target: e, value, range }));
                } else {
                    let range = self.from(start);
                    out.push(TopDecl::ExprStmt(ExprStmt { expr: e, range }));
                }
            }
        }
    }

    fn script(mut self) -> ParseResult {
        let start = self.start();
        let mut decls = Vec::new();
        self.skip_lines();
        while self.kind() != TokenKind::Eof {
            self.decl(&mut decls);
            self.skip_lines();
        }
        let range = self.from(start);
        ParseResult {
            ast: Script { decls, range, module_doc: None },
            diagnostics: self.diagnostics,
            doc_comments: self.docs,
        }
    }
}

fn parser_of(source: &str, file: &str) -> Parser {
    let lexed = lex(source, file);
    Parser {
        tokens: lexed.tokens,
        at: 0,
        file: file.to_string(),
        diagnostics: lexed.diagnostics,
        docs: Vec::new(),
        pending_doc: None,
        triggers: 0,
    }
}

fn parse(source: &str, file: &str) -> ParseResult {
    parser_of(source, file).script()
}

// ---------- the tables ----------

fn param(name: &str, ty: Type, optional: bool) -> ParamSpec {
    ParamSpec { name: name.to_string(), ty, optional, port: format!("{name}Port") }
}

fn call(
    name: &str,
    params: Vec<ParamSpec>,
    outputs: Vec<(&str, Type)>,
    receiver: Option<Type>,
    needs_exec: bool,
) -> CallSpec {
    CallSpec {
        name: name.to_string(),
        gate_class: format!("{name}Gate"),
        params,
        outputs: outputs
            .into_iter()
            .map(|(port, ty)| OutputSpec { port: port.to_string(), ty })
            .collect(),
        receiver,
        needs_exec,
    }
}

fn event(name: &str, data: Vec<(&str, Type)>) -> EventSpec {
    EventSpec {
        surface_name: name.to_string(),
        data: data
            .into_iter()
            .map(|(n, ty)| EventDataField { name: n.to_string(), ty })
            .collect(),
    }
}

fn values() -> Vec<Type> {
    vec![
        Type::Bool,
        Type::Int,
        Type::Float,
        Type::String,
        Type::Vector,
        Type::Rotator,
        Type::Color,
        Type::Entity,
        Type::Character,
        Type::Controller,
    ]
}

fn operators() -> Vec<OpRule> {
    let mut ops = Vec::new();
    let mut put = |op: &str, operands: Vec<Type>, result: Type| {
        ops.push(OpRule {
            op: op.to_string(),
            operands,
            result,
            gate_class: format!("Op_{op}"),
        });
    };
    for op in ["+", "-", "*", "/", "%"] {
        put(op, vec![Type::Int, Type::Int], Type::Int);
        put(op, vec![Type::Float, Type::Float], Type::Float);
        put(op, vec![Type::Int, Type::Float], Type::Float);
        put(op, vec![Type::Float, Type::Int], Type::Float);
        put(op, vec![Type::Vector, Type::Vector], Type::Vector);
    }
    for op in ["<", ">", "<=", ">=", "==", "!="] {
        put(op, vec![Type::Int, Type::Int], Type::Bool);
        put(op, vec![Type::Float, Type::Float], Type::Bool);
        put(op, vec![Type::String, Type::String], Type::Bool);
    }
    for op in ["&&", "||"] {
        put(op, vec![Type::Bool, Type::Bool], Type::Bool);
    }
    for t in values() {
        put("..", vec![Type::String, t.clone()], Type::String);
        if !matches!(t, Type::String) {
            put("..", vec![t, Type::String], Type::String);
        }
    }
    put("!", vec![Type::Bool], Type::Bool);
    put("!", vec![Type::Int], Type::Bool);
    put("-u", vec![Type::Int], Type::Int);
    put("-u", vec![Type::Float], Type::Float);
    ops
}

fn coercions() -> Vec<Coercion> {
    let mut table = Vec::new();
    let mut put = |from: Type, to: Type, rule: CoerceRule| table.push(Coercion { from, to, rule });
    put(Type::Int, Type::Float, CoerceRule::Implicit);
    put(Type::Float, Type::Int, CoerceRule::Implicit);
    put(Type::Bool, Type::Int, CoerceRule::Implicit);
    for t in values() {
        put(t, Type::String, CoerceRule::ViaString);
    }
    let family = || vec![Type::Entity, Type::Character, Type::Controller];
    for a in family() {
        for b in family() {
            put(a.clone(), b, CoerceRule::Implicit);
        }
    }
    table
}

fn array_methods() -> Vec<ArrayMethod> {
    let method = |name: &str, signature: &str, outputs: Vec<(&str, Option<Type>)>| ArrayMethod {
        name: name.to_string(),
        signature: signature.to_string(),
        doc: format!("about {name}"),
        outputs: outputs.into_iter().map(|(n, t)| (n.to_string(), t)).collect(),
    };
    vec![
        method("push", "(value)", vec![]),
        method("pop", "()", vec![("Value", None)]),
        method("length", "() -> int", vec![("Length", Some(Type::Int))]),
        method(
            "find",
            "(value) -> {Found, Index}",
            vec![("Found", Some(Type::Bool)), ("Index", Some(Type::Int))],
        ),
        method("sort", "()", vec![]),
        method("insert", "(index, value)", vec![]),
        method("append", "(other)", vec![]),
        method("slice", "(from, to)", vec![]),
        method("sum", "()", vec![("Sum", None)]),
    ]
}

fn catalog() -> Catalog {
    let f = || Type::Float;
    let vector = || vec![param("v", Type::Vector, false)];
    let text = || vec![param("text", Type::String, false)];
    let two = |a: ParamSpec, b: ParamSpec| vec![a, b];
    Catalog {
        calls: vec![
            call(
                "Random",
                two(param("min", Type::Int, false), param("max", Type::Int, false)),
                vec![("Result", Type::Int)],
                None,
                false,
            ),
            call(
                "Vec",
                vec![param("x", f(), false), param("y", f(), false), param("z", f(), false)],
                vec![("Vector", Type::Vector)],
                None,
                false,
            ),
            call(
                "Color",
                vec![
                    param("r", f(), false),
                    param("g", f(), false),
                    param("b", f(), false),
                    param("a", f(), true),
                ],
                vec![("Color", Type::Color)],
                None,
                false,
            ),
            call(
                "ColorHex",
                vec![param("hex", Type::String, false)],
                vec![("Color", Type::Color)],
                None,
                false,
            ),
            call(
                "SetLocation",
                two(param("target", Type::Entity, false), param("location", Type::Vector, false)),
                vec![],
                Some(Type::Entity),
                true,
            ),
            call(
                "DisplayText",
                vec![
                    param("target", Type::Controller, false),
                    param("text", Type::String, false),
                    param("fontSize", Type::Int, true),
                    param("justify", Type::String, true),
                ],
                vec![],
                Some(Type::Controller),
                true,
            ),
            call(
                "ShowStatusMessage",
                two(
                    param("target", Type::Controller, false),
                    param("message", Type::String, false),
                ),
                vec![],
                Some(Type::Controller),
                true,
            ),
            call("PrintToConsole", text(), vec![], None, true),
            call(
                "Sleep",
                two(param("start", Type::Any, false), param("delay", f(), true)),
                vec![("Done", Type::Exec)],
                None,
                true,
            ),
            call(
                "InputReader",
                vec![param("player", Type::Character, false)],
                vec![("Forward", f()), ("Right", f()), ("Jump", Type::Bool)],
                Some(Type::Character),
                false,
            ),
            call("Normalize", vector(), vec![("V", Type::Vector)], Some(Type::Vector), false),
            call("Magnitude", vector(), vec![("M", f())], Some(Type::Vector), false),
            call("MagnitudeSq", vector(), vec![("M", f())], Some(Type::Vector), false),
            call(
                "Dot",
                two(param("v", Type::Vector, false), param("w", Type::Vector, false)),
                vec![("D", f())],
                Some(Type::Vector),
                false,
            ),
            call(
                "Cross",
                two(param("v", Type::Vector, false), param("w", Type::Vector, false)),
                vec![("C", Type::Vector)],
                Some(Type::Vector),
                false,
            ),
            call(
                "Distance",
                two(param("v", Type::Vector, false), param("w", Type::Vector, false)),
                vec![("D", f())],
                Some(Type::Vector),
                false,
            ),
            call(
                "ScaleVec",
                two(param("v", Type::Vector, false), param("by", f(), false)),
                vec![("V", Type::Vector)],
                Some(Type::Vector),
                false,
            ),
            call(
                "SplitVec",
                vector(),
                vec![("x", f()), ("y", f()), ("z", f())],
                Some(Type::Vector),
                false,
            ),
            call(
                "SplitColor",
                vec![param("c", Type::Color, false)],
                vec![("r", f()), ("g", f()), ("b", f()), ("a", f())],
                Some(Type::Color),
                false,
            ),
            call(
                "Contains",
                two(param("text", Type::String, false), param("part", Type::String, false)),
                vec![("Found", Type::Bool)],
                Some(Type::String),
                false,
            ),
            call("ToLower", text(), vec![("Text", Type::String)], Some(Type::String), false),
            call("Length", text(), vec![("Length", Type::Int)], Some(Type::String), false),
            call(
                "Split",
                two(param("text", Type::String, false), param("by", Type::String, false)),
                vec![("Left", Type::String), ("Right", Type::String)],
                Some(Type::String),
                false,
            ),
            call(
                "Find",
                two(param("text", Type::String, false), param("part", Type::String, false)),
                vec![("Index", Type::Int)],
                Some(Type::String),
                false,
            ),
            call(
                "Teleport",
                two(param("target", Type::Entity, false), param("to", Type::Vector, false)),
                vec![],
                Some(Type::Entity),
                true,
            ),
            call(
                "GetVelocity",
                vec![param("target", Type::Entity, false)],
                vec![("Velocity", Type::Vector)],
                Some(Type::Entity),
                false,
            ),
            call(
                "GetLocation",
                vec![param("target", Type::Entity, false)],
                vec![("Location", Type::Vector)],
                Some(Type::Entity),
                false,
            ),
            call(
                "AddVelocity",
                two(param("target", Type::Entity, false), param("linear", Type::Vector, true)),
                vec![],
                Some(Type::Entity),
                true,
            ),
            call(
                "GetAim",
                vec![param("player", Type::Character, false)],
                vec![("Aim", Type::Vector)],
                Some(Type::Character),
                false,
            ),
            call(
                "SpawnPrefab",
                vec![param("prefab", Type::Prefab, false)],
                vec![],
                None,
                true,
            ),
        ],
        events: vec![
            event("RoundStart", vec![]),
            event("load", vec![]),
            event("CharacterDied", vec![("character", Type::Character)]),
            event("CharacterSpawned", vec![("character", Type::Character)]),
            event(
                "ChatCommand",
                vec![("controller", Type::Controller), ("arguments", Type::String)],
            ),
        ],
        operators: operators(),
        coercions: coercions(),
        array_methods: array_methods(),
    }
}

fn gate_docs() -> Vec<(String, GateDoc)> {
    let port = |name: &str, tooltip: &str| PortDoc {
        display_name: name.to_string(),
        tooltip: tooltip.to_string(),
    };
    vec![(
        "DisplayTextGate".to_string(),
        GateDoc {
            display_name: "Display Text".to_string(),
            description: "Shows text to a player.".to_string(),
            inputs: vec![
                ("fontSizePort".to_string(), port("Font Size", "How large the text is.")),
                ("textPort".to_string(), port("Text", "")),
            ],
        },
    )]
}

// ---------- checking ----------

fn tc(src: &str) -> TypeCheckResult {
    let p = parse(src, "test");
    assert!(p.diagnostics.is_empty(), "parse diagnostics: {:?}", p.diagnostics);
    typecheck(&p.ast, "test", &catalog())
}

fn errors(ds: &[Diagnostic]) -> Vec<&Diagnostic> {
    ds.iter().filter(|d| d.severity == Severity::Error).collect()
}

fn assert_no_diags(r: &TypeCheckResult) {
    let errors = errors(&r.diagnostics);
    assert!(errors.is_empty(), "unexpected errors: {:?}", errors);
}

fn has_code(r: &TypeCheckResult, code: &str) -> bool {
    r.diagnostics.iter().any(|d| d.code == code)
}

// ---------- resolving ----------

fn mem(files: &[(&str, &str)]) -> MemLoader {
    let mut map = AssocMap::new();
    for (k, v) in files {
        map.insert(k.to_string(), v.to_string());
    }
    MemLoader { files: map }
}

fn resolve_with(source: &str, file: &str, loader: &MemLoader) -> ResolveResult {
    let main = parse(source, file);
    let mut table = FileTable::new();
    while let Some((path, relative_to)) = next_import(&table, &main.ast, file) {
        let canonical = loader.canonical_path(&path, &relative_to);
        let parsed = match loader.load(&path, &relative_to) {
            Ok(text) => Some(parse(&text, &canonical)),
            Err(_) => None,
        };
        table.add_entry(FileEntry { path, relative_to, canonical, parsed });
    }
    let canon_self = loader.canonical_path(file, ".");
    resolve(main, file, &canon_self, &table)
}

// ---------- symbols ----------

fn signature(params: &[Param], outputs: &[(Option<String>, String)]) -> String {
    let ins: Vec<String> =
        params.iter().map(|p| format!("{}: {}", p.name, type_expr_str(&p.typ))).collect();
    let outs: Vec<String> = outputs
        .iter()
        .map(|(n, t)| match n {
            Some(n) => format!("{n}: {t}"),
            None => t.clone(),
        })
        .collect();
    let ret = match outs.len() {
        0 => String::new(),
        1 => format!(" -> {}", outs[0]),
        _ => format!(" -> ({})", outs.join(", ")),
    };
    format!("({}){}", ins.join(", "), ret)
}

struct Symbols<'a> {
    script: &'a Script,
    types: &'a AssocMap<SpanKey, Type>,
    out: Vec<SymbolDef>,
}

impl<'a> Symbols<'a> {
    fn add(&mut self, name: &str, kind: &str, range: &SourceRange, ty: Option<String>) {
        self.out.push(SymbolDef {
            name: name.to_string(),
            kind: kind.to_string(),
            range: range.clone(),
            ty,
            is_exec: false,
        });
    }

    fn type_at(&self, e: &Expr) -> Option<&'a Type> {
        let r = e.range();
        self.types.get(&SpanKey {
            file: r.file.clone(),
            start: r.start.offset,
            end: r.end.offset,
        })
    }

    fn shown(&self, typ: &Option<TypeExpr>, value: Option<&Expr>) -> Option<String> {
        match (typ, value) {
            (Some(t), _) => Some(type_expr_str(t)),
            (None, Some(e)) => self.type_at(e).map(type_str),
            _ => None,
        }
    }

    fn params(&mut self, params: &[Param]) {
        for p in params {
            match &p.pattern {
                Some(ParamPattern::Record { fields, .. }) => {
                    for f in fields {
                        if let RecordDestructField::Named { name, alias, range } = f {
                            let ty = resolve_record_param_field_type(self.script, &p.typ, name);
                            self.add(alias.as_ref().unwrap_or(name), "param", range, ty);
                        }
                    }
                }
                _ => self.add(&p.name, "param", &p.range, Some(type_expr_str(&p.typ))),
            }
        }
    }

    fn var(&mut self, v: &VarDecl) {
        let kind = if v.is_static { "static var" } else { "var" };
        let ty = self.shown(&v.typ, v.init.as_ref());
        self.add(&v.name, kind, &v.range, ty);
    }

    fn binding(&mut self, l: &LetDecl) {
        match &l.binding {
            LetBinding::Ident { name, .. } => {
                let ty = self.shown(&l.typ, Some(&l.value));
                self.add(name, "let", &l.range, ty);
            }
            LetBinding::RecordDestruct { fields, .. } => {
                for f in fields {
                    if let RecordDestructField::Named { name, alias, range } = f {
                        let ty = match self.type_at(&l.value) {
                            Some(Type::Record(fs)) => {
                                fs.iter().find(|(n, _)| n == name).map(|(_, t)| type_str(t))
                            }
                            _ => None,
                        };
                        self.add(alias.as_ref().unwrap_or(name), "let", range, ty);
                    }
                }
            }
            _ => {}
        }
    }

    fn stmts(&mut self, stmts: &[Stmt]) {
        for s in stmts {
            match s {
                Stmt::Var(v) => self.var(v),
                Stmt::Let(l) => self.binding(l),
                Stmt::Handler(h) => self.stmts(&h.body.stmts),
                Stmt::If(i) => self.stmts(&i.then_block.stmts),
                _ => {}
            }
        }
    }

    fn decl(&mut self, d: &TopDecl, prefix: &str) {
        let named = |n: &str| format!("{prefix}{n}");
        match d {
            TopDecl::Var(v) => self.var(v),
            TopDecl::Array(a) => {
                let ty = format!("{}[]", type_expr_str(&a.element_type));
                self.add(&named(&a.name), "array", &a.range, Some(ty));
            }
            TopDecl::Buffer(b) => {
                let ty = self.shown(&b.typ, Some(&b.init));
                self.add(&named(&b.name), "buffer", &b.range, ty);
            }
            TopDecl::In(i) => {
                self.add(&named(&i.name), "in", &i.range, Some(type_expr_str(&i.typ)));
            }
            TopDecl::Out(o) => {
                let ty = self.shown(&o.typ, o.value.as_ref());
                self.add(&named(&o.name), "out", &o.range, ty);
            }
            TopDecl::Let(l) if prefix.is_empty() => self.binding(l),
            TopDecl::Let(l) => {
                if let LetBinding::Ident { name, .. } = &l.binding {
                    let ty = self.shown(&l.typ, Some(&l.value));
                    self.add(&named(name), "let", &l.range, ty);
                }
            }
            TopDecl::Fn(f) => {
                let ret: Vec<(Option<String>, String)> =
                    f.return_type.iter().map(|t| (None, type_expr_str(t))).collect();
                self.add(&named(&f.name), "fn", &f.range, Some(signature(&f.params, &ret)));
                self.params(&f.params);
            }
            TopDecl::Chip(c) => {
                let kind = if c.inline { "mod" } else { "chip" };
                let outs: Vec<(Option<String>, String)> = c
                    .outputs
                    .iter()
                    .map(|o| (Some(o.name.clone()), type_expr_str(&o.typ)))
                    .collect();
                self.add(&named(&c.name), kind, &c.range, Some(signature(&c.inputs, &outs)));
                if prefix.is_empty() {
                    self.params(&c.inputs);
                    self.stmts(&c.body.stmts);
                }
            }
            TopDecl::Handler(h) => self.stmts(&h.body.stmts),
            TopDecl::TypeAlias(t) => {
                self.add(&named(&t.name), "type", &t.range, Some(type_expr_str(&t.typ)));
            }
            TopDecl::Namespace(n) => {
                self.add(&n.name, "namespace", &n.range, None);
                let inner = format!("{}.", n.name);
                for d in &n.decls {
                    self.decl(d, &inner);
                }
            }
            _ => {}
        }
    }
}

fn collect_symbols(script: &Script, types: &AssocMap<SpanKey, Type>) -> Vec<SymbolDef> {
    let mut s = Symbols { script, types, out: Vec::new() };
    for d in &script.decls {
        s.decl(d, "");
    }
    s.out
}

// ---------- the text around a cursor ----------

fn is_word(c: char) -> bool {
    c.is_alphanumeric() || c == '_'
}

fn word_at(source: &str, line: usize, col: usize) -> Option<String> {
    let l = source.lines().nth(line)?;
    let start = l[..col].rfind(|c| !is_word(c)).map(|i| i + 1).unwrap_or(0);
    let end = l[col..].find(|c| !is_word(c)).map(|i| col + i).unwrap_or(l.len());
    if start < end {
        Some(l[start..end].to_string())
    } else {
        None
    }
}

fn offset_in(source: &str, line: usize, col: usize) -> usize {
    source.lines().take(line).map(|l| l.len() + 1).sum::<usize>() + col
}

/// The text of the innermost open bracket's argument, and the called name.
fn open_call(source: &str, line: usize, col: usize) -> Option<(String, String)> {
    let before = &source[..offset_in(source, line, col)];
    let mut depth = 0;
    let mut comma: Option<usize> = None;
    for (i, c) in before.char_indices().rev() {
        match c {
            ')' | '}' => depth += 1,
            '{' if depth == 0 => return None,
            '{' => depth -= 1,
            ',' if depth == 0 && comma.is_none() => comma = Some(i + 1),
            '(' if depth == 0 => {
                let head = &before[..i];
                let start = head.rfind(|c| !is_word(c)).map(|k| k + 1).unwrap_or(0);
                let arg = before[comma.unwrap_or(i + 1)..].to_string();
                return if start < i { Some((head[start..].to_string(), arg)) } else { None };
            }
            '(' => depth -= 1,
            _ => {}
        }
    }
    None
}

fn find_enclosing_call(source: &str, line: usize, col: usize) -> Option<String> {
    open_call(source, line, col).map(|(name, _)| name)
}

fn named_arg_value(source: &str, line: usize, col: usize) -> Option<(String, String)> {
    let (_, arg) = open_call(source, line, col)?;
    let (name, value) = arg.split_once('=')?;
    Some((name.trim().to_string(), value.trim_start().to_string()))
}

fn member_receiver_at(source: &str, line: usize, col: usize) -> Option<String> {
    let l = source.lines().nth(line)?;
    let before = &l[..col.min(l.len())];
    let dot = before.trim_end_matches(is_word).strip_suffix('.')?;
    let start = dot.rfind(|c| !is_word(c)).map(|i| i + 1).unwrap_or(0);
    if start < dot.len() {
        Some(dot[start..].to_string())
    } else {
        None
    }
}

fn asset_ref_at(source: &str, line: usize, col: usize) -> Option<AssetRef> {
    let l = source.lines().nth(line)?;
    for (i, c) in l.char_indices() {
        if c == '$' {
            let len = l[i + 1..]
                .find(|c: char| !(is_word(c) || c == '/' || c == '.' || c == '-'))
                .unwrap_or(l.len() - i - 1);
            if i <= col && col <= i + len {
                let path = l[i + 1..i + 1 + len].to_string();
                let is_file = path.starts_with('.') || path.starts_with('/');
                return Some(AssetRef { path, is_file });
            }
        }
    }
    None
}

fn site(source: &str, line: usize, col: usize) -> Site {
    let asset = asset_ref_at(source, line, col);
    let resolved = match asset.as_ref().map(|a| prefab_target(&a.path)) {
        Some(PrefabTarget::Beside(p)) | Some(PrefabTarget::Absolute(p)) => p,
        None => String::new(),
    };
    Site {
        word: word_at(source, line, col),
        call: find_enclosing_call(source, line, col),
        asset,
        resolved,
        disk: OnDisk::Missing,
    }
}

fn cursor(source: &str, line: usize, col: usize) -> CursorSite {
    CursorSite {
        receiver: member_receiver_at(source, line, col),
        call: find_enclosing_call(source, line, col),
        argument: named_arg_value(source, line, col),
    }
}

fn no_estimates() -> Estimates {
    Estimates { scopes: AssocMap::new(), decls: AssocMap::new() }
}

fn card_in(source: &str, file: &str, loader: &MemLoader, line: usize, col: usize) -> Option<String> {
    let cat = catalog();
    let resolved = resolve_with(source, file, loader);
    let tc = typecheck(&resolved.ast, file, &cat);
    let symbols = collect_symbols(&resolved.ast, &tc.type_of_expr);
    hover_at(
        source,
        file,
        &symbols,
        &tc.type_of_expr,
        &resolved.doc_comments,
        &tc.if_contexts,
        &tc.var_read_contexts,
        &no_estimates(),
        &site(source, line, col),
        &cat,
        &gate_docs(),
        line,
        col,
    )
}

fn hover_for(source: &str, line: usize, col: usize) -> Option<String> {
    card_in(source, "test", &mem(&[]), line, col)
}

fn hover_value(source: &str, line: u32, col: u32) -> Option<String> {
    let card = card_in(source, "editor", &mem(&[]), line as usize, col as usize);
    hover(card).map(|h| h.value)
}

// ---------- completion ----------

fn record_field_names(ty: &str) -> Option<Vec<String>> {
    let inner = ty.strip_prefix('{')?.strip_suffix('}')?;
    let names = wirescript::analysis::fields::split_record_fields(inner)
        .iter()
        .filter_map(|p| p.split_once(':').map(|(n, _)| n.trim().to_string()))
        .collect();
    Some(names)
}

fn param_names(sig: &str) -> Option<Vec<String>> {
    let inner = sig.strip_prefix('(')?;
    let inner = &inner[..inner.find(')')?];
    Some(
        wirescript::analysis::fields::split_record_fields(inner)
            .iter()
            .filter_map(|p| p.split_once(':').map(|(n, _)| n.trim().to_string()))
            .collect(),
    )
}

fn facts(ty: &str, cat: &Catalog) -> TypeFacts {
    let swizzle: &[&str] = match ty {
        "vector" => &["x", "y", "z"],
        "color" => &["r", "g", "b", "a"],
        _ => &[],
    };
    let family = ty == "character" || ty == "controller";
    let methods = cat
        .calls
        .iter()
        .filter(|c| match &c.receiver {
            Some(r) => type_str(r) == ty || (family && matches!(r, Type::Entity)),
            None => false,
        })
        .map(|c| (c.name.clone(), format!("{}()", c.name)))
        .collect();
    TypeFacts {
        ty: ty.to_string(),
        fields: record_field_names(ty),
        swizzle: swizzle.iter().map(|s| s.to_string()).collect(),
        methods,
        params: param_names(ty),
    }
}

fn tables(symbols: &[SymbolDef], cat: &Catalog) -> Tables {
    Tables {
        types: symbols.iter().filter_map(|s| s.ty.as_deref()).map(|t| facts(t, cat)).collect(),
        assets: vec![
            ("BRItemBase".to_string(), vec!["Weapon_Pistol".to_string()]),
            ("BrickAudioDescriptor".to_string(), vec!["BA_MUS".to_string()]),
        ],
        enums: vec![EnumField {
            class: "DisplayTextGate".to_string(),
            port: "justifyPort".to_string(),
            values: vec!["Left".to_string(), "Center".to_string()],
        }],
    }
}

fn symbols_for(source: &str, file: &str) -> Vec<SymbolDef> {
    let resolved = resolve_with(source, file, &mem(&[]));
    let tc = typecheck(&resolved.ast, file, &catalog());
    collect_symbols(&resolved.ast, &tc.type_of_expr)
}

fn items(source: &str, line: usize, col: usize, prefabs: &[String]) -> Vec<CompletionItem> {
    let cat = catalog();
    let symbols = symbols_for(source, "test");
    let t = tables(&symbols, &cat);
    let at = cursor(source, line, col);
    build_completions(source, &symbols, &cat, &t, &at, line, col, &prefabs.to_vec())
}

fn labels(source: &str, line: usize, col: usize) -> Vec<String> {
    items(source, line, col, &[]).into_iter().map(|i| i.label).collect()
}

fn web_items(source: &str, line: usize, col: usize, prefabs: &[String]) -> Vec<CompletionOut> {
    let cat = catalog();
    let symbols = symbols_for(source, "editor");
    let t = tables(&symbols, &cat);
    let at = cursor(source, line, col);
    completions(source, &symbols, &cat, &t, &at, line, col, &prefabs.to_vec())
}

fn web_diagnostics(source: &str, files: &[(&str, &str)]) -> Vec<(String, String)> {
    let resolved = resolve_with(source, "editor", &mem(files));
    let tc = typecheck(&resolved.ast, "editor", &catalog());
    diagnostics(&resolved.diagnostics, &tc.diagnostics, "editor")
        .into_iter()
        .map(|d| (d.code, d.message))
        .collect()
}

// ---------- checking scripts ----------

#[test]
fn use_before_declaration_is_ws021() {
    let r = tc("mod caller() { let x = target(1) }\nmod target(n: int) -> int { return n }");
    assert!(
        r.diagnostics.iter().any(|d| d.code == "WS021"),
        "use-before-declaration must emit WS021; got {:?}",
        r.diagnostics
    );
}

#[test]
fn declaration_before_use_no_ws021() {
    let r = tc("mod target(n: int) -> int { return n }\nmod caller() { let x = target(1) }");
    assert!(
        !r.diagnostics.iter().any(|d| d.code == "WS021"),
        "declaration-before-use must NOT emit WS021; got {:?}",
        r.diagnostics
    );
}

#[test]
fn random_is_polymorphic_on_prim_math_variant() {
    let r = tc("in a: vector\nin b: vector\nin c1: color\nin c2: color\nvar rv: vector = Vec(0.0, 0.0, 0.0)\nvar rc: color = ColorHex(\"#000000\")\nin go: exec\non go {\n  rv = Random(a, b)\n  rc = Random(c1, c2)\n}");
    assert_no_diags(&r);
}

#[test]
fn random_int_stays_int() {
    let ok = tc("var n: int = 0\nin go: exec\non go { n = Random(1, 10) }");
    assert_no_diags(&ok);
    let bad = tc("var v: vector = Vec(0.0, 0.0, 0.0)\nin go: exec\non go { v = Random(1, 10) }");
    assert!(
        bad.diagnostics.iter().any(|d| d.severity == Severity::Error),
        "Random(int, int) is int and must not assign into a vector var; got {:?}",
        bad.diagnostics
    );
}

#[test]
fn asset_in_array_initializer_warns_ws024() {
    let r = tc(
        "array songs: entity[] = [$BrickAudioDescriptor/BA_MUS_Component_Basil_CoffeeShop]",
    );
    assert!(
        r.diagnostics
            .iter()
            .any(|d| d.code == "WS024" && d.severity == Severity::Warning),
        "asset in array initializer should warn WS024; got {:?}",
        r.diagnostics
    );
    let ok = tc("array nums: int[] = [1, 2, 3]");
    assert!(
        !ok.diagnostics.iter().any(|d| d.code == "WS024"),
        "constant array initializer must not warn; got {:?}",
        ok.diagnostics
    );
}

#[test]
fn wrong_arg_count_is_ws022() {
    let too_few = tc("mod f(a: int, b: int) -> int { return a + b }\nin z: exec\non z { let x = f(1) }");
    assert!(
        too_few.diagnostics.iter().any(|d| d.code == "WS022"),
        "too-few args must emit WS022; got {:?}",
        too_few.diagnostics
    );
    let too_many =
        tc("mod g(a: int) -> int { return a }\nin z: exec\non z { let x = g(1, 2) }");
    assert!(
        too_many.diagnostics.iter().any(|d| d.code == "WS022"),
        "too-many args must emit WS022; got {:?}",
        too_many.diagnostics
    );
}

#[test]
fn correct_arg_count_no_ws022() {
    let ok = tc("mod f(a: int, b: int) -> int { return a + b }\nin z: exec\non z { let x = f(1, 2) }");
    assert!(
        !ok.diagnostics.iter().any(|d| d.code == "WS022"),
        "matching arity must NOT emit WS022; got {:?}",
        ok.diagnostics
    );
}

#[test]
fn empty_script() {
    let r = tc("");
    assert_no_diags(&r);
}

#[test]
fn var_int_init() {
    assert_no_diags(&tc("var x: int = 0"));
}

#[test]
fn var_float_int_mismatch_coerces() {
    assert_no_diags(&tc("var x: float = 1"));
}

#[test]
fn var_string_annotation_ok() {
    assert_no_diags(&tc("var x: string = \"hi\""));
}

#[test]
fn var_string_inferred_ok() {
    assert_no_diags(&tc("var x = \"hello\""));
}

#[test]
fn var_string_inferred_usable_as_string() {
    assert_no_diags(&tc("var s = \"\"\nout r = s == \"ready\""));
}

#[test]
fn var_int_inferred_usable_in_math() {
    assert_no_diags(&tc("var n = 0\nout d = n + 1"));
}

#[test]
fn var_float_inferred_usable_in_math() {
    assert_no_diags(&tc("var f = 1.5\nout d = f * 2.0"));
}

#[test]
fn var_bool_inferred_usable_in_logic() {
    assert_no_diags(&tc("var b = true\nout d = b && false"));
}

#[test]
fn var_negative_literal_inferred() {
    assert_no_diags(&tc("var n = -5\nout d = n + 1"));
}

#[test]
fn var_nonliteral_init_refines_type() {
    assert_no_diags(&tc(
        "var v = Vec(1.0, 2.0, 3.0)\nout d = v + Vec(0.0, 0.0, 1.0)",
    ));
}

#[test]
fn handler_local_var_inferred() {
    assert_no_diags(&tc(
        "on RoundStart { var v = Vec(1.0, 2.0, 3.0)\n let w = v + v }",
    ));
}

#[test]
fn var_inferred_type_catches_mismatch() {
    let r = tc("var n = 0\non RoundStart { n = Vec(1.0, 1.0, 1.0) }");
    assert!(
        r.diagnostics.iter().any(|d| d.code == "WS003"),
        "vector into inferred int var should be WS003, got {:?}",
        r.diagnostics
    );
}

#[test]
fn let_string_annotation_accepts_numeric() {
    assert_no_diags(&tc("let s: string = 5"));
}

#[test]
fn let_string_annotation_accepts_entity_family() {
    assert_no_diags(&tc("in c: controller\nlet msg: string = c"));
}

#[test]
fn concat_casts_character_to_string() {
    assert_no_diags(&tc("in p: character\nout s = \"hi \" .. p"));
}

#[test]
fn vector_array_init_elements_are_constants() {
    assert_no_diags(&tc(
        "array pts: vector[] = [Vec(0.0, 0.0, 0.0), Vec(1.0, 2.0, 3.0)]",
    ));
}

#[test]
fn var_array_of_vectors_infers_element_type() {
    assert_no_diags(&tc("var pts = [Vec(1.0, 1.0, 1.0)]"));
}

#[test]
fn color_var_inferred_and_reassignable() {
    assert_no_diags(&tc(
        "var tint = Color(1.0, 0.0, 0.0)\non RoundStart { tint = Color(0.0, 1.0, 0.0) }",
    ));
}

#[test]
fn color_var_rejects_vector_assignment() {
    let r = tc("var tint = Color(1.0, 0.0, 0.0)\non RoundStart { tint = Vec(1.0, 1.0, 1.0) }");
    assert!(
        r.diagnostics.iter().any(|d| d.code == "WS003"),
        "vector into color var should be WS003, got {:?}",
        r.diagnostics
    );
}

#[test]
fn var_string_in_handler_ok() {
    assert_no_diags(&tc("on RoundStart { var x: string = \"hi\" }"));
}

#[test]
fn let_string_is_fine() {
    let r = tc("let x = \"hello\"");
    assert_no_diags(&r);
}

#[test]
fn unknown_event_diag() {
    let r = tc("on Bogus { }");
    assert!(r.diagnostics.iter().any(|d| d.code == "WS001"));
}

#[test]
fn known_event_no_diag() {
    let r = tc("on RoundStart { }");
    assert_no_diags(&r);
}

#[test]
fn expr_trigger_bool_and_compiles() {
    let src = "in a: bool\nin b: bool\nvar x: int = 0\non a && b { x = 1 }";
    assert_no_diags(&tc(src));
}

#[test]
fn handler_event_param_typed() {
    let r = tc("on CharacterDied(c) { }");
    assert_no_diags(&r);
}

#[test]
fn assignment_in_handler_ok() {
    let r = tc("var n: int = 0\non RoundStart { n = n + 1 }");
    assert!(r.diagnostics.is_empty(), "diags: {:?}", r.diagnostics);
}

#[test]
fn assignment_outside_exec_diag() {
    let r = tc("var n: int = 0\nn = 1");
    assert!(r.diagnostics.iter().any(|d| d.code == "WS007"));
}

#[test]
fn unknown_var_emits_diag() {
    let r = tc("on RoundStart { x = 1 }");
    assert!(r.diagnostics.iter().any(|d| d.code == "WS002"));
}

#[test]
fn namespace_call_with_undefined_base_is_ws002() {
    let r = tc("mod drawLobby(n: int) { }\non RoundStart { card.drawLobby(1) }");
    assert!(
        r.diagnostics
            .iter()
            .any(|d| d.code == "WS002" && d.message.contains("card")),
        "undefined namespace base must emit WS002; got {:?}",
        r.diagnostics
    );
}

#[test]
fn return_in_handler_no_error() {
    let r = tc("var x: int = 0\non RoundStart { x = 1\nreturn\nx = 2 }");
    assert_no_diags(&r);
}

#[test]
fn return_in_exec_no_error() {
    let r = tc("var x: int = 0\non RoundStart { if x > 5 { return } }");
    assert_no_diags(&r);
}

#[test]
fn not_on_int_no_error() {
    let r = tc("var x: int = 0\nlet y = !x");
    assert_no_diags(&r);
}

#[test]
fn interp_ref_var_no_error() {
    let r = tc("var x: int = 0\nlet s = \"value: ${x}\"");
    assert_no_diags(&r);
}

#[test]
fn chip_single_output_pure() {
    let r = tc(
        "chip Foo(x: int) -> (result: int) {\n  out result = x * 2\n}\nlet f = Foo(21)\nlet ok = f == 42",
    );
    assert_no_diags(&r);
}

#[test]
fn chip_single_output_exec() {
    let r = tc(
        "chip Foo(x: int) -> (result: int) {\n  out result = x * 2\n}\nlet f = Foo(21)\nvar err: int = 0\non RoundStart {\n  if f != 42 { err = 1 }\n}",
    );
    assert_no_diags(&r);
}

#[test]
fn chip_single_output_field_access_compat() {
    let r = tc(
        "chip Foo(x: int) -> (result: int) {\n  out result = x * 2\n}\nlet f = Foo(21)\nlet ok = f.result",
    );
    assert_no_diags(&r);
}

#[test]
fn buffer_decl() {
    let r = tc("var x: int = 0\nbuffer prev: int = x");
    assert_no_diags(&r);
}

#[test]
fn buffer_inferred_type() {
    let r = tc("var x: int = 0\nbuffer prev = x + 1");
    assert_no_diags(&r);
}

#[test]
fn mod_decl_no_error() {
    let r = tc("mod inc(v: *int) { v = v + 1 }");
    assert_no_diags(&r);
}

#[test]
fn mod_call_in_exec() {
    let r = tc("var x: int = 0\nmod inc(v: *int) { v = v + 1 }\non RoundStart { inc(x) }");
    assert_no_diags(&r);
}

#[test]
fn anon_chip_shares_scope() {
    let r = tc("var x: int = 0\nchip { var y: int = 0 }\non RoundStart { x = 1 }");
    assert_no_diags(&r);
}

#[test]
fn chip_on_handler() {
    let r = tc("var x: int = 0\nchip on RoundStart { x = 1 }");
    assert_no_diags(&r);
}

#[test]
fn emit_in_exec() {
    let r = tc("var x: int = 0\nout result = x\non RoundStart { emit result }");
    assert_no_diags(&r);
}

#[test]
fn bool_literal() {
    let r = tc("var x: bool = true\nvar y: bool = false");
    assert_no_diags(&r);
}

#[test]
fn chip_exec_param_trigger() {
    let r = tc(
        "chip Counter(bump: exec, reset: exec) -> (value: int) {\n  var n: int = 0\n  on bump { n = n + 1 }\n  on reset { n = 0 }\n  out value = n.Value\n}",
    );
    assert_no_diags(&r);
}

#[test]
fn character_coerces_to_entity() {
    let r = tc("in ch: character\non RoundStart { ch.SetLocation(Vec(0.0, 0.0, 0.0)) }");
    assert_no_diags(&r);
}

#[test]
fn call_too_many_args() {
    let r = tc("on RoundStart { Random(1, 2, 3, 4, 5) }");
    assert!(r.diagnostics.iter().any(|d| d.code == "WS011"));
}

#[test]
fn call_wrong_arg_type() {
    let r = tc("on RoundStart { SetLocation(42, Vec(0.0, 0.0, 0.0)) }");
    assert!(
        r.diagnostics
            .iter()
            .any(|d| d.code == "WS003" && d.message.contains("argument"))
    );
}

#[test]
fn chip_let_pure_context() {
    let r = tc("var x: int = 0\nchip let doubled = x * 2");
    assert_no_diags(&r);
}

#[test]
fn receiver_call_method() {
    let r = tc("var ctrl: controller\non RoundStart { ctrl.DisplayText(\"hi\") }");
    assert_no_diags(&r);
}

#[test]
fn entity_receiver_accepts_character_controller_methods() {
    let r = tc("in e: entity\nin t: exec\non t { e.ShowStatusMessage(\"hi\") }");
    assert_no_diags(&r);
    let r2 = tc("in e: entity\nin t: exec\non t { ShowStatusMessage(e, \"hi\") }");
    assert_no_diags(&r2);
}

#[test]
fn array_index_returns_element_type() {
    let r = tc(
        "array items: int[]\nin trigger: exec\non trigger { let x = items[0]\nlet ok = x + 1 }",
    );
    assert_no_diags(&r);
}

#[test]
fn array_index_outside_exec_is_ws007() {
    let r = tc("array items: int[]\nlet x = items[0]");
    assert!(
        r.diagnostics.iter().any(|d| d.code == "WS007"),
        "expected WS007 for array index read outside exec context"
    );
}

#[test]
fn array_param_index() {
    let r = tc("mod process(arr: int[], idx: int) {\n  let old = arr[idx]\n  out r = old\n}");
    assert_no_diags(&r);
}

#[test]
fn array_param_index_dot_value() {
    let r =
        tc("mod process(arr: int[], idx: int) {\n  let old = arr[idx].value\n  out r = old\n}");
    assert_no_diags(&r);
}

#[test]
fn array_push_pop() {
    let r =
        tc("array items: int[]\nin trigger: exec\non trigger { items.push(1)\nitems.pop() }");
    assert_no_diags(&r);
}

#[test]
fn if_expr_ternary() {
    let r = tc("var x: int = 0\nlet y = if x > 0 then 1 else 0");
    assert_no_diags(&r);
}

#[test]
fn string_interp_multiple() {
    let r = tc("var a: int = 1\nvar b: float = 2.0\nlet s = \"a=${a} b=${b}\"");
    assert_no_diags(&r);
}

#[test]
fn numeric_literal_bases() {
    let r = tc("var a: int = 0xFF\nvar b: int = 0b1010\nvar c: int = 0o77");
    assert_no_diags(&r);
}

#[test]
fn type_alias_record() {
    let r = tc("type Point = { x: int, y: int }");
    assert_no_diags(&r);
}

#[test]
fn record_literal_typed() {
    let r = tc("type Point = { x: int, y: int }\nlet p: Point = { x: 1, y: 2 }");
    assert_no_diags(&r);
}

#[test]
fn record_field_access() {
    let r = tc(
        "type Point = { x: int, y: int }\nlet p: Point = { x: 1, y: 2 }\nlet sum = p.x + p.y",
    );
    assert_no_diags(&r);
}

#[test]
fn record_shorthand() {
    let r =
        tc("type Point = { x: int, y: int }\nlet x = 1\nlet y = 2\nlet p: Point = { x, y }");
    assert_no_diags(&r);
}

#[test]
fn record_spread() {
    let r = tc(
        "type Point = { x: int, y: int }\nlet a: Point = { x: 1, y: 2 }\nlet b: Point = { ...a, y: 99 }",
    );
    assert_no_diags(&r);
}

#[test]
fn record_destructure() {
    let r = tc(
        "type Point = { x: int, y: int }\nlet p: Point = { x: 1, y: 2 }\nlet { x, y } = p\nlet sum = x + y",
    );
    assert_no_diags(&r);
}

#[test]
fn record_as_mod_param() {
    let r = tc(
        "type Point = { x: int, y: int }\nmod sum(p: Point) -> (r: int) { return p.x + p.y }\nlet p: Point = { x: 3, y: 4 }\nlet s = sum(p)",
    );
    assert_no_diags(&r);
}

#[test]
fn mod_param_record_destruct() {
    let r = tc(
        "type Point = { x: int, y: int }\nmod add({ x, y }: Point) -> int { return x + y }\nlet p: Point = { x: 3, y: 4 }\nlet sum = add(p)",
    );
    assert_no_diags(&r);
}


// ---------- imports ----------

#[test]
fn import_all() {
    let loader = mem(&[("lib.ws", "mod foo(x: *int) { x = x + 1 }")]);
    let r = resolve_with(r#"import "lib""#, "main.ws", &loader);
    assert!(
        !r.diagnostics
            .iter()
            .any(|d| d.severity == Severity::Error),
        "errors: {:?}",
        r.diagnostics
    );
    assert!(
        r.ast
            .decls
            .iter()
            .any(|d| matches!(d, TopDecl::Chip(c) if c.name == "foo"))
    );
}

#[test]
fn import_named() {
    let loader = mem(&[(
        "lib.ws",
        "mod foo(x: *int) { x = x + 1 }\nmod bar(x: *int) { x = x - 1 }",
    )]);
    let r = resolve_with(r#"import { foo } from "lib""#, "main.ws", &loader);
    assert!(
        !r.diagnostics
            .iter()
            .any(|d| d.severity == Severity::Error),
        "errors: {:?}",
        r.diagnostics
    );
    assert!(
        r.ast
            .decls
            .iter()
            .any(|d| matches!(d, TopDecl::Chip(c) if c.name == "foo"))
    );
    assert!(
        !r.ast
            .decls
            .iter()
            .any(|d| matches!(d, TopDecl::Chip(c) if c.name == "bar"))
    );
}

#[test]
fn import_alias() {
    let loader = mem(&[("lib.ws", "mod foo(x: *int) { x = x + 1 }")]);
    let r = resolve_with(r#"import { foo as inc } from "lib""#, "main.ws", &loader);
    assert!(
        !r.diagnostics
            .iter()
            .any(|d| d.severity == Severity::Error),
        "errors: {:?}",
        r.diagnostics
    );
    assert!(
        r.ast
            .decls
            .iter()
            .any(|d| matches!(d, TopDecl::Chip(c) if c.name == "inc"))
    );
}

#[test]
fn import_namespace() {
    let loader = mem(&[("lib.ws", "mod foo(x: *int) { x = x + 1 }")]);
    let r = resolve_with(r#"import * as myLib from "lib""#, "main.ws", &loader);
    assert!(
        !r.diagnostics
            .iter()
            .any(|d| d.severity == Severity::Error),
        "errors: {:?}",
        r.diagnostics
    );
    assert!(
        r.ast
            .decls
            .iter()
            .any(|d| matches!(d, TopDecl::Namespace(n) if n.name == "myLib"))
    );
}

#[test]
fn circular_import_error() {
    let loader = mem(&[("a.ws", r#"import "b""#), ("b.ws", r#"import "a""#)]);
    let r = resolve_with(r#"import "a""#, "main.ws", &loader);
    assert!(r.diagnostics.iter().any(|d| d.message.contains("circular")));
}

#[test]
fn missing_file_error() {
    let loader = mem(&[]);
    let r = resolve_with(r#"import "nonexistent""#, "main.ws", &loader);
    assert!(
        r.diagnostics
            .iter()
            .any(|d| d.message.contains("cannot resolve"))
    );
}

#[test]
fn missing_symbol_error() {
    let loader = mem(&[("lib.ws", "mod foo(x: *int) { x = x + 1 }")]);
    let r = resolve_with(r#"import { bar } from "lib""#, "main.ws", &loader);
    assert!(
        r.diagnostics
            .iter()
            .any(|d| d.message.contains("not found"))
    );
}

#[test]
fn var_and_mod_both_importable() {
    let loader = mem(&[("lib.ws", "var x: int = 0\nmod foo(x: *int) { x = x + 1 }")]);
    let r = resolve_with(r#"import "lib""#, "main.ws", &loader);
    assert!(
        !r.diagnostics
            .iter()
            .any(|d| d.severity == Severity::Error),
        "errors: {:?}",
        r.diagnostics
    );
    assert!(r.ast.decls.iter().any(|d| matches!(d, TopDecl::Var(v) if v.name == "x")));
    assert!(
        r.ast
            .decls
            .iter()
            .any(|d| matches!(d, TopDecl::Chip(c) if c.name == "foo"))
    );
}

#[test]
fn implicit_ws_extension() {
    let loader = mem(&[("utils.ws", "fn double(x: int) -> int = x * 2")]);
    let r = resolve_with(r#"import "utils""#, "main.ws", &loader);
    assert!(
        !r.diagnostics
            .iter()
            .any(|d| d.severity == Severity::Error),
        "errors: {:?}",
        r.diagnostics
    );
    assert!(
        r.ast
            .decls
            .iter()
            .any(|d| matches!(d, TopDecl::Fn(f) if f.name == "double"))
    );
}

#[test]
fn type_import_used_in_param_not_unused() {
    let loader = mem(&[(
        "types.ws",
        "type Cpu = { regs: int[], cpsr: *int }",
    )]);
    let r = resolve_with(
        "import { Cpu } from \"types\"\nmod foo(cpu: Cpu) { cpu.regs.push(0) }",
        "main.ws",
        &loader,
    );
    let ws014: Vec<_> = r.diagnostics.iter().filter(|d| d.code == "WS014").collect();
    assert!(
        ws014.is_empty(),
        "type used in param annotation should not trigger unused import: {:?}",
        ws014
    );
}

#[test]
fn import_var_alias_renames() {
    let loader = mem(&[("lib.ws", "var counter: int = 0")]);
    let r = resolve_with(
        "import { counter as cnt } from \"lib\"",
        "main.ws",
        &loader,
    );
    assert!(
        !r.diagnostics.iter().any(|d| d.severity == Severity::Error),
        "errors: {:?}", r.diagnostics
    );
    assert!(
        r.ast.decls.iter().any(|d| matches!(d, TopDecl::Var(v) if v.name == "cnt")),
        "var should be renamed to 'cnt'"
    );
}

#[test]
fn transitive_import_decls_precede_importing_files_own_decls() {
    let loader = mem(&[
        ("util.ws", "mod helper(x: *int) { x = x + 1 }"),
        (
            "game.ws",
            "import \"util\"\nmod game_step(x: *int) { helper(x) }",
        ),
        ("container.ws", "import \"game\""),
    ]);
    let r = resolve_with(
        "import \"container\"\nvar n: int = 0\nin go: exec\non go { game_step(n) }",
        "main.ws",
        &loader,
    );
    assert!(
        !r.diagnostics
            .iter()
            .any(|d| d.severity == Severity::Error),
        "errors: {:?}",
        r.diagnostics
    );
    let pos = |name: &str| {
        r.ast
            .decls
            .iter()
            .position(|d| decl_name(d) == Some(name))
            .unwrap_or_else(|| panic!("'{name}' missing from resolved decls"))
    };
    assert!(
        pos("helper") < pos("game_step"),
        "'helper' must precede its caller 'game_step'; decls: {:?}",
        r.ast.decls.iter().filter_map(decl_name).collect::<Vec<_>>()
    );
    let tc = typecheck(&r.ast, "main.ws", &catalog());
    assert!(
        !tc.diagnostics.iter().any(|d| d.code == "WS021"),
        "transitive import must not produce use-before-declaration: {:?}",
        tc.diagnostics
    );
}

#[test]
fn type_alias_not_leaked_transitively() {
    let loader = mem(&[
        ("types.ws", "type Cpu = { regs: int[], cpsr: *int }"),
        ("cpu.ws", "import { Cpu } from \"types\"\nmod cpu_init(cpu: Cpu) { cpu.regs.push(0) }"),
    ]);
    let r = resolve_with(
        "import { cpu_init } from \"cpu\"",
        "main.ws",
        &loader,
    );
    let has_type_alias = r.ast.decls.iter().any(|d| matches!(d, TopDecl::TypeAlias(t) if t.name == "Cpu"));
    assert!(
        !has_type_alias,
        "TypeAlias 'Cpu' should NOT be pulled transitively into the importing file's AST"
    );
}

#[test]
fn record_let_pulls_array_deps_and_expands_let_annotation() {
    let loader = mem(&[(
        "lib.ws",
        "let X = 7\n\
         type Tables = { vals: int[] }\n\
         array vals: int[]\n\
         let TB: Tables = { vals: vals }\n\
         mod bump(tables: Tables, v: int) {\n  tables.vals.push(v + X)\n}\n\
         chip Init(init: exec, tables: Tables) -> (code: int) {\n  on init {\n    bump(tables, X)\n    emit code = X\n  }\n}\n",
    )]);
    let src = "import { Init, TB } from \"lib\"\nin reset: exec\nlet R = Init(reset, TB)\nout v = R.code";
    let r = resolve_with(src, "main.ws", &loader);
    assert!(
        r.diagnostics.is_empty(),
        "resolve diags: {:?}",
        r.diagnostics
    );
    let tc = typecheck(&r.ast, "main.ws", &catalog());
    let errors: Vec<_> = tc
        .diagnostics
        .iter()
        .filter(|d| d.severity == Severity::Error)
        .collect();
    assert!(errors.is_empty(), "typecheck errors: {errors:?}");
}


// ---------- hover cards ----------

#[test]
fn record_type_field_doc_comment_shows_on_hover() {
    let src = "type Point = {\n  /// the x coordinate\n  x: int,\n  y: int,\n}";
    let col_x = src.lines().nth(2).unwrap().find('x').unwrap();
    let hx = hover_for(src, 2, col_x).expect("hover on documented field x");
    assert!(hx.contains("Point.x: int"), "field type missing: {hx}");
    assert!(hx.contains("the x coordinate"), "field doc missing: {hx}");
    let col_y = src.lines().nth(3).unwrap().find('y').unwrap();
    let hy = hover_for(src, 3, col_y).expect("hover on field y");
    assert!(hy.contains("Point.y: int"), "y type missing: {hy}");
    assert!(!hy.contains("coordinate"), "y should have no doc: {hy}");
}

#[test]
fn destructured_mod_param_shows_type() {
    let src = "\
type State = { counter: *int, step: int }
mod bump({ counter, step }: State) { counter = counter + step }";
    let h = hover_for(src, 1, 11);
    assert!(h.is_some(), "hover on destructured param 'counter' should return something");
    let text = h.unwrap();
    assert!(
        text.contains("*int"),
        "hover should show *int for counter, got: {text}"
    );

    let h2 = hover_for(src, 1, 20);
    assert!(h2.is_some(), "hover on destructured param 'step' should return something");
    let text2 = h2.unwrap();
    assert!(
        text2.contains("int") && !text2.contains("*int"),
        "hover should show int for step, got: {text2}"
    );
}

#[test]
fn named_arg_value_sharing_param_name_hovers_as_symbol() {
    let src = "let delay = 1.0\non RoundStart { await Sleep(_, delay = delay) }";
    let line1 = src.lines().nth(1).unwrap();
    let lhs = line1.find("delay").unwrap();
    let rhs = line1.rfind("delay").unwrap();

    let hl = hover_for(src, 1, lhs).expect("hover on the arg name should return something");
    assert!(
        hl.starts_with("**"),
        "arg-name hover should be the named-param docs, got: {hl}"
    );
    let hr = hover_for(src, 1, rhs).expect("hover on the value should return something");
    assert!(
        hr.contains("let delay"),
        "value hover must be the user symbol, not the named-param docs, got: {hr}"
    );

    let src2 = "let delay = 1.0\non RoundStart {\n  await Sleep(_,\n    delay = delay,\n  )\n}";
    let line3 = src2.lines().nth(3).unwrap();
    let hl2 = hover_for(src2, 3, line3.find("delay").unwrap())
        .expect("hover on the multi-line arg name should return something");
    assert!(
        hl2.starts_with("**"),
        "multi-line arg-name hover should be the named-param docs, got: {hl2}"
    );
    let hr2 = hover_for(src2, 3, line3.rfind("delay").unwrap())
        .expect("hover on the multi-line value should return something");
    assert!(
        hr2.contains("let delay"),
        "multi-line value hover must be the user symbol, got: {hr2}"
    );
}

#[test]
fn user_var_named_like_array_method_hovers_as_var() {
    let src = "var sum: int = 0";
    let h = hover_for(src, 0, 5).expect("hover on var 'sum' should return something");
    assert!(
        !h.contains("array.sum"),
        "hover on the variable `sum` must not show the array method, got: {h}"
    );
    assert!(
        h.contains("var sum"),
        "hover on the variable `sum` should show the variable declaration, got: {h}"
    );
}

#[test]
fn user_var_named_like_builtin_method_hovers_as_var() {
    let src = "var Teleport: int = 0";
    let h = hover_for(src, 0, 6).expect("hover on var 'Teleport' should return something");
    assert!(
        h.contains("var Teleport"),
        "hover on the variable `Teleport` should show the variable, got: {h}"
    );
}

#[test]
fn builtin_call_in_call_position_still_hovers() {
    let src = "in t: exec\non t { PrintToConsole(\"hi\") }";
    let h = hover_for(src, 1, 10).expect("hover on PrintToConsole call should return");
    assert!(
        h.contains("PrintToConsole"),
        "call-position builtin should still hover, got: {h}"
    );
}

#[test]
fn array_method_access_still_hovers_as_method() {
    let src = "\
array fa: int[] = [5, 10, 15]
on load { let s = fa.sum() }";
    let h = hover_for(src, 1, 21).expect("hover on `.sum` should return something");
    assert!(
        h.contains("array.sum"),
        "hover on `fa.sum()` should show the array method, got: {h}"
    );
}

#[test]
fn record_field_hover() {
    let src = "\
type Point = { x: int, y: int }
let p: Point = { x: 1, y: 2 }
let v = p.x";
    let h = hover_for(src, 2, 10);
    assert!(h.is_some(), "hover on record field 'x' should return something");
    let text = h.unwrap();
    assert!(
        text.contains("int"),
        "hover on p.x should show int, got: {text}"
    );
}

#[test]
fn prefab_file_reference_hover() {
    let src = "let p = $./prefab_1x1.brz";
    for col in [8usize, 12, 24] {
        let h = hover_for(src, 0, col);
        assert!(h.is_some(), "hover on prefab ref at col {col} should return");
        let text = h.unwrap();
        assert!(
            text.contains("Prefab file reference") && text.contains("Resolves to"),
            "col {col} got: {text}"
        );
    }
}

#[test]
fn asset_reference_hover() {
    let src = "let w = $Weapon/Sword";
    let h = hover_for(src, 0, 11).expect("hover on asset ref should return");
    assert!(
        h.contains("Asset reference") && h.contains("Weapon") && h.contains("Sword"),
        "got: {h}"
    );
}

#[test]
fn call_result_field_access_hover_shows_field_type() {
    let src = "array ids: string[]
chip a(uid: string) -> int {
  return if ids.find(uid).Found then 1 else 0
}";
    let line2 = src.lines().nth(2).unwrap();
    let col = line2.find("Found").unwrap();
    let h = hover_for(src, 2, col).expect("hover on .Found should return something");
    assert!(
        h.contains("field Found: bool"),
        "call-result field hover should type from the record, got: {h}"
    );
}

#[test]
fn record_destructured_let_hover_shows_field_types() {
    let src = "array ids: string[]
chip a(uid: string) -> int {
  let { Found, Index } = ids.find(uid)
  return if Found then Index else -1
}";
    let line2 = src.lines().nth(2).unwrap();
    let h = hover_for(src, 2, line2.find("Found").unwrap()).expect("hover on Found");
    assert!(h.contains("bool"), "destructured Found should be bool, got: {h}");
    let h2 = hover_for(src, 2, line2.find("Index").unwrap()).expect("hover on Index");
    assert!(h2.contains("int"), "destructured Index should be int, got: {h2}");
    let line3 = src.lines().nth(3).unwrap();
    let h3 = hover_for(src, 3, line3.find("Found").unwrap()).expect("hover on Found use");
    assert!(h3.contains("bool"), "Found usage should be bool, got: {h3}");
}


// ---------- server completions ----------

#[test]
fn completion_includes_builtin_events() {
    let ls = labels("", 0, 0);
    assert!(ls.iter().any(|l| l == "ChatCommand"), "ChatCommand missing: {ls:?}");
    assert!(ls.iter().any(|l| l == "RoundStart"), "RoundStart missing");
    assert!(ls.iter().any(|l| l == "CharacterSpawned"), "CharacterSpawned missing");
    assert!(ls.iter().any(|l| l == "GetAim"), "GetAim function missing");
}

#[test]
fn asset_ref_completes_types_then_names() {
    let src = "let w = $";
    let ls = labels(src, 0, 9);
    assert!(ls.iter().any(|l| l == "BRItemBase"), "asset type missing: {ls:?}");
    assert!(ls.iter().any(|l| l == "BrickAudioDescriptor"), "asset type missing");
    assert!(!ls.iter().any(|l| l == "if"), "keyword leaked into $ completion");

    let src2 = "let w = $BRItemBase/";
    let ls2 = labels(src2, 0, 20);
    assert!(ls2.iter().any(|l| l == "Weapon_Pistol"), "asset name missing: {ls2:?}");
    assert!(!ls2.iter().any(|l| l == "BRItemBase"), "type leaked into name completion");
}

#[test]
fn string_dot_shows_only_string_methods() {
    let src = "let foo = \"\"\nfoo.";
    let ls = labels(src, 1, 4);
    assert!(ls.iter().any(|l| l == "Length"), "Length missing: {ls:?}");
    assert!(ls.iter().any(|l| l == "Contains"), "Contains missing: {ls:?}");
    assert!(!ls.iter().any(|l| l == "if"), "keyword leaked into member completion");
    assert!(!ls.iter().any(|l| l == "int"), "type leaked into member completion");
    assert!(!ls.iter().any(|l| l == "GetAim"), "non-string fn leaked");
    assert!(!ls.iter().any(|l| l == "ChatCommand"), "event leaked into member completion");
}

#[test]
fn array_dot_shows_full_method_set() {
    let src = "array xs: int[]\nxs.";
    let ls = labels(src, 1, 3);
    for m in ["push", "find", "sort", "insert", "append", "slice"] {
        assert!(ls.iter().any(|l| l == m), "array method {m} missing: {ls:?}");
    }
    assert!(!ls.iter().any(|l| l == "if"), "keyword leaked");
}

#[test]
fn var_array_dot_shows_array_methods() {
    let src = "var ids: string[]\nids.";
    let ls = labels(src, 1, 4);
    assert!(ls.iter().any(|l| l == "push"), "push missing on var array: {ls:?}");
    assert!(ls.iter().any(|l| l == "find"), "find missing on var array: {ls:?}");
}

#[test]
fn typed_var_dot_shows_value_and_type_methods() {
    let src = "var pos: vector = Vec(1.0, 2.0, 3.0)\npos.";
    let ls = labels(src, 1, 4);
    assert!(ls.iter().any(|l| l == "Value"), "Value missing: {ls:?}");
    assert!(ls.iter().any(|l| l == "Normalize"), "vector method missing: {ls:?}");
    assert!(ls.iter().any(|l| l == "x"), "swizzle x missing: {ls:?}");
}

#[test]
fn static_var_dot_shows_value_prev() {
    let src = "static var score: int = 0\nscore.";
    let ls = labels(src, 1, 6);
    assert!(ls.iter().any(|l| l == "Value"), "Value missing on static var: {ls:?}");
    assert!(ls.iter().any(|l| l == "prev"), "prev missing on static var: {ls:?}");
}

#[test]
fn named_record_alias_dot_completes_fields() {
    let src = "type Pos = { x: int, y: int }\nlet p: Pos = { x: 1, y: 2 }\np.";
    let ls = labels(src, 2, 2);
    assert!(ls.iter().any(|l| l == "x"), "field x missing: {ls:?}");
    assert!(ls.iter().any(|l| l == "y"), "field y missing: {ls:?}");
}

#[test]
fn user_mod_call_completes_param_names() {
    let src = "mod shift(dist: int, fast: bool) {}\non x { shift() }";
    let line = "on x { shift() }";
    let col = line.find("shift(").unwrap() + "shift(".len();
    let ls = labels(src, 1, col);
    assert!(ls.iter().any(|l| l == "dist"), "param dist missing: {ls:?}");
    assert!(ls.iter().any(|l| l == "fast"), "param fast missing: {ls:?}");
    assert!(!ls.iter().any(|l| l == "if"), "global list leaked: {ls:?}");
}

#[test]
fn builtin_all_required_call_shows_required_params() {
    let src = "let v = Vec()";
    let col = src.find("Vec(").unwrap() + "Vec(".len();
    let ls = labels(src, 0, col);
    for p in ["x", "y", "z"] {
        assert!(ls.iter().any(|l| l == p), "required param {p} missing: {ls:?}");
    }
    assert!(!ls.iter().any(|l| l == "if"), "global list leaked: {ls:?}");
}

#[test]
fn method_call_skips_receiver_param() {
    let src = "in ctrl: controller\non x { ctrl.DisplayText(\"hi\", ) }";
    let line = "on x { ctrl.DisplayText(\"hi\", ) }";
    let col = line.find("\"hi\", ").unwrap() + "\"hi\", ".len();
    let ls = labels(src, 1, col);
    assert!(ls.iter().any(|l| l.starts_with("fontSize")), "optional param missing: {ls:?}");
    assert!(!ls.iter().any(|l| l == "controller" || l == "target"), "receiver leaked: {ls:?}");
}

#[test]
fn annotation_completions_include_label_and_closed() {
    let ls = labels("", 0, 0);
    for a in ["@left", "@label", "@closed"] {
        assert!(ls.iter().any(|l| l == a), "annotation {a} missing: {ls:?}");
    }
}

#[test]
fn input_reader_field_trigger_completes_record_fields() {
    let src = "in pl: character\nlet split = pl.InputReader()\non split.";
    let ls = labels(src, 2, 9);
    for f in ["Forward", "Right", "Jump"] {
        assert!(ls.iter().any(|l| l == f), "record field {f} missing: {ls:?}");
    }
    assert!(!ls.iter().any(|l| l == "if"), "keyword leaked: {ls:?}");
}

#[test]
fn receiver_method_completes_inside_nested_call_arg() {
    let src = "in pl: character\non x { pl.AddVelocity(linear = pl.) }";
    let col = src.lines().nth(1).unwrap().find("pl.)").unwrap() + 3;
    let ls = labels(src, 1, col);
    assert!(ls.iter().any(|l| l == "GetVelocity"), "GetVelocity missing: {ls:?}");
    assert!(ls.iter().any(|l| l == "GetLocation"), "GetLocation missing: {ls:?}");
    assert!(!ls.iter().any(|l| l == "linear = "), "call param leaked: {ls:?}");
}

#[test]
fn plain_call_paren_still_shows_params() {
    let src = "in pl: character\non x { pl.DisplayText(\"hi\", ) }";
    let col = src.lines().nth(1).unwrap().find("\"hi\", ") .unwrap() + "\"hi\", ".len();
    let ls = labels(src, 1, col);
    assert!(
        ls.iter().any(|l| l.starts_with("fontSize")),
        "optional param missing: {ls:?}"
    );
}


// ---------- web editor ----------

#[test]
fn hover_var() {
    let h = hover_value("var count: int = 0", 0, 4).unwrap();
    assert!(h.contains("var count: int"), "got: {h}");
}

#[test]
fn hover_var_inferred() {
    let h = hover_value("var x = 42", 0, 4).unwrap();
    assert!(h.contains("var x"), "got: {h}");
}

#[test]
fn hover_let() {
    let h = hover_value("var x: int = 0\nlet y = x + 1", 1, 4).unwrap();
    assert!(h.contains("let y"), "got: {h}");
}

#[test]
fn hover_buffer() {
    let h = hover_value("var x: int = 0\nbuffer prev = x", 1, 7).unwrap();
    assert!(h.contains("buffer prev"), "got: {h}");
}

#[test]
fn hover_in() {
    let h = hover_value("in trigger: exec", 0, 3).unwrap();
    assert!(h.contains("in trigger: exec"), "got: {h}");
}

#[test]
fn hover_mod() {
    let h = hover_value("mod inc(v: *int) { v = v + 1 }", 0, 4).unwrap();
    assert!(h.contains("mod inc"), "got: {h}");
    assert!(h.contains("*int"), "got: {h}");
}

#[test]
fn hover_chip() {
    let h = hover_value(
        "chip Foo(x: int) -> (result: int) {\n  out result = x\n}",
        0,
        5,
    )
    .unwrap();
    assert!(h.contains("chip Foo"), "got: {h}");
}

#[test]
fn hover_fn() {
    let h = hover_value("fn double(x: int) -> int = x * 2", 0, 3).unwrap();
    assert!(h.contains("fn double"), "got: {h}");
    assert!(h.contains("int"), "got: {h}");
}

#[test]
fn hover_builtin_call() {
    let h = hover_value("var x: int = Random(0, 10)", 0, 13).unwrap();
    assert!(h.contains("Random"), "got: {h}");
}

#[test]
fn hover_display_text_has_docs() {
    let h = hover_value(
        "var ctrl: controller\non RoundStart { ctrl.DisplayText(\"hi\") }",
        1,
        21,
    )
    .unwrap();
    assert!(h.contains("DisplayText"), "got: {h}");
}

#[test]
fn hover_named_param() {
    let src =
        "var ctrl: controller\non RoundStart {\n  DisplayText(ctrl, \"hi\", fontSize = 20)\n}";
    if let Some(h) = hover_value(src, 2, 24) {
        assert!(h.contains("fontSize") || h.contains("Font"), "got: {h}");
    }
}

#[test]
fn hover_record_field() {
    let src = "in player: character\nlet input = InputReader(player)\nlet fwd = input.Forward";
    let h = hover_value(src, 2, 16).unwrap();
    assert!(h.contains("Forward") && h.contains("float"), "got: {h}");
}

#[test]
fn hover_event() {
    let h = hover_value("on RoundStart { }", 0, 3).unwrap();
    assert!(h.contains("RoundStart"), "got: {h}");
    assert!(
        h.contains("on RoundStart"),
        "hover should use `on` keyword, got: {h}"
    );
}

#[test]
fn hover_event_with_params() {
    let h = hover_value("on CharacterDied(character) { }", 0, 3).unwrap();
    assert!(h.contains("CharacterDied"), "got: {h}");
    assert!(h.contains("character"), "got: {h}");
    assert!(
        h.contains("on CharacterDied"),
        "hover should use `on` keyword, got: {h}"
    );
}

#[test]
fn hover_event_mid_name() {
    let h = hover_value("on CharacterDied(a) { }", 0, 10).unwrap();
    assert!(
        h.contains("CharacterDied"),
        "mid-name hover should show event, got: {h}"
    );
    assert!(
        h.contains("character"),
        "should show event param type, got: {h}"
    );
}

#[test]
fn hover_array_push() {
    let h = hover_value("array items: int[]\non RoundStart { items.push(1) }", 1, 22).unwrap();
    assert!(h.contains("push"), "got: {h}");
}

#[test]
fn hover_chain_vec_normalize() {
    let h = hover_value(
        "let foo = Vec(0.0, 1.0, 2.0).Normalize()\nout r = foo",
        1,
        8,
    )
    .unwrap();
    assert!(
        h.contains("vector"),
        "Vec.Normalize() should be vector, got: {h}"
    );
}

#[test]
fn hover_chain_vec_magnitude() {
    let h = hover_value(
        "let foo = Vec(1.0, 2.0, 3.0).Magnitude()\nout r = foo",
        1,
        8,
    )
    .unwrap();
    assert!(
        h.contains("float"),
        "Vec.Magnitude() should be float, got: {h}"
    );
}

#[test]
fn hover_chain_vec_dot() {
    let h = hover_value(
        "let a = Vec(1.0, 0.0, 0.0)\nlet b = Vec(0.0, 1.0, 0.0)\nlet d = a.Dot(b)\nout r = d",
        3,
        8,
    )
    .unwrap();
    assert!(h.contains("float"), "a.Dot(b) should be float, got: {h}");
}

#[test]
fn hover_chain_vec_cross() {
    let h = hover_value(
        "let a = Vec(1.0, 0.0, 0.0)\nlet c = a.Cross(Vec(0.0, 1.0, 0.0))\nout r = c",
        2,
        8,
    )
    .unwrap();
    assert!(
        h.contains("vector"),
        "a.Cross(b) should be vector, got: {h}"
    );
}

#[test]
fn hover_chain_vec_distance() {
    let h = hover_value(
        "let d = Vec(0.0, 0.0, 0.0).Distance(Vec(1.0, 1.0, 1.0))\nout r = d",
        1,
        8,
    )
    .unwrap();
    assert!(
        h.contains("float"),
        "Vec.Distance() should be float, got: {h}"
    );
}

#[test]
fn hover_chain_vec_scale() {
    let h = hover_value("let s = Vec(1.0, 2.0, 3.0).ScaleVec(2.0)\nout r = s", 1, 8).unwrap();
    assert!(
        h.contains("vector"),
        "Vec.ScaleVec() should be vector, got: {h}"
    );
}

#[test]
fn hover_chain_vec_split() {
    let h = hover_value("let p = Vec(1.0, 2.0, 3.0).SplitVec()\nout r = p", 1, 8).unwrap();
    assert!(
        h.contains("x") && h.contains("y") && h.contains("z"),
        "Vec.SplitVec() should be {{x,y,z}}, got: {h}"
    );
}

#[test]
fn hover_chain_vec_magnitude_sq() {
    let h = hover_value("let m = Vec(1.0, 2.0, 3.0).MagnitudeSq()\nout r = m", 1, 8).unwrap();
    assert!(
        h.contains("float"),
        "Vec.MagnitudeSq() should be float, got: {h}"
    );
}

#[test]
fn hover_chain_string_contains() {
    let h = hover_value(
        "var s: string = \"hello\"\nlet r = s.Contains(\"ell\")\nout o = r",
        2,
        8,
    )
    .unwrap();
    assert!(h.contains("bool"), "s.Contains() should be bool, got: {h}");
}

#[test]
fn hover_chain_string_tolower() {
    let h = hover_value(
        "var s: string = \"HELLO\"\nlet r = s.ToLower()\nout o = r",
        2,
        8,
    )
    .unwrap();
    assert!(
        h.contains("string"),
        "s.ToLower() should be string, got: {h}"
    );
}

#[test]
fn hover_chain_string_length() {
    let h = hover_value(
        "var s: string = \"hello\"\nlet r = s.Length()\nout o = r",
        2,
        8,
    )
    .unwrap();
    assert!(h.contains("int"), "s.Length() should be int, got: {h}");
}

#[test]
fn hover_chain_string_split() {
    let h = hover_value(
        "var s: string = \"a,b\"\nlet r = s.Split(\",\")\nout o = r",
        2,
        8,
    )
    .unwrap();
    assert!(
        h.contains("Left") && h.contains("Right"),
        "s.Split() should be {{Left, Right}}, got: {h}"
    );
}

#[test]
fn hover_chain_string_find() {
    let h = hover_value(
        "var s: string = \"hello\"\nlet r = s.Find(\"ll\")\nout o = r",
        2,
        8,
    )
    .unwrap();
    assert!(h.contains("int"), "s.Find() should be int, got: {h}");
}

#[test]
fn hover_chain_color_split() {
    let h = hover_value(
        "let c = Color(1.0, 0.0, 0.0)\nlet p = c.SplitColor()\nout r = p",
        2,
        8,
    )
    .unwrap();
    assert!(
        h.contains("r") && h.contains("g") && h.contains("b"),
        "c.SplitColor() should be {{r,g,b,a}}, got: {h}"
    );
}

#[test]
fn hover_with_doc_comment() {
    let h = hover_value(
        "/// Increments a value.\nmod inc(v: *int) { v = v + 1 }",
        1,
        4,
    )
    .unwrap();
    assert!(h.contains("mod inc"), "got: {h}");
}

#[test]
fn hover_input_reader() {
    let h = hover_value("in ch: character\nlet input = InputReader(ch)", 1, 12).unwrap();
    assert!(h.contains("InputReader"), "got: {h}");
    assert!(h.contains("Forward"), "should show record output, got: {h}");
}

// ---------- scripts in several files ----------

#[test]
fn namespace_symbol_registered() {
    let loader = mem(&[("lib.ws", "mod foo(v: *int) { v = v + 1 }")]);
    let resolved = resolve_with("import * as lib from \"lib\"", "main.ws", &loader);
    let r = typecheck(&resolved.ast, "main.ws", &catalog());
    assert_no_diags(&r);
}

#[test]
fn array_length_returns_int() {
    let r = tc(
        "array items: int[]\nin trigger: exec\non trigger { let len = items.length()\nlet ok = len + 1 }",
    );
    assert_no_diags(&r);
    let types = &r.type_of_expr;
    let found = (0..types.size())
        .any(|i| matches!(types.get(types.slot(i)), Some(Type::Int)));
    assert!(found, "length() should infer as Int");
}

#[test]
fn binop_resolution_recorded() {
    let r = tc("var x: int = 1\nvar y = x + 2");
    assert!(r.op_resolutions.size() > 0);
}

#[test]
fn namespace_member_hovers_with_signature() {
    let loader = mem(&[("display.ws", "mod drawCard(n: int, label: string) {}")]);
    let src = "import * as card from \"display\"\non RoundStart { card.drawCard(1, \"hi\") }";
    let line1 = src.lines().nth(1).unwrap();
    let col = line1.find("drawCard").unwrap();
    let text = card_in(src, "main", &loader, 1, col)
        .expect("hover on a namespace member should return something");
    assert!(text.contains("drawCard"), "should name the member, got: {text}");
    assert!(text.contains("n: int"), "should show the signature, got: {text}");
    assert!(!text.contains("unknown"), "must not show `unknown`, got: {text}");
}

#[test]
fn namespace_alias_hovers_with_members_not_unknown() {
    let loader = mem(&[("display.ws", "mod drawCard(n: int) {}\nlet WIDTH = 10")]);
    let src = "import * as card from \"display\"";
    let col = src.find("card").unwrap();
    let text = card_in(src, "main", &loader, 0, col)
        .expect("hover on a namespace alias should return something");
    assert!(text.contains("namespace card"), "should show namespace, got: {text}");
    assert!(!text.contains("unknown"), "must not show `unknown`, got: {text}");
    assert!(text.contains("drawCard"), "should list members, got: {text}");
}

#[test]
fn prefab_ref_completes_from_candidate_paths() {
    let prefabs = vec![
        "./turret.brz".to_string(),
        "./enemies/tank.brz".to_string(),
        "./notes.txt".to_string(),
    ];
    let src = "on x { SpawnPrefab(prefab = $./t) }";
    let col = src.find("$./t").unwrap() + "$./t".len();
    let got: Vec<String> = items(src, 0, col, &prefabs).into_iter().map(|i| i.label).collect();
    assert!(got.contains(&"./turret.brz".to_string()), "got: {got:?}");
    assert!(
        !got.contains(&"./enemies/tank.brz".to_string()),
        "`./t` shouldn't match `./enemies/…`: {got:?}"
    );
}

#[test]
fn namespace_dot_completes_members() {
    let symbol = |name: &str, kind: &str| SymbolDef {
        name: name.to_string(),
        kind: kind.to_string(),
        range: Default::default(),
        ty: None,
        is_exec: false,
    };
    let symbols =
        vec![symbol("u", "namespace"), symbol("u.swap", "mod"), symbol("u.clamp", "fn")];
    let cat = catalog();
    let t = tables(&symbols, &cat);
    let list = |src: &str, col: usize| -> Vec<String> {
        build_completions(src, &symbols, &cat, &t, &cursor(src, 0, col), 0, col, &Vec::new())
            .into_iter()
            .map(|i| i.label)
            .collect()
    };
    let src = "let a = u.";
    let ls = list(src, src.len());
    assert!(ls.contains(&"swap".to_string()), "swap missing: {ls:?}");
    assert!(ls.contains(&"clamp".to_string()), "clamp missing: {ls:?}");
    assert!(!ls.iter().any(|l| l.contains('.')), "qualified name leaked: {ls:?}");
    let bare = list("", 0);
    assert!(bare.contains(&"u".to_string()), "namespace alias missing: {bare:?}");
    assert!(!bare.iter().any(|l| l.contains('.')), "qualified leaked into global: {bare:?}");
}

#[test]
fn diagnostics_no_errors() {
    assert!(web_diagnostics("var x: int = 0", &[]).is_empty());
}

#[test]
fn diagnostics_unknown_ident() {
    let items = web_diagnostics("on RoundStart { x = 1 }", &[]);
    assert!(items.iter().any(|(code, _)| code == "WS002"));
}

#[test]
fn diagnostics_import_with_files() {
    let items = web_diagnostics(
        "import \"lib\"\nvar x: int = 0\non RoundStart { foo(x) }",
        &[("lib.ws", "mod foo(v: *int) { v = v + 1 }")],
    );
    assert!(items.is_empty(), "unexpected diags: {:?}", items);
}

#[test]
fn diagnostics_import_missing_file() {
    let items = web_diagnostics("import \"nonexistent\"", &[]);
    assert!(items.iter().any(|(_, message)| message.contains("cannot resolve")));
}

#[test]
fn completions_includes_keywords() {
    let items = web_items("", 0, 0, &[]);
    assert!(items.iter().any(|i| i.label == "var"));
    assert!(items.iter().any(|i| i.label == "import"));
}

#[test]
fn completions_includes_builtins() {
    let items = web_items("", 0, 0, &[]);
    assert!(items.iter().any(|i| i.label == "Random"));
    assert!(items.iter().any(|i| i.label == "DisplayText"));
}

#[test]
fn completions_includes_user_symbols() {
    let items = web_items("var score: int = 0\n", 1, 0, &[]);
    assert!(items.iter().any(|i| i.label == "score"));
}

#[test]
fn completions_includes_chat_command_event() {
    let items = web_items("", 0, 0, &[]);
    assert!(items.iter().any(|i| i.label == "ChatCommand"));
}

#[test]
fn var_array_member_completion_has_full_method_set() {
    let src = "var ids: string[]\nids.";
    let items = web_items(src, 1, 4, &[]);
    for m in ["push", "find", "sort", "insert", "slice"] {
        assert!(items.iter().any(|i| i.label == m), "array method {m} missing: {items:?}");
    }
    assert!(!items.iter().any(|i| i.label == "if"), "keyword leaked");
}

#[test]
fn string_member_completion_is_string_only() {
    let src = "let foo = \"\"\nfoo.";
    let items = web_items(src, 1, 4, &[]);
    assert!(items.iter().any(|i| i.label == "Contains"), "Contains missing: {items:?}");
    assert!(!items.iter().any(|i| i.label == "if"), "keyword leaked");
    assert!(!items.iter().any(|i| i.label == "int"), "type leaked");
    assert!(!items.iter().any(|i| i.label == "ChatCommand"), "event leaked");
}

#[test]
fn prefab_ref_completes_from_registry() {
    let prefabs = vec!["./turret.brz".to_string(), "./enemies/tank.brz".to_string()];
    let src = "on x { SpawnPrefab(prefab = $./t) }";
    let col = src.find("$./t").unwrap() + "$./t".len();
    let items = web_items(src, 0, col, &prefabs);
    assert!(items.iter().any(|i| i.label == "./turret.brz"), "got: {items:?}");
    assert!(!items.iter().any(|i| i.label == "./enemies/tank.brz"));
}

#[test]
fn workspace_symbols_lists_exports() {
    let text = "mod inc(v: *int) { v = v + 1 }\nfn double(x: int) -> int = x * 2";
    let files = vec![("utils.ws".to_string(), parse(text, "utils.ws").ast.decls)];
    let items = workspace_symbols(&files);
    assert!(items.iter().any(|i| i.name == "inc" && i.kind == "mod"));
    assert!(items.iter().any(|i| i.name == "double" && i.kind == "fn"));
}

// ---------- more of the web editor ----------

#[test]
fn enum_argument_offers_quoted_values() {
    let src = "in c: controller\non x { DisplayText(c, \"hi\", justify = ) }";
    let col = src.lines().nth(1).unwrap().find("= )").unwrap() + 2;
    let items = web_items(src, 1, col, &[]);
    let got: Vec<(&str, Option<&str>, Option<&str>)> = items
        .iter()
        .map(|i| (i.label.as_str(), i.detail.as_deref(), i.insert_text.as_deref()))
        .collect();
    assert_eq!(
        got,
        vec![
            ("Left", Some("justify value"), Some("\"Left\"")),
            ("Center", Some("justify value"), Some("\"Center\"")),
        ]
    );
}

#[test]
fn global_completion_details() {
    let items = web_items("var score: int = 0\n", 1, 0, &[]);
    let detail = |label: &str| {
        items.iter().find(|i| i.label == label).and_then(|i| i.detail.clone())
    };
    assert_eq!(detail("ChatCommand").as_deref(), Some("(controller, arguments)"));
    assert_eq!(detail("RoundStart"), None);
    assert_eq!(detail("DisplayText").as_deref(), Some("(target, text)"));
    assert_eq!(detail("@closed").as_deref(), Some("compile chip collapsed"));
    assert_eq!(detail("score").as_deref(), Some("int"));
}

#[test]
fn gate_documentation_is_shown() {
    let src = "var ctrl: controller\non RoundStart { ctrl.DisplayText(\"hi\", fontSize = 3) }";
    let line = src.lines().nth(1).unwrap();
    let card = hover_for(src, 1, line.find("DisplayText").unwrap()).unwrap();
    assert_eq!(
        card,
        "### Display Text\n```wirescript\nDisplayText(exec, target: controller, text: string, fontSize?: int, justify?: string)\n```\n\nShows text to a player.\n\n**Parameters:**\n- **Font Size** - How large the text is."
    );
    let card = hover_for(src, 1, line.find("fontSize").unwrap()).unwrap();
    assert_eq!(
        card,
        "**Font Size** `fontSize: int` *(optional)*\n\nHow large the text is."
    );
}

#[test]
fn if_hover_shows_its_context() {
    let src = "var x: int = 0\nlet y = if x > 0 then 1 else 0\non RoundStart { if x > 5 { return } }";
    let pure = hover_for(src, 1, 8).unwrap();
    assert!(pure.contains("if (pure) → Select gate"), "got: {pure}");
    let col = src.lines().nth(2).unwrap().find("if").unwrap();
    let exec = hover_for(src, 2, col).unwrap();
    assert!(exec.contains("if (exec) → Branch gate"), "got: {exec}");
}

#[test]
fn var_hover_says_how_it_is_read() {
    let src = "var x: int = 0\nlet y = x + 1\non RoundStart { x = x + 1 }";
    let pure = hover_for(src, 1, 8).unwrap();
    assert!(pure.ends_with("*(pure) reads previous tick's value via Value field*"), "got: {pure}");
    let col = src.lines().nth(2).unwrap().rfind('x').unwrap();
    let exec = hover_for(src, 2, col).unwrap();
    assert!(exec.ends_with("*(exec) reads current value via Var\\_Get*"), "got: {exec}");
}

#[test]
fn wrong_scripts_are_reported() {
    let cases = [
        ("on Bogus { }", "WS001"),
        ("out r = nope", "WS002"),
        ("var x: int = 0\non RoundStart { x = Vec(1.0, 1.0, 1.0) }", "WS003"),
        ("var v: vector\nlet w = v == v", "WS004"),
        ("var x: int = 0\nlet y = *x", "WS006"),
        ("var x: int = 0\nx = 1", "WS007"),
        ("let p = { x: 1 }\nlet q = p.z", "WS010"),
        ("on RoundStart { Random(1, 2, 3) }", "WS011"),
        ("var x: int = 0\nvar x: int = 1", "WS013"),
        ("let n: vector = 5", "WS016"),
        ("var x: int = 0\nout y = x", "WS017"),
        ("let p = $./turret.png", "WS019"),
        ("mod a() { b() }\nmod b() { }", "WS021"),
        ("mod a(n: int) { }\non RoundStart { a() }", "WS022"),
        ("array s: entity[] = [$A/B]", "WS024"),
    ];
    for (src, code) in cases {
        let r = tc(src);
        assert!(has_code(&r, code), "{code} missing for {src:?}: {:?}", r.diagnostics);
    }
}

#[test]
fn diagnostics_come_in_order_of_discovery() {
    let r = tc("var x: int = 0\nvar x: int = 1\nout y = nope");
    let codes: Vec<&str> = r.diagnostics.iter().map(|d| d.code.as_str()).collect();
    assert_eq!(codes, vec!["WS013", "WS002"]);
}

#[test]
fn unused_import_is_reported() {
    let loader = mem(&[("lib.ws", "mod foo(x: *int) { x = x + 1 }")]);
    let r = resolve_with("import { foo } from \"lib\"\nvar x: int = 0", "main.ws", &loader);
    assert!(r.diagnostics.iter().any(|d| d.code == "WS014"), "got: {:?}", r.diagnostics);
}

#[test]
fn own_declarations_stand_behind_imported_ones() {
    let loader = mem(&[("lib.ws", "let a = 1\nlet b = 2")]);
    let r = resolve_with("import \"lib\"\nlet c = a + b", "main.ws", &loader);
    let names: Vec<&str> = r.ast.decls.iter().filter_map(decl_name).collect();
    assert_eq!(names, vec!["a", "b", "c"]);
}

#[test]
fn variables_read_as_what_they_hold() {
    let source = "var x: int = 0\nlet a = x\nlet b = x.Value\n";
    assert!(hover_value(source, 1, 4).unwrap().contains("let a: int"));
    assert!(hover_value(source, 2, 4).unwrap().contains("let b: int"));
}

#[test]
fn names_declared_later_are_known() {
    let r = tc("on RoundStart {\n  n = 1\n}\nvar n: int = 0\n");
    assert!(!has_code(&r, "WS002"));
    assert_no_diags(&r);
}

#[test]
fn array_elements_are_typed_one_by_one() {
    let source = "on RoundStart {\n  let xs = [1, 2.0]\n}\n";
    let r = tc(source);
    let typed = |text: &str| {
        let start = source.find(text).unwrap();
        let key = SpanKey { file: "test".to_string(), start, end: start + text.len() };
        r.type_of_expr.get(&key).map(type_str)
    };
    assert_eq!(typed("1").as_deref(), Some("int"));
    assert_eq!(typed("2.0").as_deref(), Some("float"));
    assert_eq!(typed("[1, 2.0]").as_deref(), Some("int[]"));
}

#[test]
fn variable_is_read_by_an_explicit_deref() {
    let source = "var n: int = 0\nvar m: int = 0\non RoundStart {\n  m = *n\n}\n";
    let r = tc(source);
    assert_no_diags(&r);
    let start = source.find("*n").unwrap();
    let key = SpanKey { file: "test".to_string(), start, end: start + 2 };
    assert_eq!(r.type_of_expr.get(&key).map(type_str).as_deref(), Some("int"));
    assert!(has_code(&tc("var n: int = 0\nlet m = *n\n"), "WS006"));
    let other = tc("on RoundStart {\n  let k = 1\n  let m = *k\n}\n");
    assert!(has_code(&other, "WS003"));
}

#[test]
fn reference_in_a_variable_is_read_as_it_is() {
    let source = "in r: *int\nvar x: *int = r\nlet a = x\nlet b = x.Value\nlet c = x.prev\n";
    let r = tc(source);
    for text in ["x.Value", "x.prev"] {
        let start = source.find(text).unwrap();
        let key = SpanKey { file: "test".to_string(), start, end: start + text.len() };
        assert_eq!(r.type_of_expr.get(&key).map(type_str).as_deref(), Some("*int"), "{text}");
    }
}

#[test]
fn missing_field_is_reported_at_the_literal() {
    let source = "type P = { x: int, y: int }\nlet p: P = { x: 1 }\n";
    let r = tc(source);
    let d = r.diagnostics.iter().find(|d| d.message.contains("missing field")).unwrap();
    assert_eq!(d.message, "missing field 'y' for type P");
    let start = source.find("{ x: 1 }").unwrap();
    assert_eq!((d.range.start.offset, d.range.end.offset), (start, start + 8));
}

#[test]
fn check_stays_with_its_file() {
    let script = parse("var n: int = [1][0]\non RoundStart {\n  n = *n\n}\n", "a.ws").ast;
    let c = catalog();
    let mut ctx = TypeCheckCtx::new("a.ws");
    for d in &script.decls {
        register_decl(&mut ctx, d);
        assert_eq!(ctx.file, "a.ws");
    }
    for d in &script.decls {
        check_decl(&mut ctx, &c, d);
        assert_eq!(ctx.file, "a.ws");
    }
    assert!(!ctx.diagnostics.is_empty());
}

#[test]
fn scopes_are_left_as_they_were_entered() {
    let info = |name: &str, ty: Type| {
        plain_info(SymbolKind::LetBinding, &name.to_string(), ty, &SourceRange::default())
    };
    let mut scope = Scope::new();
    scope.declare(&"a".to_string(), info("a", Type::Int));
    scope.push();
    assert!(scope.declare(&"a".to_string(), info("a", Type::Bool)).is_none());
    assert!(scope.declare(&"b".to_string(), info("b", Type::Bool)).is_none());
    assert!(scope.declare(&"b".to_string(), info("b", Type::String)).is_some());
    scope.set_type(&"b".to_string(), Type::Float);
    assert_eq!(type_str(&scope.lookup(&"a".to_string()).unwrap().ty), "bool");
    assert_eq!(type_str(&scope.lookup(&"b".to_string()).unwrap().ty), "float");
    scope.pop();
    assert_eq!(type_str(&scope.lookup(&"a".to_string()).unwrap().ty), "int");
    assert!(scope.lookup(&"b".to_string()).is_none());
    scope.pop();
    assert!(scope.lookup(&"a".to_string()).is_some());
    scope.set_type(&"a".to_string(), Type::String);
    assert_eq!(type_str(&scope.lookup(&"a".to_string()).unwrap().ty), "string");
}

#[test]
fn no_name_leaks_out_of_a_body() {
    let bodies = [
        "on RoundStart {\n  var inner: int = 1\n}\n",
        "mod m(inner: int) {\n  let other = inner\n}\n",
        "fn f(inner: int) -> int = inner\n",
    ];
    for body in bodies {
        let source = format!("{body}on RoundStart {{\n  let x = inner\n}}\n");
        assert!(has_code(&tc(&source), "WS002"), "leaked by {body}");
    }
    let shadowed = "var x: int = 0\non RoundStart {\n  let x = \"a\"\n}\nlet y = x + 1\n";
    assert_no_diags(&tc(shadowed));
}

// ---------- names that are referred to ----------

fn unused(main: &str, lib: &str) -> Vec<String> {
    let loader = mem(&[("lib.ws", lib)]);
    let r = resolve_with(main, "main.ws", &loader);
    r.diagnostics.into_iter().filter(|d| d.code == "WS014").map(|d| d.message).collect()
}

#[test]
fn imports_are_used_wherever_their_names_stand() {
    let head = "import { X } from \"lib\"\n";
    let uses = [
        "chip Init(init: exec) -> (code: int) {\n  on init {\n    emit code = X\n  }\n}",
        "on RoundStart {\n  await X\n}",
        "on RoundStart {\n  buffer b = X\n}",
        "on RoundStart {\n  let a = *X\n}",
        "on X {\n}",
        "array a: int[] = [X]",
        "await X",
        "X = 1",
        "if X {\n}",
    ];
    for body in uses {
        assert!(unused(&format!("{head}{body}"), "let X = 7").is_empty(), "in {body}");
    }
    let types = [
        "chip C() -> (c: X) {\n}",
        "fn f() -> X = 1",
        "type Y = { x: X }",
        "on RoundStart {\n  array a: X[]\n}",
    ];
    for body in types {
        assert!(unused(&format!("{head}{body}"), "type X = int").is_empty(), "in {body}");
    }
    assert_eq!(unused(&format!("{head}let y = 1"), "let X = 7"), vec!["unused import 'X'"]);
}

#[test]
fn names_are_found_in_every_kind_of_expression() {
    let r = SourceRange::default;
    let ident = |name: &str| Expr::Ident { name: name.to_string(), range: r() };
    let pick = Expr::TuplePick { obj: Box::new(ident("picked")), index: 0, range: r() };
    let reference = Expr::RefOf { operand: Box::new(ident("referred")), range: r() };
    let arms = vec![
        MatchArm {
            event_name: "Fired".to_string(),
            binding: None,
            body: MatchBody::Expr(pick),
            range: r(),
        },
        MatchArm {
            event_name: "Hit".to_string(),
            binding: Some("bound".to_string()),
            body: MatchBody::Block(Block {
                stmts: vec![Stmt::ExprStmt(ExprStmt { expr: reference, range: r() })],
                range: r(),
            }),
            range: r(),
        },
    ];
    let choice = Expr::MatchExpr { scrutinee: Box::new(ident("choice")), arms, range: r() };
    let mut names = NameSet::new();
    collect_idents_in_expr(&choice, &mut names);
    for name in ["choice", "Fired", "Hit", "picked", "referred"] {
        assert!(names.contains(name), "{name}");
    }
    assert!(!names.contains("bound"));
}

#[test]
fn names_count_when_they_run_or_anywhere() {
    let r = SourceRange::default;
    let ident = |name: &str| Expr::Ident { name: name.to_string(), range: r() };
    let typ = |name: &str| TypeExpr::Name { name: name.to_string(), range: r() };
    let emit = Emit {
        name: "target".to_string(),
        value: Some(ident("value")),
        buffer: Some(BufferSpec {
            delay: Some(ident("delay")),
            hold: Some(ident("hold")),
            seconds: false,
            range: r(),
        }),
        range: r(),
    };
    let callback = TopDecl::Callback(Callback {
        name: "tick".to_string(),
        inputs: Vec::new(),
        outputs: vec![NamedOutput { name: "o".to_string(), typ: typ("Shape"), range: r() }],
        body: Block { stmts: vec![Stmt::Emit(emit)], range: r() },
        range: r(),
    });
    let array = TopDecl::Array(ArrayDecl {
        name: "xs".to_string(),
        element_type: typ("Element"),
        init: vec![ArrayElem::Item(ident("first"))],
        range: r(),
    });
    let event = TopDecl::Event(EventDecl {
        name: "e".to_string(),
        source: ident("source"),
        captured_body: None,
        range: r(),
    });
    let handler = TopDecl::Handler(Handler {
        trigger: Trigger::Union {
            parts: vec![
                Trigger::Not {
                    inner: Box::new(Trigger::Ident { name: "quiet".to_string(), range: r() }),
                    range: r(),
                },
                Trigger::Field {
                    obj: "sensor".to_string(),
                    field: "Hit".to_string(),
                    range: r(),
                },
            ],
            range: r(),
        },
        params: Vec::new(),
        config: vec![HandlerConfigArg::Positional(ident("config"))],
        body: Block { stmts: Vec::new(), range: r() },
        range: r(),
    });
    let decls = vec![callback, array, event, handler];
    let runtime = collect_runtime_idents_in_decls(&decls);
    let mut all = NameSet::new();
    collect_idents_in_decls(&decls, &mut all);
    for name in ["value", "delay", "hold", "first", "source", "quiet", "sensor", "config"] {
        assert!(runtime.contains(name) && all.contains(name), "{name}");
    }
    for name in ["target", "Shape", "Element"] {
        assert!(!runtime.contains(name) && all.contains(name), "{name}");
    }
    assert!(!all.contains("xs") && !all.contains("tick"));
}

#[test]
fn what_imported_declarations_refer_to_comes_along() {
    let lib = "let seed = 3\nlet step = 4\nlet spare = 5\nbuffer b = seed\narray xs: int[] = [step]\n";
    let loader = mem(&[("lib.ws", lib)]);
    let r = resolve_with(
        "import { b, xs } from \"lib\"\nlet y = b\nlet z = xs",
        "main.ws",
        &loader,
    );
    let names: Vec<&str> = r.ast.decls.iter().filter_map(decl_name).collect();
    assert_eq!(names, vec!["b", "xs", "seed", "step", "y", "z"]);
}

#[test]
fn aliases_are_written_out_in_the_parameters_of_callbacks() {
    let r = SourceRange::default;
    let typ = |name: &str| TypeExpr::Name { name: name.to_string(), range: r() };
    let mut aliases = AssocMap::new();
    aliases.insert("Hp".to_string(), typ("int"));
    let mut callback = TopDecl::Callback(Callback {
        name: "tick".to_string(),
        inputs: vec![Param { name: "n".to_string(), typ: typ("Hp"), pattern: None, range: r() }],
        outputs: vec![NamedOutput { name: "o".to_string(), typ: typ("Hp"), range: r() }],
        body: Block { stmts: Vec::new(), range: r() },
        range: r(),
    });
    let mut array = TopDecl::Array(ArrayDecl {
        name: "xs".to_string(),
        element_type: typ("Hp"),
        init: Vec::new(),
        range: r(),
    });
    expand_type_aliases_in_decl(&mut callback, &aliases);
    expand_type_aliases_in_decl(&mut array, &aliases);
    match (&callback, &array) {
        (TopDecl::Callback(c), TopDecl::Array(a)) => {
            assert_eq!(type_expr_str(&c.inputs[0].typ), "int");
            assert_eq!(type_expr_str(&c.outputs[0].typ), "Hp");
            assert_eq!(type_expr_str(&a.element_type), "Hp");
        }
        other => panic!("changed into {other:?}"),
    }
}

#[test]
fn module_doc_is_that_of_the_files_own_first_declaration() {
    let loader = mem(&[
        ("util.ws", "let u = 1"),
        ("lib.ws", "import \"util\"\n\n/// About foo.\nmod foo(x: int) {\n}\n"),
    ]);
    let r = resolve_with("import * as lib from \"lib\"", "main.ws", &loader);
    let doc = r.ast.decls.iter().find_map(|d| match d {
        TopDecl::Namespace(n) => n.module_doc.clone(),
        _ => None,
    });
    assert_eq!(doc.as_deref().map(str::trim), Some("About foo."));
}

// ---------- lowering ----------

/// Lowers the expressions, blocks, handlers and array operations of the scripts
/// below. An array operation is a gate of its own on the flow.
fn run<'a>(mut ctx: LowerCtx<'a>, task: Task<'a>) -> (LowerCtx<'a>, PortRef) {
    let nowhere = NodeId(u32::MAX).port(PortName::Output);
    let port = match task {
        Task::Expr(e) => match (expr_to_literal(e), e) {
            (Some(lit), _) => {
                let ty = ctx.type_of(e);
                ctx.add_gate(make_literal(lit, &ty, e.range().clone())).port(PortName::Output)
            }
            (None, Expr::Ident { name, .. }) => read_name(&mut ctx, name),
            (None, _) => plain_gate(&mut ctx, 9).port(PortName::Output),
        },
        Task::Ident { name, .. } => read_name(&mut ctx, name),
        Task::Block(b) => {
            for s in &b.stmts {
                lower_stmt(&run, &mut ctx, s);
            }
            nowhere
        }
        Task::Handler(h) => {
            let chain = ctx.alloc_chain();
            ctx.current_chain_id = Some(chain);
            let event = plain_gate(&mut ctx, 0);
            ctx.set_kind(event, NodeKind::Event);
            ctx.current_exec = Some(event.port(PortName::ExecOut));
            for s in &h.body.stmts {
                lower_stmt(&run, &mut ctx, s);
            }
            ctx.current_exec = None;
            ctx.current_chain_id = None;
            nowhere
        }
        Task::Event(_) => nowhere,
        Task::ArrayMethod { array, method, .. } => {
            let class = match method {
                ArrayOp::Clear => 1,
                ArrayOp::Push => 2,
                ArrayOp::Append => 3,
            };
            let id = plain_gate(&mut ctx, class);
            if let Some(flow) = ctx.current_exec {
                ctx.connect(flow, id.port(PortName::Exec));
            }
            ctx.connect(array, id.port(PortName::ArrayVarRef));
            ctx.current_exec = Some(id.port(PortName::ExecOut));
            nowhere
        }
        Task::ArraySet { .. } => plain_gate(&mut ctx, 4).port(PortName::Output),
    };
    (ctx, port)
}

fn plain_gate(ctx: &mut LowerCtx, class: u32) -> NodeId {
    ctx.add_gate(GateSpec {
        class: GateClass::Other(class),
        range: SourceRange::default(),
        props: AssocMap::new(),
        io: GateIO { inputs: Vec::new(), outputs: Vec::new() },
        note: None,
    })
}

fn read_name(ctx: &mut LowerCtx, name: &str) -> PortRef {
    if let Some(v) = ctx.lookup_var(name) {
        return chain_var_get(ctx, v.node_id, &v.inner_type);
    }
    if let Some(l) = ctx.lookup_local(name) {
        return l.port;
    }
    match ctx.lookup_input(name) {
        Some(i) => i.node_id.port(PortName::RerOutput),
        None => NodeId(u32::MAX).port(PortName::Output),
    }
}

struct Checked {
    script: Script,
    types: TypeCheckResult,
    docs: AssocMap<usize, String>,
}

fn checked(source: &str) -> Checked {
    let p = parse(source, "test");
    assert!(p.diagnostics.is_empty(), "parse diagnostics: {:?}", p.diagnostics);
    let types = typecheck(&p.ast, "test", &catalog());
    let mut docs = AssocMap::new();
    for (at, text) in p.doc_comments {
        docs.insert(at, text);
    }
    Checked { script: p.ast, types, docs }
}

fn context(c: &Checked) -> LowerCtx<'_> {
    LowerCtx::new(&c.types.type_of_expr, &c.types.op_resolutions, &c.docs, true)
}

/// A script lowered up to where its emits are wired.
fn unflushed(c: &Checked) -> LowerCtx<'_> {
    let mut ctx = context(c);
    for d in &c.script.decls {
        pre_declare_decl(&mut ctx, d);
    }
    for d in &c.script.decls {
        lower_decl(&run, &mut ctx, d);
    }
    ctx
}

fn lowered(c: &Checked) -> LowerCtx<'_> {
    let mut ctx = unflushed(c);
    flush_pending_emits(&mut ctx);
    ctx
}

fn of_class(ctx: &LowerCtx, class: GateClass) -> Vec<NodeId> {
    ctx.nodes.iter().filter(|n| n.gate.class == class).map(|n| n.id).collect()
}

fn node<'a>(ctx: &'a LowerCtx, id: NodeId) -> &'a Node {
    ctx.nodes.iter().find(|n| n.id == id).unwrap()
}

fn wired(ctx: &LowerCtx, source: PortRef, target: PortRef) -> bool {
    ctx.wires.contains(&Wire { source, target })
}

fn into(ctx: &LowerCtx, target: PortRef) -> Vec<PortRef> {
    ctx.wires.iter().filter(|w| w.target == target).map(|w| w.source).collect()
}

fn text_prop<'a>(ctx: &'a LowerCtx, id: NodeId, key: Prop) -> Option<&'a str> {
    match node(ctx, id).gate.props.get(&key) {
        Some(Literal::String(s)) => Some(s.as_str()),
        _ => None,
    }
}

#[test]
fn var_starts_at_its_constant() {
    let c = checked("var score: int = 5\nvar name: string\n");
    let ctx = lowered(&c);
    assert_eq!(ctx.nodes.len(), 2);
    assert!(ctx.wires.is_empty());
    let score = &ctx.nodes[0];
    assert_eq!(score.gate.class, GateClass::PseudoVar);
    assert_eq!(score.kind, NodeKind::Gate);
    assert_eq!(text_prop(&ctx, score.id, Prop::NameLabel), Some("score"));
    assert!(matches!(score.gate.props.get(&Prop::InitialValue), Some(Literal::Int(5))));
    assert_eq!(text_prop(&ctx, ctx.nodes[1].id, Prop::InitialValue), Some(""));
    assert!(ctx.diagnostics.is_empty());
}

#[test]
fn computed_initializer_is_dropped_with_a_warning() {
    let c = checked("in x: int\nvar y: int = x\nstatic var z: int = x\n");
    let ctx = lowered(&c);
    assert_eq!(ctx.diagnostics.len(), 2);
    assert_eq!(ctx.diagnostics[0].severity, Severity::Warning);
    assert_eq!(ctx.diagnostics[0].code, "WSP001");
    assert_eq!(
        ctx.diagnostics[0].message,
        "'var y' initializer is not a compile-time constant — outside an exec context it is dropped and the var starts at its type default; assign the value inside an exec handler instead"
    );
    assert_eq!(
        ctx.diagnostics[1].message,
        "'static var z' initializer must be a compile-time constant — this value is dropped and the var starts at its type default"
    );
    let y = of_class(&ctx, GateClass::PseudoVar)[0];
    assert!(matches!(
        node(&ctx, y).gate.props.get(&Prop::InitialValue),
        Some(Literal::Int(0))
    ));
}

#[test]
fn assignment_writes_on_the_flow() {
    let c = checked("var score: int = 0\non RoundStart {\n  score = 3\n  score = 4\n}\n");
    let ctx = lowered(&c);
    let var = of_class(&ctx, GateClass::PseudoVar)[0];
    let event = of_class(&ctx, GateClass::Other(0))[0];
    let sets = of_class(&ctx, GateClass::VarSet);
    let literals = of_class(&ctx, GateClass::Literal);
    assert_eq!(sets.len(), 2);
    assert_eq!(ctx.wires.len(), 6);
    assert!(wired(&ctx, event.port(PortName::ExecOut), sets[0].port(PortName::Exec)));
    assert!(wired(&ctx, sets[0].port(PortName::ExecOut), sets[1].port(PortName::Exec)));
    assert!(wired(&ctx, var.port(PortName::VarRef), sets[0].port(PortName::VarRef)));
    assert!(wired(&ctx, literals[0].port(PortName::Output), sets[0].port(PortName::Value)));
    assert_eq!(node(&ctx, sets[0]).chain_id, Some(0));
    assert_eq!(node(&ctx, var).chain_id, None);
}

#[test]
fn assignment_without_flow_places_nothing() {
    let c = checked("var score: int = 0\nscore = 3\n");
    let ctx = lowered(&c);
    assert_eq!(ctx.nodes.len(), 1);
    assert!(ctx.wires.is_empty());
}

#[test]
fn adding_to_itself_increments() {
    let c = checked("var score: int = 0\non RoundStart {\n  score = score + 2\n}\n");
    let ctx = lowered(&c);
    assert!(of_class(&ctx, GateClass::VarSet).is_empty());
    assert!(of_class(&ctx, GateClass::VarGet).is_empty());
    let inc = of_class(&ctx, GateClass::VarIncrement)[0];
    let lit = of_class(&ctx, GateClass::Literal)[0];
    assert!(matches!(node(&ctx, lit).gate.props.get(&Prop::Value), Some(Literal::Int(2))));
    assert!(wired(&ctx, lit.port(PortName::Output), inc.port(PortName::Value)));
}

#[test]
fn only_a_sum_with_itself_is_an_increment() {
    let c = checked(
        "var a: int = 0\nvar b: int = 0\non RoundStart {\n  a = a + 1\n  a = 1 + a\n  a = b + 1\n  a = a - 1\n}\n",
    );
    let increments: Vec<bool> = match &c.script.decls[2] {
        TopDecl::Handler(h) => h
            .body
            .stmts
            .iter()
            .map(|s| match s {
                Stmt::Assign(a) => match_increment_self(a).is_some(),
                other => panic!("not an assignment: {other:?}"),
            })
            .collect(),
        other => panic!("not a handler: {other:?}"),
    };
    assert_eq!(increments, vec![true, true, false, false]);
}

#[test]
fn branches_of_an_if_meet_again() {
    let c = checked(
        "in c: bool\nvar s: int = 0\non RoundStart {\n  if c {\n    s = 1\n  } else {\n    s = 2\n  }\n  s = 3\n}\n",
    );
    let ctx = lowered(&c);
    let input = ctx.nodes[0].id;
    let event = of_class(&ctx, GateClass::Other(0))[0];
    let branch = of_class(&ctx, GateClass::Branch)[0];
    let union = of_class(&ctx, GateClass::Union)[0];
    let sets = of_class(&ctx, GateClass::VarSet);
    assert_eq!(sets.len(), 3);
    assert!(wired(&ctx, event.port(PortName::ExecOut), branch.port(PortName::Exec)));
    assert!(wired(&ctx, input.port(PortName::RerOutput), branch.port(PortName::BCond)));
    assert!(wired(&ctx, branch.port(PortName::ExecOutA), sets[0].port(PortName::Exec)));
    assert!(wired(&ctx, branch.port(PortName::ExecOutB), sets[1].port(PortName::Exec)));
    assert!(wired(&ctx, sets[0].port(PortName::ExecOut), union.port(PortName::ExecA)));
    assert!(wired(&ctx, sets[1].port(PortName::ExecOut), union.port(PortName::ExecB)));
    assert!(wired(&ctx, union.port(PortName::ExecOut), sets[2].port(PortName::Exec)));
    let kinds: Vec<ScopeKind> = ctx.scopes.iter().map(|s| s.kind).collect();
    assert_eq!(
        kinds,
        vec![ScopeKind::IfGroup, ScopeKind::IfCond, ScopeKind::IfThen, ScopeKind::IfElse]
    );
    assert_eq!(ctx.scopes[2].parent, Some(ctx.scopes[0].id));
    assert_eq!(ctx.current_scope_id, 0);
    assert_eq!(ctx.exec_branch_depth, 0);
}

#[test]
fn known_condition_leaves_one_branch() {
    let c = checked(
        "var s: int = 0\non RoundStart {\n  if false {\n    s = 1\n  } else {\n    s = 2\n  }\n}\n",
    );
    let ctx = lowered(&c);
    assert!(of_class(&ctx, GateClass::Branch).is_empty());
    assert_eq!(of_class(&ctx, GateClass::VarSet).len(), 1);
    let lit = of_class(&ctx, GateClass::Literal)[0];
    assert!(matches!(node(&ctx, lit).gate.props.get(&Prop::Value), Some(Literal::Int(2))));
}

#[test]
fn emits_of_an_output_share_one_wire() {
    let c = checked(
        "out done: exec\non RoundStart {\n  emit done\n}\non RoundEnd {\n  emit done\n}\n",
    );
    let before = unflushed(&c);
    assert!(before.wires.is_empty());
    assert_eq!(before.pending_emits.len(), 1);
    assert_eq!(before.pending_emits[0].1.len(), 2);
    let ctx = lowered(&c);
    assert!(ctx.pending_emits.is_empty());
    let out = ctx.nodes[0].id;
    let events = of_class(&ctx, GateClass::Other(0));
    let union = of_class(&ctx, GateClass::Union)[0];
    assert_eq!(into(&ctx, out.port(PortName::RerInput)), vec![union.port(PortName::ExecOut)]);
    assert!(wired(&ctx, events[0].port(PortName::ExecOut), union.port(PortName::ExecA)));
    assert!(wired(&ctx, events[1].port(PortName::ExecOut), union.port(PortName::ExecB)));
}

#[test]
fn emit_of_an_unknown_name_is_ignored() {
    let c = checked("on RoundStart {\n  emit nobody\n}\n");
    let ctx = unflushed(&c);
    assert!(ctx.pending_emits.is_empty());
    assert_eq!(ctx.nodes.len(), 1);
}

#[test]
fn emit_with_a_value_wires_the_output() {
    let c = checked("out n: int\non RoundStart {\n  emit n = 7\n}\n");
    let ctx = lowered(&c);
    let out = ctx.nodes[0].id;
    let lit = of_class(&ctx, GateClass::Literal)[0];
    assert!(wired(&ctx, lit.port(PortName::Output), out.port(PortName::RerInput)));
}

#[test]
fn signal_hub_with_one_source_is_spliced_out() {
    let c = checked(
        "let sig: exec = 0\nvar s: int = 0\non RoundStart {\n  emit sig\n}\non RoundEnd {\n  await sig\n  s = 1\n}\n",
    );
    let before = unflushed(&c);
    let hub = before.exec_signal_hubs[0].1;
    assert_eq!(before.exec_signal_hubs[0].0, format!("sig#{}", hub.0));
    assert!(before.nodes.iter().any(|n| n.id == hub));
    let get = of_class(&before, GateClass::VarGet)[0];
    assert!(wired(&before, hub.port(PortName::ExecOut), get.port(PortName::Exec)));
    let ctx = lowered(&c);
    assert!(!ctx.nodes.iter().any(|n| n.id == hub));
    let event = of_class(&ctx, GateClass::Other(0))[0];
    assert_eq!(
        into(&ctx, get.port(PortName::Exec)),
        vec![event.port(PortName::ExecOut)]
    );
}

#[test]
fn await_raises_its_flag_and_takes_it_down() {
    let c = checked("let sig: exec = 0\nvar s: int = 0\non RoundStart {\n  await sig\n  s = 1\n}\n");
    let ctx = unflushed(&c);
    let flag = ctx.nodes.iter().find(|n| n.gate.note == Some(Note::AwaitArmed)).unwrap().id;
    assert!(matches!(
        node(&ctx, flag).gate.props.get(&Prop::InitialValue),
        Some(Literal::Bool(false))
    ));
    let event = of_class(&ctx, GateClass::Other(0))[0];
    let sets = of_class(&ctx, GateClass::VarSet);
    assert_eq!(sets.len(), 3);
    assert!(wired(&ctx, event.port(PortName::ExecOut), sets[0].port(PortName::Exec)));
    assert!(wired(&ctx, flag.port(PortName::VarRef), sets[0].port(PortName::VarRef)));
    let get = of_class(&ctx, GateClass::VarGet)[0];
    let branch = of_class(&ctx, GateClass::Branch)[0];
    assert!(wired(&ctx, flag.port(PortName::VarRef), get.port(PortName::VarRef)));
    assert!(wired(&ctx, get.port(PortName::ExecOut), branch.port(PortName::Exec)));
    assert!(wired(&ctx, get.port(PortName::Value), branch.port(PortName::BCond)));
    assert!(wired(&ctx, branch.port(PortName::ExecOutA), sets[1].port(PortName::Exec)));
    assert!(wired(&ctx, flag.port(PortName::VarRef), sets[1].port(PortName::VarRef)));
    assert!(wired(&ctx, sets[1].port(PortName::ExecOut), sets[2].port(PortName::Exec)));
    assert_eq!(ctx.await_armed_port, None);
    assert_eq!(ctx.signal_awaits.len(), 1);
}

#[test]
fn emit_on_the_chain_of_an_await_arms_it() {
    let c = checked(
        "let sig: exec = 0\non RoundStart {\n  await sig\n  emit sig\n}\non RoundEnd {\n  emit sig\n}\n",
    );
    let ctx = lowered(&c);
    let hub = ctx.exec_signal_hubs[0].1;
    let arm = ctx.nodes.iter().find(|n| n.gate.note == Some(Note::EmitArms)).unwrap().id;
    let flag = ctx.nodes.iter().find(|n| n.gate.note == Some(Note::AwaitArmed)).unwrap().id;
    let events = of_class(&ctx, GateClass::Other(0));
    assert!(wired(&ctx, flag.port(PortName::VarRef), arm.port(PortName::VarRef)));
    assert!(wired(&ctx, arm.port(PortName::ExecOut), hub.port(PortName::ExecA)));
    assert!(wired(&ctx, events[1].port(PortName::ExecOut), hub.port(PortName::ExecB)));
    assert!(ctx.nodes.iter().any(|n| n.id == hub));
}

fn await_of(binding: Option<&str>, fields: Option<Vec<(String, String)>>) -> AwaitStmt {
    AwaitStmt {
        binding: binding.map(|b| b.to_string()),
        destructure: fields,
        value_expr: None,
        exec_expr: Expr::Ident { name: "sig".to_string(), range: SourceRange::default() },
        range: SourceRange::default(),
    }
}

#[test]
fn payload_is_stored_by_the_emit_and_read_by_the_await() {
    let c = checked("let sig: exec = 0\non RoundStart {\n  emit sig = 5\n}\n");
    let mut ctx = unflushed(&c);
    let store = ctx.nodes.iter().find(|n| n.gate.note == Some(Note::PayloadStore)).unwrap().id;
    let write = ctx.nodes.iter().find(|n| n.gate.note == Some(Note::PayloadWrite)).unwrap().id;
    assert!(wired(&ctx, store.port(PortName::VarRef), write.port(PortName::VarRef)));
    let emitted = ctx.pending_emits[0].1[0].source;
    assert_eq!(emitted, write.port(PortName::ExecOut));
    let a = await_of(Some("v"), None);
    lower_await(&run, &mut ctx, &a);
    let read = ctx.nodes.iter().find(|n| n.gate.note == Some(Note::PayloadRead)).unwrap().id;
    assert!(wired(&ctx, store.port(PortName::VarRef), read.port(PortName::VarRef)));
    assert_eq!(ctx.lookup_local("v").unwrap().port, read.port(PortName::Value));
    assert_eq!(ctx.current_exec, Some(read.port(PortName::ExecOut)));
}

#[test]
fn fields_of_a_payload_are_read_by_name() {
    let c = checked("let sig: exec = 0\non RoundStart {\n  emit sig = { x: 1, y: 2 }\n}\n");
    let mut ctx = unflushed(&c);
    let slots = &ctx.exec_signal_payloads[0].1.slots;
    assert_eq!(slots.len(), 2);
    assert_eq!(slots[1].0, "y");
    let y = slots[1].1.store;
    let fields = vec![("y".to_string(), "b".to_string()), ("z".to_string(), "z".to_string())];
    let a = await_of(None, Some(fields));
    lower_await(&run, &mut ctx, &a);
    let port = ctx.lookup_local("b").unwrap().port;
    assert!(wired(&ctx, y.port(PortName::VarRef), port.node_id.port(PortName::VarRef)));
    assert!(ctx.lookup_local("z").is_none());
    assert_eq!(
        ctx.diagnostics.last().unwrap().message,
        "awaited signal has no ferried payload field `z` — emit a value first (`emit <sig> = { z: ... }`)"
    );
}

#[test]
fn array_literal_is_baked_or_built() {
    let c = checked("var xs: int[] = [1, 2]\non RoundStart {\n  xs = [3, ...xs]\n}\n");
    let ctx = lowered(&c);
    let array = of_class(&ctx, GateClass::PseudoArrayVar)[0];
    match node(&ctx, array).gate.props.get(&Prop::InitialValue) {
        Some(Literal::Array(v)) => {
            assert_eq!(v.len(), 2);
            assert!(matches!(v[1], Literal::Int(2)));
        }
        other => panic!("not an array: {other:?}"),
    }
    let event = of_class(&ctx, GateClass::Other(0))[0];
    let clear = of_class(&ctx, GateClass::Other(1))[0];
    let push = of_class(&ctx, GateClass::Other(2))[0];
    let append = of_class(&ctx, GateClass::Other(3))[0];
    assert!(wired(&ctx, event.port(PortName::ExecOut), clear.port(PortName::Exec)));
    assert!(wired(&ctx, clear.port(PortName::ExecOut), push.port(PortName::Exec)));
    assert!(wired(&ctx, push.port(PortName::ExecOut), append.port(PortName::Exec)));
    assert!(wired(&ctx, array.port(PortName::ArrayVarRef), append.port(PortName::ArrayVarRef)));
    assert!(of_class(&ctx, GateClass::VarSet).is_empty());
}

#[test]
fn array_with_a_computed_element_starts_empty() {
    let c = checked("in x: int\narray xs: int[] = [1, x]\n");
    let ctx = lowered(&c);
    let array = of_class(&ctx, GateClass::PseudoArrayVar)[0];
    assert!(node(&ctx, array).gate.props.get(&Prop::InitialValue).is_none());
}

#[test]
fn var_in_a_handler_is_reset_each_time() {
    let c = checked("on RoundStart {\n  var n: int = 4\n  static var m: int = 5\n  var k: bool\n}\n");
    let ctx = lowered(&c);
    let sets = of_class(&ctx, GateClass::VarSet);
    assert_eq!(of_class(&ctx, GateClass::PseudoVar).len(), 3);
    assert_eq!(sets.len(), 2);
    let value = into(&ctx, sets[1].port(PortName::Value))[0];
    assert!(matches!(
        node(&ctx, value.node_id).gate.props.get(&Prop::Value),
        Some(Literal::Bool(false))
    ));
}

#[test]
fn return_ends_the_flow_and_joins_the_earlier_ones() {
    let c = checked("on RoundStart {\n  return\n}\n");
    let stmt = match &c.script.decls[0] {
        TopDecl::Handler(h) => &h.body.stmts[0],
        other => panic!("not a handler: {other:?}"),
    };
    let mut ctx = context(&c);
    let first = plain_gate(&mut ctx, 0).port(PortName::ExecOut);
    let second = plain_gate(&mut ctx, 0).port(PortName::ExecOut);
    ctx.current_exec = Some(first);
    lower_stmt(&run, &mut ctx, stmt);
    assert_eq!(ctx.current_exec, None);
    assert_eq!(ctx.mod_return_exec, Some(first));
    ctx.current_exec = Some(second);
    lower_stmt(&run, &mut ctx, stmt);
    let union = of_class(&ctx, GateClass::Union)[0];
    assert_eq!(ctx.current_exec, None);
    assert_eq!(ctx.mod_return_exec, Some(union.port(PortName::ExecOut)));
    assert!(wired(&ctx, first, union.port(PortName::ExecA)));
    assert!(wired(&ctx, second, union.port(PortName::ExecB)));
}

#[test]
fn returned_value_goes_to_the_only_output() {
    let c = checked("out n: int\non RoundStart {\n  return 6\n}\n");
    let ctx = lowered(&c);
    let lit = of_class(&ctx, GateClass::Literal)[0];
    assert!(wired(&ctx, lit.port(PortName::Output), ctx.nodes[0].id.port(PortName::RerInput)));
}

#[test]
fn returns_are_counted_through_branches() {
    let c = checked(
        "in c: bool\non RoundStart {\n  if c {\n    return 1\n  } else {\n    return\n  }\n  return 2\n}\non RoundEnd {\n}\n",
    );
    let bodies: Vec<&Block> = c
        .script
        .decls
        .iter()
        .filter_map(|d| match d {
            TopDecl::Handler(h) => Some(&h.body),
            _ => None,
        })
        .collect();
    assert_eq!(count_return_values(bodies[0]), 2);
    assert!(block_contains_return(bodies[0]));
    assert_eq!(count_return_values(bodies[1]), 0);
    assert!(!block_contains_return(bodies[1]));
}

#[test]
fn ports_keep_to_the_side_they_are_given() {
    let port = InDecl {
        name: "x".to_string(),
        typ: TypeExpr::Name { name: "int".to_string(), range: SourceRange::default() },
        side: Some(PortSide::Left),
        label: Some("Speed".to_string()),
        range: SourceRange::default(),
    };
    let c = checked("");
    let mut ctx = context(&c);
    pre_declare_input(&mut ctx, &port);
    let id = ctx.lookup_input("x").unwrap().node_id;
    assert_eq!(node(&ctx, id).kind, NodeKind::Input);
    assert_eq!(text_prop(&ctx, id, Prop::RerouteSide), Some("left"));
    assert_eq!(text_prop(&ctx, id, Prop::NameLabel), Some("Speed"));
    let mut inner = LowerCtx::new(&c.types.type_of_expr, &c.types.op_resolutions, &c.docs, false);
    pre_declare_input(&mut inner, &port);
    let id = inner.lookup_input("x").unwrap().node_id;
    assert_eq!(text_prop(&inner, id, Prop::RerouteSide), None);
    assert_eq!(inner.diagnostics[0].code, "WS023");
    assert_eq!(inner.diagnostics[0].severity, Severity::Error);
}

#[test]
fn side_words_are_read_back() {
    for side in [PortSide::Left, PortSide::Right, PortSide::Top, PortSide::Bottom] {
        assert_eq!(PortSide::from_word(side.as_str()), Some(side));
    }
    assert_eq!(PortSide::from_word("middle"), None);
}

#[test]
fn buffer_waits_a_tick_for_its_input() {
    let c = checked("in x: int\nbuffer last = x\n");
    let ctx = lowered(&c);
    let buffer = of_class(&ctx, GateClass::BufferTicks)[0];
    assert!(matches!(
        node(&ctx, buffer).gate.props.get(&Prop::TicksToWait),
        Some(Literal::Int(1))
    ));
    assert!(wired(
        &ctx,
        ctx.nodes[0].id.port(PortName::RerOutput),
        buffer.port(PortName::Input)
    ));
    assert_eq!(node(&ctx, buffer).chain_id, Some(0));
}

#[test]
fn buffered_emit_leaves_from_the_buffer() {
    let c = checked("out done: exec\n");
    let mut ctx = context(&c);
    pre_declare_decl(&mut ctx, &c.script.decls[0]);
    let flow = plain_gate(&mut ctx, 0).port(PortName::ExecOut);
    ctx.current_exec = Some(flow);
    let e = Emit {
        name: "done".to_string(),
        value: None,
        buffer: Some(BufferSpec {
            delay: Some(Expr::IntLit {
                value: 3,
                text: "3".to_string(),
                range: SourceRange::default(),
            }),
            hold: None,
            seconds: true,
            range: SourceRange::default(),
        }),
        range: SourceRange::default(),
    };
    lower_emit(&run, &mut ctx, &e);
    let buffer = of_class(&ctx, GateClass::BufferSeconds)[0];
    let props = &node(&ctx, buffer).gate.props;
    assert!(matches!(
        props.get(&Prop::SecondsToWait),
        Some(Literal::Float(Number::Nearest(3)))
    ));
    match props.get(&Prop::ZeroSecondsToWait) {
        Some(Literal::Float(Number::Bits(b))) => assert_eq!(*b, (-1.0f64).to_bits()),
        other => panic!("no hold: {other:?}"),
    }
    assert!(wired(&ctx, flow, buffer.port(PortName::Input)));
    assert_eq!(ctx.pending_emits[0].1[0].source, buffer.port(PortName::Output));
    assert_eq!(ctx.current_exec, Some(flow));
}

#[test]
fn anonymous_chip_tags_its_nodes() {
    let c = checked("/// Inner\nchip {\n  var t: int = 0\n  on RoundStart {\n    t = 1\n  }\n}\nvar u: int = 0\n");
    let ctx = lowered(&c);
    let chip = of_class(&ctx, GateClass::MicrochipAlt)[0];
    assert_eq!(node(&ctx, chip).kind, NodeKind::Chip);
    assert_eq!(text_prop(&ctx, chip, Prop::DocText), Some("Inner"));
    let vars = of_class(&ctx, GateClass::PseudoVar);
    assert_eq!(node(&ctx, vars[0]).chip_id, Some(chip));
    assert_eq!(node(&ctx, vars[1]).chip_id, None);
    let set = of_class(&ctx, GateClass::VarSet)[0];
    assert_eq!(node(&ctx, set).chip_id, Some(chip));
    assert_eq!(ctx.current_anon_chip, None);
}

#[test]
fn variable_record_is_changed_where_it_is_bound() {
    let c = checked("var n: int = 0\nlet k = 1\n");
    let mut ctx = lowered(&c);
    ctx.push_frame(ScopeTag::Block);
    let read = plain_gate(&mut ctx, 0);
    ctx.lookup_var_mut("n").unwrap().get_node_for_handler = Some(read);
    assert_eq!(ctx.lookup_var("n").unwrap().get_node_for_handler, Some(read));
    ctx.pop_frame();
    assert_eq!(ctx.lookup_var("n").unwrap().get_node_for_handler, Some(read));
    assert!(ctx.lookup_var_mut("k").is_none());
    assert!(ctx.lookup_var_mut("m").is_none());
    reset_var_get_caches(&mut ctx);
    assert_eq!(ctx.lookup_var("n").unwrap().get_node_for_handler, None);
}

#[test]
fn writing_a_variable_drops_its_cached_read() {
    let c = checked("var n: int = 0\nvar m: int = 0\n");
    let mut ctx = lowered(&c);
    let read = plain_gate(&mut ctx, 0);
    ctx.lookup_var_mut("n").unwrap().get_node_for_handler = Some(read);
    ctx.lookup_var_mut("m").unwrap().get_node_for_handler = Some(read);
    let n = ctx.lookup_var("n").unwrap().node_id;
    invalidate_var_cache(&mut ctx, n);
    assert_eq!(ctx.lookup_var("n").unwrap().get_node_for_handler, None);
    assert_eq!(ctx.lookup_var("m").unwrap().get_node_for_handler, Some(read));
}

#[test]
fn record_fields_are_bound_by_name() {
    let c = checked("let p = { x: 1, y: 2 }\nlet { y: b } = p\nlet q = p\n");
    let ctx = lowered(&c);
    let literals = of_class(&ctx, GateClass::Literal);
    assert_eq!(ctx.lookup_local("b").unwrap().port, literals[1].port(PortName::Output));
    match ctx.get("q") {
        Some(Binding::Record(fields)) => {
            assert_eq!(fields.len(), 2);
            assert_eq!(fields[0].0, "x");
        }
        other => panic!("not a record: {other:?}"),
    }
}

#[test]
fn rest_of_a_record_is_what_was_not_taken() {
    let c = checked("let p = { x: 1, y: 2, z: 3 }\n");
    let mut ctx = lowered(&c);
    let src = match ctx.get_cloned("p") {
        Some(Binding::Record(fields)) => fields,
        other => panic!("not a record: {other:?}"),
    };
    let fields = vec![
        RecordDestructField::Named {
            name: "y".to_string(),
            alias: None,
            range: SourceRange::default(),
        },
        RecordDestructField::Rest { name: "others".to_string(), range: SourceRange::default() },
    ];
    install_record_destruct(&mut ctx, &src, &fields);
    assert!(ctx.lookup_local("y").is_some());
    match ctx.get("others") {
        Some(Binding::Record(rest)) => {
            let names: Vec<&str> = rest.iter().map(|f| f.0.as_str()).collect();
            assert_eq!(names, vec!["x", "z"]);
        }
        other => panic!("not a record: {other:?}"),
    }
}

#[test]
fn functions_are_deprecated() {
    let c = checked("fn dbl(x: int, y: int[]) -> int = x + x\n");
    let ctx = lowered(&c);
    assert_eq!(
        ctx.diagnostics[0].message,
        "'fn dbl' is deprecated — use 'mod dbl(x: int, y: int[]) -> int { return <body> }'"
    );
    let chip = ctx.lookup_chip("dbl").unwrap();
    assert!(chip.inline && !chip.closed && chip.label.is_none());
    assert_eq!(chip.inputs.len(), 2);
    assert_eq!(chip.inputs[1].name, "y");
    assert_eq!(chip.outputs.len(), 1);
    assert_eq!(chip.outputs[0].name, "_");
    assert_eq!(type_expr_str(&chip.outputs[0].typ), "int");
    assert_eq!(chip.body.stmts.len(), 1);
    assert!(matches!(
        &chip.body.stmts[0],
        Stmt::Return { value: Some(Expr::BinOp { op, .. }), .. } if op == "+"
    ));
}

#[test]
fn namespace_keeps_its_chips() {
    let c = checked("mod dbl(x: int) -> int {\n  return x\n}\nvar shared: int = 1\n");
    let range = SourceRange::default();
    let ns = TopDecl::Namespace(NamespaceDecl {
        name: "lib".to_string(),
        decls: c.script.decls,
        source_path: "lib.ws".to_string(),
        module_doc: None,
        range,
    });
    let mut ctx =
        LowerCtx::new(&c.types.type_of_expr, &c.types.op_resolutions, &c.docs, true);
    lower_decl(&run, &mut ctx, &ns);
    assert_eq!(ctx.lookup_ns_chip("lib", "dbl").unwrap().name, "dbl");
    assert!(ctx.lookup_ns_chip("lib", "half").is_none());
    assert!(ctx.lookup_ns_chip("other", "dbl").is_none());
    assert!(ctx.lookup_chip("dbl").is_some());
    assert!(ctx.lookup_var("shared").is_some());
}

#[test]
fn callbacks_gather_under_their_name() {
    let c = checked("");
    let make = || {
        TopDecl::Callback(Callback {
            name: "tick".to_string(),
            inputs: Vec::new(),
            outputs: Vec::new(),
            body: Block { stmts: Vec::new(), range: SourceRange::default() },
            range: SourceRange::default(),
        })
    };
    let (first, second) = (make(), make());
    let mut ctx = context(&c);
    pre_declare_decl(&mut ctx, &first);
    pre_declare_decl(&mut ctx, &second);
    assert_eq!(ctx.callbacks.len(), 1);
    assert_eq!(ctx.callbacks[0].0, "tick");
    assert_eq!(ctx.callbacks[0].1.list.len(), 2);
}

#[test]
fn exec_ports_are_joined_in_a_chain() {
    let c = checked("");
    let mut ctx = context(&c);
    let ports: Vec<PortRef> =
        (0..3).map(|_| plain_gate(&mut ctx, 0).port(PortName::ExecOut)).collect();
    assert_eq!(build_exec_union(&mut ctx, &vec![ports[0]]), ports[0]);
    assert!(ctx.wires.is_empty());
    let end = build_exec_union(&mut ctx, &ports);
    let unions = of_class(&ctx, GateClass::Union);
    assert_eq!(unions.len(), 2);
    assert_eq!(end, unions[1].port(PortName::ExecOut));
    assert!(wired(&ctx, unions[0].port(PortName::ExecOut), unions[1].port(PortName::ExecA)));
    assert!(wired(&ctx, ports[2], unions[1].port(PortName::ExecB)));
}

#[test]
fn hub_with_two_sources_stays() {
    let c = checked("");
    let mut ctx = context(&c);
    build_exec_signal_hub(&mut ctx, "sig", &SourceRange::default());
    let hub = ctx.exec_signal_hubs[0].1;
    let a = plain_gate(&mut ctx, 0).port(PortName::ExecOut);
    let b = plain_gate(&mut ctx, 0).port(PortName::ExecOut);
    let user = plain_gate(&mut ctx, 0).port(PortName::Exec);
    ctx.connect(a, hub.port(PortName::ExecA));
    ctx.connect(b, hub.port(PortName::ExecB));
    ctx.connect(hub.port(PortName::ExecOut), user);
    splice_single_input_union(&mut ctx, hub);
    assert_eq!(ctx.nodes.len(), 4);
    assert_eq!(ctx.wires.len(), 3);
    ctx.wires.remove(1);
    splice_single_input_union(&mut ctx, hub);
    assert_eq!(ctx.nodes.len(), 3);
    assert_eq!(ctx.wires, vec![Wire { source: a, target: user }]);
}

#[test]
fn lowering_and_checking_read_the_same_types() {
    let c = checked("var a: { p: int, q: vector[] } = { p: 1, q: [] }\nvar b: int[]\n");
    let typs: Vec<&TypeExpr> = c
        .script
        .decls
        .iter()
        .map(|d| match d {
            TopDecl::Var(v) => v.typ.as_ref().unwrap(),
            other => panic!("not a var: {other:?}"),
        })
        .collect();
    assert_eq!(type_str(&type_of_type_expr(typs[0])), type_expr_str(typs[0]));
    assert_eq!(type_str(&type_of_type_expr(typs[1])), "int[]");
    let unknown = TypeExpr::Name { name: "Widget".to_string(), range: SourceRange::default() };
    assert_eq!(type_str(&type_of_type_expr(&unknown)), "any");
}
