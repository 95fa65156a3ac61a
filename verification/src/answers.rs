//! What the functions of the library answer, said of their results.

use crate::analysis::card_laws::{
    asset_cards, call_outputs_are_shown, event_cards, event_data_is_shown, first_place_is_found,
    lines_end_at_breaks, members_are_typed, prefab_targets, surface_fields_are_typed,
    symbols_are_found, texts_are_trimmed,
};
use crate::analysis::fields::{extract_record_field_type, resolve_field_in_type};
use crate::analysis::hover::{
    event_sig, format_estimate, hover_builtin_event, is_callable, outputs_sig, prefab_target,
    render_asset_hover, AssetRef, EstimateKind, PrefabTarget,
};
use crate::analysis::navigate::{
    collect_references_across_files, execute_command, formatting, goto_definition, keep_scanning,
    prefab_reference, scripts_to_search, sorted_references, CommandPlan, GotoPlan, RenameEdit,
    Searched,
};
use crate::analysis::offer::{is_array_like, is_variable};
use crate::analysis::server::{
    namespace_member_kind, pos_to_lsp, range_to_lsp, text_range_to_lsp, ItemKind, LspRange,
};
use crate::analysis::symbols::{find_of_kind, find_symbol, ResourceEstimate, SymbolDef};
use crate::analysis::text::{find_char, is_white, split_lines, trim, white};
use crate::analysis::web::{
    data_name_list, definition_with_files, diagnostics, hover, indent, inlay_hints,
    references_with_files, severity_name, DiagnosticOut, HoverOut, InlayHint, InlayHintOut,
    Location, LocationOut, TextRange,
};
use crate::ast::{ArrayElem, Block, Expr, Script, TopDecl};
use crate::catalog::{
    port_record, CallSpec, Catalog, CoerceRule, EventDataField, OpRule, OutputSpec,
};
use crate::diagnostic::{views, Diagnostic, Pos, Severity, SourceRange};
use crate::lexer::{countable, lex, LexResult, TokenKind};
use crate::lexer_laws::{digits, word};
use crate::literal::{
    array_elem_literal, default_literal_for_var_type, expr_to_literal, is_entity_family, Literal,
    LiteralView, Number,
};
use crate::lower::state::output_scope_key;
use crate::lower::stmt::{block_contains_return, count_return_values};
use crate::resolve::files::{FileTable, MemLoader, ParseResult};
use crate::resolve::imports::{resolve, ResolveResult};
use crate::resolve::merge::{decl_name, is_importable};
use crate::text::{cat2, cat3, dec, ends_with, join, owned, starts_with, str_eq};
use crate::text_laws::{number_of, parts_are_joined};
use crate::typecheck::calls::{block_has_return_value, is_componentwise, join_arms};
use crate::typecheck::check::{typecheck, TypeCheckResult};
use crate::typecheck::register::{primitive_name, var_storable};
use crate::types::{
    find_field, same_kind, type_eq, type_str, type_text, type_views, unwrap_ref, Type, TypeView,
};
use crate::analysis::files::{json_texts, loader_of, make_loader, texts_by_key};
use vstd::prelude::*;

verus! {

// ---------- texts ----------

/// A number is written in digits that read back as it.
pub proof fn numbers_are_written(n: usize, r: String)
    requires
        call_ensures(dec, (n,), r),
    ensures
        number_of(r@) == n,
        r@.len() > 0,
        n > 0 ==> r@[0] != '0',
{
    crate::text_laws::decimals_read_back(n as nat);
}

/// Two texts are joined with the separator between them.
pub proof fn two_texts_are_joined(parts: Vec<String>, sep: &str, r: String)
    requires
        call_ensures(join, (&parts, sep), r),
    ensures
        parts@.len() == 0 ==> r@ == Seq::<char>::empty(),
        parts@.len() == 1 ==> r@ == parts@[0]@,
        parts@.len() == 2 ==> r@ == parts@[0]@ + sep@ + parts@[1]@,
{
    let all = crate::text::texts(parts@);
    if parts@.len() == 0 {
        assert(all =~= Seq::empty());
    }
    if parts@.len() == 1 {
        assert(all =~= seq![parts@[0]@]);
        parts_are_joined(all, parts@[0]@, parts@[0]@, sep@);
    }
    if parts@.len() == 2 {
        assert(all =~= seq![parts@[0]@, parts@[1]@]);
        parts_are_joined(all, parts@[0]@, parts@[1]@, sep@);
    }
}

/// Whether a text starts or ends with another is whether it can be put together
/// from it.
pub proof fn starts_and_ends(a: &str, b: &str, starts: bool, ends: bool)
    requires
        call_ensures(starts_with, (a, b), starts),
        call_ensures(ends_with, (a, b), ends),
    ensures
        starts <==> exists|rest: Seq<char>| a@ == #[trigger] (b@ + rest),
        ends <==> exists|head: Seq<char>| a@ == #[trigger] (head + b@),
{
    let n = a@.len() as int;
    let k = b@.len() as int;
    if starts {
        assert(a@ =~= b@ + a@.skip(k)) by {
            assert(a@.subrange(0, k) =~= b@);
        }
    }
    if ends {
        assert(a@ =~= a@.take(n - k) + b@) by {
            assert(a@.subrange(n - k, n) =~= b@);
        }
    }
    if exists|rest: Seq<char>| a@ == #[trigger] (b@ + rest) {
        let rest = choose|rest: Seq<char>| a@ == #[trigger] (b@ + rest);
        assert(a@.subrange(0, k) =~= b@);
    }
    if exists|head: Seq<char>| a@ == #[trigger] (head + b@) {
        let head = choose|head: Seq<char>| a@ == #[trigger] (head + b@);
        assert(a@.subrange(n - k, n) =~= b@);
    }
}

/// Texts are equal, put together and cut as their characters are.
pub proof fn texts_go_by_their_characters(
    a: &str,
    b: &str,
    c: &str,
    same: bool,
    two: String,
    three: String,
    copy: String,
)
    requires
        call_ensures(str_eq, (a, b), same),
        call_ensures(cat2, (a, b), two),
        call_ensures(cat3, (a, b, c), three),
        call_ensures(owned, (a,), copy),
    ensures
        same <==> a@ == b@,
        two@.len() == a@.len() + b@.len(),
        two@.take(a@.len() as int) == a@,
        two@.skip(a@.len() as int) == b@,
        three@ == two@ + c@,
        copy@ == a@,
{
    assert(two@.take(a@.len() as int) =~= a@);
    assert(two@.skip(a@.len() as int) =~= b@);
}

/// White space is trimmed off both ends and nowhere else.
pub proof fn trimmed_texts(a: Seq<char>, t: Seq<char>, b: Seq<char>, s: Vec<char>, r: Vec<char>)
    requires
        call_ensures(trim, (&s,), r),
        s@ == a + t + b,
        forall|m: int| 0 <= m < a.len() ==> #[trigger] a[m] == ' ' || a[m] == '\t',
        forall|m: int| 0 <= m < b.len() ==> #[trigger] b[m] == ' ' || b[m] == '\t',
        t.len() > 0 && !white(t[0]) && !white(t.last()),
    ensures
        r@ == t,
{
    texts_are_trimmed(a, t, b);
}

/// Blanks, tabs and line breaks are white; letters, digits and signs are not.
pub proof fn white_characters(c: char, r: bool)
    requires
        call_ensures(is_white, (c,), r),
    ensures
        c == ' ' || c == '\t' || c == '\n' || c == '\r' ==> r,
        'a' <= c <= 'z' || 'A' <= c <= 'Z' || '0' <= c <= '9' || c == '_' || c == '=' || c == '{'
            || c == '(' ==> !r,
{
}

/// A character is found where it stands first, or at the end where it does not.
pub proof fn found_characters(a: Seq<char>, c: char, b: Seq<char>, s: Vec<char>, r: usize)
    requires
        call_ensures(find_char, (&s, 0usize, c), r),
        s@ == a + seq![c] + b || s@ == a,
        !a.contains(c),
    ensures
        r == a.len(),
{
    first_place_is_found(a, c, b);
    assert(s@.skip(0) =~= s@);
}

/// The lines of a text of two lines.
pub proof fn lines_are_split(a: Seq<char>, b: Seq<char>, source: &str, r: Vec<Vec<char>>)
    requires
        call_ensures(split_lines, (source,), r),
        source@ == a + seq!['\n'] + b,
        !a.contains('\n'),
        !b.contains('\n'),
        a.len() > 0 ==> a.last() != '\r',
        b.len() > 0,
    ensures
        r@.len() == 2,
        r@[0]@ == a,
        r@[1]@ == b,
{
    lines_end_at_breaks(a, b);
    lines_end_at_breaks(b, b);
    let ls = crate::analysis::text::lines(source@);
    assert(crate::analysis::text::lines(b)[0] == ls[1]);
    let rows = crate::analysis::text::rows(r@);
    assert(rows.len() == 2 && rows[0] == r@[0]@ && rows[1] == r@[1]@);
}

// ---------- lexing ----------

/// A word is lexed to one token with its text: a keyword or an identifier.
pub proof fn words_are_lexed(source: &str, file: &str, r: LexResult)
    requires
        word(source@),
        countable(source@),
        call_ensures(lex, (source, file), r),
    ensures
        r.diagnostics@.len() == 0,
        r.tokens@.len() == 2,
        r.tokens@[0].text@ == source@,
        r.tokens@[0].kind == TokenKind::Kw || r.tokens@[0].kind == TokenKind::Ident,
        ({
            let w = source@;
            r.tokens@[0].kind == TokenKind::Kw <==> (w == "var"@ || w == "array"@ || w == "buffer"@
                || w == "chip"@ || w == "callback"@ || w == "fn"@ || w == "on"@ || w == "in"@ || w
                == "out"@ || w == "emit"@ || w == "let"@ || w == "if"@ || w == "else"@ || w
                == "then"@ || w == "match"@ || w == "return"@ || w == "true"@ || w == "false"@ || w
                == "ref"@ || w == "open"@ || w == "mod"@ || w == "import"@ || w == "from"@ || w
                == "as"@ || w == "static"@ || w == "type"@ || w == "await"@)
        }),
        r.tokens@[1].kind == TokenKind::Eof,
{
    crate::lexer_laws::word_is_one_token(source@, file@);
    crate::lexer_laws::keywords_are_these(source@);
    assert(views(r.tokens@)[0] == r.tokens@[0]@);
    assert(views(r.tokens@)[1] == r.tokens@[1]@);
    assert(views(r.diagnostics@).len() == r.diagnostics@.len());
}

/// Digits, a dot and digits are lexed to one float with the whole text.
pub proof fn decimals_are_lexed(
    a: Seq<char>,
    b: Seq<char>,
    source: &str,
    file: &str,
    r: LexResult,
)
    requires
        digits(a),
        digits(b),
        source@ == a + "."@ + b,
        countable(source@),
        call_ensures(lex, (source, file), r),
    ensures
        r.diagnostics@.len() == 0,
        r.tokens@.len() == 2,
        r.tokens@[0].kind == TokenKind::Float,
        r.tokens@[0].text@ == a + "."@ + b,
        r.tokens@[1].kind == TokenKind::Eof,
{
    crate::lexer_laws::decimal_is_a_float(a, b, file@);
    assert(views(r.tokens@)[0] == r.tokens@[0]@);
    assert(views(r.tokens@)[1] == r.tokens@[1]@);
    assert(views(r.diagnostics@).len() == r.diagnostics@.len());
}

// ---------- constants ----------

/// A minus sign before a constant integer gives the integer that adds up to zero
/// with it.
pub proof fn negated_constants(
    e: Expr,
    inner: Expr,
    a: Option<Literal>,
    b: Option<Literal>,
    k: i64,
)
    requires
        crate::literal_laws::negates(e, inner),
        call_ensures(expr_to_literal, (&inner,), a),
        call_ensures(expr_to_literal, (&e,), b),
        a matches Some(l) && l@ == LiteralView::Int(k),
        k != i64::MIN,
    ensures
        b matches Some(m) && (m@ matches LiteralView::Int(n) && n + k == 0),
{
    crate::literal_laws::negated_integers_add_up_to_zero(e, inner, k);
}

/// An integer in a script is the constant that it is written as.
pub proof fn written_constants(e: Expr, r: Option<Literal>)
    requires
        call_ensures(expr_to_literal, (&e,), r),
    ensures
        e matches Expr::IntLit { value, .. } ==> (r matches Some(l) && l@ == LiteralView::Int(value)),
        e matches Expr::BoolLit { value, .. } ==> (r matches Some(l) && l@ == LiteralView::Bool(
            value,
        )),
        e matches Expr::StringLit { value, .. } ==> (r matches Some(l) && l@ == LiteralView::String(
            value@,
        )),
        e is Ident || e is BinOp ==> r is None,
{
    crate::literal_laws::literals_are_constants(e);
}

/// A spread is no constant element; an item is the constant that it holds.
pub proof fn constant_elements(el: ArrayElem, r: Option<Literal>, s: Option<Literal>)
    requires
        call_ensures(array_elem_literal, (&el,), r),
        call_ensures(expr_to_literal, (&el.inner(),), s),
    ensures
        el is Spread ==> r is None,
        el is Item ==> crate::literal::shown(r) == crate::literal::shown(s),
{
}

/// The values that variables start with.
pub proof fn starting_values(t: Type, r: Option<Literal>)
    requires
        call_ensures(default_literal_for_var_type, (&t,), r),
    ensures
        r is Some,
        t@ is Int ==> (r->0)@ == LiteralView::Int(0),
        t@ is Bool ==> (r->0)@ == LiteralView::Bool(false),
        t@ is Float ==> (r->0)@ == LiteralView::Float(Number::Bits(0)),
        t@ is String ==> (r->0)@ == LiteralView::String(Seq::empty()),
{
    crate::literal_laws::variables_start_empty(t@);
}

// ---------- types ----------

/// Types are the same exactly when they show the same model; a reference is
/// seen through once.
pub proof fn types_are_compared(a: Type, b: Type, same: bool, back: bool, inner: Type)
    requires
        call_ensures(type_eq, (&a, &b), same),
        call_ensures(type_eq, (&b, &a), back),
        call_ensures(unwrap_ref, (&a,), inner),
    ensures
        same <==> a@ == b@,
        same == back,
        a@ matches TypeView::Ref(t) ==> inner@ == *t,
        !(a@ is Ref) ==> inner@ == a@,
{
}

/// A type is written as its word, a reference with a star before it and an array
/// with brackets behind it.
pub proof fn types_are_written(t: Type, inner: Type, r: String, s: String)
    requires
        call_ensures(type_str, (&t,), r),
        call_ensures(type_str, (&inner,), s),
    ensures
        t@ is Int ==> r@ == "int"@,
        t@ is Quat ==> r@ == "quat"@,
        t@ is Controller ==> r@ == "controller"@,
        t@ == TypeView::Ref(Box::new(inner@)) ==> r@ == "*"@ + s@,
        t@ == TypeView::Array(Box::new(inner@)) ==> r@ == s@ + "[]"@,
{
    crate::typecheck::checking::type_words(t@);
}

/// The words of types stand for them.
pub proof fn type_words_are_read(name: &str, r: Option<Type>)
    requires
        call_ensures(primitive_name, (name,), r),
    ensures
        name@ == "int"@ ==> r is Some && (r->0)@ is Int,
        name@ == "float"@ ==> r is Some && (r->0)@ is Float,
        name@ == "bool"@ ==> r is Some && (r->0)@ is Bool,
        name@ == "string"@ ==> r is Some && (r->0)@ is String,
        name@ == "vector"@ ==> r is Some && (r->0)@ is Vector,
{
    crate::typecheck::checking::type_words(TypeView::Int);
}

/// A component of a vector, a color or a rotator is a float.
pub proof fn components(t: Type, field: &str, r: Option<Type>)
    requires
        call_ensures(resolve_field_in_type, (&t, field), r),
    ensures
        t@ is Vector && (field@ == "x"@ || field@ == "y"@ || field@ == "z"@) ==> r is Some && (
        r->0)@ is Float,
        t@ is Color && (field@ == "r"@ || field@ == "g"@ || field@ == "b"@ || field@ == "a"@) ==> r
            is Some && (r->0)@ is Float,
        t@ is Rotator && (field@ == "pitch"@ || field@ == "yaw"@ || field@ == "roll"@) ==> r is Some
            && (r->0)@ is Float,
        t@ is Int || t@ is Bool || t@ is String ==> r is None,
{
    members_are_typed(t@, field@);
}

/// Arms of one type have that type; arms that differ in kind have any of theirs.
pub proof fn arms_are_joined(tys: Vec<Type>, r: Type)
    requires
        call_ensures(join_arms, (tys,), r),
    ensures
        tys@.len() == 0 ==> r@ is Any,
        tys@.len() == 2 && tys@[0]@ is Int && tys@[1]@ is Int ==> r@ is Int,
        tys@.len() == 2 && tys@[0]@ is Int && tys@[1]@ is Float ==> r@ is Union,
{
    let all = crate::types::type_views(tys@);
    crate::typecheck::typing::matches_join_their_arms(all, TypeView::Int);
    if tys@.len() == 2 && tys@[0]@ is Int && tys@[1]@ is Float {
        assert(all[0] is Int && all[1] is Float);
    }
    if tys@.len() == 2 && tys@[0]@ is Int && tys@[1]@ is Int {
        assert(all[0] == TypeView::Int && all[1] == TypeView::Int);
    }
}

/// The types that work component by component.
pub proof fn componentwise_types(t: Type, r: bool)
    requires
        call_ensures(is_componentwise, (&t,), r),
    ensures
        r <==> t@ is Vector || t@ is Color || t@ is Rotator || t@ is Quat,
{
}

// ---------- the catalog ----------

/// A call is found by its name, and only by its name.
pub proof fn calls_are_found(c: Catalog, name: &str, r: Option<&CallSpec>)
    requires
        call_ensures(Catalog::find_call, (&c, name), r),
    ensures
        r matches Some(f) ==> f.name@ == name@ && c.calls@.contains(*f),
        r is None ==> forall|i: int| 0 <= i < c.calls@.len() ==> #[trigger] c.calls@[i].name@ != name@,
{
    crate::typecheck::typing::calls_are_found_by_name(c.calls@, name@);
}

/// The rule for a pair of types: nothing to do for the same type, or else the
/// first entry of the table.
pub proof fn coercions_are_found(c: Catalog, from: Type, to: Type, r: CoerceRule, i: int)
    requires
        call_ensures(Catalog::coerce, (&c, &from, &to), r),
    ensures
        from@ == to@ || from@ is Any || to@ is Any ==> r == CoerceRule::Same,
        from@ != to@ && !(from@ is Any) && !(to@ is Any) && 0 <= i < c.coercions@.len()
            && c.coercions@[i].from@ == from@ && c.coercions@[i].to@ == to@ && (forall|k: int|
            0 <= k < i ==> !((#[trigger] c.coercions@[k]).from@ == from@ && c.coercions@[k].to@
                == to@)) ==> r == c.coercions@[i].rule,
        from@ != to@ && !(from@ is Any) && !(to@ is Any) && (forall|k: int|
            0 <= k < c.coercions@.len() ==> !((#[trigger] c.coercions@[k]).from@ == from@
                && c.coercions@[k].to@ == to@)) ==> r == CoerceRule::Mismatch,
{
    lemma_coercion(c.coercions@, from@, to@, i);
}

proof fn lemma_coercion(
    table: Seq<crate::catalog::Coercion>,
    from: TypeView,
    to: TypeView,
    i: int,
)
    ensures
        0 <= i < table.len() && table[i].from@ == from && table[i].to@ == to && (forall|k: int|
            0 <= k < i ==> !((#[trigger] table[k]).from@ == from && table[k].to@ == to))
            ==> crate::catalog::coercion_for(table, from, to) == table[i].rule,
        (forall|k: int|
            0 <= k < table.len() ==> !((#[trigger] table[k]).from@ == from && table[k].to@ == to))
            ==> crate::catalog::coercion_for(table, from, to) == CoerceRule::Mismatch,
    decreases table.len(),
{
    if table.len() > 0 {
        let rest = table.drop_first();
        lemma_coercion(rest, from, to, i - 1);
        assert forall|k: int| 0 <= k < rest.len() implies #[trigger] rest[k] == table[k + 1] by {}
        if 0 <= i < table.len() && table[i].from@ == from && table[i].to@ == to && (forall|k: int|
            0 <= k < i ==> !((#[trigger] table[k]).from@ == from && table[k].to@ == to)) {
            if i > 0 {
                assert(!(table[0].from@ == from && table[0].to@ == to));
                assert forall|k: int| 0 <= k < i - 1 implies !((#[trigger] rest[k]).from@ == from
                    && rest[k].to@ == to) by {
                    assert(rest[k] == table[k + 1]);
                }
                assert(rest[i - 1] == table[i]);
            }
        }
        if forall|k: int|
            0 <= k < table.len() ==> !((#[trigger] table[k]).from@ == from && table[k].to@ == to) {
            assert(!(table[0].from@ == from && table[0].to@ == to));
            assert forall|k: int| 0 <= k < rest.len() implies !((#[trigger] rest[k]).from@ == from
                && rest[k].to@ == to) by {
                assert(rest[k] == table[k + 1]);
            }
        }
    }
}

/// The outputs of a call as a record: each port with its own type.
pub proof fn outputs_are_a_record(outs: Vec<OutputSpec>, r: Type, i: int)
    requires
        call_ensures(port_record, (&outs,), r),
        0 <= i < outs@.len(),
    ensures
        r@ is Record,
        r@->Record_0.len() == outs@.len(),
        r@->Record_0[i] == (outs@[i].port@, outs@[i].ty@),
{
}

// ---------- resolving ----------

/// A script without imports is resolved to itself, with nothing to report.
pub proof fn scripts_without_imports(
    parsed: ParseResult,
    file: &str,
    canon: &str,
    files: FileTable,
    r: ResolveResult,
)
    requires
        call_ensures(resolve, (parsed, file, canon, &files), r),
        forall|i: int|
            0 <= i < parsed.file().decls.len() ==> !((#[trigger] parsed.file().decls[i]) is Import),
    ensures
        r@.decls == parsed.file().decls,
        r@.diags == views(parsed.diagnostics@),
        r@.module_doc == parsed.file().module_doc,
{
    crate::resolve::imports::no_imports_no_change(
        files@,
        parsed.file(),
        views(parsed.diagnostics@),
        parsed.ast.range@,
        file@,
        canon@,
    );
}

/// Declarations that can be imported are found by their name; a handler and an
/// import have none.
pub proof fn importable_declarations(d: TopDecl, can: bool, name: Option<&str>)
    requires
        call_ensures(is_importable, (&d,), can),
        call_ensures(decl_name, (&d,), name),
    ensures
        d matches TopDecl::Chip(c) ==> can && name is Some && (name->0)@ == c.name@,
        d matches TopDecl::TypeAlias(t) ==> can && name is Some && (name->0)@ == t.name@,
        d matches TopDecl::Fn(f) ==> can && name is Some && (name->0)@ == f.name@,
        d matches TopDecl::Event(e) ==> can && name is Some && (name->0)@ == e.name@,
        d matches TopDecl::Var(v) ==> can && name is Some && (name->0)@ == v.name@,
        d matches TopDecl::Array(a) ==> can && name is Some && (name->0)@ == a.name@,
        d matches TopDecl::Buffer(b) ==> can && name is Some && (name->0)@ == b.name@,
        d matches TopDecl::In(i) ==> can && name is Some && (name->0)@ == i.name@,
        d matches TopDecl::Out(o) ==> can && name is Some && (name->0)@ == o.name@,
        d matches TopDecl::Callback(c) ==> can && name is Some && (name->0)@ == c.name@,
        d is Let ==> can,
        d is Handler || d is Import ==> !can && name is None,
{
}

// ---------- returns ----------

/// A block of one return.
pub proof fn blocks_of_one_return(b: Block, n: usize, has: bool, valued: bool)
    requires
        call_ensures(count_return_values, (&b,), n),
        call_ensures(block_contains_return, (&b,), has),
        call_ensures(block_has_return_value, (&b,), valued),
        b.stmts@.len() == 1,
        b.stmts@[0] is Return,
    ensures
        has,
        b.stmts@[0]->value is Some ==> n == 1 && valued,
        b.stmts@[0]->value is None ==> n == 0 && !valued,
{
    crate::lower::nesting::returns_are_counted(b.stmts@, 1);
    crate::typecheck::reporting::these_return_values(b.stmts@, 1);
}

// ---------- cards ----------

/// The signature of an event shows each piece of data with its own name and its
/// own type.
pub proof fn event_signatures(data: Vec<EventDataField>, r: String)
    requires
        call_ensures(event_sig, (&data,), r),
    ensures
        data@.len() == 0 ==> r@ == Seq::<char>::empty(),
        data@.len() == 1 ==> r@ == "("@ + (data@[0].name@ + ": "@ + type_text(data@[0].ty@)) + ")"@,
        data@.len() == 2 ==> r@ == "("@ + ((data@[0].name@ + ": "@ + type_text(data@[0].ty@)) + ", "@
            + (data@[1].name@ + ": "@ + type_text(data@[1].ty@))) + ")"@,
{
    event_data_is_shown(data@, 0);
}

/// The outputs of a call are shown with their own types.
pub proof fn output_signatures(outs: Vec<OutputSpec>, r: String)
    requires
        call_ensures(outputs_sig, (&outs,), r),
    ensures
        outs@.len() == 0 ==> r@ == Seq::<char>::empty(),
        outs@.len() == 1 ==> r@ == " -> "@ + type_text(outs@[0].ty@),
        outs@.len() == 2 ==> r@ == " -> ("@ + ((outs@[0].port@ + ": "@ + type_text(outs@[0].ty@))
            + ", "@ + (outs@[1].port@ + ": "@ + type_text(outs@[1].ty@))) + ")"@,
{
    call_outputs_are_shown(outs@);
}

/// The card of a built-in event without data is its name.
pub proof fn cards_of_events(word: &str, c: Catalog, r: Option<String>)
    requires
        call_ensures(hover_builtin_event, (word, &c), r),
    ensures
        c.event(word@) is None <==> r is None,
        c.event(word@) matches Some(e) ==> e.data@.len() == 0 ==> (r->0)@ == "```wirescript\non "@
            + e.surface_name@ + "\n```"@,
{
    event_cards(word@, c);
}

/// The card of an asset names its type and its name.
pub proof fn cards_of_assets(ty: Seq<char>, name: Seq<char>, path: &str, r: String)
    requires
        call_ensures(render_asset_hover, (path,), r),
        path@ == ty + "/"@ + name,
        !ty.contains('/'),
    ensures
        r@ == "**Asset reference**\n\nAn external Brickadia asset, inlined into the "@
            + "gate's data.\n\n"@ + "- Type: `"@ + ty + "`\n- Name: `"@ + name + "`\n"@,
{
    asset_cards(ty, name);
}

/// The field of a record in surface form is found with its own type.
pub proof fn surface_fields(n: Seq<char>, t: Seq<char>, ty: &str, field: &str, r: Option<String>)
    requires
        call_ensures(extract_record_field_type, (ty, field), r),
        ty@ == "{"@ + n + ": "@ + t + "}"@,
        field@ == n,
        crate::analysis::card_laws::flat(n) && crate::analysis::card_laws::flat(t),
        n.len() > 0 && !white(n[0]) && !white(n.last()) && !n.contains(':'),
        t.len() > 0 && !white(t[0]) && !white(t.last()),
    ensures
        r is Some && (r->0)@ == t,
{
    surface_fields_are_typed(n, t);
}

/// The kinds that can be called.
pub proof fn callable_kinds(kind: &str, r: bool)
    requires
        call_ensures(is_callable, (kind,), r),
    ensures
        r <==> kind@ == "mod"@ || kind@ == "chip"@ || kind@ == "fn"@,
{
}

/// A symbol is found by its name, the first of several.
pub proof fn found_symbols(symbols: Vec<SymbolDef>, name: &str, r: Option<&SymbolDef>, i: int)
    requires
        call_ensures(find_symbol, (&symbols, name), r),
        0 <= i < symbols@.len(),
        symbols@[i].name@ == name@,
        forall|k: int| 0 <= k < i ==> (#[trigger] symbols@[k]).name@ != name@,
    ensures
        r is Some && *r->0 == symbols@[i],
{
    symbols_are_found(symbols@, name@, 0, i);
}

// ---------- places ----------

/// A range of text is where it is, in the numbers of an editor.
pub proof fn ranges_stay_where_they_are(t: TextRange, r: LspRange)
    requires
        call_ensures(text_range_to_lsp, (&t,), r),
        t.start_line <= u32::MAX && t.start_col <= u32::MAX && t.end_line <= u32::MAX && t.end_col
            <= u32::MAX,
    ensures
        r.start_line == t.start_line && r.start_char == t.start_col,
        r.end_line == t.end_line && r.end_char == t.end_col,
{
}

/// A place of a script is counted from zero in an editor.
pub proof fn places_are_counted_anew(p: Pos, r: (u32, u32), range: SourceRange, s: LspRange)
    requires
        call_ensures(pos_to_lsp, (p,), r),
        call_ensures(range_to_lsp, (&range,), s),
        0 < p.line <= u32::MAX && 0 < p.col <= u32::MAX,
        0 < range.start.line <= u32::MAX && 0 < range.start.col <= u32::MAX,
        0 < range.end.line <= u32::MAX && 0 < range.end.col <= u32::MAX,
    ensures
        r.0 + 1 == p.line && r.1 + 1 == p.col,
        s.start_line + 1 == range.start.line && s.start_char + 1 == range.start.col,
        s.end_line + 1 == range.end.line && s.end_char + 1 == range.end.col,
{
}

/// A definition is handed on with its place and its file.
pub proof fn definitions_are_handed_on(found: Option<Location>, r: Option<LocationOut>)
    requires
        call_ensures(definition_with_files, (found,), r),
    ensures
        found is None <==> r is None,
        found matches Some(l) ==> (r->0).start_line == l.start_line && (r->0).start_col == l.start_col
            && (r->0).end_line == l.end_line && (r->0).end_col == l.end_col && (r->0).file == l.file,
{
}

/// References are handed on in their order, each with its place; without a word
/// there are none.
pub proof fn references_are_handed_on(
    word: Option<String>,
    found: Vec<TextRange>,
    r: Option<Vec<LocationOut>>,
    i: int,
)
    requires
        call_ensures(references_with_files, (&word, &found), r),
    ensures
        word is None <==> r is None,
        word is Some ==> (r->0)@.len() == found@.len(),
        word is Some && 0 <= i < found@.len() ==> (r->0)@[i].start_line == found@[i].start_line && (
        r->0)@[i].start_col == found@[i].start_col && (r->0)@[i].end_line == found@[i].end_line && (
        r->0)@[i].end_col == found@[i].end_col && (r->0)@[i].file is None,
{
}

/// Hints are handed on in their order, with their place, label and kind.
pub proof fn hints_are_handed_on(hints: Vec<InlayHint>, r: Vec<InlayHintOut>, i: int)
    requires
        call_ensures(inlay_hints, (&hints,), r),
        0 <= i < hints@.len(),
    ensures
        r@.len() == hints@.len(),
        r@[i].line == hints@[i].line,
        r@[i].col == hints@[i].col,
        r@[i].label@ == hints@[i].label@,
        hints@[i].kind is Type ==> r@[i].kind@ == "type"@,
        hints@[i].kind is Parameter ==> r@[i].kind@ == "parameter"@,
{
    assert(crate::analysis::web::same_hint(hints@[i], r@[i]));
}

/// A card is handed on as it is.
pub proof fn cards_are_handed_on(card: Option<String>, r: Option<HoverOut>)
    requires
        call_ensures(hover, (card,), r),
    ensures
        card is None <==> r is None,
        card matches Some(c) ==> (r->0).value@ == c@,
{
}

/// Severities by name.
pub proof fn severities_are_named(s: Severity, r: &'static str)
    requires
        call_ensures(severity_name, (s,), r),
    ensures
        s is Error ==> r@ == "error"@,
        s is Warning ==> r@ == "warning"@,
        s is Info ==> r@ == "info"@,
{
}

/// A document that is laid out already is left alone; any other is replaced as a
/// whole by what it is laid out as.
pub proof fn layouts_replace_documents(source: &str, formatted: String, r: Option<RenameEdit>)
    requires
        call_ensures(formatting, (source, formatted), r),
    ensures
        formatted@ == source@ ==> r is None,
        formatted@ != source@ ==> r is Some,
        r matches Some(e) ==> e@.new_text == formatted@ && e@.range.start_line == 0
            && e@.range.start_char == 0,
{
}

/// A compile command names the script and where its output goes, in that order.
pub proof fn compile_commands(command: &str, args: Vec<Option<String>>, r: CommandPlan)
    requires
        call_ensures(execute_command, (command, &args), r),
    ensures
        command@ != "wirescript.compile"@ ==> r is Ignore,
        command@ == "wirescript.compile"@ && args@.len() < 2 ==> r is Invalid,
        command@ == "wirescript.compile"@ && args@.len() >= 2 && args@[0] is Some && args@[1] is Some
            && (args@[0]->0)@.len() > 0 && (args@[1]->0)@.len() > 0 ==> (r matches CommandPlan::Compile(
            uri,
            out,
        ) && uri@ == (args@[0]->0)@ && out@ == (args@[1]->0)@),
{
}

/// A prefab beside a script is referred to from the script, with forward
/// slashes.
pub proof fn prefabs_are_referred_to(rel: &str, r: String, i: int)
    requires
        call_ensures(prefab_reference, (rel,), r),
        0 <= i < rel@.len(),
    ensures
        r@.len() == rel@.len() + 2,
        r@[0] == '.' && r@[1] == '/',
        rel@[i] != '\\' ==> r@[i + 2] == rel@[i],
        rel@[i] == '\\' ==> r@[i + 2] == '/',
{
    reveal_strlit("./");
}

/// Directories are scanned six deep and until five hundred prefabs are found.
pub proof fn scans_go_on(depth: usize, found: usize, r: bool)
    requires
        call_ensures(keep_scanning, (depth, found), r),
    ensures
        r <==> depth <= 6 && found <= 500,
{
}

/// Scripts beside that are open are not searched twice, and every other one is
/// searched once.
pub proof fn searched_scripts(
    beside: Vec<(String, String)>,
    open: Vec<String>,
    r: Vec<usize>,
    k: usize,
)
    requires
        call_ensures(scripts_to_search, (&beside, &open), r),
        k < beside@.len(),
    ensures
        (forall|i: int| 0 <= i < open@.len() ==> #[trigger] open@[i]@ != beside@[k as int].1@)
            ==> r@.contains(k),
        (exists|i: int| 0 <= i < open@.len() && #[trigger] open@[i]@ == beside@[k as int].1@)
            ==> !r@.contains(k),
{
    assert(crate::analysis::navigate::among(open@, beside@[k as int].1@) <==> exists|i: int|
        0 <= i < open@.len() && #[trigger] open@[i]@ == beside@[k as int].1@);
    assert(r@.contains(k) <==> k < beside@.len() && !crate::analysis::navigate::among(
        open@,
        beside@[k as int].1@,
    ));
}

/// The kind of entry that a member of a namespace has.
pub proof fn kinds_of_members(kind: &str, r: ItemKind)
    requires
        call_ensures(namespace_member_kind, (kind,), r),
    ensures
        kind@ == "mod"@ || kind@ == "chip"@ || kind@ == "fn"@ || kind@ == "callback"@ ==> r
            is Function,
        kind@ == "let"@ ==> r is Constant,
        kind@ == "type"@ ==> r is Class,
        kind@ == "event"@ ==> r is Event,
{
    crate::analysis::offer_laws::lemma_kinds();
}

/// Arrays are told by their kind or by their type, and variables by their kind.
pub proof fn arrays_and_variables(sym: SymbolDef, array: bool, kind: &str, var: bool)
    requires
        call_ensures(is_array_like, (&sym,), array),
        call_ensures(is_variable, (kind,), var),
    ensures
        sym.kind@ == "array"@ ==> array,
        sym.ty matches Some(t) ==> (exists|head: Seq<char>| t@ == #[trigger] (head + "[]"@)) ==> array,
        sym.kind@ != "array"@ && sym.ty is None ==> !array,
        var <==> kind@ == "var"@ || kind@ == "static var"@,
{
    if let Some(t) = sym.ty {
        if exists|head: Seq<char>| t@ == #[trigger] (head + "[]"@) {
            let head = choose|head: Seq<char>| t@ == #[trigger] (head + "[]"@);
            crate::text_laws::texts_start_and_end(head, "[]"@);
        }
    }
}

/// An indent is a tab, or as many blanks as are asked for.
pub proof fn indents_are_made(n: u32, tabs: bool, r: String)
    requires
        call_ensures(indent, (n, tabs), r),
    ensures
        tabs ==> r@ == seq!['\t'],
        !tabs ==> r@.len() == n,
        !tabs ==> forall|i: int| 0 <= i < r@.len() ==> #[trigger] r@[i] == ' ',
{
}

/// The names of an event's data are listed in order.
pub proof fn data_names_are_listed(data: Vec<EventDataField>, r: Vec<String>, i: int)
    requires
        call_ensures(data_name_list, (&data,), r),
        0 <= i < data@.len(),
    ensures
        r@.len() == data@.len(),
        r@[i]@ == data@[i].name@,
{
    assert(crate::text::texts(r@).len() == r@.len());
    assert(crate::text::texts(r@)[i] == r@[i]@);
}

/// The key of an output is apart from its name, and keys of two outputs are
/// apart.
pub proof fn output_keys(a: &str, b: &str, ka: String, kb: String)
    requires
        call_ensures(output_scope_key, (a,), ka),
        call_ensures(output_scope_key, (b,), kb),
    ensures
        a@ != b@ <==> ka@ != kb@,
{
    crate::lower::state::output_keys_apart(a@, b@);
}

/// A prefab reference is taken apart: beside the script, or from the root.
pub proof fn targets_of_prefabs(path: &str, rest: Seq<char>, r: PrefabTarget)
    requires
        call_ensures(prefab_target, (path,), r),
    ensures
        path@ == "./"@ + rest ==> r@ == crate::analysis::hover::TargetView::Beside(rest),
        path@ == "/"@ + rest ==> r@ == crate::analysis::hover::TargetView::Absolute("/"@ + rest),
{
    prefab_targets(rest);
}

/// Every place in an open script is listed, and every place in a script beside
/// that is not open; nothing else is.
pub proof fn references_across_scripts(
    open: Vec<Searched>,
    beside: Vec<Searched>,
    r: Vec<(String, TextRange)>,
    i: int,
    k: int,
)
    requires
        call_ensures(collect_references_across_files, (&open, &beside), r),
    ensures
        0 <= i < open@.len() && 0 <= k < open@[i].places@.len() ==> exists|j: int|
            0 <= j < r@.len() && (#[trigger] r@[j]).0@ == open@[i].uri@ && r@[j].1
                == open@[i].places@[k],
        0 <= i < beside@.len() && beside@[i].path is None && 0 <= k < beside@[i].places@.len()
            ==> exists|j: int|
            0 <= j < r@.len() && (#[trigger] r@[j]).0@ == beside@[i].uri@ && r@[j].1
                == beside@[i].places@[k],
        open@.len() == 0 && beside@.len() == 0 ==> r@.len() == 0,
{
    let v = crate::analysis::navigate::reference_views(r@);
    if 0 <= i < open@.len() && 0 <= k < open@[i].places@.len() {
        let y = (open@[i].uri@, open@[i].places@[k]);
        assert(open@[i].holds(y));
        assert(crate::analysis::navigate::held_by_one(open@, open@.len() as int, y));
        assert(crate::analysis::navigate::found_across(open@, beside@, y));
        assert(v.contains(y));
        let j = choose|j: int| 0 <= j < v.len() && v[j] == y;
        assert(r@[j].0@ == y.0);
    }
    if 0 <= i < beside@.len() && beside@[i].path is None && 0 <= k < beside@[i].places@.len() {
        let y = (beside@[i].uri@, beside@[i].places@[k]);
        assert(beside@[i].holds(y));
        assert(!crate::analysis::navigate::is_open(open@, beside@[i]));
        assert(crate::analysis::navigate::found_across(open@, beside@, y));
        assert(v.contains(y));
        let j = choose|j: int| 0 <= j < v.len() && v[j] == y;
        assert(r@[j].0@ == y.0);
    }
    if open@.len() == 0 && beside@.len() == 0 && r@.len() > 0 {
        assert(v.contains(v[0]));
        assert(!crate::analysis::navigate::found_across(open@, beside@, v[0]));
    }
}

/// Sorting references loses none and adds none, and puts earlier places first.
pub proof fn references_are_sorted(
    found: Vec<(String, TextRange)>,
    r: Vec<(String, TextRange)>,
    i: int,
    j: int,
)
    requires
        call_ensures(sorted_references, (found,), r),
    ensures
        0 <= i < found@.len() ==> exists|k: int|
            0 <= k < r@.len() && (#[trigger] r@[k]).0@ == found@[i].0@ && r@[k].1 == found@[i].1,
        0 <= i < j < r@.len() && r@[i].0@ == r@[j].0@ ==> r@[i].1.start_line <= r@[j].1.start_line,
        0 <= i < j < r@.len() && r@[i].0@ == r@[j].0@ && r@[i].1.start_line == r@[j].1.start_line
            ==> r@[i].1.start_col <= r@[j].1.start_col,
{
    let v = crate::analysis::navigate::reference_views(r@);
    let u = crate::analysis::navigate::reference_views(found@);
    if 0 <= i < found@.len() {
        assert(u[i] == (found@[i].0@, found@[i].1));
        assert(u.contains(u[i]));
        assert(v.contains(u[i]));
        let k = choose|k: int| 0 <= k < v.len() && v[k] == u[i];
        assert(r@[k].0@ == found@[i].0@);
    }
    if 0 <= i < j < r@.len() {
        assert(crate::analysis::navigate::listed_before(v[i], v[j]));
    }
}

/// Diagnostics are shown one behind the other: those of resolving first, then
/// those of checking.
pub proof fn diagnostics_are_shown_in_order(
    resolved: Vec<Diagnostic>,
    checked: Vec<Diagnostic>,
    file: &str,
    r: Vec<DiagnosticOut>,
)
    requires
        call_ensures(diagnostics, (&resolved, &checked, file), r),
        resolved@.len() == 1 && checked@.len() == 1,
        resolved@[0]@.range.file == file@,
        checked@[0]@.range.file == file@,
    ensures
        r@.len() == 2,
        crate::analysis::offer_laws::shown_as(resolved@[0]@, r@[0]@),
        crate::analysis::offer_laws::shown_as(checked@[0]@, r@[1]@),
{
    crate::analysis::offer_laws::diagnostics_are_shown_as_reported(resolved@[0]@);
    crate::analysis::offer_laws::diagnostics_are_shown_as_reported(checked@[0]@);
    let a = views(resolved@);
    let b = views(checked@);
    assert(a[0] == resolved@[0]@ && b[0] == checked@[0]@);
    reveal_with_fuel(crate::analysis::web::diagnostics_out, 2);
    let all = views(r@);
    assert(all.len() == r@.len());
    assert(all[0] == r@[0]@ && all[1] == r@[1]@);
}

/// A loader holds each file under its path, with the text that was given last.
pub proof fn loaders_hold_their_files(files: Vec<(String, String)>, r: MemLoader, i: int)
    requires
        call_ensures(loader_of, (files,), r),
        0 <= i < files@.len(),
        forall|k: int| i < k < files@.len() ==> (#[trigger] files@[k]).0@ != files@[i].0@,
    ensures
        r.files@.contains_key(files@[i].0@),
        r.files@[files@[i].0@] == files@[i].1@,
{
    lemma_texts_by_key(files@, files@.len(), i);
}

proof fn lemma_texts_by_key(v: Seq<(String, String)>, n: nat, i: int)
    requires
        0 <= i < n <= v.len(),
        forall|k: int| i < k < n ==> (#[trigger] v[k]).0@ != v[i].0@,
    ensures
        texts_by_key(v, n).contains_key(v[i].0@),
        texts_by_key(v, n)[v[i].0@] == v[i].1@,
    decreases n,
{
    if i < n - 1 {
        lemma_texts_by_key(v, (n - 1) as nat, i);
        assert(v[n - 1].0@ != v[i].0@);
    }
}

/// A text that is no table of files gives a loader without files.
pub proof fn unreadable_tables_hold_nothing(json: &str, r: MemLoader)
    requires
        call_ensures(make_loader, (json,), r),
    ensures
        json_texts(json@) is None ==> r.files@ == Map::<Seq<char>, Seq<char>>::empty(),
        json_texts(json@) matches Some(m) ==> r.files@ == m,
{
}

/// An empty script has nothing to report and nothing to note.
pub proof fn empty_scripts_are_in_order(script: Script, file: &str, c: Catalog, r: TypeCheckResult)
    requires
        call_ensures(typecheck, (&script, file, &c), r),
        script.decls@.len() == 0,
    ensures
        r.diagnostics@.len() == 0,
        r.type_of_expr@.dom() == Set::<(Seq<char>, usize, usize)>::empty(),
        r.if_contexts@.dom() == Set::<(Seq<char>, usize)>::empty(),
{
    crate::typecheck::reporting::scripts_start_with_the_events(c, script, file@);
    let s = crate::typecheck::ctx::State::initial(file@);
    lemma_events_only_declare(s, c.events@, c.events@.len());
    assert(views(r.diagnostics@).len() == r.diagnostics@.len());
    assert(r.type_of_expr@.dom() =~= Set::<(Seq<char>, usize, usize)>::empty());
    assert(r.if_contexts@.dom() =~= Set::<(Seq<char>, usize)>::empty());
}

proof fn lemma_events_only_declare(
    s: crate::typecheck::ctx::State,
    events: Seq<crate::catalog::EventSpec>,
    n: nat,
)
    ensures
        ({
            let t = crate::typecheck::register::builtin_events(s, events, n);
            t.diags == s.diags && t.types == s.types && t.ifs == s.ifs && t.reads == s.reads
        }),
    decreases n,
{
    if 0 < n <= events.len() {
        lemma_events_only_declare(s, events, (n - 1) as nat);
    }
}

/// The rule of an operator is the first one for its operands.
pub proof fn operator_rules_are_found(
    c: Catalog,
    op: &str,
    operands: Vec<Type>,
    r: Option<&OpRule>,
    i: int,
)
    requires
        call_ensures(Catalog::resolve_op, (&c, op, &operands), r),
        0 <= i < c.operators@.len(),
        c.operators@[i].op@ == op@,
        type_views(c.operators@[i].operands@) == type_views(operands@),
        forall|k: int|
            0 <= k < i ==> !((#[trigger] c.operators@[k]).op@ == op@ && type_views(
                c.operators@[k].operands@,
            ) == type_views(operands@)),
    ensures
        r is Some && *r->0 == c.operators@[i],
{
    crate::typecheck::typing::first_rule_is_taken(c.operators@, op@, type_views(operands@), i);
}

/// A field is found by its name, the first of several, with its own type.
pub proof fn fields_are_found(
    fields: Vec<(String, Type)>,
    name: &str,
    r: Option<&Type>,
    i: int,
)
    requires
        call_ensures(find_field, (&fields, name), r),
        0 <= i < fields@.len(),
        fields@[i].0@ == name@,
        forall|k: int| 0 <= k < i ==> (#[trigger] fields@[k]).0@ != name@,
    ensures
        r is Some && (r->0)@ == fields@[i].1@,
{
    let v = crate::types::field_views(fields@);
    assert(v[i] == (fields@[i].0@, fields@[i].1@));
    assert forall|k: int| 0 <= k < i implies (#[trigger] v[k]).0 != name@ by {
        assert(v[k].0 == fields@[k].0@);
    }
    crate::typecheck::typing::fields_are_found_by_name(v, name@, i);
}

/// Types are of one kind whatever their parts.
pub proof fn kinds_of_types(a: Type, b: Type, r: bool)
    requires
        call_ensures(same_kind, (&a, &b), r),
    ensures
        a@ is Int && b@ is Int ==> r,
        a@ is Int && b@ is Float ==> !r,
        a@ is Ref && b@ is Ref ==> r,
        a@ is Array && b@ is Array ==> r,
        a@ is Array && b@ is Ref ==> !r,
        a@ is Record && b@ is Record ==> r,
        a@ is Record && b@ is Tuple ==> !r,
        a@ == b@ ==> r,
{
}

/// The types of things that stand in the world.
pub proof fn entity_types(t: Type, r: bool)
    requires
        call_ensures(is_entity_family, (&t,), r),
    ensures
        r <==> t@ is Controller || t@ is Character || t@ is Entity || t@ is Brick || t@ is Prefab,
{
}

/// What a variable can hold: plain values, and no pulses, references, arrays or
/// records.
pub proof fn storable_types(t: Type, r: bool)
    requires
        call_ensures(var_storable, (&t,), r),
    ensures
        t@ is Bool || t@ is Int || t@ is Float || t@ is String || t@ is Vector || t@ is Rotator
            || t@ is Quat || t@ is Color || t@ is Entity || t@ is Character || t@ is Controller
            || t@ is Brick || t@ is Prefab <==> r,
{
}

/// A symbol is found by its kind and name together.
pub proof fn found_kinds(
    symbols: Vec<SymbolDef>,
    kind: &str,
    name: &str,
    r: Option<&SymbolDef>,
    i: int,
)
    requires
        call_ensures(find_of_kind, (&symbols, kind, name), r),
        0 <= i < symbols@.len(),
        symbols@[i].kind@ == kind@ && symbols@[i].name@ == name@,
        forall|k: int|
            0 <= k < i ==> (#[trigger] symbols@[k]).kind@ != kind@ || symbols@[k].name@ != name@,
    ensures
        r is Some && *r->0 == symbols@[i],
{
    crate::analysis::field_laws::kinds_are_found(symbols@, kind@, name@, 0, i);
}

/// An estimate names what it counts.
pub proof fn estimates_are_written(est: ResourceEstimate, r: String)
    requires
        call_ensures(format_estimate, (&est, EstimateKind::Scope), r),
    ensures
        r@ == "*"@ + (("~"@ + crate::text::decimal(est.gates as nat) + " gates"@) + ", "@ + (
        crate::text::decimal(est.total_microchips as nat) + " chips"@)) + "*"@,
{
    crate::analysis::card_laws::estimates_are_shown(est);
}

/// A place that goes to a file, a list of references or a definition.
pub proof fn plans_of_going(
    asset: Option<AssetRef>,
    word: Option<String>,
    symbols: Vec<SymbolDef>,
    line: usize,
    r: GotoPlan,
)
    requires
        call_ensures(goto_definition, (&asset, &word, &symbols, line), r),
    ensures
        asset matches Some(a) ==> a.is_file ==> (r matches GotoPlan::OpenPrefab(p) && p@ == a.path@),
        asset matches Some(a) ==> !a.is_file ==> r is Nothing,
        asset is None && symbols@.len() == 0 ==> r is FindDefinition,
{
    crate::analysis::offer_laws::places_are_gone_to(asset, word, symbols@, line);
}

} // verus!
