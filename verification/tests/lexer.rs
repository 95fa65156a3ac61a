//! Tokens of short texts.

use wirescript::lexer::{keyword_set, lex, InterpPart, TokenKind, TokenValue, KEYWORDS};

fn tok_kinds(src: &str) -> Vec<TokenKind> {
    let r = lex(src, "test");
    assert!(r.diagnostics.is_empty(), "unexpected diags: {:?}", r.diagnostics);
    r.tokens.iter().map(|t| t.kind).collect()
}

#[test]
fn empty_source_is_just_eof() {
    assert_eq!(tok_kinds(""), vec![TokenKind::Eof]);
}

#[test]
fn multibyte_chars_do_not_panic() {
    let _ = lex("▲", "test");
    let _ = lex("let x = ▲", "test");
    let r = lex("\"▲ up ▼\"", "test");
    assert!(r.diagnostics.is_empty(), "string with multibyte: {:?}", r.diagnostics);
}

#[test]
fn multibyte_string_value_roundtrips() {
    for lit in ["█", "a█b", "▲ up ▼", "░▒▓█"] {
        let src = format!("\"{lit}\"");
        let r = lex(&src, "t");
        assert!(r.diagnostics.is_empty(), "{lit}: {:?}", r.diagnostics);
        match &r.tokens[0].value {
            Some(TokenValue::Str(s)) => assert_eq!(
                s, lit,
                "lexed value must match source exactly (bytes: {:?} vs {:?})",
                s.as_bytes(),
                lit.as_bytes()
            ),
            other => panic!("expected Str value, got {other:?}"),
        }
    }
}

#[test]
fn var_decl_tokens() {
    assert_eq!(
        tok_kinds("var x: int = 42"),
        vec![TokenKind::Kw, TokenKind::Ident, TokenKind::Colon, TokenKind::Ident, TokenKind::Op, TokenKind::Int, TokenKind::Eof]
    );
}

#[test]
fn string_literal() {
    let r = lex(r#""hello""#, "t");
    assert!(r.diagnostics.is_empty());
    assert_eq!(r.tokens[0].kind, TokenKind::Str);
    match &r.tokens[0].value {
        Some(TokenValue::Str(s)) => assert_eq!(s, "hello"),
        _ => panic!("expected Str value"),
    }
}

#[test]
fn interpolated_string() {
    let r = lex(r#""hi ${name}""#, "t");
    assert!(r.diagnostics.is_empty());
    assert_eq!(r.tokens[0].kind, TokenKind::StrInterp);
    match &r.tokens[0].value {
        Some(TokenValue::Interp(parts)) => {
            assert_eq!(parts.len(), 2);
            matches!(&parts[0], InterpPart::Lit(s) if s == "hi ");
            matches!(&parts[1], InterpPart::Expr { .. });
        }
        _ => panic!("expected Interp value"),
    }
}

#[test]
fn operators_two_char() {
    let r = lex("a && b || c", "t");
    assert!(r.diagnostics.is_empty());
    let kinds: Vec<TokenKind> = r.tokens.iter().map(|t| t.kind).collect();
    assert_eq!(kinds, vec![TokenKind::Ident, TokenKind::Op, TokenKind::Ident, TokenKind::Op, TokenKind::Ident, TokenKind::Eof]);
    assert_eq!(r.tokens[1].text, "&&");
    assert_eq!(r.tokens[3].text, "||");
}

#[test]
fn hex_bin_oct_literals() {
    let r = lex("0xff 0b1010 0o77", "t");
    assert!(r.diagnostics.is_empty());
    assert_eq!(r.tokens[0].kind, TokenKind::Int);
    assert_eq!(r.tokens[0].text, "0xff");
    assert_eq!(r.tokens[1].kind, TokenKind::Int);
    assert_eq!(r.tokens[1].text, "0b1010");
    assert_eq!(r.tokens[2].kind, TokenKind::Int);
    assert_eq!(r.tokens[2].text, "0o77");
}

#[test]
fn float_literal() {
    let r = lex("3.14", "t");
    assert!(r.diagnostics.is_empty());
    assert_eq!(r.tokens[0].kind, TokenKind::Float);
}

#[test]
fn newlines_are_tokens() {
    let r = lex("a\nb", "t");
    let kinds: Vec<TokenKind> = r.tokens.iter().map(|t| t.kind).collect();
    assert_eq!(kinds, vec![TokenKind::Ident, TokenKind::Newline, TokenKind::Ident, TokenKind::Eof]);
}

#[test]
fn block_comment_skipped() {
    let r = lex("a /* b */ c", "t");
    let kinds: Vec<TokenKind> = r.tokens.iter().map(|t| t.kind).collect();
    assert_eq!(kinds, vec![TokenKind::Ident, TokenKind::Ident, TokenKind::Eof]);
}

#[test]
fn keyword_vs_ident() {
    let r = lex("var xyz", "t");
    assert_eq!(r.tokens[0].kind, TokenKind::Kw);
    assert_eq!(r.tokens[0].text, "var");
    assert_eq!(r.tokens[1].kind, TokenKind::Ident);
}

#[test]
fn all_keywords_recognized() {
    for kw in KEYWORDS {
        let r = lex(kw, "t");
        assert_eq!(r.tokens[0].kind, TokenKind::Kw, "{kw} should be recognized as keyword");
        assert_eq!(&r.tokens[0].text, kw);
    }
}

#[test]
fn keyword_set_matches_array() {
    let set = keyword_set();
    assert_eq!(set.len(), KEYWORDS.len(), "keyword set should contain all keywords");
    for kw in KEYWORDS {
        assert!(set.contains(kw), "{kw} missing from keyword set");
    }
}

#[test]
fn annotation_token_lexes() {
    let r = lex("@left in x: bool", "test");
    assert!(r.diagnostics.is_empty(), "diags: {:?}", r.diagnostics);
    assert_eq!(r.tokens[0].kind, TokenKind::Annotation);
    assert_eq!(r.tokens[0].text, "left");
    assert_eq!(r.tokens[1].kind, TokenKind::Kw);
    assert_eq!(r.tokens[1].text, "in");
}

#[test]
fn bare_at_is_still_an_error() {
    let r = lex("@ left", "test");
    assert_eq!(r.diagnostics.len(), 1, "diags: {:?}", r.diagnostics);
    assert!(
        r.diagnostics[0].message.contains("unexpected character '@'"),
        "got: {}",
        r.diagnostics[0].message
    );
}

#[test]
fn positions_count_bytes_and_characters() {
    let r = lex("\"█\" x\ny", "t");
    let x = &r.tokens[1];
    assert_eq!((x.start.offset, x.start.line), (6, 1));
    let y = &r.tokens[3];
    assert_eq!((y.start.offset, y.start.line, y.start.col), (8, 2, 1));
}

#[test]
fn unterminated_string_is_reported() {
    let r = lex("\"abc", "t");
    assert_eq!(r.diagnostics.len(), 1);
    assert_eq!(r.tokens.last().unwrap().kind, TokenKind::Eof);
}

#[test]
fn asset_reference_holds_its_path() {
    let r = lex("$BRItemBase/Weapon_Pistol", "t");
    assert_eq!(r.tokens[0].kind, TokenKind::AssetRef);
    match &r.tokens[0].value {
        Some(TokenValue::Str(s)) => assert_eq!(s, "BRItemBase/Weapon_Pistol"),
        other => panic!("expected a path, got {other:?}"),
    }
}

#[test]
fn escapes_stand_for_characters() {
    let r = lex("\"a\\n\\t\\\"\"", "t");
    match &r.tokens[0].value {
        Some(TokenValue::Str(s)) => assert_eq!(s, "a\n\t\""),
        other => panic!("expected text, got {other:?}"),
    }
}
