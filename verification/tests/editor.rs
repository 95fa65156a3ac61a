//! Answers to an editor, on values written out by hand.

use wirescript::analysis::fields::{
    extract_record_field_type, find_ending, find_obj_type, resolve_field_in_type,
    resolve_field_via_symbols, split_record_fields,
};
use wirescript::analysis::files::{loader_of, make_loader, read_files};
use wirescript::analysis::hover::{
    format_estimate, hover_if_keyword, hover_on_keyword, prefab_target, render_asset_hover,
    render_decl_hover, render_prefab_file_hover, AssetRef, EstimateKind, OnDisk, PrefabTarget,
};
use wirescript::analysis::navigate::{
    analyze, collect_references_across_files, compile_diagnostics, document_links,
    execute_command, formatting, goto_definition, keep_scanning, prefab_ref_diagnostics,
    prefab_reference, prepare_rename, rename, scripts_to_search, sorted_references, word_range,
    CommandPlan, FoundRef, GotoPlan, RenameEdit, RenamePlan, Searched,
};
use wirescript::analysis::offer::{find_dollar, is_asset_fragment, is_prefab_fragment};
use wirescript::analysis::offer::{CursorSite, Tables, TypeFacts};
use wirescript::analysis::server::{
    build_completions, namespace_member_kind, pos_to_lsp, text_range_to_lsp, ItemKind, LspRange,
};
use wirescript::analysis::symbols::{DeclKey, Estimates, ResourceEstimate, SymbolDef};
use wirescript::analysis::text::{
    chars_before, find_text, is_word_char, line_offset_at, nth_line, split_lines, trim,
    word_start_in_line,
};
use wirescript::analysis::web::{
    completions, definition_with_files, diagnostics, indent, inlay_hints, references_with_files,
    InlayHint, InlayHintKind, Location, TextRange,
};
use wirescript::assoc::{AssocMap, PosKey, SpanKey};
use wirescript::catalog::{CallSpec, Catalog, EventSpec};
use wirescript::diagnostic::{Diagnostic, Pos, Severity, SourceRange};
use wirescript::lexer::{lex, TokenKind, TokenValue};
use wirescript::resolve::files::FileLoader;
use wirescript::text::{dec, join};
use wirescript::types::{type_eq, type_str, unwrap_ref, Type};

fn range(file: &str, start: (usize, usize, usize), end: (usize, usize, usize)) -> SourceRange {
    SourceRange {
        file: file.to_string(),
        start: Pos { offset: start.0, line: start.1, col: start.2 },
        end: Pos { offset: end.0, line: end.1, col: end.2 },
    }
}

fn symbol(name: &str, kind: &str, ty: Option<&str>, first: usize, last: usize) -> SymbolDef {
    SymbolDef {
        name: name.to_string(),
        kind: kind.to_string(),
        range: range("a.ws", (0, first, 1), (9, last, 5)),
        ty: ty.map(|t| t.to_string()),
        is_exec: false,
    }
}

fn text(t: &str) -> Option<String> {
    Some(t.to_string())
}

fn chars(t: &str) -> Vec<char> {
    t.chars().collect()
}

fn catalog() -> Catalog {
    Catalog {
        calls: vec![CallSpec {
            name: "Print".to_string(),
            gate_class: "Gate_Print".to_string(),
            params: Vec::new(),
            outputs: Vec::new(),
            receiver: None,
            needs_exec: true,
        }],
        events: vec![EventSpec { surface_name: "RoundStart".to_string(), data: Vec::new() }],
        operators: Vec::new(),
        coercions: Vec::new(),
        array_methods: Vec::new(),
    }
}

// ---------- text ----------

#[test]
fn letters_of_any_alphabet_belong_to_words() {
    for c in ['a', 'Z', '7', '_', 'é', 'ß', '中', '٣'] {
        assert!(is_word_char(c), "{c} belongs to words");
    }
    for c in [' ', '-', '.', '$', '—', '█', '\u{0}'] {
        assert!(!is_word_char(c), "{c} does not belong to words");
    }
}

#[test]
fn columns_count_bytes() {
    let l = chars("é = x");
    assert_eq!(chars_before(&l, 0), 0);
    assert_eq!(chars_before(&l, 2), 1);
    assert_eq!(chars_before(&l, 5), 4);
    assert_eq!(chars_before(&l, 99), 5);
    assert_eq!(word_start_in_line(&chars("let café = 1"), 9), 4);
    assert_eq!(word_start_in_line(&chars("a b"), 0), 0);
    assert_eq!(word_start_in_line(&chars("▲x"), 3), 3);
    assert_eq!(word_start_in_line(&chars("▲x"), 4), 3);
}

#[test]
fn offsets_of_lines_count_their_breaks() {
    let source = "ab\né\n\nz";
    assert_eq!(line_offset_at(source, 0), 0);
    assert_eq!(line_offset_at(source, 1), 3);
    assert_eq!(line_offset_at(source, 2), 6);
    assert_eq!(line_offset_at(source, 3), 7);
    assert_eq!(line_offset_at(source, 9), 9);
}

#[test]
fn lines_end_at_breaks() {
    for source in ["", "a", "a\n", "a\nb", "a\r\nb\r\n", "\n\n", "a\rb"] {
        let ours: Vec<String> = split_lines(source).iter().map(|l| l.iter().collect()).collect();
        let theirs: Vec<&str> = source.lines().collect();
        assert_eq!(ours, theirs, "{source:?}");
    }
    assert_eq!(nth_line("a\nb", 1), Some(vec!['b']));
    assert_eq!(nth_line("a\nb", 2), None);
}

#[test]
fn trimming_drops_white_space_at_both_ends() {
    assert_eq!(trim(&chars(" \t a b\u{3000}\n")), chars("a b"));
    assert_eq!(trim(&chars("  ")), chars(""));
    assert_eq!(find_text(&chars("a => b"), "=>"), Some(2));
    assert_eq!(find_text(&chars("a = b"), "=>"), None);
}

#[test]
fn numbers_are_written_in_decimal() {
    assert_eq!(dec(0), "0");
    assert_eq!(dec(1207), "1207");
    assert_eq!(dec(usize::MAX), usize::MAX.to_string());
    assert_eq!(join(&vec!["a".to_string(), "b".to_string()], ", "), "a, b");
    assert_eq!(join(&Vec::new(), ", "), "");
}

// ---------- records ----------

#[test]
fn record_fields_are_split_outside_brackets() {
    assert_eq!(
        split_record_fields("a: {x: int, y: int}, b: (int, bool), c: int"),
        vec!["a: {x: int, y: int}", " b: (int, bool)", " c: int"]
    );
    assert!(split_record_fields("").is_empty());
    assert_eq!(split_record_fields("a,"), vec!["a"]);
}

#[test]
fn split_fields_join_to_the_text() {
    for s in ["a: int, b: {x: int, y: int}", "a", ",,a", "x)],y"] {
        assert_eq!(split_record_fields(s).join(","), s);
    }
}

#[test]
fn field_types_are_read_from_a_record_type() {
    let ty = "{pos: {x: int, y: int}, name: string}";
    assert_eq!(extract_record_field_type(ty, "pos"), text("{x: int, y: int}"));
    assert_eq!(extract_record_field_type(ty, "name"), text("string"));
    assert_eq!(extract_record_field_type(ty, "x"), None);
    assert_eq!(extract_record_field_type("int", "name"), None);
}

#[test]
fn fields_are_looked_up_in_types() {
    let record = Type::Record(vec![("hp".to_string(), Type::Int)]);
    assert_eq!(type_str(&resolve_field_in_type(&record, "hp").unwrap()), "int");
    assert!(resolve_field_in_type(&record, "mp").is_none());
    let shared = Type::Ref(Box::new(Type::Record(vec![("hp".to_string(), Type::Int)])));
    assert!(type_eq(&unwrap_ref(&shared), &record));
    let symbols = vec![
        symbol("Stats", "type", Some("{hp: int, mp: float}"), 1, 1),
        symbol("s", "var", Some("Stats"), 2, 2),
    ];
    assert_eq!(resolve_field_via_symbols(&symbols, "s", "mp"), text("float"));
    assert_eq!(resolve_field_via_symbols(&symbols, "s", "xp"), None);
    assert_eq!(resolve_field_via_symbols(&symbols, "t", "mp"), None);
}

#[test]
fn types_are_found_by_where_they_end() {
    let mut types: AssocMap<SpanKey, Type> = AssocMap::new();
    types.insert(SpanKey { file: "a.ws".to_string(), start: 2, end: 5 }, Type::Int);
    types.insert(SpanKey { file: "b.ws".to_string(), start: 2, end: 9 }, Type::Bool);
    assert!(matches!(find_obj_type(&types, "a.ws", 2, 5), Some(Type::Int)));
    assert!(matches!(find_ending(&types, "a.ws", 5), Some(Type::Int)));
    assert!(find_ending(&types, "a.ws", 9).is_none());
}

// ---------- hover ----------

#[test]
fn estimates_name_gates_and_chips() {
    let est = ResourceEstimate { gates: 12, total_microchips: 2 };
    assert_eq!(format_estimate(&est, EstimateKind::Scope), "*~12 gates, 2 chips*");
    assert_eq!(format_estimate(&est, EstimateKind::Chip), "*~12 gates, 3 chips*");
    assert_eq!(
        format_estimate(&est, EstimateKind::Mod),
        "*~12 gates, 2 chips, inlined per call*"
    );
}

#[test]
fn prefab_cards_say_where_the_file_is() {
    assert_eq!(
        render_prefab_file_hover("./a.brz", "dir/a.brz", OnDisk::Bytes(42)),
        "**Prefab file reference**\n\nEmbeds a `.brz` archive into `SpawnPrefab`.\n\n- Reference: `$./a.brz`\n- Resolves to: `dir/a.brz`\n- On disk: 42 bytes\n"
    );
    assert_eq!(
        render_prefab_file_hover("./a.txt", "dir/a.txt", OnDisk::Missing),
        "**Prefab file reference**\n\nEmbeds a `.brz` archive into `SpawnPrefab`.\n\n- Reference: `$./a.txt`\n- Resolves to: `dir/a.txt`\n\n⚠️ Prefab references must end in `.brz` (WS019).\n- ⚠️ Not found on disk\n"
    );
    assert!(matches!(prefab_target("./a.brz"), PrefabTarget::Beside(p) if p == "a.brz"));
    assert!(matches!(prefab_target("/x/a.brz"), PrefabTarget::Absolute(p) if p == "/x/a.brz"));
    assert!(matches!(prefab_target("../a.brz"), PrefabTarget::Beside(p) if p == "../a.brz"));
}

#[test]
fn asset_cards_split_type_and_name() {
    assert!(render_asset_hover("Font/Mono/Bold").ends_with("- Type: `Font`\n- Name: `Mono/Bold`\n"));
    assert!(render_asset_hover("Font").ends_with("- Asset: `Font`\n"));
    assert!(render_asset_hover("Font").starts_with("**Asset reference**\n\n"));
}

fn no_estimates() -> Estimates {
    Estimates { scopes: AssocMap::new(), decls: AssocMap::new() }
}

#[test]
fn if_card_tells_exec_from_pure() {
    let source = "x\n  if a {}";
    let mut contexts: AssocMap<PosKey, bool> = AssocMap::new();
    contexts.insert(PosKey { file: "a.ws".to_string(), start: 4 }, true);
    let exec = hover_if_keyword(source, "a.ws", "if", &contexts, &no_estimates(), 1, 3).unwrap();
    assert!(exec.contains("Branch"));
    contexts.insert(PosKey { file: "a.ws".to_string(), start: 4 }, false);
    let pure = hover_if_keyword(source, "a.ws", "if", &contexts, &no_estimates(), 1, 3).unwrap();
    assert!(pure.contains("Select"));
    assert!(hover_if_keyword(source, "a.ws", "a", &contexts, &no_estimates(), 1, 5).is_none());
}

#[test]
fn handler_card_shows_its_estimate() {
    let source = "on RoundStart {\n}\n";
    assert!(hover_on_keyword(source, "of", &no_estimates(), 0).is_none());
    let mut estimates = no_estimates();
    estimates.scopes.insert(0, ResourceEstimate { gates: 3, total_microchips: 0 });
    let card = hover_on_keyword(source, "on", &estimates, 0).unwrap();
    assert!(card.contains("*~3 gates, 0 chips*"), "{card}");
}

#[test]
fn declaration_card_holds_signature_and_doc() {
    let mut docs: AssocMap<usize, String> = AssocMap::new();
    docs.insert(0, "The score.".to_string());
    let mut estimates = no_estimates();
    estimates.decls.insert(
        DeclKey { name: "m".to_string(), start: 0 },
        ResourceEstimate { gates: 7, total_microchips: 0 },
    );
    let card = render_decl_hover(&symbol("score", "var", Some("int"), 1, 1), &docs, &estimates);
    assert!(card.contains("var score: int"), "{card}");
    assert!(card.contains("The score."), "{card}");
    let card = render_decl_hover(&symbol("m", "mod", Some("(x: int)"), 1, 1), &docs, &estimates);
    assert!(card.contains("*~7 gates, 0 chips, inlined per call*"), "{card}");
}

// ---------- completions ----------

fn no_tables() -> Tables {
    Tables { types: Vec::new(), assets: Vec::new(), enums: Vec::new() }
}

fn nowhere() -> CursorSite {
    CursorSite { receiver: None, call: None, argument: None }
}

#[test]
fn dollar_starts_a_reference() {
    let (at, frag) = find_dollar("x = $./a", 0, 8).unwrap();
    assert_eq!(at, 4);
    assert_eq!(frag, chars("./a"));
    assert!(find_dollar("x = ./a", 0, 7).is_none());
    assert!(is_prefab_fragment(&chars("./a")));
    assert!(!is_prefab_fragment(&chars("Font/A")));
    assert!(is_asset_fragment(&chars("Font/A")));
}

#[test]
fn qualified_names_are_not_offered_bare() {
    let symbols = vec![
        symbol("lib", "namespace", None, 1, 1),
        symbol("lib.run", "mod", Some("()"), 1, 1),
        symbol("score", "var", Some("int"), 2, 2),
    ];
    let none: Vec<String> = Vec::new();
    let web = completions("", &symbols, &catalog(), &no_tables(), &nowhere(), 0, 0, &none);
    let labels: Vec<&str> = web.iter().map(|c| c.label.as_str()).collect();
    assert!(labels.contains(&"score"));
    assert!(labels.contains(&"Print"));
    assert!(!labels.contains(&"lib.run"));
    let items = build_completions("", &symbols, &catalog(), &no_tables(), &nowhere(), 0, 0, &none);
    let labels: Vec<&str> = items.iter().map(|c| c.label.as_str()).collect();
    assert!(labels.contains(&"score"));
    assert!(labels.contains(&"RoundStart"));
    assert!(!labels.contains(&"lib.run"));
}

#[test]
fn members_are_offered_alone() {
    let symbols = vec![
        symbol("lib", "namespace", None, 1, 1),
        symbol("lib.run", "mod", Some("()"), 1, 1),
        symbol("score", "var", Some("int"), 2, 2),
    ];
    let site = CursorSite { receiver: text("lib"), call: None, argument: None };
    let none: Vec<String> = Vec::new();
    let web = completions("lib.", &symbols, &catalog(), &no_tables(), &site, 0, 4, &none);
    let labels: Vec<&str> = web.iter().map(|c| c.label.as_str()).collect();
    assert_eq!(labels, vec!["run"]);
    let items = build_completions("lib.", &symbols, &catalog(), &no_tables(), &site, 0, 4, &none);
    let labels: Vec<&str> = items.iter().map(|c| c.label.as_str()).collect();
    assert_eq!(labels, vec!["run"]);
    assert_eq!(items[0].kind, namespace_member_kind("mod"));
}

#[test]
fn fields_of_a_record_are_members() {
    let symbols = vec![symbol("s", "let", Some("{hp: int}"), 1, 1)];
    let tables = Tables {
        types: vec![TypeFacts {
            ty: "{hp: int}".to_string(),
            fields: Some(vec!["hp".to_string()]),
            swizzle: Vec::new(),
            methods: Vec::new(),
            params: None,
        }],
        assets: Vec::new(),
        enums: Vec::new(),
    };
    let site = CursorSite { receiver: text("s"), call: None, argument: None };
    let web = completions("s.", &symbols, &catalog(), &tables, &site, 0, 2, &Vec::new());
    assert!(web.iter().any(|c| c.label == "hp" && c.kind == "field"));
    let items = build_completions("s.", &symbols, &catalog(), &tables, &site, 0, 2, &Vec::new());
    assert!(items.iter().any(|c| c.label == "hp" && c.kind == ItemKind::Field));
}

// ---------- places ----------

#[test]
fn editor_positions_start_at_zero() {
    assert_eq!(pos_to_lsp(Pos { offset: 9, line: 3, col: 7 }), (2, 6));
    assert_eq!(pos_to_lsp(Pos { offset: 0, line: 0, col: 0 }), (0, 0));
    let t = TextRange { start_line: 1, start_col: 2, end_line: 3, end_col: 4 };
    assert_eq!(
        text_range_to_lsp(&t),
        LspRange { start_line: 1, start_char: 2, end_line: 3, end_char: 4 }
    );
}

#[test]
fn locations_pass_through() {
    assert!(definition_with_files(None).is_none());
    let found = Location { start_line: 1, start_col: 2, end_line: 1, end_col: 6, file: text("b.ws") };
    let out = definition_with_files(Some(found)).unwrap();
    assert_eq!((out.start_line, out.start_col, out.end_line, out.end_col), (1, 2, 1, 6));
    assert_eq!(out.file, text("b.ws"));
    let here = vec![TextRange { start_line: 0, start_col: 4, end_line: 0, end_col: 5 }];
    assert!(references_with_files(&None, &here).is_none());
    let refs = references_with_files(&text("x"), &here).unwrap();
    assert_eq!(refs.len(), 1);
    assert_eq!((refs[0].start_col, refs[0].end_col), (4, 5));
    assert_eq!(refs[0].file, None);
}

#[test]
fn hints_keep_their_kind() {
    let hints = vec![
        InlayHint { line: 1, col: 2, label: ": int".to_string(), kind: InlayHintKind::Type },
        InlayHint { line: 3, col: 4, label: "x:".to_string(), kind: InlayHintKind::Parameter },
    ];
    let out = inlay_hints(&hints);
    assert_eq!(out[0].label, ": int");
    assert_eq!((out[0].line, out[0].col), (1, 2));
    assert_eq!(out[0].kind, "type");
    assert_eq!(out[1].kind, "parameter");
}

// ---------- layout ----------

#[test]
fn documents_are_laid_out_with_their_indent() {
    assert_eq!(indent(4, false), "    ");
    assert_eq!(indent(4, true), "\t");
    assert_eq!(indent(0, false), "");
    let laid_out = wirescript::analysis::web::format("a", 2, false, &|source: &str, indent: &str| {
        let mut out = indent.to_string();
        out.push_str(source);
        out
    });
    assert_eq!(laid_out, "  a");
    let with_tabs = |size: u32| {
        wirescript::analysis::web::format("a", size, true, &|source: &str, indent: &str| {
            let mut out = indent.to_string();
            out.push_str(source);
            out
        })
    };
    assert_eq!(with_tabs(2), "\ta");
    assert_eq!(with_tabs(2), with_tabs(8));
}

#[test]
fn only_a_change_is_an_edit() {
    assert!(formatting("a\n", "a\n".to_string()).is_none());
    let e = formatting("a\nbé", "x".to_string()).unwrap();
    assert_eq!(e.new_text, "x");
    assert_eq!(
        e.range,
        LspRange { start_line: 0, start_char: 0, end_line: 2, end_char: 3 }
    );
}

// ---------- diagnostics ----------

fn diagnostic(file: &str, severity: Severity, code: &str) -> Diagnostic {
    Diagnostic {
        severity,
        code: code.to_string(),
        message: "wrong".to_string(),
        range: range(file, (4, 2, 3), (5, 2, 4)),
    }
}

fn found(path: &str, is_file: bool, on_disk: bool) -> FoundRef {
    FoundRef {
        path: path.to_string(),
        is_file,
        line: 1,
        start_col: 4,
        end_col: 12,
        resolved: "/w/a.brz".to_string(),
        on_disk,
    }
}

#[test]
fn prefab_references_are_checked() {
    let refs = vec![
        found("./a.txt", true, false),
        found("./a.brz", true, false),
        found("./a.brz", true, true),
        found("Font/A", false, false),
    ];
    let ds = prefab_ref_diagnostics(&refs);
    assert_eq!(ds.len(), 2);
    assert_eq!(ds[0].code, "prefab-ext");
    assert_eq!(ds[0].message, "prefab reference `$./a.txt` must end in `.brz`");
    assert_eq!(ds[1].code, "prefab-missing");
    assert_eq!(ds[1].message, "prefab file not found: /w/a.brz");
    assert_eq!(ds[1].severity, Severity::Warning);
    let links = document_links(&refs);
    assert_eq!(links.len(), 1);
    assert_eq!(links[0].1, "/w/a.brz");
    assert_eq!(
        links[0].0,
        LspRange { start_line: 1, start_char: 4, end_line: 1, end_char: 12 }
    );
}

#[test]
fn diagnostics_of_other_files_stay_out() {
    let resolved = vec![diagnostic("b.ws", Severity::Error, "WS010")];
    let checked = vec![
        diagnostic("a.ws", Severity::Error, "WS001"),
        diagnostic("a.ws", Severity::Warning, "WS024"),
    ];
    let ds = analyze(&resolved, &checked, &vec![found("x.txt", true, true)], "a.ws");
    let codes: Vec<&str> = ds.iter().map(|d| d.code.as_str()).collect();
    assert_eq!(codes, vec!["WS001", "WS024", "prefab-ext"]);
    let web = diagnostics(&resolved, &checked, "a.ws");
    assert_eq!(web.len(), 2);
    assert_eq!(web[0].severity, "error");
    assert_eq!(web[1].severity, "warning");
    assert_eq!((web[0].start_line, web[0].start_col), (1, 2));
    let all = compile_diagnostics(&resolved);
    assert_eq!(all[0].file, "b.ws");
    assert_eq!((all[0].start_line, all[0].start_char, all[0].end_char), (1, 2, 3));
}

// ---------- references and renaming ----------

fn at(line: usize, col: usize) -> TextRange {
    TextRange { start_line: line, start_col: col, end_line: line, end_col: col + 1 }
}

#[test]
fn references_come_in_order_and_once() {
    let found = vec![
        ("b.ws".to_string(), at(0, 0)),
        ("a.ws".to_string(), at(2, 1)),
        ("a.ws".to_string(), at(1, 9)),
        ("b.ws".to_string(), at(0, 0)),
        ("a.ws".to_string(), at(2, 0)),
    ];
    let mut turned: Vec<(String, TextRange)> =
        found.iter().map(|f| (f.0.clone(), f.1)).collect();
    turned.reverse();
    let list = sorted_references(found);
    let places: Vec<(&str, usize, usize)> =
        list.iter().map(|r| (r.0.as_str(), r.1.start_line, r.1.start_col)).collect();
    assert_eq!(places, vec![("a.ws", 1, 9), ("a.ws", 2, 0), ("a.ws", 2, 1), ("b.ws", 0, 0)]);
    assert_eq!(sorted_references(turned), list);
}

fn searched(uri: &str, path: Option<&str>, places: Vec<TextRange>) -> Searched {
    Searched { uri: uri.to_string(), path: path.map(|p| p.to_string()), places }
}

/// Where a word stands in a text without characters beyond ASCII.
fn places_of(source: &str, word: &str) -> Vec<TextRange> {
    let mut out = Vec::new();
    for (line, row) in source.lines().enumerate() {
        for (col, _) in row.match_indices(word) {
            out.push(TextRange {
                start_line: line,
                start_col: col,
                end_line: line,
                end_col: col + word.len(),
            });
        }
    }
    out
}

#[test]
fn cross_file_references_skip_open_docs_even_with_respelled_uris() {
    let source = "mod foo() {\n}\nin go: exec\non go { foo() }\n";
    let canonical_uri = "file:///tmp/refs/main.ws";
    // The same file with one letter percent-encoded, as some editors spell it.
    let client_uri = canonical_uri.replacen("main.ws", "mai%6E.ws", 1);
    assert_ne!(client_uri, canonical_uri, "respelling must differ");
    let path = "/tmp/refs/main.ws";

    let open = vec![searched(&client_uri, Some(path), places_of(source, "foo"))];
    let beside = vec![searched(canonical_uri, Some(path), places_of(source, "foo"))];
    let refs = collect_references_across_files(&open, &beside);

    assert_eq!(
        refs.len(),
        2,
        "each site once (def + call), not doubled by the disk scan: {refs:?}"
    );
    assert!(
        refs.iter().all(|(u, _)| u == &client_uri),
        "sites must be reported under the open doc's URI: {refs:?}"
    );
    let names = vec![(canonical_uri.to_string(), path.to_string())];
    assert!(scripts_to_search(&names, &vec![path.to_string()]).is_empty());
}

#[test]
fn scripts_that_are_not_open_are_searched_too() {
    let open = vec![
        searched("file:///d/b.ws", Some("/d/b.ws"), vec![at(3, 0)]),
        searched("untitled:1", None, vec![at(1, 1)]),
    ];
    let beside = vec![
        searched("file:///d/a.ws", Some("/d/a.ws"), vec![at(2, 0), at(0, 5)]),
        searched("file:///D/b.ws", Some("/d/b.ws"), vec![at(3, 0)]),
    ];
    let refs = collect_references_across_files(&open, &beside);
    let listed: Vec<(&str, usize)> = refs.iter().map(|r| (r.0.as_str(), r.1.start_line)).collect();
    assert_eq!(
        listed,
        vec![
            ("file:///d/a.ws", 0),
            ("file:///d/a.ws", 2),
            ("file:///d/b.ws", 3),
            ("untitled:1", 1)
        ]
    );
    let names: Vec<(String, String)> = ["a", "b", "c"]
        .iter()
        .map(|n| (format!("file:///d/{n}.ws"), format!("/d/{n}.ws")))
        .collect();
    assert_eq!(scripts_to_search(&names, &vec!["/d/b.ws".to_string()]), vec![0, 2]);
    assert_eq!(scripts_to_search(&names, &Vec::new()), vec![0, 1, 2]);
}

#[test]
fn definition_of_what_is_under_the_cursor() {
    let symbols = vec![symbol("Stats", "type", Some("{hp: int}"), 2, 4)];
    let file = Some(AssetRef { path: "./a.brz".to_string(), is_file: true });
    let asset = Some(AssetRef { path: "Font/A".to_string(), is_file: false });
    assert!(matches!(
        goto_definition(&file, &None, &symbols, 0),
        GotoPlan::OpenPrefab(p) if p == "./a.brz"
    ));
    assert!(matches!(goto_definition(&asset, &text("A"), &symbols, 0), GotoPlan::Nothing));
    assert!(matches!(
        goto_definition(&None, &text("hp"), &symbols, 2),
        GotoPlan::ListReferences(w) if w == "hp"
    ));
    assert!(matches!(
        goto_definition(&None, &text("hp"), &symbols, 5),
        GotoPlan::FindDefinition
    ));
    assert!(matches!(goto_definition(&None, &None, &symbols, 2), GotoPlan::FindDefinition));
}

#[test]
fn built_in_names_are_not_renamed() {
    let symbols = vec![
        symbol("score", "var", Some("int"), 1, 1),
        symbol("Stats", "type", None, 3, 4),
    ];
    let source = "var score: int\nscore = other\ntype Stats = {\n  hp: int }\n";
    let c = catalog();
    for w in ["Print", "RoundStart", "var"] {
        assert!(matches!(
            prepare_rename(&text(w), source, &symbols, &c, 1, 0),
            RenamePlan::Refuse
        ));
    }
    assert!(matches!(prepare_rename(&None, source, &symbols, &c, 1, 0), RenamePlan::Refuse));
    match prepare_rename(&text("score"), source, &symbols, &c, 1, 2) {
        RenamePlan::Symbol(r) => assert_eq!(r.start.line, 1),
        other => panic!("not a symbol: {other:?}"),
    }
    assert!(matches!(
        prepare_rename(&text("other"), source, &symbols, &c, 1, 9),
        RenamePlan::Word(8, 13)
    ));
    assert!(matches!(
        prepare_rename(&text("hp"), source, &symbols, &c, 3, 3),
        RenamePlan::Word(2, 4)
    ));
    assert_eq!(word_range(source, 9, 0), (0, 0));
    assert_eq!(word_range("▲x", 0, 1), (3, 4));
}

#[test]
fn edits_are_gathered_by_document() {
    let edit = |line: u32| RenameEdit {
        range: LspRange { start_line: line, start_char: 0, end_line: line, end_char: 1 },
        new_text: "n".to_string(),
    };
    let edits = vec![
        ("b".to_string(), edit(0)),
        ("a".to_string(), edit(1)),
        ("b".to_string(), edit(2)),
    ];
    let groups = rename(edits);
    assert_eq!(groups.len(), 2);
    assert_eq!(groups[0].document, "b");
    let lines: Vec<u32> = groups[0].edits.iter().map(|e| e.range.start_line).collect();
    assert_eq!(lines, vec![0, 2]);
    assert_eq!(groups[1].edits.len(), 1);
    assert_eq!(groups[1].edits[0].new_text, "n");
}

// ---------- commands ----------

#[test]
fn compile_command_needs_both_arguments() {
    let both = vec![text("file:///a.ws"), text("/tmp/a.brz")];
    assert!(matches!(
        execute_command("wirescript.compile", &both),
        CommandPlan::Compile(uri, out) if uri == "file:///a.ws" && out == "/tmp/a.brz"
    ));
    assert!(matches!(execute_command("other", &both), CommandPlan::Ignore));
    for args in [vec![], vec![text("file:///a.ws")], vec![None, text("x")], vec![text("a"), text("")]]
    {
        assert!(matches!(execute_command("wirescript.compile", &args), CommandPlan::Invalid));
    }
}

#[test]
fn prefab_scan_is_bounded() {
    assert!(keep_scanning(6, 500));
    assert!(!keep_scanning(7, 0));
    assert!(!keep_scanning(0, 501));
    assert_eq!(prefab_reference("sub\\a.brz"), "./sub/a.brz");
}

// ---------- files of an editor ----------

#[test]
fn files_are_read_from_json() {
    let mut files = read_files("{\"b.ws\": \"var x: int\\n\", \"a.ws\": \"\\u00e9\"}");
    files.sort();
    assert_eq!(
        files,
        vec![
            ("a.ws".to_string(), "é".to_string()),
            ("b.ws".to_string(), "var x: int\n".to_string()),
        ]
    );
    for bad in ["", "[]", "{", "{\"a.ws\": 1}", "null"] {
        assert!(read_files(bad).is_empty(), "{bad}");
    }
}

#[test]
fn loaders_hold_the_files_of_an_editor() {
    let loader = make_loader("{\"lib.ws\": \"mod m() {}\"}");
    assert_eq!(loader.load("lib", "editor"), Ok("mod m() {}".to_string()));
    assert_eq!(loader.load("lib.ws", "editor"), Ok("mod m() {}".to_string()));
    assert_eq!(loader.load("other", "editor"), Err("file not found: 'other'".to_string()));
    assert!(make_loader("{}").load("lib", "editor").is_err());
    let twice = vec![
        ("a.ws".to_string(), "1".to_string()),
        ("a.ws".to_string(), "2".to_string()),
    ];
    assert_eq!(loader_of(twice).load("a", "editor"), Ok("2".to_string()));
}

// ---------- laws on concrete values ----------

#[test]
fn tokens_come_in_text_order_with_one_end() {
    let r = lex("var é = \"x\" // c\nemit y", "t");
    for w in r.tokens.windows(2) {
        assert!(w[0].end.offset <= w[1].start.offset);
    }
    let ends = r.tokens.iter().filter(|t| t.kind == TokenKind::Eof).count();
    assert_eq!(ends, 1);
    assert_eq!(r.tokens.last().unwrap().kind, TokenKind::Eof);
}

#[test]
fn plain_strings_and_words_round_trip() {
    let r = lex("'hello there'", "t");
    match &r.tokens[0].value {
        Some(TokenValue::Str(s)) => assert_eq!(s, "hello there"),
        other => panic!("expected text, got {other:?}"),
    }
    let r = lex("some_word1", "t");
    assert_eq!(r.tokens.len(), 2);
    assert_eq!(r.tokens[0].kind, TokenKind::Ident);
    assert_eq!(r.tokens[0].text, "some_word1");
}

#[test]
fn canonical_path_is_its_own() {
    let loader = make_loader("{}");
    let once = loader.canonical_path("lib/util", "main.ws");
    assert_eq!(once, "lib/util.ws");
    assert_eq!(loader.canonical_path(&once, "main.ws"), once);
}
