//! What is offered and shown at a cursor.

use crate::analysis::card_laws::first_place_is_found;
use crate::analysis::navigate::{
    argument_text, compile_diagnostic, edits_of, forward, goto_view, in_type, links_of, ref_fault,
    ref_faults, ref_range, rename_fits, scan_goes_on, server_diagnostic, server_diagnostics,
    text_before, whole_end, word_columns, FoundRef, GotoView, RenameEdit, RenamePlan,
    ServerDiagnosticView,
};
use crate::analysis::offer::{
    asset_fragment, assets_from, dollar_at, dollar_in, facts_from, last_at, prefab_fragment,
    record_fields, type_of_symbol, values_from, variable, CursorSite, EnumField, Tables, TypeFacts,
};
use crate::analysis::server::{ItemKind, ItemView, LspRange};
use crate::analysis::symbols::SymbolDef;
use crate::analysis::text::{byte_len, has_at, line_of, lines};
use crate::analysis::web::{
    data_names, diagnostic_out, diagnostics_out, file_symbols, from_zero, indent_text,
    required_names, symbols_of, CompletionView, DiagnosticOutView, WorkspaceSymbolView,
};
use crate::analysis::{server, web};
use crate::ast::{LetBinding, TopDecl};
use crate::catalog::{CallSpec, Catalog, EventSpec, ParamSpec};
use crate::diagnostic::{DiagnosticView, Severity};
use crate::text::{joined, texts};
use crate::text_laws::parts_are_joined;
use crate::types::type_text;
use vstd::prelude::*;

verus! {

// ---------- diagnostics ----------

/// Places are counted from one in a script and from zero in an editor; a place
/// that is not known is the first.
pub proof fn places_are_counted_from_zero(n: usize)
    ensures
        n > 0 ==> from_zero(n) + 1 == n,
        from_zero(0) == 0,
{
}

/// Whether a diagnostic is shown as it was reported: with its severity, code and
/// message, at its place.
pub open spec fn shown_as(d: DiagnosticView, o: DiagnosticOutView) -> bool {
    &&& o.code == d.code
    &&& o.message == d.message
    &&& d.severity is Error <==> o.severity == "error"@
    &&& d.severity is Warning <==> o.severity == "warning"@
    &&& d.severity is Info <==> o.severity == "info"@
    &&& d.range.start.line > 0 ==> o.start_line + 1 == d.range.start.line
    &&& d.range.start.col > 0 ==> o.start_col + 1 == d.range.start.col
    &&& d.range.end.line > 0 ==> o.end_line + 1 == d.range.end.line
    &&& d.range.end.col > 0 ==> o.end_col + 1 == d.range.end.col
}

/// Every diagnostic is shown as it was reported.
pub proof fn diagnostics_are_shown_as_reported(d: DiagnosticView)
    ensures
        shown_as(d, diagnostic_out(d)),
{
    reveal_strlit("error");
    reveal_strlit("warning");
    reveal_strlit("info");
    assert("error"@.len() == 5 && "warning"@.len() == 7 && "info"@.len() == 4);
}

/// Whether a diagnostic is about a file; one without a file is about every one.
pub open spec fn about(d: DiagnosticView, file: Seq<char>) -> bool {
    d.range.file == file || d.range.file == Seq::<char>::empty()
}

/// The diagnostics of a file are shown, every one of them, in their order; those
/// of other files are not.
pub proof fn diagnostics_of_the_file_are_shown(ds: Seq<DiagnosticView>, file: Seq<char>, n: nat)
    requires
        n <= ds.len(),
    ensures
        forall|k: int|
            0 <= k < n && about(#[trigger] ds[k], file) ==> exists|i: int|
                0 <= i < diagnostics_out(ds, file, n).len() && shown_as(
                    ds[k],
                    #[trigger] diagnostics_out(ds, file, n)[i],
                ),
        forall|i: int|
            0 <= i < diagnostics_out(ds, file, n).len() ==> exists|k: int|
                0 <= k < n && about(#[trigger] ds[k], file) && shown_as(
                    ds[k],
                    #[trigger] diagnostics_out(ds, file, n)[i],
                ),
        n > 0 && about(ds[n - 1], file) ==> diagnostics_out(ds, file, n).len() == 1
            + diagnostics_out(ds, file, (n - 1) as nat).len(),
        n > 0 && !about(ds[n - 1], file) ==> diagnostics_out(ds, file, n) == diagnostics_out(
            ds,
            file,
            (n - 1) as nat,
        ),
    decreases n,
{
    if n > 0 {
        let p = (n - 1) as nat;
        diagnostics_of_the_file_are_shown(ds, file, p);
        let before = diagnostics_out(ds, file, p);
        let all = diagnostics_out(ds, file, n);
        let d = ds[n - 1];
        diagnostics_are_shown_as_reported(d);
        assert(about(d, file) <==> web::shown_in(d, file)) by {
            if d.range.file.len() == 0 {
                assert(d.range.file =~= Seq::empty());
            }
        }
        assert forall|k: int| 0 <= k < n && about(#[trigger] ds[k], file) implies exists|i: int|
            0 <= i < all.len() && shown_as(ds[k], #[trigger] all[i]) by {
            if k < p {
                let i = choose|i: int|
                    0 <= i < before.len() && shown_as(ds[k], #[trigger] before[i]);
                assert(all[i] == before[i]);
            } else {
                assert(shown_as(ds[k], all[all.len() - 1]));
            }
        }
        assert forall|i: int| 0 <= i < all.len() implies exists|k: int|
            0 <= k < n && about(#[trigger] ds[k], file) && shown_as(ds[k], #[trigger] all[i]) by {
            if i < before.len() {
                assert(all[i] == before[i]);
                let k = choose|k: int|
                    0 <= k < p && about(#[trigger] ds[k], file) && shown_as(
                        ds[k],
                        #[trigger] before[i],
                    );
                assert(about(ds[k], file) && shown_as(ds[k], all[i]));
            } else {
                assert(about(ds[p as int], file) && shown_as(ds[p as int], all[i]));
            }
        }
    }
}

/// A server shows the same diagnostics as they were reported.
pub proof fn servers_show_diagnostics(ds: Seq<DiagnosticView>, file: Seq<char>, n: nat)
    requires
        0 < n <= ds.len(),
    ensures
        ({
            let d = ds[n - 1];
            let before = server_diagnostics(ds, file, (n - 1) as nat);
            let all = server_diagnostics(ds, file, n);
            &&& about(d, file) ==> all.len() == before.len() + 1 && all.drop_last() == before
                && all.last().severity == d.severity && all.last().code == d.code
                && all.last().message == d.message
            &&& about(d, file) && 0 < d.range.start.line <= u32::MAX && 0 < d.range.start.col
                <= u32::MAX && 0 < d.range.end.line <= u32::MAX && 0 < d.range.end.col <= u32::MAX
                ==> all.last().range.start_line + 1 == d.range.start.line
                && all.last().range.start_char + 1 == d.range.start.col
                && all.last().range.end_line + 1 == d.range.end.line && all.last().range.end_char + 1
                == d.range.end.col
            &&& !about(d, file) ==> all == before
        }),
{
    let d = ds[n - 1];
    let before = server_diagnostics(ds, file, (n - 1) as nat);
    if d.range.file.len() == 0 {
        assert(d.range.file =~= Seq::empty());
    }
    assert(before.push(server_diagnostic(d)).drop_last() =~= before);
}

/// A compilation reports each diagnostic in its own file.
pub proof fn compilations_report_in_their_file(d: DiagnosticView)
    ensures
        compile_diagnostic(d).file == d.range.file,
        compile_diagnostic(d).code == d.code,
        compile_diagnostic(d).message == d.message,
        d.severity is Error ==> compile_diagnostic(d).severity == "error"@,
        d.severity is Warning ==> compile_diagnostic(d).severity == "warning"@,
        d.severity is Info ==> compile_diagnostic(d).severity == "info"@,
        d.range.start.line > 0 ==> compile_diagnostic(d).start_line + 1 == d.range.start.line,
        d.range.start.col > 0 ==> compile_diagnostic(d).start_char + 1 == d.range.start.col,
        d.range.end.line > 0 ==> compile_diagnostic(d).end_line + 1 == d.range.end.line,
        d.range.end.col > 0 ==> compile_diagnostic(d).end_char + 1 == d.range.end.col,
{
}

/// A reference to a file that is no `.brz` file is warned of, and one to a file
/// that is not there; any other is in order.
pub proof fn references_are_judged(r: FoundRef, stem: Seq<char>)
    ensures
        !r.is_file ==> ref_fault(r) is None,
        r.is_file && r.path@ == stem + ".brz"@ && r.on_disk ==> ref_fault(r) is None,
        r.is_file && r.path@ == stem + ".brz"@ && !r.on_disk ==> ref_fault(r) == Some(
            ServerDiagnosticView {
                range: ref_range(r),
                severity: Severity::Warning,
                code: "prefab-missing"@,
                message: "prefab file not found: "@ + r.resolved@,
            },
        ),
        r.is_file && r.path@.len() > 0 && r.path@.last() != 'z' ==> ref_fault(r) == Some(
            ServerDiagnosticView {
                range: ref_range(r),
                severity: Severity::Warning,
                code: "prefab-ext"@,
                message: "prefab reference `$"@ + r.path@ + "` must end in `.brz`"@,
            },
        ),
        r.line <= u32::MAX && r.start_col <= u32::MAX && r.end_col <= u32::MAX ==> ref_range(
            r,
        ).start_line == r.line && ref_range(r).end_line == r.line && ref_range(r).start_char
            == r.start_col && ref_range(r).end_char == r.end_col,
{
    crate::text_laws::texts_start_and_end(stem, ".brz"@);
    reveal_strlit(".brz");
    let p = r.path@;
    if p.len() >= 4 {
        assert(p.subrange(p.len() - 4, p.len() as int).last() == p.last());
        assert(".brz"@.last() == 'z');
    }
}

/// The faults of references are listed in the order of the references.
pub proof fn faults_are_listed(refs: Seq<FoundRef>, n: nat)
    requires
        0 < n <= refs.len(),
    ensures
        ref_fault(refs[n - 1]) matches Some(d) ==> ref_faults(refs, n) == ref_faults(
            refs,
            (n - 1) as nat,
        ).push(d),
        ref_fault(refs[n - 1]) is None ==> ref_faults(refs, n) == ref_faults(refs, (n - 1) as nat),
{
}

/// A reference to a file that is there is a link to it, and no other is.
pub proof fn files_are_linked(refs: Seq<FoundRef>, n: nat)
    requires
        0 < n <= refs.len(),
    ensures
        refs[n - 1].is_file && refs[n - 1].on_disk ==> links_of(refs, n) == links_of(
            refs,
            (n - 1) as nat,
        ).push((ref_range(refs[n - 1]), refs[n - 1].resolved@)),
        !refs[n - 1].is_file || !refs[n - 1].on_disk ==> links_of(refs, n) == links_of(
            refs,
            (n - 1) as nat,
        ),
{
}

// ---------- tables ----------

/// What is known of a type is found by the type, the first entry of several.
pub proof fn facts_are_found(types: Seq<TypeFacts>, ty: Seq<char>, from: int, i: int)
    requires
        0 <= from <= i < types.len(),
        types[i].ty@ == ty,
        forall|k: int| from <= k < i ==> (#[trigger] types[k]).ty@ != ty,
    ensures
        facts_from(types, ty, from) == Some(types[i]),
    decreases i - from,
{
    if from < i {
        facts_are_found(types, ty, from + 1, i);
    }
}

/// The fields, components, methods and parameters of a type are those of its
/// entry.
pub proof fn tables_go_by_the_type(tables: Tables, ty: Seq<char>, i: int)
    requires
        0 <= i < tables.types@.len(),
        tables.types@[i].ty@ == ty,
        forall|k: int| 0 <= k < i ==> (#[trigger] tables.types@[k]).ty@ != ty,
    ensures
        tables.types@[i].fields matches Some(v) ==> tables.fields(ty) == Some(texts(v@)),
        tables.types@[i].fields is None ==> tables.fields(ty) is None,
        tables.types@[i].params matches Some(v) ==> tables.params(ty) == texts(v@),
        tables.swizzle(ty) == texts(tables.types@[i].swizzle@),
        tables.methods(ty).len() == tables.types@[i].methods@.len(),
        forall|m: int|
            0 <= m < tables.methods(ty).len() ==> #[trigger] tables.methods(ty)[m] == (
                tables.types@[i].methods@[m].0@,
                tables.types@[i].methods@[m].1@,
            ),
{
    facts_are_found(tables.types@, ty, 0, i);
}

/// The assets of a type are found by it.
pub proof fn assets_are_found(assets: Seq<(String, Vec<String>)>, ty: Seq<char>, from: int, i: int)
    requires
        0 <= from <= i < assets.len(),
        assets[i].0@ == ty,
        forall|k: int| from <= k < i ==> (#[trigger] assets[k]).0@ != ty,
    ensures
        assets_from(assets, ty, from) == texts(assets[i].1@),
    decreases i - from,
{
    if from < i {
        assets_are_found(assets, ty, from + 1, i);
    }
}

/// The values of an input are found by the class of its gate and its port.
pub proof fn values_are_found(
    enums: Seq<EnumField>,
    class: Seq<char>,
    port: Seq<char>,
    from: int,
    i: int,
)
    requires
        0 <= from <= i < enums.len(),
        enums[i].class@ == class && enums[i].port@ == port,
        forall|k: int|
            from <= k < i ==> (#[trigger] enums[k]).class@ != class || enums[k].port@ != port,
    ensures
        values_from(enums, class, port, from) == texts(enums[i].values@),
    decreases i - from,
{
    if from < i {
        values_are_found(enums, class, port, from + 1, i);
    }
}

/// The fields of a declared type are those of what the name stands for.
pub proof fn declared_types_have_their_fields(
    tables: Tables,
    name: Seq<char>,
    symbols: Seq<SymbolDef>,
    t: Seq<char>,
)
    requires
        tables.fields(name) is None,
        type_of_symbol(crate::analysis::symbols::kind_named(symbols, "type"@, name)) == Some(t),
    ensures
        record_fields(tables, name, symbols) == tables.fields(t),
{
}

// ---------- what is written before the cursor ----------

proof fn lemma_last_at(a: Seq<char>, c: char, b: Seq<char>)
    requires
        !b.contains(c),
    ensures
        last_at(a + seq![c] + b, c) == a.len(),
    decreases b.len(),
{
    let s = a + seq![c] + b;
    if b.len() > 0 {
        assert(b.contains(b.last()));
        assert(s.last() == b.last());
        assert(s.drop_last() =~= a + seq![c] + b.drop_last());
        assert(!b.drop_last().contains(c)) by {
            if b.drop_last().contains(c) {
                let i = choose|i: int| 0 <= i < b.drop_last().len() && b.drop_last()[i] == c;
                assert(b[i] == c);
            }
        }
        lemma_last_at(a, c, b.drop_last());
    } else {
        assert(s.last() == c);
    }
}

/// The fragment behind the last `$` before the cursor is what is completed.
pub proof fn fragments_follow_the_dollar(a: Seq<char>, frag: Seq<char>, rest: Seq<char>)
    requires
        !frag.contains('$'),
        byte_len(a + seq!['$'] + frag + rest) <= usize::MAX,
    ensures
        ({
            let l = a + seq!['$'] + frag + rest;
            let col = byte_len(a + seq!['$'] + frag) as usize;
            dollar_at(l, col) == Some((byte_len(a) as usize, frag))
        }),
{
    let head = a + seq!['$'] + frag;
    let l = head + rest;
    crate::analysis::card_laws::lemma_byte_concat(head, rest);
    crate::analysis::card_laws::lemma_byte_concat(a, seq!['$'] + frag);
    assert(a + (seq!['$'] + frag) =~= head);
    crate::analysis::card_laws::columns_cut_between_characters(l, head.len() as int);
    assert(l.take(head.len() as int) =~= head);
    lemma_last_at(a, '$', frag);
    assert(head.take(a.len() as int) =~= a);
    assert(head.skip(a.len() as int + 1) =~= frag);
}

/// A prefab path starts with a dot or a slash; an asset holds no dot and no
/// hyphen.
pub proof fn fragments_are_told_apart(frag: Seq<char>)
    ensures
        prefab_fragment(frag) ==> frag.len() > 0 && (frag[0] == '.' || frag[0] == '/'),
        !prefab_fragment(Seq::empty()),
        asset_fragment(Seq::empty()),
        prefab_fragment(seq!['.', '/']) && prefab_fragment(seq!['/']) && prefab_fragment(seq!['.']),
        asset_fragment(seq!['_']) && asset_fragment(seq!['/']),
{
}

// ---------- names behind names ----------

/// Prefabs whose path starts with what is written are offered, and no others.
pub proof fn prefabs_are_offered(frag: Seq<char>, paths: Seq<String>, range: LspRange, n: nat)
    requires
        0 < n <= paths.len(),
    ensures
        ({
            let path = paths[n - 1]@;
            let p = (n - 1) as nat;
            let starts = exists|rest: Seq<char>| path == #[trigger] (frag + rest);
            &&& starts ==> web::prefab_items(frag, paths, n) == web::prefab_items(
                frag,
                paths,
                p,
            ).push(
                CompletionView { label: path, kind: "file"@, detail: None, insert: Some(path) },
            )
            &&& !starts ==> web::prefab_items(frag, paths, n) == web::prefab_items(frag, paths, p)
            &&& starts ==> server::prefab_items(frag, range, paths, n) == server::prefab_items(
                frag,
                range,
                paths,
                p,
            ).push(
                ItemView {
                    label: path,
                    kind: ItemKind::File,
                    detail: None,
                    documentation: None,
                    insert: None,
                    edit: Some((range, path)),
                },
            )
            &&& !starts ==> server::prefab_items(frag, range, paths, n) == server::prefab_items(
                frag,
                range,
                paths,
                p,
            )
        }),
{
    let path = paths[n - 1]@;
    if has_at(path, 0, frag) {
        let rest = path.skip(frag.len() as int);
        assert(path =~= frag + rest) by {
            assert(path.subrange(0, frag.len() as int) =~= frag);
        }
    }
    if exists|rest: Seq<char>| path == #[trigger] (frag + rest) {
        let rest = choose|rest: Seq<char>| path == #[trigger] (frag + rest);
        assert((frag + rest).subrange(0, frag.len() as int) =~= frag);
    }
}

/// A prefab takes the place of what is written behind the `$`.
pub proof fn prefabs_replace_the_fragment(line: usize, dollar: usize, col: usize)
    requires
        line <= u32::MAX && col <= u32::MAX && dollar < col,
    ensures
        ({
            let r = server::fragment_range(line, dollar, col);
            r.start_line == line && r.end_line == line && r.start_char == dollar + 1 && r.end_char
                == col
        }),
{
}

/// Before a slash the asset types are offered, and behind it the assets of the
/// type.
pub proof fn assets_are_offered(ty: Seq<char>, rest: Seq<char>, tables: Tables, i: int)
    requires
        !ty.contains('/'),
    ensures
        web::asset_items(ty + seq!['/'] + rest, tables).len() == tables.asset_names(ty).len(),
        0 <= i < tables.asset_names(ty).len() ==> web::asset_items(ty + seq!['/'] + rest, tables)[i]
            == (CompletionView {
            label: tables.asset_names(ty)[i],
            kind: "constant"@,
            detail: None,
            insert: None,
        }),
        web::asset_items(ty, tables).len() == tables.assets@.len(),
        0 <= i < tables.assets@.len() ==> web::asset_items(ty, tables)[i] == (CompletionView {
            label: tables.assets@[i].0@,
            kind: "class"@,
            detail: None,
            insert: Some(tables.assets@[i].0@ + "/"@),
        }),
        server::asset_items(ty + seq!['/'] + rest, tables).len() == tables.asset_names(ty).len(),
        0 <= i < tables.asset_names(ty).len() ==> server::asset_items(
            ty + seq!['/'] + rest,
            tables,
        )[i].label == tables.asset_names(ty)[i] && server::asset_items(
            ty + seq!['/'] + rest,
            tables,
        )[i].kind is Constant,
        server::asset_items(ty, tables).len() == tables.assets@.len(),
        0 <= i < tables.assets@.len() ==> server::asset_items(ty, tables)[i].label
            == tables.assets@[i].0@ && server::asset_items(ty, tables)[i].kind is Class
            && server::asset_items(ty, tables)[i].insert == Some(tables.assets@[i].0@ + "/"@),
{
    let frag = ty + seq!['/'] + rest;
    first_place_is_found(ty, '/', rest);
    assert(frag.take(ty.len() as int) =~= ty);
}

/// The members of a namespace are offered by their own name.
pub proof fn namespace_members_are_offered(
    symbols: Seq<SymbolDef>,
    prefix: Seq<char>,
    member: Seq<char>,
    n: nat,
)
    requires
        0 < n <= symbols.len(),
        symbols[n - 1].name@ == prefix + member,
        !member.contains('.'),
    ensures
        web::namespace_items(symbols, prefix, n) == web::namespace_items(
            symbols,
            prefix,
            (n - 1) as nat,
        ).push(
            CompletionView { label: member, kind: "method"@, detail: None, insert: Some(member) },
        ),
        server::namespace_items(symbols, prefix, n).drop_last() == server::namespace_items(
            symbols,
            prefix,
            (n - 1) as nat,
        ),
        ({
            let x = server::namespace_items(symbols, prefix, n).last();
            let kind = symbols[n - 1].kind@;
            &&& server::namespace_items(symbols, prefix, n).len() > 0
            &&& x.label == member
            &&& x.insert == Some(member)
            &&& kind == "mod"@ || kind == "chip"@ || kind == "fn"@ || kind == "callback"@
                ==> x.kind is Function
            &&& kind == "let"@ ==> x.kind is Constant
            &&& kind == "type"@ ==> x.kind is Class
            &&& kind == "event"@ ==> x.kind is Event
            &&& kind == "var"@ ==> x.kind is Field
        }),
{
    let name = symbols[n - 1].name@;
    assert(name.subrange(0, prefix.len() as int) =~= prefix);
    assert(name.skip(prefix.len() as int) =~= member);
    let all = server::namespace_items(symbols, prefix, n);
    let before = server::namespace_items(symbols, prefix, (n - 1) as nat);
    assert(all.drop_last() =~= before);
    lemma_kinds();
}

pub proof fn lemma_kinds()
    ensures
        "let"@ != "mod"@ && "let"@ != "chip"@ && "let"@ != "fn"@ && "let"@ != "callback"@,
        "type"@ != "mod"@ && "type"@ != "chip"@ && "type"@ != "fn"@ && "type"@ != "callback"@,
        "event"@ != "mod"@ && "event"@ != "chip"@ && "event"@ != "fn"@ && "event"@ != "callback"@,
        "var"@ != "mod"@ && "var"@ != "chip"@ && "var"@ != "fn"@ && "var"@ != "callback"@,
        "let"@ != "type"@ && "let"@ != "event"@ && "type"@ != "event"@ && "var"@ != "let"@,
        "var"@ != "type"@ && "var"@ != "event"@,
        "let"@ != "in"@ && "let"@ != "var"@ && "let"@ != "static var"@ && "let"@ != "buffer"@,
        "let"@ != "array"@ && "fn"@ != "in"@,
        "namespace"@ != "let"@ && "namespace"@ != "var"@ && "namespace"@ != "static var"@,
        "namespace"@ != "buffer"@ && "namespace"@ != "array"@ && "namespace"@ != "fn"@,
        "namespace"@ != "mod"@ && "namespace"@ != "chip"@ && "namespace"@ != "callback"@,
        "namespace"@ != "in"@ && "namespace"@ != "event"@ && "namespace"@ != "type"@,
        "type"@ != "in"@ && "type"@ != "var"@ && "type"@ != "static var"@ && "type"@ != "buffer"@,
        "type"@ != "array"@,
        "event"@ != "in"@ && "event"@ != "var"@ && "event"@ != "static var"@ && "event"@
            != "buffer"@,
        "event"@ != "array"@,
        "in"@ != "fn"@ && "in"@ != "mod"@ && "in"@ != "chip"@ && "in"@ != "callback"@ && "in"@
            != "var"@,
        "in"@ != "static var"@ && "in"@ != "buffer"@ && "in"@ != "array"@,
        "fn"@ != "var"@ && "fn"@ != "static var"@ && "fn"@ != "buffer"@ && "fn"@ != "array"@,
        "mod"@ != "var"@ && "mod"@ != "static var"@ && "mod"@ != "buffer"@ && "mod"@ != "array"@,
        "chip"@ != "var"@ && "chip"@ != "static var"@ && "chip"@ != "buffer"@ && "chip"@
            != "array"@,
        "var"@ != "array"@,
{
    reveal_strlit("let");
    reveal_strlit("mod");
    reveal_strlit("chip");
    reveal_strlit("fn");
    reveal_strlit("callback");
    reveal_strlit("type");
    reveal_strlit("event");
    reveal_strlit("var");
    reveal_strlit("in");
    reveal_strlit("static var");
    reveal_strlit("buffer");
    reveal_strlit("array");
    reveal_strlit("namespace");
    assert("let"@.len() == 3 && "mod"@.len() == 3 && "chip"@.len() == 4 && "fn"@.len() == 2);
    assert("callback"@.len() == 8 && "type"@.len() == 4 && "event"@.len() == 5 && "var"@.len() == 3);
    assert("in"@.len() == 2 && "static var"@.len() == 10 && "buffer"@.len() == 6 && "array"@.len()
        == 5 && "namespace"@.len() == 9);
    assert("let"@[0] == 'l' && "mod"@[0] == 'm' && "chip"@[0] == 'c' && "fn"@[0] == 'f');
    assert("callback"@[0] == 'c' && "type"@[0] == 't' && "event"@[0] == 'e' && "var"@[0] == 'v');
    assert("in"@[0] == 'i' && "static var"@[0] == 's' && "buffer"@[0] == 'b' && "array"@[0] == 'a');
    assert("namespace"@[0] == 'n');
}

/// What is offered behind a dot goes by what the name before it is.
pub proof fn members_go_by_the_receiver(
    receiver: Seq<char>,
    symbols: Seq<SymbolDef>,
    catalog: Catalog,
    tables: Tables,
    i: int,
    k: int,
)
    requires
        0 <= i < symbols.len(),
        symbols[i].name@ == receiver,
        forall|j: int| 0 <= j < i ==> (#[trigger] symbols[j]).name@ != receiver,
    ensures
        ({
            let sym = symbols[i];
            let w = web::member_items(receiver, symbols, catalog, tables);
            let s = server::member_items(receiver, symbols, catalog, tables);
            &&& sym.kind@ == "array"@ ==> w.len() == catalog.array_methods@.len() && s.len()
                == w.len()
            &&& sym.kind@ == "array"@ && 0 <= k < catalog.array_methods@.len() ==> ({
                let m = catalog.array_methods@[k];
                &&& w[k].label == m.name@ && w[k].kind == "method"@
                &&& w[k].detail == Some(m.name@ + m.signature@ + " - "@ + m.doc@)
                &&& s[k].label == m.name@ && s[k].kind is Method
                &&& s[k].detail == Some(m.name@ + m.signature@)
                &&& s[k].documentation == Some(m.doc@)
            })
            &&& sym.kind@ == "var"@ && sym.ty is None ==> w.len() == 2 && s.len() == 2
                && w[0].label == "Value"@ && w[1].label == "prev"@ && s[0].label == "Value"@
                && s[1].label == "prev"@ && w[0].kind == "field"@ && w[0].insert == Some("Value"@)
                && w[1].insert == Some("prev"@) && s[0].kind is Field && s[1].kind is Field
            &&& sym.kind@ == "let"@ && sym.ty is None ==> w.len() == 0 && s.len() == 0
        }),
        symbols[i].kind@ == "let"@ ==> (symbols[i].ty matches Some(t) ==> !crate::text::ends_with_text(
            t@,
            "[]"@,
        ) ==> (tables.fields(t@) matches Some(names) ==> ({
            let w = web::member_items(receiver, symbols, catalog, tables);
            let s = server::member_items(receiver, symbols, catalog, tables);
            &&& w.len() == names.len() && s.len() == names.len()
            &&& 0 <= k < names.len() ==> w[k].label == names[k] && w[k].kind == "field"@
                && w[k].detail == Some("field"@) && w[k].insert == Some(names[k])
            &&& 0 <= k < names.len() ==> s[k].label == names[k] && s[k].kind is Field
                && s[k].detail == Some("field"@) && s[k].insert == Some(names[k])
        }))),
{
    crate::analysis::card_laws::symbols_are_found(symbols, receiver, 0, i);
    lemma_kinds();
}

/// The components of a value are offered first, then its methods with their
/// signatures.
pub proof fn typed_values_offer_their_members(tables: Tables, ty: Seq<char>, k: int)
    ensures
        ({
            let parts = tables.swizzle(ty);
            let methods = tables.methods(ty);
            let w = web::type_members(tables, ty);
            let s = server::type_members(tables, ty);
            &&& w.len() == parts.len() + methods.len() && s.len() == w.len()
            &&& 0 <= k < parts.len() ==> w[k].label == parts[k] && w[k].kind == "field"@
                && w[k].insert == Some(parts[k]) && s[k].label == parts[k] && s[k].kind is Field
                && s[k].insert == Some(parts[k])
            &&& 0 <= k < methods.len() ==> w[parts.len() + k].label == methods[k].0
                && w[parts.len() + k].kind == "method"@ && w[parts.len() + k].detail == Some(
                methods[k].1,
            ) && s[parts.len() + k].label == methods[k].0 && s[parts.len() + k].kind is Method
                && s[parts.len() + k].detail == Some(methods[k].1)
        }),
{
}

// ---------- arguments ----------

/// The values of an enumerated argument are offered in quotes, unless a quote is
/// there already.
pub proof fn values_are_offered(values: Seq<Seq<char>>, param: Seq<char>, written: Seq<char>, i: int)
    requires
        0 <= i < values.len(),
    ensures
        web::value_items(values, param, written).len() == values.len(),
        server::value_items(values, param, written).len() == values.len(),
        ({
            let w = web::value_items(values, param, written)[i];
            let s = server::value_items(values, param, written)[i];
            &&& w.label == values[i] && s.label == values[i]
            &&& w.kind == "enum"@ && s.kind is EnumMember
            &&& w.detail == Some(param + " value"@) && s.detail == Some(param + " value"@)
            &&& written.contains('"') ==> w.insert == Some(values[i]) && s.insert == Some(values[i])
            &&& !written.contains('"') ==> w.insert == Some("\""@ + values[i] + "\""@) && s.insert
                == Some("\""@ + values[i] + "\""@)
        }),
{
}

/// A parameter is offered with its type; one that may be left out is named.
pub proof fn parameters_are_offered(p: ParamSpec)
    ensures
        p.optional ==> web::param_item(p) == (CompletionView {
            label: p.name@ + " = "@,
            kind: "field"@,
            detail: Some(type_text(p.ty@) + " (optional)"@),
            insert: Some(p.name@ + " = "@),
        }),
        !p.optional ==> web::param_item(p) == (CompletionView {
            label: p.name@,
            kind: "field"@,
            detail: Some(type_text(p.ty@) + " (required)"@),
            insert: None,
        }),
        server::param_item(p).label == web::param_item(p).label,
        server::param_item(p).detail == web::param_item(p).detail,
        server::param_item(p).insert == web::param_item(p).insert,
        server::param_item(p).kind is Field,
{
}

/// Every parameter of a call is offered, in order, but for the receiver of a
/// method.
pub proof fn parameters_are_offered_in_order(spec: CallSpec, n: nat)
    requires
        n <= spec.params@.len(),
    ensures
        spec.receiver is None ==> web::param_items(spec, n).len() == n && server::param_items(
            spec,
            n,
        ).len() == n && forall|k: int|
            0 <= k < n ==> #[trigger] web::param_items(spec, n)[k] == web::param_item(
                spec.params@[k],
            ) && server::param_items(spec, n)[k] == server::param_item(spec.params@[k]),
        spec.receiver is Some && n > 0 ==> web::param_items(spec, n).len() == n - 1
            && server::param_items(spec, n).len() == n - 1 && forall|k: int|
            0 <= k < n - 1 ==> #[trigger] web::param_items(spec, n)[k] == web::param_item(
                spec.params@[k + 1],
            ) && server::param_items(spec, n)[k] == server::param_item(spec.params@[k + 1]),
    decreases n,
{
    assert(web::param_items(spec, 0).len() == 0 && server::param_items(spec, 0).len() == 0);
    if n > 0 {
        parameters_are_offered_in_order(spec, (n - 1) as nat);
    }
}

/// The parameters of a declared callable are offered by name.
pub proof fn declared_parameters_are_offered(
    name: Seq<char>,
    symbols: Seq<SymbolDef>,
    tables: Tables,
    sig: Seq<char>,
    k: int,
)
    requires
        type_of_symbol(web::callable_from(symbols, name, 0)) == Some(sig),
        type_of_symbol(server::called_from(symbols, name, 0)) == Some(sig),
    ensures
        ({
            let names = tables.params(sig);
            let w = web::user_items(name, symbols, tables);
            let s = server::user_items(name, symbols, tables);
            &&& w.len() == names.len() && s.len() == names.len()
            &&& 0 <= k < names.len() ==> w[k].label == names[k] && w[k].kind == "field"@
                && w[k].insert == Some(names[k]) && w[k].detail is None && s[k].label == names[k]
                && s[k].kind is Field && s[k].insert == Some(names[k])
        }),
{
}

/// A callable is found by its name, whatever else has the name.
pub proof fn callables_are_found(symbols: Seq<SymbolDef>, name: Seq<char>, from: int, i: int)
    requires
        0 <= from <= i < symbols.len(),
        symbols[i].name@ == name,
        symbols[i].kind@ == "mod"@ || symbols[i].kind@ == "chip"@ || symbols[i].kind@ == "fn"@,
        forall|k: int| from <= k < i ==> (#[trigger] symbols[k]).name@ != name,
    ensures
        web::callable_from(symbols, name, from) == Some(symbols[i]),
        server::called_from(symbols, name, from) == Some(symbols[i]),
    decreases i - from,
{
    if from < i {
        callables_are_found(symbols, name, from + 1, i);
    }
}

/// In the arguments of a built-in call its values come first, and its parameters
/// where there are none.
pub proof fn arguments_are_offered(
    site: CursorSite,
    symbols: Seq<SymbolDef>,
    catalog: Catalog,
    tables: Tables,
    spec: CallSpec,
)
    requires
        site.call is Some,
        catalog.call(site.call->0@) == Some(spec),
    ensures
        site.argument is None ==> web::call_items(site, symbols, catalog, tables)
            == web::param_items(spec, spec.params@.len()) && server::call_items(
            site,
            symbols,
            catalog,
            tables,
        ) == server::param_items(spec, spec.params@.len()),
        site.argument matches Some(a) ==> forall|i: int|
            0 <= i < spec.params@.len() && (#[trigger] spec.params@[i]).name@ == a.0@ && (forall|
                j: int,
            |
                0 <= j < i ==> (#[trigger] spec.params@[j]).name@ != a.0@) && tables.values(
                spec.gate_class@,
                spec.params@[i].port@,
            ).len() > 0 ==> web::call_items(site, symbols, catalog, tables) == web::value_items(
                tables.values(spec.gate_class@, spec.params@[i].port@),
                a.0@,
                a.1@,
            ) && server::call_items(site, symbols, catalog, tables) == server::value_items(
                tables.values(spec.gate_class@, spec.params@[i].port@),
                a.0@,
                a.1@,
            ),
{
    if let Some(a) = site.argument {
        assert forall|i: int|
            0 <= i < spec.params@.len() && (#[trigger] spec.params@[i]).name@ == a.0@ && (forall|
                j: int,
            |
                0 <= j < i ==> (#[trigger] spec.params@[j]).name@ != a.0@) && tables.values(
                spec.gate_class@,
                spec.params@[i].port@,
            ).len() > 0 implies web::call_items(site, symbols, catalog, tables) == web::value_items(
            tables.values(spec.gate_class@, spec.params@[i].port@),
            a.0@,
            a.1@,
        ) && server::call_items(site, symbols, catalog, tables) == server::value_items(
            tables.values(spec.gate_class@, spec.params@[i].port@),
            a.0@,
            a.1@,
        ) by {
            crate::analysis::card_laws::parameters_are_found(spec.params@, a.0@, 0, i);
        }
    }
}

// ---------- everything else ----------

/// An event is offered with the names of its data, each its own.
pub proof fn events_are_offered(events: Seq<EventSpec>, i: int, k: int)
    requires
        0 <= i < events.len(),
    ensures
        web::event_items(events).len() == events.len(),
        server::event_items(events).len() == events.len(),
        web::event_items(events)[i].label == events[i].surface_name@,
        web::event_items(events)[i].kind == "event"@,
        server::event_items(events)[i].label == events[i].surface_name@,
        server::event_items(events)[i].kind is Event,
        server::event_items(events)[i].detail == web::event_items(events)[i].detail,
        data_names(events[i].data@).len() == events[i].data@.len(),
        0 <= k < events[i].data@.len() ==> data_names(events[i].data@)[k] == events[i].data@[k].name@,
        events[i].data@.len() == 0 ==> web::event_items(events)[i].detail is None,
        events[i].data@.len() == 1 ==> web::event_items(events)[i].detail == Some(
            "("@ + events[i].data@[0].name@ + ")"@,
        ),
        events[i].data@.len() == 2 ==> web::event_items(events)[i].detail == Some(
            "("@ + (events[i].data@[0].name@ + ", "@ + events[i].data@[1].name@) + ")"@,
        ),
{
    let data = events[i].data@;
    let names = data_names(data);
    if data.len() == 1 {
        assert(names =~= seq![data[0].name@]);
        parts_are_joined(names, data[0].name@, data[0].name@, ", "@);
    }
    if data.len() == 2 {
        assert(names =~= seq![data[0].name@, data[1].name@]);
        parts_are_joined(names, data[0].name@, data[1].name@, ", "@);
    }
}

/// The parameters that a call must be given are listed in order.
pub proof fn required_parameters_are_listed(params: Seq<ParamSpec>, n: nat)
    requires
        0 < n <= params.len(),
    ensures
        !params[n - 1].optional ==> required_names(params, n) == required_names(
            params,
            (n - 1) as nat,
        ).push(params[n - 1].name@),
        params[n - 1].optional ==> required_names(params, n) == required_names(
            params,
            (n - 1) as nat,
        ),
        required_names(params, 0) == Seq::<Seq<char>>::empty(),
{
}

/// A built-in call is offered with the parameters that it must be given, or with
/// a mark on those that it need not.
pub proof fn calls_are_offered(calls: Seq<CallSpec>, i: int, k: int)
    requires
        0 <= i < calls.len(),
    ensures
        web::function_items(calls).len() == calls.len(),
        server::function_items(calls).len() == calls.len(),
        web::function_items(calls)[i].label == calls[i].name@,
        web::function_items(calls)[i].kind == "function"@,
        web::function_items(calls)[i].detail == Some(
            "("@ + joined(required_names(calls[i].params@, calls[i].params@.len()), ", "@) + ")"@,
        ),
        server::function_items(calls)[i].label == calls[i].name@,
        server::function_items(calls)[i].kind is Function,
        server::function_items(calls)[i].detail == Some(
            "("@ + joined(server::marked_names(calls[i].params@), ", "@) + ")"@,
        ),
        server::marked_names(calls[i].params@).len() == calls[i].params@.len(),
        0 <= k < calls[i].params@.len() && calls[i].params@[k].optional ==> server::marked_names(
            calls[i].params@,
        )[k] == calls[i].params@[k].name@ + "?"@,
        0 <= k < calls[i].params@.len() && !calls[i].params@[k].optional ==> server::marked_names(
            calls[i].params@,
        )[k] == calls[i].params@[k].name@,
{
}

/// A declared name is offered with its kind and type, unless it stands in a
/// namespace.
pub proof fn declared_names_are_offered(symbols: Seq<SymbolDef>, n: nat)
    requires
        0 < n <= symbols.len(),
        !symbols[n - 1].name@.contains('.'),
    ensures
        ({
            let sym = symbols[n - 1];
            let w = web::symbol_items(symbols, n);
            let s = server::symbol_items(symbols, n);
            let kind = sym.kind@;
            &&& w == web::symbol_items(symbols, (n - 1) as nat).push(w.last())
            &&& w.last().label == sym.name@ && w.last().kind == kind
            &&& sym.ty matches Some(t) ==> w.last().detail == Some(t@)
            &&& sym.ty is None ==> w.last().detail is None
            &&& kind != "callback"@ ==> s.len() == server::symbol_items(
                symbols,
                (n - 1) as nat,
            ).len() + 1 && s.last().label == sym.name@ && s.last().detail == w.last().detail
            &&& kind != "callback"@ ==> s.last().kind == server::symbol_kind(kind)
        }),
{
    let w = web::symbol_items(symbols, n);
    assert(w.drop_last() =~= web::symbol_items(symbols, (n - 1) as nat));
    assert(w =~= w.drop_last().push(w.last()));
}

/// Each kind of declaration has its kind of entry.
pub proof fn kinds_of_entries()
    ensures
        server::symbol_kind("var"@) is Variable,
        server::symbol_kind("static var"@) is Variable,
        server::symbol_kind("buffer"@) is Variable,
        server::symbol_kind("array"@) is Variable,
        server::symbol_kind("fn"@) is Function,
        server::symbol_kind("mod"@) is Function,
        server::symbol_kind("chip"@) is Function,
        server::symbol_kind("in"@) is Field,
        server::symbol_kind("let"@) is Constant,
        server::symbol_kind("event"@) is Event,
        server::symbol_kind("namespace"@) is Module,
        server::symbol_kind("type"@) is Class,
{
    lemma_kinds();
}

/// Without a narrower place everything is offered: keywords, events, calls,
/// types, annotations and the declared names.
pub proof fn everything_is_offered(
    source: Seq<char>,
    symbols: Seq<SymbolDef>,
    catalog: Catalog,
    tables: Tables,
    site: CursorSite,
    line: usize,
    col: usize,
    paths: Seq<String>,
)
    requires
        dollar_in(source, line, col) is None,
        site.receiver is None,
        site.call is None,
    ensures
        web::completion_list(source, symbols, catalog, tables, site, line, col, paths)
            == web::keyword_items() + web::event_items(catalog.events@) + web::function_items(
            catalog.calls@,
        ) + web::type_items() + web::annotation_items() + web::symbol_items(symbols, symbols.len()),
        server::completion_list(source, symbols, catalog, tables, site, line, col, paths)
            == server::symbol_items(symbols, symbols.len()) + server::keyword_items()
            + server::annotation_items() + server::event_items(catalog.events@)
            + server::function_items(catalog.calls@) + server::type_items(),
{
}

/// Inside the arguments of a call what the call takes is offered, and nothing
/// else.
pub proof fn arguments_stay_alone(
    source: Seq<char>,
    symbols: Seq<SymbolDef>,
    catalog: Catalog,
    tables: Tables,
    site: CursorSite,
    line: usize,
    col: usize,
    paths: Seq<String>,
)
    requires
        dollar_in(source, line, col) is None,
        site.receiver is None,
    ensures
        web::call_items(site, symbols, catalog, tables).len() > 0 ==> web::completion_list(
            source,
            symbols,
            catalog,
            tables,
            site,
            line,
            col,
            paths,
        ) == web::call_items(site, symbols, catalog, tables),
        server::call_items(site, symbols, catalog, tables).len() > 0 ==> server::completion_list(
            source,
            symbols,
            catalog,
            tables,
            site,
            line,
            col,
            paths,
        ) == server::call_items(site, symbols, catalog, tables),
{
}

/// Behind a `$` prefabs and assets are offered before anything else.
pub proof fn references_are_offered_first(
    source: Seq<char>,
    symbols: Seq<SymbolDef>,
    catalog: Catalog,
    tables: Tables,
    site: CursorSite,
    line: usize,
    col: usize,
    paths: Seq<String>,
    at: usize,
    frag: Seq<char>,
)
    requires
        dollar_in(source, line, col) == Some((at, frag)),
    ensures
        prefab_fragment(frag) && web::prefab_items(frag, paths, paths.len()).len() > 0
            ==> web::completion_list(source, symbols, catalog, tables, site, line, col, paths)
            == web::prefab_items(frag, paths, paths.len()),
        !prefab_fragment(frag) && asset_fragment(frag) && web::asset_items(frag, tables).len() > 0
            ==> web::completion_list(source, symbols, catalog, tables, site, line, col, paths)
            == web::asset_items(frag, tables),
        !prefab_fragment(frag) && asset_fragment(frag) && server::asset_items(frag, tables).len() > 0
            ==> server::completion_list(source, symbols, catalog, tables, site, line, col, paths)
            == server::asset_items(frag, tables),
{
}

/// The built-in types are offered by these names.
pub proof fn type_names_are_these(i: int)
    requires
        0 <= i < web::type_items().len(),
    ensures
        web::type_items().len() == 11,
        server::type_items().len() == 11,
        web::type_items()[i].kind == "type"@,
        server::type_items()[i].kind is Class,
        web::type_items()[i].label == server::type_items()[i].label,
        web::type_items()[0].label == "int"@,
        web::type_items()[1].label == "float"@,
        web::type_items()[2].label == "bool"@,
{
}

// ---------- symbols of a workspace ----------

/// A declaration is listed under its name and kind, with its file.
pub proof fn declarations_are_listed(file: Seq<char>, decls: Seq<TopDecl>, n: nat)
    requires
        0 < n <= decls.len(),
    ensures
        ({
            let before = file_symbols(file, decls, (n - 1) as nat);
            let all = file_symbols(file, decls, n);
            let entry = |name: Seq<char>, kind: Seq<char>|
                WorkspaceSymbolView { name, kind, file, detail: None };
            match decls[n - 1] {
                TopDecl::Chip(c) => all == before.push(
                    entry(
                        c.name@,
                        if c.inline {
                            "mod"@
                        } else {
                            "chip"@
                        },
                    ),
                ),
                TopDecl::Fn(f) => all == before.push(entry(f.name@, "fn"@)),
                TopDecl::Event(e) => all == before.push(entry(e.name@, "event"@)),
                TopDecl::Let(l) => match l.binding {
                    LetBinding::Ident { name, .. } => all == before.push(entry(name@, "let"@)),
                    _ => all == before,
                },
                _ => all == before,
            }
        }),
{
}

/// The declarations of the files are listed one file behind the other.
pub proof fn files_are_listed(files: Seq<(String, Vec<TopDecl>)>, n: nat)
    requires
        0 < n <= files.len(),
    ensures
        symbols_of(files, n) == symbols_of(files, (n - 1) as nat) + file_symbols(
            files[n - 1].0@,
            files[n - 1].1@,
            files[n - 1].1@.len(),
        ),
        symbols_of(files, 0) == Seq::<WorkspaceSymbolView>::empty(),
{
}

/// An indent is one tab, or as many spaces as are asked for.
pub proof fn indents(n: u32)
    ensures
        indent_text(n, true) == seq!['\t'],
        indent_text(n, false).len() == n,
        forall|i: int| 0 <= i < n ==> #[trigger] indent_text(n, false)[i] == ' ',
{
}

// ---------- going places and renaming ----------

/// A reference to a file leads to the file; a word in a type lists its
/// references, and any other word leads to its definition.
pub proof fn places_are_gone_to(
    asset: Option<crate::analysis::hover::AssetRef>,
    word: Option<String>,
    symbols: Seq<SymbolDef>,
    line: usize,
)
    ensures
        asset matches Some(a) ==> a.is_file ==> goto_view(asset, word, symbols, line)
            == GotoView::OpenPrefab(a.path@),
        asset matches Some(a) ==> !a.is_file ==> goto_view(asset, word, symbols, line)
            is Nothing,
        asset is None && !in_type(symbols, line) ==> goto_view(asset, word, symbols, line)
            is FindDefinition,
        asset is None && in_type(symbols, line) ==> (word matches Some(w) ==> goto_view(
            asset,
            word,
            symbols,
            line,
        ) == GotoView::ListReferences(w@)),
{
}

/// A keyword and whatever is built in keeps its name; a symbol is renamed at its
/// declaration.
pub proof fn names_that_can_be_changed(
    plan: RenamePlan,
    word: Option<String>,
    source: Seq<char>,
    symbols: Seq<SymbolDef>,
    catalog: Catalog,
    line: usize,
    col: usize,
    i: int,
)
    requires
        rename_fits(plan, word, source, symbols, catalog, line, col),
    ensures
        word is None ==> plan is Refuse,
        word matches Some(w) ==> (catalog.call(w@) is Some ==> plan is Refuse),
        word matches Some(w) ==> (catalog.event(w@) is Some ==> plan is Refuse),
        word matches Some(w) ==> (crate::lexer::is_keyword(w@) ==> plan is Refuse),
        word matches Some(w) ==> catalog.call(w@) is None && catalog.event(w@) is None
            && !crate::lexer::is_keyword(w@) ==> !(plan is Refuse),
        word matches Some(w) ==> catalog.call(w@) is None && catalog.event(w@) is None
            && !crate::lexer::is_keyword(w@) && !in_type(symbols, line) && 0 <= i < symbols.len()
            && symbols[i].name@ == w@ && (forall|k: int|
            0 <= k < i ==> (#[trigger] symbols[k]).name@ != w@) ==> plan == RenamePlan::Symbol(
            symbols[i].range,
        ),
{
    if let Some(w) = word {
        if 0 <= i < symbols.len() && symbols[i].name@ == w@ && (forall|k: int|
            0 <= k < i ==> (#[trigger] symbols[k]).name@ != w@) {
            crate::analysis::card_laws::symbols_are_found(symbols, w@, 0, i);
        }
    }
}

/// The edits of a document are those that name it, in their order.
pub proof fn edits_are_of_their_document(
    edits: Seq<(String, RenameEdit)>,
    document: Seq<char>,
    n: nat,
)
    requires
        0 < n <= edits.len(),
    ensures
        edits[n - 1].0@ == document ==> edits_of(edits, document, n) == edits_of(
            edits,
            document,
            (n - 1) as nat,
        ).push(edits[n - 1].1@),
        edits[n - 1].0@ != document ==> edits_of(edits, document, n) == edits_of(
            edits,
            document,
            (n - 1) as nat,
        ),
        edits_of(edits, document, 0).len() == 0,
{
}

/// A document is laid out from its start to the end of its last line.
pub proof fn documents_end_at_their_last_line(a: Seq<char>, b: Seq<char>)
    requires
        a.len() > 0,
        !a.contains('\n'),
        b.len() > 0,
        !b.contains('\n'),
        byte_len(a) <= u32::MAX,
        byte_len(b) <= u32::MAX,
    ensures
        whole_end(a) == (1u32, byte_len(a) as u32),
        whole_end(a + seq!['\n'] + b) == (2u32, byte_len(b) as u32),
        whole_end(Seq::empty()) == (0u32, 0u32),
{
    crate::analysis::card_laws::lines_end_at_breaks(a, b);
    crate::analysis::card_laws::lines_end_at_breaks(b, b);
    let ls = lines(a + seq!['\n'] + b);
    assert(lines(b)[0] == ls[1]);
}

/// Directories are scanned six deep, until more than five hundred prefabs are
/// found.
pub proof fn scans_stop(depth: usize, found: usize)
    ensures
        depth > 6 ==> !scan_goes_on(depth, found),
        found > 500 ==> !scan_goes_on(depth, found),
        depth <= 6 && found <= 500 ==> scan_goes_on(depth, found),
{
}

/// A path goes forward: every backslash is a slash, and nothing else changes.
pub proof fn paths_go_forward(path: Seq<char>, i: int)
    requires
        0 <= i < path.len(),
    ensures
        forward(path).len() == path.len(),
        !forward(path).contains('\\'),
        path[i] != '\\' ==> forward(path)[i] == path[i],
        path[i] == '\\' ==> forward(path)[i] == '/',
        forward(forward(path)) == forward(path),
{
    assert(forward(forward(path)) =~= forward(path));
}

/// Texts are ordered by their first difference, and a text comes before what it
/// starts.
pub proof fn texts_are_ordered(a: Seq<char>, c: char, d: char, x: Seq<char>, y: Seq<char>)
    requires
        c < d,
    ensures
        text_before(a + seq![c] + x, a + seq![d] + y),
        !text_before(a + seq![d] + y, a + seq![c] + x),
        text_before(a, a + seq![c] + x),
        !text_before(a, a),
    decreases a.len(),
{
    let p = a + seq![c] + x;
    let q = a + seq![d] + y;
    if a.len() > 0 {
        let b = a.drop_first();
        texts_are_ordered(b, c, d, x, y);
        assert(p.drop_first() =~= b + seq![c] + x);
        assert(q.drop_first() =~= b + seq![d] + y);
        assert(p[0] == a[0] && q[0] == a[0]);
    } else {
        assert(p[0] == c && q[0] == d);
    }
}

/// An argument of a command that is missing or no text is empty.
pub proof fn arguments_are_texts(args: Seq<Option<String>>, i: int)
    requires
        0 <= i,
    ensures
        i >= args.len() ==> argument_text(args, i) == Seq::<char>::empty(),
        i < args.len() ==> (args[i] matches Some(t) ==> argument_text(args, i) == t@),
        i < args.len() && args[i] is None ==> argument_text(args, i) == Seq::<char>::empty(),
{
}

/// The word at a cursor lies between the columns where it starts and ends.
pub proof fn words_have_their_columns(
    source: Seq<char>,
    line: usize,
    a: Seq<char>,
    w: Seq<char>,
    b: Seq<char>,
    i: int,
)
    requires
        line_of(source, line) == Some(a + w + b),
        crate::analysis::card_laws::all_word(w),
        a.len() > 0 ==> !crate::analysis::text::word_char(a.last()),
        b.len() > 0 ==> !crate::analysis::text::word_char(b[0]),
        0 <= i <= w.len(),
        byte_len(a + w + b) <= u32::MAX,
        (a + w + b).len() <= usize::MAX,
    ensures
        word_columns(source, line, (a.len() + i) as usize) == (
            byte_len(a) as u32,
            byte_len(a + w) as u32,
        ),
{
    let l = a + w + b;
    let c = a.len() + i;
    assert(l.take(c) =~= a + w.take(i));
    assert(crate::analysis::card_laws::all_word(w.take(i))) by {
        assert forall|m: int| 0 <= m < w.take(i).len() implies crate::analysis::text::word_char(
            #[trigger] w.take(i)[m],
        ) by {
            assert(w.take(i)[m] == w[m]);
        }
    }
    crate::analysis::card_laws::lemma_last_break(a, w.take(i));
    assert(l.take(a.len() as int) =~= a);
    let e = (a.len() + w.len()) as int;
    assert forall|m: int| c <= m < e implies crate::analysis::text::word_char(#[trigger] l[m]) by {
        assert(l[m] == w[m - a.len()]);
    }
    if b.len() > 0 {
        assert(l[e] == b[0]);
    }
    crate::analysis::card_laws::lemma_next_break(l, c, e);
    assert(l.take(e) =~= a + w);
    crate::analysis::card_laws::lemma_byte_concat(a + w, b);
    crate::analysis::card_laws::lemma_byte_concat(a, w);
}

/// Without a line there is no word.
pub proof fn no_line_no_word(source: Seq<char>, line: usize, col: usize)
    requires
        line_of(source, line) is None,
    ensures
        word_columns(source, line, col) == (0u32, 0u32),
{
}

/// A callback beside a declaration of its name is offered once.
pub proof fn callbacks_are_offered_once(symbols: Seq<SymbolDef>, n: nat, k: int)
    requires
        0 <= k < n - 1,
        n <= symbols.len(),
        symbols[n - 1].kind@ == "callback"@,
        symbols[k].name@ == symbols[n - 1].name@,
        !symbols[k].name@.contains('.'),
    ensures
        server::symbol_items(symbols, n) == server::symbol_items(symbols, (n - 1) as nat),
{
    server::bare_symbols_are_offered(symbols, (n - 1) as nat, k);
}

/// A name that nothing has stands for nothing behind a dot.
pub proof fn unknown_receivers_have_no_members(
    receiver: Seq<char>,
    symbols: Seq<SymbolDef>,
    catalog: Catalog,
    tables: Tables,
)
    requires
        forall|k: int| 0 <= k < symbols.len() ==> (#[trigger] symbols[k]).name@ != receiver,
    ensures
        web::member_items(receiver, symbols, catalog, tables).len() == 0,
        server::member_items(receiver, symbols, catalog, tables).len() == 0,
{
    crate::analysis::card_laws::unknown_symbols_are_not_found(symbols, receiver, 0);
}

/// A typed variable offers its own fields first, then the members of its type; a
/// namespace offers its members.
pub proof fn variables_and_namespaces_offer_members(
    receiver: Seq<char>,
    symbols: Seq<SymbolDef>,
    catalog: Catalog,
    tables: Tables,
    i: int,
)
    requires
        0 <= i < symbols.len(),
        symbols[i].name@ == receiver,
        forall|j: int| 0 <= j < i ==> (#[trigger] symbols[j]).name@ != receiver,
    ensures
        symbols[i].kind@ == "var"@ ==> (symbols[i].ty matches Some(t) ==> !crate::text::ends_with_text(
            t@,
            "[]"@,
        ) ==> ({
            let w = web::member_items(receiver, symbols, catalog, tables);
            let s = server::member_items(receiver, symbols, catalog, tables);
            &&& w.len() == 2 + web::type_members(tables, t@).len()
            &&& w.skip(2) == web::type_members(tables, t@)
            &&& s.skip(2) == server::type_members(tables, t@)
            &&& w[0].label == "Value"@ && w[1].label == "prev"@
            &&& s[0].label == "Value"@ && s[1].label == "prev"@
        })),
        symbols[i].kind@ == "namespace"@ && symbols[i].ty is None ==> web::member_items(
            receiver,
            symbols,
            catalog,
            tables,
        ) == web::namespace_items(symbols, receiver + "."@, symbols.len()) && server::member_items(
            receiver,
            symbols,
            catalog,
            tables,
        ) == server::namespace_items(symbols, receiver + "."@, symbols.len()),
{
    crate::analysis::card_laws::symbols_are_found(symbols, receiver, 0, i);
    lemma_kinds();
    if symbols[i].kind@ == "var"@ {
        if let Some(t) = symbols[i].ty {
            if !crate::text::ends_with_text(t@, "[]"@) {
                let w = web::member_items(receiver, symbols, catalog, tables);
                let s = server::member_items(receiver, symbols, catalog, tables);
                assert(w.skip(2) =~= web::type_members(tables, t@));
                assert(s.skip(2) =~= server::type_members(tables, t@));
            }
        }
    }
}

} // verus!
