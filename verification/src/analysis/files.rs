//! The files that a web editor hands over, as one JSON object.

use crate::assoc::AssocMap;
use crate::resolve::files::MemLoader;
use vstd::prelude::*;

verus! {

/// The texts that a JSON object holds under its keys; nothing where the text is
/// no JSON object, or where one of its values is no text.
pub uninterp spec fn json_texts(json: Seq<char>) -> Option<Map<Seq<char>, Seq<char>>>;

/// The map from the first `n` keys to their texts. A later text of a key hides
/// the earlier ones.
pub open spec fn texts_by_key(v: Seq<(String, String)>, n: nat) -> Map<Seq<char>, Seq<char>>
    decreases n,
{
    if n == 0 || n > v.len() {
        Map::empty()
    } else {
        texts_by_key(v, (n - 1) as nat).insert(v[n - 1].0@, v[n - 1].1@)
    }
}

/// Whether no key stands twice in a list.
pub open spec fn keys_once(v: Seq<(String, String)>) -> bool {
    forall|i: int, j: int| 0 <= i < j < v.len() ==> (#[trigger] v[i]).0@ != (#[trigger] v[j]).0@
}

/// Reads a JSON object of texts with `serde_json::from_str`, into a hash map of
/// strings. What the text holds is a function of the text, and goes by the name
/// [`json_texts`]: there is a map exactly where `from_str` gives one. Its
/// entries are listed once each, in no particular order.
#[verifier::external_body]
fn read_texts(json: &str) -> (r: Option<Vec<(String, String)>>)
    ensures
        r is Some <==> json_texts(json@) is Some,
        r matches Some(v) ==> keys_once(v@) && texts_by_key(v@, v@.len()) == json_texts(json@)->0,
{
    let read: Result<std::collections::HashMap<String, String>, serde_json::Error> =
        serde_json::from_str(json);
    match read {
        Ok(map) => Some(map.into_iter().collect()),
        Err(_) => None,
    }
}

/// The files that a JSON text holds: none where it is no object of texts.
pub open spec fn files_in(json: Seq<char>) -> Map<Seq<char>, Seq<char>> {
    match json_texts(json) {
        Some(m) => m,
        None => Map::empty(),
    }
}

/// The files of an editor, with their texts, each path once.
pub fn read_files(files_json: &str) -> (r: Vec<(String, String)>)
    ensures
        keys_once(r@),
        texts_by_key(r@, r@.len()) == files_in(files_json@),
{
    match read_texts(files_json) {
        Some(v) => v,
        None => Vec::new(),
    }
}

/// A loader of some files.
pub fn loader_of(files: Vec<(String, String)>) -> (r: MemLoader)
    ensures
        r.files@ == texts_by_key(files@, files@.len()),
{
    let mut held: AssocMap<String, String> = AssocMap::new();
    let mut i: usize = 0;
    while i < files.len()
        invariant
            i <= files@.len(),
            held@ == texts_by_key(files@, i as nat),
        decreases files@.len() - i,
    {
        held.insert(files[i].0.clone(), files[i].1.clone());
        i += 1;
    }
    MemLoader { files: held }
}

/// A loader of the files of an editor.
pub fn make_loader(files_json: &str) -> (r: MemLoader)
    ensures
        r.files@ == files_in(files_json@),
{
    loader_of(read_files(files_json))
}

} // verus!
