//! The cache file: the last accepted snapshot as a JSON object that maps
//! each absolute path to its modification time.

use crate::snapshot::{distinct_paths, entries_map, FileTimestamp, Snapshot};
use vstd::prelude::*;

verus! {

/// The error of `serde_json`, carried through as it is.
#[verifier::external_type_specification]
#[verifier::external_body]
pub struct ExJsonError(serde_json::Error);

/// The mapping that `serde_json` reads from a cache file, or `None` where it
/// rejects the text as a JSON object of integers.
pub uninterp spec fn json_cache_mapping(text: Seq<u8>) -> Option<Map<Seq<char>, i64>>;

/// The pretty JSON text that `serde_json` writes for a mapping, or `None`
/// where it reports an error.
pub uninterp spec fn json_cache_text(mapping: Map<Seq<char>, i64>) -> Option<Seq<u8>>;

/// Calls `serde_json::from_slice` for a map from strings to `i64`. Trusted:
/// the files that come back name each path once, and the mapping they stand
/// for is a function of the text alone.
#[verifier::external_body]
fn parse_cache_json(text: &[u8]) -> (r: Result<Vec<FileTimestamp>, serde_json::Error>)
    ensures
        match r {
            Ok(list) => distinct_paths(list@) && json_cache_mapping(text@) == Some(
                entries_map(list@),
            ),
            Err(_) => json_cache_mapping(text@).is_none(),
        },
{
    let parsed: std::collections::BTreeMap<String, i64> = serde_json::from_slice(text)?;
    Ok(parsed.into_iter().map(|(path, mtime)| FileTimestamp { path, mtime }).collect())
}

/// Calls `serde_json::to_vec_pretty` on the files as a map from path to
/// time. Trusted: the text is a function of the mapping alone.
#[verifier::external_body]
fn print_cache_json(list: &Vec<FileTimestamp>) -> (r: Result<Vec<u8>, serde_json::Error>)
    requires
        distinct_paths(list@),
    ensures
        match r {
            Ok(text) => json_cache_text(entries_map(list@)) == Some(text@),
            Err(_) => json_cache_text(entries_map(list@)).is_none(),
        },
{
    let mapping: std::collections::BTreeMap<&str, i64> = list.iter().map(
        |e| (e.path.as_str(), e.mtime),
    ).collect();
    serde_json::to_vec_pretty(&mapping)
}

/// What a cache file is read as: an absent file and a malformed one both
/// give the empty snapshot, so that the next check rebuilds everything.
pub open spec fn loaded_cache(contents: Option<Seq<u8>>) -> Map<Seq<char>, i64> {
    match contents {
        Some(text) => match json_cache_mapping(text) {
            Some(mapping) => mapping,
            None => Map::empty(),
        },
        None => Map::empty(),
    }
}

/// The snapshot of the files read from the cache file, or the empty
/// snapshot where none could be read.
pub fn recover(parsed: Option<Vec<FileTimestamp>>) -> (s: Snapshot)
    ensures
        s.wf(),
        s@ == (match parsed {
            Some(list) => entries_map(list@),
            None => Map::empty(),
        }),
{
    match parsed {
        Some(list) => Snapshot::from_entries(&list),
        None => Snapshot::new(),
    }
}

/// Reads the snapshot out of what the cache file held; `None` stands for a
/// file that does not exist. Never fails.
pub fn load(contents: Option<&[u8]>) -> (s: Snapshot)
    ensures
        s.wf(),
        s@ == loaded_cache(
            match contents {
                Some(text) => Some(text@),
                None => None,
            },
        ),
{
    let parsed = match contents {
        Some(text) => match parse_cache_json(text) {
            Ok(list) => Some(list),
            Err(_) => None,
        },
        None => None,
    };
    recover(parsed)
}

/// The text to write to the cache file for `snapshot`, or `None` where the
/// JSON writer reports an error.
pub fn save(snapshot: &Snapshot) -> (r: Option<Vec<u8>>)
    requires
        snapshot.wf(),
    ensures
        match r {
            Some(text) => json_cache_text(snapshot@) == Some(text@),
            None => json_cache_text(snapshot@).is_none(),
        },
{
    match print_cache_json(snapshot.entries()) {
        Ok(text) => Some(text),
        Err(_) => None,
    }
}

} // verus!
