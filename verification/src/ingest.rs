//! Shard ingestion: the cache-or-fetch decision and the decoding of a
//! fetched shard into data rows.
//!
//! Fetching itself is I/O and lives with the caller; this module decides
//! when a fetch may be skipped and turns fetched bytes into rows.

use crate::rows::{parse_shard_rows, row_fields_view, shard_row_fields, RowFields};
use vstd::prelude::*;

verus! {

/// What to do about one shard of the catalog.
#[derive(Clone, Copy, Debug, PartialEq, Eq, Structural)]
pub enum ShardAction {
    /// The shard's cache file is already present: reuse it, fetch nothing.
    UseCache,
    /// No cache file yet: fetch the shard, decode it, write the cache file.
    Fetch,
}

/// Decide how to treat a shard from whether its cache file is present.
/// A present cache file is never fetched again, which makes a second
/// ingestion run over an unchanged cache perform no network access and
/// leave every cache file untouched.
pub fn shard_action(cache_present: bool) -> (a: ShardAction)
    ensures
        a is Fetch <==> !cache_present,
        a is UseCache <==> cache_present,
{
    if cache_present {
        ShardAction::UseCache
    } else {
        ShardAction::Fetch
    }
}

/// What gzip decompression yields on a byte stream: a pure function of the
/// bytes, or nothing when the stream is not valid gzip.
pub uninterp spec fn gunzip_of(data: Seq<u8>) -> Option<Seq<u8>>;

/// Relies on flate2's `GzDecoder` over an in-memory byte slice: the
/// decompressed bytes are a function of the compressed bytes alone, and a
/// malformed stream reports an error instead.
#[verifier::external_body]
fn gunzip(data: &Vec<u8>) -> (r: Option<Vec<u8>>)
    ensures
        r is Some <==> gunzip_of(data@) is Some,
        r is Some ==> r->Some_0@ == gunzip_of(data@)->Some_0,
{
    let mut out = Vec::new();
    let mut decoder = flate2::read::GzDecoder::new(data.as_slice());
    match std::io::Read::read_to_end(&mut decoder, &mut out) {
        Ok(_) => Some(out),
        Err(_) => None,
    }
}

/// Decompress a fetched shard and walk it into data rows. Yields nothing
/// exactly when the body is not valid gzip; decompression failure is a
/// shard-level error for the caller, never a dropped row.
pub fn decode_shard(compressed: &Vec<u8>) -> (r: Option<Vec<RowFields>>)
    ensures
        r is Some <==> gunzip_of(compressed@) is Some,
        r is Some ==> r->Some_0@.map_values(|f: RowFields| row_fields_view(f))
            == shard_row_fields(gunzip_of(compressed@)->Some_0),
{
    match gunzip(compressed) {
        Some(data) => Some(parse_shard_rows(&data)),
        None => None,
    }
}

} // verus!
