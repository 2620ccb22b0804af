//! The typed binary cache format for catalog records.
//!
//! A shard's cache file is a flat sequence of 16-byte records, each four
//! little-endian 32-bit values holding the bit patterns of right ascension
//! (degrees), declination (degrees), magnitude, and color temperature
//! (Kelvin; zero means unknown).

use vstd::bytes::{
    lemma_auto_spec_u32_to_from_le_bytes, spec_u32_from_le_bytes, spec_u32_to_le_bytes,
    u32_from_le_bytes, u32_to_le_bytes,
};
use vstd::prelude::*;
use vstd::slice::slice_subrange;

verus! {

/// One catalog record, each field carried as the bit pattern of a 32-bit
/// IEEE 754 value.
#[derive(Clone, Copy, Debug, PartialEq, Eq, Structural)]
pub struct StarRecord {
    /// Right ascension in degrees.
    pub ra_bits: u32,
    /// Declination in degrees.
    pub dec_bits: u32,
    /// Apparent magnitude.
    pub mag_bits: u32,
    /// Color temperature in Kelvin; zero when the catalog row had none.
    pub temp_bits: u32,
}

/// The 16 bytes that one record occupies in a cache file.
pub open spec fn record_bytes(r: StarRecord) -> Seq<u8> {
    spec_u32_to_le_bytes(r.ra_bits) + spec_u32_to_le_bytes(r.dec_bits)
        + spec_u32_to_le_bytes(r.mag_bits) + spec_u32_to_le_bytes(r.temp_bits)
}

/// The whole cache file body for a batch of records, in batch order.
pub open spec fn cache_bytes(rs: Seq<StarRecord>) -> Seq<u8>
    decreases rs.len(),
{
    if rs.len() == 0 {
        Seq::empty()
    } else {
        record_bytes(rs[0]) + cache_bytes(rs.skip(1))
    }
}

/// The record stored in one 16-byte slice of a cache file.
pub open spec fn record_of_bytes(b: Seq<u8>) -> StarRecord
    recommends
        b.len() == 16,
{
    StarRecord {
        ra_bits: spec_u32_from_le_bytes(b.subrange(0, 4)),
        dec_bits: spec_u32_from_le_bytes(b.subrange(4, 8)),
        mag_bits: spec_u32_from_le_bytes(b.subrange(8, 12)),
        temp_bits: spec_u32_from_le_bytes(b.subrange(12, 16)),
    }
}

/// The batch of records held in a cache file body, read 16 bytes at a time.
pub open spec fn records_of_bytes(b: Seq<u8>) -> Seq<StarRecord>
    decreases b.len(),
{
    if b.len() < 16 {
        Seq::empty()
    } else {
        seq![record_of_bytes(b.take(16))] + records_of_bytes(b.skip(16))
    }
}

proof fn lemma_record_bytes_len(r: StarRecord)
    ensures
        record_bytes(r).len() == 16,
{
    lemma_auto_spec_u32_to_from_le_bytes();
}

proof fn lemma_cache_bytes_push(rs: Seq<StarRecord>, r: StarRecord)
    ensures
        cache_bytes(rs.push(r)) == cache_bytes(rs) + record_bytes(r),
    decreases rs.len(),
{
    if rs.len() == 0 {
        assert(rs.push(r)[0] == r);
        assert(rs.push(r).skip(1) =~= Seq::<StarRecord>::empty());
        assert(cache_bytes(Seq::<StarRecord>::empty()) == Seq::<u8>::empty());
        assert(cache_bytes(rs.push(r)) == record_bytes(r) + cache_bytes(
            Seq::<StarRecord>::empty(),
        ));
        assert(cache_bytes(rs.push(r)) =~= cache_bytes(rs) + record_bytes(r));
    } else {
        assert(rs.push(r)[0] == rs[0]);
        assert(rs.push(r).skip(1) =~= rs.skip(1).push(r));
        lemma_cache_bytes_push(rs.skip(1), r);
        assert(cache_bytes(rs.push(r)) =~= cache_bytes(rs) + record_bytes(r));
    }
}

proof fn lemma_cache_bytes_len(rs: Seq<StarRecord>)
    ensures
        cache_bytes(rs).len() == 16 * rs.len(),
    decreases rs.len(),
{
    if rs.len() > 0 {
        lemma_record_bytes_len(rs[0]);
        lemma_cache_bytes_len(rs.skip(1));
    }
}

/// A record survives a trip through its 16-byte cache form unchanged.
proof fn lemma_record_round_trip(r: StarRecord)
    ensures
        record_bytes(r).len() == 16,
        record_of_bytes(record_bytes(r)) == r,
{
    lemma_auto_spec_u32_to_from_le_bytes();
    let b = record_bytes(r);
    assert(b.subrange(0, 4) =~= spec_u32_to_le_bytes(r.ra_bits));
    assert(b.subrange(4, 8) =~= spec_u32_to_le_bytes(r.dec_bits));
    assert(b.subrange(8, 12) =~= spec_u32_to_le_bytes(r.mag_bits));
    assert(b.subrange(12, 16) =~= spec_u32_to_le_bytes(r.temp_bits));
}

/// Packing a batch of records into the cache format and unpacking it again
/// yields the same batch, bit for bit.
pub proof fn lemma_cache_round_trip(rs: Seq<StarRecord>)
    ensures
        records_of_bytes(cache_bytes(rs)) == rs,
    decreases rs.len(),
{
    if rs.len() == 0 {
        assert(records_of_bytes(cache_bytes(rs)) =~= rs);
    } else {
        let b = cache_bytes(rs);
        lemma_record_round_trip(rs[0]);
        lemma_cache_bytes_len(rs.skip(1));
        assert(b.take(16) =~= record_bytes(rs[0]));
        assert(b.skip(16) =~= cache_bytes(rs.skip(1)));
        lemma_cache_round_trip(rs.skip(1));
        assert(records_of_bytes(b) =~= rs);
    }
}

/// Pack a batch of records into the cache file body, 16 bytes per record,
/// in batch order.
pub fn pack_records(records: &Vec<StarRecord>) -> (out: Vec<u8>)
    ensures
        out@ == cache_bytes(records@),
        out@.len() == 16 * records@.len(),
{
    let mut out: Vec<u8> = Vec::new();
    let mut i: usize = 0;
    while i < records.len()
        invariant
            i <= records@.len(),
            out@ == cache_bytes(records@.take(i as int)),
            out@.len() == 16 * i,
        decreases records@.len() - i,
    {
        let r = records[i];
        let mut ra = u32_to_le_bytes(r.ra_bits);
        let mut dec = u32_to_le_bytes(r.dec_bits);
        let mut mag = u32_to_le_bytes(r.mag_bits);
        let mut temp = u32_to_le_bytes(r.temp_bits);
        out.append(&mut ra);
        out.append(&mut dec);
        out.append(&mut mag);
        out.append(&mut temp);
        proof {
            lemma_cache_bytes_push(records@.take(i as int), r);
            assert(records@.take(i + 1) =~= records@.take(i as int).push(r));
            assert(out@ =~= cache_bytes(records@.take(i + 1)));
        }
        i = i + 1;
    }
    proof {
        assert(records@.take(records@.len() as int) =~= records@);
    }
    out
}

/// Unpack a cache file body into its batch of records. Returns nothing when
/// the byte length is not a multiple of 16, the cache format's invariant.
pub fn unpack_records(bytes: &Vec<u8>) -> (r: Option<Vec<StarRecord>>)
    ensures
        r is Some <==> bytes@.len() % 16 == 0,
        r is Some ==> r->Some_0@ == records_of_bytes(bytes@),
{
    if bytes.len() % 16 != 0 {
        return None;
    }
    let blen = bytes.len();
    let n = blen / 16;
    proof {
        assert(blen == bytes@.len());
        assert(16 * n == bytes@.len());
        assert(bytes@.skip(0) =~= bytes@);
        assert(Seq::<StarRecord>::empty() + records_of_bytes(bytes@) =~= records_of_bytes(
            bytes@,
        ));
    }
    let mut recs: Vec<StarRecord> = Vec::new();
    let mut i: usize = 0;
    while i < n
        invariant
            i <= n,
            16 * n == bytes@.len(),
            bytes@.len() <= usize::MAX,
            records_of_bytes(bytes@) == recs@ + records_of_bytes(bytes@.skip(16 * i)),
            recs@.len() == i,
        decreases n - i,
    {
        let base = i * 16;
        let sl = slice_subrange(bytes.as_slice(), base, base + 16);
        let ra_bits = u32_from_le_bytes(slice_subrange(sl, 0, 4));
        let dec_bits = u32_from_le_bytes(slice_subrange(sl, 4, 8));
        let mag_bits = u32_from_le_bytes(slice_subrange(sl, 8, 12));
        let temp_bits = u32_from_le_bytes(slice_subrange(sl, 12, 16));
        let rec = StarRecord { ra_bits, dec_bits, mag_bits, temp_bits };
        proof {
            let rest = bytes@.skip(16 * i);
            assert(rest.len() >= 16);
            assert(rest.take(16) =~= bytes@.subrange(16 * i, 16 * i + 16));
            assert(sl@ == bytes@.subrange(16 * i, 16 * i + 16));
            assert(sl@.subrange(0, 4) =~= rest.take(16).subrange(0, 4));
            assert(sl@.subrange(4, 8) =~= rest.take(16).subrange(4, 8));
            assert(sl@.subrange(8, 12) =~= rest.take(16).subrange(8, 12));
            assert(sl@.subrange(12, 16) =~= rest.take(16).subrange(12, 16));
            assert(rec == record_of_bytes(rest.take(16)));
            assert(rest.skip(16) =~= bytes@.skip(16 * (i + 1)));
            assert(records_of_bytes(rest) == seq![record_of_bytes(rest.take(16))]
                + records_of_bytes(rest.skip(16)));
        }
        recs.push(rec);
        proof {
            assert(recs@ + records_of_bytes(bytes@.skip(16 * (i + 1)))
                =~= records_of_bytes(bytes@));
        }
        i = i + 1;
    }
    proof {
        assert(bytes@.skip(16 * n).len() < 16);
        assert(recs@ =~= records_of_bytes(bytes@));
    }
    Some(recs)
}

/// The 16 bytes of one bright-star output record: right ascension,
/// declination and magnitude bit patterns in little-endian order, then the
/// three 8-bit color channels and one zero pad byte.
pub open spec fn bright_star_record_bytes(
    ra_bits: u32,
    dec_bits: u32,
    mag_bits: u32,
    red: u8,
    green: u8,
    blue: u8,
) -> Seq<u8> {
    spec_u32_to_le_bytes(ra_bits) + spec_u32_to_le_bytes(dec_bits)
        + spec_u32_to_le_bytes(mag_bits) + seq![red, green, blue, 0u8]
}

/// Build one bright-star record, appended verbatim to the bright-star list
/// in catalog traversal order.
pub fn bright_star_bytes(
    ra_bits: u32,
    dec_bits: u32,
    mag_bits: u32,
    red: u8,
    green: u8,
    blue: u8,
) -> (out: Vec<u8>)
    ensures
        out@ == bright_star_record_bytes(ra_bits, dec_bits, mag_bits, red, green, blue),
        out@.len() == 16,
{
    proof {
        lemma_auto_spec_u32_to_from_le_bytes();
    }
    let mut out = u32_to_le_bytes(ra_bits);
    let mut dec = u32_to_le_bytes(dec_bits);
    let mut mag = u32_to_le_bytes(mag_bits);
    out.append(&mut dec);
    out.append(&mut mag);
    out.push(red);
    out.push(green);
    out.push(blue);
    out.push(0u8);
    proof {
        assert(out@ =~= bright_star_record_bytes(ra_bits, dec_bits, mag_bits, red, green, blue));
    }
    out
}

} // verus!
