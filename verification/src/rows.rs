//! Line and field parsing for catalog shards.
//!
//! A decompressed shard is comma-separated text: lines that are empty or
//! start with the comment marker are skipped, the first remaining line is a
//! header, and every later line is a data row whose fields of interest sit
//! at fixed column indices.

use crate::records::StarRecord;
use vstd::prelude::*;
use vstd::slice::slice_to_vec;

verus! {

/// The field separator of a shard row: an ASCII comma.
pub const COMMA: u8 = 44;

/// The line separator of a shard: an ASCII line feed.
pub const NEWLINE: u8 = 10;

/// The comment marker that opens a skipped line: an ASCII number sign.
pub const POUND: u8 = 35;

/// Column of the right ascension field in a data row.
pub const COL_RA: usize = 5;

/// Column of the declination field in a data row.
pub const COL_DEC: usize = 7;

/// Column of the magnitude field in a data row.
pub const COL_MAG: usize = 69;

/// Column of the color temperature field in a data row.
pub const COL_TEMP: usize = 130;

/// The pieces of `s` between occurrences of `sep`, in order. A sequence
/// with no separator is one piece; each separator opens a new piece, so an
/// empty sequence is one empty piece.
pub open spec fn split_on(s: Seq<u8>, sep: u8) -> Seq<Seq<u8>>
    decreases s.len(),
{
    if s.len() == 0 {
        seq![Seq::<u8>::empty()]
    } else {
        let prev = split_on(s.drop_last(), sep);
        if s.last() == sep {
            prev.push(Seq::<u8>::empty())
        } else {
            prev.update(prev.len() - 1, prev.last().push(s.last()))
        }
    }
}

/// A split has one more piece than the input has separators, so never none.
pub proof fn lemma_split_on_nonempty(s: Seq<u8>, sep: u8)
    ensures
        split_on(s, sep).len() >= 1,
    decreases s.len(),
{
    if s.len() > 0 {
        lemma_split_on_nonempty(s.drop_last(), sep);
    }
}

/// Split a byte string on a separator byte, leftmost piece first.
pub fn split_bytes(s: &Vec<u8>, sep: u8) -> (r: Vec<Vec<u8>>)
    ensures
        r@.map_values(|f: Vec<u8>| f@) == split_on(s@, sep),
        r@.len() >= 1,
{
    let mut fields: Vec<Vec<u8>> = Vec::new();
    let mut cur: Vec<u8> = Vec::new();
    let mut i: usize = 0;
    proof {
        assert(s@.take(0) =~= Seq::<u8>::empty());
        assert(fields@.map_values(|f: Vec<u8>| f@).push(cur@) =~= split_on(s@.take(0), sep));
    }
    while i < s.len()
        invariant
            i <= s@.len(),
            fields@.map_values(|f: Vec<u8>| f@).push(cur@) == split_on(s@.take(i as int), sep),
        decreases s@.len() - i,
    {
        let ghost prefix = s@.take(i as int);
        let ghost prev = split_on(prefix, sep);
        let c = s[i];
        proof {
            assert(s@.take(i + 1).drop_last() =~= prefix);
            assert(s@.take(i + 1).last() == c);
            lemma_split_on_nonempty(prefix, sep);
        }
        if c == sep {
            proof {
                assert(split_on(s@.take(i + 1), sep) == prev.push(Seq::<u8>::empty()));
            }
            fields.push(cur);
            cur = Vec::new();
            proof {
                assert(fields@.map_values(|f: Vec<u8>| f@).push(cur@) =~= split_on(
                    s@.take(i + 1),
                    sep,
                ));
            }
        } else {
            proof {
                assert(split_on(s@.take(i + 1), sep) == prev.update(
                    prev.len() - 1,
                    prev.last().push(c),
                ));
            }
            cur.push(c);
            proof {
                assert(fields@.map_values(|f: Vec<u8>| f@).push(cur@) =~= split_on(
                    s@.take(i + 1),
                    sep,
                ));
            }
        }
        i = i + 1;
    }
    proof {
        assert(s@.take(s@.len() as int) =~= s@);
    }
    fields.push(cur);
    proof {
        assert(fields@.map_values(|f: Vec<u8>| f@) =~= split_on(s@, sep));
    }
    fields
}

/// A line carries data when it is non-empty and does not open with the
/// comment marker.
pub open spec fn is_data_line(line: Seq<u8>) -> bool {
    line.len() > 0 && line[0] != POUND
}

/// Whether this line is a candidate data row rather than a comment or blank.
pub fn line_is_data(line: &Vec<u8>) -> (r: bool)
    ensures
        r == is_data_line(line@),
{
    line.len() > 0 && line[0] != POUND
}

/// The four fields of interest of one data row, as raw bytes.
pub struct RowFields {
    /// Bytes of the right ascension column.
    pub ra: Vec<u8>,
    /// Bytes of the declination column.
    pub dec: Vec<u8>,
    /// Bytes of the magnitude column.
    pub mag: Vec<u8>,
    /// Bytes of the color temperature column.
    pub temp: Vec<u8>,
}

/// The byte sequences a `RowFields` holds.
pub open spec fn row_fields_view(f: RowFields) -> (Seq<u8>, Seq<u8>, Seq<u8>, Seq<u8>) {
    (f.ra@, f.dec@, f.mag@, f.temp@)
}

/// The four fields of interest of a row, or nothing when the row has too
/// few columns to carry them.
pub open spec fn row_fields_spec(line: Seq<u8>) -> Option<(Seq<u8>, Seq<u8>, Seq<u8>, Seq<u8>)> {
    let fs = split_on(line, COMMA);
    if fs.len() > COL_TEMP {
        Some((fs[COL_RA as int], fs[COL_DEC as int], fs[COL_MAG as int], fs[COL_TEMP as int]))
    } else {
        None
    }
}

/// Split a data row on commas and pick out the right ascension,
/// declination, magnitude and temperature columns. A row with too few
/// columns yields nothing and is thereby dropped.
pub fn extract_row_fields(line: &Vec<u8>) -> (r: Option<RowFields>)
    ensures
        r is Some <==> row_fields_spec(line@) is Some,
        r is Some ==> row_fields_view(r->Some_0) == row_fields_spec(line@)->Some_0,
{
    let fields = split_bytes(line, COMMA);
    if fields.len() > COL_TEMP {
        let ra = slice_to_vec(fields[COL_RA].as_slice());
        let dec = slice_to_vec(fields[COL_DEC].as_slice());
        let mag = slice_to_vec(fields[COL_MAG].as_slice());
        let temp = slice_to_vec(fields[COL_TEMP].as_slice());
        Some(RowFields { ra, dec, mag, temp })
    } else {
        None
    }
}

/// The data rows among `lines`: comment and empty lines are skipped, and
/// the first data line is a header, also skipped.
pub open spec fn data_rows(lines: Seq<Seq<u8>>, header_seen: bool) -> Seq<Seq<u8>>
    decreases lines.len(),
{
    if lines.len() == 0 {
        Seq::empty()
    } else if !is_data_line(lines[0]) {
        data_rows(lines.skip(1), header_seen)
    } else if !header_seen {
        data_rows(lines.skip(1), true)
    } else {
        seq![lines[0]] + data_rows(lines.skip(1), true)
    }
}

/// The fields of every row that has enough columns, in row order.
pub open spec fn rows_fields(rows: Seq<Seq<u8>>) -> Seq<(Seq<u8>, Seq<u8>, Seq<u8>, Seq<u8>)>
    decreases rows.len(),
{
    if rows.len() == 0 {
        Seq::empty()
    } else {
        match row_fields_spec(rows[0]) {
            Some(f) => seq![f] + rows_fields(rows.skip(1)),
            None => rows_fields(rows.skip(1)),
        }
    }
}

/// The fields of every usable data row of a decompressed shard.
pub open spec fn shard_row_fields(data: Seq<u8>) -> Seq<(Seq<u8>, Seq<u8>, Seq<u8>, Seq<u8>)> {
    rows_fields(data_rows(split_on(data, NEWLINE), false))
}

/// Walk a decompressed shard line by line: skip blank and comment lines and
/// the header, and return the four fields of interest of every remaining
/// row that has enough columns, in source row order.
pub fn parse_shard_rows(data: &Vec<u8>) -> (out: Vec<RowFields>)
    ensures
        out@.map_values(|f: RowFields| row_fields_view(f)) == shard_row_fields(data@),
{
    let lines = split_bytes(data, NEWLINE);
    let ghost linesv = lines@.map_values(|l: Vec<u8>| l@);
    let mut out: Vec<RowFields> = Vec::new();
    let mut header_seen = false;
    let mut i: usize = 0;
    proof {
        assert(linesv.skip(0) =~= linesv);
        assert(out@.map_values(|f: RowFields| row_fields_view(f)) =~= Seq::<(
            Seq<u8>,
            Seq<u8>,
            Seq<u8>,
            Seq<u8>,
        )>::empty());
    }
    while i < lines.len()
        invariant
            i <= linesv.len(),
            linesv == lines@.map_values(|l: Vec<u8>| l@),
            shard_row_fields(data@) == out@.map_values(|f: RowFields| row_fields_view(f))
                + rows_fields(data_rows(linesv.skip(i as int), header_seen)),
        decreases linesv.len() - i,
    {
        let ghost rest = linesv.skip(i as int);
        proof {
            assert(rest[0] == linesv[i as int]);
            assert(rest.skip(1) =~= linesv.skip(i + 1));
        }
        if line_is_data(&lines[i]) {
            if !header_seen {
                header_seen = true;
            } else {
                proof {
                    assert(data_rows(rest, true) == seq![rest[0]] + data_rows(
                        rest.skip(1),
                        true,
                    ));
                    assert((seq![rest[0]] + data_rows(rest.skip(1), true))[0] == rest[0]);
                    assert((seq![rest[0]] + data_rows(rest.skip(1), true)).skip(1) =~= data_rows(
                        rest.skip(1),
                        true,
                    ));
                }
                match extract_row_fields(&lines[i]) {
                    Some(f) => {
                        out.push(f);
                        proof {
                            assert(out@.map_values(|g: RowFields| row_fields_view(g))
                                =~= out@.drop_last().map_values(
                                |g: RowFields| row_fields_view(g),
                            ).push(row_fields_view(out@.last())));
                        }
                    },
                    None => {},
                }
                proof {
                    assert(shard_row_fields(data@) =~= out@.map_values(
                        |g: RowFields| row_fields_view(g),
                    ) + rows_fields(data_rows(linesv.skip(i + 1), true)));
                }
            }
        }
        i = i + 1;
    }
    proof {
        assert(linesv.skip(linesv.len() as int).len() == 0);
        assert(out@.map_values(|f: RowFields| row_fields_view(f)) =~= shard_row_fields(data@));
    }
    out
}

/// One row's parse results: the bit pattern of each numeric field, or
/// nothing where the text did not parse as a 32-bit float.
#[derive(Clone, Copy, Debug, PartialEq, Eq, Structural)]
pub struct ParsedRow {
    /// Right ascension, parsed.
    pub ra: Option<u32>,
    /// Declination, parsed.
    pub dec: Option<u32>,
    /// Magnitude, parsed.
    pub mag: Option<u32>,
    /// Color temperature, parsed.
    pub temp: Option<u32>,
}

/// The record a parsed row yields: none when right ascension, declination
/// or magnitude is missing; a missing temperature defaults to the bit
/// pattern of zero, meaning unknown.
pub open spec fn assemble_spec(p: ParsedRow) -> Option<StarRecord> {
    if p.ra is Some && p.dec is Some && p.mag is Some {
        Some(
            StarRecord {
                ra_bits: p.ra->Some_0,
                dec_bits: p.dec->Some_0,
                mag_bits: p.mag->Some_0,
                temp_bits: if p.temp is Some {
                    p.temp->Some_0
                } else {
                    0u32
                },
            },
        )
    } else {
        None
    }
}

/// Turn one row's parse results into a record, dropping the row exactly
/// when a required field failed to parse.
pub fn assemble_record(p: ParsedRow) -> (r: Option<StarRecord>)
    ensures
        r == assemble_spec(p),
        r is Some <==> (p.ra is Some && p.dec is Some && p.mag is Some),
{
    match (p.ra, p.dec, p.mag) {
        (Some(ra_bits), Some(dec_bits), Some(mag_bits)) => {
            let temp_bits = match p.temp {
                Some(t) => t,
                None => 0u32,
            };
            Some(StarRecord { ra_bits, dec_bits, mag_bits, temp_bits })
        },
        _ => None,
    }
}

/// The records of a batch of parsed rows, dropped rows left out, in order.
pub open spec fn assembled_records(p: Seq<ParsedRow>) -> Seq<StarRecord>
    decreases p.len(),
{
    if p.len() == 0 {
        Seq::empty()
    } else {
        match assemble_spec(p[0]) {
            Some(r) => seq![r] + assembled_records(p.skip(1)),
            None => assembled_records(p.skip(1)),
        }
    }
}

/// Turn a batch of parsed rows into records, in order, dropping each row
/// whose right ascension, declination or magnitude failed to parse.
pub fn records_from_parsed(parsed: &Vec<ParsedRow>) -> (out: Vec<StarRecord>)
    ensures
        out@ == assembled_records(parsed@),
{
    let mut out: Vec<StarRecord> = Vec::new();
    let mut i: usize = 0;
    proof {
        assert(parsed@.skip(0) =~= parsed@);
        assert(out@ + assembled_records(parsed@) =~= assembled_records(parsed@));
    }
    while i < parsed.len()
        invariant
            i <= parsed@.len(),
            assembled_records(parsed@) == out@ + assembled_records(parsed@.skip(i as int)),
        decreases parsed@.len() - i,
    {
        let ghost rest = parsed@.skip(i as int);
        proof {
            assert(rest[0] == parsed@[i as int]);
            assert(rest.skip(1) =~= parsed@.skip(i + 1));
        }
        match assemble_record(parsed[i]) {
            Some(r) => {
                proof {
                    assert((seq![r] + assembled_records(rest.skip(1)))[0] == r);
                }
                out.push(r);
            },
            None => {},
        }
        proof {
            assert(assembled_records(parsed@) =~= out@ + assembled_records(parsed@.skip(i + 1)));
        }
        i = i + 1;
    }
    proof {
        assert(parsed@.skip(parsed@.len() as int).len() == 0);
        assert(out@ =~= assembled_records(parsed@));
    }
    out
}

} // verus!
