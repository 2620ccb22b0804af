//! The compiled-in shard manifest: one line per shard, a checksum token
//! followed by the shard's filename, separated by blanks.

use crate::rows::{split_bytes, split_on, NEWLINE};
use vstd::prelude::*;
use vstd::slice::slice_to_vec;

verus! {

/// A blank byte inside a manifest line: space, tab or carriage return.
pub open spec fn is_space(c: u8) -> bool {
    c == 32 || c == 9 || c == 13
}

/// The pieces of `s` between blank bytes, empty pieces included.
pub open spec fn space_split(s: Seq<u8>) -> Seq<Seq<u8>>
    decreases s.len(),
{
    if s.len() == 0 {
        seq![Seq::<u8>::empty()]
    } else {
        let prev = space_split(s.drop_last());
        if is_space(s.last()) {
            prev.push(Seq::<u8>::empty())
        } else {
            prev.update(prev.len() - 1, prev.last().push(s.last()))
        }
    }
}

proof fn lemma_space_split_nonempty(s: Seq<u8>)
    ensures
        space_split(s).len() >= 1,
    decreases s.len(),
{
    if s.len() > 0 {
        lemma_space_split_nonempty(s.drop_last());
    }
}

/// The blank-separated tokens of a line, in order.
pub open spec fn tokens_of(line: Seq<u8>) -> Seq<Seq<u8>> {
    space_split(line).filter(|t: Seq<u8>| t.len() > 0)
}

/// The manifest entry a line carries: its first token is a checksum, its
/// second the shard filename. A line with fewer than two tokens carries
/// none.
pub open spec fn manifest_entry_of(line: Seq<u8>) -> Option<(Seq<u8>, Seq<u8>)> {
    let ts = tokens_of(line);
    if ts.len() >= 2 {
        Some((ts[0], ts[1]))
    } else {
        None
    }
}

/// The entries carried by a sequence of manifest lines, in order.
pub open spec fn lines_entries(lines: Seq<Seq<u8>>) -> Seq<(Seq<u8>, Seq<u8>)>
    decreases lines.len(),
{
    if lines.len() == 0 {
        Seq::empty()
    } else {
        match manifest_entry_of(lines[0]) {
            Some(e) => seq![e] + lines_entries(lines.skip(1)),
            None => lines_entries(lines.skip(1)),
        }
    }
}

/// Every entry of a manifest text, line by line.
pub open spec fn manifest_entries(text: Seq<u8>) -> Seq<(Seq<u8>, Seq<u8>)> {
    lines_entries(split_on(text, NEWLINE))
}

/// One manifest entry: a shard's checksum and filename.
pub struct ManifestEntry {
    /// The checksum token of the line.
    pub checksum: Vec<u8>,
    /// The shard filename the entry names.
    pub filename: Vec<u8>,
}

/// The byte sequences a `ManifestEntry` holds.
pub open spec fn manifest_entry_view(e: ManifestEntry) -> (Seq<u8>, Seq<u8>) {
    (e.checksum@, e.filename@)
}

/// Split one line into its blank-separated tokens.
fn tokenize(line: &Vec<u8>) -> (r: Vec<Vec<u8>>)
    ensures
        r@.map_values(|t: Vec<u8>| t@) == tokens_of(line@),
{
    let mut pieces: Vec<Vec<u8>> = Vec::new();
    let mut cur: Vec<u8> = Vec::new();
    let mut i: usize = 0;
    proof {
        assert(line@.take(0) =~= Seq::<u8>::empty());
        assert(pieces@.map_values(|f: Vec<u8>| f@).push(cur@) =~= space_split(line@.take(0)));
    }
    while i < line.len()
        invariant
            i <= line@.len(),
            pieces@.map_values(|f: Vec<u8>| f@).push(cur@) == space_split(line@.take(i as int)),
        decreases line@.len() - i,
    {
        let ghost prefix = line@.take(i as int);
        let ghost prev = space_split(prefix);
        let c = line[i];
        proof {
            assert(line@.take(i + 1).drop_last() =~= prefix);
            assert(line@.take(i + 1).last() == c);
            lemma_space_split_nonempty(prefix);
        }
        if c == 32 || c == 9 || c == 13 {
            pieces.push(cur);
            cur = Vec::new();
            proof {
                assert(pieces@.map_values(|f: Vec<u8>| f@).push(cur@) =~= space_split(
                    line@.take(i + 1),
                ));
            }
        } else {
            cur.push(c);
            proof {
                assert(pieces@.map_values(|f: Vec<u8>| f@).push(cur@) =~= space_split(
                    line@.take(i + 1),
                ));
            }
        }
        i = i + 1;
    }
    proof {
        assert(line@.take(line@.len() as int) =~= line@);
    }
    pieces.push(cur);
    let ghost piecesv = pieces@.map_values(|f: Vec<u8>| f@);
    proof {
        assert(piecesv =~= space_split(line@));
    }
    let mut tokens: Vec<Vec<u8>> = Vec::new();
    let mut j: usize = 0;
    proof {
        reveal(Seq::filter);
        assert(piecesv.take(0) =~= Seq::<Seq<u8>>::empty());
        assert(tokens@.map_values(|t: Vec<u8>| t@) =~= piecesv.take(0).filter(
            |t: Seq<u8>| t.len() > 0,
        ));
    }
    while j < pieces.len()
        invariant
            j <= pieces@.len(),
            piecesv == pieces@.map_values(|f: Vec<u8>| f@),
            piecesv == space_split(line@),
            tokens@.map_values(|t: Vec<u8>| t@) == piecesv.take(j as int).filter(
                |t: Seq<u8>| t.len() > 0,
            ),
        decreases pieces@.len() - j,
    {
        proof {
            reveal(Seq::filter);
            assert(piecesv.take(j + 1).drop_last() =~= piecesv.take(j as int));
            assert(piecesv.take(j + 1).last() == piecesv[j as int]);
        }
        if pieces[j].len() > 0 {
            let t = slice_to_vec(pieces[j].as_slice());
            tokens.push(t);
            proof {
                assert(tokens@.map_values(|t: Vec<u8>| t@) =~= piecesv.take(j + 1).filter(
                    |t: Seq<u8>| t.len() > 0,
                ));
            }
        } else {
            proof {
                assert(tokens@.map_values(|t: Vec<u8>| t@) =~= piecesv.take(j + 1).filter(
                    |t: Seq<u8>| t.len() > 0,
                ));
            }
        }
        j = j + 1;
    }
    proof {
        assert(piecesv.take(piecesv.len() as int) =~= piecesv);
    }
    tokens
}

/// Read one manifest line: its checksum and filename tokens, or nothing
/// when the line does not carry two tokens.
fn line_entry(line: &Vec<u8>) -> (r: Option<ManifestEntry>)
    ensures
        r is Some <==> manifest_entry_of(line@) is Some,
        r is Some ==> manifest_entry_view(r->Some_0) == manifest_entry_of(line@)->Some_0,
{
    let tokens = tokenize(line);
    if tokens.len() >= 2 {
        let checksum = slice_to_vec(tokens[0].as_slice());
        let filename = slice_to_vec(tokens[1].as_slice());
        Some(ManifestEntry { checksum, filename })
    } else {
        None
    }
}

/// Parse the whole manifest text: one entry per line that carries a
/// checksum and a filename, in manifest order; other lines are skipped.
pub fn parse_manifest(text: &Vec<u8>) -> (out: Vec<ManifestEntry>)
    ensures
        out@.map_values(|e: ManifestEntry| manifest_entry_view(e)) == manifest_entries(text@),
{
    let lines = split_bytes(text, NEWLINE);
    let ghost linesv = lines@.map_values(|l: Vec<u8>| l@);
    let mut out: Vec<ManifestEntry> = Vec::new();
    let mut i: usize = 0;
    proof {
        assert(linesv.skip(0) =~= linesv);
        assert(out@.map_values(|e: ManifestEntry| manifest_entry_view(e)) + lines_entries(linesv)
            =~= lines_entries(linesv));
    }
    while i < lines.len()
        invariant
            i <= linesv.len(),
            linesv == lines@.map_values(|l: Vec<u8>| l@),
            manifest_entries(text@) == out@.map_values(|e: ManifestEntry| manifest_entry_view(e))
                + lines_entries(linesv.skip(i as int)),
        decreases linesv.len() - i,
    {
        let ghost rest = linesv.skip(i as int);
        proof {
            assert(rest[0] == linesv[i as int]);
            assert(rest.skip(1) =~= linesv.skip(i + 1));
        }
        match line_entry(&lines[i]) {
            Some(e) => {
                proof {
                    assert((seq![manifest_entry_view(e)] + lines_entries(rest.skip(1)))[0]
                        == manifest_entry_view(e));
                }
                out.push(e);
                proof {
                    assert(out@.map_values(|g: ManifestEntry| manifest_entry_view(g))
                        =~= out@.drop_last().map_values(
                        |g: ManifestEntry| manifest_entry_view(g),
                    ).push(manifest_entry_view(out@.last())));
                }
            },
            None => {},
        }
        proof {
            assert(manifest_entries(text@) =~= out@.map_values(
                |e: ManifestEntry| manifest_entry_view(e),
            ) + lines_entries(linesv.skip(i + 1)));
        }
        i = i + 1;
    }
    proof {
        assert(linesv.skip(linesv.len() as int).len() == 0);
        assert(out@.map_values(|e: ManifestEntry| manifest_entry_view(e)) =~= manifest_entries(
            text@,
        ));
    }
    out
}

/// The suffix of a shard's cache filename: the bytes of ".bin".
pub open spec fn bin_suffix() -> Seq<u8> {
    seq![46u8, 98u8, 105u8, 110u8]
}

/// The name of a shard's cache file: the shard filename with ".bin"
/// appended.
pub fn cache_file_name(shard: &Vec<u8>) -> (r: Vec<u8>)
    ensures
        r@ == shard@ + bin_suffix(),
{
    let mut r = slice_to_vec(shard.as_slice());
    r.push(46);
    r.push(98);
    r.push(105);
    r.push(110);
    proof {
        assert(r@ =~= shard@ + bin_suffix());
    }
    r
}

} // verus!
