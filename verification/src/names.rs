//! The output file names: each carries the face resolution as a decimal
//! number padded with leading zeros to at least four digits.

use vstd::prelude::*;

verus! {

/// The decimal digits of `n`, most significant first, as ASCII bytes.
pub open spec fn dec_digits(n: int) -> Seq<u8>
    recommends
        n >= 0,
    decreases n,
{
    if n < 10 {
        seq![(48 + n) as u8]
    } else {
        dec_digits(n / 10).push((48 + n % 10) as u8)
    }
}

/// The decimal digits of `n` padded with leading zeros to at least four
/// places, as the output names carry the resolution.
pub open spec fn padded4(n: int) -> Seq<u8> {
    if dec_digits(n).len() >= 4 {
        dec_digits(n)
    } else {
        Seq::new((4 - dec_digits(n).len()) as nat, |i: int| 48u8) + dec_digits(n)
    }
}

proof fn lemma_reverse_push(s: Seq<u8>, x: u8)
    ensures
        s.push(x).reverse() == seq![x] + s.reverse(),
{
    assert(s.push(x).reverse() =~= seq![x] + s.reverse());
}

/// Render `n` in decimal, zero-padded to at least four digits.
pub fn decimal_padded4(n: usize) -> (r: Vec<u8>)
    ensures
        r@ == padded4(n as int),
{
    let mut rev_digits: Vec<u8> = Vec::new();
    let mut m = n;
    let d = (m % 10) as u8 + 48;
    proof {
        assert(Seq::<u8>::empty().push(d).reverse() =~= seq![d]);
        if n < 10 {
            assert(dec_digits(n as int) == seq![(48 + n as int) as u8]);
        }
    }
    rev_digits.push(d);
    m = m / 10;
    while m > 0
        invariant
            dec_digits(n as int) == if m > 0 {
                dec_digits(m as int) + rev_digits@.reverse()
            } else {
                rev_digits@.reverse()
            },
            rev_digits@.len() >= 1,
        decreases m,
    {
        let ghost old_rev = rev_digits@;
        let d2 = (m % 10) as u8 + 48;
        rev_digits.push(d2);
        proof {
            lemma_reverse_push(old_rev, d2);
            if m < 10 {
                assert(dec_digits(m as int) == seq![(48 + m as int) as u8]);
                assert(dec_digits(n as int) =~= rev_digits@.reverse());
            } else {
                assert(dec_digits(m as int) == dec_digits(m as int / 10).push(
                    (48 + m as int % 10) as u8,
                ));
                assert(dec_digits(m as int) =~= dec_digits(m as int / 10) + seq![d2]);
                assert(dec_digits(n as int) =~= dec_digits((m / 10) as int)
                    + rev_digits@.reverse());
            }
        }
        m = m / 10;
    }
    let mut digits: Vec<u8> = Vec::new();
    let count = rev_digits.len();
    let mut j: usize = 0;
    while j < count
        invariant
            j <= count,
            count == rev_digits@.len(),
            digits@.len() == j,
            forall|k: int| 0 <= k < j ==> digits@[k] == rev_digits@[count - 1 - k],
        decreases count - j,
    {
        digits.push(rev_digits[count - 1 - j]);
        j = j + 1;
    }
    proof {
        assert(digits@ =~= rev_digits@.reverse());
        assert(digits@ == dec_digits(n as int));
    }
    let mut out: Vec<u8> = Vec::new();
    let mut pad: usize = 0;
    let needed = if count < 4 {
        4 - count
    } else {
        0
    };
    while pad < needed
        invariant
            pad <= needed,
            out@.len() == pad,
            forall|k: int| 0 <= k < pad ==> out@[k] == 48u8,
        decreases needed - pad,
    {
        out.push(48);
        pad = pad + 1;
    }
    out.append(&mut digits);
    proof {
        assert(out@ =~= padded4(n as int));
    }
    out
}

/// The name of the face-strip image: "cubemap-", the padded resolution,
/// "x", the padded resolution again, and ".png".
pub open spec fn strip_name_spec(res: int) -> Seq<u8> {
    seq![99u8, 117u8, 98u8, 101u8, 109u8, 97u8, 112u8, 45u8] + padded4(res) + seq![120u8]
        + padded4(res) + seq![46u8, 112u8, 110u8, 103u8]
}

/// Build the face-strip image's file name for a resolution.
pub fn strip_image_name(res: usize) -> (r: Vec<u8>)
    ensures
        r@ == strip_name_spec(res as int),
{
    let mut out: Vec<u8> = Vec::new();
    out.push(99);
    out.push(117);
    out.push(98);
    out.push(101);
    out.push(109);
    out.push(97);
    out.push(112);
    out.push(45);
    let mut digits = decimal_padded4(res);
    out.append(&mut digits);
    out.push(120);
    let mut digits2 = decimal_padded4(res);
    out.append(&mut digits2);
    out.push(46);
    out.push(112);
    out.push(110);
    out.push(103);
    proof {
        assert(out@ =~= strip_name_spec(res as int));
    }
    out
}

/// The name of the cross image: "net-", the padded resolution, "x", the
/// padded resolution again, and ".png".
pub open spec fn net_name_spec(res: int) -> Seq<u8> {
    seq![110u8, 101u8, 116u8, 45u8] + padded4(res) + seq![120u8] + padded4(res) + seq![
        46u8,
        112u8,
        110u8,
        103u8,
    ]
}

/// Build the cross image's file name for a resolution.
pub fn net_image_name(res: usize) -> (r: Vec<u8>)
    ensures
        r@ == net_name_spec(res as int),
{
    let mut out: Vec<u8> = Vec::new();
    out.push(110);
    out.push(101);
    out.push(116);
    out.push(45);
    let mut digits = decimal_padded4(res);
    out.append(&mut digits);
    out.push(120);
    let mut digits2 = decimal_padded4(res);
    out.append(&mut digits2);
    out.push(46);
    out.push(112);
    out.push(110);
    out.push(103);
    proof {
        assert(out@ =~= net_name_spec(res as int));
    }
    out
}

/// The name of the HDR cubemap output: "hdr-cubemap-", the padded
/// resolution, "x", the padded resolution again, and the given extension
/// bytes (a dot and a suffix).
pub open spec fn hdr_name_spec(res: int, ext: Seq<u8>) -> Seq<u8> {
    seq![104u8, 100u8, 114u8, 45u8, 99u8, 117u8, 98u8, 101u8, 109u8, 97u8, 112u8, 45u8]
        + padded4(res) + seq![120u8] + padded4(res) + ext
}

/// Build the HDR cubemap output's file name for a resolution and an
/// extension.
pub fn hdr_image_name(res: usize, ext: &Vec<u8>) -> (r: Vec<u8>)
    ensures
        r@ == hdr_name_spec(res as int, ext@),
{
    let mut out: Vec<u8> = Vec::new();
    out.push(104);
    out.push(100);
    out.push(114);
    out.push(45);
    out.push(99);
    out.push(117);
    out.push(98);
    out.push(101);
    out.push(109);
    out.push(97);
    out.push(112);
    out.push(45);
    let mut digits = decimal_padded4(res);
    out.append(&mut digits);
    out.push(120);
    let mut digits2 = decimal_padded4(res);
    out.append(&mut digits2);
    let mut tail = vstd::slice::slice_to_vec(ext.as_slice());
    out.append(&mut tail);
    proof {
        assert(out@ =~= hdr_name_spec(res as int, ext@));
    }
    out
}

} // verus!
