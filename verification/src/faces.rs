//! Cubemap face selection and texel addressing.
//!
//! A direction picks its face by dominant axis through a fixed priority
//! chain: +X, -X, +Y, -Y, +Z, -Z, the first satisfied predicate winning.
//! Ties between equal axis magnitudes are broken by that order alone, so
//! the selected face is a deterministic function of the comparisons.

use vstd::prelude::*;

verus! {

/// How many faces a cubemap has.
pub const FACE_COUNT: usize = 6;

/// The face index the fixed priority chain yields. The five flags are the
/// dominance predicates in priority order: `x` at least both other
/// magnitudes, then `-x`, then `y`, then `-y`, then `z`; when none holds,
/// the `-z` face remains.
pub open spec fn face_of(xp: bool, xn: bool, yp: bool, yn: bool, zp: bool) -> int {
    if xp {
        0
    } else if xn {
        1
    } else if yp {
        3
    } else if yn {
        2
    } else if zp {
        5
    } else {
        4
    }
}

/// Select the cubemap face from the five dominance predicates, first
/// satisfied predicate winning. Exactly one face comes back, and it is
/// always in range.
pub fn select_face(xp: bool, xn: bool, yp: bool, yn: bool, zp: bool) -> (f: usize)
    ensures
        f == face_of(xp, xn, yp, yn, zp),
        f < FACE_COUNT,
{
    if xp {
        0
    } else if xn {
        1
    } else if yp {
        3
    } else if yn {
        2
    } else if zp {
        5
    } else {
        4
    }
}

/// Every combination of dominance predicates yields exactly one face, and
/// always one of the six: face selection is total and deterministic.
pub proof fn lemma_face_selection_total()
    ensures
        forall|xp: bool, xn: bool, yp: bool, yn: bool, zp: bool|
            0 <= #[trigger] face_of(xp, xn, yp, yn, zp) < 6,
{
}

/// Clamp a texel coordinate into `[0, size - 1]`.
pub fn texel_clamp(i: usize, size: usize) -> (r: usize)
    requires
        size > 0,
    ensures
        r < size,
        r == if i < size { i as int } else { size - 1 },
{
    if i < size {
        i
    } else {
        size - 1
    }
}

/// Where texel `(tx, ty)` of `face` starts in the flat accumulator, which
/// holds three channels per texel, face after face in row-major order.
pub open spec fn texel_base_spec(face: int, tx: int, ty: int, size: int) -> int {
    3 * (face * size * size + ty * size + tx)
}

/// Compute a texel's base index in the flat accumulator buffer, in bounds
/// by construction.
pub fn texel_base(face: usize, tx: usize, ty: usize, size: usize) -> (idx: usize)
    requires
        face < FACE_COUNT,
        tx < size,
        ty < size,
        size * size * 6 * 3 <= usize::MAX,
    ensures
        idx == texel_base_spec(face as int, tx as int, ty as int, size as int),
        idx + 2 < size * size * 6 * 3,
{
    proof {
        assert(face * size * size + ty * size + tx < 6 * (size * size)
            && face * size <= 5 * (size * size) && face * size * size <= 5 * (size * size)
            && ty * size < size * size
            && 3 * (face * size * size + ty * size + tx) + 2 < size * size * 6 * 3
            && size * size * 6 * 3 == 18 * (size * size)) by (nonlinear_arith)
            requires
                face < 6,
                tx < size,
                ty < size,
        ;
    }
    3 * (face * size * size + ty * size + tx)
}

/// The grid cell each face occupies in the 4-by-3 cross unfolding of the
/// cube: `(column, row)`, column in `[0, 4)`, row in `[0, 3)`.
pub open spec fn net_cell_spec(face: int) -> (int, int) {
    if face == 0 {
        (2, 1)
    } else if face == 1 {
        (0, 1)
    } else if face == 2 {
        (1, 0)
    } else if face == 3 {
        (1, 2)
    } else if face == 4 {
        (1, 1)
    } else {
        (3, 1)
    }
}

/// The face shown at a grid cell of the cross unfolding, if any.
pub open spec fn cell_face_spec(cx: int, cy: int) -> Option<int> {
    if cx == 2 && cy == 1 {
        Some(0int)
    } else if cx == 0 && cy == 1 {
        Some(1int)
    } else if cx == 1 && cy == 0 {
        Some(2int)
    } else if cx == 1 && cy == 2 {
        Some(3int)
    } else if cx == 1 && cy == 1 {
        Some(4int)
    } else if cx == 3 && cy == 1 {
        Some(5int)
    } else {
        None
    }
}

/// Look up which face a cross-layout grid cell shows, if any.
pub fn cell_face(cx: usize, cy: usize) -> (r: Option<usize>)
    ensures
        r is Some <==> cell_face_spec(cx as int, cy as int) is Some,
        r is Some ==> r->Some_0 == cell_face_spec(cx as int, cy as int)->Some_0
            && r->Some_0 < FACE_COUNT,
{
    if cx == 2 && cy == 1 {
        Some(0)
    } else if cx == 0 && cy == 1 {
        Some(1)
    } else if cx == 1 && cy == 0 {
        Some(2)
    } else if cx == 1 && cy == 2 {
        Some(3)
    } else if cx == 1 && cy == 1 {
        Some(4)
    } else if cx == 3 && cy == 1 {
        Some(5)
    } else {
        None
    }
}

/// The cross cell of each face inverts the cell lookup, so each face is
/// shown at exactly one cell.
pub proof fn lemma_net_cells_invert()
    ensures
        forall|f: int|
            0 <= f < 6 ==> cell_face_spec(#[trigger] net_cell_spec(f).0, net_cell_spec(f).1)
                == Some(f),
{
}

/// How many entries the blackbody color table has: temperatures from
/// 1000 K upward in 100 K steps.
pub const COLOR_TABLE_LEN: usize = 400;

/// The color table entry for a temperature `offset` Kelvin above 1000 K:
/// one entry per 100 K, clamped to the table's last entry.
pub fn color_index(offset: usize) -> (i: usize)
    ensures
        i == if offset / 100 < 399 { offset as int / 100 } else { 399int },
        i < COLOR_TABLE_LEN,
{
    let i = offset / 100;
    if i < 399 {
        i
    } else {
        399
    }
}

} // verus!
