use skyrender::faces::{cell_face, color_index, select_face, texel_base, texel_clamp};

#[test]
fn face_priority_order_is_fixed() {
    assert_eq!(select_face(true, false, false, false, false), 0);
    assert_eq!(select_face(false, true, false, false, false), 1);
    assert_eq!(select_face(false, false, true, false, false), 3);
    assert_eq!(select_face(false, false, false, true, false), 2);
    assert_eq!(select_face(false, false, false, false, true), 5);
    assert_eq!(select_face(false, false, false, false, false), 4);
}

#[test]
fn face_ties_break_by_priority_not_magnitude() {
    // A corner direction satisfies several predicates at once; the first
    // in the chain wins, deterministically.
    assert_eq!(select_face(true, false, true, false, true), 0);
    assert_eq!(select_face(false, true, true, false, true), 1);
    assert_eq!(select_face(false, false, true, true, true), 3);
}

#[test]
fn projection_of_center_direction() {
    // A record at (ra 0, dec 0) has direction (0, 1, 0): only the +Y
    // predicate holds, so its face is 3, and with resolution 4 the face
    // plane coordinates (0, 0) land on texel (2, 2).
    let resolution: usize = 4;
    let (x, y, z) = (0.0f32, 1.0f32, 0.0f32);
    let (ax, ay, az) = (x.abs(), y.abs(), z.abs());
    let face = select_face(
        x >= ay.max(az),
        -x >= ay.max(az),
        y >= ax.max(az),
        -y >= ax.max(az),
        z >= ax.max(ay),
    );
    assert_eq!(face, 3);
    let m = ax.max(ay).max(az);
    let (u, v) = (x, z);
    let tx = texel_clamp(((u / m * 0.5 + 0.5) * resolution as f32) as usize, resolution);
    let ty = texel_clamp(((v / m * 0.5 + 0.5) * resolution as f32) as usize, resolution);
    assert_eq!((tx, ty), (2, 2));
    assert_eq!(texel_base(face, tx, ty, resolution), 3 * (3 * 16 + 2 * 4 + 2));
}

#[test]
fn texel_clamp_bounds() {
    assert_eq!(texel_clamp(0, 4), 0);
    assert_eq!(texel_clamp(3, 4), 3);
    assert_eq!(texel_clamp(4, 4), 3);
    assert_eq!(texel_clamp(usize::MAX, 4), 3);
}

#[test]
fn texel_base_walks_faces_rows_columns() {
    assert_eq!(texel_base(0, 0, 0, 8), 0);
    assert_eq!(texel_base(0, 1, 0, 8), 3);
    assert_eq!(texel_base(0, 0, 1, 8), 24);
    assert_eq!(texel_base(5, 7, 7, 8), 3 * (5 * 64 + 7 * 8 + 7));
}

#[test]
fn cross_cells_show_the_right_faces() {
    assert_eq!(cell_face(2, 1), Some(0));
    assert_eq!(cell_face(0, 1), Some(1));
    assert_eq!(cell_face(1, 0), Some(2));
    assert_eq!(cell_face(1, 2), Some(3));
    assert_eq!(cell_face(1, 1), Some(4));
    assert_eq!(cell_face(3, 1), Some(5));
    assert_eq!(cell_face(0, 0), None);
    assert_eq!(cell_face(3, 2), None);
}

#[test]
fn color_index_steps_and_clamps() {
    // 5800 K sits 4800 above the table base, in the 48th 100 K step.
    assert_eq!(color_index(4800), 48);
    assert_eq!(color_index(0), 0);
    assert_eq!(color_index(99), 0);
    assert_eq!(color_index(39900), 399);
    assert_eq!(color_index(1_000_000), 399);
}
