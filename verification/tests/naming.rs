use skyrender::names::{decimal_padded4, hdr_image_name, net_image_name, strip_image_name};

#[test]
fn resolution_is_zero_padded_to_four_digits() {
    assert_eq!(decimal_padded4(0), b"0000");
    assert_eq!(decimal_padded4(7), b"0007");
    assert_eq!(decimal_padded4(64), b"0064");
    assert_eq!(decimal_padded4(1024), b"1024");
    assert_eq!(decimal_padded4(40900), b"40900");
}

#[test]
fn output_names_carry_the_resolution() {
    assert_eq!(strip_image_name(1024), b"cubemap-1024x1024.png");
    assert_eq!(strip_image_name(64), b"cubemap-0064x0064.png");
    assert_eq!(net_image_name(1024), b"net-1024x1024.png");
    assert_eq!(
        hdr_image_name(1024, &b".ktx2".to_vec()),
        b"hdr-cubemap-1024x1024.ktx2"
    );
}
