use halo::icon::{rgba, Logo};

/// A 2x2 PNG: a red and a green pixel in each row.
const PNG_2X2: [u8; 73] = [
    137, 80, 78, 71, 13, 10, 26, 10, 0, 0, 0, 13, 73, 72, 68, 82, 0, 0, 0, 2, 0, 0, 0, 2, 8, 6,
    0, 0, 0, 114, 182, 13, 36, 0, 0, 0, 16, 73, 68, 65, 84, 120, 156, 99, 248, 207, 192, 240,
    31, 10, 33, 20, 0, 69, 204, 7, 249, 102, 203, 255, 57, 0, 0, 0, 0, 73, 69, 78, 68, 174, 66,
    96, 130,
];

#[test]
fn decodes_png() {
    let logo = Logo::decode(&PNG_2X2).expect("valid png");
    assert_eq!((logo.width(), logo.height()), (2, 2));
    assert_eq!(
        *logo.pixels(),
        vec![255, 0, 0, 255, 0, 255, 0, 255, 255, 0, 0, 255, 0, 255, 0, 255]
    );
    assert!(Logo::decode(&[1, 2, 3]).is_none());
}

#[test]
fn rgba_keeps_or_resizes() {
    let logo = Logo::decode(&PNG_2X2).unwrap();
    assert_eq!(&rgba(&logo, 2), logo.pixels());
    let big = rgba(&logo, 4);
    assert_eq!(big.len(), 4 * 4 * 4);
    assert_ne!(big, vec![0u8; 64]);
    assert_eq!(rgba(&logo, 1).len(), 4);
}
