use softraster::texture::Texture;

fn sample() -> Texture {
    // 2 x 2: row 0 is red, green; row 1 is blue, white
    let bytes = vec![255, 0, 0, 255, 0, 255, 0, 255, 0, 0, 255, 255, 255, 255, 255, 128];
    Texture::from_rgba(2, 2, &bytes).unwrap()
}

#[test]
fn texture_from_rgba_checks_size() {
    assert!(Texture::from_rgba(2, 2, &vec![0; 15]).is_none());
    assert!(Texture::from_rgba(0, 2, &vec![]).is_none());
    assert!(Texture::from_rgba(2, 0, &vec![]).is_none());
    let t = sample();
    assert_eq!((t.width(), t.height()), (2, 2));
}

#[test]
fn texture_lookup() {
    let t = sample();
    assert_eq!(t.texel(0, 0), [255, 0, 0, 255]);
    assert_eq!(t.texel(1, 0), [0, 255, 0, 255]);
    assert_eq!(t.texel(0, 1), [0, 0, 255, 255]);
    assert_eq!(t.texel(1, 1), [255, 255, 255, 128]);
}

#[test]
fn texture_lookup_clamps_to_edge() {
    let t = sample();
    assert_eq!(t.texel(2, 0), [0, 255, 0, 255]);
    assert_eq!(t.texel(0, 9), [0, 0, 255, 255]);
    assert_eq!(t.texel(u32::MAX, u32::MAX), [255, 255, 255, 128]);
}
