use flash_code::thumbnail::icon_thumbnail_base64;

fn solid_bgra(b: u8, g: u8, r: u8, a: u8) -> Vec<u8> {
    let mut data = Vec::new();
    for _ in 0..(32 * 32) {
        data.push(b);
        data.push(g);
        data.push(r);
        data.push(a);
    }
    data
}

#[test]
fn thumbnail_is_base64_of_a_png() {
    let encoded = icon_thumbnail_base64(solid_bgra(10, 20, 200, 255));
    let png = base64::Engine::decode(
        &base64::engine::general_purpose::STANDARD,
        encoded.as_bytes(),
    )
    .unwrap();
    assert_eq!(&png[..8], &[0x89, 0x50, 0x4e, 0x47, 0x0d, 0x0a, 0x1a, 0x0a]);
}

#[test]
fn thumbnail_swaps_native_order_into_rgba() {
    // Native capture order is BGRA: blue 10, green 20, red 200.  The
    // decoded thumbnail must show the red-dominant RGBA pixel.
    let encoded = icon_thumbnail_base64(solid_bgra(10, 20, 200, 255));
    let png = base64::Engine::decode(
        &base64::engine::general_purpose::STANDARD,
        encoded.as_bytes(),
    )
    .unwrap();
    let img = image::load_from_memory(&png).unwrap();
    assert_eq!(img.width(), 32);
    assert_eq!(img.height(), 32);
    let rgba = img.to_rgba8();
    assert_eq!(rgba.get_pixel(0, 0).0, [200, 20, 10, 255]);
    assert_eq!(rgba.get_pixel(31, 31).0, [200, 20, 10, 255]);
}
