use pomc::ui::hud::{hud_texture_pixels, hud_texture_rgba};

fn encode_rgba_png(width: u32, height: u32, data: &[u8]) -> Vec<u8> {
    let mut out = Vec::new();
    {
        let mut encoder = png::Encoder::new(&mut out, width, height);
        encoder.set_color(png::ColorType::Rgba);
        encoder.set_depth(png::BitDepth::Eight);
        let mut writer = encoder.write_header().unwrap();
        writer.write_image_data(data).unwrap();
    }
    out
}

#[test]
fn hud_texture_decodes_a_png() {
    let bytes = encode_rgba_png(2, 1, &[1, 2, 3, 4, 5, 6, 7, 8]);
    assert_eq!(hud_texture_rgba(Some(&bytes)), (vec![1, 2, 3, 4, 5, 6, 7, 8], 2, 1));
}

#[test]
fn hud_texture_falls_back_to_one_transparent_pixel() {
    assert_eq!(hud_texture_rgba(None), (vec![0, 0, 0, 0], 1, 1));
    assert_eq!(hud_texture_rgba(Some(b"garbage")), (vec![0, 0, 0, 0], 1, 1));
    assert_eq!(hud_texture_pixels(Some((vec![9; 4], 1, 1))), (vec![9, 9, 9, 9], 1, 1));
}
