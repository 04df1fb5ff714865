use pomc::renderer::pipelines::panorama::{load_png_rgba, png_frame_to_rgba, PanoramaFaces, PngColor};

fn encode_png(width: u32, height: u32, color: png::ColorType, data: &[u8]) -> Vec<u8> {
    let mut out = Vec::new();
    {
        let mut encoder = png::Encoder::new(&mut out, width, height);
        encoder.set_color(color);
        encoder.set_depth(png::BitDepth::Eight);
        let mut writer = encoder.write_header().unwrap();
        writer.write_image_data(data).unwrap();
    }
    out
}

#[test]
fn accept_face_refuses_thin_images() {
    let mut faces = PanoramaFaces::new();
    assert!(!faces.accept_face(vec![0; 8], 1, 2));
    assert!(!faces.accept_face(vec![0; 8], 2, 1));
    assert_eq!(faces.len(), 0);
    assert!(faces.accept_face(vec![0; 16], 2, 2));
    assert_eq!(faces.len(), 1);
}

#[test]
fn assemble_strip_puts_faces_side_by_side() {
    let mut faces = PanoramaFaces::new();
    for i in 0..6u8 {
        // 2x2 face, byte value encodes face, row and byte within the row
        let data: Vec<u8> = (0..16u8).map(|k| i * 16 + k).collect();
        assert!(faces.accept_face(data, 2, 2));
    }
    let (strip, w, h) = faces.assemble_strip();
    assert_eq!((w, h), (12, 2));
    assert_eq!(strip.len(), 12 * 2 * 4);
    for y in 0..2usize {
        for i in 0..6usize {
            for x in 0..8usize {
                assert_eq!(strip[y * 48 + i * 8 + x], (i * 16 + y * 8 + x) as u8);
            }
        }
    }
}

#[test]
fn png_frame_to_rgba_layouts() {
    let rgb = vec![1, 2, 3, 4, 5, 6, 99];
    assert_eq!(png_frame_to_rgba(&rgb, PngColor::Rgb, 2, 1, 6), Some(vec![1, 2, 3, 255, 4, 5, 6, 255]));
    let rgba = vec![9, 8, 7, 6, 5, 4, 3, 2, 1];
    assert_eq!(png_frame_to_rgba(&rgba, PngColor::Rgba, 2, 1, 8), Some(vec![9, 8, 7, 6, 5, 4, 3, 2]));
    assert_eq!(png_frame_to_rgba(&rgba, PngColor::Grayscale, 2, 1, 8), None);
    assert_eq!(png_frame_to_rgba(&rgba, PngColor::Indexed, 2, 1, 8), None);
    assert_eq!(png_frame_to_rgba(&rgba, PngColor::GrayscaleAlpha, 2, 1, 8), None);
}

#[test]
fn load_png_rgba_decodes_rgb_and_rgba() {
    let rgb = encode_png(2, 1, png::ColorType::Rgb, &[10, 20, 30, 40, 50, 60]);
    assert_eq!(load_png_rgba(&rgb), Some((vec![10, 20, 30, 255, 40, 50, 60, 255], 2, 1)));
    let rgba = encode_png(1, 2, png::ColorType::Rgba, &[1, 2, 3, 4, 5, 6, 7, 8]);
    assert_eq!(load_png_rgba(&rgba), Some((vec![1, 2, 3, 4, 5, 6, 7, 8], 1, 2)));
}

#[test]
fn load_png_rgba_refuses_other_inputs() {
    let grey = encode_png(2, 2, png::ColorType::Grayscale, &[0, 1, 2, 3]);
    assert_eq!(load_png_rgba(&grey), None);
    assert_eq!(load_png_rgba(b"not a png"), None);
}
