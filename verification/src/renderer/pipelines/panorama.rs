//! The title screen panorama: six face images stitched side by side into
//! one strip, and decoded PNG frames brought to RGBA.

use vstd::prelude::*;

verus! {

/// The number of panorama face images.
pub const PANORAMA_FACE_COUNT: usize = 6;

/// Row `y` of an image stored as rows of `row_len` bytes.
pub open spec fn image_row(img: Seq<u8>, row_len: nat, y: nat) -> Seq<u8> {
    img.subrange((y * row_len) as int, (y * row_len + row_len) as int)
}

/// Row `y` of the strip as far as the first `n` faces: row `y` of each face
/// in turn.
pub open spec fn strip_row(faces: Seq<Seq<u8>>, row_len: nat, y: nat, n: nat) -> Seq<u8>
    decreases n,
{
    if n == 0 {
        Seq::empty()
    } else {
        strip_row(faces, row_len, y, (n - 1) as nat) + image_row(faces[n - 1], row_len, y)
    }
}

/// The first `h` rows of the strip of `faces`, each face row `row_len` bytes.
pub open spec fn strip_spec(faces: Seq<Seq<u8>>, row_len: nat, h: nat) -> Seq<u8>
    decreases h,
{
    if h == 0 {
        Seq::empty()
    } else {
        strip_spec(faces, row_len, (h - 1) as nat) + strip_row(faces, row_len, (h - 1) as nat, faces.len())
    }
}

/// The panorama faces accepted so far and the size of the last one.
pub struct PanoramaView {
    pub faces: Seq<Seq<u8>>,
    pub face_w: u32,
    pub face_h: u32,
}

/// Panorama face images in RGBA, gathered one by one before stitching.
pub struct PanoramaFaces {
    faces: Vec<Vec<u8>>,
    face_w: u32,
    face_h: u32,
}

/// A list of byte vectors by their contents.
pub open spec fn bytes_view(v: Seq<Vec<u8>>) -> Seq<Seq<u8>> {
    v.map_values(|b: Vec<u8>| b@)
}

impl View for PanoramaFaces {
    type V = PanoramaView;

    closed spec fn view(&self) -> PanoramaView {
        PanoramaView { faces: bytes_view(self.faces@), face_w: self.face_w, face_h: self.face_h }
    }
}

impl PanoramaFaces {
    #[verifier::type_invariant]
    spec fn inv(self) -> bool {
        self.faces@.len() > 0 ==> self.face_w > 1 && self.face_h > 1
    }

    /// No faces yet.
    pub fn new() -> (r: Self)
        ensures
            r@ == (PanoramaView { faces: Seq::empty(), face_w: 0, face_h: 0 }),
    {
        let r = PanoramaFaces { faces: Vec::new(), face_w: 0, face_h: 0 };
        assert(bytes_view(r.faces@) =~= Seq::<Seq<u8>>::empty());
        r
    }

    /// The number of faces accepted.
    pub fn len(&self) -> (r: usize)
        ensures
            r == self@.faces.len(),
    {
        self.faces.len()
    }

    /// Takes a decoded face image `width` by `height` pixels; an image of a
    /// single row or column is refused, and the panorama is then not used.
    /// The size of the last face taken is the size of every face.
    pub fn accept_face(&mut self, rgba: Vec<u8>, width: u32, height: u32) -> (r: bool)
        ensures
            r == (width > 1 && height > 1),
            r ==> final(self)@ == (PanoramaView {
                faces: old(self)@.faces.push(rgba@),
                face_w: width,
                face_h: height,
            }),
            !r ==> final(self)@ == old(self)@,
    {
        proof {
            use_type_invariant(&*self);
        }
        if width > 1 && height > 1 {
            let ghost before = self.faces@;
            let ghost data = rgba@;
            self.face_w = width;
            self.face_h = height;
            let mut faces: Vec<Vec<u8>> = Vec::new();
            std::mem::swap(&mut faces, &mut self.faces);
            faces.push(rgba);
            assert(bytes_view(faces@) =~= bytes_view(before).push(data));
            self.faces = faces;
            true
        } else {
            false
        }
    }

    /// Whether the faces can be stitched: six of them, each holding at least
    /// the bytes of a face of the last size taken, and the strip's byte count
    /// within `u32`.
    pub fn strip_fits(&self) -> (r: bool)
        ensures
            r == (self@.faces.len() == PANORAMA_FACE_COUNT
                && self@.face_w * 6 * self@.face_h * 4 <= u32::MAX
                && forall|i: int| 0 <= i < PANORAMA_FACE_COUNT ==> #[trigger] self@.faces[i].len() >= self@.face_w * self@.face_h * 4),
    {
        if self.faces.len() != PANORAMA_FACE_COUNT {
            return false;
        }
        let w: u128 = self.face_w as u128;
        let h: u128 = self.face_h as u128;
        assert(w * h <= 0x1_0000_0000_0000_0000u128) by (nonlinear_arith)
            requires
                w <= u32::MAX,
                h <= u32::MAX,
        ;
        let face_bytes: u128 = w * h * 4;
        assert(w * 6 * h * 4 == face_bytes * 6) by (nonlinear_arith)
            requires
                face_bytes == w * h * 4,
        ;
        if face_bytes * 6 > u32::MAX as u128 {
            return false;
        }
        let mut i: usize = 0;
        while i < PANORAMA_FACE_COUNT
            invariant
                self.faces@.len() == PANORAMA_FACE_COUNT,
                face_bytes == self.face_w * self.face_h * 4,
                face_bytes <= u32::MAX,
                i <= PANORAMA_FACE_COUNT,
                forall|j: int| 0 <= j < i ==> #[trigger] self@.faces[j].len() >= face_bytes,
            decreases PANORAMA_FACE_COUNT - i,
        {
            if (self.faces[i].len() as u128) < face_bytes {
                assert(self@.faces[i as int].len() < face_bytes);
                return false;
            }
            i = i + 1;
        }
        true
    }

    /// The strip: the faces side by side, six times as wide as a face and as
    /// high, in RGBA rows; returns the pixels, the width and the height.
    pub fn assemble_strip(&self) -> (r: (Vec<u8>, u32, u32))
        requires
            self@.faces.len() == PANORAMA_FACE_COUNT,
            self@.face_w * 6 * self@.face_h * 4 <= u32::MAX,
            forall|i: int| 0 <= i < PANORAMA_FACE_COUNT ==> #[trigger] self@.faces[i].len() >= self@.face_w * self@.face_h * 4,
        ensures
            r.1 == self@.face_w * 6,
            r.2 == self@.face_h,
            r.0@ == strip_spec(self@.faces, (self@.face_w * 4) as nat, self@.face_h as nat),
            r.0@.len() == self@.face_w * 6 * self@.face_h * 4,
    {
        proof {
            use_type_invariant(self);
        }
        let ghost faces = bytes_view(self.faces@);
        assert(self.face_w * 4 <= u32::MAX && self.face_w * 6 <= u32::MAX) by (nonlinear_arith)
            requires
                self.face_h > 1,
                self.face_w * 6 * self.face_h * 4 <= u32::MAX,
        ;
        assert forall|i: int| 0 <= i < PANORAMA_FACE_COUNT implies #[trigger] faces[i].len() >= (self.face_w * 4) * self.face_h by {
            assert(self@.faces[i].len() >= self.face_w * self.face_h * 4);
            assert((self.face_w * 4) * self.face_h == self.face_w * self.face_h * 4) by (nonlinear_arith);
        }
        let w4: usize = self.face_w as usize * 4;
        let h: usize = self.face_h as usize;
        assert(w4 * h <= u32::MAX) by (nonlinear_arith)
            requires
                w4 == self.face_w * 4,
                h == self.face_h,
                self.face_w * 6 * self.face_h * 4 <= u32::MAX,
        ;
        let mut strip: Vec<u8> = Vec::new();
        let mut y: usize = 0;
        while y < h
            invariant
                faces == bytes_view(self.faces@),
                faces.len() == PANORAMA_FACE_COUNT,
                w4 == self.face_w * 4,
                h == self.face_h,
                w4 * h <= u32::MAX,
                forall|i: int| 0 <= i < PANORAMA_FACE_COUNT ==> #[trigger] faces[i].len() >= w4 * h,
                y <= h,
                strip@ == strip_spec(faces, w4 as nat, y as nat),
            decreases h - y,
        {
            assert(y * w4 + w4 <= w4 * h) by (nonlinear_arith)
                requires
                    y < h,
            ;
            let start: usize = y * w4;
            let mut i: usize = 0;
            while i < PANORAMA_FACE_COUNT
                invariant
                    faces == bytes_view(self.faces@),
                    faces.len() == PANORAMA_FACE_COUNT,
                    forall|i: int| 0 <= i < PANORAMA_FACE_COUNT ==> #[trigger] faces[i].len() >= w4 * h,
                    start == y * w4,
                    start + w4 <= w4 * h,
                    w4 * h <= u32::MAX,
                    i <= PANORAMA_FACE_COUNT,
                    strip@ == strip_spec(faces, w4 as nat, y as nat) + strip_row(faces, w4 as nat, y as nat, i as nat),
                decreases PANORAMA_FACE_COUNT - i,
            {
                let face = &self.faces[i];
                assert(face@ == faces[i as int]);
                assert(face@.len() >= w4 * h);
                let ghost prefix = strip@;
                let mut x: usize = 0;
                while x < w4
                    invariant
                        face@.len() >= start + w4,
                        start + w4 <= w4 * h,
                        w4 * h <= u32::MAX,
                        x <= w4,
                        strip@ == prefix + face@.subrange(start as int, start + x),
                    decreases w4 - x,
                {
                    strip.push(face[start + x]);
                    assert(strip@ =~= prefix + face@.subrange(start as int, start + x + 1));
                    x = x + 1;
                }
                assert(strip@ =~= strip_spec(faces, w4 as nat, y as nat) + strip_row(faces, w4 as nat, y as nat, (i + 1) as nat));
                i = i + 1;
            }
            assert(strip@ =~= strip_spec(faces, w4 as nat, (y + 1) as nat));
            y = y + 1;
        }
        proof {
            lemma_strip_len(faces, w4 as nat, h as nat);
            assert(w4 * 6 * h == self.face_w * 6 * self.face_h * 4) by (nonlinear_arith)
                requires
                    w4 == self.face_w * 4,
                    h == self.face_h,
            ;
        }
        (strip, self.face_w * 6, self.face_h)
    }
}

/// Every row of the strip holds one row of each face.
proof fn lemma_strip_row_len(faces: Seq<Seq<u8>>, row_len: nat, y: nat, n: nat)
    requires
        n <= faces.len(),
        forall|i: int| 0 <= i < n ==> #[trigger] faces[i].len() >= y * row_len + row_len,
    ensures
        strip_row(faces, row_len, y, n).len() == n * row_len,
    decreases n,
{
    if n > 0 {
        let m = (n - 1) as nat;
        lemma_strip_row_len(faces, row_len, y, m);
        assert(faces[n - 1].len() >= y * row_len + row_len);
        assert(image_row(faces[n - 1], row_len, y).len() == row_len);
        assert(m * row_len + row_len == n * row_len) by (nonlinear_arith)
            requires
                m + 1 == n,
        ;
        assert(strip_row(faces, row_len, y, n) == strip_row(faces, row_len, y, m) + image_row(faces[n - 1], row_len, y));
    } else {
        assert(n * row_len == 0) by (nonlinear_arith)
            requires
                n == 0,
        ;
    }
}

/// The strip has `faces.len() * row_len` bytes per row.
pub proof fn lemma_strip_len(faces: Seq<Seq<u8>>, row_len: nat, h: nat)
    requires
        forall|i: int| 0 <= i < faces.len() ==> #[trigger] faces[i].len() >= row_len * h,
    ensures
        strip_spec(faces, row_len, h).len() == row_len * faces.len() * h,
    decreases h,
{
    if h > 0 {
        assert((h - 1) * row_len + row_len <= row_len * h) by (nonlinear_arith)
            requires
                h > 0,
        ;
        assert(row_len * (h - 1) <= row_len * h) by (nonlinear_arith)
            requires
                h > 0,
        ;
        assert forall|i: int| 0 <= i < faces.len() implies #[trigger] faces[i].len() >= row_len * (h - 1) by {
            assert(faces[i].len() >= row_len * h);
        }
        lemma_strip_len(faces, row_len, (h - 1) as nat);
        assert forall|i: int| 0 <= i < faces.len() implies #[trigger] faces[i].len() >= (h - 1) * row_len + row_len by {
            assert(faces[i].len() >= row_len * h);
        }
        let g = (h - 1) as nat;
        lemma_strip_row_len(faces, row_len, g, faces.len());
        let n = faces.len();
        assert(row_len * n * g + n * row_len == row_len * n * h) by (nonlinear_arith)
            requires
                g + 1 == h,
        ;
        assert(strip_spec(faces, row_len, h) == strip_spec(faces, row_len, g) + strip_row(faces, row_len, g, n));
    } else {
        assert(row_len * faces.len() * h == 0) by (nonlinear_arith)
            requires
                h == 0,
        ;
    }
}


/// Byte `x` of row `y` of face `i` sits at byte `i * row_len + x` of row `y`
/// of the strip.
proof fn lemma_strip_row_byte(faces: Seq<Seq<u8>>, row_len: nat, y: nat, n: nat, i: nat, x: nat)
    requires
        n <= faces.len(),
        i < n,
        x < row_len,
        forall|j: int| 0 <= j < n ==> #[trigger] faces[j].len() >= y * row_len + row_len,
    ensures
        strip_row(faces, row_len, y, n)[(i * row_len + x) as int] == faces[i as int][(y * row_len + x) as int],
    decreases n,
{
    let m = (n - 1) as nat;
    lemma_strip_row_len(faces, row_len, y, m);
    assert(strip_row(faces, row_len, y, n) == strip_row(faces, row_len, y, m) + image_row(faces[n - 1], row_len, y));
    if i < m {
        lemma_strip_row_byte(faces, row_len, y, m, i, x);
        assert(i * row_len + x < m * row_len) by (nonlinear_arith)
            requires
                i < m,
                x < row_len,
        ;
    } else {
        assert(faces[n - 1].len() >= y * row_len + row_len);
        assert(i * row_len + x - m * row_len == x) by (nonlinear_arith)
            requires
                i == m,
        ;
    }
}

/// Pixel byte `x` of row `y` of face `i` lands at byte
/// `y * faces.len() * row_len + i * row_len + x` of the strip: the faces stand
/// side by side, in order, each keeping its rows.
pub proof fn lemma_strip_byte(faces: Seq<Seq<u8>>, row_len: nat, h: nat, y: nat, i: nat, x: nat)
    requires
        forall|j: int| 0 <= j < faces.len() ==> #[trigger] faces[j].len() >= row_len * h,
        y < h,
        i < faces.len(),
        x < row_len,
    ensures
        strip_spec(faces, row_len, h)[(y * faces.len() * row_len + i * row_len + x) as int] == faces[i as int][(y * row_len + x) as int],
    decreases h,
{
    let g = (h - 1) as nat;
    let n = faces.len();
    assert(row_len * g <= row_len * h) by (nonlinear_arith)
        requires
            g + 1 == h,
    ;
    assert forall|j: int| 0 <= j < n implies #[trigger] faces[j].len() >= row_len * g by {
        assert(faces[j].len() >= row_len * h);
    }
    lemma_strip_len(faces, row_len, g);
    assert(strip_spec(faces, row_len, h) == strip_spec(faces, row_len, g) + strip_row(faces, row_len, g, n));
    assert(i * row_len + x < n * row_len) by (nonlinear_arith)
        requires
            i < n,
            x < row_len,
    ;
    if y < g {
        lemma_strip_byte(faces, row_len, g, y, i, x);
        assert(y * n * row_len + i * row_len + x < row_len * n * g) by (nonlinear_arith)
            requires
                y < g,
                i * row_len + x < n * row_len,
        ;
        let idx = (y * n * row_len + i * row_len + x) as int;
        assert(strip_spec(faces, row_len, h)[idx] == strip_spec(faces, row_len, g)[idx]);
    } else {
        assert(g * row_len + row_len == row_len * h) by (nonlinear_arith)
            requires
                g + 1 == h,
        ;
        assert forall|j: int| 0 <= j < n implies #[trigger] faces[j].len() >= g * row_len + row_len by {
            assert(faces[j].len() >= row_len * h);
        }
        lemma_strip_row_byte(faces, row_len, g, n, i, x);
        assert(y * n * row_len == row_len * n * g) by (nonlinear_arith)
            requires
                y == g,
        ;
        let idx = (y * n * row_len + i * row_len + x) as int;
        let off = (i * row_len + x) as int;
        lemma_strip_row_len(faces, row_len, g, n);
        assert(idx == strip_spec(faces, row_len, g).len() + off);
        assert(strip_spec(faces, row_len, h)[idx] == strip_row(faces, row_len, g, n)[off]);
    }
}

/// The pixel layout of a decoded PNG frame.
#[derive(Clone, Copy, Debug, PartialEq, Eq, Structural)]
pub enum PngColor {
    /// Four bytes per pixel: red, green, blue, alpha.
    Rgba,
    /// Three bytes per pixel: red, green, blue.
    Rgb,
    /// One grey sample per pixel.
    Grayscale,
    /// One palette index per pixel.
    Indexed,
    /// A grey sample and an alpha sample per pixel.
    GrayscaleAlpha,
}

/// `pixels` RGB pixels from `rgb` made opaque RGBA: each pixel's three bytes
/// followed by 255.
pub open spec fn rgb_to_rgba_spec(rgb: Seq<u8>, pixels: nat) -> Seq<u8> {
    Seq::new(pixels * 4, |k: int| if k % 4 == 3 { 255u8 } else { rgb[(k / 4) * 3 + k % 4] })
}

/// The RGBA pixels of a decoded PNG frame `width` by `height` pixels whose
/// decoded bytes are `buf`, `frame_size` of them belonging to the frame: an
/// RGBA frame is taken as it is, an RGB frame is made opaque RGBA, and any
/// other layout is refused.
pub fn png_frame_to_rgba(buf: &Vec<u8>, color: PngColor, width: u32, height: u32, frame_size: usize) -> (r: Option<Vec<u8>>)
    requires
        color == PngColor::Rgba ==> frame_size <= buf@.len(),
        color == PngColor::Rgb ==> width * height * 4 <= usize::MAX && width * height * 3 <= buf@.len(),
    ensures
        color == PngColor::Rgba ==> (r matches Some(v) && v@ == buf@.subrange(0, frame_size as int)),
        color == PngColor::Rgb ==> (r matches Some(v) && v@ == rgb_to_rgba_spec(buf@, (width * height) as nat)),
        !(color == PngColor::Rgba || color == PngColor::Rgb) ==> r is None,
{
    match color {
        PngColor::Rgba => {
            let mut out: Vec<u8> = Vec::new();
            let mut i: usize = 0;
            while i < frame_size
                invariant
                    frame_size <= buf@.len(),
                    i <= frame_size,
                    out@ == buf@.subrange(0, i as int),
                decreases frame_size - i,
            {
                out.push(buf[i]);
                assert(out@ =~= buf@.subrange(0, i + 1));
                i = i + 1;
            }
            Some(out)
        },
        PngColor::Rgb => {
            assert(width * height <= width * height * 3) by (nonlinear_arith);
            let pixels: usize = width as usize * height as usize;
            let mut out: Vec<u8> = Vec::new();
            let mut p: usize = 0;
            while p < pixels
                invariant
                    pixels == width * height,
                    pixels * 3 <= buf@.len(),
                    pixels * 4 <= usize::MAX,
                    p <= pixels,
                    out@.len() == p * 4,
                    forall|k: int| 0 <= k < p * 4 ==> out@[k] == rgb_to_rgba_spec(buf@, pixels as nat)[k],
                decreases pixels - p,
            {
                let ghost before = out@;
                out.push(buf[3 * p]);
                out.push(buf[3 * p + 1]);
                out.push(buf[3 * p + 2]);
                out.push(255u8);
                assert forall|k: int| 0 <= k < (p + 1) * 4 implies out@[k] == rgb_to_rgba_spec(buf@, pixels as nat)[k] by {
                    if k >= p * 4 {
                        assert(k / 4 == p);
                        assert(k % 4 == k - p * 4);
                    }
                }
                p = p + 1;
            }
            assert(out@ =~= rgb_to_rgba_spec(buf@, pixels as nat));
            Some(out)
        },
        _ => None,
    }
}

/// A decoded PNG frame: the decoded bytes, their layout, the frame's size in
/// pixels and how many of the bytes belong to the frame.
pub struct PngFrame {
    pub buf: Vec<u8>,
    pub color: PngColor,
    pub width: u32,
    pub height: u32,
    pub frame_size: usize,
}

/// What the `png` crate decodes from the bytes of a PNG file: the first
/// frame's decoded bytes, their layout, width, height and frame byte count,
/// or `None` where decoding fails.
pub uninterp spec fn png_decoded(bytes: Seq<u8>) -> Option<(Seq<u8>, PngColor, u32, u32, usize)>;

/// Decodes the first frame of a PNG file with `png::Decoder::new`, then
/// `Decoder::read_info`, `Reader::output_buffer_size` and `Reader::next_frame`
/// into a buffer of that size, reading the layout, size and byte count from
/// the returned `OutputInfo`. The result is `png_decoded` of the bytes; how
/// the `png` crate decodes is not restated here.
#[verifier::external_body]
fn decode_png_frame(bytes: &[u8]) -> (r: Option<PngFrame>)
    ensures
        r matches Some(f) ==> png_decoded(bytes@) == Some((f.buf@, f.color, f.width, f.height, f.frame_size)),
        r is None ==> png_decoded(bytes@) is None,
{
    let mut reader = png::Decoder::new(std::io::Cursor::new(bytes)).read_info().ok()?;
    let mut buf = vec![0u8; reader.output_buffer_size()];
    let info = reader.next_frame(&mut buf).ok()?;
    let color = match info.color_type {
        png::ColorType::Rgba => PngColor::Rgba,
        png::ColorType::Rgb => PngColor::Rgb,
        png::ColorType::Grayscale => PngColor::Grayscale,
        png::ColorType::Indexed => PngColor::Indexed,
        png::ColorType::GrayscaleAlpha => PngColor::GrayscaleAlpha,
    };
    Some(PngFrame { buf, color, width: info.width, height: info.height, frame_size: info.buffer_size() })
}

/// The RGBA pixels and size of a decoded frame, where its layout is RGBA or
/// RGB and its bytes cover what the layout needs.
pub open spec fn frame_rgba_spec(frame: Option<(Seq<u8>, PngColor, u32, u32, usize)>) -> Option<(Seq<u8>, u32, u32)> {
    match frame {
        None => None,
        Some((buf, color, w, h, frame_size)) => match color {
            PngColor::Rgba => if frame_size <= buf.len() {
                Some((buf.subrange(0, frame_size as int), w, h))
            } else {
                None
            },
            PngColor::Rgb => if w * h * 4 <= usize::MAX && w * h * 3 <= buf.len() {
                Some((rgb_to_rgba_spec(buf, (w * h) as nat), w, h))
            } else {
                None
            },
            _ => None,
        },
    }
}

/// The RGBA pixels, width and height of the PNG file whose bytes are
/// `bytes`; `None` where it does not decode, has another layout than RGBA or
/// RGB, or decodes to fewer bytes than its size calls for.
pub fn load_png_rgba(bytes: &[u8]) -> (r: Option<(Vec<u8>, u32, u32)>)
    ensures
        match r {
            Some((v, w, h)) => frame_rgba_spec(png_decoded(bytes@)) == Some((v@, w, h)),
            None => frame_rgba_spec(png_decoded(bytes@)) is None,
        },
{
    let frame = decode_png_frame(bytes)?;
    let fits = match frame.color {
        PngColor::Rgba => frame.frame_size <= frame.buf.len(),
        PngColor::Rgb => {
            let w: u64 = frame.width as u64;
            let h: u64 = frame.height as u64;
            assert(w * h <= u64::MAX) by (nonlinear_arith)
                requires
                    w <= u32::MAX,
                    h <= u32::MAX,
            ;
            let pixels: u64 = w * h;
            pixels <= usize::MAX as u64 / 4 && pixels * 3 <= frame.buf.len() as u64
        },
        _ => false,
    };
    if !fits {
        return None;
    }
    match png_frame_to_rgba(&frame.buf, frame.color, frame.width, frame.height, frame.frame_size) {
        Some(rgba) => Some((rgba, frame.width, frame.height)),
        None => None,
    }
}

} // verus!
