//! Monochrome bitmaps for the display: an 8-bit grey canvas, the frame drawn
//! round the text, and the BMP encoding (done by the image crate). Drawing
//! the text itself needs a font and is left to the caller.
use vstd::arithmetic::div_mod::{
    lemma_div_pos_is_pos, lemma_fundamental_div_mod, lemma_mod_pos_bound, lemma_multiply_divide_lt,
};
use vstd::arithmetic::mul::lemma_mul_is_commutative;
use vstd::prelude::*;

verus! {

/// Declares `image::error::ImageError`, carried in `BmpError`.
#[verifier::external_type_specification]
#[verifier::external_body]
pub struct ExImageError(image::error::ImageError);

/// Declares `std::io::Error`, carried in `BmpError`.
#[verifier::external_type_specification]
#[verifier::external_body]
pub struct ExIoError(std::io::Error);

/// Errors that can occur during BMP image generation.
#[derive(Debug)]
pub enum BmpError {
    /// Error when opening or reading from files
    IoError(std::io::Error),
    /// Error when loading or processing fonts
    FontError(String),
    /// Error when encoding image data
    ImageError(image::error::ImageError),
}

/// Configuration for image generation.
#[derive(Debug, Clone)]
pub struct ImageConfig {
    /// Width of the image
    pub width: u32,
    /// Height of the image
    pub height: u32,
    /// Path to the font file
    pub font_path: String,
    /// Font size, in pixels
    pub font_size: u32,
    /// Text to display
    pub text: String,
    /// Border padding around the text
    pub border_padding: i32,
}

impl Default for ImageConfig {
    fn default() -> (r: Self)
        ensures
            r.width == 800,
            r.height == 480,
            r.font_path@ == "assets/fonts/BlockKie.ttf"@,
            r.font_size == 50,
            r.text@ == "hello world"@,
            r.border_padding == 20,
    {
        ImageConfig {
            width: 800,
            height: 480,
            font_path: String::from_str("assets/fonts/BlockKie.ttf"),
            font_size: 50,
            text: String::from_str("hello world"),
            border_padding: 20,
        }
    }
}

/// Where the text stands on the canvas: its top-left corner and its size.
#[derive(Debug, Clone, Copy)]
pub struct TextBox {
    pub x: i32,
    pub y: i32,
    pub width: i32,
    pub height: i32,
}

pub const WHITE: u8 = 255;

pub const BLACK: u8 = 0;

/// The grey value of pixel (x, y) in a row-major image of width `w`.
pub open spec fn pixel(img: Seq<u8>, w: int, x: int, y: int) -> u8 {
    img[y * w + x]
}

/// A canvas of `width` by `height` pixels, all white.
pub fn blank_canvas(width: u32, height: u32) -> (r: Vec<u8>)
    requires
        width * height <= usize::MAX,
    ensures
        r@.len() == width * height,
        forall|i: int| 0 <= i < r@.len() ==> r@[i] == WHITE,
{
    let n: usize = (width as usize) * (height as usize);
    let mut r: Vec<u8> = Vec::new();
    while r.len() < n
        invariant
            r@.len() <= n,
            forall|i: int| 0 <= i < r@.len() ==> r@[i] == WHITE,
        decreases n - r@.len(),
    {
        r.push(WHITE);
    }
    r
}


/// On the top or bottom edge of the frame, among its first columns up to
/// `upto`: rows `by` and `by + bh`, columns `bx` to `bx + bw - 1`.
pub open spec fn on_rows(x: int, y: int, bx: int, by: int, bw: int, bh: int, upto: int) -> bool {
    bx <= x < upto && x < bx + bw && (y == by || y == by + bh)
}

/// On the left or right edge of the frame, among its first rows up to
/// `upto`: columns `bx` and `bx + bw`, rows `by` to `by + bh - 1`.
pub open spec fn on_columns(x: int, y: int, bx: int, by: int, bw: int, bh: int, upto: int) -> bool {
    by <= y < upto && y < by + bh && (x == bx || x == bx + bw)
}

/// Pixel (x, y) lies on the frame of the box at (bx, by) of size bw by bh.
pub open spec fn on_frame(x: int, y: int, bx: int, by: int, bw: int, bh: int) -> bool {
    on_rows(x, y, bx, by, bw, bh, bx + bw) || on_columns(x, y, bx, by, bw, bh, by + bh)
}

/// `img` with the frame of box `b` (x, y, width, height) drawn in black, for
/// a row-major image of width `w`.
pub open spec fn framed(img: Seq<u8>, w: int, b: (int, int, int, int)) -> Seq<u8> {
    Seq::new(
        img.len(),
        |i: int|
            if on_frame(i % w, i / w, b.0, b.1, b.2, b.3) {
                BLACK
            } else {
                img[i]
            },
    )
}

/// An image that holds the frame of `b` over `img`, pixel by pixel, is
/// `framed(img, w, b)`.
proof fn lemma_framed_from_pixels(img: Seq<u8>, out: Seq<u8>, w: int, h: int, b: (int, int, int, int))
    requires
        0 <= w,
        img.len() == w * h,
        out.len() == w * h,
        forall|x: int, y: int|
            0 <= x < w && 0 <= y < h ==> pixel(out, w, x, y) == if on_frame(x, y, b.0, b.1, b.2, b.3) {
                BLACK
            } else {
                pixel(img, w, x, y)
            },
    ensures
        out == framed(img, w, b),
{
    if w > 0 {
        assert forall|i: int| 0 <= i < out.len() implies out[i] == framed(img, w, b)[i] by {
            lemma_fundamental_div_mod(i, w);
            lemma_multiply_divide_lt(i, w, h);
            lemma_mod_pos_bound(i, w);
            lemma_div_pos_is_pos(i, w);
            lemma_mul_is_commutative(w, i / w);
            let (x, y) = (i % w, i / w);
            assert(y * w + x == i);
            assert(pixel(out, w, x, y) == out[i]);
        }
    } else {
        assert(out.len() == 0) by (nonlinear_arith)
            requires
                out.len() == w * h,
                w == 0,
        ;
    }
    assert(out =~= framed(img, w, b));
}

/// Distinct pixels of a `w` by `h` image have distinct places in it.
proof fn lemma_pixel_index(w: int, h: int, x: int, y: int, x2: int, y2: int)
    requires
        0 <= x < w,
        0 <= y < h,
        0 <= x2 < w,
        0 <= y2 < h,
    ensures
        0 <= y * w + x < w * h,
        y * w + x == y2 * w + x2 ==> x == x2 && y == y2,
{
    assert(0 <= y * w + x < w * h) by (nonlinear_arith)
        requires
            0 <= x < w,
            0 <= y < h,
    ;
    if y < y2 {
        assert(y * w + x < y2 * w + x2) by (nonlinear_arith)
            requires
                0 <= x < w,
                0 <= x2,
                y < y2,
        ;
    } else if y2 < y {
        assert(y2 * w + x2 < y * w + x) by (nonlinear_arith)
            requires
                0 <= x2 < w,
                0 <= x,
                y2 < y,
        ;
    }
}

/// Blackens pixel (x, y).
fn set_black(img: &mut Vec<u8>, x: i64, y: i64, w: u32, h: u32)
    requires
        old(img)@.len() == w * h,
        0 <= x < w,
        0 <= y < h,
    ensures
        final(img)@.len() == old(img)@.len(),
        forall|px: int, py: int|
            0 <= px < w && 0 <= py < h ==> pixel(final(img)@, w as int, px, py) == if px == x
                && py == y {
                BLACK
            } else {
                pixel(old(img)@, w as int, px, py)
            },
{
    proof {
        lemma_pixel_index(w as int, h as int, x as int, y as int, 0, 0);
    }
    let n = img.len();
    assert((y as usize) * (w as usize) + (x as usize) < n);
    let i: usize = (y as usize) * (w as usize) + (x as usize);
    img.set(i, BLACK);
    assert forall|px: int, py: int| 0 <= px < w && 0 <= py < h implies pixel(
        img@,
        w as int,
        px,
        py,
    ) == if px == x && py == y {
        BLACK
    } else {
        pixel(old(img)@, w as int, px, py)
    } by {
        lemma_pixel_index(w as int, h as int, x as int, y as int, px, py);
        lemma_pixel_index(w as int, h as int, px, py, 0, 0);
        assert(i as int == y * w + x);
        if px == x && py == y {
            assert(img@[py * w + px] == BLACK);
        } else {
            assert(py * w + px != i as int);
            assert(img@[py * w + px] == old(img)@[py * w + px]);
        }
    }
}

/// Draws the frame of the box at (border_x, border_y), `border_width` by
/// `border_height`, in black: the rows at `border_y` and
/// `border_y + border_height` and the columns at `border_x` and
/// `border_x + border_width`. Pixels outside the image are skipped.
pub fn draw_border(
    img: &mut Vec<u8>,
    border_x: i32,
    border_y: i32,
    border_width: i32,
    border_height: i32,
    img_width: u32,
    img_height: u32,
)
    requires
        old(img)@.len() == img_width * img_height,
    ensures
        final(img)@ == framed(
            old(img)@,
            img_width as int,
            (border_x as int, border_y as int, border_width as int, border_height as int),
        ),
        forall|x: int, y: int|
            0 <= x < img_width && 0 <= y < img_height ==> pixel(final(img)@, img_width as int, x, y)
                == if on_frame(x, y, border_x as int, border_y as int, border_width as int, border_height as int) {
                BLACK
            } else {
                pixel(old(img)@, img_width as int, x, y)
            },
{
    let ghost start = img@;
    let (bx, by, bw, bh) = (border_x as i64, border_y as i64, border_width as i64, border_height as i64);
    let (w, h) = (img_width as i64, img_height as i64);
    let mut ix: i64 = bx;
    while ix < bx + bw
        invariant
            img@.len() == img_width * img_height,
            w == img_width,
            h == img_height,
            bx == border_x,
            by == border_y,
            bw == border_width,
            bh == border_height,
            bx <= ix,
            ix <= bx + bw || ix == bx,
            forall|x: int, y: int|
                0 <= x < w && 0 <= y < h ==> pixel(img@, w as int, x, y) == if on_rows(x, y, bx as int, by as int, bw as int, bh as int, ix as int) {
                    BLACK
                } else {
                    pixel(start, w as int, x, y)
                },
        decreases bx + bw - ix,
    {
        if ix >= 0 && ix < w {
            if by >= 0 && by < h {
                set_black(img, ix, by, img_width, img_height);
            }
            if by + bh >= 0 && by + bh < h {
                set_black(img, ix, by + bh, img_width, img_height);
            }
        }
        ix += 1;
    }
    let ghost rows = img@;
    let mut iy: i64 = by;
    while iy < by + bh
        invariant
            img@.len() == img_width * img_height,
            w == img_width,
            h == img_height,
            bx == border_x,
            by == border_y,
            bw == border_width,
            bh == border_height,
            by <= iy,
            iy <= by + bh || iy == by,
            forall|x: int, y: int|
                0 <= x < w && 0 <= y < h ==> pixel(rows, w as int, x, y) == if on_rows(x, y, bx as int, by as int, bw as int, bh as int, bx + bw) {
                    BLACK
                } else {
                    pixel(start, w as int, x, y)
                },
            forall|x: int, y: int|
                0 <= x < w && 0 <= y < h ==> pixel(img@, w as int, x, y) == if on_columns(x, y, bx as int, by as int, bw as int, bh as int, iy as int) {
                    BLACK
                } else {
                    pixel(rows, w as int, x, y)
                },
        decreases by + bh - iy,
    {
        if iy >= 0 && iy < h {
            if bx >= 0 && bx < w {
                set_black(img, bx, iy, img_width, img_height);
            }
            if bx + bw >= 0 && bx + bw < w {
                set_black(img, bx + bw, iy, img_width, img_height);
            }
        }
        iy += 1;
    }
    proof {
        lemma_framed_from_pixels(
            start,
            img@,
            w as int,
            h as int,
            (border_x as int, border_y as int, border_width as int, border_height as int),
        );
    }
}


/// The size of a grey BMP file of `width` by `height` pixels, rows padded to
/// four bytes, with its headers and palette, fits in 32 bits.
pub open spec fn bmp_fits(width: u32, height: u32) -> bool {
    width * height + 3 * height + 1078 <= u32::MAX
}

/// What `image::codecs::bmp::BmpEncoder::encode` writes for an 8-bit grey
/// image of the given width and height.
pub uninterp spec fn bmp_of(pixels: Seq<u8>, width: u32, height: u32) -> Seq<u8>;

/// Relies on `image::codecs::bmp::BmpEncoder::encode` with `ColorType::L8`,
/// which panics unless the buffer holds `width * height` pixels, fails only
/// where the file's size does not fit in 32 bits (header, 256-entry palette
/// and rows padded to four bytes), writes into a `Vec` without error, and
/// starts the file with the `BM` signature.
#[verifier::external_body]
fn encode_gray_bmp(pixels: &Vec<u8>, width: u32, height: u32) -> (r: Result<
    Vec<u8>,
    image::error::ImageError,
>)
    requires
        pixels@.len() == width * height,
        height <= 0x1000_0000,
    ensures
        bmp_fits(width, height) ==> r is Ok,
        r matches Ok(b) ==> b@ == bmp_of(pixels@, width, height) && b@.len() >= 2,
{
    let mut out: Vec<u8> = Vec::new();
    let written = image::codecs::bmp::BmpEncoder::new(&mut out).encode(
        pixels,
        width,
        height,
        image::ColorType::L8,
    );
    written.map(|_| out)
}

/// The box the frame is drawn on: the text box widened by `padding` on
/// every side.
pub open spec fn frame_box(text: TextBox, padding: int) -> (int, int, int, int) {
    (text.x - padding, text.y - padding, text.width + 2 * padding, text.height + 2 * padding)
}

impl TextBox {
    pub open spec fn fits_i32_with(self, padding: int) -> bool {
        let (bx, by, bw, bh) = frame_box(self, padding);
        &&& i32::MIN <= bx <= i32::MAX
        &&& i32::MIN <= by <= i32::MAX
        &&& i32::MIN <= bw <= i32::MAX
        &&& i32::MIN <= bh <= i32::MAX
    }
}

/// Frames the text already drawn on `img` and encodes the image as a BMP:
/// the frame runs `config.border_padding` pixels outside the text box.
pub fn frame_bmp(img: Vec<u8>, config: &ImageConfig, text: TextBox) -> (r: Result<Vec<u8>, BmpError>)
    requires
        img@.len() == config.width * config.height,
        config.height <= 0x1000_0000,
        text.fits_i32_with(config.border_padding as int),
    ensures
        bmp_fits(config.width, config.height) ==> r is Ok,
        r matches Ok(b) ==> b@.len() >= 2,
        r matches Ok(b) ==> b@ == bmp_of(
            framed(img@, config.width as int, frame_box(text, config.border_padding as int)),
            config.width,
            config.height,
        ),
{
    let mut img = img;
    let pad = config.border_padding as i64;
    draw_border(
        &mut img,
        (text.x as i64 - pad) as i32,
        (text.y as i64 - pad) as i32,
        (text.width as i64 + 2 * pad) as i32,
        (text.height as i64 + 2 * pad) as i32,
        config.width,
        config.height,
    );
    match encode_gray_bmp(&img, config.width, config.height) {
        Ok(b) => Ok(b),
        Err(e) => Err(BmpError::ImageError(e)),
    }
}

/// The box of an empty text at the centre of a `width` by `height` canvas.
pub fn centred_box(width: u32, height: u32) -> (r: TextBox)
    requires
        width <= i32::MAX,
        height <= i32::MAX,
    ensures
        r.x == width / 2,
        r.y == height / 2,
        r.width == 0,
        r.height == 0,
{
    TextBox { x: (width / 2) as i32, y: (height / 2) as i32, width: 0, height: 0 }
}

/// The monochrome 800x480 BMP of the default configuration as far as the
/// library draws it: a white canvas and the frame, 20 pixels out, round the
/// centre where the text goes. The library holds no font; a caller that has
/// one draws "hello world" on the canvas before framing it (`frame_bmp`).
pub fn generate_hello_world_bmp() -> (r: Result<Vec<u8>, BmpError>)
    ensures
        r matches Ok(b) && b@.len() >= 2 && b@ == bmp_of(
            framed(Seq::new(800 * 480, |i: int| WHITE), 800, (380, 220, 40, 40)),
            800,
            480,
        ),
{
    let config = ImageConfig::default();
    let img = blank_canvas(config.width, config.height);
    let text = centred_box(config.width, config.height);
    assert(img@ =~= Seq::new(800 * 480, |i: int| WHITE));
    frame_bmp(img, &config, text)
}

} // verus!
