//! Padding a decoded image onto an opaque black canvas whose dimensions are
//! multiples of the tile size.

use vstd::prelude::*;
use vstd::arithmetic::div_mod::{lemma_div_plus_one, lemma_fundamental_div_mod_converse};
use crate::name::{calc_name_spec, generate_calc_name, valid_name_char, valid_var_prefix,
    var_prefix_str};
use crate::ConvertError;

verus! {

/// Side length, in pixels, of the square tiles the canvas is cut into.
pub const TILE_SIZE: u32 = 80;

/// Largest padded dimension the converter accepts. The canvas holds four
/// bytes per pixel and must be indexable through `usize` on 32-bit targets,
/// which the verification covers: 32000 is the largest tile-size multiple
/// with 4 * 32000 * 32000 below that address-space limit. It also keeps tile
/// coordinates within the three-digit fields of the container names.
pub const MAX_CANVAS_DIM: u32 = 32000;

/// Compute the integer ceiling of `lhs / rhs`.
pub fn div_ceil(lhs: u32, rhs: u32) -> (result: u32)
    requires
        rhs >= 1,
        lhs + rhs - 1 <= u32::MAX,
    ensures
        result == (lhs + rhs - 1) / (rhs as int),
{
    if lhs == 0 {
        proof {
            vstd::arithmetic::div_mod::lemma_basic_div(rhs - 1, rhs as int);
        }
        0
    } else {
        proof {
            lemma_div_plus_one(lhs - 1, rhs as int);
        }
        (lhs - 1) / rhs + 1
    }
}

/// The smallest multiple of the tile size that is at least `d`.
pub open spec fn pad_dim(d: int) -> int {
    ((d + 79) / 80) * 80
}

/// One channel of the pixel at (x, y) in an RGBA buffer of the given width.
/// Channels 0..3 are red, green, blue; channel 3 is alpha.
pub open spec fn sample(pixels: Seq<u8>, width: int, x: int, y: int, c: int) -> u8 {
    pixels[4 * (y * width + x) + c]
}

/// Alpha-over-black compositing of one channel: the channel scaled by the
/// pixel's alpha, rounded to nearest.
pub open spec fn blend_over_black(c: u8, a: u8) -> u8 {
    (((c as int) * (a as int) + 127) / 255) as u8
}

/// A fully opaque channel is preserved exactly by the compositing.
pub proof fn lemma_blend_opaque(c: u8)
    ensures
        blend_over_black(c, 255) == c,
{
}

/// The alpha byte of the pixel at flat position `q` of an RGBA buffer.
pub open spec fn alpha_at(pixels: Seq<u8>, q: int) -> u8 {
    pixels[4 * q + 3]
}

/// The pixel at flat canvas position `q` has the padded value: the source
/// pixel composited over black and made opaque inside the source bounds, and
/// opaque black outside them.
pub open spec fn padded_pixel_ok(
    canvas: Seq<u8>,
    src: Seq<u8>,
    w: int,
    h: int,
    wp: int,
    q: int,
) -> bool {
    let x = q % wp;
    let y = q / wp;
    &&& canvas[4 * q + 3] == 255
    &&& if x < w && y < h {
        &&& canvas[4 * q + 0] == blend_over_black(
            sample(src, w, x, y, 0),
            sample(src, w, x, y, 3),
        )
        &&& canvas[4 * q + 1] == blend_over_black(
            sample(src, w, x, y, 1),
            sample(src, w, x, y, 3),
        )
        &&& canvas[4 * q + 2] == blend_over_black(
            sample(src, w, x, y, 2),
            sample(src, w, x, y, 3),
        )
    } else {
        &&& canvas[4 * q + 0] == 0
        &&& canvas[4 * q + 1] == 0
        &&& canvas[4 * q + 2] == 0
    }
}

/// A source image padded onto an opaque black canvas, with the derived
/// calculator name and variable prefix it will be stored under.
pub struct Image {
    /// Canvas width in pixels; a multiple of the tile size.
    pub width: u32,
    /// Canvas height in pixels; a multiple of the tile size.
    pub height: u32,
    /// RGBA samples of the canvas, row-major, four bytes per pixel.
    pub pixels: Vec<u8>,
    /// The validated two-character variable prefix.
    pub var_prefix: String,
    /// The eight-character calculator-safe image name.
    pub name: String,
}

impl Image {
    /// Structural validity: padded bounded dimensions, a full opaque pixel
    /// buffer, a valid prefix and a well-formed name.
    pub open spec fn wf(&self) -> bool {
        &&& self.width % 80 == 0
        &&& self.height % 80 == 0
        &&& 80 <= self.width <= MAX_CANVAS_DIM
        &&& 80 <= self.height <= MAX_CANVAS_DIM
        &&& self.pixels@.len() == 4 * self.width * self.height
        &&& forall|q: int|
            0 <= q < self.width * self.height ==> #[trigger] alpha_at(self.pixels@, q) == 255
        &&& valid_var_prefix(self.var_prefix@)
        &&& self.name@.len() == 8
        &&& forall|i: int| 0 <= i < 8 ==> valid_name_char(#[trigger] self.name@[i])
    }

    /// Pad a decoded RGBA buffer onto an opaque black canvas whose sides are
    /// the smallest multiples of the tile size that cover it. Every source
    /// pixel is composited over black at its original coordinate; every new
    /// border pixel is opaque black.
    pub fn from_rgba(width: u32, height: u32, data: &Vec<u8>, name: &str, var_prefix: &str) -> (result:
        Result<Image, ConvertError>)
        requires
            data@.len() == 4 * width * height,
        ensures
            result is Ok <==> (valid_var_prefix(var_prefix@) && 1 <= width && 1 <= height
                && pad_dim(width as int) <= MAX_CANVAS_DIM && pad_dim(height as int)
                <= MAX_CANVAS_DIM),
            result matches Err(e) ==> (e is BadVarPrefix <==> !valid_var_prefix(var_prefix@)),
            result matches Err(e) ==> (e is BadVarPrefix || e is BadDimensions),
            result matches Ok(img) ==> {
                &&& img.wf()
                &&& img.width == pad_dim(width as int)
                &&& img.height == pad_dim(height as int)
                &&& img.var_prefix@ == var_prefix@
                &&& img.name@ == calc_name_spec(name@)
                &&& forall|q: int|
                    0 <= q < img.width * img.height ==> padded_pixel_ok(
                        img.pixels@,
                        data@,
                        width as int,
                        height as int,
                        img.width as int,
                        q,
                    )
            },
    {
        let prefix = match var_prefix_str(var_prefix) {
            Ok(p) => p,
            Err(_) => {
                return Err(ConvertError::BadVarPrefix);
            },
        };
        proof {
            lemma_pad_dim(width as int);
            lemma_pad_dim(height as int);
        }
        if width == 0 || height == 0 || width > MAX_CANVAS_DIM || height > MAX_CANVAS_DIM {
            return Err(ConvertError::BadDimensions);
        }
        let wp = div_ceil(width, TILE_SIZE) * TILE_SIZE;
        let hp = div_ceil(height, TILE_SIZE) * TILE_SIZE;
        proof {
            assert(wp == pad_dim(width as int));
            assert(hp == pad_dim(height as int));
        }
        let wp_us = wp as usize;
        let hp_us = hp as usize;
        let w_us = width as usize;
        let h_us = height as usize;
        proof {
            assert(wp_us * hp_us <= 32000 * 32000) by (nonlinear_arith)
                requires
                    wp_us <= 32000,
                    hp_us <= 32000,
            {}
        }
        let total: usize = wp_us * hp_us;
        let mut pixels: Vec<u8> = Vec::new();
        let mut p: usize = 0;
        while p < total
            invariant
                total == wp_us * hp_us,
                wp_us == wp as int,
                hp_us == hp as int,
                w_us == width as int,
                h_us == height as int,
                wp == pad_dim(width as int),
                hp == pad_dim(height as int),
                width <= wp <= MAX_CANVAS_DIM,
                height <= hp <= MAX_CANVAS_DIM,
                1 <= width,
                1 <= height,
                data@.len() == 4 * width * height,
                p <= total,
                pixels@.len() == 4 * p,
                forall|q: int|
                    0 <= q < p ==> padded_pixel_ok(
                        pixels@,
                        data@,
                        width as int,
                        height as int,
                        wp as int,
                        q,
                    ),
            decreases total - p,
        {
            let ghost old_pixels = pixels@;
            let y = p / wp_us;
            let x = p % wp_us;
            proof {
                assert(y < hp_us) by (nonlinear_arith)
                    requires
                        p < total,
                        total == wp_us * hp_us,
                        wp_us >= 1,
                        y == p as int / wp_us as int,
                {}
            }
            if x < w_us && y < h_us {
                proof {
                    assert(y * w_us + x < w_us * h_us && w_us * h_us <= 32000 * 32000 && 4 * (y
                        * w_us + x) + 3 < 4 * (w_us * h_us)) by (nonlinear_arith)
                        requires
                            x < w_us,
                            y < h_us,
                            1 <= w_us <= 32000,
                            1 <= h_us <= 32000,
                    {}
                    assert(4 * (w_us * h_us) == 4 * (width as int) * (height as int))
                        by (nonlinear_arith)
                        requires
                            w_us == width as int,
                            h_us == height as int,
                    {}
                    assert(4 * (y * w_us + x) + 3 < data@.len());
                }
                let base = 4 * (y * w_us + x);
                let a = data[base + 3];
                let cr = data[base];
                let cg = data[base + 1];
                let cb = data[base + 2];
                proof {
                    assert(cr as int * a as int <= 65025 && cg as int * a as int <= 65025 && cb
                        as int * a as int <= 65025) by (nonlinear_arith)
                        requires
                            cr as int <= 255,
                            cg as int <= 255,
                            cb as int <= 255,
                            a as int <= 255,
                    {}
                }
                let r = ((cr as u32 * a as u32 + 127) / 255) as u8;
                let g = ((cg as u32 * a as u32 + 127) / 255) as u8;
                let b = ((cb as u32 * a as u32 + 127) / 255) as u8;
                pixels.push(r);
                pixels.push(g);
                pixels.push(b);
                pixels.push(255);
            } else {
                pixels.push(0);
                pixels.push(0);
                pixels.push(0);
                pixels.push(255);
            }
            proof {
                assert forall|q: int| 0 <= q < p + 1 implies padded_pixel_ok(
                    pixels@,
                    data@,
                    width as int,
                    height as int,
                    wp as int,
                    q,
                ) by {
                    if q < p {
                        assert(padded_pixel_ok(
                            old_pixels,
                            data@,
                            width as int,
                            height as int,
                            wp as int,
                            q,
                        ));
                        assert(pixels@[4 * q + 0] == old_pixels[4 * q + 0]);
                        assert(pixels@[4 * q + 1] == old_pixels[4 * q + 1]);
                        assert(pixels@[4 * q + 2] == old_pixels[4 * q + 2]);
                        assert(pixels@[4 * q + 3] == old_pixels[4 * q + 3]);
                    }
                }
            }
            p = p + 1;
        }
        let calc_name = generate_calc_name(name);
        proof {
            assert(wp_us * hp_us == (wp as int) * (hp as int) && 4 * (wp_us * hp_us) == 4 * (
            wp as int) * (hp as int)) by (nonlinear_arith)
                requires
                    wp_us == wp as int,
                    hp_us == hp as int,
            {}
            crate::name::lemma_calc_name_valid(name@);
            assert forall|q: int| 0 <= q < (wp as int) * (hp as int) implies #[trigger] alpha_at(
                pixels@,
                q,
            ) == 255 by {
                assert(padded_pixel_ok(pixels@, data@, width as int, height as int, wp as int, q));
            }
        }
        Ok(Image { width: wp, height: hp, pixels, var_prefix: prefix, name: calc_name })
    }
}

/// What the image decoder makes of the given encoded bytes: `None` when they
/// are not a recognizable image, and otherwise the width, height and RGBA
/// samples of the decoded pixel buffer.
pub uninterp spec fn rgba_of(data: Seq<u8>) -> Option<(u32, u32, Seq<u8>)>;

/// The decoded dimensions are positive and their padded canvas stays within
/// the accepted bound.
pub open spec fn decoded_dims_ok(t: (u32, u32, Seq<u8>)) -> bool {
    &&& 1 <= t.0
    &&& 1 <= t.1
    &&& pad_dim(t.0 as int) <= MAX_CANVAS_DIM
    &&& pad_dim(t.1 as int) <= MAX_CANVAS_DIM
}

/// The bytes decode to an image whose padded canvas the converter accepts.
pub open spec fn decodes_within_bounds(data: Seq<u8>) -> bool {
    rgba_of(data) matches Some(t) && decoded_dims_ok(t)
}

/// Relies on image::load_from_memory: it sniffs the format of the encoded
/// bytes and decodes them, a deterministic function of the bytes alone; the
/// RGBA buffer of the decoded image holds exactly width * height pixels of
/// four bytes each.
#[verifier::external_body]
fn decode_rgba(data: &[u8]) -> (result: Result<(u32, u32, Vec<u8>), String>)
    ensures
        result is Ok <==> rgba_of(data@) is Some,
        result matches Ok(d) ==> rgba_of(data@) == Some((d.0, d.1, d.2@)),
        result matches Ok(d) ==> d.2@.len() == 4 * d.0 * d.1,
{
    match image::load_from_memory(data) {
        Ok(img) => {
            let buf = img.to_rgba8();
            let (w, h) = (buf.width(), buf.height());
            Ok((w, h, buf.into_raw()))
        },
        Err(e) => Err(format!("Unable to decode image: {}", e)),
    }
}

impl Image {
    /// Decode an encoded image and pad it onto the canvas. The variable
    /// prefix is validated before anything is decoded; the conversion
    /// succeeds exactly when the prefix is valid, the bytes decode, and the
    /// decoded dimensions are positive and within bounds, and the resulting
    /// canvas is the padding of the decoded pixels.
    pub fn new(data: &[u8], name: &str, var_prefix: &str) -> (result: Result<Image, ConvertError>)
        ensures
            result is Ok <==> (valid_var_prefix(var_prefix@) && decodes_within_bounds(data@)),
            result matches Err(e) ==> (e is BadVarPrefix <==> !valid_var_prefix(var_prefix@)),
            result matches Err(e) ==> (e is Decode <==> (valid_var_prefix(var_prefix@) && rgba_of(
                data@,
            ) is None)),
            result matches Err(e) ==> (e is BadDimensions <==> (valid_var_prefix(var_prefix@)
                && rgba_of(data@) is Some && !decodes_within_bounds(data@))),
            result matches Ok(img) ==> (rgba_of(data@) matches Some(t) && {
                &&& img.wf()
                &&& img.width == pad_dim(t.0 as int)
                &&& img.height == pad_dim(t.1 as int)
                &&& img.var_prefix@ == var_prefix@
                &&& img.name@ == calc_name_spec(name@)
                &&& forall|q: int|
                    0 <= q < img.width * img.height ==> padded_pixel_ok(
                        img.pixels@,
                        t.2,
                        t.0 as int,
                        t.1 as int,
                        img.width as int,
                        q,
                    )
            }),
    {
        if let Err(_) = var_prefix_str(var_prefix) {
            return Err(ConvertError::BadVarPrefix);
        }
        match decode_rgba(data) {
            Ok((w, h, buf)) => Image::from_rgba(w, h, &buf, name, var_prefix),
            Err(e) => Err(ConvertError::Decode(e)),
        }
    }
}

/// The canvas sides are the smallest tile-size multiples covering the source:
/// `pad_dim` is divisible by the tile size, reaches the source dimension, and
/// exceeds it by less than one tile.
pub proof fn lemma_pad_dim(d: int)
    requires
        d >= 0,
    ensures
        pad_dim(d) % 80 == 0,
        pad_dim(d) >= d,
        pad_dim(d) < d + 80,
        d >= 1 ==> pad_dim(d) >= 80,
{
    let q = (d + 79) / 80;
    lemma_fundamental_div_mod_converse(pad_dim(d), 80, q, 0);
    assert(q * 80 == pad_dim(d));
    assert(d + 79 == q * 80 + (d + 79) % 80);
}

} // verus!
