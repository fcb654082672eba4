//! Quantization of the padded canvas into a 256-entry palette with reserved
//! black and white entries and a per-pixel index assignment.
//!
//! One quantization engine is integrated, libimagequant. The step that turns
//! an engine's result into the final palette and indices,
//! [`assemble_quantized`], is engine-agnostic: it fixes the output for any
//! palette and index buffer of the right shape, so another engine would need
//! only its own wrapper.

use vstd::prelude::*;
use rgb::FromSlice;
use crate::canvas::{alpha_at, Image, MAX_CANVAS_DIM};
use crate::color::Color;
use crate::name::{valid_name_char, valid_var_prefix};
use crate::ConvertError;

verus! {

/// Pure black, reserved at palette index 0.
pub open spec fn black() -> Color {
    Color { r: 0, g: 0, b: 0 }
}

/// Pure white, reserved at palette index 255.
pub open spec fn white() -> Color {
    Color { r: 255, g: 255, b: 255 }
}

/// The pixel at flat position `q` of an RGBA buffer is exactly black.
pub open spec fn is_black_px(pixels: Seq<u8>, q: int) -> bool {
    pixels[4 * q] == 0 && pixels[4 * q + 1] == 0 && pixels[4 * q + 2] == 0
}

/// The pixel at flat position `q` of an RGBA buffer is exactly white.
pub open spec fn is_white_px(pixels: Seq<u8>, q: int) -> bool {
    pixels[4 * q] == 255 && pixels[4 * q + 1] == 255 && pixels[4 * q + 2] == 255
}

/// The palette index assigned to the pixel at flat position `q`: the
/// reserved indices for exactly-black and exactly-white pixels, checked in
/// that order, and one past the engine's own index otherwise.
pub open spec fn final_index(pixels: Seq<u8>, q: int, engine: u8) -> u8 {
    if is_black_px(pixels, q) {
        0
    } else if is_white_px(pixels, q) {
        255
    } else {
        (1 + engine) as u8
    }
}

/// Relies on imagequant (libimagequant): asked for at most 254 colors, it
/// returns a palette no longer than that together with one index per input
/// pixel, each index pointing into the returned palette.
#[verifier::external_body]
fn quantize_engine(pixels: &Vec<u8>, width: u32, height: u32) -> (result: Result<
    (Vec<Color>, Vec<u8>),
    String,
>)
    requires
        pixels@.len() == 4 * width * height,
        1 <= width,
        1 <= height,
    ensures
        result matches Ok(r) ==> {
            &&& r.0@.len() <= 254
            &&& r.1@.len() == width * height
            &&& forall|i: int| 0 <= i < r.1@.len() ==> (r.1@[i] as int) < r.0@.len()
        },
{
    let mut attrs = imagequant::Attributes::new();
    attrs.set_max_colors(254).map_err(|e| e.to_string())?;
    let mut img = attrs
        .new_image_borrowed(pixels.as_rgba(), width as usize, height as usize, Default::default())
        .map_err(|e| e.to_string())?;
    let mut res = attrs.quantize(&mut img).map_err(|e| e.to_string())?;
    let (palette, data) = res.remapped(&mut img).map_err(|e| e.to_string())?;
    Ok((palette.iter().map(|c| Color { r: c.r, g: c.g, b: c.b }).collect(), data))
}

/// A quantized canvas: the 256-entry palette and one palette index per pixel.
pub struct QuantizedImage {
    /// The validated two-character variable prefix.
    pub var_prefix: String,
    /// The eight-character calculator-safe image name.
    pub name: String,
    /// Canvas width in pixels; a multiple of the tile size.
    pub width: u32,
    /// Canvas height in pixels; a multiple of the tile size.
    pub height: u32,
    /// Exactly 256 colors; entry 0 is black, entry 255 is white.
    pub palette: Vec<Color>,
    /// One palette index per pixel, row-major.
    pub data: Vec<u8>,
}

impl QuantizedImage {
    /// Structural validity: padded bounded dimensions, the full 256-entry
    /// palette with its two reserved entries, one index per pixel, and
    /// well-formed names.
    pub open spec fn wf(&self) -> bool {
        &&& self.width % 80 == 0
        &&& self.height % 80 == 0
        &&& 80 <= self.width <= MAX_CANVAS_DIM
        &&& 80 <= self.height <= MAX_CANVAS_DIM
        &&& self.palette@.len() == 256
        &&& self.palette@[0] == black()
        &&& self.palette@[255] == white()
        &&& self.data@.len() == self.width * self.height
        &&& valid_var_prefix(self.var_prefix@)
        &&& self.name@.len() == 8
        &&& forall|i: int| 0 <= i < 8 ==> valid_name_char(#[trigger] self.name@[i])
    }
}

/// Assemble the final palette and index assignment around what the engine
/// returned: black, then the engine palette, black filler, and white; each
/// pixel's index is 0 if it is exactly black, 255 if exactly white, and one
/// past the engine's index otherwise.
pub fn assemble_quantized(image: Image, engine_palette: &Vec<Color>, engine_indices: &Vec<u8>) -> (result:
    QuantizedImage)
    requires
        image.wf(),
        engine_palette@.len() <= 254,
        engine_indices@.len() == image.width * image.height,
        forall|i: int|
            0 <= i < engine_indices@.len() ==> (engine_indices@[i] as int) < engine_palette@.len(),
    ensures
        result.wf(),
        result.width == image.width,
        result.height == image.height,
        result.var_prefix@ == image.var_prefix@,
        result.name@ == image.name@,
        forall|j: int| 0 <= j < engine_palette@.len() ==> result.palette@[1 + j] == engine_palette@[j],
        forall|j: int| engine_palette@.len() < j < 255 ==> result.palette@[j] == black(),
        forall|p: int|
            0 <= p < image.width * image.height ==> result.data@[p] == final_index(
                image.pixels@,
                p,
                engine_indices@[p],
            ),
{
    let mut palette: Vec<Color> = Vec::new();
    palette.push(Color { r: 0, g: 0, b: 0 });
    let mut j: usize = 0;
    let n = engine_palette.len();
    while j < n
        invariant
            j <= n,
            n == engine_palette@.len(),
            n <= 254,
            palette@.len() == 1 + j,
            palette@[0] == black(),
            forall|k: int| 0 <= k < j ==> palette@[1 + k] == engine_palette@[k],
        decreases n - j,
    {
        palette.push(engine_palette[j]);
        j = j + 1;
    }
    while palette.len() < 255
        invariant
            1 + n <= palette@.len() <= 255,
            n <= 254,
            palette@[0] == black(),
            forall|k: int| 0 <= k < n ==> palette@[1 + k] == engine_palette@[k],
            forall|k: int| n < k < palette@.len() ==> palette@[k] == black(),
        decreases 255 - palette.len(),
    {
        palette.push(Color { r: 0, g: 0, b: 0 });
    }
    palette.push(Color { r: 255, g: 255, b: 255 });
    let w_us = image.width as usize;
    let h_us = image.height as usize;
    proof {
        assert(w_us * h_us <= 32000 * 32000 && 4 * (w_us * h_us) == 4 * (image.width as int) * (
        image.height as int) && w_us * h_us == (image.width as int) * (image.height as int))
            by (nonlinear_arith)
            requires
                w_us == image.width as int,
                h_us == image.height as int,
                w_us <= 32000,
                h_us <= 32000,
        {}
    }
    let total: usize = w_us * h_us;
    let mut data: Vec<u8> = Vec::new();
    let mut p: usize = 0;
    while p < total
        invariant
            p <= total,
            total <= 32000 * 32000,
            total == (image.width as int) * (image.height as int),
            4 * total <= image.pixels@.len(),
            total == engine_indices@.len(),
            forall|i: int|
                0 <= i < engine_indices@.len() ==> (engine_indices@[i] as int)
                    < engine_palette@.len(),
            engine_palette@.len() <= 254,
            data@.len() == p,
            forall|q: int|
                0 <= q < p ==> data@[q] == final_index(image.pixels@, q, engine_indices@[q]),
        decreases total - p,
    {
        let base = 4 * p;
        let r = image.pixels[base];
        let g = image.pixels[base + 1];
        let b = image.pixels[base + 2];
        if r == 0 && g == 0 && b == 0 {
            data.push(0);
        } else if r == 255 && g == 255 && b == 255 {
            data.push(255);
        } else {
            data.push(1 + engine_indices[p]);
        }
        p = p + 1;
    }
    QuantizedImage {
        var_prefix: image.var_prefix,
        name: image.name,
        width: image.width,
        height: image.height,
        palette,
        data,
    }
}

impl Image {
    /// Compute the palette and per-pixel indices for the padded canvas.
    ///
    /// The palette has exactly 256 entries: black at index 0 and white at
    /// index 255 are reserved, and the quantization engine is asked for at
    /// most 254 colors for the rest. A pixel's index is 0 exactly when the
    /// pixel is black, 255 exactly when it is white, and between 1 and 254
    /// otherwise.
    ///
    /// This stage can take a long time on large images.
    pub fn quantize(self) -> (result: Result<QuantizedImage, ConvertError>)
        requires
            self.wf(),
        ensures
            result matches Err(e) ==> e is Quantize,
            result matches Ok(q) ==> {
                &&& q.wf()
                &&& q.width == self.width
                &&& q.height == self.height
                &&& q.var_prefix@ == self.var_prefix@
                &&& q.name@ == self.name@
                &&& forall|p: int|
                    0 <= p < q.width * q.height ==> ((q.data@[p] == 0) <==> is_black_px(
                        self.pixels@,
                        p,
                    ))
                &&& forall|p: int|
                    0 <= p < q.width * q.height ==> ((q.data@[p] == 255) <==> (!is_black_px(
                        self.pixels@,
                        p,
                    ) && is_white_px(self.pixels@, p)))
                &&& forall|p: int|
                    0 <= p < q.width * q.height ==> (!is_black_px(self.pixels@, p) && !is_white_px(
                        self.pixels@,
                        p,
                    ) ==> 1 <= q.data@[p] <= 254)
            },
    {
        let (engine_palette, engine_indices) = match quantize_engine(
            &self.pixels,
            self.width,
            self.height,
        ) {
            Ok(r) => r,
            Err(e) => {
                return Err(ConvertError::Quantize(e));
            },
        };
        let result = assemble_quantized(self, &engine_palette, &engine_indices);
        proof {
            assert forall|p: int| 0 <= p < result.width * result.height implies ((result.data@[p]
                == 0) <==> is_black_px(self.pixels@, p)) by {
                assert(result.data@[p] == final_index(self.pixels@, p, engine_indices@[p]));
                assert((engine_indices@[p] as int) < 254);
            }
            assert forall|p: int| 0 <= p < result.width * result.height implies ((result.data@[p]
                == 255) <==> (!is_black_px(self.pixels@, p) && is_white_px(self.pixels@, p))) by {
                assert(result.data@[p] == final_index(self.pixels@, p, engine_indices@[p]));
                assert((engine_indices@[p] as int) < 254);
            }
            assert forall|p: int|
                0 <= p < result.width * result.height && !is_black_px(self.pixels@, p)
                    && !is_white_px(self.pixels@, p) implies 1 <= result.data@[p] <= 254 by {
                assert(result.data@[p] == final_index(self.pixels@, p, engine_indices@[p]));
                assert((engine_indices@[p] as int) < 254);
            }
        }
        Ok(result)
    }
}

} // verus!
