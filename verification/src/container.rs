//! The two binary payloads — one per tile, one for the palette — and the
//! calculator variable files wrapped around them.

use vstd::prelude::*;
use std::io::Cursor;
use std::io::Write;
use crate::color::{pack_grgb1555, Color, GRGB1555};
use crate::name::{
    ascii_bytes, digits3, is_ascii_char, is_digit_char, palette_name_spec, push_ascii,
    push_digits3, tile_name_spec, valid_name_char,
};
use crate::quantize::QuantizedImage;
use crate::tile::{lemma_row_in_bounds, tile_pixels_spec, Tile};
use crate::ConvertError;

verus! {

/// The bytes the zx0 compressor produces for the given input; a matching
/// decompressor on the calculator inverts them losslessly.
pub uninterp spec fn zx0_of(input: Seq<u8>) -> Seq<u8>;

/// The complete archived application-variable file that the container writer
/// produces around a payload stored under a name.
pub uninterp spec fn appvar_of(name: Seq<char>, payload: Seq<u8>) -> Seq<u8>;

/// Relies on zx0::compress: the output is a deterministic function of the
/// input bytes alone. The compressor cannot take an empty input.
#[verifier::external_body]
fn zx0_compress(input: &Vec<u8>) -> (result: Vec<u8>)
    requires
        input@.len() >= 1,
    ensures
        result@ == zx0_of(input@),
{
    zx0::compress(input.as_slice())
}

/// Relies on tifiles::Writer: writing into an in-memory buffer, it produces
/// the complete archived AppVar file around the payload, a deterministic
/// function of the name and the payload alone. It accepts every name whose
/// first character is not a decimal digit and every payload that fits the
/// format's 16-bit data length.
#[verifier::external_body]
fn make_appvar(name: &str, payload: &Vec<u8>) -> (result: Result<Vec<u8>, String>)
    ensures
        result matches Ok(bytes) ==> bytes@ == appvar_of(name@, payload@),
        (name@.len() > 0 && !is_digit_char(name@[0]) && payload@.len() <= 65516) ==> result is Ok,
{
    let out = Cursor::new(Vec::new());
    let mut writer = tifiles::Writer::new(out, tifiles::VariableType::AppVar, name, true)
        .map_err(|e| e.to_string())?;
    writer.write_all(payload).map_err(|e| e.to_string())?;
    let cursor = writer.close().map_err(|e| e.to_string())?;
    Ok(cursor.into_inner())
}

/// The fixed eight-byte signature opening every tile payload: "HDPICCV4".
pub open spec fn tile_signature() -> Seq<u8> {
    seq![72u8, 68u8, 80u8, 73u8, 67u8, 67u8, 86u8, 52u8]
}

/// The fixed eight-byte signature opening the palette payload: "HDPALV10".
pub open spec fn palette_signature() -> Seq<u8> {
    seq![72u8, 68u8, 80u8, 65u8, 76u8, 86u8, 49u8, 48u8]
}

/// The uncompressed body of one tile: its width and height bytes — always
/// the tile size — followed by the tile's 6400 palette-index bytes. The two
/// dimension bytes are compressed together with the pixels: the device's
/// decompressor expects to recover them from the compressed stream.
pub open spec fn tile_body_spec(data: Seq<u8>, width: int, tx: int, ty: int) -> Seq<u8> {
    seq![80u8, 80u8] + tile_pixels_spec(data, width, tx, ty)
}

/// The payload of one tile container: the signature and the image name,
/// never compressed, then the compressed body.
pub open spec fn tile_payload_spec(
    name: Seq<char>,
    data: Seq<u8>,
    width: int,
    tx: int,
    ty: int,
) -> Seq<u8> {
    tile_signature() + ascii_bytes(name) + zx0_of(tile_body_spec(data, width, tx, ty))
}

/// The little-endian byte pairs of the packed palette colors, in palette
/// order.
pub open spec fn packed_palette_bytes(palette: Seq<Color>) -> Seq<u8> {
    Seq::new(
        2 * palette.len(),
        |i: int|
            if i % 2 == 0 {
                (pack_grgb1555(palette[i / 2]) % 256) as u8
            } else {
                (pack_grgb1555(palette[i / 2]) / 256) as u8
            },
    )
}

/// The payload of the palette container: the signature, the image name, the
/// variable prefix, the zero-padded last tile column and row, then the 256
/// packed colors. Never compressed.
pub open spec fn palette_payload_spec(
    name: Seq<char>,
    prefix: Seq<char>,
    width_tiles: int,
    height_tiles: int,
    palette: Seq<Color>,
) -> Seq<u8> {
    palette_signature() + ascii_bytes(name) + ascii_bytes(prefix) + ascii_bytes(
        digits3(width_tiles - 1),
    ) + ascii_bytes(digits3(height_tiles - 1)) + packed_palette_bytes(palette)
}

fn push_tile_signature(out: &mut Vec<u8>)
    ensures
        final(out)@ == old(out)@ + tile_signature(),
{
    out.push(72);
    out.push(68);
    out.push(80);
    out.push(73);
    out.push(67);
    out.push(67);
    out.push(86);
    out.push(52);
    proof {
        assert(out@ =~= old(out)@ + tile_signature());
    }
}

fn push_palette_signature(out: &mut Vec<u8>)
    ensures
        final(out)@ == old(out)@ + palette_signature(),
{
    out.push(72);
    out.push(68);
    out.push(80);
    out.push(65);
    out.push(76);
    out.push(86);
    out.push(49);
    out.push(48);
    proof {
        assert(out@ =~= old(out)@ + palette_signature());
    }
}

impl<'a> Tile<'a> {
    /// Serialize this tile into its complete container file: the signature
    /// and image name header, then the compressed dimension-and-pixel body,
    /// wrapped into the archived variable file named after the tile.
    pub fn write_appvar(&self) -> (result: Result<Vec<u8>, ConvertError>)
        requires
            self.wf(),
        ensures
            result matches Ok(bytes) ==> bytes@ == appvar_of(
                tile_name_spec(self.image.var_prefix@, self.index.0 as int, self.index.1 as int),
                tile_payload_spec(
                    self.image.name@,
                    self.image.data@,
                    self.image.width as int,
                    self.index.0 as int,
                    self.index.1 as int,
                ),
            ),
            result matches Err(e) ==> e is Container,
            zx0_of(
                tile_body_spec(
                    self.image.data@,
                    self.image.width as int,
                    self.index.0 as int,
                    self.index.1 as int,
                ),
            ).len() <= 65500 ==> result is Ok,
    {
        let image = self.image;
        let width = image.width as usize;
        let tx = self.index.0 as usize;
        let ty = self.index.1 as usize;
        let ghost gdata = image.data@;
        let ghost gw = image.width as int;
        let ghost gtx = tx as int;
        let ghost gty = ty as int;
        let mut body: Vec<u8> = Vec::new();
        body.push(80);
        body.push(80);
        let mut k: usize = 0;
        proof {
            assert(body@ =~= seq![80u8, 80u8] + tile_pixels_spec(gdata, gw, gtx, gty).take(0));
        }
        while k < 6400
            invariant
                k <= 6400,
                width == gw,
                tx == gtx,
                ty == gty,
                gdata == image.data@,
                gw == image.width as int,
                self.wf(),
                image == self.image,
                tx == self.index.0 as int,
                ty == self.index.1 as int,
                body@ == seq![80u8, 80u8] + tile_pixels_spec(gdata, gw, gtx, gty).take(k as int),
            decreases 6400 - k,
        {
            let y = k / 80;
            let x = k % 80;
            proof {
                lemma_row_in_bounds(gw, image.height as int, gtx, gty, y as int);
            }
            let idx = (ty * 80 + y) * width + tx * 80 + x;
            body.push(image.data[idx]);
            k = k + 1;
            proof {
                assert(body@ =~= seq![80u8, 80u8] + tile_pixels_spec(gdata, gw, gtx, gty).take(
                    k as int,
                ));
            }
        }
        proof {
            assert(body@ =~= tile_body_spec(gdata, gw, gtx, gty));
        }
        let mut compressed = zx0_compress(&body);
        let mut payload: Vec<u8> = Vec::new();
        push_tile_signature(&mut payload);
        proof {
            assert forall|i: int| 0 <= i < image.name@.len() implies is_ascii_char(
                #[trigger] image.name@[i],
            ) by {
                assert(valid_name_char(image.name@[i]));
            }
        }
        push_ascii(&mut payload, image.name.as_str());
        let ghost gcompressed = compressed@;
        payload.append(&mut compressed);
        proof {
            assert(payload@ =~= tile_payload_spec(image.name@, gdata, gw, gtx, gty));
            assert(tile_name_spec(image.var_prefix@, gtx, gty).len() == 8);
            assert(crate::name::is_alpha_char(self.appvar_name@[0]));
            assert(payload@.len() <= 16 + gcompressed.len());
        }
        match make_appvar(self.appvar_name.as_str(), &payload) {
            Ok(bytes) => Ok(bytes),
            Err(e) => Err(ConvertError::Container(e)),
        }
    }
}

impl QuantizedImage {
    /// Serialize the palette into its complete container file: the
    /// signature, name, prefix and last-tile-coordinate header followed by
    /// all 256 packed colors, wrapped into the archived variable file named
    /// after the prefix. This payload always fits, so serialization always
    /// succeeds.
    pub fn write_palette_appvar(&self) -> (result: Result<Vec<u8>, ConvertError>)
        requires
            self.wf(),
        ensures
            result is Ok,
            result matches Ok(bytes) ==> bytes@ == appvar_of(
                palette_name_spec(self.var_prefix@),
                palette_payload_spec(
                    self.name@,
                    self.var_prefix@,
                    self.width as int / 80,
                    self.height as int / 80,
                    self.palette@,
                ),
            ),
    {
        let mut payload: Vec<u8> = Vec::new();
        push_palette_signature(&mut payload);
        proof {
            assert forall|i: int| 0 <= i < self.name@.len() implies is_ascii_char(
                #[trigger] self.name@[i],
            ) by {
                assert(valid_name_char(self.name@[i]));
            }
        }
        push_ascii(&mut payload, self.name.as_str());
        push_ascii(&mut payload, self.var_prefix.as_str());
        let wt = self.width_tiles();
        let ht = self.height_tiles();
        push_digits3(&mut payload, wt - 1);
        push_digits3(&mut payload, ht - 1);
        let ghost ghead = payload@;
        let mut i: usize = 0;
        while i < 256
            invariant
                i <= 256,
                self.wf(),
                payload@.len() == ghead.len() + 2 * i,
                ghead.len() == 24,
                forall|j: int| 0 <= j < ghead.len() ==> payload@[j] == ghead[j],
                forall|j: int|
                    0 <= j < 2 * i ==> payload@[ghead.len() + j]
                        == packed_palette_bytes(self.palette@)[j],
            decreases 256 - i,
        {
            let packed = GRGB1555::from_color(self.palette[i]);
            let (lo, hi) = packed.to_le_bytes();
            payload.push(lo);
            payload.push(hi);
            proof {
                assert((2 * i as int) / 2 == i as int && (2 * i as int) % 2 == 0 && (2 * i as int
                    + 1) / 2 == i as int && (2 * i as int + 1) % 2 == 1);
            }
            i = i + 1;
        }
        proof {
            assert(packed_palette_bytes(self.palette@).len() == 512);
            assert(payload@ =~= palette_payload_spec(
                self.name@,
                self.var_prefix@,
                self.width as int / 80,
                self.height as int / 80,
                self.palette@,
            ));
        }
        let name = self.palette_appvar_name();
        proof {
            assert(name@[0] == 'H');
        }
        match make_appvar(name.as_str(), &payload) {
            Ok(bytes) => Ok(bytes),
            Err(e) => Err(ConvertError::Container(e)),
        }
    }
}

} // verus!
