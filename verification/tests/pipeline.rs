use hdpictureconverter::canvas::Image;
use hdpictureconverter::color::{Color, GRGB1555};
use hdpictureconverter::quantize::QuantizedImage;

/// A 100 by 60 source: a white stripe on top, a black stripe below it, then
/// rows of a handful of solid colors.
fn sample_source() -> Vec<u8> {
    let mut data = Vec::new();
    for y in 0..60u32 {
        for _x in 0..100u32 {
            let px: [u8; 4] = match y {
                0..=9 => [255, 255, 255, 255],
                10..=19 => [0, 0, 0, 255],
                20..=29 => [200, 30, 40, 255],
                30..=39 => [20, 180, 60, 255],
                40..=49 => [50, 60, 220, 255],
                _ => [120, 120, 10, 255],
            };
            data.extend_from_slice(&px);
        }
    }
    data
}

fn quantized() -> QuantizedImage {
    let data = sample_source();
    let img = Image::from_rgba(100, 60, &data, "sample.png", "AB").unwrap();
    img.quantize().unwrap()
}

#[test]
fn end_to_end_dimensions_and_tile_count() {
    let q = quantized();
    assert_eq!(q.width, 160);
    assert_eq!(q.height, 80);
    assert_eq!(q.width_tiles(), 2);
    assert_eq!(q.height_tiles(), 1);

    let mut tiles = q.tiles();
    let mut names = Vec::new();
    while let Some(tile) = tiles.next() {
        names.push(tile.appvar_name().to_owned());
        let payload = tile.write_appvar().unwrap();
        // Declared tile dimensions sit at the head of the compressed body.
        let body = expected_tile_body(&q, tile.index().0, tile.index().1);
        assert_eq!(body[0], 80);
        assert_eq!(body[1], 80);
        assert!(!payload.is_empty());
    }
    assert_eq!(names, ["AB000000", "AB001000"]);

    // The traversal is restartable: a fresh one starts over at the origin.
    let mut again = q.tiles();
    assert_eq!(again.next().unwrap().index(), (0, 0));
}

#[test]
fn palette_has_reserved_entries() {
    let q = quantized();
    assert_eq!(q.palette.len(), 256);
    assert_eq!(q.palette[0], Color { r: 0, g: 0, b: 0 });
    assert_eq!(q.palette[255], Color { r: 255, g: 255, b: 255 });
}

#[test]
fn reserved_indices_match_exact_black_and_white() {
    let q = quantized();
    let w = q.width as usize;
    // A pixel in the white stripe.
    assert_eq!(q.data[5 * w + 5], 255);
    // A pixel in the black stripe, and one in the padded border.
    assert_eq!(q.data[15 * w + 5], 0);
    assert_eq!(q.data[70 * w + 150], 0);
    // A colored pixel gets an engine index, shifted into 1..=254.
    let colored = q.data[25 * w + 5];
    assert!(colored >= 1 && colored <= 254);
}

#[test]
fn tile_rows_are_canvas_slices() {
    let q = quantized();
    let w = q.width as usize;
    let mut tiles = q.tiles();
    let first = tiles.next().unwrap();
    let second = tiles.next().unwrap();
    assert!(tiles.next().is_none());
    assert_eq!(first.index(), (0, 0));
    assert_eq!(second.index(), (1, 0));

    let mut rows = second.rows();
    let mut y = 0usize;
    while let Some(row) = rows.next() {
        assert_eq!(row.len(), 80);
        assert_eq!(row, &q.data[y * w + 80..y * w + 160]);
        y += 1;
    }
    assert_eq!(y, 80);
}

fn expected_tile_body(q: &QuantizedImage, tx: u32, ty: u32) -> Vec<u8> {
    let w = q.width as usize;
    let mut body = vec![80u8, 80u8];
    for y in 0..80usize {
        let base = (ty as usize * 80 + y) * w + tx as usize * 80;
        body.extend_from_slice(&q.data[base..base + 80]);
    }
    body
}

/// The variable file wraps exactly the documented payload: the fixed TI file
/// header is followed by the data section, whose variable data starts 74
/// bytes in and is followed by the two checksum bytes.
fn payload_of_appvar(file: &[u8]) -> &[u8] {
    assert_eq!(&file[0..8], b"**TI83F*");
    &file[74..file.len() - 2]
}

#[test]
fn tile_appvar_holds_header_and_compressed_body() {
    let q = quantized();
    let mut tiles = q.tiles();
    let tile = tiles.next().unwrap();
    let file = tile.write_appvar().unwrap();
    let payload = payload_of_appvar(&file);

    let mut expected = Vec::new();
    expected.extend_from_slice(b"HDPICCV4");
    expected.extend_from_slice(b"samplepn");
    expected.extend_from_slice(&zx0::compress(&expected_tile_body(&q, 0, 0)));
    assert_eq!(payload, &expected[..]);
}

#[test]
fn palette_appvar_holds_header_and_packed_colors() {
    let q = quantized();
    assert_eq!(q.palette_appvar_name(), "HPAB0000");
    let file = q.write_palette_appvar().unwrap();
    let payload = payload_of_appvar(&file);

    let mut expected = Vec::new();
    expected.extend_from_slice(b"HDPALV10");
    expected.extend_from_slice(b"samplepn");
    expected.extend_from_slice(b"AB");
    expected.extend_from_slice(b"001");
    expected.extend_from_slice(b"000");
    for i in 0..256usize {
        let packed = GRGB1555::from_color(q.palette[i]);
        let (lo, hi) = packed.to_le_bytes();
        expected.push(lo);
        expected.push(hi);
    }
    assert_eq!(payload.len(), 24 + 512);
    assert_eq!(payload, &expected[..]);
}
