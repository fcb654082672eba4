use hdpictureconverter::color::{Color, GRGB1555};

#[test]
fn rgb_conversion_is_correct() {
    assert_eq!(
        GRGB1555::from_color(Color { r: 0xff, g: 0xff, b: 0xff }),
        GRGB1555(0xFFFF)
    );
    assert_eq!(
        GRGB1555::from_color(Color { r: 0xff, g: 0, b: 0 }),
        GRGB1555(0x7c00)
    );
    assert_eq!(
        GRGB1555::from_color(Color { r: 0, g: 0xff, b: 0 }),
        GRGB1555(0x83e0)
    );
    assert_eq!(
        GRGB1555::from_color(Color { r: 0, g: 0, b: 0xff }),
        GRGB1555(0x001f)
    );
    assert_eq!(
        GRGB1555::from_color(Color { r: 0x5d, g: 0x37, b: 0x2c }),
        GRGB1555(0x2CE5)
    );
}

#[test]
fn black_packs_to_zero() {
    assert_eq!(GRGB1555::from_color(Color { r: 0, g: 0, b: 0 }), GRGB1555(0));
}

#[test]
fn le_bytes_are_little_endian() {
    let packed = GRGB1555::from_color(Color { r: 0x5d, g: 0x37, b: 0x2c });
    assert_eq!(packed.to_le_bytes(), (0xE5, 0x2C));
    let white = GRGB1555::from_color(Color { r: 255, g: 255, b: 255 });
    assert_eq!(white.to_le_bytes(), (0xFF, 0xFF));
}
