use hdpictureconverter::name::{
    generate_calc_name, palette_container_name, tile_appvar_name, var_prefix_str,
};

#[test]
fn calc_name_keeps_valid_eight_char_names() {
    assert_eq!(generate_calc_name("my pic!.png"), "mypicpng");
    assert_eq!(generate_calc_name("mypicpng"), "mypicpng");
}

#[test]
fn calc_name_pads_short_names_with_underscores() {
    assert_eq!(generate_calc_name("ab"), "ab______");
    assert_eq!(generate_calc_name(""), "________");
    assert_eq!(generate_calc_name("!!!"), "________");
}

#[test]
fn calc_name_replaces_leading_non_alphabetic() {
    assert_eq!(generate_calc_name("1abc"), "Zabc____");
    assert_eq!(generate_calc_name("2023 photo.jpg"), "Z023phot");
}

#[test]
fn calc_name_truncates_long_names() {
    assert_eq!(generate_calc_name("averylongfilename.png"), "averylon");
}

#[test]
fn calc_name_is_idempotent() {
    for input in ["my pic!.png", "1abc", "ab", "", "averylongfilename.png"] {
        let once = generate_calc_name(input);
        assert_eq!(generate_calc_name(&once), once);
    }
}

#[test]
fn var_prefix_accepts_two_letters() {
    assert_eq!(var_prefix_str("AB").unwrap(), "AB");
    assert_eq!(var_prefix_str("xy").unwrap(), "xy");
}

#[test]
fn var_prefix_rejects_non_alphabetic() {
    assert_eq!(
        var_prefix_str("A1").unwrap_err(),
        "the character at var_prefix position 1 is not an alphabetic character"
    );
    assert_eq!(
        var_prefix_str("1A").unwrap_err(),
        "the character at var_prefix position 0 is not an alphabetic character"
    );
}

#[test]
fn var_prefix_rejects_wrong_length() {
    assert_eq!(
        var_prefix_str("ABC").unwrap_err(),
        "var_prefix must be exactly two characters, but is 3"
    );
    assert_eq!(
        var_prefix_str("A").unwrap_err(),
        "var_prefix must be exactly two characters, but is 1"
    );
    assert_eq!(
        var_prefix_str("").unwrap_err(),
        "var_prefix must be exactly two characters, but is 0"
    );
}

#[test]
fn tile_names_are_zero_padded_column_then_row() {
    assert_eq!(tile_appvar_name("AB", 2, 1), "AB002001");
    assert_eq!(tile_appvar_name("AB", 0, 3), "AB000003");
    assert_eq!(tile_appvar_name("xy", 123, 45), "xy123045");
}

#[test]
fn palette_name_wraps_prefix() {
    assert_eq!(palette_container_name("AB"), "HPAB0000");
}
