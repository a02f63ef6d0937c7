use img2header::elem::ElemType;
use img2header::header::CHeader;
use img2header::header::HeaderError;

fn make(
    name: &str,
    data: Vec<i64>,
    width: u32,
    height: u32,
    channels: u32,
    static_attr: bool,
    const_attr: bool,
    data_type: &str,
    elem: ElemType,
    output_path: &str,
    write_hex: bool,
    link_section: &str,
) -> CHeader {
    CHeader::new(
        name.to_string(),
        data,
        width,
        height,
        channels,
        static_attr,
        const_attr,
        data_type.to_string(),
        elem,
        output_path.to_string(),
        write_hex,
        link_section.to_string(),
    )
    .expect("header setup should succeed")
}

fn empty_u8() -> CHeader {
    make("x", vec![], 0, 0, 0, false, false, "uint8_t", ElemType::UInt8, "out.h", false, "")
}

#[test]
fn decimal_width_one_below_ten() {
    let mut h = empty_u8();
    h.write_data_element_dec(7);
    assert_eq!(h.contents(), "7");
}

#[test]
fn decimal_width_two_below_hundred() {
    let mut h = empty_u8();
    h.write_data_element_dec(42);
    assert_eq!(h.contents(), "42");
}

#[test]
fn decimal_width_three_above() {
    let mut h = empty_u8();
    h.write_data_element_dec(255);
    assert_eq!(h.contents(), "255");
}

#[test]
fn decimal_negative_values_follow_signed_thresholds() {
    let mut h = empty_u8();
    h.write_data_element_dec(-5);
    assert_eq!(h.contents(), "-5");
    let mut h2 = empty_u8();
    h2.write_data_element_dec(-120);
    assert_eq!(h2.contents(), "-120");
}

#[test]
fn hex_u8_two_digits_round_trip() {
    for v in [0i64, 1, 90, 130, 255] {
        let mut h = empty_u8();
        h.write_data_element_hex(v);
        let text = h.contents().to_string();
        assert_eq!(text.len(), 4);
        assert!(text.starts_with("0x"));
        let back = u8::from_str_radix(&text[2..], 16).unwrap();
        assert_eq!(back as i64, v);
    }
    let mut h = empty_u8();
    h.write_data_element_hex(90);
    assert_eq!(h.contents(), "0x5a");
}

#[test]
fn hex_u16_four_digits_round_trip() {
    for v in [0i64, 9, 4660, 65535] {
        let mut h = make(
            "x", vec![], 0, 0, 0, false, false, "uint16_t", ElemType::UInt16, "o.h", true, "",
        );
        h.write_data_element_hex(v);
        let text = h.contents().to_string();
        assert_eq!(text.len(), 6);
        let back = u16::from_str_radix(&text[2..], 16).unwrap();
        assert_eq!(back as i64, v);
    }
}

#[test]
fn hex_u32_eight_digits_round_trip() {
    for v in [0i64, 305419896, 4294967295] {
        let mut h = make(
            "x", vec![], 0, 0, 0, false, false, "uint32_t", ElemType::UInt32, "o.h", true, "",
        );
        h.write_data_element_hex(v);
        let text = h.contents().to_string();
        assert_eq!(text.len(), 10);
        let back = u32::from_str_radix(&text[2..], 16).unwrap();
        assert_eq!(back as i64, v);
    }
    let mut h = make(
        "x", vec![], 0, 0, 0, false, false, "uint32_t", ElemType::UInt32, "o.h", true, "",
    );
    h.write_data_element_hex(305419896);
    assert_eq!(h.contents(), "0x12345678");
}

#[test]
fn hex_signed_uses_twos_complement_round_trip() {
    let mut h = make("x", vec![], 0, 0, 0, false, false, "int8_t", ElemType::Int8, "o.h", true, "");
    h.write_data_element_hex(-1);
    assert_eq!(h.contents(), "0xff");
    let back = u8::from_str_radix(&h.contents()[2..], 16).unwrap() as i8;
    assert_eq!(back as i64, -1);

    let mut h16 =
        make("x", vec![], 0, 0, 0, false, false, "int16_t", ElemType::Int16, "o.h", true, "");
    h16.write_data_element_hex(-2);
    assert_eq!(h16.contents(), "0xfffe");
    let back16 = u16::from_str_radix(&h16.contents()[2..], 16).unwrap() as i16;
    assert_eq!(back16 as i64, -2);

    let mut h32 =
        make("x", vec![], 0, 0, 0, false, false, "int32_t", ElemType::Int32, "o.h", true, "");
    h32.write_data_element_hex(-305419896);
    let back32 = u32::from_str_radix(&h32.contents()[2..], 16).unwrap() as i32;
    assert_eq!(back32 as i64, -305419896);
}

#[test]
fn empty_name_derives_from_file_stem_case_preserved() {
    let mut h = make(
        "",
        vec![1, 2],
        2,
        1,
        1,
        false,
        false,
        "uint8_t",
        ElemType::UInt8,
        "led_matrix.h",
        false,
        "",
    );
    assert_eq!(h.var_name(), "led_matrix");
    h.write_header();
    let text = h.contents();
    assert!(text.starts_with("#ifndef led_matrix_H\n#define led_matrix_H\n\n"));
    assert!(text.ends_with("#endif // led_matrix_H\n"));
    assert!(!text.contains("LED_MATRIX_H"));
}

#[test]
fn file_stem_strips_directories_and_last_extension() {
    let h = make(
        "",
        vec![],
        0,
        0,
        0,
        false,
        false,
        "uint8_t",
        ElemType::UInt8,
        "a/b/c.img.h",
        false,
        "",
    );
    assert_eq!(h.var_name(), "c.img");
    let h2 = make(
        "", vec![], 0, 0, 0, false, false, "uint8_t", ElemType::UInt8, "noext", false, "",
    );
    assert_eq!(h2.var_name(), "noext");
}

#[test]
fn dotfile_name_has_no_extension_to_strip() {
    let h = make(
        "", vec![], 0, 0, 0, false, false, "uint8_t", ElemType::UInt8, ".config", false, "",
    );
    assert_eq!(h.var_name(), ".config");
    let h2 = make(
        "", vec![], 0, 0, 0, false, false, "uint8_t", ElemType::UInt8, "trailing.", false, "",
    );
    assert_eq!(h2.var_name(), "trailing");
}

#[test]
fn data_block_alone() {
    let mut h = make(
        "img", vec![7], 1, 1, 1, false, false, "uint8_t", ElemType::UInt8, "out.h", false, "",
    );
    h.write_data();
    assert_eq!(h.contents(), "// size of data: 1\nuint8_t data[SIZE] = {\n7, \n};\n");
}

#[test]
fn explicit_name_wins_over_path() {
    let h = make(
        "logo", vec![], 0, 0, 0, false, false, "uint8_t", ElemType::UInt8, "other.h", false, "",
    );
    assert_eq!(h.var_name(), "logo");
    assert_eq!(h.output_path(), "other.h");
}

#[test]
fn decimal_mode_two_rows_width_major() {
    let mut h = make(
        "img", vec![5, 130], 2, 1, 1, false, false, "uint8_t", ElemType::UInt8, "out.h", false, "",
    );
    h.write_header();
    let text = h.contents();
    assert!(text.contains("uint8_t data[SIZE] = {\n5, \n130, \n};\n"));
}

#[test]
fn full_document_golden() {
    let mut h = make(
        "img", vec![5, 130], 2, 1, 1, false, false, "uint8_t", ElemType::UInt8, "out.h", false, "",
    );
    h.write_header();
    let expected = "#ifndef img_H\n#define img_H\n\n#include <stdint.h>\n#define WIDTH 2\n#define HEIGHT 1\n#define CHANNELS 1\n#define SIZE 2\n// size of data: 2\nuint8_t data[SIZE] = {\n5, \n130, \n};\n#endif // img_H\n";
    assert_eq!(h.contents(), expected);
}

#[test]
fn static_const_qualifiers_in_order() {
    let mut h = make(
        "img", vec![255], 1, 1, 1, true, true, "uint8_t", ElemType::UInt8, "out.h", true, "",
    );
    h.write_header();
    let text = h.contents();
    assert!(text.contains("static const uint8_t data[SIZE] = {\n0xff, \n};\n"));
}

#[test]
fn width_major_traversal_groups_rows_by_height() {
    // width 2, height 2, channels 1: element (i*height + j) of the buffer,
    // one newline per (i, j) pair.
    let mut h = make(
        "img", vec![10, 20, 30, 40], 2, 2, 1, false, false, "uint8_t", ElemType::UInt8, "out.h",
        false, "",
    );
    h.write_header();
    let text = h.contents();
    assert!(text.contains("uint8_t data[SIZE] = {\n10, \n20, \n30, \n40, \n};\n"));
}

#[test]
fn channels_stay_on_one_row() {
    let mut h = make(
        "img", vec![1, 2, 3, 4, 5, 6], 1, 2, 3, false, false, "uint8_t", ElemType::UInt8, "out.h",
        false, "",
    );
    h.write_header();
    let text = h.contents();
    assert!(text.contains("uint8_t data[SIZE] = {\n1, 2, 3, \n4, 5, 6, \n};\n"));
}

#[test]
fn linker_section_line_present_exactly_once() {
    let mut h = make(
        "img", vec![9], 1, 1, 1, false, false, "uint8_t", ElemType::UInt8, "out.h", false,
        "custom_section",
    );
    h.write_header();
    let text = h.contents();
    let attr = "__attribute__((section(\"custom_section\")))\n";
    assert_eq!(text.matches(attr).count(), 1);
    assert!(text.contains(&format!("{}uint8_t data[SIZE] = {{\n", attr)));
}

#[test]
fn linker_section_absent_when_unset() {
    let mut h = make(
        "img", vec![9], 1, 1, 1, false, false, "uint8_t", ElemType::UInt8, "out.h", false, "",
    );
    h.write_header();
    assert!(!h.contents().contains("__attribute__"));
}

#[test]
fn size_define_matches_element_count() {
    let data: Vec<i64> = (0..12).collect();
    let mut h = make(
        "img", data, 2, 3, 2, false, false, "uint8_t", ElemType::UInt8, "out.h", false, "",
    );
    h.write_header();
    let text = h.contents();
    assert!(text.contains("#define SIZE 12\n"));
    let body_start = text.find("= {\n").unwrap() + 4;
    let body_end = text.find("};").unwrap();
    let commas = text[body_start..body_end].matches(',').count();
    assert_eq!(commas, 12);
}

#[test]
fn shape_mismatch_is_rejected() {
    let r = CHeader::new(
        "img".to_string(),
        vec![1, 2, 3],
        2,
        1,
        1,
        false,
        false,
        "uint8_t".to_string(),
        ElemType::UInt8,
        "out.h".to_string(),
        false,
        String::new(),
    );
    assert_eq!(r.err(), Some(HeaderError::ShapeMismatch));
}

#[test]
fn empty_name_without_stem_is_rejected() {
    for path in ["", "/", "dir/", ".", "..", "a/.."] {
        let r = CHeader::new(
            String::new(),
            vec![],
            0,
            0,
            0,
            false,
            false,
            "uint8_t".to_string(),
            ElemType::UInt8,
            path.to_string(),
            false,
            String::new(),
        );
        assert_eq!(r.err(), Some(HeaderError::InvalidNameDerivation), "path {:?}", path);
    }
}

#[test]
fn defines_block_alone() {
    let mut h = make(
        "img", vec![0, 0], 1, 2, 1, false, false, "uint8_t", ElemType::UInt8, "out.h", false, "",
    );
    h.write_defines();
    assert_eq!(
        h.contents(),
        "#include <stdint.h>\n#define WIDTH 1\n#define HEIGHT 2\n#define CHANNELS 1\n#define SIZE 2\n"
    );
}

#[test]
fn guards_alone() {
    let mut h = make(
        "pix", vec![], 0, 0, 0, false, false, "uint8_t", ElemType::UInt8, "out.h", false, "",
    );
    h.write_front_guard();
    h.write_back_guard();
    assert_eq!(h.contents(), "#ifndef pix_H\n#define pix_H\n\n#endif // pix_H\n");
}

#[test]
fn empty_buffer_renders_empty_body() {
    let mut h = make(
        "img", vec![], 0, 0, 0, false, false, "uint8_t", ElemType::UInt8, "out.h", false, "",
    );
    h.write_header();
    assert!(h.contents().contains("uint8_t data[SIZE] = {\n};\n"));
}
