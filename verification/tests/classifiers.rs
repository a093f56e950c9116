use slam_parser::Parser;

#[test]
fn failure_four_floats() {
    assert!(Parser::get_four_floats("asd").is_none());
    assert!(Parser::get_four_floats(" 1.0 1.0 1.a 1.0").is_none());
    assert!(Parser::get_four_floats(" 1.0 1.0 1.0 --1.0").is_none());
    assert!(Parser::get_four_floats(" | 1.0 1.0 1.0 1.0").is_none());
}

#[test]
fn success_four_floats() {
    let values = vec![
        ("1.0 1.0 1.0 1.0", (1.0, 1.0, 1.0, 1.0)),
        ("\t123.0 -1.234 1.0 1.0 \t\t", (123.0, -1.234, 1.0, 1.0)),
        (" 1.0 1.0 1.0 1.0", (1.0, 1.0, 1.0, 1.0)),
        (" \t 1.0 1.0 1.0 -1.0", (1.0, 1.0, 1.0, -1.0)),
    ];

    for (line, floats) in values {
        let parse_res = Parser::get_four_floats(line);
        assert!(parse_res.is_some());
        let t = parse_res.unwrap();
        assert_eq!(
            (
                f32::from_bits(t.0),
                f32::from_bits(t.1),
                f32::from_bits(t.2),
                f32::from_bits(t.3)
            ),
            floats
        );
    }
}

#[test]
fn success_two_floats() {
    let values = vec![
        ("1.0 1.0", (1.0, 1.0)),
        ("\t123.0 -1.234  \t\t", (123.0, -1.234)),
        (" 1.0 1.0 ", (1.0, 1.0)),
        (" \t 1.0 -1.0", (1.0, -1.0)),
    ];

    for (line, floats) in values {
        let parse_res = Parser::get_two_floats(line);
        assert!(parse_res.is_some());
        let t = parse_res.unwrap();
        assert_eq!((f32::from_bits(t.0), f32::from_bits(t.1)), floats);
    }
}

#[test]
fn four_floats_exact_bits() {
    assert_eq!(
        Parser::get_four_floats("1 0 -2.5 1e2"),
        Some((0x3f80_0000, 0, 0xc020_0000, 0x42c8_0000))
    );
}

#[test]
fn four_floats_take_a_line_terminator() {
    let plain = Parser::get_four_floats("1 2 3 4");
    assert!(plain.is_some());
    assert_eq!(Parser::get_four_floats("1 2 3 4\n"), plain);
    assert_eq!(Parser::get_four_floats("1 2 3 4\r\n"), plain);
    assert_eq!(Parser::get_four_floats("1 2 3 4 \t\n"), plain);
    assert!(Parser::get_four_floats("1 2 3 4\n\n").is_none());
    assert!(Parser::get_four_floats("1 2 3 4\r").is_none());
}

#[test]
fn four_floats_want_exactly_four() {
    assert!(Parser::get_four_floats("1 2 3").is_none());
    assert!(Parser::get_four_floats("1 2 3 4 5").is_none());
    assert!(Parser::get_four_floats("1 2 3 4 x").is_none());
    assert!(Parser::get_four_floats("").is_none());
}

#[test]
fn three_floats_want_exactly_three() {
    assert_eq!(
        Parser::get_three_floats("5.0 6.0 7.0"),
        Some((5.0f32.to_bits(), 6.0f32.to_bits(), 7.0f32.to_bits()))
    );
    assert!(Parser::get_three_floats("5.0 6.0").is_none());
    assert!(Parser::get_three_floats("5.0 6.0 7.0 8.0").is_none());
    assert!(Parser::get_three_floats("5.0 6.0 seven").is_none());
}

#[test]
fn number_shapes() {
    for line in ["1 2 3", "+1 -2 3", "1. .5 1.5", "1e5 1E-5 1.e+5", "007 0.0 -0"] {
        assert!(Parser::get_three_floats(line).is_some(), "{}", line);
    }
    for line in ["1 2 .", "1 2 e5", "1 2 +", "1 2 -.", "1 2 ３"] {
        assert!(Parser::get_three_floats(line).is_none(), "{}", line);
    }
    assert_eq!(
        Parser::get_three_floats("1e 2 3"),
        None,
        "an exponent needs a digit, so `e` is left over"
    );
    assert_eq!(
        Parser::get_three_floats("1.5.5 3"),
        Some((1.5f32.to_bits(), 0.5f32.to_bits(), 3.0f32.to_bits()))
    );
}

#[test]
fn two_floats_with_brackets_and_comma() {
    let plain = Some((100.0f32.to_bits(), 200.0f32.to_bits()));
    for line in [
        "100.0 200.0",
        "[100.0 200.0]",
        "[100.0, 200.0]",
        "[100.0,200.0]",
        "100.0,200.0",
        "100.0 , 200.0 ]",
        " [ 100.0 , 200.0 ] \n",
        "[100.0 200.0",
    ] {
        assert_eq!(Parser::get_two_floats(line), plain, "{}", line);
    }
    for line in [
        "100.0",
        "[[100.0 200.0]",
        "100.0,,200.0",
        "100.0 200.0]]",
        "100.0 200.0 300.0",
        "(100.0 200.0)",
        ",100.0 200.0",
    ] {
        assert!(Parser::get_two_floats(line).is_none(), "{}", line);
    }
}

#[test]
fn camera_id_is_what_follows_the_marker() {
    assert_eq!(Parser::get_camera_id("CAMERA_ID cam0"), Some("cam0".to_string()));
    assert_eq!(Parser::get_camera_id("# CAMERA_ID\tleft camera"), Some("left camera".to_string()));
    assert_eq!(Parser::get_camera_id("CAMERA_ID  cam0 "), Some(" cam0 ".to_string()));
    assert_eq!(Parser::get_camera_id("CAMERA_ID "), Some("".to_string()));
    assert_eq!(Parser::get_camera_id("CAMERA_ID cam0\n"), Some("cam0".to_string()));
    assert_eq!(Parser::get_camera_id("CAMERA_ID cam0\r\n"), Some("cam0".to_string()));
    assert_eq!(Parser::get_camera_id("CAMERA_ID caméra ü"), Some("caméra ü".to_string()));
}

#[test]
fn camera_id_takes_the_last_marker() {
    assert_eq!(Parser::get_camera_id("CAMERA_ID a CAMERA_ID b"), Some("b".to_string()));
    assert_eq!(Parser::get_camera_id("CAMERA_ID a CAMERA_ID"), Some("a CAMERA_ID".to_string()));
}

#[test]
fn camera_id_needs_marker_and_blank() {
    assert_eq!(Parser::get_camera_id("CAMERA_ID"), None);
    assert_eq!(Parser::get_camera_id("CAMERA_IDcam0"), None);
    assert_eq!(Parser::get_camera_id("camera_id cam0"), None);
    assert_eq!(Parser::get_camera_id("CAMERA ID cam0"), None);
    assert_eq!(Parser::get_camera_id(""), None);
    assert_eq!(Parser::get_camera_id("1 2 3 4"), None);
}

#[test]
fn k_tag_is_found_anywhere() {
    assert!(Parser::get_k_tag("MATRIX K"));
    assert!(Parser::get_k_tag("# the MATRIX K follows"));
    assert!(Parser::get_k_tag("MATRIX K\n"));
    assert!(!Parser::get_k_tag("MATRIX  K"));
    assert!(!Parser::get_k_tag("MATRIX"));
    assert!(!Parser::get_k_tag("matrix k"));
    assert!(!Parser::get_k_tag(""));
}

#[test]
fn blanks_do_not_change_a_row() {
    let plain = Parser::get_three_floats("5.0 6.0 7.0");
    assert!(plain.is_some());
    for line in [" 5.0 6.0 7.0", "\t\t5.0 6.0 7.0", "5.0 6.0 7.0  ", "  5.0\t6.0   7.0 \t\r\n"] {
        assert_eq!(Parser::get_three_floats(line), plain, "{:?}", line);
    }
    let pixel = Parser::get_two_floats("1.5 2.5");
    assert!(pixel.is_some());
    for line in ["  1.5 2.5", "1.5 2.5\t", " 1.5   2.5 \n"] {
        assert_eq!(Parser::get_two_floats(line), pixel, "{:?}", line);
    }
}
