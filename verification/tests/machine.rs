use slam_parser::{LineReading, Parser, ParserError, ParserState, SlamData};

const ONE: u32 = 0x3f80_0000;

#[test]
fn new_parser_holds_the_identity() {
    let parser = Parser::new();
    let data = parser.finish();
    assert!(data.cameras.is_empty());
    assert!(data.points.is_empty());
    assert_eq!(data.k, [[ONE, 0, 0], [0, ONE, 0], [0, 0, ONE]]);
    assert_eq!(f32::from_bits(data.k[0][0]), 1.0);
}

#[test]
fn labelled_pose_pixel_point_then_pixel() {
    let mut parser = Parser::new();
    for line in ["CAMERA_ID cam0", "1 0 0 0", "0 1 0 0", "0 0 1 0", "100.0 200.0", "5.0 6.0 7.0"] {
        assert!(parser.accepts(line));
        assert_eq!(parser.next_line(line.to_string()), Ok(()));
    }
    {
        let data = parser.data();
        assert_eq!(data.cameras.len(), 1);
        let camera = &data.cameras[0];
        assert_eq!(camera.camera_id, Some("cam0".to_string()));
        assert_eq!(camera.r_cw, [[ONE, 0, 0], [0, ONE, 0], [0, 0, ONE]]);
        assert_eq!(camera.t_cw, [0, 0, 0]);
        assert_eq!(camera.pixels, vec![[100.0f32.to_bits(), 200.0f32.to_bits()]]);
        assert_eq!(data.points, vec![[5.0f32.to_bits(), 6.0f32.to_bits(), 7.0f32.to_bits()]]);
    }
    assert!(parser.accepts("10.0 20.0"));
    assert_eq!(parser.next_line("10.0 20.0".to_string()), Err(ParserError::UnexpectedPixel));
    let data = parser.finish();
    assert_eq!(data.cameras.len(), 1);
    assert_eq!(data.cameras[0].pixels.len(), 1);
    assert_eq!(data.points.len(), 1);
}

#[test]
fn labelled_pose_pixel_point_then_pixel_as_a_run() {
    let lines: Vec<Option<String>> = [
        "CAMERA_ID cam0",
        "1 0 0 0",
        "0 1 0 0",
        "0 0 1 0",
        "100.0 200.0",
        "5.0 6.0 7.0",
        "10.0 20.0",
    ]
    .iter()
    .map(|l| Some(l.to_string()))
    .collect();
    assert!(matches!(Parser::parse_lines(lines), Some(Err(ParserError::UnexpectedPixel))));
}

#[test]
fn intrinsic_block_replaces_the_matrix() {
    let mut parser = Parser::new();
    for line in ["MATRIX K", "500 0 320", "0 500 240", "0 0 1"] {
        assert_eq!(parser.next_line(line.to_string()), Ok(()));
    }
    let data = parser.finish();
    let b = |x: f32| x.to_bits();
    assert_eq!(
        data.k,
        [[b(500.0), b(0.0), b(320.0)], [b(0.0), b(500.0), b(240.0)], [b(0.0), b(0.0), b(1.0)]]
    );
    assert!(data.cameras.is_empty());
    assert!(data.points.is_empty());
}

#[test]
fn intrinsic_block_interrupted() {
    for bad in ["1 2 3 4", "1 2", "", "text", "MATRIX K"] {
        let mut parser = Parser::new();
        assert_eq!(parser.next_line("MATRIX K".to_string()), Ok(()));
        assert_eq!(parser.next_line("500 0 320".to_string()), Ok(()));
        assert_eq!(parser.next_line(bad.to_string()), Err(ParserError::IncompleteK), "{:?}", bad);
        assert_eq!(parser.data().k, [[ONE, 0, 0], [0, ONE, 0], [0, 0, ONE]]);
    }
}

#[test]
fn second_intrinsic_block_overwrites() {
    let lines: Vec<Option<String>> =
        ["MATRIX K", "1 2 3", "4 5 6", "7 8 9", "MATRIX K", "9 8 7", "6 5 4", "3 2 1"]
            .iter()
            .map(|l| Some(l.to_string()))
            .collect();
    let data = Parser::parse_lines(lines).unwrap().ok().unwrap();
    let b = |x: f32| x.to_bits();
    assert_eq!(
        data.k,
        [[b(9.0), b(8.0), b(7.0)], [b(6.0), b(5.0), b(4.0)], [b(3.0), b(2.0), b(1.0)]]
    );
}

#[test]
fn label_in_an_intrinsic_block_is_kept() {
    let lines: Vec<Option<String>> = [
        "MATRIX K",
        "1 2 3",
        "CAMERA_ID left",
        "4 5 6",
        "7 8 9",
        "1 0 0 1",
        "0 1 0 2",
        "0 0 1 3",
    ]
    .iter()
    .map(|l| Some(l.to_string()))
    .collect();
    let data = Parser::parse_lines(lines).unwrap().ok().unwrap();
    assert_eq!(data.k[1], [4.0f32.to_bits(), 5.0f32.to_bits(), 6.0f32.to_bits()]);
    assert_eq!(data.cameras.len(), 1);
    assert_eq!(data.cameras[0].camera_id, Some("left".to_string()));
}

#[test]
fn pose_block_interrupted() {
    for bad in ["1 2 3", "1 2", "", "text", "MATRIX K", "CAMERA_ID cam1", "1 2 3 4 5"] {
        for rows in 1..3 {
            let mut parser = Parser::new();
            for _ in 0..rows {
                assert_eq!(parser.next_line("1 0 0 0".to_string()), Ok(()));
            }
            assert_eq!(
                parser.next_line(bad.to_string()),
                Err(ParserError::IncompletePose),
                "{:?} behind {} rows",
                bad,
                rows
            );
            assert!(parser.data().cameras.is_empty());
        }
    }
}

#[test]
fn error_leaves_the_parser_as_it_was() {
    let mut parser = Parser::new();
    assert_eq!(parser.next_line("1 0 0 0".to_string()), Ok(()));
    assert_eq!(parser.next_line("oops".to_string()), Err(ParserError::IncompletePose));
    assert_eq!(parser.next_line("0 1 0 0".to_string()), Ok(()));
    assert_eq!(parser.next_line("0 0 1 0".to_string()), Ok(()));
    assert_eq!(parser.finish().cameras.len(), 1);
}

#[test]
fn poses_come_out_in_order_with_their_columns() {
    let lines: Vec<Option<String>> = [
        "1 2 3 4",
        "5 6 7 8",
        "9 10 11 12",
        "-1.5 2.25 3e2 .5",
        "0.1 0.2 0.3 0.4",
        "7 7 7 7",
    ]
    .iter()
    .map(|l| Some(l.to_string()))
    .collect();
    let data = Parser::parse_lines(lines).unwrap().ok().unwrap();
    let b = |x: f32| x.to_bits();
    assert_eq!(data.cameras.len(), 2);
    assert_eq!(
        data.cameras[0].r_cw,
        [[b(1.0), b(2.0), b(3.0)], [b(5.0), b(6.0), b(7.0)], [b(9.0), b(10.0), b(11.0)]]
    );
    assert_eq!(data.cameras[0].t_cw, [b(4.0), b(8.0), b(12.0)]);
    assert_eq!(
        data.cameras[1].r_cw,
        [[b(-1.5), b(2.25), b(300.0)], [b(0.1), b(0.2), b(0.3)], [b(7.0), b(7.0), b(7.0)]]
    );
    assert_eq!(data.cameras[1].t_cw, [b(0.5), b(0.4), b(7.0)]);
    assert!(data.cameras[0].pixels.is_empty());
    assert_eq!(data.cameras[0].camera_id, None);
}

#[test]
fn pixels_go_to_the_last_camera_in_order() {
    let lines: Vec<Option<String>> = [
        "1 0 0 0",
        "0 1 0 0",
        "0 0 1 0",
        "1 2",
        "1 0 0 5",
        "0 1 0 5",
        "0 0 1 5",
        "[3, 4]",
        "5 6",
        "# a comment",
        "[7.5 8.5]",
    ]
    .iter()
    .map(|l| Some(l.to_string()))
    .collect();
    let data = Parser::parse_lines(lines).unwrap().ok().unwrap();
    let b = |x: f32| x.to_bits();
    assert_eq!(data.cameras.len(), 2);
    assert_eq!(data.cameras[0].pixels, vec![[b(1.0), b(2.0)]]);
    assert_eq!(data.cameras[1].pixels, vec![[b(3.0), b(4.0)], [b(5.0), b(6.0)], [b(7.5), b(8.5)]]);
}

#[test]
fn pixel_behind_a_point_is_an_error() {
    let mut parser = Parser::new();
    for line in ["1 0 0 0", "0 1 0 0", "0 0 1 0", "1 2 3"] {
        assert_eq!(parser.next_line(line.to_string()), Ok(()));
    }
    assert_eq!(parser.next_line("[1, 2]".to_string()), Err(ParserError::UnexpectedPixel));
    assert_eq!(parser.next_line("4 5 6".to_string()), Ok(()));
    assert_eq!(parser.next_line("1 2".to_string()), Err(ParserError::UnexpectedPixel));
    for line in ["1 0 0 0", "0 1 0 0", "0 0 1 0"] {
        assert_eq!(parser.next_line(line.to_string()), Ok(()));
    }
    assert_eq!(parser.next_line("1 2".to_string()), Ok(()));
    let data = parser.finish();
    assert_eq!(data.points.len(), 2);
    assert_eq!(data.cameras[1].pixels.len(), 1);
}

#[test]
fn label_goes_to_the_next_pose_only() {
    let lines: Vec<Option<String>> = [
        "CAMERA_ID first",
        "CAMERA_ID second",
        "1 0 0 0",
        "0 1 0 0",
        "0 0 1 0",
        "1 0 0 0",
        "0 1 0 0",
        "0 0 1 0",
        "CAMERA_ID lost",
    ]
    .iter()
    .map(|l| Some(l.to_string()))
    .collect();
    let data = Parser::parse_lines(lines).unwrap().ok().unwrap();
    assert_eq!(data.cameras.len(), 2);
    assert_eq!(data.cameras[0].camera_id, Some("second".to_string()));
    assert_eq!(data.cameras[1].camera_id, None);
}

#[test]
fn unknown_lines_are_passed_over() {
    let lines: Vec<Option<String>> = ["# header", "", "   ", "x y z", "1 2 3 4 5", "1 2 3"]
        .iter()
        .map(|l| Some(l.to_string()))
        .collect();
    let data = Parser::parse_lines(lines).unwrap().ok().unwrap();
    assert!(data.cameras.is_empty());
    assert_eq!(data.points.len(), 1);
}

#[test]
fn open_block_at_the_end_is_no_error() {
    let pose: Vec<Option<String>> =
        ["1 2 3", "1 0 0 0", "0 1 0 0"].iter().map(|l| Some(l.to_string())).collect();
    let data = Parser::parse_lines(pose).unwrap().ok().unwrap();
    assert!(data.cameras.is_empty());
    assert_eq!(data.points.len(), 1);
    let matrix: Vec<Option<String>> =
        ["MATRIX K", "1 2 3"].iter().map(|l| Some(l.to_string())).collect();
    let data = Parser::parse_lines(matrix).unwrap().ok().unwrap();
    assert_eq!(data.k, [[ONE, 0, 0], [0, ONE, 0], [0, 0, ONE]]);
}

#[test]
fn unread_line_ends_the_run() {
    let lines = vec![Some("1 2 3".to_string()), None, Some("4 5 6".to_string())];
    assert!(matches!(Parser::parse_lines(lines), Some(Err(ParserError::ReadingLine))));
    let lines = vec![Some("1 0 0 0".to_string()), Some("x".to_string()), None];
    assert!(matches!(Parser::parse_lines(lines), Some(Err(ParserError::IncompletePose))));
}

#[test]
fn pixel_without_a_camera_is_not_taken() {
    let mut parser = Parser::new();
    assert!(!parser.accepts("1 2"));
    assert_eq!(parser.checked_next_line("1 2".to_string()), None);
    assert!(parser.accepts("1 2 3"));
    for line in ["MATRIX K", "1 0 0", "0 1 0", "0 0 1"] {
        assert_eq!(parser.checked_next_line(line.to_string()), Some(Ok(())));
    }
    assert!(!parser.accepts("[1, 2]"));
    assert_eq!(parser.checked_next_line("[1, 2]".to_string()), None);
    assert!(parser.data().cameras.is_empty());
    let lines = vec![Some("1 2".to_string())];
    assert!(Parser::parse_lines(lines).is_none());
    let lines = vec![Some("1 2 3".to_string()), Some("1 2".to_string())];
    assert!(matches!(Parser::parse_lines(lines), Some(Err(ParserError::UnexpectedPixel))));
}

#[test]
fn rules_on_given_readings() {
    let mut parser = Parser::new();
    assert!(matches!(parser.try_two_floats(None), Ok(None)));
    assert!(matches!(parser.try_camera_id(Some("a".to_string())), Ok(Some(ParserState::Anything))));
    let next = parser.try_four_floats(Some((1, 2, 3, 4)));
    match next {
        Ok(Some(ParserState::StartPose(rows))) => assert_eq!(rows, vec![[1, 2, 3, 4]]),
        _ => panic!("a row of four starts a pose block"),
    }
    assert!(matches!(parser.try_three_floats(Some((1, 2, 3))), Ok(Some(ParserState::PoseOrPoint))));
    assert!(matches!(parser.try_mat_k_tag(false), Ok(None)));
    match parser.try_mat_k_tag(true) {
        Ok(Some(ParserState::StartMatK(rows))) => assert!(rows.is_empty()),
        _ => panic!("the tag opens an intrinsic block"),
    }
    let data: SlamData = parser.finish();
    assert_eq!(data.points, vec![[1, 2, 3]]);
}

#[test]
fn save_new_camera_pose_splits_the_columns() {
    let mut parser = Parser::new();
    parser.save_new_camera_pose(vec![[1, 2, 3, 4], [5, 6, 7, 8], [9, 10, 11, 12]]);
    parser.save_mat_k(vec![[1, 2, 3], [4, 5, 6], [7, 8, 9]]);
    let data = parser.finish();
    assert_eq!(data.cameras[0].r_cw, [[1, 2, 3], [5, 6, 7], [9, 10, 11]]);
    assert_eq!(data.cameras[0].t_cw, [4, 8, 12]);
    assert_eq!(data.k, [[1, 2, 3], [4, 5, 6], [7, 8, 9]]);
    assert_eq!(Parser::tuple2arr_4((1, 2, 3, 4)), [1, 2, 3, 4]);
    assert_eq!(Parser::tuple2arr_3((1, 2, 3)), [1, 2, 3]);
}

#[test]
fn label_rule_comes_first() {
    let mut parser = Parser::new();
    let line = LineReading {
        camera_id: Some("a".to_string()),
        four_floats: Some((1, 2, 3, 4)),
        three_floats: Some((1, 2, 3)),
        two_floats: Some((1, 2)),
        k_tag: true,
    };
    assert!(parser.takes(&line));
    assert_eq!(parser.apply(line), Ok(()));
    assert!(matches!(parser.state(), ParserState::Anything));
    assert!(parser.data().points.is_empty());
    for row in [(1, 2, 3, 4), (5, 6, 7, 8), (9, 10, 11, 12)] {
        let line = LineReading {
            camera_id: None,
            four_floats: Some(row),
            three_floats: Some((0, 0, 0)),
            two_floats: Some((0, 0)),
            k_tag: true,
        };
        assert_eq!(parser.apply(line), Ok(()));
    }
    assert!(matches!(parser.state(), ParserState::Anything));
    let data = parser.finish();
    assert_eq!(data.cameras.len(), 1);
    assert_eq!(data.cameras[0].camera_id, Some("a".to_string()));
    assert_eq!(data.cameras[0].r_cw, [[1, 2, 3], [5, 6, 7], [9, 10, 11]]);
    assert_eq!(data.cameras[0].t_cw, [4, 8, 12]);
    assert!(data.points.is_empty());
}

#[test]
fn label_in_a_pose_block_is_not_taken() {
    let mut parser = Parser::new();
    let row = LineReading {
        camera_id: None,
        four_floats: Some((1, 2, 3, 4)),
        three_floats: None,
        two_floats: None,
        k_tag: false,
    };
    assert_eq!(parser.apply(row), Ok(()));
    let both = LineReading {
        camera_id: Some("late".to_string()),
        four_floats: Some((5, 6, 7, 8)),
        three_floats: None,
        two_floats: None,
        k_tag: false,
    };
    assert_eq!(parser.apply(both), Ok(()));
    match parser.state() {
        ParserState::StartPose(rows) => assert_eq!(rows, &vec![[1, 2, 3, 4], [5, 6, 7, 8]]),
        _ => panic!("two rows of a pose block are read"),
    }
    let label = LineReading {
        camera_id: Some("late".to_string()),
        four_floats: None,
        three_floats: None,
        two_floats: None,
        k_tag: false,
    };
    assert_eq!(parser.apply(label), Err(ParserError::IncompletePose));
    let row = LineReading {
        camera_id: None,
        four_floats: Some((9, 10, 11, 12)),
        three_floats: None,
        two_floats: None,
        k_tag: false,
    };
    assert_eq!(parser.apply(row), Ok(()));
    assert_eq!(parser.finish().cameras[0].camera_id, None);
}

#[test]
fn rows_of_four_stand_aside_in_an_intrinsic_block() {
    let mut parser = Parser::new();
    let tag = LineReading {
        camera_id: None,
        four_floats: None,
        three_floats: None,
        two_floats: None,
        k_tag: true,
    };
    assert_eq!(parser.apply(tag), Ok(()));
    let both = LineReading {
        camera_id: None,
        four_floats: Some((1, 2, 3, 4)),
        three_floats: Some((5, 6, 7)),
        two_floats: None,
        k_tag: false,
    };
    assert_eq!(parser.apply(both), Ok(()));
    match parser.state() {
        ParserState::StartMatK(rows) => assert_eq!(rows, &vec![[5, 6, 7]]),
        _ => panic!("one row of an intrinsic block is read"),
    }
    let four = LineReading {
        camera_id: None,
        four_floats: Some((1, 2, 3, 4)),
        three_floats: None,
        two_floats: None,
        k_tag: false,
    };
    assert_eq!(parser.apply(four), Err(ParserError::IncompleteK));
}

#[test]
fn point_comes_before_pixel_and_tag() {
    let mut parser = Parser::new();
    let line = LineReading {
        camera_id: None,
        four_floats: None,
        three_floats: Some((1, 2, 3)),
        two_floats: Some((4, 5)),
        k_tag: true,
    };
    assert!(parser.takes(&line));
    assert_eq!(parser.apply(line), Ok(()));
    assert!(matches!(parser.state(), ParserState::PoseOrPoint));
    let line = LineReading {
        camera_id: None,
        four_floats: None,
        three_floats: None,
        two_floats: Some((4, 5)),
        k_tag: true,
    };
    assert!(parser.takes(&line));
    assert_eq!(parser.apply(line), Err(ParserError::UnexpectedPixel));
    let line = LineReading {
        camera_id: None,
        four_floats: None,
        three_floats: None,
        two_floats: None,
        k_tag: true,
    };
    assert_eq!(parser.apply(line), Ok(()));
    assert!(matches!(parser.state(), ParserState::StartMatK(_)));
}

#[test]
fn classify_reads_with_every_grammar() {
    let line = Parser::classify("1 2 3 4");
    assert_eq!(line.camera_id, None);
    assert_eq!(
        line.four_floats,
        Some((1.0f32.to_bits(), 2.0f32.to_bits(), 3.0f32.to_bits(), 4.0f32.to_bits()))
    );
    assert_eq!(line.three_floats, None);
    assert_eq!(line.two_floats, None);
    assert!(!line.k_tag);
    let line = Parser::classify("CAMERA_ID MATRIX K");
    assert_eq!(line.camera_id, Some("MATRIX K".to_string()));
    assert_eq!(line.four_floats, None);
    assert!(line.k_tag);
    let line = Parser::classify("[1,2]");
    assert_eq!(line.two_floats, Some((1.0f32.to_bits(), 2.0f32.to_bits())));
    assert_eq!(line.three_floats, None);
}

#[test]
fn takes_all_but_a_pixel_without_camera() {
    let parser = Parser::new();
    let pixel = LineReading {
        camera_id: None,
        four_floats: None,
        three_floats: None,
        two_floats: Some((1, 2)),
        k_tag: false,
    };
    assert!(!parser.takes(&pixel));
    let nothing = LineReading {
        camera_id: None,
        four_floats: None,
        three_floats: None,
        two_floats: None,
        k_tag: false,
    };
    assert!(parser.takes(&nothing));
    let mut parser = Parser::new();
    parser.save_new_camera_pose(vec![[1, 2, 3, 4], [5, 6, 7, 8], [9, 10, 11, 12]]);
    assert!(parser.takes(&pixel));
    assert_eq!(parser.apply(pixel), Ok(()));
    assert_eq!(parser.finish().cameras[0].pixels, vec![[1, 2]]);
}
