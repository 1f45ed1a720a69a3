use nffray::nff::{finish, init, parse_values, read, step};
use nffray::script::{ShapeDesc, Triple};

fn ok(input: &str) -> nffray::script::SceneScript {
    read(input.as_bytes(), true).expect("scene should parse")
}

fn err(input: &str) -> nffray::nff::NFFError {
    read(input.as_bytes(), true).expect_err("parse should fail")
}

const VIEW: &str = "v\nfrom 0 0 1\nat 0 0 0\nup 0 1 0\nangle 90\nhither 0.1\nresolution 2 2\n";

fn triple_words(t: &Triple) -> (Vec<u8>, Vec<u8>, Vec<u8>) {
    (t.x.clone(), t.y.clone(), t.z.clone())
}

#[test]
fn background_scene_parses() {
    let mut input = String::from("b 0.25 0.5 0.75\n");
    input.push_str(VIEW);
    let s = ok(&input);
    let bg = s.background.expect("background set");
    assert_eq!(triple_words(&bg), (b"0.25".to_vec(), b"0.5".to_vec(), b"0.75".to_vec()));
    assert_eq!(s.view.width, 2);
    assert_eq!(s.view.height, 2);
    assert_eq!(s.view.from.z, b"1".to_vec());
    assert_eq!(s.view.angle, b"90".to_vec());
    assert_eq!(s.view.hither, b"0.1".to_vec());
    assert!(s.lights.is_empty());
    assert!(s.primitives.is_empty());
    assert!(s.unrecognized.is_empty());
}

#[test]
fn sphere_light_fill_parses() {
    let mut input = String::from(VIEW);
    input.push_str("s 9 9 9 2\n");
    input.push_str("f 1 0 0 0.8 0.2 10 0 1\n");
    input.push_str("s 0 0 0 1\n");
    input.push_str("l 0 0 3\n");
    input.push_str("l 1 2 3 0.5 0.5 0.5\n");
    let s = ok(&input);
    assert_eq!(s.fills.len(), 1);
    assert_eq!(s.fills[0].diffuse, b"0.8".to_vec());
    assert_eq!(s.fills[0].specular, b"0.2".to_vec());
    assert_eq!(s.fills[0].shine, b"10".to_vec());
    assert_eq!(s.fills[0].refraction_index, b"1".to_vec());
    assert!(s.fills[0].phong);
    assert_eq!(s.primitives.len(), 2);
    // The first sphere predates any fill, the second uses fill 0.
    assert_eq!(s.primitives[0].fill, None);
    assert_eq!(s.primitives[1].fill, Some(0));
    match &s.primitives[1].shape {
        ShapeDesc::Sphere { center, radius } => {
            assert_eq!(center.x, b"0".to_vec());
            assert_eq!(radius, &b"1".to_vec());
        }
        other => panic!("expected a sphere, got {:?}", other),
    }
    assert_eq!(s.lights.len(), 2);
    assert!(s.lights[0].color.is_none());
    let c = s.lights[1].color.as_ref().expect("colored light");
    assert_eq!(c.x, b"0.5".to_vec());
}

#[test]
fn blinn_phong_flag_reaches_fills() {
    let mut input = String::from(VIEW);
    input.push_str("f 1 0 0 0.8 0.2 10 0 1\n");
    let s = read(input.as_bytes(), false).expect("scene should parse");
    assert!(!s.fills[0].phong);
}

#[test]
fn polygon_parses() {
    let mut input = String::from(VIEW);
    input.push_str("p 3\n0 0 0\n1 0 0\n0 1 0\n");
    let s = ok(&input);
    assert_eq!(s.primitives.len(), 1);
    match &s.primitives[0].shape {
        ShapeDesc::Polygon { vertices } => {
            assert_eq!(vertices.len(), 3);
            assert_eq!(vertices[2].y, b"1".to_vec());
        }
        other => panic!("expected a polygon, got {:?}", other),
    }
}

#[test]
fn star_polygon_parses() {
    // A five-vertex star outline in the z = 0 plane.
    let mut input = String::from(VIEW);
    input.push_str("p 5\n0 1 0\n-0.951 -0.809 0\n0.588 0.309 0\n-0.588 0.309 0\n0.951 -0.809 0\n");
    let s = ok(&input);
    match &s.primitives[0].shape {
        ShapeDesc::Polygon { vertices } => {
            assert_eq!(vertices.len(), 5);
            assert_eq!(vertices[1].x, b"-0.951".to_vec());
            assert_eq!(vertices[4].y, b"-0.809".to_vec());
        }
        other => panic!("expected a polygon, got {:?}", other),
    }
}

#[test]
fn polygon_patch_parses() {
    let mut input = String::from(VIEW);
    input.push_str("pp 3\n0 0 0 0 0 1\n1 0 0 0 0 1\n0 1 0 0 1 0\n");
    let s = ok(&input);
    match &s.primitives[0].shape {
        ShapeDesc::PolygonPatch { vertices } => {
            assert_eq!(vertices.len(), 3);
            assert_eq!(vertices[2].normal.y, b"1".to_vec());
        }
        other => panic!("expected a patch, got {:?}", other),
    }
}

#[test]
fn cone_two_line_form_parses() {
    let mut input = String::from(VIEW);
    input.push_str("c\n0 0 0 1\n0 2 0 0\n");
    let s = ok(&input);
    match &s.primitives[0].shape {
        ShapeDesc::Cone { base, base_radius, apex, apex_radius } => {
            assert_eq!(base.x, b"0".to_vec());
            assert_eq!(base_radius, &b"1".to_vec());
            assert_eq!(apex.y, b"2".to_vec());
            assert_eq!(apex_radius, &b"0".to_vec());
        }
        other => panic!("expected a cone, got {:?}", other),
    }
}

#[test]
fn cone_one_line_form_parses() {
    let mut input = String::from(VIEW);
    input.push_str("c 0 0 0 1 0 2 0 0.5\n");
    let s = ok(&input);
    match &s.primitives[0].shape {
        ShapeDesc::Cone { apex_radius, .. } => {
            assert_eq!(apex_radius, &b"0.5".to_vec());
        }
        other => panic!("expected a cone, got {:?}", other),
    }
}

#[test]
fn comments_blanks_and_unknown_commands() {
    let mut input = String::from("# a comment line\n\n   \n");
    input.push_str(VIEW);
    input.push_str("frob 1 2 3\n");
    let s = ok(&input);
    assert_eq!(s.unrecognized.len(), 1);
    assert_eq!(s.unrecognized[0], b"frob 1 2 3".to_vec());
}

#[test]
fn missing_view_is_rejected() {
    let e = err("b 0.25 0.5 0.75\n");
    assert_eq!(e.command, "v");
    assert_eq!(e.message, "missing view");
}

#[test]
fn truncated_view_block_is_rejected() {
    let e = err("v\nfrom 0 0 1\nat 0 0 0\n");
    assert_eq!(e.command, "v");
    assert_eq!(e.message, "missing parameters");
}

#[test]
fn view_block_wrong_word_count_is_rejected() {
    let e = err("v\nfrom 0 0\n");
    assert_eq!(e.message, "wrong value count");
}

#[test]
fn view_block_overwrites_repeated_fields() {
    let mut input = String::from("v\nfrom 9 9 9\n");
    input.push_str("from 0 0 1\nat 0 0 0\nup 0 1 0\nangle 90\nhither 0.1\nresolution 4 5\n");
    let s = ok(&input);
    assert_eq!(s.view.from.x, b"0".to_vec());
    assert_eq!(s.view.width, 4);
    assert_eq!(s.view.height, 5);
}

#[test]
fn view_block_ignores_unrelated_lines() {
    let mut input = String::from("v\nnoise here\nfrom 0 0 1\nat 0 0 0\nup 0 1 0\n");
    input.push_str("angle 90\nhither 0.1\nresolution 1 1\ns 0 0 0 1\n");
    let s = ok(&input);
    // The sphere after the completed block is a plain command again.
    assert_eq!(s.primitives.len(), 1);
    assert!(s.unrecognized.is_empty());
}

#[test]
fn bad_background_channel_is_rejected() {
    let e = err("b 0.25 oops 0.75\n");
    assert_eq!(e.command, "b");
    assert_eq!(e.message, "invalid green value");
}

#[test]
fn bad_light_value_is_rejected() {
    let mut input = String::from(VIEW);
    input.push_str("l 0 zero 0\n");
    let e = err(&input);
    assert_eq!(e.command, "l");
    assert_eq!(e.message, "invalid value");
}

#[test]
fn bad_resolution_is_rejected() {
    let e = err("v\nresolution 2 two\n");
    assert_eq!(e.command, "v");
    assert_eq!(e.message, "invalid value");
}

#[test]
fn huge_resolution_is_rejected() {
    let e = err("v\nresolution 4294967296 2\n");
    assert_eq!(e.message, "invalid value");
}

#[test]
fn small_polygon_is_rejected() {
    let mut input = String::from(VIEW);
    input.push_str("p 2\n0 0 0\n1 0 0\n");
    let e = err(&input);
    assert_eq!(e.command, "p");
    assert_eq!(e.message, "insufficient vertex count");
}

#[test]
fn bad_vertex_count_is_rejected() {
    let mut input = String::from(VIEW);
    input.push_str("pp x\n");
    let e = err(&input);
    assert_eq!(e.command, "pp");
    assert_eq!(e.message, "invalid vertex count");
}

#[test]
fn truncated_patch_is_rejected() {
    let mut input = String::from(VIEW);
    input.push_str("pp 3\n0 0 0 0 0 1\n");
    let e = err(&input);
    assert_eq!(e.command, "pp");
    assert_eq!(e.message, "missing parameters");
}

#[test]
fn truncated_cone_is_rejected() {
    let mut input = String::from(VIEW);
    input.push_str("c\n0 0 0 1\n");
    let e = err(&input);
    assert_eq!(e.command, "");
    assert_eq!(e.message, "wrong value count");
}

#[test]
fn float_grammar_accepted_forms() {
    for word in ["1.", ".5", "1e5", "-2.5e-3", "inf", "INFINITY", "NaN", "+0.0", "1.5E+2"] {
        let input = format!("b {} 0 0\nv\nfrom 0 0 1\nat 0 0 0\nup 0 1 0\nangle 90\nhither 0.1\nresolution 1 1\n", word);
        assert!(read(input.as_bytes(), true).is_ok(), "{} should be accepted", word);
    }
}

#[test]
fn float_grammar_rejected_forms() {
    for word in [".", "1e", "1e+", "--1", "1.2.3", "1_000", "abc", "e5", "+"] {
        let input = format!("b {} 0 0\n", word);
        let e = read(input.as_bytes(), true).expect_err("bad float must be rejected");
        assert_eq!(e.message, "invalid red value", "{} should be rejected", word);
    }
}

#[test]
fn parse_values_returns_suffix() {
    let line = b"from 1 2 3".to_vec();
    let vals = parse_values(&line, 1, 3).expect("count matches");
    assert_eq!(vals, vec![b"1".to_vec(), b"2".to_vec(), b"3".to_vec()]);
}

#[test]
fn parse_values_wrong_count() {
    let line = b"from 1 2".to_vec();
    let e = parse_values(&line, 1, 3).expect_err("count mismatch");
    assert_eq!(e.message, "wrong value count");
}

#[test]
fn step_by_step_matches_read() {
    let mut st = init(true);
    for line in ["v", "from 0 0 1", "at 0 0 0", "up 0 1 0", "angle 90", "hither 0.1", "resolution 2 2"] {
        st = step(st, &line.as_bytes().to_vec()).expect("line accepted");
    }
    let s = finish(st).expect("scene complete");
    assert_eq!(s.view.width, 2);
}

#[test]
fn crlf_line_endings_parse() {
    let input = "v\r\nfrom 0 0 1\r\nat 0 0 0\r\nup 0 1 0\r\nangle 90\r\nhither 0.1\r\nresolution 3 4\r\n";
    let s = ok(input);
    assert_eq!(s.view.width, 3);
    assert_eq!(s.view.height, 4);
}

#[test]
fn read_is_deterministic() {
    let mut input = String::from(VIEW);
    input.push_str("f 1 0 0 0.8 0.2 10 0 1\ns 0 0 0 1\nl 0 0 3\n");
    let a = ok(&input);
    let b = ok(&input);
    assert_eq!(a.fills.len(), b.fills.len());
    assert_eq!(a.primitives.len(), b.primitives.len());
    assert_eq!(a.view.width, b.view.width);
    assert_eq!(a.fills[0].shine, b.fills[0].shine);
}
