use interstellare_simulation::errors::ParseError;
use interstellare_simulation::wire::{BodyText, MetaText};

fn tok(x: f64) -> Vec<u8> {
    format!("{}", x).into_bytes()
}

fn body_text(
    mass: f64,
    density: f64,
    radius: f64,
    pos: (f64, f64, f64),
    vel: (f64, f64, f64),
) -> BodyText {
    BodyText {
        mass: tok(mass),
        density: tok(density),
        radius: tok(radius),
        x: tok(pos.0),
        y: tok(pos.1),
        z: tok(pos.2),
        vx: tok(vel.0),
        vy: tok(vel.1),
        vz: tok(vel.2),
    }
}

#[test]
fn body_wire_form_is_exact() {
    let bt = body_text(2.0, 3.0, 0.5, (1.0, -2.5, 0.0), (0.25, 4.0, -8.0));
    let wire = String::from_utf8(bt.to_wire()).unwrap();
    assert_eq!(
        wire,
        "{\"mass\": 2, \"density\": 3, \"radius\": 0.5, \"x\": 1, \"y\": -2.5, \"z\": 0, \
         \"vx\": 0.25, \"vy\": 4, \"vz\": -8}"
    );
}

#[test]
fn meta_wire_form_is_exact() {
    let mt = MetaText {
        interaction_constant: b"0.0000000000667430".to_vec(),
        time_scaling: b"300000".to_vec(),
    };
    let wire = String::from_utf8(mt.to_wire()).unwrap();
    assert_eq!(
        wire,
        "{\"interaction_constant\": 0.0000000000667430, \"time_scaling\": 300000}"
    );
}

#[test]
fn body_round_trip_is_field_for_field() {
    let vals = (
        1.98847e30_f64,
        1410.0_f64,
        695670798.4359409_f64,
        (1.521e11_f64, -7.25e8_f64, 0.125_f64),
        (-1022.5_f64, 29780.0_f64, 3.0e-7_f64),
    );
    let bt = body_text(vals.0, vals.1, vals.2, vals.3, vals.4);
    let wire = bt.to_wire();
    let back = BodyText::from_string(&wire).expect("round trip parse");
    assert_eq!(back, bt);
    // and the numbers survive the text round trip exactly
    let f = |v: &Vec<u8>| String::from_utf8(v.clone()).unwrap().parse::<f64>().unwrap();
    assert_eq!(f(&back.mass), vals.0);
    assert_eq!(f(&back.density), vals.1);
    assert_eq!(f(&back.radius), vals.2);
    assert_eq!(f(&back.x), vals.3 .0);
    assert_eq!(f(&back.y), vals.3 .1);
    assert_eq!(f(&back.z), vals.3 .2);
    assert_eq!(f(&back.vx), vals.4 .0);
    assert_eq!(f(&back.vy), vals.4 .1);
    assert_eq!(f(&back.vz), vals.4 .2);
}

#[test]
fn meta_round_trip_is_field_for_field() {
    let mt = MetaText {
        interaction_constant: tok(6.6743e-11),
        time_scaling: tok(300000.0),
    };
    let back = MetaText::from_string(&mt.to_wire()).expect("round trip parse");
    assert_eq!(back, mt);
}

#[test]
fn compact_body_text_parses_too() {
    let bt = BodyText::from_string(b"{\"mass\":12,\"x\":-3.5}").unwrap();
    assert_eq!(bt.mass, b"12".to_vec());
    assert_eq!(bt.x, b"-3.5".to_vec());
    // unnamed fields keep the value zero
    assert_eq!(bt.density, b"0".to_vec());
    assert_eq!(bt.vz, b"0".to_vec());
}

#[test]
fn repeated_key_keeps_the_last_value() {
    let bt = BodyText::from_string(b"{\"mass\": 1, \"mass\": 2}").unwrap();
    assert_eq!(bt.mass, b"2".to_vec());
}

#[test]
fn unknown_body_key_is_rejected_by_name() {
    let r = BodyText::from_string(b"{\"mass\": 1, \"radius2\": 3}");
    assert_eq!(r, Err(ParseError::UnknownBodyKey(b"radius2".to_vec())));
}

#[test]
fn unknown_meta_key_is_rejected_by_name() {
    let r = MetaText::from_string(b"{\"gravity\": 1}");
    assert_eq!(r, Err(ParseError::UnknownMetaKey(b"gravity".to_vec())));
}

#[test]
fn missing_braces_is_a_parse_error() {
    assert_eq!(
        BodyText::from_string(b"\"mass\": 1"),
        Err(ParseError::MissingBraces)
    );
    assert_eq!(BodyText::from_string(b""), Err(ParseError::MissingBraces));
    assert_eq!(
        MetaText::from_string(b"{\"time_scaling\": 1"),
        Err(ParseError::MissingBraces)
    );
}

#[test]
fn missing_colon_is_a_parse_error() {
    assert_eq!(
        BodyText::from_string(b"{\"mass\" 1}"),
        Err(ParseError::MissingColon)
    );
}

#[test]
fn unquoted_key_is_a_parse_error() {
    assert_eq!(
        BodyText::from_string(b"{mass: 1}"),
        Err(ParseError::UnquotedKey)
    );
}

#[test]
fn junk_value_is_a_parse_error() {
    assert_eq!(
        BodyText::from_string(b"{\"mass\": }"),
        Err(ParseError::BadNumber)
    );
    assert_eq!(
        BodyText::from_string(b"{\"mass\": {1}}"),
        Err(ParseError::BadNumber)
    );
}

#[test]
fn whitespace_around_everything_is_tolerated() {
    let bt = BodyText::from_string(b"  {  \"mass\" :  7.5 , \"vy\": 2 }  ").unwrap();
    assert_eq!(bt.mass, b"7.5".to_vec());
    assert_eq!(bt.vy, b"2".to_vec());
}
