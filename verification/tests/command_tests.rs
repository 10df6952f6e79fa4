use interstellare_simulation::commands::{parse_command, Command};
use interstellare_simulation::digits::{format_u64, parse_usize};
use interstellare_simulation::errors::ParseError;

#[test]
fn add_envelope_carries_the_body() {
    let c = parse_command(
        b"{\"event_type\":\"Add\",\"body\":{\"mass\": 5, \"density\": 2}}",
    )
    .unwrap();
    match c {
        Command::Add(bt) => {
            assert_eq!(bt.mass, b"5".to_vec());
            assert_eq!(bt.density, b"2".to_vec());
        }
        other => panic!("expected Add, got {:?}", other),
    }
}

#[test]
fn remove_envelope_carries_the_index() {
    let c = parse_command(b"{\"event_type\":\"Remove\",\"body\":{\"4\": 0}}").unwrap();
    match c {
        Command::Remove(i) => assert_eq!(i, 4),
        other => panic!("expected Remove, got {:?}", other),
    }
}

#[test]
fn update_envelope_carries_index_and_body() {
    let c = parse_command(
        b"{\"event_type\":\"Update\",\"body\":{\"2\":{\"mass\": 9, \"vx\": -1.5}}}",
    )
    .unwrap();
    match c {
        Command::Update(i, bt) => {
            assert_eq!(i, 2);
            assert_eq!(bt.mass, b"9".to_vec());
            assert_eq!(bt.vx, b"-1.5".to_vec());
        }
        other => panic!("expected Update, got {:?}", other),
    }
}

#[test]
fn meta_envelope_carries_the_constants() {
    let c = parse_command(
        b"{\"event_type\":\"Meta\",\"metadata\":{\"interaction_constant\": 0.1, \
          \"time_scaling\": 400}}",
    )
    .unwrap();
    match c {
        Command::Meta(mt) => {
            assert_eq!(mt.interaction_constant, b"0.1".to_vec());
            assert_eq!(mt.time_scaling, b"400".to_vec());
        }
        other => panic!("expected Meta, got {:?}", other),
    }
}

#[test]
fn spaced_envelope_parses_too() {
    let c = parse_command(
        b" { \"event_type\": \"Remove\" , \"body\": { \"10\" : 0 } } ",
    )
    .unwrap();
    match c {
        Command::Remove(i) => assert_eq!(i, 10),
        other => panic!("expected Remove, got {:?}", other),
    }
}

#[test]
fn unknown_event_type_is_rejected_by_name() {
    let r = parse_command(b"{\"event_type\":\"Drop\",\"body\":{\"1\": 0}}");
    assert_eq!(r, Err(ParseError::BadEventType(b"Drop".to_vec())));
}

#[test]
fn envelope_without_braces_is_rejected() {
    assert_eq!(
        parse_command(b"\"event_type\":\"Add\""),
        Err(ParseError::MissingBraces)
    );
}

#[test]
fn envelope_without_payload_field_is_rejected() {
    assert_eq!(
        parse_command(b"{\"event_type\":\"Add\"}"),
        Err(ParseError::MissingField)
    );
    assert_eq!(
        parse_command(b"{\"event_type\":\"Add\",\"payload\": 1}"),
        Err(ParseError::MissingField)
    );
}

#[test]
fn bad_index_in_remove_is_rejected() {
    assert_eq!(
        parse_command(b"{\"event_type\":\"Remove\",\"body\":{\"x1\": 0}}"),
        Err(ParseError::BadIndex)
    );
    assert_eq!(
        parse_command(b"{\"event_type\":\"Remove\",\"body\":{\"\": 0}}"),
        Err(ParseError::BadIndex)
    );
}

#[test]
fn bad_body_inside_add_is_rejected() {
    assert_eq!(
        parse_command(b"{\"event_type\":\"Add\",\"body\":{\"other\": 1}}"),
        Err(ParseError::UnknownBodyKey(b"other".to_vec()))
    );
}

#[test]
fn parse_usize_reads_decimal_indices() {
    assert_eq!(parse_usize(b"0"), Ok(0));
    assert_eq!(parse_usize(b"42"), Ok(42));
    assert_eq!(parse_usize(b"007"), Ok(7));
    assert_eq!(parse_usize(b""), Err(ParseError::BadIndex));
    assert_eq!(parse_usize(b"1a"), Err(ParseError::BadIndex));
    assert_eq!(parse_usize(b"-4"), Err(ParseError::BadIndex));
    assert_eq!(
        parse_usize(b"99999999999999999999999999"),
        Err(ParseError::BadIndex)
    );
}

#[test]
fn format_u64_renders_decimal() {
    assert_eq!(format_u64(0), b"0".to_vec());
    assert_eq!(format_u64(7), b"7".to_vec());
    assert_eq!(format_u64(105), b"105".to_vec());
    assert_eq!(format_u64(18446744073709551615), b"18446744073709551615".to_vec());
}
