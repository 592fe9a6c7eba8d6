use rms_gateway::body::{convert_json_bytes, map_json_body, rewrite_parsed, text_or_payload};
use rms_gateway::json_convert::ConversionDirection;
use serde_json::Value;

const BOTH: [ConversionDirection; 2] =
    [ConversionDirection::ToSnakeCase, ConversionDirection::ToCamelCase];

#[test]
fn an_empty_body_stays_empty() {
    for direction in BOTH {
        assert_eq!(convert_json_bytes(b"", direction), Vec::<u8>::new());
    }
}

#[test]
fn a_truncated_document_comes_back_as_it_was() {
    for direction in BOTH {
        assert_eq!(convert_json_bytes(b"{\"a\":", direction), b"{\"a\":".to_vec());
        assert_eq!(convert_json_bytes(b"{\"aB\":1", direction), b"{\"aB\":1".to_vec());
        assert_eq!(convert_json_bytes(b"[1,2", direction), b"[1,2".to_vec());
    }
}

#[test]
fn a_body_that_is_no_json_comes_back_as_it_was() {
    for direction in BOTH {
        assert_eq!(convert_json_bytes(b"hello, world", direction), b"hello, world".to_vec());
        assert_eq!(convert_json_bytes(b" ", direction), b" ".to_vec());
        assert_eq!(convert_json_bytes(&[0xff, 0xfe, 0x00], direction), vec![0xff, 0xfe, 0x00]);
        assert_eq!(
            convert_json_bytes(b"{\"aB\":1} trailing", direction),
            b"{\"aB\":1} trailing".to_vec()
        );
        assert_eq!(convert_json_bytes(b"{aB:1}", direction), b"{aB:1}".to_vec());
    }
}

#[test]
fn scenario_camel_body_to_snake() {
    let input = b"{\"beamConfig\":{\"beamId\":3,\"httpURL\":\"x\"}}";
    let output = convert_json_bytes(input, ConversionDirection::ToSnakeCase);
    assert_eq!(output, b"{\"beam_config\":{\"beam_id\":3,\"http_url\":\"x\"}}".to_vec());
}

#[test]
fn scenario_snake_body_to_camel() {
    let input = b"{\"beam_config\":{\"beam_id\":3,\"http_url\":\"x\"}}";
    let output = convert_json_bytes(input, ConversionDirection::ToCamelCase);
    assert_eq!(output, b"{\"beamConfig\":{\"beamId\":3,\"httpUrl\":\"x\"}}".to_vec());
}

#[test]
fn scenario_body_with_arrays() {
    let input = b"{\"gscList\":[{\"gscId\":1},{\"gscId\":2}]}";
    let output = convert_json_bytes(input, ConversionDirection::ToSnakeCase);
    assert_eq!(output, b"{\"gsc_list\":[{\"gsc_id\":1},{\"gsc_id\":2}]}".to_vec());
}

#[test]
fn a_document_is_written_compactly() {
    let input = b" { \"beamId\" : [ 1 , 2.5 , true , null , \"aB\" ] } \n";
    let output = convert_json_bytes(input, ConversionDirection::ToSnakeCase);
    assert_eq!(output, b"{\"beam_id\":[1,2.5,true,null,\"aB\"]}".to_vec());
}

#[test]
fn a_document_that_is_no_object_is_written_again() {
    for direction in BOTH {
        assert_eq!(convert_json_bytes(b"3", direction), b"3".to_vec());
        assert_eq!(convert_json_bytes(b" \"aB\" ", direction), b"\"aB\"".to_vec());
        assert_eq!(convert_json_bytes(b"null", direction), b"null".to_vec());
        assert_eq!(convert_json_bytes(b"[ ]", direction), b"[]".to_vec());
    }
}

#[test]
fn colliding_names_leave_one_entry() {
    let output = convert_json_bytes(b"{\"a_b\":2,\"aB\":1}", ConversionDirection::ToSnakeCase);
    assert_eq!(output, b"{\"a_b\":2}".to_vec());
}

#[test]
fn rewrite_parsed_without_a_document_copies_the_payload() {
    for direction in BOTH {
        assert_eq!(rewrite_parsed(b"{\"aB\":", None, direction), b"{\"aB\":".to_vec());
        assert_eq!(rewrite_parsed(b"", None, direction), Vec::<u8>::new());
    }
}

#[test]
fn rewrite_parsed_writes_the_converted_document() {
    let parsed: Value = serde_json::from_slice(b"{\"beamId\":3}").unwrap();
    let output = rewrite_parsed(b"ignored", Some(parsed), ConversionDirection::ToSnakeCase);
    assert_eq!(output, b"{\"beam_id\":3}".to_vec());

    let parsed: Value = serde_json::from_slice(b"{\"beam_id\":3}").unwrap();
    let output = rewrite_parsed(b"ignored", Some(parsed), ConversionDirection::ToCamelCase);
    assert_eq!(output, b"{\"beamId\":3}".to_vec());
}

#[test]
fn text_or_payload_prefers_the_text() {
    assert_eq!(text_or_payload(b"payload", Some(b"text".to_vec())), b"text".to_vec());
    assert_eq!(text_or_payload(b"payload", Some(Vec::new())), Vec::<u8>::new());
    assert_eq!(text_or_payload(b"payload", None), b"payload".to_vec());
    assert_eq!(text_or_payload(b"", None), Vec::<u8>::new());
}

#[test]
fn map_json_body_rewrites_what_was_collected() {
    let output = map_json_body(Some(&b"{\"beamId\":3}"[..]), ConversionDirection::ToSnakeCase);
    assert_eq!(output, b"{\"beam_id\":3}".to_vec());
    let output = map_json_body(Some(&b"not json"[..]), ConversionDirection::ToCamelCase);
    assert_eq!(output, b"not json".to_vec());
    let output = map_json_body(Some(&b""[..]), ConversionDirection::ToCamelCase);
    assert_eq!(output, Vec::<u8>::new());
}

#[test]
fn map_json_body_is_empty_when_collecting_failed() {
    for direction in BOTH {
        assert_eq!(map_json_body(None, direction), Vec::<u8>::new());
    }
}

#[test]
fn legacy_exchange_recases_request_and_response() {
    let request = b"{\"satId\":7,\"beamConfig\":{\"beamId\":3}}";
    let inbound = map_json_body(Some(&request[..]), ConversionDirection::ToSnakeCase);
    assert_eq!(inbound, b"{\"beam_config\":{\"beam_id\":3},\"sat_id\":7}".to_vec());

    let response = b"{\"beam_enable\":true,\"sat_beam_id\":{\"beam_id\":3,\"sat_id\":7}}";
    let outbound = map_json_body(Some(&response[..]), ConversionDirection::ToCamelCase);
    assert_eq!(
        outbound,
        b"{\"beamEnable\":true,\"satBeamId\":{\"beamId\":3,\"satId\":7}}".to_vec()
    );
}
