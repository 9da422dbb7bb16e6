use vidrelay::request::handle_message;
use vidrelay::request::parse_request;
use vidrelay::request::request_from_fields;

#[test]
fn well_formed_request_is_decoded() {
    let r = parse_request("{\"url\":\"https://example.com/v\",\"start\":2,\"end\":9}").unwrap();
    assert_eq!(r.url, "https://example.com/v");
    assert_eq!(r.start, 2);
    assert_eq!(r.end, 9);
}

#[test]
fn negative_start_is_decoded() {
    let r = parse_request("{\"url\":\"u\",\"start\":-1,\"end\":-1}").unwrap();
    assert_eq!(r.start, -1);
    assert_eq!(r.end, -1);
}

#[test]
fn invalid_json_is_rejected() {
    assert!(parse_request("not json at all").is_none());
    assert!(parse_request("{\"url\":").is_none());
    assert!(parse_request("").is_none());
}

#[test]
fn missing_url_is_rejected() {
    assert!(parse_request("{\"start\":1,\"end\":2}").is_none());
}

#[test]
fn missing_range_member_is_rejected() {
    assert!(parse_request("{\"url\":\"u\",\"end\":2}").is_none());
    assert!(parse_request("{\"url\":\"u\",\"start\":1}").is_none());
}

#[test]
fn wrongly_typed_members_are_rejected() {
    assert!(parse_request("{\"url\":7,\"start\":1,\"end\":2}").is_none());
    assert!(parse_request("{\"url\":\"u\",\"start\":\"1\",\"end\":2}").is_none());
    assert!(parse_request("{\"url\":\"u\",\"start\":1.5,\"end\":2}").is_none());
}

#[test]
fn non_object_payloads_are_rejected() {
    assert!(parse_request("[1,2,3]").is_none());
    assert!(parse_request("\"url\"").is_none());
    assert!(parse_request("42").is_none());
}

#[test]
fn out_of_range_bounds_are_rejected() {
    assert!(parse_request("{\"url\":\"u\",\"start\":2147483648,\"end\":2}").is_none());
    assert!(parse_request("{\"url\":\"u\",\"start\":1,\"end\":-2147483649}").is_none());
}

#[test]
fn extra_members_are_ignored() {
    let r = parse_request("{\"url\":\"u\",\"start\":1,\"end\":2,\"quality\":\"hd\"}").unwrap();
    assert_eq!(r.url, "u");
}

#[test]
fn fields_assemble_only_when_all_present_and_in_range() {
    let r = request_from_fields(Some("u".to_string()), Some(3), Some(4)).unwrap();
    assert_eq!((r.url.as_str(), r.start, r.end), ("u", 3, 4));
    assert!(request_from_fields(None, Some(3), Some(4)).is_none());
    assert!(request_from_fields(Some("u".to_string()), None, Some(4)).is_none());
    assert!(request_from_fields(Some("u".to_string()), Some(3), None).is_none());
    assert!(request_from_fields(Some("u".to_string()), Some(1 << 40), Some(4)).is_none());
    assert!(request_from_fields(Some("u".to_string()), Some(3), Some(-(1 << 40))).is_none());
}

#[test]
fn non_text_message_yields_no_launch() {
    assert!(handle_message(None, "/w").is_none());
}

#[test]
fn malformed_message_yields_no_launch() {
    assert!(handle_message(Some("nonsense"), "/w").is_none());
    assert!(handle_message(Some("{\"start\":1,\"end\":2}"), "/w").is_none());
}

#[test]
fn decoded_message_yields_request_and_args() {
    let (r, args) = handle_message(Some("{\"url\":\"u\",\"start\":5,\"end\":2}"), "/w").unwrap();
    assert_eq!(r.url, "u");
    assert_eq!(args[0], "--playlist-items");
    assert_eq!(args[1], "5:5");
    assert_eq!(args[2], "u");
    assert!(args.contains(&"/w/videos".to_string()));
}
