use vidrelay::args::build_args;
use vidrelay::request::VideoRequest;

fn req(url: &str, start: i32, end: i32) -> VideoRequest {
    VideoRequest { url: url.to_string(), start, end }
}

fn fixed_tail(url: &str, cwd: &str) -> Vec<String> {
    vec![
        url.to_string(),
        "--no-simulate".to_string(),
        "--no-part".to_string(),
        "--q".to_string(),
        "--write-thumbnail".to_string(),
        "-S".to_string(),
        "res,ext:mp4:m4a".to_string(),
        "--recode".to_string(),
        "mp4".to_string(),
        "--paths".to_string(),
        format!("{}/videos", cwd),
        "--print".to_string(),
        "after_move:[downloaded]:%(id)s.%(ext)s".to_string(),
        "--print".to_string(),
        "before_dl:[downloading]:%(id)s.%(ext)s".to_string(),
        "--output".to_string(),
        "%(id)s.%(ext)s".to_string(),
        "--output".to_string(),
        "thumbnail:%(id)s.%(ext)s".to_string(),
    ]
}

#[test]
fn negative_start_builds_no_range_option() {
    let args = build_args(&req("https://example.com/v", -1, 7), "/work");
    assert_eq!(args, fixed_tail("https://example.com/v", "/work"));
    assert!(!args.contains(&"--playlist-items".to_string()));
}

#[test]
fn inverted_range_clamps_to_start() {
    let args = build_args(&req("u", 5, 2), "/w");
    assert_eq!(args[0], "--playlist-items");
    assert_eq!(args[1], "5:5");
}

#[test]
fn forward_range_keeps_end() {
    let args = build_args(&req("u", 2, 9), "/w");
    assert_eq!(args[0], "--playlist-items");
    assert_eq!(args[1], "2:9");
}

#[test]
fn zero_start_is_a_valid_range() {
    let args = build_args(&req("u", 0, 0), "/w");
    assert_eq!(args[1], "0:0");
}

#[test]
fn large_bounds_render_in_full() {
    let args = build_args(&req("u", 2147483647, 2147483647), "/w");
    assert_eq!(args[1], "2147483647:2147483647");
}

#[test]
fn multi_digit_rendering_has_no_leading_zeros() {
    let args = build_args(&req("u", 10, 105), "/w");
    assert_eq!(args[1], "10:105");
}

#[test]
fn full_vector_with_range_in_order() {
    let args = build_args(&req("https://example.com/v", 1, 3), "/srv");
    let mut expected = vec!["--playlist-items".to_string(), "1:3".to_string()];
    expected.extend(fixed_tail("https://example.com/v", "/srv"));
    assert_eq!(args, expected);
}

#[test]
fn same_request_builds_identical_vectors() {
    let r = req("https://example.com/v", 3, 8);
    let a = build_args(&r, "/srv");
    let b = build_args(&r, "/srv");
    assert_eq!(a, b);
}
