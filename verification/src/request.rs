//! The download request and its decoding from an inbound message.
//!
//! The first (and only) message of a connection must be text that parses as
//! a JSON object with a string member `url` and integer members `start` and
//! `end`; anything else rejects the request and the connection closes
//! without a reply. JSON parsing and member extraction are `serde_json`'s,
//! behind one trusted call whose outcome is named `json_fields_of`; every
//! decision over what it found is made and verified here.

use vstd::prelude::*;
use crate::args::build_args;
use crate::args::spec_args;

verus! {

/// One download request: a media URL and an optional inclusive
/// playlist-item range. A negative `start` means "no range requested".
pub struct VideoRequest {
    pub url: String,
    pub start: i32,
    pub end: i32,
}

/// Whether `serde_json::from_str::<Value>` accepts a text: a function of
/// the text alone.
pub uninterp spec fn json_text_ok(s: Seq<char>) -> bool;

/// What `serde_json` extracts from a text: the `url` member's characters
/// and the `start` and `end` members' values, when the text is valid JSON
/// whose members have those shapes, and nothing otherwise. A function of
/// the text alone; the integers are the ones `Value::as_i64` can represent.
pub uninterp spec fn json_fields_of(s: Seq<char>) -> Option<(Seq<char>, int, int)>;

/// Relies on `serde_json::from_str::<Value>` to parse the text, and on
/// `Value::get`, `Value::as_str` and `Value::as_i64` to read the members
/// `url` (a string), `start` and `end` (integers). Parsing and extraction
/// are taken in one step so that the outcome, `json_fields_of`, is a
/// function of the text alone; each call either returns the members or
/// fails, and fields can only come out of a text that parses. A duplicated
/// member keeps its last occurrence, as `serde_json`'s `Value` does.
#[verifier::external_body]
fn extract_fields(s: &str) -> (r: Option<(String, i64, i64)>)
    ensures
        (match r {
            Option::Some(f) => json_fields_of(s@) == Option::Some(
                (f.0@, f.1 as int, f.2 as int),
            ),
            Option::None => json_fields_of(s@) is None,
        }),
        r is Some ==> json_text_ok(s@),
{
    let doc: serde_json::Value = serde_json::from_str(s).ok()?;
    let url = doc.get("url")?.as_str()?.to_string();
    let start = doc.get("start")?.as_i64()?;
    let end = doc.get("end")?.as_i64()?;
    Some((url, start, end))
}

/// Whether an integer is representable as an `i32`.
pub open spec fn fits_i32(n: int) -> bool {
    i32::MIN <= n <= i32::MAX
}

/// Assembles a request from the three extracted members. Succeeds exactly
/// when the URL was a string and both range bounds were integers in `i32`
/// range; the request then carries them unchanged.
pub fn request_from_fields(url: Option<String>, start: Option<i64>, end: Option<i64>) -> (r:
    Option<VideoRequest>)
    ensures
        (match r {
            Option::Some(req) => {
                &&& url matches Option::Some(u) && req.url@ == u@
                &&& start matches Option::Some(s) && fits_i32(s as int) && req.start == s as i32
                &&& end matches Option::Some(e) && fits_i32(e as int) && req.end == e as i32
            },
            Option::None => {
                ||| url is None
                ||| start is None
                ||| end is None
                ||| (start matches Option::Some(s) && !fits_i32(s as int))
                ||| (end matches Option::Some(e) && !fits_i32(e as int))
            },
        }),
{
    let u = match url {
        Some(u) => u,
        None => {
            return None;
        },
    };
    let s = match start {
        Some(s) => s,
        None => {
            return None;
        },
    };
    let e = match end {
        Some(e) => e,
        None => {
            return None;
        },
    };
    if s < i32::MIN as i64 || s > i32::MAX as i64 {
        return None;
    }
    if e < i32::MIN as i64 || e > i32::MAX as i64 {
        return None;
    }
    Some(VideoRequest { url: u, start: s as i32, end: e as i32 })
}

/// Decodes one inbound text into a request. Succeeds exactly when the text
/// has the three members (`json_fields_of`) and both bounds fit an `i32`;
/// the request then carries the extracted members unchanged. Text that is
/// not valid JSON is always rejected.
pub fn parse_request(text: &str) -> (r: Option<VideoRequest>)
    ensures
        (match json_fields_of(text@) {
            Option::Some(f) => (match r {
                Option::Some(req) => {
                    &&& fits_i32(f.1)
                    &&& fits_i32(f.2)
                    &&& req.url@ == f.0
                    &&& req.start as int == f.1
                    &&& req.end as int == f.2
                },
                Option::None => !fits_i32(f.1) || !fits_i32(f.2),
            }),
            Option::None => r is None,
        }),
        !json_text_ok(text@) ==> r is None,
{
    match extract_fields(text) {
        Some((url, start, end)) => request_from_fields(Some(url), Some(start), Some(end)),
        None => None,
    }
}

/// Handles the one inbound message of a connection. A message that was not
/// text, text without the three members, or bounds outside `i32` range
/// reject it — the connection then closes with nothing sent. Exactly
/// otherwise the decoded request is returned together with the argument
/// vector to launch the download tool with: the request carries the
/// extracted members unchanged and the vector is pinned by `spec_args`.
pub fn handle_message(text: Option<&str>, cwd: &str) -> (o: Option<(VideoRequest, Vec<String>)>)
    ensures
        (match text {
            Option::Some(t) => (match json_fields_of(t@) {
                Option::Some(f) => {
                    if fits_i32(f.1) && fits_i32(f.2) {
                        o matches Option::Some(p) && p.0.url@ == f.0 && p.0.start as int == f.1
                            && p.0.end as int == f.2 && p.1.deep_view() == spec_args(
                            f.0,
                            f.1,
                            f.2,
                            cwd@,
                        )
                    } else {
                        o is None
                    }
                },
                Option::None => o is None,
            }),
            Option::None => o is None,
        }),
        (text matches Option::Some(t) && !json_text_ok(t@)) ==> o is None,
{
    let t = match text {
        Some(t) => t,
        None => {
            return None;
        },
    };
    let req = match parse_request(t) {
        Some(r) => r,
        None => {
            return None;
        },
    };
    let args = build_args(&req, cwd);
    Some((req, args))
}

} // verus!
