//! Construction of the download tool's argument vector.
//!
//! The tool is invoked with the requested URL, an optional playlist-item
//! range of the form `start:max(start, end)`, and a fixed tail of flags
//! selecting format, container, output directory and progress printing.

use vstd::prelude::*;
use crate::request::VideoRequest;

verus! {

/// The decimal digit character for a value in `0..10`.
pub open spec fn dec_digit(d: int) -> char {
    if d == 0 {
        '0'
    } else if d == 1 {
        '1'
    } else if d == 2 {
        '2'
    } else if d == 3 {
        '3'
    } else if d == 4 {
        '4'
    } else if d == 5 {
        '5'
    } else if d == 6 {
        '6'
    } else if d == 7 {
        '7'
    } else if d == 8 {
        '8'
    } else {
        '9'
    }
}

/// The decimal rendering of a non-negative integer, most significant digit
/// first, with no leading zeros (zero itself renders as "0").
pub open spec fn spec_dec(n: int) -> Seq<char>
    recommends
        n >= 0,
    decreases n,
{
    if n < 10 {
        seq![dec_digit(n)]
    } else {
        spec_dec(n / 10).push(dec_digit(n % 10))
    }
}

/// A one-character string slice for a decimal digit value.
fn digit_str(d: u32) -> (r: &'static str)
    requires
        d < 10,
    ensures
        r@ =~= seq![dec_digit(d as int)],
{
    proof {
        reveal_strlit("0");
        reveal_strlit("1");
        reveal_strlit("2");
        reveal_strlit("3");
        reveal_strlit("4");
        reveal_strlit("5");
        reveal_strlit("6");
        reveal_strlit("7");
        reveal_strlit("8");
        reveal_strlit("9");
    }
    match d {
        0 => "0",
        1 => "1",
        2 => "2",
        3 => "3",
        4 => "4",
        5 => "5",
        6 => "6",
        7 => "7",
        8 => "8",
        _ => "9",
    }
}

/// Appends the decimal rendering of `n` to `out`.
fn push_dec(n: u32, out: &mut String)
    ensures
        final(out)@ == old(out)@ + spec_dec(n as int),
    decreases n,
{
    if n >= 10 {
        push_dec(n / 10, out);
    }
    out.append(digit_str(n % 10));
    proof {
        if n < 10 {
            assert(n as int % 10 == n as int);
        }
    }
}

/// The playlist-item range text `start:max(start, end)`. Clamping the upper
/// bound to at least `start` guards against an inverted or degenerate range.
pub open spec fn spec_range(start: int, end: int) -> Seq<char> {
    spec_dec(start) + ":"@ + spec_dec(if end > start {
        end
    } else {
        start
    })
}

/// The arguments that every invocation carries, in order: the URL, the
/// fixed flag tail, and the output directory anchored under `cwd`.
pub open spec fn spec_fixed_args(url: Seq<char>, cwd: Seq<char>) -> Seq<Seq<char>> {
    seq![
        url,
        "--no-simulate"@,
        "--no-part"@,
        "--q"@,
        "--write-thumbnail"@,
        "-S"@,
        "res,ext:mp4:m4a"@,
        "--recode"@,
        "mp4"@,
        "--paths"@,
        cwd + "/videos"@,
        "--print"@,
        "after_move:[downloaded]:%(id)s.%(ext)s"@,
        "--print"@,
        "before_dl:[downloading]:%(id)s.%(ext)s"@,
        "--output"@,
        "%(id)s.%(ext)s"@,
        "--output"@,
        "thumbnail:%(id)s.%(ext)s"@,
    ]
}

/// The full argument vector for a request: the range option is present
/// exactly when `start >= 0`, and precedes the fixed arguments.
pub open spec fn spec_args(url: Seq<char>, start: int, end: int, cwd: Seq<char>) -> Seq<Seq<char>> {
    if start >= 0 {
        seq!["--playlist-items"@, spec_range(start, end)] + spec_fixed_args(url, cwd)
    } else {
        spec_fixed_args(url, cwd)
    }
}

/// The decimal text `start:max(start, end)` for a non-negative `start`.
fn range_arg(start: i32, end: i32) -> (r: String)
    requires
        start >= 0,
    ensures
        r@ == spec_range(start as int, end as int),
{
    let hi: i32 = if end > start {
        end
    } else {
        start
    };
    let mut r = String::new();
    push_dec(start as u32, &mut r);
    r.append(":");
    push_dec(hi as u32, &mut r);
    r
}

/// Builds the argument vector for the download tool from a request and the
/// working directory the output path is anchored at. A pure function of its
/// two arguments: the vector is pinned, element by element, by `spec_args`.
pub fn build_args(req: &VideoRequest, cwd: &str) -> (r: Vec<String>)
    ensures
        r.deep_view() == spec_args(req.url@, req.start as int, req.end as int, cwd@),
{
    let mut v: Vec<String> = Vec::new();
    if req.start >= 0 {
        v.push(String::from_str("--playlist-items"));
        v.push(range_arg(req.start, req.end));
    }
    v.push(req.url.clone());
    v.push(String::from_str("--no-simulate"));
    v.push(String::from_str("--no-part"));
    v.push(String::from_str("--q"));
    v.push(String::from_str("--write-thumbnail"));
    v.push(String::from_str("-S"));
    v.push(String::from_str("res,ext:mp4:m4a"));
    v.push(String::from_str("--recode"));
    v.push(String::from_str("mp4"));
    v.push(String::from_str("--paths"));
    let mut path = String::from_str(cwd);
    path.append("/videos");
    v.push(path);
    v.push(String::from_str("--print"));
    v.push(String::from_str("after_move:[downloaded]:%(id)s.%(ext)s"));
    v.push(String::from_str("--print"));
    v.push(String::from_str("before_dl:[downloading]:%(id)s.%(ext)s"));
    v.push(String::from_str("--output"));
    v.push(String::from_str("%(id)s.%(ext)s"));
    v.push(String::from_str("--output"));
    v.push(String::from_str("thumbnail:%(id)s.%(ext)s"));
    proof {
        assert(v.deep_view() =~= spec_args(
            req.url@,
            req.start as int,
            req.end as int,
            cwd@,
        ));
    }
    v
}

/// A request whose `start` is negative carries no playlist-range option:
/// the argument vector is exactly the fixed tail, and (unless the URL is
/// itself that very flag) the range flag appears nowhere in it.
pub proof fn lemma_no_range_when_negative(url: Seq<char>, start: int, end: int, cwd: Seq<char>)
    requires
        start < 0,
    ensures
        spec_args(url, start, end, cwd) == spec_fixed_args(url, cwd),
        url != "--playlist-items"@ ==> forall|i: int|
            0 <= i < spec_args(url, start, end, cwd).len()
                ==> spec_args(url, start, end, cwd)[i] != "--playlist-items"@,
{
    reveal_strlit("--playlist-items");
    reveal_strlit("--no-simulate");
    reveal_strlit("--no-part");
    reveal_strlit("--q");
    reveal_strlit("--write-thumbnail");
    reveal_strlit("-S");
    reveal_strlit("res,ext:mp4:m4a");
    reveal_strlit("--recode");
    reveal_strlit("mp4");
    reveal_strlit("--paths");
    reveal_strlit("/videos");
    reveal_strlit("--print");
    reveal_strlit("after_move:[downloaded]:%(id)s.%(ext)s");
    reveal_strlit("before_dl:[downloading]:%(id)s.%(ext)s");
    reveal_strlit("--output");
    reveal_strlit("%(id)s.%(ext)s");
    reveal_strlit("thumbnail:%(id)s.%(ext)s");
    let a = spec_fixed_args(url, cwd);
    let flag = "--playlist-items"@;
    if url != flag {
        assert forall|i: int| 0 <= i < a.len() implies a[i] != flag by {
            let p = cwd + "/videos"@;
            if p.len() == flag.len() {
                assert(p[cwd.len() as int] == "/videos"@[0]);
                assert(p[cwd.len() as int] == '/');
                assert(flag[9] == 't');
                assert(p != flag);
            }
        }
    }
}

/// A request whose `start` is non-negative carries the playlist-range
/// option first, as `start:max(start, end)`, before the fixed arguments.
pub proof fn lemma_range_when_nonnegative(url: Seq<char>, start: int, end: int, cwd: Seq<char>)
    requires
        start >= 0,
    ensures
        spec_args(url, start, end, cwd) == seq!["--playlist-items"@, spec_range(start, end)]
            + spec_fixed_args(url, cwd),
        spec_args(url, start, end, cwd)[0] == "--playlist-items"@,
        spec_args(url, start, end, cwd)[1] == spec_dec(start) + ":"@ + spec_dec(
            if end > start {
                end
            } else {
                start
            },
        ),
{
}

/// Argument construction is a pure function of the request and the working
/// directory: any two vectors built for the same inputs are identical.
pub proof fn lemma_args_deterministic(
    a1: Seq<Seq<char>>,
    a2: Seq<Seq<char>>,
    url: Seq<char>,
    start: int,
    end: int,
    cwd: Seq<char>,
)
    requires
        a1 == spec_args(url, start, end, cwd),
        a2 == spec_args(url, start, end, cwd),
    ensures
        a1 == a2,
{
}

} // verus!
