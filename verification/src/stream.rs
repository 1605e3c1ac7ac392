//! The choice between buffering and streaming a response body.

use vstd::prelude::*;
use poem::http::header::HeaderMap;
use crate::headers::{first_value, header_entries, header_map_get};
use crate::text::{all_visible_ascii, check_visible_ascii, range_starts_with, starts_with, trim_start};

verus! {

/// The bytes of `text/event-stream`.
pub open spec fn event_stream_type() -> Seq<u8> {
    seq![
        0x74u8, 0x65u8, 0x78u8, 0x74u8, 0x2fu8, 0x65u8, 0x76u8, 0x65u8, 0x6eu8, 0x74u8, 0x2du8,
        0x73u8, 0x74u8, 0x72u8, 0x65u8, 0x61u8, 0x6du8,
    ]
}

/// A response is streamed when its first `content-type` header is text that,
/// after leading white space, begins with `text/event-stream`.
pub open spec fn streams(entries: Seq<(Seq<char>, Seq<u8>)>) -> bool {
    match first_value(entries, "content-type"@) {
        Some(v) => all_visible_ascii(v) && starts_with(trim_start(v), event_stream_type()),
        None => false,
    }
}

/// Whether a response with these headers is sent as a stream (server-sent
/// events) rather than buffered.
pub fn is_event_stream(headers: &HeaderMap) -> (r: bool)
    ensures
        r == streams(header_entries(*headers)),
{
    proof {
        reveal_strlit("content-type");
    }
    match header_map_get(headers, "content-type") {
        Some(v) => {
            if !check_visible_ascii(v.as_slice()) {
                return false;
            }
            let n = v.len();
            let mut s: usize = 0;
            assert(v@.subrange(0, n as int) =~= v@);
            while s < n && (v[s] == 0x20 || (0x09 <= v[s] && v[s] <= 0x0d))
                invariant
                    0 <= s <= n == v@.len(),
                    trim_start(v@) == trim_start(v@.subrange(s as int, n as int)),
                decreases n - s,
            {
                assert(v@.subrange(s as int, n as int).skip(1) =~= v@.subrange(s + 1, n as int));
                s = s + 1;
            }
            let wanted = vec![
                0x74u8, 0x65u8, 0x78u8, 0x74u8, 0x2fu8, 0x65u8, 0x76u8, 0x65u8, 0x6eu8, 0x74u8, 0x2du8,
                0x73u8, 0x74u8, 0x72u8, 0x65u8, 0x61u8, 0x6du8,
            ];
            range_starts_with(v.as_slice(), s, n, wanted.as_slice())
        },
        None => false,
    }
}

} // verus!
