//! Properties of the library as a whole, stated over the specifications
//! that the functions' contracts use.

use vstd::prelude::*;
use crate::headers::{ascii_lower, first_value, valid_header_name, valid_header_value};
use crate::pairs::pairs_to_map;
use crate::query::{
    decode_component, lemma_first_index, pairs_of_segments, query_pairs, segment_pair, split_bytes,
};
use crate::request::{declared_length, declared_too_large, request_error_status, text_headers, RequestError};
use crate::auth::{error_json, error_status, is_auth_error_status};
use crate::response::{accepted_headers, shown_message, status_or_internal};
use crate::session::{bearer_token, cookie_token, first_cookie, rejection_status, session_token, SessionRejection};
use crate::text::{byte_chars, is_visible_ascii};
use vstd::utf8::{decode_utf8, valid_utf8};

verus! {

/// A query component with no `+` and no `%` decodes to its own bytes, each
/// read as one character.
pub proof fn law_plain_component_is_unchanged(b: Seq<u8>)
    requires
        forall|i: int| 0 <= i < b.len() ==> #[trigger] b[i] != 0x2b && b[i] != 0x25,
    ensures
        decode_component(b) == byte_chars(b),
    decreases b.len(),
{
    if b.len() > 0 {
        let rest = b.skip(1);
        assert forall|i: int| 0 <= i < rest.len() implies #[trigger] rest[i] != 0x2b && rest[i] != 0x25 by {
            assert(rest[i] == b[i + 1]);
        }
        law_plain_component_is_unchanged(rest);
        assert(byte_chars(b) =~= seq![b[0] as char] + byte_chars(rest));
    }
}

/// A bearer token in the first `authorization` header is the session token,
/// whatever cookies the request carries.
pub proof fn law_bearer_token_comes_first(entries: Seq<(Seq<char>, Seq<u8>)>, cookie_name: Seq<u8>)
    requires
        bearer_token(first_value(entries, "authorization"@)) is Some,
    ensures
        session_token(entries, cookie_name) == bearer_token(first_value(entries, "authorization"@)),
{
}

/// Without a bearer token, the session token is the session cookie.
pub proof fn law_cookie_without_bearer_token(entries: Seq<(Seq<char>, Seq<u8>)>, cookie_name: Seq<u8>)
    requires
        bearer_token(first_value(entries, "authorization"@)) is None,
    ensures
        session_token(entries, cookie_name) == cookie_token(first_value(entries, "cookie"@), cookie_name),
{
}

/// Every header that a converted response keeps has a valid lower-case name
/// and a valid value.
pub proof fn law_kept_headers_are_valid(h: Seq<(Seq<char>, Seq<char>)>)
    ensures
        forall|i: int| 0 <= i < accepted_headers(h).len() ==> valid_header_name(#[trigger] accepted_headers(h)[i].0),
        forall|i: int| 0 <= i < accepted_headers(h).len() ==> valid_header_value(#[trigger] accepted_headers(h)[i].1),
        forall|i: int| 0 <= i < accepted_headers(h).len() ==> #[trigger] accepted_headers(h)[i].0 == ascii_lower(accepted_headers(h)[i].0),
    decreases h.len(),
{
    if h.len() > 0 {
        law_kept_headers_are_valid(h.drop_last());
        let p = accepted_headers(h.drop_last());
        let e = h.last();
        let a = accepted_headers(h);
        if valid_header_name(e.0) && valid_header_value(e.1) {
            let n = ascii_lower(e.0);
            assert(valid_header_name(n));
            assert(n =~= ascii_lower(n));
            assert(a == p.push((n, e.1)));
            assert forall|i: int| 0 <= i < a.len() implies valid_header_name(#[trigger] a[i].0)
                && valid_header_value(a[i].1) && a[i].0 == ascii_lower(a[i].0) by {
                if i < p.len() {
                    assert(a[i] == p[i]);
                }
            }
        } else {
            assert(a == p);
        }
    }
}

/// A response whose headers are all valid keeps every one of them, in order,
/// names in lower case.
pub proof fn law_valid_headers_are_all_kept(h: Seq<(Seq<char>, Seq<char>)>)
    requires
        forall|i: int| 0 <= i < h.len() ==> valid_header_name(#[trigger] h[i].0) && valid_header_value(h[i].1),
    ensures
        accepted_headers(h) == h.map_values(|e: (Seq<char>, Seq<char>)| (ascii_lower(e.0), e.1)),
    decreases h.len(),
{
    if h.len() > 0 {
        let q = h.drop_last();
        assert forall|i: int| 0 <= i < q.len() implies valid_header_name(#[trigger] q[i].0) && valid_header_value(q[i].1) by {
            assert(q[i] == h[i]);
        }
        law_valid_headers_are_all_kept(q);
        assert(h.map_values(|e: (Seq<char>, Seq<char>)| (ascii_lower(e.0), e.1)) =~= q.map_values(
            |e: (Seq<char>, Seq<char>)| (ascii_lower(e.0), e.1),
        ).push((ascii_lower(h.last().0), h.last().1)));
    }
}

/// Every header value that a converted request keeps is the text of valid
/// UTF-8 bytes of that header.
pub proof fn law_request_header_values_are_utf8(entries: Seq<(Seq<char>, Seq<u8>)>, name: Seq<char>)
    requires
        pairs_to_map(text_headers(entries)).dom().contains(name),
    ensures
        exists|v: Seq<u8>| valid_utf8(v) && pairs_to_map(text_headers(entries))[name] == decode_utf8(v),
    decreases entries.len(),
{
    if entries.len() > 0 {
        let t = text_headers(entries);
        let p = text_headers(entries.drop_last());
        let e = entries.last();
        if valid_utf8(e.1) {
            assert(t.drop_last() =~= p);
            assert(pairs_to_map(t) == pairs_to_map(p).insert(e.0, decode_utf8(e.1)));
            if name != e.0 {
                law_request_header_values_are_utf8(entries.drop_last(), name);
            }
        } else {
            law_request_header_values_are_utf8(entries.drop_last(), name);
        }
    }
}

/// A header whose value is valid UTF-8 and whose name occurs once is kept,
/// with its decoded value.
pub proof fn law_request_keeps_utf8_headers(entries: Seq<(Seq<char>, Seq<u8>)>, i: int)
    requires
        0 <= i < entries.len(),
        valid_utf8(entries[i].1),
        forall|j: int| 0 <= j < entries.len() && j != i ==> entries[j].0 != entries[i].0,
    ensures
        pairs_to_map(text_headers(entries)).dom().contains(entries[i].0),
        pairs_to_map(text_headers(entries))[entries[i].0] == decode_utf8(entries[i].1),
    decreases entries.len(),
{
    let t = text_headers(entries);
    let p = text_headers(entries.drop_last());
    let e = entries.last();
    if i == entries.len() - 1 {
        assert(t.drop_last() =~= p);
    } else {
        let q = entries.drop_last();
        assert(q[i] == entries[i]);
        assert forall|j: int| 0 <= j < q.len() && j != i implies q[j].0 != q[i].0 by {
            assert(q[j] == entries[j]);
        }
        law_request_keeps_utf8_headers(q, i);
        if valid_utf8(e.1) {
            assert(t.drop_last() =~= p);
            assert(e.0 != entries[i].0);
        }
    }
}

/// A request that declares a body no longer than the limit, or none, is not
/// refused for its size before its body is read.
pub proof fn law_declared_length_within_limit(entries: Seq<(Seq<char>, Seq<u8>)>, limit: usize)
    requires
        declared_length(entries) matches Some(n) ==> n <= limit,
    ensures
        !declared_too_large(entries, limit),
{
}

/// A 500-class error (status 500 to 599) never shows its own text; any other
/// error does.
pub proof fn law_internal_errors_are_masked(status: u16, text: Seq<char>)
    ensures
        500 <= status <= 599 ==> shown_message(status, text) == "Internal server error"@,
        !(500 <= status <= 599) ==> shown_message(status, text) == text,
{
}

/// Two 500-class errors with the same status get the same response, whatever
/// their texts: the same status, and the same masked body.
pub proof fn law_internal_errors_answer_alike(s1: u16, t1: Seq<char>, s2: u16, t2: Seq<char>)
    requires
        500 <= s1 <= 599,
        500 <= s2 <= 599,
    ensures
        error_json(shown_message(s1, t1)) == error_json(shown_message(s2, t2)),
        s1 == s2 ==> status_or_internal(s1) == status_or_internal(s2),
{
}

/// The first cookie found among the pieces is never empty.
pub proof fn law_found_cookie_is_not_empty(pieces: Seq<Seq<u8>>, prefix: Seq<u8>)
    ensures
        first_cookie(pieces, prefix) matches Some(v) ==> v.len() > 0,
    decreases pieces.len(),
{
    if pieces.len() > 0 {
        law_found_cookie_is_not_empty(pieces.drop_last(), prefix);
    }
}

/// A session token taken from a cookie is never empty.
pub proof fn law_cookie_token_is_not_empty(cookie: Option<Seq<u8>>, name: Seq<u8>)
    ensures
        cookie_token(cookie, name) matches Some(v) ==> v.len() > 0,
{
    if let Some(c) = cookie {
        law_found_cookie_is_not_empty(split_bytes(c, 0x3b), name.push(0x3d));
    }
}

/// A refused request is answered with its error's status: 400 for an
/// unsupported method or an unreadable body, 413 for a body over the limit,
/// 401 without a session token or a live session, 404 when the session's user
/// is gone, and a failed lookup's own status.
pub proof fn law_refusals_answer_with_their_status(e: RequestError, r: SessionRejection)
    ensures
        status_or_internal(request_error_status(e)) == match e {
            RequestError::UnsupportedMethod => 400u16,
            RequestError::PayloadTooLarge { .. } => 413u16,
            RequestError::UnreadableBody => 400u16,
        },
        status_or_internal(rejection_status(r)) == match r {
            SessionRejection::Unauthenticated => 401u16,
            SessionRejection::SessionNotFound => 401u16,
            SessionRejection::UserNotFound => 404u16,
            SessionRejection::Lookup(l) => status_or_internal(error_status(l)),
        },
{
}

/// A percent sign followed by two hex digits (`0-9`, `a-f` or `A-F`, either
/// case) decodes to the one character whose code is the two digits' value,
/// and decoding goes on after them.
pub proof fn law_percent_escape_decodes(x: u8, y: u8, rest: Seq<u8>)
    requires
        (0x30 <= x <= 0x39) || (0x41 <= x <= 0x46) || (0x61 <= x <= 0x66),
        (0x30 <= y <= 0x39) || (0x41 <= y <= 0x46) || (0x61 <= y <= 0x66),
    ensures
        ({
            let vx: int = if x <= 0x39 { x - 0x30 } else if x <= 0x46 { x - 0x37 } else { x - 0x57 };
            let vy: int = if y <= 0x39 { y - 0x30 } else if y <= 0x46 { y - 0x37 } else { y - 0x57 };
            decode_component(seq![0x25u8, x, y] + rest) == seq![((vx * 16 + vy) as u8) as char]
                + decode_component(rest)
        }),
{
    let s = seq![0x25u8, x, y] + rest;
    assert(s[0] == 0x25 && s[1] == x && s[2] == y);
    assert(s.skip(3) =~= rest);
}

proof fn lemma_split_nonempty(b: Seq<u8>, sep: u8)
    ensures
        split_bytes(b, sep).len() >= 1,
    decreases b.len(),
{
    if b.len() > 0 {
        lemma_split_nonempty(b.drop_last(), sep);
    }
}

proof fn lemma_split_without_separator(b: Seq<u8>, sep: u8)
    requires
        forall|i: int| 0 <= i < b.len() ==> #[trigger] b[i] != sep,
    ensures
        split_bytes(b, sep) == seq![b],
    decreases b.len(),
{
    if b.len() > 0 {
        let c = b.drop_last();
        assert forall|i: int| 0 <= i < c.len() implies #[trigger] c[i] != sep by {
            assert(c[i] == b[i]);
        }
        lemma_split_without_separator(c, sep);
        assert(c.push(b.last()) =~= b);
        assert(b[b.len() - 1] != sep);
    } else {
        assert(b =~= Seq::<u8>::empty());
    }
}

proof fn lemma_split_concat(a: Seq<u8>, b: Seq<u8>, sep: u8)
    ensures
        split_bytes(a.push(sep) + b, sep) == split_bytes(a, sep) + split_bytes(b, sep),
    decreases b.len(),
{
    let c = a.push(sep) + b;
    if b.len() == 0 {
        assert(c =~= a.push(sep));
        assert(a.push(sep).drop_last() =~= a);
        assert(split_bytes(b, sep) == seq![Seq::<u8>::empty()]);
        assert(split_bytes(c, sep) =~= split_bytes(a, sep) + split_bytes(b, sep));
    } else {
        let b0 = b.drop_last();
        assert(c.drop_last() =~= a.push(sep) + b0);
        assert(c.last() == b.last());
        lemma_split_concat(a, b0, sep);
        lemma_split_nonempty(b0, sep);
        let p = split_bytes(a, sep);
        let q = split_bytes(b0, sep);
        if b.last() == sep {
            assert((p + q).push(Seq::<u8>::empty()) =~= p + q.push(Seq::<u8>::empty()));
        } else {
            assert((p + q).update((p + q).len() - 1, (p + q).last().push(b.last())) =~= p + q.update(
                q.len() - 1,
                q.last().push(b.last()),
            ));
        }
    }
}

proof fn lemma_pairs_concat(s1: Seq<Seq<u8>>, s2: Seq<Seq<u8>>)
    ensures
        pairs_of_segments(s1 + s2) == pairs_of_segments(s1) + pairs_of_segments(s2),
    decreases s2.len(),
{
    if s2.len() == 0 {
        assert(s1 + s2 =~= s1);
        assert(pairs_of_segments(s1) + pairs_of_segments(s2) =~= pairs_of_segments(s1));
    } else {
        let t = s2.drop_last();
        assert((s1 + s2).drop_last() =~= s1 + t);
        assert((s1 + s2).last() == s2.last());
        lemma_pairs_concat(s1, t);
        if s2.last().len() > 0 {
            assert((pairs_of_segments(s1) + pairs_of_segments(t)).push(segment_pair(s2.last()))
                =~= pairs_of_segments(s1) + pairs_of_segments(t).push(segment_pair(s2.last())));
        }
    }
}

/// A query string is cut at its raw `&` bytes before anything is decoded:
/// the pairs of `q1&q2` are the pairs of `q1` followed by those of `q2`.
pub proof fn law_query_splits_at_raw_ampersands(q1: Seq<u8>, q2: Seq<u8>)
    ensures
        query_pairs(q1.push(0x26u8) + q2) == query_pairs(q1) + query_pairs(q2),
{
    lemma_split_concat(q1, q2, 0x26);
    lemma_pairs_concat(split_bytes(q1, 0x26), split_bytes(q2, 0x26));
}

/// A piece `k=v` of raw bytes, with no `&` or `=` in `k` and no `&` in `v`,
/// gives exactly one pair: `k` decoded and `v` decoded, each once, so an
/// escaped `%26` or `%3D` never splits it.
pub proof fn law_query_pair_decodes_each_side_once(k: Seq<u8>, v: Seq<u8>)
    requires
        forall|i: int| 0 <= i < k.len() ==> #[trigger] k[i] != 0x26u8 && k[i] != 0x3du8,
        forall|i: int| 0 <= i < v.len() ==> #[trigger] v[i] != 0x26u8,
    ensures
        query_pairs(k.push(0x3du8) + v) == seq![(decode_component(k), decode_component(v))],
{
    let seg = k.push(0x3du8) + v;
    assert forall|i: int| 0 <= i < seg.len() implies #[trigger] seg[i] != 0x26u8 by {
        if i < k.len() {
            assert(seg[i] == k[i]);
        } else if i > k.len() {
            assert(seg[i] == v[i - k.len() - 1]);
        }
    }
    lemma_split_without_separator(seg, 0x26);
    assert forall|i: int| 0 <= i < k.len() implies seg[i] != 0x3du8 by {
        assert(seg[i] == k[i]);
    }
    assert(seg[k.len() as int] == 0x3du8);
    lemma_first_index(seg, 0x3d, k.len() as int);
    assert(seg.take(k.len() as int) =~= k);
    assert(seg.skip(k.len() as int + 1) =~= v);
    let segs = seq![seg];
    assert(segs.drop_last() =~= Seq::<Seq<u8>>::empty());
    assert(pairs_of_segments(segs) == pairs_of_segments(Seq::<Seq<u8>>::empty()).push(segment_pair(seg)));
    assert(pairs_of_segments(segs) =~= seq![(decode_component(k), decode_component(v))]);
}

/// A first `authorization` value of visible ASCII that reads `Bearer ` and
/// then `t` gives the token `t` exactly, whatever visible bytes it holds.
pub proof fn law_bearer_token_is_the_rest(entries: Seq<(Seq<char>, Seq<u8>)>, cookie_name: Seq<u8>, t: Seq<u8>)
    requires
        first_value(entries, "authorization"@) == Some(
            seq![0x42u8, 0x65u8, 0x61u8, 0x72u8, 0x65u8, 0x72u8, 0x20u8] + t,
        ),
        forall|i: int| 0 <= i < t.len() ==> (32 <= #[trigger] t[i] && t[i] < 127) || t[i] == 9,
    ensures
        session_token(entries, cookie_name) == Some(t.map_values(|b: u8| b as char)),
{
    let p = seq![0x42u8, 0x65u8, 0x61u8, 0x72u8, 0x65u8, 0x72u8, 0x20u8];
    let v = p + t;
    assert forall|i: int| 0 <= i < v.len() implies is_visible_ascii(#[trigger] v[i]) by {
        if i >= 7 {
            assert(v[i] == t[i - 7]);
        }
    }
    assert(v.take(7) =~= p);
    assert(v.skip(7) =~= t);
    assert(byte_chars(t) =~= t.map_values(|b: u8| b as char));
}

/// Every status code from 100 to 999 is kept as it is, and only the others
/// become 500; so every better-auth error status, and every redirect, stays.
pub proof fn law_valid_status_codes_are_kept(s: u16)
    ensures
        100 <= s <= 999 ==> status_or_internal(s) == s,
        !(100 <= s <= 999) ==> status_or_internal(s) == 500,
        is_auth_error_status(s) ==> status_or_internal(s) == s,
{
}

} // verus!
