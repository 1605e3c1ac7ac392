//! Decoding of URL query strings.

use vstd::prelude::*;
use vstd::string::StringSliceAdditionalSpecFns;
use crate::pairs::string_pairs;
use crate::text::push_char;

verus! {

/// An ASCII hexadecimal digit (`0-9`, `a-f`, `A-F`).
pub open spec fn is_hex_digit(b: u8) -> bool {
    (0x30 <= b <= 0x39) || (0x41 <= b <= 0x46) || (0x61 <= b <= 0x66)
}

/// The value of an ASCII hexadecimal digit.
pub open spec fn hex_value(b: u8) -> int {
    if b <= 0x39 {
        b - 0x30
    } else if b <= 0x46 {
        b - 0x41 + 10
    } else {
        b - 0x61 + 10
    }
}

/// What one query component decodes to: `+` becomes a space, `%XY` with two
/// hex digits becomes the byte `0xXY`, every other byte stands for itself.
/// Each resulting byte is read as the character with that code point.
pub open spec fn decode_component(b: Seq<u8>) -> Seq<char>
    decreases b.len(),
{
    if b.len() == 0 {
        seq![]
    } else if b[0] == 0x2b {
        seq![' '] + decode_component(b.skip(1))
    } else if b[0] == 0x25 && b.len() > 2 && is_hex_digit(b[1]) && is_hex_digit(b[2]) {
        seq![((hex_value(b[1]) * 16 + hex_value(b[2])) as u8) as char] + decode_component(b.skip(3))
    } else {
        seq![b[0] as char] + decode_component(b.skip(1))
    }
}

fn hex_digit(b: u8) -> (r: Option<u8>)
    ensures
        match r {
            Some(v) => is_hex_digit(b) && v == hex_value(b),
            None => !is_hex_digit(b),
        },
{
    if 0x30 <= b && b <= 0x39 {
        Some(b - 0x30)
    } else if 0x41 <= b && b <= 0x46 {
        Some(b - 0x41 + 10)
    } else if 0x61 <= b && b <= 0x66 {
        Some(b - 0x61 + 10)
    } else {
        None
    }
}

/// Decodes the bytes `b[start..end]` as one query component.
pub fn decode_bytes(b: &[u8], start: usize, end: usize) -> (r: String)
    requires
        start <= end <= b@.len(),
    ensures
        r@ == decode_component(b@.subrange(start as int, end as int)),
{
    let ghost whole = b@.subrange(start as int, end as int);
    let mut out = String::new();
    let mut i = start;
    assert(whole.skip(0) =~= whole);
    while i < end
        invariant
            start <= i <= end <= b@.len(),
            whole == b@.subrange(start as int, end as int),
            decode_component(whole) == out@ + decode_component(whole.skip(i - start)),
        decreases end - i,
    {
        let ghost rest = whole.skip(i - start);
        let c = b[i];
        if c == 0x2b {
            push_char(&mut out, ' ');
            assert(rest.skip(1) =~= whole.skip(i + 1 - start));
            i = i + 1;
        } else if c == 0x25 && end - i > 2 {
            let hi = hex_digit(b[i + 1]);
            let lo = hex_digit(b[i + 2]);
            match (hi, lo) {
                (Some(h), Some(l)) => {
                    let v: u8 = h * 16 + l;
                    push_char(&mut out, v as char);
                    assert(rest.skip(3) =~= whole.skip(i + 3 - start));
                    i = i + 3;
                },
                _ => {
                    push_char(&mut out, c as char);
                    assert(rest.skip(1) =~= whole.skip(i + 1 - start));
                    i = i + 1;
                },
            }
        } else {
            push_char(&mut out, c as char);
            assert(rest.skip(1) =~= whole.skip(i + 1 - start));
            i = i + 1;
        }
    }
    assert(whole.skip(end - start) =~= Seq::<u8>::empty());
    out
}

/// Decodes one `application/x-www-form-urlencoded`-style query component,
/// byte by byte: `+` is a space, `%XY` is the byte `0xXY`.
pub fn decode_query_component(s: &str) -> (r: String)
    ensures
        r@ == decode_component(s.spec_bytes()),
{
    let b = s.as_bytes();
    let r = decode_bytes(b, 0, b.len());
    assert(b@.subrange(0, b@.len() as int) =~= b@);
    r
}


/// The pieces of `b` between occurrences of `sep`, as `str::split` yields
/// them: always at least one piece, and an empty piece between two adjacent
/// separators.
pub open spec fn split_bytes(b: Seq<u8>, sep: u8) -> Seq<Seq<u8>>
    decreases b.len(),
{
    if b.len() == 0 {
        seq![Seq::<u8>::empty()]
    } else {
        let prev = split_bytes(b.drop_last(), sep);
        if b.last() == sep {
            prev.push(Seq::<u8>::empty())
        } else {
            prev.update(prev.len() - 1, prev.last().push(b.last()))
        }
    }
}

/// The position of the first `c` in `b`, or the length of `b` if there is none.
pub open spec fn first_index(b: Seq<u8>, c: u8) -> int
    decreases b.len(),
{
    if b.len() == 0 {
        0
    } else if b[0] == c {
        0
    } else {
        1 + first_index(b.skip(1), c)
    }
}

/// The key of a `key=value` piece: everything before the first `=`.
pub open spec fn key_part(seg: Seq<u8>) -> Seq<u8> {
    seg.take(first_index(seg, 0x3d))
}

/// The value of a `key=value` piece: everything after the first `=`, or
/// nothing when there is no `=`.
pub open spec fn value_part(seg: Seq<u8>) -> Seq<u8> {
    if first_index(seg, 0x3d) < seg.len() {
        seg.skip(first_index(seg, 0x3d) + 1)
    } else {
        Seq::<u8>::empty()
    }
}

/// The decoded key and value of one piece.
pub open spec fn segment_pair(seg: Seq<u8>) -> (Seq<char>, Seq<char>) {
    (decode_component(key_part(seg)), decode_component(value_part(seg)))
}

/// The decoded pairs of a list of pieces, empty pieces skipped.
pub open spec fn pairs_of_segments(segs: Seq<Seq<u8>>) -> Seq<(Seq<char>, Seq<char>)>
    decreases segs.len(),
{
    if segs.len() == 0 {
        seq![]
    } else {
        let p = pairs_of_segments(segs.drop_last());
        if segs.last().len() == 0 {
            p
        } else {
            p.push(segment_pair(segs.last()))
        }
    }
}

/// The decoded pairs of a query string, in the order in which they occur.
pub open spec fn query_pairs(q: Seq<u8>) -> Seq<(Seq<char>, Seq<char>)> {
    pairs_of_segments(split_bytes(q, 0x26))
}

pub(crate) proof fn lemma_first_index(b: Seq<u8>, c: u8, j: int)
    requires
        0 <= j <= b.len(),
        forall|k: int| 0 <= k < j ==> b[k] != c,
        j == b.len() || b[j] == c,
    ensures
        first_index(b, c) == j,
    decreases b.len(),
{
    if b.len() > 0 && j > 0 {
        lemma_first_index(b.skip(1), c, j - 1);
    }
}

/// The decoded key and value of the piece `b[start..end]`.
fn segment_to_pair(b: &[u8], start: usize, end: usize) -> (r: (String, String))
    requires
        start <= end <= b@.len(),
    ensures
        (r.0@, r.1@) == segment_pair(b@.subrange(start as int, end as int)),
{
    let ghost seg = b@.subrange(start as int, end as int);
    let mut j = start;
    while j < end && b[j] != 0x3d
        invariant
            start <= j <= end <= b@.len(),
            forall|k: int| start <= k < j ==> b@[k] != 0x3d,
        decreases end - j,
    {
        j = j + 1;
    }
    proof {
        lemma_first_index(seg, 0x3d, j - start);
    }
    let key = decode_bytes(b, start, j);
    assert(seg.take(j - start) =~= b@.subrange(start as int, j as int));
    let value = if j < end {
        assert(seg.skip(j - start + 1) =~= b@.subrange(j + 1, end as int));
        decode_bytes(b, j + 1, end)
    } else {
        assert(Seq::<u8>::empty() =~= b@.subrange(end as int, end as int));
        decode_bytes(b, end, end)
    };
    (key, value)
}

/// Splits a query string at `&`, skips empty pieces, splits each piece at its
/// first `=` and decodes both halves; the pairs come out in query order.
pub fn parse_query_pairs(q: &str) -> (r: Vec<(String, String)>)
    ensures
        string_pairs(r@) == query_pairs(q.spec_bytes()),
{
    let b = q.as_bytes();
    let n = b.len();
    let mut out: Vec<(String, String)> = Vec::new();
    let mut seg_start: usize = 0;
    let mut i: usize = 0;
    let ghost mut done: Seq<Seq<u8>> = seq![];
    assert(b@.take(0) =~= Seq::<u8>::empty());
    assert(string_pairs(out@) =~= Seq::<(Seq<char>, Seq<char>)>::empty());
    assert(b@.subrange(0, 0) =~= Seq::<u8>::empty());
    while i < n
        invariant
            n == b@.len(),
            0 <= seg_start <= i <= n,
            split_bytes(b@.take(i as int), 0x26) == done.push(b@.subrange(seg_start as int, i as int)),
            string_pairs(out@) == pairs_of_segments(done),
        decreases n - i,
    {
        let ghost prefix = b@.take(i + 1);
        assert(prefix.drop_last() =~= b@.take(i as int));
        assert(prefix.last() == b@[i as int]);
        if b[i] == 0x26 {
            let ghost seg = b@.subrange(seg_start as int, i as int);
            if seg_start < i {
                let pair = segment_to_pair(b, seg_start, i);
                out.push(pair);
                assert(string_pairs(out@) =~= pairs_of_segments(done).push(segment_pair(seg)));
            }
            proof {
                assert(done.push(seg).drop_last() =~= done);
                done = done.push(seg);
            }
            assert(b@.subrange((i + 1) as int, (i + 1) as int) =~= Seq::<u8>::empty());
            seg_start = i + 1;
        } else {
            assert(b@.subrange(seg_start as int, i + 1) =~= b@.subrange(seg_start as int, i as int).push(b@[i as int]));
        }
        i = i + 1;
    }
    assert(b@.take(n as int) =~= b@);
    let ghost last = b@.subrange(seg_start as int, n as int);
    assert(done.push(last).drop_last() =~= done);
    if seg_start < n {
        let pair = segment_to_pair(b, seg_start, n);
        out.push(pair);
        assert(string_pairs(out@) =~= pairs_of_segments(done).push(segment_pair(last)));
    }
    out
}

} // verus!
