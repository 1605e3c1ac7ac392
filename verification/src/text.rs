//! Character- and byte-level helpers shared by the other modules.

use vstd::prelude::*;

verus! {

/// Appends one character to a `String` (`String::push`).
#[verifier::external_body]
pub(crate) fn push_char(s: &mut String, c: char)
    ensures
        final(s)@ == old(s)@.push(c),
{
    s.push(c);
}

/// Bytes read one for one as the characters with those code points.
pub open spec fn byte_chars(b: Seq<u8>) -> Seq<char> {
    b.map_values(|x: u8| x as char)
}

/// A byte that `HeaderValue::to_str` accepts: visible ASCII or a tab.
pub open spec fn is_visible_ascii(b: u8) -> bool {
    (32 <= b && b < 127) || b == 9
}

/// Every byte of `b` is visible ASCII or a tab.
pub open spec fn all_visible_ascii(b: Seq<u8>) -> bool {
    forall|i: int| 0 <= i < b.len() ==> is_visible_ascii(#[trigger] b[i])
}

/// `s` begins with `p`.
pub open spec fn starts_with<A>(s: Seq<A>, p: Seq<A>) -> bool {
    p.len() <= s.len() && s.take(p.len() as int) == p
}

/// `needle` occurs somewhere in `hay`.
pub open spec fn seq_contains<A>(hay: Seq<A>, needle: Seq<A>) -> bool {
    exists|i: int| 0 <= i && i + needle.len() <= hay.len() && #[trigger] hay.subrange(i, i + needle.len()) == needle
}

/// An ASCII white-space byte, as `char::is_whitespace` judges it.
pub open spec fn is_white_space(b: u8) -> bool {
    b == 0x20 || (0x09 <= b && b <= 0x0d)
}

/// `b` without its leading white space.
pub open spec fn trim_start(b: Seq<u8>) -> Seq<u8>
    decreases b.len(),
{
    if b.len() > 0 && is_white_space(b[0]) {
        trim_start(b.skip(1))
    } else {
        b
    }
}

/// `b` without its trailing white space.
pub open spec fn trim_end(b: Seq<u8>) -> Seq<u8>
    decreases b.len(),
{
    if b.len() > 0 && is_white_space(b.last()) {
        trim_end(b.drop_last())
    } else {
        b
    }
}

/// `b` without white space at either end.
pub open spec fn trim(b: Seq<u8>) -> Seq<u8> {
    trim_end(trim_start(b))
}

/// The characters of `b[start..end]`, each byte read as one character.
pub fn bytes_to_text(b: &[u8], start: usize, end: usize) -> (r: String)
    requires
        start <= end <= b@.len(),
    ensures
        r@ == byte_chars(b@.subrange(start as int, end as int)),
{
    let mut out = String::new();
    let mut i = start;
    while i < end
        invariant
            start <= i <= end <= b@.len(),
            out@ == byte_chars(b@.subrange(start as int, i as int)),
        decreases end - i,
    {
        push_char(&mut out, b[i] as char);
        assert(byte_chars(b@.subrange(start as int, i + 1)) =~= byte_chars(
            b@.subrange(start as int, i as int),
        ).push(b@[i as int] as char));
        i = i + 1;
    }
    out
}

/// Whether every byte of `b` is visible ASCII or a tab.
pub fn check_visible_ascii(b: &[u8]) -> (r: bool)
    ensures
        r == all_visible_ascii(b@),
{
    let mut i: usize = 0;
    while i < b.len()
        invariant
            0 <= i <= b@.len(),
            forall|k: int| 0 <= k < i ==> is_visible_ascii(#[trigger] b@[k]),
        decreases b@.len() - i,
    {
        let c = b[i];
        if !((32 <= c && c < 127) || c == 9) {
            assert(!is_visible_ascii(b@[i as int]));
            return false;
        }
        i = i + 1;
    }
    true
}

/// Whether `b[start..end]` begins with `p`.
pub fn range_starts_with(b: &[u8], start: usize, end: usize, p: &[u8]) -> (r: bool)
    requires
        start <= end <= b@.len(),
    ensures
        r == starts_with(b@.subrange(start as int, end as int), p@),
{
    if end - start < p.len() {
        return false;
    }
    let ghost s = b@.subrange(start as int, end as int);
    let mut i: usize = 0;
    while i < p.len()
        invariant
            s == b@.subrange(start as int, end as int),
            p@.len() <= end - start,
            start <= end <= b@.len(),
            0 <= i <= p@.len(),
            forall|k: int| 0 <= k < i ==> b@[start + k] == p@[k],
        decreases p@.len() - i,
    {
        if b[start + i] != p[i] {
            assert(s.take(p@.len() as int)[i as int] != p@[i as int]);
            return false;
        }
        i = i + 1;
    }
    assert(s.take(p@.len() as int) =~= p@);
    true
}

/// Whether `needle` occurs in `hay`.
pub fn chars_contain(hay: &Vec<char>, needle: &Vec<char>) -> (r: bool)
    ensures
        r == seq_contains(hay@, needle@),
{
    let n = needle.len();
    let mut i: usize = 0;
    while n <= hay.len() && i <= hay.len() - n
        invariant
            n == needle@.len(),
            0 <= i,
            i <= hay@.len() + 1,
            forall|k: int| 0 <= k < i && k + n <= hay@.len() ==> #[trigger] hay@.subrange(k, k + n) != needle@,
        decreases hay@.len() + 1 - i,
    {
        let mut j: usize = 0;
        let mut same = true;
        while j < n
            invariant
                n == needle@.len(),
                i + n <= hay@.len(),
                hay@.len() <= usize::MAX,
                0 <= j <= n,
                same <==> forall|k: int| 0 <= k < j ==> hay@[i + k] == needle@[k],
            decreases n - j,
        {
            if hay[i + j] != needle[j] {
                same = false;
            }
            j = j + 1;
        }
        if same {
            assert(hay@.subrange(i as int, i + n) =~= needle@);
            return true;
        } else {
            let ghost k = choose|k: int| 0 <= k < n && hay@[i + k] != needle@[k];
            assert(hay@.subrange(i as int, i + n)[k] != needle@[k]);
        }
        i = i + 1;
    }
    assert forall|k: int| 0 <= k && k + n <= hay@.len() implies #[trigger] hay@.subrange(k, k + n) != needle@ by {
        assert(k < i);
    }
    false
}

/// The decimal digits of `n`, most significant first, without leading zeros.
pub open spec fn decimal_digits(n: nat) -> Seq<char>
    decreases n,
{
    if n < 10 {
        seq![(n + 48) as char]
    } else {
        decimal_digits(n / 10).push(((n % 10) + 48) as char)
    }
}

/// The decimal text of `n` (`ToString::to_string`, which writes an unsigned
/// integer through `Display` as its decimal digits).
#[verifier::external_body]
pub(crate) fn decimal_string(n: usize) -> (r: String)
    ensures
        r@ == decimal_digits(n as nat),
{
    n.to_string()
}

/// Whether the two byte strings are equal.
pub fn bytes_equal(a: &[u8], b: &[u8]) -> (r: bool)
    ensures
        r == (a@ == b@),
{
    if a.len() != b.len() {
        return false;
    }
    let mut i: usize = 0;
    while i < a.len()
        invariant
            a@.len() == b@.len(),
            0 <= i <= a@.len(),
            forall|k: int| 0 <= k < i ==> a@[k] == b@[k],
        decreases a@.len() - i,
    {
        if a[i] != b[i] {
            return false;
        }
        i = i + 1;
    }
    assert(a@ =~= b@);
    true
}

/// Whether the two texts are equal (compared through their UTF-8 bytes).
pub fn same_text(a: &str, b: &str) -> (r: bool)
    ensures
        r == (a@ == b@),
{
    let r = bytes_equal(a.as_bytes(), b.as_bytes());
    proof {
        vstd::utf8::encode_utf8_decode_utf8(a@);
        vstd::utf8::encode_utf8_decode_utf8(b@);
    }
    r
}

/// The lower-case form of a text as `str::to_lowercase` gives it (full
/// Unicode case mapping).
pub uninterp spec fn lowercase(s: Seq<char>) -> Seq<char>;

/// `str::to_lowercase`, handing the characters out one by one. An ASCII
/// text maps letter by letter: `A`-`Z` to `a`-`z`, everything else as is.
#[verifier::external_body]
pub(crate) fn lowercase_chars(s: &str) -> (r: Vec<char>)
    ensures
        r@ == lowercase(s@),
        (forall|i: int| 0 <= i < s@.len() ==> (#[trigger] s@[i] as u32) < 128) ==> r@ == crate::headers::ascii_lower(s@),
{
    s.to_lowercase().chars().collect()
}

/// `String::from_utf8`: the text that the bytes encode, when they are valid
/// UTF-8.
#[verifier::external_body]
pub(crate) fn utf8_string(b: Vec<u8>) -> (r: Option<String>)
    ensures
        match r {
            Some(s) => vstd::utf8::valid_utf8(b@) && s@ == vstd::utf8::decode_utf8(b@),
            None => !vstd::utf8::valid_utf8(b@),
        },
{
    String::from_utf8(b).ok()
}

} // verus!
