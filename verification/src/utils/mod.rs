//! Parsing of `sha256:`-prefixed hexadecimal digests, and where the
//! configuration and the store are kept.

pub mod docker_config;
pub mod paths;

use vstd::prelude::*;
use vstd::string::StringSliceAdditionalSpecFns;

verus! {

/// Why a prefixed digest could not be parsed.
#[derive(Debug, Clone, Copy, PartialEq, Eq, Structural)]
pub enum ShaParseError {
    /// A two-character group after the prefix is not a hexadecimal number.
    InvalidDigit,
    /// The text after the prefix does not encode exactly 32 bytes.
    WrongLength,
}

/// Value of one hexadecimal digit given as an ASCII byte (either case).
pub open spec fn hex_digit_value(b: u8) -> Option<u8> {
    if 48 <= b <= 57 {
        Some((b - 48) as u8)
    } else if 97 <= b <= 102 {
        Some((b - 87) as u8)
    } else if 65 <= b <= 70 {
        Some((b - 55) as u8)
    } else {
        None
    }
}

/// Value of a two-byte group read as a base-16 `u8`: either two digits, or a
/// `+` sign followed by one digit.
pub open spec fn hex_pair_value(hi: u8, lo: u8) -> Option<u8> {
    if hi == 43 {
        hex_digit_value(lo)
    } else {
        match (hex_digit_value(hi), hex_digit_value(lo)) {
            (Some(h), Some(l)) => Some((h * 16 + l) as u8),
            _ => None,
        }
    }
}

/// Outcome of reading the two-byte groups of a digest text from byte `i` on.
pub enum ShaScan {
    /// A group would be cut outside the text or inside a character.
    Panics,
    /// A group is not a base-16 number.
    Invalid,
    /// Every group was read; these are their values.
    Bytes(Seq<u8>),
}

/// `scan` with `prefix` placed before the bytes it read.
pub open spec fn scan_after(prefix: Seq<u8>, scan: ShaScan) -> ShaScan {
    match scan {
        ShaScan::Bytes(rest) => ShaScan::Bytes(prefix + rest),
        other => other,
    }
}

/// Reads the groups `b[i..i+2]`, `b[i+2..i+4]`, ... of the UTF-8 text `b`,
/// stopping at the first group that is not a number.
pub open spec fn sha_scan(b: Seq<u8>, i: int) -> ShaScan
    decreases b.len() - i,
{
    if i >= b.len() {
        ShaScan::Bytes(Seq::empty())
    } else if i + 2 > b.len() || !vstd::utf8::is_char_boundary(b, i) || !vstd::utf8::is_char_boundary(
        b,
        i + 2,
    ) {
        ShaScan::Panics
    } else {
        match hex_pair_value(b[i], b[i + 1]) {
            None => ShaScan::Invalid,
            Some(v) => scan_after(seq![v], sha_scan(b, i + 2)),
        }
    }
}

/// Where the digest text of `b` would make the reading fail in a panic.
pub open spec fn sha_text_panics(b: Seq<u8>) -> bool {
    sha_scan(b, 7) is Panics
}

/// What `parse_prefixed_sha256` returns for the UTF-8 text `b`.
pub open spec fn sha_parse_result(b: Seq<u8>) -> Result<Seq<u8>, ShaParseError> {
    match sha_scan(b, 7) {
        ShaScan::Bytes(v) => if v.len() == 32 {
            Ok(v)
        } else {
            Err(ShaParseError::WrongLength)
        },
        _ => Err(ShaParseError::InvalidDigit),
    }
}

fn hex_digit(b: u8) -> (r: Option<u8>)
    ensures
        r == hex_digit_value(b),
{
    if 48 <= b && b <= 57 {
        Some(b - 48)
    } else if 97 <= b && b <= 102 {
        Some(b - 87)
    } else if 65 <= b && b <= 70 {
        Some(b - 55)
    } else {
        None
    }
}

fn hex_pair(hi: u8, lo: u8) -> (r: Option<u8>)
    ensures
        r == hex_pair_value(hi, lo),
{
    if hi == 43 {
        hex_digit(lo)
    } else {
        match (hex_digit(hi), hex_digit(lo)) {
            (Some(h), Some(l)) => Some(h * 16 + l),
            _ => None,
        }
    }
}

/// Whether reading the digest text `sha_str` would cut a two-byte group past
/// its end or inside a character, the inputs `parse_prefixed_sha256` does not
/// take.
pub fn digest_text_panics(sha_str: &str) -> (b: bool)
    ensures
        b == sha_text_panics(sha_str.spec_bytes()),
{
    let bytes = sha_str.as_bytes();
    let n = bytes.len();
    let ghost bs = sha_str.spec_bytes();
    let mut i: usize = 7;
    while i < n
        invariant
            n == bs.len(),
            bytes@ == bs,
            bs == sha_str.spec_bytes(),
            7 <= i,
            (sha_scan(bs, 7) is Panics) == (sha_scan(bs, i as int) is Panics),
        decreases n - i,
    {
        if n - i < 2 || !sha_str.is_char_boundary(i) || !sha_str.is_char_boundary(i + 2) {
            return true;
        }
        match hex_pair(bytes[i], bytes[i + 1]) {
            None => {
                return false;
            },
            Some(_) => {
                i = i + 2;
            },
        }
    }
    false
}

/// Parses a digest written as a 7-character prefix (such as `sha256:`, which is
/// not checked) followed by 64 hexadecimal digits, two per byte.
///
/// The text after the prefix is read in two-byte groups, each a base-16 `u8`
/// (digits of either case, or `+` and one digit); the first group that is not a
/// number gives `InvalidDigit`, and a text whose groups do not make 32 bytes
/// gives `WrongLength`. Texts where a group would be cut past the end or inside
/// a character are outside the domain.
pub fn parse_prefixed_sha256(sha_str: &str) -> (r: Result<[u8; 32], ShaParseError>)
    requires
        !sha_text_panics(sha_str.spec_bytes()),
    ensures
        match sha_parse_result(sha_str.spec_bytes()) {
            Ok(v) => r matches Ok(d) && d@ == v,
            Err(e) => r == Err::<[u8; 32], ShaParseError>(e),
        },
{
    let bytes = sha_str.as_bytes();
    let n = bytes.len();
    let ghost b = sha_str.spec_bytes();
    let mut out: Vec<u8> = Vec::new();
    let mut i: usize = 7;
    while i < n
        invariant
            n == b.len(),
            b == sha_str.spec_bytes(),
            bytes@ == b,
            7 <= i,
            sha_scan(b, 7) == scan_after(out@, sha_scan(b, i as int)),
            !(sha_scan(b, 7) is Panics),
        decreases n - i,
    {
        assert(!(sha_scan(b, i as int) is Panics));
        let v = hex_pair(bytes[i], bytes[i + 1]);
        match v {
            None => {
                assert(sha_scan(b, i as int) is Invalid);
                return Err(ShaParseError::InvalidDigit);
            },
            Some(x) => {
                proof {
                    let rest = sha_scan(b, i + 2);
                    match rest {
                        ShaScan::Bytes(t) => {
                            assert(out@.push(x) + t =~= out@ + (seq![x] + t));
                        },
                        _ => {},
                    }
                }
                out.push(x);
                i = i + 2;
            },
        }
    }
    assert(out@ + Seq::<u8>::empty() =~= out@);
    if out.len() != 32 {
        return Err(ShaParseError::WrongLength);
    }
    let mut arr: [u8; 32] = [0u8; 32];
    let mut k: usize = 0;
    while k < 32
        invariant
            out@.len() == 32,
            k <= 32,
            arr@.len() == 32,
            forall|j: int| 0 <= j < k ==> arr@[j] == out@[j],
        decreases 32 - k,
    {
        arr[k] = out[k];
        k = k + 1;
    }
    assert(arr@ =~= out@);
    Ok(arr)
}

} // verus!

verus! {

/// Lower-case hexadecimal digit for a value below 16.
pub open spec fn hex_lower_digit(v: u8) -> char {
    if v < 10 {
        (48 + v) as char
    } else {
        (87 + v) as char
    }
}

/// Lower-case hexadecimal text of `data`: two digits per byte, high half first.
pub open spec fn hex_lower(data: Seq<u8>) -> Seq<char> {
    Seq::new(
        2 * data.len(),
        |i: int|
            if i % 2 == 0 {
                hex_lower_digit(data[i / 2] / 16)
            } else {
                hex_lower_digit(data[i / 2] % 16)
            },
    )
}

/// Encodes a 32-byte digest as lower-case hexadecimal text (`hex::encode`).
///
/// Trusted: the contract claims the documented output of `hex::encode`, two
/// lower-case digits per byte, high half first, bytes in order.
#[verifier::external_body]
pub(crate) fn encode_hex(data: &[u8; 32]) -> (s: String)
    ensures
        s@ == hex_lower(data@),
{
    hex::encode(data)
}

/// The `sha256:` prefix that image listings put before a digest.
pub open spec fn sha256_prefix() -> Seq<char> {
    seq!['s', 'h', 'a', '2', '5', '6', ':']
}

/// The text `sha256:<hex>` of a digest.
pub open spec fn prefixed_digest_text(d: Seq<u8>) -> Seq<char> {
    sha256_prefix() + hex_lower(d)
}

/// Upper-case hexadecimal digit for a value below 16.
pub open spec fn hex_upper_digit(v: u8) -> char {
    if v < 10 {
        (48 + v) as char
    } else {
        (55 + v) as char
    }
}

/// Upper-case hexadecimal text of `data`: two digits per byte, high half
/// first.
pub open spec fn hex_upper(data: Seq<u8>) -> Seq<char> {
    Seq::new(
        2 * data.len(),
        |i: int|
            if i % 2 == 0 {
                hex_upper_digit(data[i / 2] / 16)
            } else {
                hex_upper_digit(data[i / 2] % 16)
            },
    )
}

/// A hexadecimal digit in either case.
spec fn hex_digit_in(v: u8, upper: bool) -> char {
    if upper {
        hex_upper_digit(v)
    } else {
        hex_lower_digit(v)
    }
}

/// The hexadecimal text of `data` in either case.
spec fn hex_in(data: Seq<u8>, upper: bool) -> Seq<char> {
    if upper {
        hex_upper(data)
    } else {
        hex_lower(data)
    }
}

proof fn lemma_prefixed_text_ascii(d: Seq<u8>, upper: bool)
    ensures
        vstd::utf8::is_ascii_chars(sha256_prefix() + hex_in(d, upper)),
        (sha256_prefix() + hex_in(d, upper)).len() == 7 + 2 * d.len(),
        forall|k: int|
            0 <= k < d.len() ==> {
                &&& #[trigger] ((sha256_prefix() + hex_in(d, upper))[7 + 2 * k] as u8) == hex_digit_in(d[k] / 16, upper) as u8
                &&& ((sha256_prefix() + hex_in(d, upper))[8 + 2 * k] as u8) == hex_digit_in(d[k] % 16, upper) as u8
            },
{
    let h = hex_in(d, upper);
    let t = sha256_prefix() + h;
    assert(h.len() == 2 * d.len());
    assert forall|i: int| 0 <= i < t.len() implies '\0' <= #[trigger] t[i] <= '\u{7f}' by {
        if i >= 7 {
            let v: u8 = if (i - 7) % 2 == 0 { d[(i - 7) / 2] / 16 } else { d[(i - 7) / 2] % 16 };
            assert(0 <= v < 16);
            assert(t[i] == h[i - 7]);
        }
    }
    assert forall|k: int| 0 <= k < d.len() implies {
        &&& #[trigger] (t[7 + 2 * k] as u8) == hex_digit_in(d[k] / 16, upper) as u8
        &&& (t[8 + 2 * k] as u8) == hex_digit_in(d[k] % 16, upper) as u8
    } by {
        assert(t[7 + 2 * k] == h[2 * k]);
        assert(t[8 + 2 * k] == h[2 * k + 1]);
        assert((2 * k) / 2 == k);
        assert((2 * k + 1) / 2 == k);
        assert((2 * k) % 2 == 0);
        assert((2 * k + 1) % 2 == 1);
    }
}

proof fn lemma_hex_digit_reads_back(v: u8, upper: bool)
    requires
        0 <= v < 16,
    ensures
        hex_digit_value(hex_digit_in(v, upper) as u8) == Some(v as u8),
        hex_digit_in(v, upper) as u8 != 43,
{
}

proof fn lemma_scan_digest_text(d: Seq<u8>, b: Seq<u8>, k: int, upper: bool)
    requires
        0 <= k <= d.len(),
        b.len() == 7 + 2 * d.len(),
        vstd::utf8::valid_utf8(b),
        forall|i: int| 0 <= i < b.len() ==> #[trigger] b[i] < 128,
        forall|j: int|
            0 <= j < d.len() ==> {
                &&& #[trigger] b[7 + 2 * j] == hex_digit_in(d[j] / 16, upper) as u8
                &&& b[8 + 2 * j] == hex_digit_in(d[j] % 16, upper) as u8
            },
    ensures
        sha_scan(b, 7 + 2 * k) == ShaScan::Bytes(d.subrange(k, d.len() as int)),
    decreases d.len() - k,
{
    broadcast use vstd::utf8::is_char_boundary_start_end_of_seq;

    let i = 7 + 2 * k;
    if k == d.len() {
        assert(d.subrange(k, d.len() as int) =~= Seq::<u8>::empty());
    } else {
        lemma_scan_digest_text(d, b, k + 1, upper);
        assert(b[i] < 128);
        vstd::utf8::is_char_boundary_iff_not_is_continuation_byte(b, i);
        if i + 2 < b.len() {
            assert(b[i + 2] < 128);
            vstd::utf8::is_char_boundary_iff_not_is_continuation_byte(b, i + 2);
        }
        assert(b[i] == hex_digit_in(d[k] / 16, upper) as u8);
        assert(b[i + 1] == hex_digit_in(d[k] % 16, upper) as u8);
        lemma_hex_digit_reads_back(d[k] / 16, upper);
        lemma_hex_digit_reads_back(d[k] % 16, upper);
        assert(((d[k] / 16) * 16 + d[k] % 16) as u8 == d[k]);
        assert(seq![d[k]] + d.subrange(k + 1, d.len() as int) =~= d.subrange(k, d.len() as int));
    }
}

proof fn lemma_round_trip_in(d: Seq<u8>, upper: bool)
    requires
        d.len() == 32,
    ensures
        !sha_text_panics(vstd::utf8::encode_utf8(sha256_prefix() + hex_in(d, upper))),
        sha_parse_result(vstd::utf8::encode_utf8(sha256_prefix() + hex_in(d, upper))) == Ok::<
            Seq<u8>,
            ShaParseError,
        >(d),
{
    let t = sha256_prefix() + hex_in(d, upper);
    let b = vstd::utf8::encode_utf8(t);
    lemma_prefixed_text_ascii(d, upper);
    vstd::utf8::is_ascii_chars_encode_utf8(t);
    vstd::utf8::encode_utf8_valid_utf8(t);
    assert forall|i: int| 0 <= i < b.len() implies #[trigger] b[i] < 128 by {
        assert(t[i] as u8 == b[i]);
        assert('\0' <= t[i] <= '\u{7f}');
    }
    assert forall|j: int| 0 <= j < d.len() implies {
        &&& #[trigger] b[7 + 2 * j] == hex_digit_in(d[j] / 16, upper) as u8
        &&& b[8 + 2 * j] == hex_digit_in(d[j] % 16, upper) as u8
    } by {
        assert(t[7 + 2 * j] as u8 == b[7 + 2 * j]);
        assert(t[8 + 2 * j] as u8 == b[8 + 2 * j]);
    }
    lemma_scan_digest_text(d, b, 0, upper);
    assert(d.subrange(0, 32) =~= d);
}

/// Reading back a digest written as `sha256:` and its lower-case hexadecimal
/// text gives the digest again: `parse_prefixed_sha256` undoes `encode_hex`.
pub proof fn lemma_digest_text_round_trip(d: Seq<u8>)
    requires
        d.len() == 32,
    ensures
        !sha_text_panics(vstd::utf8::encode_utf8(prefixed_digest_text(d))),
        sha_parse_result(vstd::utf8::encode_utf8(prefixed_digest_text(d))) == Ok::<
            Seq<u8>,
            ShaParseError,
        >(d),
{
    lemma_round_trip_in(d, false);
}

/// Reading back a digest written as `sha256:` and its upper-case
/// hexadecimal text gives the digest again as well.
pub proof fn lemma_upper_digest_text_round_trip(d: Seq<u8>)
    requires
        d.len() == 32,
    ensures
        !sha_text_panics(vstd::utf8::encode_utf8(sha256_prefix() + hex_upper(d))),
        sha_parse_result(vstd::utf8::encode_utf8(sha256_prefix() + hex_upper(d))) == Ok::<
            Seq<u8>,
            ShaParseError,
        >(d),
{
    lemma_round_trip_in(d, true);
}

} // verus!
