//! Checksum computation and validation.
//!
//! A message's checksum is the lowercase hex SHA-256 digest of its
//! payload bytes, with the bytes of a configured shared secret
//! appended before hashing. A checksum supplied by a caller is
//! compared against the computed one ASCII-case-insensitively.

use sha2::Digest;
use vstd::prelude::*;
use vstd::string::StrSliceExecFns;
use vstd::string::StringExecFns;
use vstd::string::StringSliceAdditionalSpecFns;
use vstd::utf8::encode_utf8;
use vstd::utf8::is_ascii_chars;

verus! {

/// The SHA-256 digest of a byte sequence; it depends on the bytes
/// alone.
pub uninterp spec fn sha256_of(data: Seq<u8>) -> Seq<u8>;

/// Relies on `sha2::Sha256::digest`: the digest is a function of the
/// input bytes alone, and is 32 bytes long.
#[verifier::external_body]
fn sha256_digest(data: &[u8]) -> (r: Vec<u8>)
    ensures
        r@ == sha256_of(data@),
        r@.len() == 32,
{
    sha2::Sha256::digest(data).to_vec()
}

/// The lowercase hex digit (as an ASCII byte) for a value below 16.
pub open spec fn hex_digit(n: u8) -> u8
    recommends
        n < 16,
{
    if n < 10 {
        (48 + n) as u8
    } else {
        (87 + n) as u8
    }
}

/// The lowercase hex encoding of `data`: two digits for each byte,
/// high four bits first.
pub open spec fn hex_chars_of(data: Seq<u8>) -> Seq<char> {
    Seq::new(
        2 * data.len(),
        |i: int|
            (if i % 2 == 0 {
                hex_digit((data[i / 2] / 16) as u8)
            } else {
                hex_digit((data[i / 2] % 16) as u8)
            }) as char,
    )
}

/// A hex encoding only holds ASCII characters.
pub proof fn lemma_hex_chars_ascii(data: Seq<u8>)
    ensures
        is_ascii_chars(hex_chars_of(data)),
{
    assert forall|i| 0 <= i < hex_chars_of(data).len() implies '\0' <= #[trigger] hex_chars_of(
        data,
    )[i] <= '\u{7f}' by {
        let b = data[i / 2];
        assert(b / 16 < 16 && b % 16 < 16);
    }
}

/// The single-character string for one lowercase hex digit.
fn hex_digit_str(n: u8) -> (r: &'static str)
    requires
        n < 16,
    ensures
        r@.len() == 1,
        r@[0] == hex_digit(n) as char,
{
    proof {
        reveal_strlit("0");
        reveal_strlit("1");
        reveal_strlit("2");
        reveal_strlit("3");
        reveal_strlit("4");
        reveal_strlit("5");
        reveal_strlit("6");
        reveal_strlit("7");
        reveal_strlit("8");
        reveal_strlit("9");
        reveal_strlit("a");
        reveal_strlit("b");
        reveal_strlit("c");
        reveal_strlit("d");
        reveal_strlit("e");
        reveal_strlit("f");
    }
    match n {
        0 => "0",
        1 => "1",
        2 => "2",
        3 => "3",
        4 => "4",
        5 => "5",
        6 => "6",
        7 => "7",
        8 => "8",
        9 => "9",
        10 => "a",
        11 => "b",
        12 => "c",
        13 => "d",
        14 => "e",
        _ => "f",
    }
}

/// Encode `data` as a lowercase hex string.
pub fn to_hex(data: &Vec<u8>) -> (r: String)
    ensures
        r@ == hex_chars_of(data@),
{
    let mut r = String::new();
    let mut i: usize = 0;
    while i < data.len()
        invariant
            i <= data.len(),
            r@ =~= hex_chars_of(data@.take(i as int)),
        decreases data.len() - i,
    {
        let b = data[i];
        r.append(hex_digit_str(b / 16));
        r.append(hex_digit_str(b % 16));
        i += 1;
        proof {
            assert(r@ =~= hex_chars_of(data@.take(i as int)));
        }
    }
    proof {
        assert(data@.take(data@.len() as int) =~= data@);
    }
    r
}

/// The ASCII lowercase of one byte.
pub open spec fn spec_lower(b: u8) -> u8 {
    if 65 <= b && b <= 90 {
        (b + 32) as u8
    } else {
        b
    }
}

fn lower_byte(b: u8) -> (r: u8)
    ensures
        r == spec_lower(b),
{
    if b >= 65 && b <= 90 {
        b + 32
    } else {
        b
    }
}

/// A supplied checksum (as bytes) matches a computed lowercase hex
/// digest when the two agree up to ASCII case.
pub open spec fn checksum_accepts(supplied: Seq<u8>, digest_hex: Seq<char>) -> bool {
    &&& supplied.len() == digest_hex.len()
    &&& forall|i: int|
        0 <= i < supplied.len() ==> spec_lower(supplied[i]) == #[trigger] digest_hex[i] as u8
}

/// Compare a supplied checksum against the computed one,
/// ASCII-case-insensitively.
pub fn checksum_matches(supplied: &str, computed: &str) -> (r: bool)
    requires
        is_ascii_chars(computed@),
    ensures
        r == checksum_accepts(encode_utf8(supplied@), computed@),
{
    proof {
        vstd::utf8::is_ascii_chars_encode_utf8(computed@);
    }
    let sup = supplied.as_bytes_vec();
    let comp = computed.as_bytes_vec();
    if sup.len() != comp.len() {
        return false;
    }
    let mut i: usize = 0;
    while i < sup.len()
        invariant
            i <= sup.len(),
            sup.len() == comp.len(),
            sup@ == encode_utf8(supplied@),
            comp@ == encode_utf8(computed@),
            comp@.len() == computed@.len(),
            forall|j: int| 0 <= j < comp@.len() ==> computed@[j] as u8 == #[trigger] comp@[j],
            forall|j: int|
                0 <= j < i ==> spec_lower(sup@[j]) == #[trigger] computed@[j] as u8,
        decreases sup.len() - i,
    {
        if lower_byte(sup[i]) != comp[i] {
            return false;
        }
        i += 1;
    }
    true
}

/// The checksum the admission controller computes: the lowercase hex
/// SHA-256 digest of the UTF-8 bytes of `contents` followed by those
/// of `secret`.
pub open spec fn spec_checksum(contents: Seq<char>, secret: Seq<char>) -> Seq<char> {
    hex_chars_of(sha256_of(encode_utf8(contents) + encode_utf8(secret)))
}

/// Compute the checksum of `contents` salted with `secret`.
pub fn compute_checksum(contents: &str, secret: &str) -> (r: String)
    ensures
        r@ == spec_checksum(contents@, secret@),
        r@.len() == 64,
{
    let mut data = contents.as_bytes_vec();
    let mut tail = secret.as_bytes_vec();
    data.append(&mut tail);
    proof {
        assert(data@ == encode_utf8(contents@) + encode_utf8(secret@));
    }
    let digest = sha256_digest(data.as_slice());
    to_hex(&digest)
}

} // verus!
