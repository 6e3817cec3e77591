use vstd::prelude::*;

verus! {

/// The SHA-256 digest of a byte sequence, as 32 bytes. The digest is a pure
/// function of the input bytes; its value is not given here, only used as a
/// name that the integrity checks below are stated over.
pub uninterp spec fn sha256_of(bytes: Seq<u8>) -> Seq<u8>;

/// Relies on sha2::Sha256::digest: the digest of a byte slice depends on the
/// bytes alone and is always exactly 32 bytes long.
#[verifier::external_body]
fn sha256_bytes(bytes: &[u8]) -> (r: Vec<u8>)
    ensures
        r@ == sha256_of(bytes@),
        r@.len() == 32,
{
    <sha2::Sha256 as sha2::Digest>::digest(bytes).as_slice().to_vec()
}

/// The lowercase hexadecimal digit for a value below 16.
pub open spec fn hex_char_of(n: u8) -> char {
    if n == 0 {
        '0'
    } else if n == 1 {
        '1'
    } else if n == 2 {
        '2'
    } else if n == 3 {
        '3'
    } else if n == 4 {
        '4'
    } else if n == 5 {
        '5'
    } else if n == 6 {
        '6'
    } else if n == 7 {
        '7'
    } else if n == 8 {
        '8'
    } else if n == 9 {
        '9'
    } else if n == 10 {
        'a'
    } else if n == 11 {
        'b'
    } else if n == 12 {
        'c'
    } else if n == 13 {
        'd'
    } else if n == 14 {
        'e'
    } else {
        'f'
    }
}

/// The lowercase hexadecimal rendering of a byte sequence: two digits per
/// byte, high nibble first.
pub open spec fn hex_of(bytes: Seq<u8>) -> Seq<char> {
    Seq::new(bytes.len() * 2, |i: int| hex_char_of(hex_nibble(bytes, i)))
}

/// The nibble rendered at position `i` of the hexadecimal form of `bytes`.
pub open spec fn hex_nibble(bytes: Seq<u8>, i: int) -> u8 {
    if i % 2 == 0 {
        (bytes[i / 2] / 16) as u8
    } else {
        (bytes[i / 2] % 16) as u8
    }
}

/// The hex digest a run compares against: the digest bytes, rendered in hex.
pub open spec fn sha256_hex_of(bytes: Seq<u8>) -> Seq<char> {
    hex_of(sha256_of(bytes))
}

/// Relies on String::from_utf8: a vector of ASCII bytes decodes to the string
/// of exactly those characters. The `requires` keeps every byte in ASCII
/// range, so decoding cannot fail or regroup bytes into wider characters.
#[verifier::external_body]
fn ascii_to_string(bytes: Vec<u8>) -> (r: String)
    requires
        forall|i: int| 0 <= i < bytes@.len() ==> bytes@[i] < 128,
    ensures
        r@ == bytes@.map_values(|b: u8| b as char),
{
    String::from_utf8(bytes).unwrap_or_default()
}

/// Renders a byte sequence as a lowercase hexadecimal string.
pub fn to_hex(bytes: &[u8]) -> (r: String)
    requires
        bytes@.len() * 2 <= usize::MAX,
    ensures
        r@ == hex_of(bytes@),
{
    let mut out: Vec<u8> = Vec::new();
    let mut i: usize = 0;
    while i < bytes.len()
        invariant
            0 <= i <= bytes@.len(),
            bytes@.len() * 2 <= usize::MAX,
            out@.len() == 2 * i,
            forall|j: int| 0 <= j < out@.len() ==> out@[j] < 128,
            forall|j: int|
                0 <= j < out@.len() ==> (#[trigger] out@[j]) as char == hex_char_of(
                    hex_nibble(bytes@, j),
                ),
        decreases bytes@.len() - i,
    {
        let b = bytes[i];
        let hi = hex_char_to_byte(b / 16);
        let lo = hex_char_to_byte(b % 16);
        proof {
            assert(hex_nibble(bytes@, 2 * i as int) == b / 16);
            assert(hex_nibble(bytes@, 2 * i as int + 1) == b % 16);
        }
        out.push(hi);
        out.push(lo);
        i += 1;
    }
    let r = ascii_to_string(out);
    proof {
        assert(r@ =~= hex_of(bytes@));
    }
    r
}

fn hex_char_to_byte(n: u8) -> (c: u8)
    requires
        n < 16,
    ensures
        c < 128,
        c as char == hex_char_of(n),
{
    if n < 10 {
        48 + n
    } else {
        97 + (n - 10)
    }
}

/// The lowercase hex SHA-256 digest of a byte slice.
pub fn sha256_hex(bytes: &[u8]) -> (r: String)
    ensures
        r@ == sha256_hex_of(bytes@),
{
    let digest = sha256_bytes(bytes);
    to_hex(digest.as_slice())
}

/// Reports whether `expected` is exactly the lowercase hex SHA-256 digest of
/// `bytes`. A digest string of the wrong length, in uppercase, or with any
/// non-digest character never matches.
pub fn digest_matches(bytes: &[u8], expected: &String) -> (r: bool)
    ensures
        r == (expected@ == sha256_hex_of(bytes@)),
{
    let actual = sha256_hex(bytes);
    actual == *expected
}

/// Reported when a downloaded byte sequence does not hash to the digest the
/// manifest declares for it.
#[derive(Debug)]
pub struct IntegrityError {
    /// The digest the manifest declares.
    pub expected: String,
    /// The digest of the bytes that actually arrived.
    pub found: String,
}

/// The integrity gate for downloaded content: accepts the bytes exactly when
/// their SHA-256 digest equals the digest the manifest declares. Rejected
/// bytes must not be written; the error reports both digests.
pub fn verify_download(bytes: &[u8], expected: &String) -> (r: Result<(), IntegrityError>)
    ensures
        r is Ok <==> expected@ == sha256_hex_of(bytes@),
        r matches Err(e) ==> e.expected@ == expected@ && e.found@ == sha256_hex_of(bytes@),
{
    let found = sha256_hex(bytes);
    if found == *expected {
        Ok(())
    } else {
        Err(IntegrityError { expected: expected.clone(), found })
    }
}

} // verus!
