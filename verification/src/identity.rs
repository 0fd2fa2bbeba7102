//! Identities, checksums and the wall clock.
use vstd::prelude::*;

verus! {

/// The digit for a value below sixteen, in lower case.
pub open spec fn hex_digit(n: u8) -> char {
    if n < 10 {
        (n + 0x30) as char
    } else {
        (n - 10 + 0x61) as char
    }
}

/// Each byte as two hexadecimal digits in lower case.
pub open spec fn hex(bytes: Seq<u8>) -> Seq<char> {
    Seq::new(
        (2 * bytes.len()) as nat,
        |i: int|
            if i % 2 == 0 {
                hex_digit(bytes[i / 2] / 16)
            } else {
                hex_digit(bytes[i / 2] % 16)
            },
    )
}

fn digit(n: u8) -> (r: char)
    requires
        n < 16,
    ensures
        r == hex_digit(n),
{
    if n < 10 {
        (n + 0x30) as char
    } else {
        (n - 10 + 0x61) as char
    }
}

/// The SHA-256 checksum of a byte string.
pub uninterp spec fn sha256(bytes: Seq<u8>) -> Seq<u8>;

/// Calls `sha2::Sha256::digest`: the checksum is a function of the bytes, thirty-two bytes long.
#[verifier::external_body]
fn sha256_bytes(bytes: &[u8]) -> (r: Vec<u8>)
    ensures
        r@ == sha256(bytes@),
        r@.len() == 32,
{
    <sha2::Sha256 as sha2::Digest>::digest(bytes).to_vec()
}

/// The bytes in hexadecimal.
pub fn to_hex(bytes: &Vec<u8>) -> (r: String)
    ensures
        r@ == hex(bytes@),
{
    let mut out: Vec<char> = Vec::new();
    let mut i: usize = 0;
    while i < bytes.len()
        invariant
            i <= bytes@.len(),
            out@.len() == 2 * i,
            forall|k: int| 0 <= k < 2 * i ==> out@[k] == hex(bytes@)[k],
        decreases bytes@.len() - i,
    {
        let b: u8 = bytes[i];
        let ghost before = out@;
        out.push(digit(b / 16));
        out.push(digit(b % 16));
        proof {
            let i0 = i as int;
            assert((2 * i0) / 2 == i0 && (2 * i0 + 1) / 2 == i0);
            assert((2 * i0) % 2 == 0 && (2 * i0 + 1) % 2 == 1);
        }
        i += 1;
    }
    assert(out@ =~= hex(bytes@));
    crate::text::string_of(&out)
}

/// The checksum of a serialized value, in hexadecimal.
pub fn digest(bytes: &[u8]) -> (r: String)
    ensures
        r@ == hex(sha256(bytes@)),
        r@.len() == 64,
{
    let sum: Vec<u8> = sha256_bytes(bytes);
    to_hex(&sum)
}

/// A hexadecimal digit in lower case.
pub open spec fn is_hex(c: char) -> bool {
    0x30 <= c as u32 <= 0x39 || 0x61 <= c as u32 <= 0x66
}

/// The shape of a random identity: hexadecimal digits in five groups, of version four and the
/// variant of RFC 4122.
pub open spec fn identity_shape(s: Seq<char>) -> bool {
    &&& s.len() == 36
    &&& s[8] == '-' && s[13] == '-' && s[18] == '-' && s[23] == '-'
    &&& s[14] == '4'
    &&& s[19] == '8' || s[19] == '9' || s[19] == 'a' || s[19] == 'b'
    &&& forall|i: int|
        0 <= i < 36 && i != 8 && i != 13 && i != 18 && i != 23 ==> is_hex(#[trigger] s[i])
}

/// Calls `uuid::Uuid::new_v4` and its `Display`: a random identity in hyphenated form. Nothing
/// is said of which one comes.
#[verifier::external_body]
fn random_identity() -> (r: String)
    ensures
        identity_shape(r@),
{
    uuid::Uuid::new_v4().to_string()
}

/// A new random identity.
pub fn id() -> (r: String)
    ensures
        identity_shape(r@),
{
    random_identity()
}

/// Calls `std::time::SystemTime::now` and `duration_since` on the Unix epoch: whole seconds and
/// the nanoseconds beyond, nothing where the clock stands before the epoch.
#[verifier::external_body]
fn since_epoch() -> (r: Option<(u64, u32)>)
    ensures
        r matches Some((_, nanos)) ==> nanos < 1_000_000_000,
{
    match std::time::SystemTime::now().duration_since(std::time::UNIX_EPOCH) {
        Ok(elapsed) => Some((elapsed.as_secs(), elapsed.subsec_nanos())),
        Err(_) => None,
    }
}

/// Milliseconds of an elapsed time, in the low sixty-four bits; nothing counts as zero.
pub open spec fn elapsed_ms(elapsed: Option<(u64, u32)>) -> int {
    match elapsed {
        Some((secs, nanos)) => (secs * 1000 + nanos / 1_000_000) % 0x1_0000_0000_0000_0000,
        None => 0,
    }
}

/// The milliseconds of an elapsed time.
pub fn millis(elapsed: Option<(u64, u32)>) -> (r: u64)
    ensures
        r == elapsed_ms(elapsed),
{
    match elapsed {
        Some((secs, nanos)) => {
            let whole: u128 = secs as u128 * 1000 + (nanos / 1_000_000) as u128;
            (whole % 0x1_0000_0000_0000_0000) as u64
        },
        None => 0,
    }
}

/// Milliseconds since the Unix epoch by the wall clock.
pub fn now_ms() -> (r: u64)
    ensures
        exists|elapsed: Option<(u64, u32)>| r == #[trigger] elapsed_ms(elapsed),
{
    millis(since_epoch())
}

/// What a hexadecimal digit stands for.
pub open spec fn digit_value(c: char) -> int {
    if c as u32 <= 0x39 {
        c as u32 - 0x30
    } else {
        c as u32 - 0x61 + 10
    }
}

/// Bytes can be read back from their digits: two for each byte, the higher half first.
pub proof fn lemma_hex_reads_back(bytes: Seq<u8>, i: int)
    requires
        0 <= i < bytes.len(),
    ensures
        hex(bytes).len() == 2 * bytes.len(),
        is_hex(hex(bytes)[2 * i]) && is_hex(hex(bytes)[2 * i + 1]),
        digit_value(hex(bytes)[2 * i]) * 16 + digit_value(hex(bytes)[2 * i + 1]) == bytes[i],
{
    assert((2 * i) / 2 == i && (2 * i) % 2 == 0);
    assert((2 * i + 1) / 2 == i && (2 * i + 1) % 2 == 1);
}

/// An elapsed time in milliseconds is its seconds and the whole milliseconds of the rest.
pub proof fn lemma_elapsed_ms(secs: u64, nanos: u32)
    requires
        secs * 1000 + nanos / 1_000_000 <= u64::MAX,
    ensures
        elapsed_ms(Some((secs, nanos))) == secs * 1000 + nanos / 1_000_000,
        elapsed_ms(None) == 0,
{
}

} // verus!
