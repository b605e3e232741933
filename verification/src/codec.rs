//! Byte-level primitives: the SHA-512 digest, lowercase hex encoding, the
//! passphrase-seeded keystream, and the self-inverse XOR transform that
//! encrypts and decrypts credential bytes.

use vstd::prelude::*;

use rand_core::Rng;
use rand_core::SeedableRng;
use rand_hc::Hc128Rng;
use sha2::Digest;
use sha2::Sha512;

verus! {

/// The SHA-512 digest of a byte sequence. The digest depends on the input
/// bytes alone; its value is stated nowhere, only named.
pub uninterp spec fn sha512_of(data: Seq<u8>) -> Seq<u8>;

/// Byte `i` of the pseudorandom stream that an HC-128 generator produces from
/// the given 32-byte seed. The stream depends on the seed alone.
pub uninterp spec fn hc128_byte(seed: Seq<u8>, i: int) -> u8;

/// Relies on `sha2::Sha512` (through `Digest::digest`): a 512-bit (64-byte)
/// digest that is a function of the input bytes alone.
#[verifier::external_body]
pub(crate) fn sha512_bytes(data: &[u8]) -> (r: Vec<u8>)
    ensures
        r@ == sha512_of(data@),
        r@.len() == 64,
{
    Sha512::digest(data).to_vec()
}

/// Relies on `rand_hc::Hc128Rng::from_seed` and `Rng::fill_bytes`: a freshly
/// seeded generator fills the buffer with the first `n` bytes of a stream
/// that is a function of the 32-byte seed alone.
#[verifier::external_body]
fn hc128_bytes(seed: &[u8], n: usize) -> (r: Vec<u8>)
    requires
        seed@.len() == 32,
    ensures
        r@.len() == n,
        forall|i: int| 0 <= i < n ==> r@[i] == hc128_byte(seed@, i),
{
    let mut rng = Hc128Rng::from_seed(seed.try_into().unwrap());
    let mut buf = vec![0u8; n];
    rng.fill_bytes(&mut buf);
    buf
}

/// The seed handed to the stream generator: the first 32 bytes of the
/// SHA-512 digest of the passphrase bytes.
pub open spec fn seed_of(key: Seq<u8>) -> Seq<u8> {
    sha512_of(key).take(32)
}

/// Byte `i` of the keystream for a passphrase: the passphrase's own bytes,
/// verbatim, then generator output.
pub open spec fn keystream_byte(key: Seq<u8>, i: int) -> u8 {
    if i < key.len() {
        key[i]
    } else {
        hc128_byte(seed_of(key), i - key.len())
    }
}

/// The XOR of each data byte with the matching keystream byte. The result
/// has the length of the data.
pub open spec fn spec_transform(data: Seq<u8>, key: Seq<u8>) -> Seq<u8> {
    Seq::new(data.len(), |i: int| data[i] ^ keystream_byte(key, i))
}

/// Applying the transform twice with the same passphrase returns the
/// original bytes: the cipher is self-inverse.
pub proof fn lemma_transform_involutive(data: Seq<u8>, key: Seq<u8>)
    ensures
        spec_transform(spec_transform(data, key), key) == data,
{
    let once = spec_transform(data, key);
    let twice = spec_transform(once, key);
    assert forall|i: int| 0 <= i < data.len() implies twice[i] == data[i] by {
        let d = data[i];
        let k = keystream_byte(key, i);
        assert(((d ^ k) ^ k) == d) by (bit_vector);
    }
    assert(twice =~= data);
}

/// XORs `data` with the keystream derived from `key`: the passphrase bytes
/// first, then HC-128 output seeded from the passphrase's SHA-512 digest.
pub fn transform(data: &[u8], key: &[u8]) -> (r: Vec<u8>)
    ensures
        r@ == spec_transform(data@, key@),
{
    let mut stream: Vec<u8> = Vec::new();
    if data.len() > key.len() {
        let mut seed = sha512_bytes(key);
        seed.truncate(32);
        proof {
            assert(seed@ =~= seed_of(key@));
        }
        stream = hc128_bytes(seed.as_slice(), data.len() - key.len());
    }
    let mut out: Vec<u8> = Vec::new();
    let mut i: usize = 0;
    while i < data.len()
        invariant
            i <= data@.len(),
            out@.len() == i,
            data@.len() > key@.len() ==> {
                &&& stream@.len() == data@.len() - key@.len()
                &&& forall|j: int|
                    0 <= j < stream@.len() ==> stream@[j] == hc128_byte(seed_of(key@), j)
            },
            forall|j: int| 0 <= j < i ==> out@[j] == (data@[j] ^ keystream_byte(key@, j)),
        decreases data@.len() - i,
    {
        let b = if i < key.len() {
            data[i] ^ key[i]
        } else {
            data[i] ^ stream[i - key.len()]
        };
        out.push(b);
        i = i + 1;
    }
    proof {
        assert(out@ =~= spec_transform(data@, key@));
    }
    out
}

/// The lowercase hex digit for a value below 16.
pub open spec fn hex_digit(n: u8) -> char
    recommends
        n < 16,
{
    if n < 10 {
        ((n + 48) as u8) as char
    } else {
        ((n + 87) as u8) as char
    }
}

/// The lowercase hex encoding of a byte sequence: two digits per byte, the
/// high nibble first.
pub open spec fn hex_of(bytes: Seq<u8>) -> Seq<char> {
    Seq::new(
        bytes.len() * 2,
        |i: int|
            if i % 2 == 0 {
                hex_digit(bytes[i / 2] / 16)
            } else {
                hex_digit(bytes[i / 2] % 16)
            },
    )
}

/// Relies on `String::push`: appends exactly the given character.
#[verifier::external_body]
fn push_char(s: &mut String, c: char)
    ensures
        final(s)@ == old(s)@.push(c),
{
    s.push(c);
}

fn hex_digit_exec(n: u8) -> (c: char)
    requires
        n < 16,
    ensures
        c == hex_digit(n),
{
    if n < 10 {
        (n + 48) as char
    } else {
        (n + 87) as char
    }
}

/// Encodes bytes as lowercase hex text, two digits per byte.
pub fn to_hex(bytes: &[u8]) -> (r: String)
    ensures
        r@ == hex_of(bytes@),
{
    let mut r = String::new();
    let mut i: usize = 0;
    while i < bytes.len()
        invariant
            i <= bytes@.len(),
            r@.len() == 2 * i,
            forall|j: int| 0 <= j < r@.len() ==> r@[j] == hex_of(bytes@)[j],
        decreases bytes@.len() - i,
    {
        let b = bytes[i];
        let hi = hex_digit_exec(b / 16);
        let lo = hex_digit_exec(b % 16);
        push_char(&mut r, hi);
        push_char(&mut r, lo);
        i = i + 1;
    }
    proof {
        assert(r@ =~= hex_of(bytes@));
    }
    r
}

} // verus!
