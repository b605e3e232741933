//! The credential value: a password held in the clear, as an irreversible
//! SHA-512 hex digest, or encrypted under the keystream cipher, with the
//! operations that hash, encrypt, decrypt and compare it.

use vstd::prelude::*;
use vstd::std_specs::cmp::PartialEqSpec;
use vstd::utf8::decode_utf8;
use vstd::utf8::decode_utf8_encode_utf8;
use vstd::utf8::encode_utf8;
use vstd::utf8::encode_utf8_decode_utf8;
use vstd::utf8::encode_utf8_valid_utf8;
use vstd::utf8::valid_utf8;

use crate::codec::hex_of;
use crate::codec::sha512_bytes;
use crate::codec::sha512_of;
use crate::codec::spec_transform;
use crate::codec::to_hex;
use crate::codec::transform;

verus! {

/// A passkey used to verify or store a password: a hash of a password, a
/// plaintext password, or an encrypted password. Encryption XORs the bytes
/// with a keystream that starts with the passphrase's own bytes and continues
/// with HC-128 output seeded from the passphrase's SHA-512 digest.
#[derive(Debug)]
pub enum Passkey {
    Hash(String),
    Plain(String),
    Encrypted(Vec<u8>),
}

/// The mathematical value of a `Passkey`: its text as a character sequence,
/// or its ciphertext as a byte sequence.
pub enum PasskeyView {
    Hash(Seq<char>),
    Plain(Seq<char>),
    Encrypted(Seq<u8>),
}

impl View for Passkey {
    type V = PasskeyView;

    open spec fn view(&self) -> PasskeyView {
        match self {
            Passkey::Hash(t) => PasskeyView::Hash(t@),
            Passkey::Plain(t) => PasskeyView::Plain(t@),
            Passkey::Encrypted(c) => PasskeyView::Encrypted(c@),
        }
    }
}

/// The lowercase hex SHA-512 digest of a secret's UTF-8 bytes.
pub open spec fn digest_text(s: Seq<char>) -> Seq<char> {
    hex_of(sha512_of(encode_utf8(s)))
}

/// What `Passkey::hash` returns, as text: the digest itself for a hash, the
/// digest of the secret for a plaintext, and for a ciphertext the digest of
/// the recovered secret — `None` without a passphrase, or when the recovered
/// bytes are not valid text.
pub open spec fn spec_hash(p: PasskeyView, key: Option<Seq<char>>) -> Option<Seq<char>> {
    match p {
        PasskeyView::Hash(h) => Some(h),
        PasskeyView::Plain(s) => Some(digest_text(s)),
        PasskeyView::Encrypted(c) => match key {
            Some(k) => {
                let recovered = spec_transform(c, encode_utf8(k));
                if valid_utf8(recovered) {
                    Some(hex_of(sha512_of(recovered)))
                } else {
                    None
                }
            },
            None => None,
        },
    }
}

/// What `Passkey::encrypt` returns: `None` for a hash, the transformed secret
/// bytes for a plaintext, and the value unchanged for a ciphertext.
pub open spec fn spec_encrypt(p: PasskeyView, key: Seq<char>) -> Option<PasskeyView> {
    match p {
        PasskeyView::Hash(_) => None,
        PasskeyView::Plain(s) => Some(
            PasskeyView::Encrypted(spec_transform(encode_utf8(s), encode_utf8(key))),
        ),
        PasskeyView::Encrypted(c) => Some(PasskeyView::Encrypted(c)),
    }
}

/// What `Passkey::decrypt` returns: `None` for a hash, the value unchanged
/// for a plaintext, and for a ciphertext the transformed bytes read as text —
/// `None` when they are not valid text.
pub open spec fn spec_decrypt(p: PasskeyView, key: Seq<char>) -> Option<PasskeyView> {
    match p {
        PasskeyView::Hash(_) => None,
        PasskeyView::Plain(s) => Some(PasskeyView::Plain(s)),
        PasskeyView::Encrypted(c) => {
            let recovered = spec_transform(c, encode_utf8(key));
            if valid_utf8(recovered) {
                Some(PasskeyView::Plain(decode_utf8(recovered)))
            } else {
                None
            }
        },
    }
}

/// What `Passkey::check` returns: two ciphertexts compare by their raw bytes;
/// any other pair compares by digest, and a failed digest means not equal.
pub open spec fn spec_check(a: PasskeyView, b: PasskeyView, key: Option<Seq<char>>) -> bool {
    if a is Encrypted && b is Encrypted {
        a->Encrypted_0 == b->Encrypted_0
    } else {
        match (spec_hash(a, key), spec_hash(b, key)) {
            (Some(ha), Some(hb)) => ha == hb,
            _ => false,
        }
    }
}

/// The optional passphrase as an optional character sequence.
pub open spec fn key_view(key: Option<&String>) -> Option<Seq<char>> {
    match key {
        Some(k) => Some(k@),
        None => None,
    }
}

/// Relies on `String::from_utf8`: succeeds exactly on valid UTF-8 input and
/// returns the text that the bytes encode.
#[verifier::external_body]
fn bytes_to_string(bytes: Vec<u8>) -> (r: Option<String>)
    ensures
        r is Some <==> valid_utf8(bytes@),
        r matches Some(s) ==> s@ == decode_utf8(bytes@),
{
    String::from_utf8(bytes).ok()
}

impl Clone for Passkey {
    fn clone(&self) -> (r: Self)
        ensures
            r@ == self@,
    {
        match self {
            Passkey::Hash(t) => Passkey::Hash(t.clone()),
            Passkey::Plain(t) => Passkey::Plain(t.clone()),
            Passkey::Encrypted(c) => {
                let r = c.clone();
                proof {
                    assert(c@ =~= r@);
                }
                Passkey::Encrypted(r)
            },
        }
    }
}

impl PartialEq for Passkey {
    fn eq(&self, other: &Passkey) -> (r: bool) {
        match (self, other) {
            (Passkey::Hash(a), Passkey::Hash(b)) => *a == *b,
            (Passkey::Plain(a), Passkey::Plain(b)) => *a == *b,
            (Passkey::Encrypted(a), Passkey::Encrypted(b)) => {
                let r = *a == *b;
                proof {
                    if r {
                        assert(a@ =~= b@);
                    }
                    if a@ == b@ {
                        assert(a.eq_spec(b));
                    }
                }
                r
            },
            _ => false,
        }
    }
}

impl vstd::std_specs::cmp::PartialEqSpecImpl for Passkey {
    open spec fn obeys_eq_spec() -> bool {
        true
    }

    open spec fn eq_spec(&self, other: &Passkey) -> bool {
        self@ == other@
    }
}

impl Passkey {
    /// Checks against another passkey.
    ///
    /// Two encrypted passkeys compare by their raw bytes, with no passphrase.
    /// Any other pair compares by digest; a digest that cannot be computed
    /// counts as not equal.
    pub fn check(&self, other: &Passkey, key: Option<&String>) -> (r: bool)
        ensures
            r == spec_check(self@, other@, key_view(key)),
    {
        if let Passkey::Encrypted(ctext1) = self {
            if let Passkey::Encrypted(ctext2) = other {
                let r = *ctext1 == *ctext2;
                proof {
                    if r {
                        assert(ctext1@ =~= ctext2@);
                    }
                    if ctext1@ == ctext2@ {
                        assert(ctext1.eq_spec(ctext2));
                    }
                }
                return r;
            }
        }
        let hash1 = self.hash(key);
        let hash2 = other.hash(key);
        match (hash1, hash2) {
            (Some(Passkey::Hash(a)), Some(Passkey::Hash(b))) => a == b,
            _ => false,
        }
    }

    /// Returns a `Passkey::Hash` of the password: the SHA-512 digest in
    /// lowercase hex. An encrypted passkey is decrypted first, so it needs
    /// the passphrase; `None` when the passphrase is missing or the
    /// decryption does not recover valid text.
    pub fn hash(&self, key: Option<&String>) -> (r: Option<Passkey>)
        ensures
            r is Some <==> spec_hash(self@, key_view(key)) is Some,
            r matches Some(h) ==> (spec_hash(self@, key_view(key)) matches Some(t) && h@
                == PasskeyView::Hash(t)),
    {
        match self {
            Passkey::Hash(h) => Some(Passkey::Hash(h.clone())),
            Passkey::Plain(pass) => {
                let digest = sha512_bytes(pass.as_str().as_bytes());
                Some(Passkey::Hash(to_hex(digest.as_slice())))
            },
            Passkey::Encrypted(ctext) => {
                let k = match key {
                    Some(k) => k,
                    None => {
                        return None;
                    },
                };
                match self.decrypt(k) {
                    Some(Passkey::Plain(pass)) => {
                        proof {
                            let recovered = spec_transform(ctext@, encode_utf8(k@));
                            decode_utf8_encode_utf8(recovered);
                        }
                        let digest = sha512_bytes(pass.as_str().as_bytes());
                        Some(Passkey::Hash(to_hex(digest.as_slice())))
                    },
                    _ => None,
                }
            },
        }
    }

    /// Encrypts the password: XORs the secret's bytes with the keystream
    /// derived from the passphrase. A hash cannot be encrypted (`None`); an
    /// already encrypted passkey is returned unchanged.
    pub fn encrypt(&self, key: &String) -> (r: Option<Passkey>)
        ensures
            r is Some <==> spec_encrypt(self@, key@) is Some,
            r matches Some(e) ==> (spec_encrypt(self@, key@) matches Some(v) && e@ == v),
    {
        match self {
            Passkey::Hash(_) => None,
            Passkey::Plain(pass) => {
                let c = transform(pass.as_str().as_bytes(), key.as_str().as_bytes());
                Some(Passkey::Encrypted(c))
            },
            Passkey::Encrypted(_) => Some(self.clone()),
        }
    }

    /// Decrypts the password: XORs the ciphertext with the keystream derived
    /// from the passphrase and reads the result as text. A hash cannot be
    /// decrypted (`None`); a plaintext is returned unchanged; `None` when the
    /// recovered bytes are not valid text.
    pub fn decrypt(&self, key: &String) -> (r: Option<Passkey>)
        ensures
            r is Some <==> spec_decrypt(self@, key@) is Some,
            r matches Some(p) ==> (spec_decrypt(self@, key@) matches Some(v) && p@ == v),
    {
        match self {
            Passkey::Hash(_) => None,
            Passkey::Encrypted(ctext) => {
                let recovered = transform(ctext.as_slice(), key.as_str().as_bytes());
                match bytes_to_string(recovered) {
                    Some(s) => Some(Passkey::Plain(s)),
                    None => None,
                }
            },
            Passkey::Plain(_) => Some(self.clone()),
        }
    }
}

/// Round trip: decrypting an encryption of a plaintext credential with the
/// same passphrase recovers the credential exactly, for every secret and
/// every passphrase.
pub proof fn lemma_round_trip(s: Seq<char>, k: Seq<char>)
    ensures
        spec_encrypt(PasskeyView::Plain(s), k) matches Some(c) && spec_decrypt(c, k) == Some(
            PasskeyView::Plain(s),
        ),
{
    broadcast use encode_utf8_valid_utf8, encode_utf8_decode_utf8;

    crate::codec::lemma_transform_involutive(encode_utf8(s), encode_utf8(k));
}

/// Digest stability: the digest of a plaintext credential, taken with no
/// passphrase, equals the digest of its encryption under `k`, taken with
/// passphrase `k`.
pub proof fn lemma_digest_stability(s: Seq<char>, k: Seq<char>)
    ensures
        spec_encrypt(PasskeyView::Plain(s), k) matches Some(c) && spec_hash(c, Some(k))
            == spec_hash(PasskeyView::Plain(s), None),
{
    broadcast use encode_utf8_valid_utf8;

    crate::codec::lemma_transform_involutive(encode_utf8(s), encode_utf8(k));
}

/// Idempotence: re-encrypting an encrypted credential is a no-op, whatever
/// the second passphrase.
pub proof fn lemma_encrypt_idempotent(s: Seq<char>, k1: Seq<char>, k2: Seq<char>)
    ensures
        spec_encrypt(PasskeyView::Plain(s), k1) matches Some(c) && spec_encrypt(c, k2)
            == spec_encrypt(PasskeyView::Plain(s), k1),
{
}

/// Irreversibility: a digest credential can be neither encrypted nor
/// decrypted.
pub proof fn lemma_hash_irreversible(d: Seq<char>, k: Seq<char>)
    ensures
        spec_encrypt(PasskeyView::Hash(d), k) is None,
        spec_decrypt(PasskeyView::Hash(d), k) is None,
{
}

/// Ciphertext equality shortcut: two encrypted credentials with identical
/// bytes check equal with no passphrase supplied.
pub proof fn lemma_ciphertext_shortcut(c1: Seq<u8>, c2: Seq<u8>)
    requires
        c1 == c2,
    ensures
        spec_check(PasskeyView::Encrypted(c1), PasskeyView::Encrypted(c2), None),
{
}

} // verus!
