//! Hybrid encryption to a tag: a fresh group element is the public nonce,
//! the shared secret and the tag derive the symmetric key, and an
//! authenticated cipher seals the payload. Group arithmetic, hashing and the
//! authenticated cipher are done by outside crates behind trusted wrappers;
//! the composition and its round-trip behaviour are verified here.

use vstd::prelude::*;

use crate::tags::Tag;
use crate::util;
use sha3::Digest;

verus! {

/// The compressed encoding of `s`·G for the group basepoint G.
pub uninterp spec fn base_point_of(s: Seq<u8>) -> Seq<u8>;

/// The compressed encoding of `s`·P where `p` encodes the point P.
pub uninterp spec fn point_mul_of(p: Seq<u8>, s: Seq<u8>) -> Seq<u8>;

/// Holds exactly when `p` decompresses to a group element.
pub uninterp spec fn is_valid_point(p: Seq<u8>) -> bool;

/// The 32-byte digest of the two inputs hashed in order.
pub uninterp spec fn hash2_of(a: Seq<u8>, b: Seq<u8>) -> Seq<u8>;

/// The authenticated ciphertext for a key, nonce and message.
pub uninterp spec fn sealed(key: Seq<u8>, nonce: Seq<u8>, m: Seq<u8>) -> Seq<u8>;

/// Relies on curve25519_dalek::scalar::Scalar::random: a fresh scalar in its
/// canonical 32-byte encoding. Nothing ties the result to anything.
#[verifier::external_body]
fn random_scalar_bytes() -> (r: Vec<u8>)
    ensures
        r@.len() == 32,
{
    let s = curve25519_dalek::scalar::Scalar::random(&mut rand::rngs::OsRng);
    s.to_bytes().to_vec()
}

/// Relies on curve25519_dalek scalar multiplication of the Ristretto
/// basepoint; the scalar bytes are reduced mod the group order, and a
/// compressed point always decompresses again.
#[verifier::external_body]
fn scalar_base_mul(s: &Vec<u8>) -> (r: Vec<u8>)
    requires
        s@.len() == 32,
    ensures
        r@ == base_point_of(s@),
        r@.len() == 32,
        is_valid_point(r@),
{
    let mut arr = [0u8; 32];
    arr.copy_from_slice(s);
    let sc = curve25519_dalek::scalar::Scalar::from_bytes_mod_order(arr);
    let z = curve25519_dalek::constants::RISTRETTO_BASEPOINT_POINT * sc;
    z.compress().as_bytes().to_vec()
}

/// Relies on curve25519_dalek scalar multiplication of a Ristretto point.
/// The final clause is the Diffie-Hellman identity of the group:
/// `s`·(`a`·G) equals `a`·(`s`·G).
#[verifier::external_body]
fn point_scalar_mul(p: &Vec<u8>, s: &Vec<u8>) -> (r: Vec<u8>)
    requires
        p@.len() == 32,
        s@.len() == 32,
        is_valid_point(p@),
    ensures
        r@ == point_mul_of(p@, s@),
        r@.len() == 32,
        is_valid_point(r@),
        forall|a: Seq<u8>| p@ == #[trigger] base_point_of(a) ==> r@ == point_mul_of(
            base_point_of(s@),
            a,
        ),
{
    let mut parr = [0u8; 32];
    parr.copy_from_slice(p);
    let point = curve25519_dalek::ristretto::CompressedRistretto(parr).decompress().unwrap();
    let mut sarr = [0u8; 32];
    sarr.copy_from_slice(s);
    let sc = curve25519_dalek::scalar::Scalar::from_bytes_mod_order(sarr);
    (point * sc).compress().as_bytes().to_vec()
}

/// Relies on curve25519_dalek::ristretto::CompressedRistretto::decompress:
/// it accepts exactly the canonical point encodings.
#[verifier::external_body]
fn point_check(b: &Vec<u8>) -> (r: bool)
    requires
        b@.len() == 32,
    ensures
        r == is_valid_point(b@),
{
    let mut arr = [0u8; 32];
    arr.copy_from_slice(b);
    curve25519_dalek::ristretto::CompressedRistretto(arr).decompress().is_some()
}

/// Relies on sha3::Sha3_256: a 256-bit digest, a pure function of the data
/// hashed in order.
#[verifier::external_body]
fn sha3_pair(a: &Vec<u8>, b: &Vec<u8>) -> (r: Vec<u8>)
    ensures
        r@ == hash2_of(a@, b@),
        r@.len() == 32,
{
    let mut hash = sha3::Sha3_256::new();
    hash.update(a.as_slice());
    hash.update(b.as_slice());
    hash.finalize().to_vec()
}

/// Relies on secretbox::SecretBox::seal (XSalsa20-Poly1305): deterministic
/// in key, nonce and message, and 16 bytes longer than the message.
#[verifier::external_body]
fn seal_bytes(key: &Vec<u8>, nonce: &Vec<u8>, m: &[u8]) -> (r: Vec<u8>)
    requires
        key@.len() == 32,
        nonce@.len() == 24,
    ensures
        r@ == sealed(key@, nonce@, m@),
        r@.len() == m@.len() + 16,
{
    let sb = secretbox::SecretBox::new(key, secretbox::CipherType::Salsa20).unwrap();
    let mut n = [0u8; 24];
    n.copy_from_slice(nonce);
    sb.seal(m, n)
}

/// Relies on secretbox::SecretBox::unseal: it inverts seal for the same key
/// and nonce, and whenever it succeeds the returned plaintext re-seals to
/// exactly the input ciphertext.
#[verifier::external_body]
fn unseal_bytes(key: &Vec<u8>, nonce: &Vec<u8>, ct: &Vec<u8>) -> (r: Option<Vec<u8>>)
    requires
        key@.len() == 32,
        nonce@.len() == 24,
        ct@.len() >= 16,
    ensures
        r is Some ==> ct@ == sealed(key@, nonce@, r->Some_0@),
        forall|m: Seq<u8>| ct@ == #[trigger] sealed(key@, nonce@, m) ==> (r is Some
            && r->Some_0@ == m),
{
    let sb = secretbox::SecretBox::new(key, secretbox::CipherType::Salsa20).unwrap();
    let mut n = [0u8; 24];
    n.copy_from_slice(nonce);
    sb.unseal(ct, n)
}

/// Relies on String::from_utf8: it accepts exactly the UTF-8 encodings, and
/// decodes them to the character sequence that encodes back to the input.
#[verifier::external_body]
pub(crate) fn bytes_to_string(b: Vec<u8>) -> (r: Option<String>)
    ensures
        r is Some ==> vstd::utf8::encode_utf8(r->Some_0@) == b@,
        forall|cs: Seq<char>| b@ == #[trigger] vstd::utf8::encode_utf8(cs) ==> (r is Some
            && r->Some_0@ == cs),
        (forall|i: int| 0 <= i < b@.len() ==> b@[i] < 128) ==> r is Some,
{
    match String::from_utf8(b) {
        Ok(s) => Some(s),
        Err(_) => None,
    }
}

/// Well-formedness of a tagged ciphertext's contents: a valid tag encoding,
/// a nonce that is a group element, and a payload long enough to carry an
/// authentication tag.
pub open spec fn tc_wf(c: TaggedCiphertextV) -> bool {
    crate::tags::is_tag(c.tag) && c.tag.len() == crate::tags::TAG_LEN && c.nonce.len() == 32
        && is_valid_point(c.nonce) && c.ciphertext.len() >= 16
}

/// The mathematical contents of a tagged ciphertext.
pub ghost struct TaggedCiphertextV {
    pub tag: Seq<u8>,
    pub nonce: Seq<u8>,
    pub ciphertext: Seq<u8>,
}

/// A tag, the sender's fresh public group element, and the sealed payload.
pub struct TaggedCiphertext {
    tag: Tag,
    nonce: Vec<u8>,
    ciphertext: Vec<u8>,
}

/// The symmetric key sealing a ciphertext with nonce point `z` and tag
/// bytes `tag`, as derived by the holder of the shared secret `shared`.
pub open spec fn derived_key(shared: Seq<u8>, tag: Seq<u8>) -> Seq<u8> {
    hash2_of(shared, tag)
}

/// The 24-byte cipher nonce derived from the nonce point and the tag.
pub open spec fn derived_nonce(z: Seq<u8>, tag: Seq<u8>) -> Seq<u8> {
    hash2_of(z, tag).take(24)
}

/// Holds exactly when the payload of `c` is the seal, under the key that
/// the holder of private key `sk` derives from `c`'s nonce point and tag,
/// of the encoding of `m`: what a successful decryption attests.
pub open spec fn decrypts_to(c: TaggedCiphertextV, sk: Seq<u8>, m: Seq<char>) -> bool {
    c.ciphertext == sealed(
        derived_key(point_mul_of(c.nonce, sk), c.tag),
        derived_nonce(c.nonce, c.tag),
        vstd::utf8::encode_utf8(m),
    )
}

/// Holds exactly when `c` is a possible output of encrypting message `m`
/// under public key `pk` bound to `c.tag`: some fresh scalar `r` explains
/// the nonce point and the sealed payload.
pub open spec fn is_encryption_of(c: TaggedCiphertextV, pk: Seq<u8>, m: Seq<char>) -> bool {
    exists|r: Seq<u8>|
        r.len() == 32 && c.nonce == #[trigger] base_point_of(r) && c.ciphertext == sealed(
            derived_key(point_mul_of(pk, r), c.tag),
            derived_nonce(c.nonce, c.tag),
            vstd::utf8::encode_utf8(m),
        )
}

impl View for TaggedCiphertext {
    type V = TaggedCiphertextV;

    closed spec fn view(&self) -> TaggedCiphertextV {
        TaggedCiphertextV { tag: self.tag@, nonce: self.nonce@, ciphertext: self.ciphertext@ }
    }
}

impl TaggedCiphertext {
    /// The parts of a tagged ciphertext are well formed.
    #[verifier::type_invariant]
    pub open spec fn wf(self) -> bool {
        tc_wf(self@)
    }

    /// The tag this ciphertext is addressed by.
    pub fn tag(&self) -> (r: &Tag)
        ensures
            r@ == self@.tag,
    {
        &self.tag
    }

    /// The compressed nonce point.
    pub fn nonce_bytes(&self) -> (r: &Vec<u8>)
        ensures
            r@ == self@.nonce,
    {
        &self.nonce
    }

    /// The sealed payload.
    pub fn ciphertext_bytes(&self) -> (r: &Vec<u8>)
        ensures
            r@ == self@.ciphertext,
    {
        &self.ciphertext
    }

    /// Rebuild a tagged ciphertext from wire values; `None` exactly when the
    /// nonce is not a group element or the payload is shorter than an
    /// authentication tag.
    pub fn from_parts(tag: Tag, nonce: Vec<u8>, ciphertext: Vec<u8>) -> (r: Option<
        TaggedCiphertext,
    >)
        ensures
            r matches Some(c) ==> c@ == (TaggedCiphertextV {
                tag: tag@,
                nonce: nonce@,
                ciphertext: ciphertext@,
            }),
            r is Some <==> nonce@.len() == 32 && is_valid_point(nonce@) && ciphertext@.len()
                >= 16,
    {
        proof {
            use_type_invariant(&tag);
        }
        if nonce.len() == 32 && ciphertext.len() >= 16 && point_check(&nonce) {
            Some(TaggedCiphertext { tag, nonce, ciphertext })
        } else {
            None
        }
    }
}

impl Clone for TaggedCiphertext {
    fn clone(&self) -> (r: Self)
        ensures
            r@ == self@,
    {
        proof {
            use_type_invariant(self);
        }
        TaggedCiphertext {
            tag: self.tag.clone(),
            nonce: util::bytes_clone(&self.nonce),
            ciphertext: util::bytes_clone(&self.ciphertext),
        }
    }
}

/// A hybrid-encryption private key: a group scalar.
pub struct PrivateKey {
    scalar: Vec<u8>,
}

impl View for PrivateKey {
    type V = Seq<u8>;

    closed spec fn view(&self) -> Seq<u8> {
        self.scalar@
    }
}

/// A hybrid-encryption public key: the basepoint times the private scalar.
pub struct PublicKey {
    point: Vec<u8>,
}

impl View for PublicKey {
    type V = Seq<u8>;

    closed spec fn view(&self) -> Seq<u8> {
        self.point@
    }
}

impl PublicKey {
    /// A public key is a compressed group element.
    #[verifier::type_invariant]
    pub open spec fn wf(self) -> bool {
        self@.len() == 32 && is_valid_point(self@)
    }

    /// Encrypt `message` to this public key, bound to `tag`: a fresh scalar
    /// gives the nonce point, the shared secret and the tag derive the key,
    /// and the sealed payload carries the message.
    pub fn encrypt(&self, tag: &Tag, message: &String) -> (c: TaggedCiphertext)
        ensures
            c@.tag == tag@,
            is_encryption_of(c@, self@, message@),
    {
        proof {
            use_type_invariant(self);
            use_type_invariant(tag);
        }
        let r = random_scalar_bytes();
        let z = scalar_base_mul(&r);
        let mut nonce24 = sha3_pair(&z, tag.as_bytes());
        nonce24.truncate(24);
        let shared = point_scalar_mul(&self.point, &r);
        let key = sha3_pair(&shared, tag.as_bytes());
        let ct = seal_bytes(&key, &nonce24, message.as_str().as_bytes());
        let result = TaggedCiphertext { tag: tag.clone(), nonce: z, ciphertext: ct };
        proof {
            let rv = r@;
            assert(result@.nonce == base_point_of(rv));
            assert(result@.ciphertext == sealed(
                derived_key(point_mul_of(self@, rv), result@.tag),
                derived_nonce(result@.nonce, result@.tag),
                vstd::utf8::encode_utf8(message@),
            ));
        }
        result
    }

    /// The compressed encoding of this public key.
    pub fn as_bytes(&self) -> (r: &Vec<u8>)
        ensures
            r@ == self@,
    {
        &self.point
    }

    /// Rebuild a public key from wire bytes; `None` exactly on input that is
    /// not a compressed group element.
    pub fn from_bytes(bytes: Vec<u8>) -> (r: Option<PublicKey>)
        ensures
            r matches Some(k) ==> k@ == bytes@,
            r is Some <==> bytes@.len() == 32 && is_valid_point(bytes@),
    {
        if bytes.len() == 32 && point_check(&bytes) {
            Some(PublicKey { point: bytes })
        } else {
            None
        }
    }
}

impl Clone for PublicKey {
    fn clone(&self) -> (r: Self)
        ensures
            r@ == self@,
    {
        proof {
            use_type_invariant(self);
        }
        PublicKey { point: util::bytes_clone(&self.point) }
    }
}

impl PrivateKey {
    /// A private key is a 32-byte scalar encoding.
    #[verifier::type_invariant]
    pub open spec fn wf(self) -> bool {
        self@.len() == 32
    }

    /// Draw a fresh private key from the system's randomness.
    pub fn generate() -> (r: PrivateKey) {
        PrivateKey { scalar: random_scalar_bytes() }
    }

    /// The scalar encoding of this private key, for persistence.
    pub fn as_bytes(&self) -> (r: &Vec<u8>)
        ensures
            r@ == self@,
    {
        &self.scalar
    }

    /// Rebuild a private key from its scalar encoding; `None` exactly on
    /// input of the wrong length.
    pub fn from_bytes(bytes: Vec<u8>) -> (r: Option<PrivateKey>)
        ensures
            r matches Some(k) ==> k@ == bytes@,
            r is Some <==> bytes@.len() == 32,
    {
        if bytes.len() == 32 {
            Some(PrivateKey { scalar: bytes })
        } else {
            None
        }
    }

    /// The public key of this private key.
    pub fn public_key(&self) -> (r: PublicKey)
        ensures
            r@ == base_point_of(self@),
    {
        proof {
            use_type_invariant(self);
        }
        PublicKey { point: scalar_base_mul(&self.scalar) }
    }

    /// Decrypt a tagged ciphertext. Every ciphertext produced by `encrypt`
    /// under this key's public key decrypts to its message; whenever any
    /// message seals to the payload under the key this private key derives,
    /// that message comes back; and a message comes back only when it seals
    /// to the payload that way. Together the last two clauses fix the
    /// result for every input and make decryption deterministic.
    pub fn decrypt(&self, c: &TaggedCiphertext) -> (r: Option<String>)
        ensures
            forall|m: Seq<char>|
                #[trigger] is_encryption_of(c@, base_point_of(self@), m) ==> (r matches Some(s)
                    && s@ == m),
            forall|m: Seq<char>|
                #[trigger] decrypts_to(c@, self@, m) ==> (r matches Some(s) && s@ == m),
            r matches Some(s) ==> decrypts_to(c@, self@, s@),
    {
        proof {
            use_type_invariant(self);
            use_type_invariant(c);
        }
        let mut nonce24 = sha3_pair(&c.nonce, c.tag.as_bytes());
        nonce24.truncate(24);
        let shared = point_scalar_mul(&c.nonce, &self.scalar);
        let key = sha3_pair(&shared, c.tag.as_bytes());
        let result = match unseal_bytes(&key, &nonce24, &c.ciphertext) {
            Some(plaintext) => bytes_to_string(plaintext),
            None => None,
        };
        proof {
            assert forall|m: Seq<char>| decrypts_to(c@, self@, m) implies (result matches Some(s)
                && s@ == m) by {
                assert(c@.ciphertext == sealed(key@, nonce24@, vstd::utf8::encode_utf8(m)));
            }
            assert forall|m: Seq<char>| is_encryption_of(c@, base_point_of(self@), m) implies (
            result matches Some(s) && s@ == m) by {
                let rv = choose|rv: Seq<u8>|
                    rv.len() == 32 && c@.nonce == #[trigger] base_point_of(rv) && c@.ciphertext
                        == sealed(
                        derived_key(point_mul_of(base_point_of(self@), rv), c@.tag),
                        derived_nonce(c@.nonce, c@.tag),
                        vstd::utf8::encode_utf8(m),
                    );
                assert(c@.nonce == base_point_of(rv));
                assert(shared@ == point_mul_of(base_point_of(self@), rv));
                assert(c@.ciphertext == sealed(key@, nonce24@, vstd::utf8::encode_utf8(m)));
            }
        }
        result
    }
}

} // verus!
