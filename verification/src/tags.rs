//! Fuzzy message detection: root secrets, tagging keys, detection keys and
//! tags, each carried as its canonical byte encoding. The algebra itself is
//! done by the `fuzzytags` crate behind trusted wrappers; everything a caller
//! relies on is stated over the byte encodings.

use vstd::prelude::*;

use vstd::bytes::spec_u64_from_le_bytes;

verus! {

/// Length in bytes of a compressed tag: one compressed group element (32),
/// one scalar (32) and a 24-bit vector (3).
pub const TAG_LEN: usize = 67;

/// The security parameter: the maximum detection-key length.
pub const GAMMA: usize = 24;

/// Serialized length of a root secret or tagging key: an 8-byte element
/// count followed by 24 elements of 32 bytes each.
pub const KEY_LEN: usize = 776;

/// The serialized shape of a full-strength key: its length and its leading
/// element count pin it to exactly 24 elements, so that deserialization
/// consumes the whole encoding.
pub open spec fn full_key(b: Seq<u8>) -> bool {
    b.len() == KEY_LEN && spec_u64_from_le_bytes(b.subrange(0, 8)) == GAMMA
}

/// Holds exactly when `b` is the serialized form of a root secret.
pub uninterp spec fn is_root_secret(b: Seq<u8>) -> bool;

/// Holds exactly when `b` is the serialized form of a tagging key.
pub uninterp spec fn is_tagging_key(b: Seq<u8>) -> bool;

/// Holds exactly when `b` is the serialized form of a detection key.
pub uninterp spec fn is_detection_key(b: Seq<u8>) -> bool;

/// Holds exactly when `b` decompresses to a well-formed tag.
pub uninterp spec fn is_tag(b: Seq<u8>) -> bool;

/// The tagging key derived from a root secret.
pub uninterp spec fn tagging_key_of(root: Seq<u8>) -> Seq<u8>;

/// The detection key of length `n` extracted from a root secret.
pub uninterp spec fn detection_key_of(root: Seq<u8>, n: int) -> Seq<u8>;

/// The outcome of testing a tag against a detection key.
pub uninterp spec fn tag_test(dk: Seq<u8>, tag: Seq<u8>) -> bool;

/// What holds of a tag freshly generated from tagging key `tk`: it passes
/// the test against every detection key extracted, at any length up to the
/// security parameter, from the root secret `tk` derives from.
pub open spec fn fresh_tag_for(tk: Seq<u8>, tag: Seq<u8>) -> bool {
    forall|root: Seq<u8>, n: int|
        0 <= n <= GAMMA && tk == tagging_key_of(root) ==> tag_test(
            #[trigger] detection_key_of(root, n),
            tag,
        )
}

/// Relies on fuzzytags::RootSecret::<24>::generate (serialized with bincode):
/// generation yields 24 scalars, serialized as an 8-byte count and 32 bytes
/// per scalar.
#[verifier::external_body]
fn rs_generate() -> (r: Vec<u8>)
    ensures
        is_root_secret(r@),
        full_key(r@),
{
    let secret = fuzzytags::RootSecret::<24>::generate(&mut rand::rngs::OsRng);
    bincode::serialize(&secret).unwrap()
}

/// Relies on fuzzytags::RootSecret::tagging_key: the tagging key is a pure
/// function of the root secret, one group element per scalar, serialized in
/// the same shape.
#[verifier::external_body]
fn rs_tagging_key(root: &Vec<u8>) -> (r: Vec<u8>)
    requires
        is_root_secret(root@),
        full_key(root@),
    ensures
        r@ == tagging_key_of(root@),
        is_tagging_key(r@),
        full_key(r@),
{
    let secret: fuzzytags::RootSecret<24> = bincode::deserialize(root).unwrap();
    bincode::serialize(&secret.tagging_key()).unwrap()
}

/// Relies on fuzzytags::RootSecret::extract_detection_key: the detection key
/// of a given length is a pure function of the root secret.
#[verifier::external_body]
fn rs_extract_detection_key(root: &Vec<u8>, n: usize) -> (r: Vec<u8>)
    requires
        is_root_secret(root@),
        full_key(root@),
        n <= GAMMA,
    ensures
        r@ == detection_key_of(root@, n as int),
        is_detection_key(r@),
{
    let secret: fuzzytags::RootSecret<24> = bincode::deserialize(root).unwrap();
    bincode::serialize(&secret.extract_detection_key(n)).unwrap()
}

/// Relies on fuzzytags::TaggingKey::generate_tag and its documented
/// correctness property: a tag generated from a tagging key passes the test
/// against every detection key extracted from the same root secret. The
/// shape bound on the input guarantees 24 key elements, hence a 24-bit tag
/// of the fixed compressed length. The tag itself is fresh randomness, so
/// nothing ties it to the inputs.
#[verifier::external_body]
fn tk_generate_tag(tk: &Vec<u8>) -> (r: Vec<u8>)
    requires
        is_tagging_key(tk@),
        full_key(tk@),
    ensures
        r@.len() == TAG_LEN,
        is_tag(r@),
        forall|root: Seq<u8>, n: int|
            0 <= n <= GAMMA && tk@ == tagging_key_of(root) ==> tag_test(
                #[trigger] detection_key_of(root, n),
                r@,
            ),
{
    let tk: fuzzytags::TaggingKey<24> = bincode::deserialize(tk).unwrap();
    tk.generate_tag(&mut rand::rngs::OsRng).compress()
}

/// Relies on fuzzytags::DetectionKey::test_tag: the outcome is a pure
/// function of the detection key and the tag.
#[verifier::external_body]
fn dk_test_tag(dk: &Vec<u8>, tag: &Vec<u8>) -> (r: bool)
    requires
        is_detection_key(dk@),
        is_tag(tag@),
    ensures
        r == tag_test(dk@, tag@),
{
    let dk: fuzzytags::DetectionKey<24> = bincode::deserialize(dk).unwrap();
    let tag = fuzzytags::Tag::<24>::decompress(tag).unwrap();
    dk.test_tag(&tag)
}

/// Relies on fuzzytags::Tag::<24>::decompress: it accepts exactly the
/// well-formed tag encodings.
#[verifier::external_body]
fn tag_decompress_ok(bytes: &Vec<u8>) -> (r: bool)
    ensures
        r == is_tag(bytes@),
{
    fuzzytags::Tag::<24>::decompress(bytes).is_some()
}

/// A compressed fuzzy message detection tag.
pub struct Tag {
    bytes: Vec<u8>,
}

impl View for Tag {
    type V = Seq<u8>;

    closed spec fn view(&self) -> Seq<u8> {
        self.bytes@
    }
}

impl Tag {
    /// A tag is a well-formed compressed encoding of fixed length.
    #[verifier::type_invariant]
    pub open spec fn wf(self) -> bool {
        is_tag(self@) && self@.len() == TAG_LEN
    }

    /// Rebuild a tag from wire bytes; `None` exactly on malformed input.
    pub fn from_bytes(bytes: Vec<u8>) -> (r: Option<Tag>)
        ensures
            r matches Some(t) ==> t@ == bytes@,
            r is Some <==> is_tag(bytes@) && bytes@.len() == TAG_LEN,
    {
        if bytes.len() == TAG_LEN && tag_decompress_ok(&bytes) {
            Some(Tag { bytes })
        } else {
            None
        }
    }

    /// The canonical byte encoding of this tag.
    pub fn as_bytes(&self) -> (r: &Vec<u8>)
        ensures
            r@ == self@,
    {
        &self.bytes
    }

    /// True exactly when the two tags have identical byte encodings.
    pub fn matches(&self, other: &Tag) -> (r: bool)
        ensures
            r == (self@ == other@),
    {
        crate::util::bytes_eq(&self.bytes, &other.bytes)
    }

}

impl Clone for Tag {
    fn clone(&self) -> (r: Self)
        ensures
            r@ == self@,
    {
        proof {
            use_type_invariant(self);
        }
        Tag { bytes: crate::util::bytes_clone(&self.bytes) }
    }
}

/// The public capability to generate tags for a recipient.
pub struct TaggingKey {
    bytes: Vec<u8>,
}

impl View for TaggingKey {
    type V = Seq<u8>;

    closed spec fn view(&self) -> Seq<u8> {
        self.bytes@
    }
}

impl TaggingKey {
    /// A tagging key is a well-formed serialized encoding of full strength.
    #[verifier::type_invariant]
    pub open spec fn wf(self) -> bool {
        is_tagging_key(self@) && full_key(self@)
    }

    /// Generate a fresh tag from this tagging key. The tag passes the test
    /// against every detection key drawn from the root secret this tagging
    /// key was derived from.
    pub fn generate_tag(&self) -> (r: Tag)
        ensures
            fresh_tag_for(self@, r@),
    {
        proof {
            use_type_invariant(self);
        }
        let bytes = tk_generate_tag(&self.bytes);
        Tag { bytes }
    }

    /// The serialized form of this tagging key.
    pub fn as_bytes(&self) -> (r: &Vec<u8>)
        ensures
            r@ == self@,
    {
        &self.bytes
    }

    /// Rebuild a tagging key from serialized bytes; `None` exactly on input
    /// that is malformed or not of full strength.
    pub fn from_bytes(bytes: Vec<u8>) -> (r: Option<TaggingKey>)
        ensures
            r matches Some(t) ==> t@ == bytes@,
            r is Some <==> is_tagging_key(bytes@) && full_key(bytes@),
    {
        if check_key_shape(&bytes) && tagging_key_check(&bytes) {
            Some(TaggingKey { bytes })
        } else {
            None
        }
    }
}

/// Whether serialized key bytes have the full-strength shape.
fn check_key_shape(bytes: &Vec<u8>) -> (r: bool)
    ensures
        r == full_key(bytes@),
{
    if bytes.len() != KEY_LEN {
        return false;
    }
    let prefix = crate::codec::take_range(bytes, 0, 8);
    let count = vstd::bytes::u64_from_le_bytes(prefix.as_slice());
    count == GAMMA as u64
}

impl Clone for TaggingKey {
    fn clone(&self) -> (r: Self)
        ensures
            r@ == self@,
    {
        proof {
            use_type_invariant(self);
        }
        TaggingKey { bytes: crate::util::bytes_clone(&self.bytes) }
    }
}

/// Relies on bincode::deserialize for fuzzytags::TaggingKey::<24>: it accepts
/// exactly the well-formed serialized tagging keys.
#[verifier::external_body]
fn tagging_key_check(bytes: &Vec<u8>) -> (r: bool)
    ensures
        r == is_tagging_key(bytes@),
{
    let tk: Result<fuzzytags::TaggingKey<24>, _> = bincode::deserialize(bytes);
    tk.is_ok()
}

/// The private capability to filter a tag stream for a recipient.
pub struct DetectionKey {
    bytes: Vec<u8>,
}

impl View for DetectionKey {
    type V = Seq<u8>;

    closed spec fn view(&self) -> Seq<u8> {
        self.bytes@
    }
}

impl DetectionKey {
    /// A detection key is a well-formed serialized encoding.
    #[verifier::type_invariant]
    pub open spec fn wf(self) -> bool {
        is_detection_key(self@)
    }

    /// Test a tag against this detection key.
    pub fn test_tag(&self, tag: &Tag) -> (r: bool)
        ensures
            r == tag_test(self@, tag@),
    {
        proof {
            use_type_invariant(self);
            use_type_invariant(tag);
        }
        dk_test_tag(&self.bytes, tag.as_bytes())
    }

    /// The serialized form of this detection key.
    pub fn as_bytes(&self) -> (r: &Vec<u8>)
        ensures
            r@ == self@,
    {
        &self.bytes
    }

    /// Rebuild a detection key from serialized bytes; `None` exactly on
    /// malformed input.
    pub fn from_bytes(bytes: Vec<u8>) -> (r: Option<DetectionKey>)
        ensures
            r matches Some(t) ==> t@ == bytes@,
            r is Some <==> is_detection_key(bytes@),
    {
        if detection_key_check(&bytes) {
            Some(DetectionKey { bytes })
        } else {
            None
        }
    }
}

/// Relies on bincode::deserialize for fuzzytags::DetectionKey::<24>: it
/// accepts exactly the well-formed serialized detection keys.
#[verifier::external_body]
fn detection_key_check(bytes: &Vec<u8>) -> (r: bool)
    ensures
        r == is_detection_key(bytes@),
{
    let dk: Result<fuzzytags::DetectionKey<24>, _> = bincode::deserialize(bytes);
    dk.is_ok()
}

impl Clone for DetectionKey {
    fn clone(&self) -> (r: Self)
        ensures
            r@ == self@,
    {
        proof {
            use_type_invariant(self);
        }
        DetectionKey { bytes: crate::util::bytes_clone(&self.bytes) }
    }
}

/// A participant's long-term root secret: the source of its tagging key and
/// of every detection key.
pub struct RootSecret {
    bytes: Vec<u8>,
}

impl View for RootSecret {
    type V = Seq<u8>;

    closed spec fn view(&self) -> Seq<u8> {
        self.bytes@
    }
}

impl RootSecret {
    /// A root secret is a well-formed serialized encoding of full strength.
    #[verifier::type_invariant]
    pub open spec fn wf(self) -> bool {
        is_root_secret(self@) && full_key(self@)
    }

    /// Draw a fresh root secret from the system's randomness.
    pub fn generate() -> (r: RootSecret) {
        RootSecret { bytes: rs_generate() }
    }

    /// The tagging key derived from this root secret.
    pub fn tagging_key(&self) -> (r: TaggingKey)
        ensures
            r@ == tagging_key_of(self@),
    {
        proof {
            use_type_invariant(self);
        }
        TaggingKey { bytes: rs_tagging_key(&self.bytes) }
    }

    /// The detection key of length `n` (capped at the security parameter)
    /// extracted from this root secret.
    pub fn extract_detection_key(&self, n: usize) -> (r: DetectionKey)
        ensures
            r@ == detection_key_of(self@, if n <= GAMMA { n as int } else { GAMMA as int }),
    {
        proof {
            use_type_invariant(self);
        }
        let len: usize = if n <= GAMMA {
            n
        } else {
            GAMMA
        };
        DetectionKey { bytes: rs_extract_detection_key(&self.bytes, len) }
    }

    /// The serialized form of this root secret.
    pub fn as_bytes(&self) -> (r: &Vec<u8>)
        ensures
            r@ == self@,
    {
        &self.bytes
    }

    /// Rebuild a root secret from serialized bytes; `None` exactly on input
    /// that is malformed or not of full strength.
    pub fn from_bytes(bytes: Vec<u8>) -> (r: Option<RootSecret>)
        ensures
            r matches Some(t) ==> t@ == bytes@,
            r is Some <==> is_root_secret(bytes@) && full_key(bytes@),
    {
        if check_key_shape(&bytes) && root_secret_check(&bytes) {
            Some(RootSecret { bytes })
        } else {
            None
        }
    }
}

/// Detection completeness: a tag fresh for the tagging key derived from a
/// root secret passes the test against that root secret's detection key of
/// every length up to the security parameter.
pub proof fn lemma_fmd_completeness(root: Seq<u8>, n: int, tag: Seq<u8>)
    requires
        0 <= n <= GAMMA,
        fresh_tag_for(tagging_key_of(root), tag),
    ensures
        tag_test(detection_key_of(root, n), tag),
{
}

/// Relies on bincode::deserialize for fuzzytags::RootSecret::<24>: it accepts
/// exactly the well-formed serialized root secrets.
#[verifier::external_body]
fn root_secret_check(bytes: &Vec<u8>) -> (r: bool)
    ensures
        r == is_root_secret(bytes@),
{
    let rs: Result<fuzzytags::RootSecret<24>, _> = bincode::deserialize(bytes);
    rs.is_ok()
}

} // verus!
