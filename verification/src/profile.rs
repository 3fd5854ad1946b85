//! A participant's profile: the root secret and hybrid private key, the
//! contact book, the detection-key length chosen at creation, and the
//! last-seen-tag cursor for incremental fetch. Profile operations build the
//! relay requests; the transport that carries them is the host's concern.

use vstd::prelude::*;

use crate::encrypt::{
    bytes_to_string, decrypts_to, is_encryption_of, is_valid_point, PrivateKey, PublicKey,
    TaggedCiphertext,
};
use crate::relay::{reference_view, DetectedTags, FetchMessagesRequest, PostMessageRequest};
use crate::rem::{parse_plaintext, MixMessage, MixMessageV};
use crate::tags::{
    fresh_tag_for, full_key, is_tagging_key, tagging_key_of, detection_key_of, DetectionKey,
    RootSecret, Tag, TaggingKey, GAMMA,
};
use crate::NiwlError;
use vstd::bytes::{lemma_auto_spec_u64_to_from_le_bytes, spec_u64_from_le_bytes, spec_u64_to_le_bytes};

verus! {

/// The base32 text of a byte string, in the lowercase unpadded RFC 4648
/// alphabet.
pub uninterp spec fn base32_of(b: Seq<u8>) -> Seq<char>;

/// Relies on base32::encode with the lowercase unpadded RFC 4648 alphabet:
/// a pure function of the bytes.
#[verifier::external_body]
fn b32_encode(b: &Vec<u8>) -> (r: String)
    ensures
        r@ == base32_of(b@),
{
    base32::encode(base32::Alphabet::Rfc4648Lower { padding: false }, b)
}

/// Relies on base32::decode with the same alphabet: it inverts encode.
#[verifier::external_body]
fn b32_decode(s: &String) -> (r: Option<Vec<u8>>)
    ensures
        forall|b: Seq<u8>| s@ == #[trigger] base32_of(b) ==> (r is Some && r->Some_0@ == b),
{
    base32::decode(base32::Alphabet::Rfc4648Lower { padding: false }, s.as_str())
}

/// The byte frame a key set travels in: the compressed public key, the
/// length of the name, the name's UTF-8 bytes, and the tagging key.
pub open spec fn keyset_frame(name: Seq<char>, tk: Seq<u8>, pk: Seq<u8>) -> Seq<u8> {
    pk + spec_u64_to_le_bytes(vstd::utf8::encode_utf8(name).len() as u64) + vstd::utf8::encode_utf8(
        name,
    ) + tk
}

/// Decode a key set frame into public key, name bytes and tagging key.
pub open spec fn parse_keyset(b: Seq<u8>) -> Option<(Seq<u8>, Seq<u8>, Seq<u8>)> {
    if b.len() < 40 {
        Option::None
    } else {
        let nl = spec_u64_from_le_bytes(b.subrange(32, 40)) as int;
        if b.len() < 40 + nl {
            Option::None
        } else {
            Option::Some(
                (b.subrange(0, 32), b.subrange(40, 40 + nl), b.subrange(40 + nl, b.len() as int)),
            )
        }
    }
}

/// Round trip of the key set framing, for names whose encoding fits the
/// length field.
pub proof fn lemma_keyset_frame_round_trip(name: Seq<char>, tk: Seq<u8>, pk: Seq<u8>)
    requires
        pk.len() == 32,
        vstd::utf8::encode_utf8(name).len() <= u64::MAX,
    ensures
        parse_keyset(keyset_frame(name, tk, pk)) == Option::Some(
            (pk, vstd::utf8::encode_utf8(name), tk),
        ),
{
    lemma_auto_spec_u64_to_from_le_bytes();
    let b = keyset_frame(name, tk, pk);
    let nb = vstd::utf8::encode_utf8(name);
    assert(b.subrange(32, 40) =~= spec_u64_to_le_bytes(nb.len() as u64));
    assert(b.subrange(0, 32) =~= pk);
    assert(b.subrange(40, 40 + nb.len() as int) =~= nb);
    assert(b.subrange(40 + nb.len() as int, b.len() as int) =~= tk);
}

/// The shareable key material of a profile: its name, tagging key and
/// public key.
pub struct KeySet {
    pub profile_name: String,
    pub tagging_key: TaggingKey,
    pub public_key: PublicKey,
}

impl KeySet {
    /// Encode this key set as compact binary wrapped in base32 text.
    pub fn encode(&self) -> (r: String)
        ensures
            r@ == base32_of(keyset_frame(self.profile_name@, self.tagging_key@, self.public_key@)),
    {
        proof {
            use_type_invariant(&self.public_key);
        }
        let mut frame: Vec<u8> = Vec::new();
        crate::codec::append_bytes(&mut frame, self.public_key.as_bytes());
        let name_bytes = str_bytes_vec(self.profile_name.as_str());
        let nl = vstd::bytes::u64_to_le_bytes(name_bytes.len() as u64);
        crate::codec::append_bytes(&mut frame, &nl);
        crate::codec::append_bytes(&mut frame, &name_bytes);
        crate::codec::append_bytes(&mut frame, self.tagging_key.as_bytes());
        proof {
            assert(frame@ =~= keyset_frame(
                self.profile_name@,
                self.tagging_key@,
                self.public_key@,
            ));
        }
        b32_encode(&frame)
    }

    /// Decode base32 text back into a key set; any text that encodes a
    /// well-formed key set is accepted and gives back its fields.
    pub fn decode(s: &String) -> (r: Option<KeySet>)
        ensures
            forall|name: Seq<char>, tk: Seq<u8>, pk: Seq<u8>|
                {
                    &&& s@ == base32_of(#[trigger] keyset_frame(name, tk, pk))
                    &&& vstd::utf8::encode_utf8(name).len() <= u64::MAX
                    &&& pk.len() == 32
                    &&& is_valid_point(pk)
                    &&& is_tagging_key(tk)
                    &&& full_key(tk)
                } ==> (r is Some && r->Some_0.profile_name@ == name && r->Some_0.tagging_key@ == tk
                    && r->Some_0.public_key@ == pk),
    {
        let decoded = b32_decode(s);
        let result = match decoded {
            Some(frame) => KeySet::decode_frame(frame),
            None => None,
        };
        proof {
            assert forall|name: Seq<char>, tk: Seq<u8>, pk: Seq<u8>|
                {
                    &&& s@ == base32_of(#[trigger] keyset_frame(name, tk, pk))
                    &&& vstd::utf8::encode_utf8(name).len() <= u64::MAX
                    &&& pk.len() == 32
                    &&& is_valid_point(pk)
                    &&& is_tagging_key(tk)
                    &&& full_key(tk)
                } implies (result is Some && result->Some_0.profile_name@ == name
                && result->Some_0.tagging_key@ == tk && result->Some_0.public_key@ == pk) by {
                assert(decoded is Some && decoded->Some_0@ == keyset_frame(name, tk, pk));
                lemma_keyset_frame_round_trip(name, tk, pk);
                vstd::utf8::encode_utf8_decode_utf8(name);
                vstd::utf8::encode_utf8_decode_utf8(result->Some_0.profile_name@);
            }
        }
        result
    }

    /// Decode one key set frame; `None` exactly when the frame or one of
    /// its parts is malformed.
    fn decode_frame(frame: Vec<u8>) -> (r: Option<KeySet>)
        ensures
            match parse_keyset(frame@) {
                Option::Some(parts) => {
                    if is_valid_point(parts.0) && is_tagging_key(parts.2) && full_key(parts.2)
                        && (exists|name: Seq<char>| parts.1 == vstd::utf8::encode_utf8(name)) {
                        r is Some && r->Some_0.public_key@ == parts.0 && r->Some_0.tagging_key@
                            == parts.2 && vstd::utf8::encode_utf8(r->Some_0.profile_name@)
                            == parts.1
                    } else {
                        r is None
                    }
                },
                Option::None => r is None,
            },
    {
        proof {
            lemma_auto_spec_u64_to_from_le_bytes();
        }
        if frame.len() < 40 {
            return None;
        }
        let nl = vstd::bytes::u64_from_le_bytes(
            crate::codec::take_range(&frame, 32, 40).as_slice(),
        );
        if nl > (frame.len() - 40) as u64 {
            return None;
        }
        let nl_us = nl as usize;
        let pk_bytes = crate::codec::take_range(&frame, 0, 32);
        let name_bytes = crate::codec::take_range(&frame, 40, 40 + nl_us);
        let tk_bytes = crate::codec::take_range(&frame, 40 + nl_us, frame.len());
        let public_key = match PublicKey::from_bytes(pk_bytes) {
            Some(k) => k,
            None => {
                return None;
            },
        };
        let tagging_key = match TaggingKey::from_bytes(tk_bytes) {
            Some(k) => k,
            None => {
                return None;
            },
        };
        let profile_name = match bytes_to_string(name_bytes) {
            Some(n) => n,
            None => {
                return None;
            },
        };
        Some(KeySet { profile_name, tagging_key, public_key })
    }
}

/// Copy the UTF-8 bytes of a string slice.
fn str_bytes_vec(s: &str) -> (r: Vec<u8>)
    ensures
        r@ == vstd::utf8::encode_utf8(s@),
{
    let bytes = s.as_bytes();
    let mut out: Vec<u8> = Vec::new();
    let mut i: usize = 0;
    while i < bytes.len()
        invariant
            i <= bytes@.len(),
            out@ =~= bytes@.take(i as int),
        decreases bytes@.len() - i,
    {
        out.push(bytes[i]);
        proof {
            assert(out@ =~= bytes@.take(i as int + 1));
        }
        i = i + 1;
    }
    proof {
        assert(out@ =~= bytes@);
    }
    out
}

/// One entry of the contact book.
pub struct Contact {
    pub name: String,
    pub tagging_key: TaggingKey,
    pub public_key: PublicKey,
}

/// A participant's long-term state.
pub struct Profile {
    profile_name: String,
    root_secret: RootSecret,
    private_key: PrivateKey,
    contacts: Vec<Contact>,
    detection_key_length: usize,
    last_seen_tag: Option<Tag>,
}

/// No two contacts bear the same name.
pub open spec fn contact_names_unique(s: Seq<Contact>) -> bool {
    forall|i: int, j: int|
        0 <= i < j < s.len() ==> (#[trigger] s[i]).name@ != (#[trigger] s[j]).name@
}

impl Profile {
    /// Contact names are unique.
    #[verifier::type_invariant]
    pub open spec fn wf(self) -> bool {
        contact_names_unique(self.contacts())
    }

    /// The profile's own name.
    pub closed spec fn name(self) -> Seq<char> {
        self.profile_name@
    }

    /// The serialized root secret.
    pub closed spec fn root(self) -> Seq<u8> {
        self.root_secret@
    }

    /// The private scalar.
    pub closed spec fn privk(self) -> Seq<u8> {
        self.private_key@
    }

    /// The contact book.
    pub closed spec fn contacts(self) -> Seq<Contact> {
        self.contacts@
    }

    /// The detection-key length fixed at creation.
    pub closed spec fn dkl(self) -> usize {
        self.detection_key_length
    }

    /// The cursor: the bytes of the last tag a detect round processed.
    pub closed spec fn last_seen(self) -> Option<Seq<u8>> {
        match self.last_seen_tag {
            Option::None => Option::None,
            Option::Some(t) => Option::Some(t@),
        }
    }

    /// Whether some contact bears this name.
    pub open spec fn knows(self, name: Seq<char>) -> bool {
        exists|j: int| 0 <= j < self.contacts().len() && (#[trigger] self.contacts()[j]).name@
            == name
    }

    /// A fresh profile: a new root secret and private key, no contacts, no
    /// cursor, and the given detection-key length.
    pub fn new(profile_name: String, detection_key_length: usize) -> (r: Profile)
        ensures
            r.name() == profile_name@,
            r.contacts().len() == 0,
            r.dkl() == detection_key_length,
            r.last_seen() is None,
    {
        Profile {
            profile_name,
            root_secret: RootSecret::generate(),
            private_key: PrivateKey::generate(),
            contacts: Vec::new(),
            detection_key_length,
            last_seen_tag: None,
        }
    }

    /// Rebuild a profile from its persisted logical parts. A contact book
    /// with unique names, and the cursor, come back exactly as given, so the
    /// persistence round trip preserves the whole logical state; contacts
    /// whose names repeat an earlier entry are dropped.
    pub fn from_parts(
        profile_name: String,
        root_secret: RootSecret,
        private_key: PrivateKey,
        contacts: Vec<Contact>,
        detection_key_length: usize,
        last_seen_tag: Option<Tag>,
    ) -> (r: Profile)
        ensures
            r.name() == profile_name@,
            r.root() == root_secret@,
            r.privk() == private_key@,
            r.dkl() == detection_key_length,
            contact_names_unique(contacts@) ==> r.contacts() == contacts@,
            (r.last_seen() is Some <==> last_seen_tag is Some),
            last_seen_tag matches Some(t) ==> r.last_seen() == Option::Some(t@),
    {
        let ghost orig = contacts@;
        let mut unique: Vec<Contact> = Vec::new();
        let mut rest = contacts;
        loop
            invariant
                forall|i: int, j: int|
                    0 <= i < j < unique@.len() ==> (#[trigger] unique@[i]).name@ != (
                    #[trigger] unique@[j]).name@,
                contact_names_unique(orig) ==> unique@ + rest@ =~= orig,
            ensures
                rest@.len() == 0,
            decreases rest@.len(),
        {
            if rest.len() == 0 {
                break ;
            }
            let ghost unique_before = unique@;
            let ghost rest_before = rest@;
            let c = rest.remove(0);
            let mut dup = false;
            let mut i: usize = 0;
            while i < unique.len()
                invariant
                    i <= unique@.len(),
                    dup ==> exists|j: int|
                        0 <= j < unique@.len() && (#[trigger] unique@[j]).name@ == c.name@,
                    !dup ==> forall|j: int|
                        0 <= j < i ==> (#[trigger] unique@[j]).name@ != c.name@,
                decreases unique@.len() - i,
            {
                if crate::util::bytes_eq(
                    &str_bytes_vec(unique[i].name.as_str()),
                    &str_bytes_vec(c.name.as_str()),
                ) {
                    proof {
                        vstd::utf8::encode_utf8_decode_utf8(unique@[i as int].name@);
                        vstd::utf8::encode_utf8_decode_utf8(c.name@);
                    }
                    dup = true;
                }
                i = i + 1;
            }
            proof {
                if contact_names_unique(orig) {
                    assert(rest@ =~= rest_before.subrange(1, rest_before.len() as int));
                    assert(c == orig[unique_before.len() as int]);
                    if dup {
                        let j = choose|j: int|
                            0 <= j < unique_before.len() && (#[trigger] unique_before[j]).name@
                                == c.name@;
                        assert(orig[j].name@ == orig[unique_before.len() as int].name@);
                        assert(false);
                    }
                }
            }
            if !dup {
                unique.push(c);
                proof {
                    if contact_names_unique(orig) {
                        assert(unique@ + rest@ =~= orig);
                    }
                }
            }
        }
        let ghost uniq_final = unique@;
        proof {
            if contact_names_unique(orig) {
                assert(unique@ + rest@ =~= unique@);
            }
        }
        let r = Profile {
            profile_name,
            root_secret,
            private_key,
            contacts: unique,
            detection_key_length,
            last_seen_tag,
        };
        proof {
            if contact_names_unique(orig) {
                assert(r.contacts() == uniq_final);
                assert(r.contacts() =~= orig);
            }
        }
        r
    }

    /// The key material to share: this profile's name, tagging key and
    /// public key.
    pub fn keyset(&self) -> (r: KeySet)
        ensures
            r.profile_name@ == self.name(),
            r.tagging_key@ == tagging_key_of(self.root()),
            r.public_key@ == crate::encrypt::base_point_of(self.privk()),
    {
        KeySet {
            profile_name: clone_string(&self.profile_name),
            tagging_key: self.root_secret.tagging_key(),
            public_key: self.private_key.public_key(),
        }
    }

    /// The profile's own tagging key.
    pub fn tagging_key(&self) -> (r: TaggingKey)
        ensures
            r@ == tagging_key_of(self.root()),
    {
        self.root_secret.tagging_key()
    }

    /// The hybrid private key, for decrypting detected ciphertexts.
    pub fn private_key(&self) -> (r: &PrivateKey)
        ensures
            r@ == self.privk(),
    {
        &self.private_key
    }

    /// The root secret, for persistence.
    pub fn root_secret(&self) -> (r: &RootSecret)
        ensures
            r@ == self.root(),
    {
        &self.root_secret
    }

    /// The profile's name.
    pub fn profile_name(&self) -> (r: &String)
        ensures
            r@ == self.name(),
    {
        &self.profile_name
    }

    /// The detection-key length.
    pub fn detection_key_length(&self) -> (r: usize)
        ensures
            r == self.dkl(),
    {
        self.detection_key_length
    }

    /// The contact book, for persistence.
    pub fn contact_list(&self) -> (r: &Vec<Contact>)
        ensures
            r@ == self.contacts(),
    {
        &self.contacts
    }

    /// The cursor, for persistence.
    pub fn last_seen_tag(&self) -> (r: &Option<Tag>)
        ensures
            (r is Some <==> self.last_seen() is Some),
            r matches Some(t) ==> Option::Some(t@) == self.last_seen(),
    {
        &self.last_seen_tag
    }

    /// Find a contact by name.
    fn find_contact(&self, id: &String) -> (r: Option<usize>)
        ensures
            r matches Some(j) ==> j < self.contacts().len() && self.contacts()[j as int].name@
                == id@,
            r is None ==> !self.knows(id@),
    {
        let mut i: usize = 0;
        while i < self.contacts.len()
            invariant
                i <= self.contacts().len(),
                forall|j: int| 0 <= j < i ==> (#[trigger] self.contacts()[j]).name@ != id@,
            decreases self.contacts().len() - i,
        {
            if crate::util::bytes_eq(
                &str_bytes_vec(self.contacts[i].name.as_str()),
                &str_bytes_vec(id.as_str()),
            ) {
                proof {
                    vstd::utf8::encode_utf8_decode_utf8(self.contacts()[i as int].name@);
                    vstd::utf8::encode_utf8_decode_utf8(id@);
                }
                return Some(i);
            }
            i = i + 1;
        }
        None
    }

    /// Generate a fresh tag from the named contact's tagging key; the one
    /// error is an unknown name.
    pub fn generate_tag(&self, id: &String) -> (r: Result<Tag, NiwlError>)
        ensures
            r is Ok <==> self.knows(id@),
            r matches Err(e) ==> e is NoKnownContactError,
            r matches Ok(tag) ==> exists|j: int|
                0 <= j < self.contacts().len() && (#[trigger] self.contacts()[j]).name@ == id@
                    && fresh_tag_for(self.contacts()[j].tagging_key@, tag@),
    {
        match self.find_contact(id) {
            Some(j) => {
                let tag = self.contacts[j].tagging_key.generate_tag();
                proof {
                    assert((#[trigger] self.contacts()[j as int]).name@ == id@);
                }
                Ok(tag)
            },
            None => Err(NiwlError::NoKnownContactError(no_known_contact_message(id))),
        }
    }

    /// Build the request that sends `message` to the named contact: a fresh
    /// tag from the contact's tagging key, and the message encrypted to the
    /// contact's public key under that tag. The one error is an unknown
    /// name; on error no request exists, so nothing reaches the relay.
    pub fn tag_and_send(&self, contact: &String, message: &String) -> (r: Result<
        PostMessageRequest,
        NiwlError,
    >)
        ensures
            r is Ok <==> self.knows(contact@),
            r matches Err(e) ==> e is NoKnownContactError,
            r matches Ok(req) ==> req.ciphertext@.tag == req.tag@ && exists|j: int|
                0 <= j < self.contacts().len() && (#[trigger] self.contacts()[j]).name@
                    == contact@ && fresh_tag_for(self.contacts()[j].tagging_key@, req.tag@)
                    && is_encryption_of(req.ciphertext@, self.contacts()[j].public_key@, message@),
    {
        match self.find_contact(contact) {
            Some(j) => {
                let tag = self.contacts[j].tagging_key.generate_tag();
                let ciphertext = self.contacts[j].public_key.encrypt(&tag, message);
                proof {
                    assert((#[trigger] self.contacts()[j as int]).name@ == contact@);
                }
                Ok(PostMessageRequest { tag, ciphertext })
            },
            None => Err(NiwlError::NoKnownContactError(no_known_contact_message(contact))),
        }
    }

    /// Build the request that routes `message` to the named contact through
    /// the named mix: the inner ciphertext is encrypted to the contact, its
    /// text frame becomes the payload of an outer request addressed to the
    /// mix. Unknown contact or mix is the one error.
    pub fn tag_and_mix(&self, mix: &String, contact: &String, message: &String) -> (r: Result<
        PostMessageRequest,
        NiwlError,
    >)
        ensures
            r is Ok <==> self.knows(contact@) && self.knows(mix@),
            r matches Err(e) ==> e is NoKnownContactError,
            r matches Ok(req) ==> req.ciphertext@.tag == req.tag@ && exists|jm: int|
                0 <= jm < self.contacts().len() && (#[trigger] self.contacts()[jm]).name@ == mix@
                    && fresh_tag_for(self.contacts()[jm].tagging_key@, req.tag@) && exists|
                    inner: Seq<char>,
                |
                    is_encryption_of(
                        req.ciphertext@,
                        self.contacts()[jm].public_key@,
                        inner,
                    ) && (#[trigger] parse_plaintext(vstd::utf8::encode_utf8(inner)) matches
                        Option::Some(MixMessageV::Forward(c)) && exists|jc: int|
                        0 <= jc < self.contacts().len() && (#[trigger] self.contacts()[jc]).name@
                            == contact@ && fresh_tag_for(self.contacts()[jc].tagging_key@, c.tag)
                            && is_encryption_of(
                            c,
                            self.contacts()[jc].public_key@,
                            message@,
                        )),
    {
        let jc = match self.find_contact(contact) {
            Some(j) => j,
            None => {
                return Err(NiwlError::NoKnownContactError(no_known_contact_message(contact)));
            },
        };
        let tag = self.contacts[jc].tagging_key.generate_tag();
        let inner_ct = self.contacts[jc].public_key.encrypt(&tag, message);
        let forward = MixMessage::Forward(inner_ct);
        let plaintext = crate::rem::encode_mix_message(&forward);
        let result = self.tag_and_send(mix, &plaintext);
        proof {
            assert((#[trigger] self.contacts()[jc as int]).name@ == contact@);
            if result is Ok {
                let req = result->Ok_0;
                let jm = choose|jm: int|
                    0 <= jm < self.contacts().len() && (#[trigger] self.contacts()[jm]).name@
                        == mix@ && fresh_tag_for(self.contacts()[jm].tagging_key@, req.tag@)
                        && is_encryption_of(
                        req.ciphertext@,
                        self.contacts()[jm].public_key@,
                        plaintext@,
                    );
                let inner = plaintext@;
                assert(parse_plaintext(vstd::utf8::encode_utf8(inner)) == Option::Some(
                    forward@,
                ));
                assert(forward@ matches MixMessageV::Forward(c) && c == inner_ct@);
                assert(is_encryption_of(
                    req.ciphertext@,
                    self.contacts()[jm].public_key@,
                    inner,
                ) && (parse_plaintext(vstd::utf8::encode_utf8(inner)) matches
                    Option::Some(MixMessageV::Forward(c)) && exists|jj: int|
                    0 <= jj < self.contacts().len() && (#[trigger] self.contacts()[jj]).name@
                        == contact@ && fresh_tag_for(self.contacts()[jj].tagging_key@, c.tag)
                        && is_encryption_of(c, self.contacts()[jj].public_key@, message@)));
            }
        }
        result
    }

    /// Build the request that sends `message` to this profile itself: a
    /// fresh tag from its own tagging key, encrypted to its own public key.
    pub fn send_to_self(&self, message: &String) -> (r: PostMessageRequest)
        ensures
            r.ciphertext@.tag == r.tag@,
            fresh_tag_for(tagging_key_of(self.root()), r.tag@),
            is_encryption_of(r.ciphertext@, crate::encrypt::base_point_of(self.privk()), message@),
    {
        let tag = self.root_secret.tagging_key().generate_tag();
        let ciphertext = self.private_key.public_key().encrypt(&tag, message);
        PostMessageRequest { tag, ciphertext }
    }

    /// Build the request that re-posts a pre-formed tagged ciphertext under
    /// its own tag.
    pub fn forward(&self, message: &TaggedCiphertext) -> (r: PostMessageRequest)
        ensures
            r.tag@ == message@.tag,
            r.ciphertext@ == message@,
    {
        let tag = message.tag().clone();
        let ciphertext = message.clone();
        PostMessageRequest { tag, ciphertext }
    }

    /// Build the fetch request for a detect round: the detection key of the
    /// profile's chosen length, anchored at the last seen tag.
    pub fn detect_tags(&self) -> (r: FetchMessagesRequest)
        ensures
            r.detection_key@ == detection_key_of(
                self.root(),
                if self.dkl() <= GAMMA {
                    self.dkl() as int
                } else {
                    GAMMA as int
                },
            ),
            reference_view(&r) == self.last_seen(),
    {
        let detection_key = self.root_secret.extract_detection_key(self.detection_key_length);
        let reference_tag = match &self.last_seen_tag {
            Some(t) => Some(t.clone()),
            None => None,
        };
        FetchMessagesRequest { reference_tag, detection_key }
    }

    /// Move the cursor to the given tag.
    pub fn update_previously_seen_tag(&mut self, tag: &Tag)
        ensures
            final(self).last_seen() == Option::Some(tag@),
            final(self).name() == old(self).name(),
            final(self).root() == old(self).root(),
            final(self).privk() == old(self).privk(),
            final(self).contacts() == old(self).contacts(),
            final(self).dkl() == old(self).dkl(),
    {
        let t = Some(tag.clone());
        proof {
            use_type_invariant(&*self);
        }
        self.last_seen_tag = t;
    }

    /// Import a contact from base32 key-set text. A well-formed key set
    /// under a fresh name is appended to the contact book; a duplicate name
    /// or malformed text changes nothing. At most one contact is added, and
    /// the existing book is never altered.
    pub fn import_tagging_key(&mut self, key: &String) -> (r: bool)
        ensures
            final(self).name() == old(self).name(),
            final(self).root() == old(self).root(),
            final(self).privk() == old(self).privk(),
            final(self).dkl() == old(self).dkl(),
            final(self).last_seen() == old(self).last_seen(),
            final(self).contacts().len() == old(self).contacts().len() + (if r {
                1int
            } else {
                0int
            }),
            final(self).contacts().take(old(self).contacts().len() as int) == old(self).contacts(),
            forall|name: Seq<char>, tk: Seq<u8>, pk: Seq<u8>|
                {
                    &&& key@ == base32_of(#[trigger] keyset_frame(name, tk, pk))
                    &&& vstd::utf8::encode_utf8(name).len() <= u64::MAX
                    &&& pk.len() == 32
                    &&& is_valid_point(pk)
                    &&& is_tagging_key(tk)
                    &&& full_key(tk)
                    &&& !old(self).knows(name)
                } ==> r && final(self).contacts().last().name@ == name
                    && final(self).contacts().last().tagging_key@ == tk
                    && final(self).contacts().last().public_key@ == pk,
            forall|name: Seq<char>, tk: Seq<u8>, pk: Seq<u8>|
                {
                    &&& key@ == base32_of(#[trigger] keyset_frame(name, tk, pk))
                    &&& vstd::utf8::encode_utf8(name).len() <= u64::MAX
                    &&& pk.len() == 32
                    &&& is_valid_point(pk)
                    &&& is_tagging_key(tk)
                    &&& full_key(tk)
                    &&& old(self).knows(name)
                } ==> !r && final(self).contacts() == old(self).contacts(),
            r ==> !old(self).knows(final(self).contacts().last().name@),
            !r ==> final(self).contacts() == old(self).contacts(),
    {
        proof {
            use_type_invariant(&*self);
        }
        let ks = match KeySet::decode(key) {
            Some(ks) => ks,
            None => {
                return false;
            },
        };
        match self.find_contact(&ks.profile_name) {
            Some(_) => false,
            None => {
                let contact = Contact {
                    name: ks.profile_name,
                    tagging_key: ks.tagging_key,
                    public_key: ks.public_key,
                };
                let mut contacts: Vec<Contact> = Vec::new();
                std::mem::swap(&mut contacts, &mut self.contacts);
                contacts.push(contact);
                std::mem::swap(&mut contacts, &mut self.contacts);
                proof {
                    assert(self.contacts().take(old(self).contacts().len() as int) =~= old(self).contacts());
                    assert(!old(self).knows(self.contacts().last().name@));
                }
                true
            },
        }
    }

    /// Work through the entries a detect round fetched: decrypt each with
    /// this profile's private key, collect the plaintexts of the true
    /// positives, and move the cursor to the last tag of the batch. Every
    /// message that was encrypted to this profile's public key among the
    /// entries is collected, and everything collected decrypts from one of
    /// the entries.
    pub fn process_detected_tags(&mut self, detected: &DetectedTags) -> (r: Vec<String>)
        ensures
            final(self).name() == old(self).name(),
            final(self).root() == old(self).root(),
            final(self).privk() == old(self).privk(),
            final(self).contacts() == old(self).contacts(),
            final(self).dkl() == old(self).dkl(),
            detected.detected_tags@.len() == 0 ==> final(self).last_seen() == old(
                self,
            ).last_seen() && r@.len() == 0,
            detected.detected_tags@.len() > 0 ==> final(self).last_seen() == Option::Some(
                detected.detected_tags@.last().0@,
            ),
            forall|i: int|
                0 <= i < detected.detected_tags@.len() ==> forall|m: Seq<char>|
                    #[trigger] is_encryption_of(
                        (#[trigger] detected.detected_tags@[i]).1@,
                        crate::encrypt::base_point_of(old(self).privk()),
                        m,
                    ) ==> exists|k: int| 0 <= k < r@.len() && (#[trigger] r@[k])@ == m,
            forall|k: int|
                0 <= k < r@.len() ==> exists|i: int|
                    0 <= i < detected.detected_tags@.len() && decrypts_to(
                        (#[trigger] detected.detected_tags@[i]).1@,
                        old(self).privk(),
                        (#[trigger] r@[k])@,
                    ),
            r@.len() <= detected.detected_tags@.len(),
    {
        proof {
            use_type_invariant(&*self);
        }
        let mut messages: Vec<String> = Vec::new();
        let mut i: usize = 0;
        let n = detected.detected_tags.len();
        while i < n
            invariant
                i <= n,
                n == detected.detected_tags@.len(),
                self.name() == old(self).name(),
                self.root() == old(self).root(),
                self.privk() == old(self).privk(),
                self.contacts() == old(self).contacts(),
                self.dkl() == old(self).dkl(),
                self.wf(),
                messages@.len() <= i,
                i == 0 ==> self.last_seen() == old(self).last_seen() && messages@.len() == 0,
                i > 0 ==> self.last_seen() == Option::Some(
                    detected.detected_tags@[i as int - 1].0@,
                ),
                forall|p: int|
                    0 <= p < i ==> forall|m: Seq<char>|
                        #[trigger] is_encryption_of(
                            (#[trigger] detected.detected_tags@[p]).1@,
                            crate::encrypt::base_point_of(old(self).privk()),
                            m,
                        ) ==> exists|k: int|
                            0 <= k < messages@.len() && (#[trigger] messages@[k])@ == m,
                forall|k: int|
                    0 <= k < messages@.len() ==> exists|p: int|
                        0 <= p < i && decrypts_to(
                            (#[trigger] detected.detected_tags@[p]).1@,
                            old(self).privk(),
                            (#[trigger] messages@[k])@,
                        ),
            decreases n - i,
        {
            let pair = &detected.detected_tags[i];
            let ghost msgs_before = messages@;
            let decrypted = self.private_key.decrypt(&pair.1);
            match decrypted {
                Some(plaintext) => {
                    messages.push(plaintext);
                },
                None => (),
            }
            proof {
                assert forall|k: int| 0 <= k < messages@.len() implies exists|p: int|
                    0 <= p < i + 1 && decrypts_to(
                        (#[trigger] detected.detected_tags@[p]).1@,
                        old(self).privk(),
                        (#[trigger] messages@[k])@,
                    ) by {
                    if k < msgs_before.len() {
                        let p = choose|p: int|
                            0 <= p < i && decrypts_to(
                                (#[trigger] detected.detected_tags@[p]).1@,
                                old(self).privk(),
                                msgs_before[k]@,
                            );
                        assert(messages@[k] == msgs_before[k]);
                        assert(decrypts_to(
                            detected.detected_tags@[p].1@,
                            old(self).privk(),
                            messages@[k]@,
                        ));
                    } else {
                        assert(decrypted matches Some(s) && messages@[k] == s);
                        assert(decrypts_to(
                            detected.detected_tags@[i as int].1@,
                            old(self).privk(),
                            messages@[k]@,
                        ));
                    }
                }
                assert forall|p: int| 0 <= p < i + 1 implies forall|m: Seq<char>|
                    #[trigger] is_encryption_of(
                        (#[trigger] detected.detected_tags@[p]).1@,
                        crate::encrypt::base_point_of(old(self).privk()),
                        m,
                    ) ==> exists|k: int|
                        0 <= k < messages@.len() && (#[trigger] messages@[k])@ == m by {
                    assert forall|m: Seq<char>|
                        #[trigger] is_encryption_of(
                            detected.detected_tags@[p].1@,
                            crate::encrypt::base_point_of(old(self).privk()),
                            m,
                        ) implies exists|k: int|
                            0 <= k < messages@.len() && (#[trigger] messages@[k])@ == m by {
                        if p < i {
                            let k = choose|k: int|
                                0 <= k < msgs_before.len() && (#[trigger] msgs_before[k])@ == m;
                            assert(messages@[k]@ == m);
                        } else {
                            assert(decrypted matches Some(s) && s@ == m);
                            assert(messages@[messages@.len() - 1]@ == m);
                        }
                    }
                }
            }
            self.update_previously_seen_tag(&pair.0);
            i = i + 1;
        }
        messages
    }
}

/// Relies on std's string formatting for the error text.
#[verifier::external_body]
fn no_known_contact_message(id: &String) -> (r: String) {
    format!("No known friend {}. Perhaps you need to import-tagging-key first?", id)
}

/// Relies on String::clone: the copy holds the same characters.
#[verifier::external_body]
fn clone_string(s: &String) -> (r: String)
    ensures
        r@ == s@,
{
    s.clone()
}

} // verus!
