//! The random-ejection mix: a fixed-size pool of tagged ciphertexts. Each
//! forwarded message displaces one uniformly chosen pool entry, which becomes
//! the egress message; a heartbeat protocol watches for a relay that delays
//! messages. Mix messages travel inside the encrypted payload as a hex text
//! frame with an explicit discriminator.

use vstd::prelude::*;

use crate::codec::{
    hex_decode, hex_encode, lemma_hex_round_trip, spec_hex, spec_unhex, valid_hex,
};
use crate::encrypt::{bytes_to_string, is_encryption_of, PrivateKey, TaggedCiphertext, TaggedCiphertextV};
use crate::tags::{is_tag, RootSecret, Tag, TAG_LEN};
use rand::Rng;
use vstd::bytes::{lemma_auto_spec_u64_to_from_le_bytes, spec_u64_from_le_bytes, spec_u64_to_le_bytes};

verus! {

/// The number of ciphertexts a mix pool holds.
pub const POOL_SIZE: usize = 10;

/// Seconds a mix waits for its own heartbeat before it presumes the relay
/// is delaying messages.
pub const HEARTBEAT_TIMEOUT_SECS: u64 = 120;

/// The discriminator byte of a forwarded ciphertext frame.
pub const FORWARD_DISC: u8 = 70;

/// The discriminator byte of a heartbeat frame.
pub const HEARTBEAT_DISC: u8 = 72;

/// A message a mix finds inside a decrypted payload: either a ciphertext to
/// forward, or a heartbeat carrying a tag and a timestamp.
pub enum MixMessage {
    Heartbeat(Tag, u64),
    Forward(TaggedCiphertext),
}

/// The mathematical contents of a mix message.
pub ghost enum MixMessageV {
    Heartbeat(Seq<u8>, u64),
    Forward(TaggedCiphertextV),
}

impl View for MixMessage {
    type V = MixMessageV;

    open spec fn view(&self) -> MixMessageV {
        match self {
            MixMessage::Heartbeat(tag, t) => MixMessageV::Heartbeat(tag@, *t),
            MixMessage::Forward(c) => MixMessageV::Forward(c@),
        }
    }
}

/// A cover ciphertext: an encryption of the empty message under some key.
/// The mix generates these with keys it immediately discards.
pub open spec fn is_cover(c: TaggedCiphertextV) -> bool {
    exists|sk: Seq<u8>|
        is_encryption_of(c, #[trigger] crate::encrypt::base_point_of(sk), Seq::empty())
}

/// Well-formedness of the parts a mix message carries.
pub open spec fn mix_v_wf(m: MixMessageV) -> bool {
    match m {
        MixMessageV::Heartbeat(tag, _) => is_tag(tag) && tag.len() == TAG_LEN,
        MixMessageV::Forward(c) => crate::encrypt::tc_wf(c),
    }
}

/// The byte frame of a mix message, before hex encoding.
pub open spec fn frame_of(m: MixMessageV) -> Seq<u8> {
    match m {
        MixMessageV::Heartbeat(tag, t) => seq![HEARTBEAT_DISC] + tag + spec_u64_to_le_bytes(t),
        MixMessageV::Forward(c) => seq![FORWARD_DISC] + c.tag + c.nonce + c.ciphertext,
    }
}

/// Decode a byte frame into the mix message it stands for.
pub open spec fn parse_frame(b: Seq<u8>) -> Option<MixMessageV> {
    if b.len() >= 1 + TAG_LEN + 32 + 16 && b[0] == FORWARD_DISC {
        Option::Some(
            MixMessageV::Forward(
                TaggedCiphertextV {
                    tag: b.subrange(1, 1 + TAG_LEN as int),
                    nonce: b.subrange(1 + TAG_LEN as int, 33 + TAG_LEN as int),
                    ciphertext: b.subrange(33 + TAG_LEN as int, b.len() as int),
                },
            ),
        )
    } else if b.len() == 1 + TAG_LEN + 8 && b[0] == HEARTBEAT_DISC {
        Option::Some(
            MixMessageV::Heartbeat(
                b.subrange(1, 1 + TAG_LEN as int),
                spec_u64_from_le_bytes(b.subrange(1 + TAG_LEN as int, 9 + TAG_LEN as int)),
            ),
        )
    } else {
        Option::None
    }
}

/// Decode the UTF-8 bytes of a plaintext into the mix message it carries.
pub open spec fn parse_plaintext(bytes: Seq<u8>) -> Option<MixMessageV> {
    if valid_hex(bytes) {
        parse_frame(spec_unhex(bytes))
    } else {
        Option::None
    }
}

/// Round trip of the mix message framing: a well-formed message framed,
/// hex-encoded and decoded again is itself.
#[verifier::rlimit(60)]
#[verifier::spinoff_prover]
pub proof fn lemma_mix_message_round_trip(m: MixMessageV)
    requires
        mix_v_wf(m),
    ensures
        parse_plaintext(spec_hex(frame_of(m))) == Option::Some(m),
{
    lemma_hex_round_trip(frame_of(m));
    lemma_auto_spec_u64_to_from_le_bytes();
    let b = frame_of(m);
    match m {
        MixMessageV::Heartbeat(tag, t) => {
            assert(b.subrange(1, 1 + TAG_LEN as int) =~= tag);
            assert(b.subrange(1 + TAG_LEN as int, 9 + TAG_LEN as int) =~= spec_u64_to_le_bytes(t));
        },
        MixMessageV::Forward(c) => {
            assert(b.subrange(1, 1 + TAG_LEN as int) =~= c.tag);
            assert(b.subrange(1 + TAG_LEN as int, 33 + TAG_LEN as int) =~= c.nonce);
            assert(b.subrange(33 + TAG_LEN as int, b.len() as int) =~= c.ciphertext);
        },
    }
}

/// Encode a mix message as a text plaintext: the hex of its byte frame.
pub fn encode_mix_message(m: &MixMessage) -> (r: String)
    ensures
        vstd::utf8::encode_utf8(r@) == spec_hex(frame_of(m@)),
        parse_plaintext(vstd::utf8::encode_utf8(r@)) == Option::Some(m@),
{
    let mut frame: Vec<u8> = Vec::new();
    match m {
        MixMessage::Heartbeat(tag, t) => {
            frame.push(HEARTBEAT_DISC);
            crate::codec::append_bytes(&mut frame, tag.as_bytes());
            let ts = vstd::bytes::u64_to_le_bytes(*t);
            crate::codec::append_bytes(&mut frame, &ts);
            proof {
                use_type_invariant(tag);
                assert(frame@ =~= frame_of(m@));
            }
        },
        MixMessage::Forward(c) => {
            frame.push(FORWARD_DISC);
            crate::codec::append_bytes(&mut frame, c.tag().as_bytes());
            crate::codec::append_bytes(&mut frame, c.nonce_bytes());
            crate::codec::append_bytes(&mut frame, c.ciphertext_bytes());
            proof {
                assert(frame@ =~= frame_of(m@));
            }
        },
    }
    let hexed = hex_encode(&frame);
    proof {
        lemma_hex_round_trip(frame@);
        assert forall|i: int| 0 <= i < hexed@.len() implies hexed@[i] < 128 by {
            assert(crate::codec::is_hex_digit(hexed@[i]));
        }
        match m {
            MixMessage::Heartbeat(tag, t) => {
                use_type_invariant(tag);
            },
            MixMessage::Forward(c) => {
                use_type_invariant(c);
            },
        }
        lemma_mix_message_round_trip(m@);
    }
    match bytes_to_string(hexed) {
        Some(s) => s,
        None => vstd::pervasive::unreached(),
    }
}

/// Decode a plaintext back into the mix message it carries; `None` exactly
/// when the text is not a well-formed frame of well-formed parts.
pub fn decode_mix_message(s: &String) -> (r: Option<MixMessage>)
    ensures
        r matches Some(m) ==> parse_plaintext(vstd::utf8::encode_utf8(s@)) == Option::Some(m@)
            && mix_v_wf(m@),
        r is None ==> !(parse_plaintext(vstd::utf8::encode_utf8(s@)) matches Option::Some(mv)
            && mix_v_wf(mv)),
{
    let bytes = s.as_str().as_bytes();
    let mut byte_vec: Vec<u8> = Vec::new();
    let mut i: usize = 0;
    while i < bytes.len()
        invariant
            i <= bytes@.len(),
            byte_vec@ =~= bytes@.take(i as int),
        decreases bytes@.len() - i,
    {
        byte_vec.push(bytes[i]);
        proof {
            assert(byte_vec@ =~= bytes@.take(i as int + 1));
        }
        i = i + 1;
    }
    proof {
        assert(byte_vec@ =~= bytes@);
    }
    let frame = match hex_decode(&byte_vec) {
        Some(f) => f,
        None => {
            return None;
        },
    };
    if frame.len() >= 1 + TAG_LEN + 32 + 16 && frame[0] == FORWARD_DISC {
        let tag_bytes = crate::codec::take_range(&frame, 1, 1 + TAG_LEN);
        let nonce = crate::codec::take_range(&frame, 1 + TAG_LEN, 33 + TAG_LEN);
        let ct = crate::codec::take_range(&frame, 33 + TAG_LEN, frame.len());
        let tag = match Tag::from_bytes(tag_bytes) {
            Some(t) => t,
            None => {
                return None;
            },
        };
        match TaggedCiphertext::from_parts(tag, nonce, ct) {
            Some(c) => Some(MixMessage::Forward(c)),
            None => None,
        }
    } else if frame.len() == 1 + TAG_LEN + 8 && frame[0] == HEARTBEAT_DISC {
        let tag_bytes = crate::codec::take_range(&frame, 1, 1 + TAG_LEN);
        let ts_bytes = crate::codec::take_range(&frame, 1 + TAG_LEN, 9 + TAG_LEN);
        let t = vstd::bytes::u64_from_le_bytes(ts_bytes.as_slice());
        match Tag::from_bytes(tag_bytes) {
            Some(tag) => Some(MixMessage::Heartbeat(tag, t)),
            None => None,
        }
    } else {
        None
    }
}

/// Whether a heartbeat last seen at `last` still counts as live at `now`.
pub open spec fn spec_heartbeat_ok(last: u64, now: u64) -> bool {
    now <= last + HEARTBEAT_TIMEOUT_SECS
}

/// Relies on chrono::Local::now: the current unix timestamp in seconds.
/// Nothing is promised of the clock.
#[verifier::external_body]
fn now_seconds() -> (r: i64) {
    chrono::Local::now().timestamp()
}

/// Relies on rand::Rng::gen_range over the system rng: a uniform index
/// below `n`; only the bound is promised.
#[verifier::external_body]
fn random_index(n: usize) -> (r: usize)
    requires
        n > 0,
    ensures
        r < n,
{
    rand::rngs::OsRng.gen_range(0, n)
}

/// The clock as a non-negative number of seconds.
fn clock_now() -> (r: u64) {
    let t = now_seconds();
    if t < 0 {
        0
    } else {
        t as u64
    }
}

/// The random-ejection mix: a pool of ciphertexts at constant size, the tag
/// its own heartbeats carry, and the time the last heartbeat came back.
pub struct RandomEjectionMix {
    heartbeat_id: Tag,
    last_heartbeat: u64,
    store: Vec<TaggedCiphertext>,
}

impl RandomEjectionMix {
    /// The pool invariant: the pool always holds exactly `POOL_SIZE`
    /// ciphertexts.
    pub open spec fn wf(self) -> bool {
        self.pool().len() == POOL_SIZE
    }

    /// The contents of the pool.
    pub closed spec fn pool(self) -> Seq<TaggedCiphertextV> {
        Seq::new(self.store@.len(), |i: int| self.store@[i]@)
    }

    /// The tag this mix's heartbeats carry.
    pub closed spec fn heartbeat_tag(self) -> Seq<u8> {
        self.heartbeat_id@
    }

    /// The timestamp of the last heartbeat that came back.
    pub closed spec fn last_heartbeat(self) -> u64 {
        self.last_heartbeat
    }

    /// Start a mix: remember the heartbeat tag, take the current time, and
    /// fill the pool with cover ciphertexts that nobody can decrypt.
    pub fn init(tag: Tag) -> (r: RandomEjectionMix)
        ensures
            r.wf(),
            r.heartbeat_tag() == tag@,
            forall|i: int| 0 <= i < r.pool().len() ==> is_cover(#[trigger] r.pool()[i]),
    {
        let mut store: Vec<TaggedCiphertext> = Vec::new();
        let mut i: usize = 0;
        while i < POOL_SIZE
            invariant
                i <= POOL_SIZE,
                store@.len() == i,
                forall|j: int| 0 <= j < i ==> is_cover((#[trigger] store@[j])@),
            decreases POOL_SIZE - i,
        {
            store.push(RandomEjectionMix::get_random());
            i = i + 1;
        }
        let ghost pool0 = store@;
        let r = RandomEjectionMix { heartbeat_id: tag, last_heartbeat: clock_now(), store };
        proof {
            assert(r.pool().len() == POOL_SIZE);
            assert forall|i: int| 0 <= i < r.pool().len() implies is_cover(
                #[trigger] r.pool()[i],
            ) by {
                assert(is_cover((pool0[i])@));
                assert(r.pool()[i] == (pool0[i])@);
            }
        }
        r
    }

    /// A fresh cover ciphertext: an empty message encrypted to a freshly
    /// drawn key under a tag from a freshly drawn root secret. The keys are
    /// discarded, so nobody can decrypt it or detect its tag.
    pub fn get_random() -> (r: TaggedCiphertext)
        ensures
            is_cover(r@),
    {
        let random_tag = RootSecret::generate().tagging_key().generate_tag();
        let random_secret = PrivateKey::generate();
        let cover = random_secret.public_key().encrypt(&random_tag, &String::new());
        proof {
            assert(is_encryption_of(
                cover@,
                crate::encrypt::base_point_of(random_secret@),
                Seq::empty(),
            ));
        }
        cover
    }

    /// Displace one uniformly chosen pool entry by the incoming ciphertext;
    /// the displaced entry is the egress. The pool keeps its size, and its
    /// contents change by exactly that one swap.
    pub fn random_ejection_mix(&mut self, ciphertext: &TaggedCiphertext) -> (r: TaggedCiphertext)
        requires
            old(self).wf(),
        ensures
            final(self).wf(),
            final(self).heartbeat_tag() == old(self).heartbeat_tag(),
            final(self).last_heartbeat() == old(self).last_heartbeat(),
            exists|i: int|
                0 <= i < POOL_SIZE && final(self).pool() == old(self).pool().update(
                    i,
                    ciphertext@,
                ) && r@ == old(self).pool()[i],
            final(self).pool().to_multiset() == old(self).pool().to_multiset().insert(
                ciphertext@,
            ).remove(r@),
    {
        let i = random_index(POOL_SIZE);
        let ejection = self.store[i].clone();
        self.store.set(i, ciphertext.clone());
        proof {
            assert(self.pool() =~= old(self).pool().update(i as int, ciphertext@));
            assert(ejection@ == old(self).pool()[i as int]);
            vstd::seq_lib::to_multiset_update(old(self).pool(), i as int, ciphertext@);
        }
        ejection
    }

    /// Handle one decrypted plaintext. A forwarded ciphertext goes through
    /// the pool and the displaced entry comes back for egress; a heartbeat
    /// carrying this mix's own tag refreshes liveness and a fresh heartbeat
    /// comes back for sending; anything else, including a frame whose parts
    /// are malformed, is dropped silently with nothing changed.
    pub fn push(&mut self, tag: &Tag, plaintext: &String) -> (r: Option<MixMessage>)
        requires
            old(self).wf(),
        ensures
            final(self).wf(),
            final(self).heartbeat_tag() == old(self).heartbeat_tag(),
            (match parse_plaintext(vstd::utf8::encode_utf8(plaintext@)) {
                Option::Some(MixMessageV::Forward(c)) => if mix_v_wf(MixMessageV::Forward(c)) {
                    final(self).last_heartbeat() == old(self).last_heartbeat() && (exists|i: int|
                        0 <= i < POOL_SIZE && final(self).pool() == old(self).pool().update(i, c)
                            && (r matches Some(m) && m@ == MixMessageV::Forward(
                            old(self).pool()[i],
                        )))
                } else {
                    *final(self) == *old(self) && r is None
                },
                Option::Some(MixMessageV::Heartbeat(id, t)) => if mix_v_wf(
                    MixMessageV::Heartbeat(id, t),
                ) {
                    final(self).pool() == old(self).pool() && (if id == old(
                        self,
                    ).heartbeat_tag() {
                        final(self).last_heartbeat() == t && (r matches Some(m) && (m@ matches
                            MixMessageV::Heartbeat(id2, _) && id2 == old(self).heartbeat_tag()))
                    } else {
                        final(self).last_heartbeat() == old(self).last_heartbeat() && r is None
                    })
                } else {
                    *final(self) == *old(self) && r is None
                },
                Option::None => *final(self) == *old(self) && r is None,
            }),
    {
        match decode_mix_message(plaintext) {
            Some(MixMessage::Forward(ciphertext)) => {
                let out = self.random_ejection_mix(&ciphertext);
                Some(MixMessage::Forward(out))
            },
            Some(MixMessage::Heartbeat(id, t)) => self.process_heartbeat(&id, t),
            None => None,
        }
    }

    /// Refresh liveness from a heartbeat that carries this mix's own tag
    /// and answer with a fresh one; ignore any other heartbeat.
    fn process_heartbeat(&mut self, tag: &Tag, heartbeat: u64) -> (r: Option<MixMessage>)
        requires
            old(self).wf(),
        ensures
            final(self).wf(),
            final(self).pool() == old(self).pool(),
            final(self).heartbeat_tag() == old(self).heartbeat_tag(),
            tag@ == old(self).heartbeat_tag() ==> final(self).last_heartbeat() == heartbeat && (
            r matches Some(m) && (m@ matches MixMessageV::Heartbeat(id2, _) && id2 == old(
                self,
            ).heartbeat_tag())),
            tag@ != old(self).heartbeat_tag() ==> *final(self) == *old(self) && r is None,
    {
        if tag.matches(&self.heartbeat_id) {
            self.last_heartbeat = heartbeat;
            let now = clock_now();
            let reply = MixMessage::Heartbeat(self.heartbeat_id.clone(), now);
            Some(reply)
        } else {
            None
        }
    }

    /// Whether the last heartbeat is recent enough at time `now`.
    pub fn heartbeat_ok_at(&self, now: u64) -> (r: bool)
        ensures
            r == spec_heartbeat_ok(self.last_heartbeat(), now),
    {
        if now < self.last_heartbeat {
            true
        } else {
            now - self.last_heartbeat <= HEARTBEAT_TIMEOUT_SECS
        }
    }

    /// Whether the last heartbeat is recent enough right now. False means
    /// the relay has been holding this mix's messages past the timeout.
    pub fn check_heartbeat(&self) -> (r: bool) {
        let now = clock_now();
        self.heartbeat_ok_at(now)
    }

    /// How many cover ciphertexts to emit this round: one as the routine
    /// pool refresh while the heartbeat is live; a uniformly random burst
    /// below 100 once the heartbeat is overdue and the relay is presumed to
    /// be delaying messages.
    pub fn covers_to_emit(&self, now: u64) -> (r: usize)
        ensures
            spec_heartbeat_ok(self.last_heartbeat(), now) ==> r == 1,
            !spec_heartbeat_ok(self.last_heartbeat(), now) ==> r < 100,
    {
        if self.heartbeat_ok_at(now) {
            1
        } else {
            random_index(100)
        }
    }

    /// The pool contents, for observation.
    pub fn entries(&self) -> (r: &Vec<TaggedCiphertext>)
        ensures
            r@.len() == self.pool().len(),
            forall|i: int| 0 <= i < r@.len() ==> (#[trigger] r@[i])@ == self.pool()[i],
    {
        &self.store
    }
}

/// Heartbeat liveness: after a mix accepts a heartbeat carrying its own tag
/// and timestamp `t`, its liveness check at any time within the timeout of
/// `t` passes.
pub proof fn lemma_heartbeat_liveness(m: RandomEjectionMix, t: u64, now: u64)
    requires
        m.last_heartbeat() == t,
        now <= t + HEARTBEAT_TIMEOUT_SECS,
    ensures
        spec_heartbeat_ok(m.last_heartbeat(), now),
{
}

} // verus!
