//! Tests of the random-ejection mix and its message framing.

use niwl::encrypt::{PrivateKey, TaggedCiphertext};
use niwl::rem::{
    decode_mix_message, encode_mix_message, MixMessage, RandomEjectionMix, POOL_SIZE,
};
use niwl::tags::RootSecret;

fn fingerprint(c: &TaggedCiphertext) -> (Vec<u8>, Vec<u8>, Vec<u8>) {
    (
        c.tag().as_bytes().clone(),
        c.nonce_bytes().clone(),
        c.ciphertext_bytes().clone(),
    )
}

fn pool_fingerprints(mix: &RandomEjectionMix) -> Vec<(Vec<u8>, Vec<u8>, Vec<u8>)> {
    mix.entries().iter().map(fingerprint).collect()
}

#[test]
fn pool_size_constant_under_forwards() {
    let tag = RootSecret::generate().tagging_key().generate_tag();
    let mut mix = RandomEjectionMix::init(tag);
    assert_eq!(mix.entries().len(), POOL_SIZE);
    for _ in 0..5 {
        let incoming = RandomEjectionMix::get_random();
        let plaintext = encode_mix_message(&MixMessage::Forward(incoming));
        let stranger = RootSecret::generate().tagging_key().generate_tag();
        match mix.push(&stranger, &plaintext) {
            Some(MixMessage::Forward(_)) => (),
            other => panic!("expected a forwarded ciphertext, got {:?}", other.is_some()),
        }
        assert_eq!(mix.entries().len(), POOL_SIZE);
    }
}

#[test]
fn pool_contents_change_by_exactly_one_swap() {
    let tag = RootSecret::generate().tagging_key().generate_tag();
    let mut mix = RandomEjectionMix::init(tag);
    let before = pool_fingerprints(&mix);

    let incoming = RandomEjectionMix::get_random();
    let incoming_fp = fingerprint(&incoming);
    let plaintext = encode_mix_message(&MixMessage::Forward(incoming));
    let stranger = RootSecret::generate().tagging_key().generate_tag();
    let ejected = match mix.push(&stranger, &plaintext) {
        Some(MixMessage::Forward(c)) => c,
        _ => panic!("expected a forwarded ciphertext"),
    };
    let after = pool_fingerprints(&mix);

    // after = (before without the ejected entry) plus the incoming entry.
    let mut expected = before.clone();
    let pos = expected
        .iter()
        .position(|f| *f == fingerprint(&ejected))
        .expect("ejected entry came from the pool");
    expected.remove(pos);
    expected.push(incoming_fp);
    let mut got = after.clone();
    expected.sort();
    got.sort();
    assert_eq!(expected, got);
}

#[test]
fn heartbeat_refreshes_liveness_and_answers() {
    let root = RootSecret::generate();
    let hb_tag = root.tagging_key().generate_tag();
    let mut mix = RandomEjectionMix::init(hb_tag.clone());

    let t: u64 = 5_000_000;
    let plaintext = encode_mix_message(&MixMessage::Heartbeat(hb_tag.clone(), t));
    let carrier = root.tagging_key().generate_tag();
    match mix.push(&carrier, &plaintext) {
        Some(MixMessage::Heartbeat(answer_tag, _)) => assert!(answer_tag.matches(&hb_tag)),
        _ => panic!("expected a heartbeat answer"),
    }
    // The stored time is now t: within the timeout the check passes,
    // beyond it the mix presumes a delaying relay.
    assert!(mix.heartbeat_ok_at(t));
    assert!(mix.heartbeat_ok_at(t + 120));
    assert!(!mix.heartbeat_ok_at(t + 121));
}

#[test]
fn foreign_heartbeat_ignored() {
    let hb_tag = RootSecret::generate().tagging_key().generate_tag();
    let mut mix = RandomEjectionMix::init(hb_tag);

    let other = RootSecret::generate().tagging_key().generate_tag();
    let t: u64 = 7_000_000_000;
    let plaintext = encode_mix_message(&MixMessage::Heartbeat(other.clone(), t));
    assert!(mix.push(&other, &plaintext).is_none());
    // Liveness was not refreshed to the foreign timestamp: the stored time
    // is still the startup clock, far below this horizon.
    assert!(!mix.heartbeat_ok_at(6_000_000_000));
}

#[test]
fn garbage_plaintext_dropped_silently() {
    let hb_tag = RootSecret::generate().tagging_key().generate_tag();
    let mut mix = RandomEjectionMix::init(hb_tag);
    let before = pool_fingerprints(&mix);
    let carrier = RootSecret::generate().tagging_key().generate_tag();
    assert!(mix.push(&carrier, &String::from("not a frame")).is_none());
    assert!(mix.push(&carrier, &String::new()).is_none());
    assert!(mix.push(&carrier, &String::from("zz")).is_none());
    assert_eq!(pool_fingerprints(&mix), before);
}

#[test]
fn mix_message_framing_round_trips() {
    let root = RootSecret::generate();
    let tag = root.tagging_key().generate_tag();

    let t: u64 = 1_234_567_890;
    let hb = encode_mix_message(&MixMessage::Heartbeat(tag.clone(), t));
    match decode_mix_message(&hb) {
        Some(MixMessage::Heartbeat(tag2, t2)) => {
            assert!(tag2.matches(&tag));
            assert_eq!(t2, t);
        },
        _ => panic!("heartbeat frame did not round trip"),
    }

    let secret = PrivateKey::generate();
    let ct = secret.public_key().encrypt(&tag, &String::from("inner"));
    let fp = fingerprint(&ct);
    let fwd = encode_mix_message(&MixMessage::Forward(ct));
    match decode_mix_message(&fwd) {
        Some(MixMessage::Forward(ct2)) => {
            assert_eq!(fingerprint(&ct2), fp);
            assert_eq!(secret.decrypt(&ct2).unwrap(), String::from("inner"));
        },
        _ => panic!("forward frame did not round trip"),
    }
}

#[test]
fn hex_codec_round_trips() {
    let data = vec![0u8, 1, 15, 16, 127, 128, 255];
    let encoded = niwl::codec::hex_encode(&data);
    assert_eq!(encoded, b"00010f107f80ff".to_vec());
    assert_eq!(niwl::codec::hex_decode(&encoded).unwrap(), data);
    assert!(niwl::codec::hex_decode(&vec![b'0']).is_none());
    assert!(niwl::codec::hex_decode(&vec![b'0', b'g']).is_none());
}
