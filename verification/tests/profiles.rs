//! End-to-end tests of profiles, contact import, and delivery through the
//! relay store.

use niwl::rem::{MixMessage, RandomEjectionMix};
use niwl::tags::RootSecret;
use niwl::{NiwlError, Profile, RelayStore};

#[test]
fn direct_delivery() {
    let mut alice = Profile::new(String::from("alice"), 2);
    let mut bob = Profile::new(String::from("bob"), 2);

    let bob_key = bob.keyset().encode();
    assert!(alice.import_tagging_key(&bob_key));

    let mut relay = RelayStore::new();
    let request = alice
        .tag_and_send(&String::from("bob"), &String::from("hello"))
        .expect("bob is a known contact");
    relay.post(request);

    let fetched = relay.tags(&bob.detect_tags());
    assert!(fetched.detected_tags.len() >= 1);
    let messages = bob.process_detected_tags(&fetched);
    assert_eq!(messages, vec![String::from("hello")]);

    // The cursor moved: the same detect round now returns nothing new.
    let again = relay.tags(&bob.detect_tags());
    assert_eq!(again.detected_tags.len(), 0);
}

#[test]
fn unknown_contact_posts_nothing() {
    let alice = Profile::new(String::from("alice"), 2);
    let relay = RelayStore::new();
    match alice.tag_and_send(&String::from("carol"), &String::from("hi")) {
        Err(NiwlError::NoKnownContactError(_)) => (),
        _ => panic!("expected NoKnownContactError"),
    }
    assert_eq!(relay.len(), 0);
}

#[test]
fn duplicate_import_is_a_no_op() {
    let mut alice = Profile::new(String::from("alice"), 2);
    let bob = Profile::new(String::from("bob"), 2);
    let bob_key = bob.keyset().encode();
    assert!(alice.import_tagging_key(&bob_key));
    assert!(!alice.import_tagging_key(&bob_key));
    assert_eq!(alice.contact_list().len(), 1);
}

#[test]
fn malformed_import_is_rejected() {
    let mut alice = Profile::new(String::from("alice"), 2);
    assert!(!alice.import_tagging_key(&String::from("not base32 at all!!")));
    assert!(!alice.import_tagging_key(&String::from("mfrgg")));
    assert_eq!(alice.contact_list().len(), 0);
}

#[test]
fn keyset_text_round_trips() {
    let bob = Profile::new(String::from("bob"), 2);
    let ks = bob.keyset();
    let text = ks.encode();
    let decoded = niwl::KeySet::decode(&text).expect("own key set decodes");
    assert_eq!(decoded.profile_name, String::from("bob"));
    assert_eq!(decoded.tagging_key.as_bytes(), ks.tagging_key.as_bytes());
    assert_eq!(decoded.public_key.as_bytes(), ks.public_key.as_bytes());
}

#[test]
fn mix_forwarding() {
    let mut alice = Profile::new(String::from("alice"), 2);
    let mut bob = Profile::new(String::from("bob"), 2);
    // A mix watches for its own messages with the full-length key.
    let mut mix_profile = Profile::new(String::from("m"), 24);

    let bob_key = bob.keyset().encode();
    let mix_key = mix_profile.keyset().encode();
    assert!(alice.import_tagging_key(&bob_key));
    assert!(alice.import_tagging_key(&mix_key));

    let mut relay = RelayStore::new();
    let request = alice
        .tag_and_mix(&String::from("m"), &String::from("bob"), &String::from("secret"))
        .expect("both contacts are known");
    relay.post(request);

    // Without the mix running, Bob sees no true positive.
    let bob_view = relay.tags(&bob.detect_tags());
    let bob_messages = bob.process_detected_tags(&bob_view);
    assert_eq!(bob_messages.len(), 0);

    // The mix picks the message up, unwraps it, and egresses exactly one
    // ciphertext from its pool.
    let hb_tag = mix_profile.tagging_key().generate_tag();
    let mut rem = RandomEjectionMix::init(hb_tag);
    let fetched = relay.tags(&mix_profile.detect_tags());
    assert_eq!(fetched.detected_tags.len(), 1);
    let mut egress = 0;
    for (tag, ciphertext) in fetched.detected_tags.iter() {
        let plaintext = mix_profile.private_key().decrypt(ciphertext).expect("addressed to mix");
        match rem.push(tag, &plaintext) {
            Some(MixMessage::Forward(out)) => {
                egress += 1;
                relay.post(mix_profile.forward(&out));
            },
            Some(MixMessage::Heartbeat(_, _)) => panic!("not a heartbeat"),
            None => panic!("the forward frame must parse"),
        }
    }
    assert_eq!(egress, 1);
    assert_eq!(relay.len(), 2);
}

#[test]
fn send_to_self_round_trips() {
    let mut me = Profile::new(String::from("me"), 24);
    let mut relay = RelayStore::new();
    relay.post(me.send_to_self(&String::from("note to self")));
    let fetched = relay.tags(&me.detect_tags());
    let messages = me.process_detected_tags(&fetched);
    assert_eq!(messages, vec![String::from("note to self")]);
}

#[test]
fn generate_tag_matches_own_detection_keys() {
    let mut alice = Profile::new(String::from("alice"), 2);
    let bob = Profile::new(String::from("bob"), 2);
    assert!(alice.import_tagging_key(&bob.keyset().encode()));
    let tag = alice.generate_tag(&String::from("bob")).expect("known contact");
    // Completeness: the tag Alice makes for Bob passes Bob's detection key.
    let root = RootSecret::from_bytes(bob.root_secret().as_bytes().clone()).unwrap();
    for n in 1..=24 {
        assert!(root.extract_detection_key(n).test_tag(&tag));
    }
}

#[test]
fn keyset_text_is_lowercase_base32() {
    let bob = Profile::new(String::from("bob"), 2);
    let text = bob.keyset().encode();
    assert!(!text.is_empty());
    assert!(text.chars().all(|c| c.is_ascii_lowercase() || ('2'..='7').contains(&c)));
}
