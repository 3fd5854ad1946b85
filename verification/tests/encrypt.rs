//! Tests of the tag-bound hybrid encryption layer.

use niwl::encrypt::PrivateKey;
use niwl::tags::{RootSecret, Tag, TAG_LEN};

#[test]
fn test_encrypt_to_tag() {
    let secret = PrivateKey::generate();
    let public_key = secret.public_key();

    let root_secret = RootSecret::generate();
    let tagging_key = root_secret.tagging_key();

    let ciphertext = public_key.encrypt(&tagging_key.generate_tag(), &String::from("Hello World"));

    let plaintext = secret.decrypt(&ciphertext);
    assert_eq!(plaintext.unwrap(), String::from("Hello World"))
}

#[test]
fn decrypt_with_wrong_key_fails() {
    let alice = PrivateKey::generate();
    let bob = PrivateKey::generate();
    let root = RootSecret::generate();
    let tag = root.tagging_key().generate_tag();

    let ciphertext = alice.public_key().encrypt(&tag, &String::from("for alice only"));
    assert!(bob.decrypt(&ciphertext).is_none());
    assert_eq!(alice.decrypt(&ciphertext).unwrap(), String::from("for alice only"));
}

#[test]
fn ciphertext_hides_and_extends_message() {
    let secret = PrivateKey::generate();
    let tag = RootSecret::generate().tagging_key().generate_tag();
    let message = String::from("sixteen bytes!!!");

    let ciphertext = secret.public_key().encrypt(&tag, &message);
    // The sealed payload carries a 16-byte authentication tag.
    assert_eq!(ciphertext.ciphertext_bytes().len(), message.len() + 16);
    assert_ne!(ciphertext.ciphertext_bytes().as_slice(), message.as_bytes());
}

#[test]
fn empty_message_round_trip() {
    let secret = PrivateKey::generate();
    let tag = RootSecret::generate().tagging_key().generate_tag();
    let ciphertext = secret.public_key().encrypt(&tag, &String::new());
    assert_eq!(secret.decrypt(&ciphertext).unwrap(), String::new());
}

#[test]
fn tag_bytes_round_trip() {
    let tag = RootSecret::generate().tagging_key().generate_tag();
    assert_eq!(tag.as_bytes().len(), TAG_LEN);
    let rebuilt = Tag::from_bytes(tag.as_bytes().clone()).unwrap();
    assert!(rebuilt.matches(&tag));
}

#[test]
fn malformed_tag_bytes_rejected() {
    assert!(Tag::from_bytes(vec![255u8; TAG_LEN]).is_none());
    assert!(Tag::from_bytes(vec![1u8; 5]).is_none());
}

#[test]
fn tampered_ciphertext_rejected() {
    let secret = PrivateKey::generate();
    let tag = RootSecret::generate().tagging_key().generate_tag();
    let ciphertext = secret.public_key().encrypt(&tag, &String::from("payload"));

    let mut bytes = ciphertext.ciphertext_bytes().clone();
    let last = bytes.len() - 1;
    bytes[last] ^= 0xff;
    let tampered = niwl::encrypt::TaggedCiphertext::from_parts(
        Tag::from_bytes(ciphertext.tag().as_bytes().clone()).unwrap(),
        ciphertext.nonce_bytes().clone(),
        bytes,
    )
    .unwrap();
    assert!(secret.decrypt(&tampered).is_none());
}
