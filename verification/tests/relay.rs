//! Tests of the relay store's ordered log and incremental fetch.

use niwl::relay::{FetchMessagesRequest, PostMessageRequest, RelayStore};
use niwl::rem::RandomEjectionMix;
use niwl::tags::{RootSecret, Tag};

fn cover_for(tag: &Tag) -> PostMessageRequest {
    PostMessageRequest {
        tag: Tag::from_bytes(tag.as_bytes().clone()).unwrap(),
        ciphertext: RandomEjectionMix::get_random(),
    }
}

#[test]
fn incremental_fetch_returns_strictly_newer_entries() {
    let root = RootSecret::generate();
    let tk = root.tagging_key();
    let t1 = tk.generate_tag();
    let t2 = tk.generate_tag();
    let t3 = tk.generate_tag();

    let mut relay = RelayStore::new();
    assert_eq!(relay.post(cover_for(&t1)), 0);
    assert_eq!(relay.post(cover_for(&t2)), 1);
    assert_eq!(relay.post(cover_for(&t3)), 2);

    // An all-match detection key: length zero matches every tag.
    let dk = root.extract_detection_key(0);
    let fetched = relay.tags(&FetchMessagesRequest {
        reference_tag: Some(Tag::from_bytes(t1.as_bytes().clone()).unwrap()),
        detection_key: dk,
    });
    assert_eq!(fetched.detected_tags.len(), 2);
    assert!(fetched.detected_tags[0].0.matches(&t2));
    assert!(fetched.detected_tags[1].0.matches(&t3));
}

#[test]
fn fetch_without_reference_returns_all_entries() {
    let root = RootSecret::generate();
    let tk = root.tagging_key();
    let t1 = tk.generate_tag();
    let t2 = tk.generate_tag();
    let t3 = tk.generate_tag();

    let mut relay = RelayStore::new();
    relay.post(cover_for(&t1));
    relay.post(cover_for(&t2));
    relay.post(cover_for(&t3));

    let dk = root.extract_detection_key(0);
    let fetched = relay.tags(&FetchMessagesRequest { reference_tag: None, detection_key: dk });
    assert_eq!(fetched.detected_tags.len(), 3);
    assert!(fetched.detected_tags[0].0.matches(&t1));
    assert!(fetched.detected_tags[1].0.matches(&t2));
    assert!(fetched.detected_tags[2].0.matches(&t3));
}

#[test]
fn duplicate_reference_tags_cut_at_newest_occurrence() {
    let root = RootSecret::generate();
    let tk = root.tagging_key();
    let shared = tk.generate_tag();

    let mut relay = RelayStore::new();
    relay.post(cover_for(&shared));
    relay.post(cover_for(&shared));

    let dk = root.extract_detection_key(0);
    let fetched = relay.tags(&FetchMessagesRequest {
        reference_tag: Some(Tag::from_bytes(shared.as_bytes().clone()).unwrap()),
        detection_key: dk,
    });
    assert_eq!(fetched.detected_tags.len(), 0);
}

#[test]
fn unknown_reference_tag_returns_all_entries() {
    let root = RootSecret::generate();
    let tk = root.tagging_key();
    let t1 = tk.generate_tag();
    let never_posted = tk.generate_tag();

    let mut relay = RelayStore::new();
    relay.post(cover_for(&t1));

    let dk = root.extract_detection_key(0);
    let fetched = relay.tags(&FetchMessagesRequest {
        reference_tag: Some(Tag::from_bytes(never_posted.as_bytes().clone()).unwrap()),
        detection_key: dk,
    });
    assert_eq!(fetched.detected_tags.len(), 1);
}

#[test]
fn fetch_filters_by_detection_key() {
    let receiver = RootSecret::generate();
    let mine = receiver.tagging_key().generate_tag();
    let stranger = RootSecret::generate().tagging_key().generate_tag();

    let mut relay = RelayStore::new();
    relay.post(cover_for(&stranger));
    relay.post(cover_for(&mine));

    let dk = receiver.extract_detection_key(24);
    let fetched = relay.tags(&FetchMessagesRequest { reference_tag: None, detection_key: dk });
    assert_eq!(fetched.detected_tags.len(), 1);
    assert!(fetched.detected_tags[0].0.matches(&mine));
}
