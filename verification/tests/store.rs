use filecoin_rs::ids::{bytes_eq, ContentId};
use filecoin_rs::store::{BlockStore, MyIntent, NoopLimiter};
use filecoin_rs::CoreError;
use multihash::MultihashDigest;

fn hex_to_bytes(hex: &str) -> Vec<u8> {
    let chars: Vec<u8> = hex.as_bytes().to_vec();
    let mut out = Vec::new();
    let mut i = 0;
    while i + 1 < chars.len() {
        let hi = (chars[i] as char).to_digit(16).unwrap() as u8;
        let lo = (chars[i + 1] as char).to_digit(16).unwrap() as u8;
        out.push(hi * 16 + lo);
        i += 2;
    }
    out
}

#[test]
fn identifier_is_the_sha256_digest() {
    let id = ContentId::for_bytes(b"hello");
    let expected = hex_to_bytes("2cf24dba5fb0a30e26e83b2ac5b9e29e1b161e5c1fa7425e73043362938b9824");
    assert_eq!(id.digest().as_slice(), expected.as_slice());

    // Cross-check against the multihash crate directly.
    let mh = multihash::Code::Sha2_256.digest(b"hello");
    assert_eq!(id.digest().as_slice(), mh.digest());
}

#[test]
fn identifier_text_round_trips_through_the_cid_crate() {
    let id = ContentId::for_bytes(b"hello");
    let text = id.to_text();
    // A v1 CID rendered in lowercase base32 starts with the 'b' multibase prefix.
    assert!(text.starts_with('b'));
    let parsed: cid::Cid = text.parse().unwrap();
    assert_eq!(parsed.codec(), 0x55);
    assert_eq!(parsed.hash().code(), 0x12);
    assert_eq!(parsed.hash().digest(), id.digest().as_slice());
}

#[test]
fn storing_twice_yields_the_same_identifier_and_round_trips() {
    let mut store = BlockStore::new(1024);
    let id1 = store.store(b"hello".to_vec()).unwrap();
    let id2 = store.store(b"hello".to_vec()).unwrap();
    assert!(bytes_eq(id1.digest(), id2.digest()));

    let bytes = store.retrieve(&id1).unwrap();
    assert_eq!(bytes, b"hello".to_vec());
    assert!(store.has(&id1));
}

#[test]
fn distinct_payloads_get_distinct_identifiers() {
    let mut store = BlockStore::new(1024);
    let id1 = store.store(b"hello".to_vec()).unwrap();
    let id2 = store.store(b"world".to_vec()).unwrap();
    assert!(!bytes_eq(id1.digest(), id2.digest()));
    assert_eq!(store.retrieve(&id2).unwrap(), b"world".to_vec());
}

#[test]
fn oversized_payload_is_rejected_and_nothing_is_created() {
    let mut store = BlockStore::new(4);
    let result = store.store(b"hello".to_vec());
    assert!(matches!(result, Err(CoreError::PayloadTooLarge)));

    let id = ContentId::for_bytes(b"hello");
    assert!(!store.has(&id));
    assert!(store.account(&id).is_none());
    assert!(matches!(store.retrieve(&id), Err(CoreError::NotFound)));
}

#[test]
fn payload_at_the_limit_is_accepted() {
    let mut store = BlockStore::new(5);
    assert!(store.store(b"hello".to_vec()).is_ok());
}

#[test]
fn retrieve_of_unknown_identifier_is_not_found() {
    let store = BlockStore::new(16);
    let id = ContentId::for_bytes(b"never stored");
    assert!(matches!(store.retrieve(&id), Err(CoreError::NotFound)));
}

#[test]
fn stored_object_gets_a_zeroed_account() {
    let mut store = BlockStore::new(64);
    assert_eq!(store.limit(), 64);
    let id = store.store(b"data".to_vec()).unwrap();
    let account = store.account(&id).unwrap();
    assert_eq!(account.balance(), 0);
    assert!(account.sub_balance("provider").is_none());
}

#[test]
fn crediting_an_account_posts_to_its_balance() {
    let mut store = BlockStore::new(64);
    let id = store.store(b"data".to_vec()).unwrap();
    store.credit_account(&id, 250).unwrap();
    store.credit_account(&id, 50).unwrap();
    assert_eq!(store.account(&id).unwrap().balance(), 300);

    let unknown = ContentId::for_bytes(b"other");
    assert!(matches!(store.credit_account(&unknown, 1), Err(CoreError::NotFound)));
}

#[test]
fn limiter_accepts_at_most_the_limit() {
    let limiter = NoopLimiter::new(10);
    assert!(limiter.check_limit(0));
    assert!(limiter.check_limit(10));
    assert!(!limiter.check_limit(11));
}

#[test]
fn intents_report_the_identifier_text() {
    let mut store = BlockStore::new(64);
    let text = store.handle_intent(MyIntent::Upload(b"hello".to_vec())).unwrap();

    let id = ContentId::for_bytes(b"hello");
    assert_eq!(text, id.to_text());
    assert_eq!(store.handle_intent(MyIntent::Download(id)).unwrap(), text);

    let missing = ContentId::for_bytes(b"missing");
    assert!(matches!(
        store.handle_intent(MyIntent::Download(missing)),
        Err(CoreError::NotFound)
    ));
}

#[test]
fn empty_payload_is_storable() {
    let mut store = BlockStore::new(8);
    let id = store.store(Vec::new()).unwrap();
    assert_eq!(store.retrieve(&id).unwrap(), Vec::<u8>::new());
    // SHA-256 of the empty input.
    let expected = hex_to_bytes("e3b0c44298fc1c149afbf4c8996fb92427ae41e4649b934ca495991b7852b855");
    assert_eq!(id.digest().as_slice(), expected.as_slice());
}
