use moltrade_relayer::crypto::{decrypt_event, republish_payloads};
use moltrade_relayer::fanout::{handle_copytrade_fanout, EventOutcome, PlatformKey, SubscriptionRow};
use moltrade_relayer::router::InboundEvent;

const SENDER_SK: &str = "6b911fd37cdf5c81d4c0adb1ab7fa822ed253ab0ad9aa18d77257c88b29b718e";
const RECEIVER_SK: &str = "7b911fd37cdf5c81d4c0adb1ab7fa822ed253ab0ad9aa18d77257c88b29b718e";
const CIPHERTEXT: &str = "dJc+WbBgaFCD2/kfg1XCWJParplBDxnZIdJGZ6FCTOg=?iv=M6VxRPkMZu7aIdD+10xPuw==";

fn sender_hex() -> String {
    nostr::Keys::parse(SENDER_SK).unwrap().public_key().to_hex()
}

fn event(content: &str) -> InboundEvent {
    InboundEvent {
        id: "e".to_string(),
        pubkey: sender_hex(),
        kind: 30931,
        created_at: 0,
        content: content.to_string(),
    }
}

#[test]
fn decrypts_payload_from_sender() {
    let out = decrypt_event(&RECEIVER_SK.to_string(), &event(CIPHERTEXT));
    assert_eq!(out.as_deref(), Some("Saturn, bringer of old age"));
}

#[test]
fn undecryptable_payload_is_refused() {
    assert!(decrypt_event(&RECEIVER_SK.to_string(), &event("not a ciphertext")).is_none());
    assert!(decrypt_event(&"zz".to_string(), &event(CIPHERTEXT)).is_none());
}

#[test]
fn republication_is_aligned_with_followers_and_opens_for_them() {
    let follower = nostr::Keys::parse(SENDER_SK).unwrap();
    let followers = vec![
        SubscriptionRow { follower_pubkey: "F".to_string(), shared_secret: follower.public_key().to_hex() },
        SubscriptionRow { follower_pubkey: "G".to_string(), shared_secret: "not-a-key".to_string() },
    ];
    let out = republish_payloads(&RECEIVER_SK.to_string(), &followers, &"signal".to_string());
    assert_eq!(out.len(), 2);
    assert_eq!(out[0].0, followers[0].shared_secret);
    assert_eq!(out[1].0, "not-a-key");
    assert!(out[1].1.is_none());
    let platform = nostr::Keys::parse(RECEIVER_SK).unwrap();
    let opened = nostr::nips::nip04::decrypt(follower.secret_key(), &platform.public_key(), out[0].1.clone().unwrap()).unwrap();
    assert_eq!(opened, "signal");
}

#[test]
fn malformed_iv_is_refused_not_panicking() {
    assert!(decrypt_event(&RECEIVER_SK.to_string(), &event("AAAA?iv=AAAA")).is_none());
    assert!(decrypt_event(&RECEIVER_SK.to_string(), &event("AAAA?iv=AAAAAAAAAAAAAAAAAAAAAAAA")).is_none());
    assert!(decrypt_event(&RECEIVER_SK.to_string(), &event("A?iv=?iv=M6VxRPkMZu7aIdD+10xPuw==")).is_none());
}

#[test]
fn encrypted_signal_is_decrypted_by_the_classifier() {
    let platform = PlatformKey {
        pubkey_hex: nostr::Keys::parse(RECEIVER_SK).unwrap().public_key().to_hex(),
        secret: RECEIVER_SK.to_string(),
    };
    match handle_copytrade_fanout(&event(CIPHERTEXT), Some(&platform)) {
        EventOutcome::Decrypted(p) => assert_eq!(p, "Saturn, bringer of old age"),
        _ => panic!("expected a decrypted payload"),
    }
}
