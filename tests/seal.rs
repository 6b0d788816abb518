use base64::engine::general_purpose::STANDARD;
use base64::Engine;
use chacha20poly1305::aead::{Aead, KeyInit};
use chacha20poly1305::{ChaCha20Poly1305, Key, Nonce};
use moltrade_relayer::fanout::SubscriptionRow;
use moltrade_relayer::router::InboundEvent;
use moltrade_relayer::seal::{encrypt_with_secret, fanout_for_event, seal_with_nonce};
use sha2::{Digest, Sha256};

fn open(sealed: &str, secret: &str) -> String {
    let raw = STANDARD.decode(sealed).unwrap();
    let (nonce, ct) = raw.split_at(12);
    let key = Sha256::digest(secret.as_bytes());
    let cipher = ChaCha20Poly1305::new(Key::from_slice(&key));
    String::from_utf8(cipher.decrypt(Nonce::from_slice(nonce), ct).unwrap()).unwrap()
}

#[test]
fn sealing_with_a_fixed_nonce_matches_the_construction() {
    let nonce: Vec<u8> = (1..=12).collect();
    let sealed = seal_with_nonce("hello follower", "F_PK_HEX", &nonce).unwrap();
    let key = Sha256::digest("F_PK_HEX".as_bytes());
    let ct = ChaCha20Poly1305::new(Key::from_slice(&key))
        .encrypt(Nonce::from_slice(&nonce), "hello follower".as_bytes())
        .unwrap();
    let mut expected = nonce.clone();
    expected.extend_from_slice(&ct);
    assert_eq!(sealed, STANDARD.encode(expected));
    assert_eq!(open(&sealed, "F_PK_HEX"), "hello follower");
}

#[test]
fn random_nonce_sealing_opens_with_the_secret() {
    let a = encrypt_with_secret("{\"symbol\":\"BTC\"}", "secret").unwrap();
    let b = encrypt_with_secret("{\"symbol\":\"BTC\"}", "secret").unwrap();
    assert_ne!(a, b);
    assert_eq!(open(&a, "secret"), "{\"symbol\":\"BTC\"}");
    assert_eq!(open(&b, "secret"), "{\"symbol\":\"BTC\"}");
}

#[test]
fn sealed_fanout_per_subscriber() {
    let ev = InboundEvent {
        id: "e9".to_string(),
        pubkey: "B".to_string(),
        kind: 30931,
        created_at: 0,
        content: "payload".to_string(),
    };
    let subs = vec![
        SubscriptionRow { follower_pubkey: "F1".to_string(), shared_secret: "s1".to_string() },
        SubscriptionRow { follower_pubkey: "F2".to_string(), shared_secret: "s2".to_string() },
    ];
    let msgs = fanout_for_event(&ev, &subs).unwrap();
    assert_eq!(msgs.len(), 2);
    assert_eq!(msgs[0].target_pubkey, "F1");
    assert_eq!(msgs[1].target_pubkey, "F2");
    assert!(msgs.iter().all(|m| m.bot_pubkey == "B" && m.kind == 30931 && m.original_event_id == "e9"));
    assert_eq!(open(&msgs[0].payload, "s1"), "payload");
    assert_eq!(open(&msgs[1].payload, "s2"), "payload");
    assert!(fanout_for_event(&ev, &Vec::new()).unwrap().is_empty());
}
