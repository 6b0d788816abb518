use vstd::prelude::*;
use vstd::utf8::encode_utf8;

use base64::Engine;
use chacha20poly1305::aead::{Aead, KeyInit};

use crate::fanout::{FanoutMessage, SubscriptionRow};
use crate::router::InboundEvent;

verus! {

/// Length in bytes of a ChaCha20-Poly1305 nonce.
pub const NONCE_LEN: usize = 12;

/// Plaintexts of this many bytes or more are refused by ChaCha20-Poly1305
/// (64-byte blocks, a 32-bit block counter).
pub const SEAL_MAX_LEN: u64 = 274877906880;

/// SHA-256 digest of `data`.
pub uninterp spec fn sha256_digest(data: Seq<u8>) -> Seq<u8>;

/// ChaCha20-Poly1305 ciphertext (with its tag) of `plaintext` under `key`
/// and `nonce`, no associated data.
pub uninterp spec fn chacha20poly1305_sealed(key: Seq<u8>, nonce: Seq<u8>, plaintext: Seq<u8>) -> Seq<u8>;

/// Standard base64 (with padding) of `data`.
pub uninterp spec fn base64_standard(data: Seq<u8>) -> Seq<char>;

/// Relies on sha2::Sha256::digest: a 32-byte digest determined by the data.
#[verifier::external_body]
fn sha256(data: &[u8]) -> (r: Vec<u8>)
    ensures
        r@ == sha256_digest(data@),
        r@.len() == 32,
{
    <sha2::Sha256 as sha2::Digest>::digest(data).to_vec()
}

/// Relies on chacha20poly1305::ChaCha20Poly1305 (new, then Aead::encrypt):
/// the key must be 32 bytes and the nonce 12, or the slice conversions panic;
/// encryption fails exactly when the input spans `u32::MAX` 64-byte blocks.
#[verifier::external_body]
fn chacha20poly1305_seal(key: &[u8], nonce: &[u8], plaintext: &[u8]) -> (r: Option<Vec<u8>>)
    requires
        key@.len() == 32,
        nonce@.len() == NONCE_LEN,
    ensures
        r matches Some(c) ==> c@ == chacha20poly1305_sealed(key@, nonce@, plaintext@),
        r is Some == (plaintext@.len() < SEAL_MAX_LEN),
{
    let cipher = chacha20poly1305::ChaCha20Poly1305::new(chacha20poly1305::Key::from_slice(key));
    cipher.encrypt(chacha20poly1305::Nonce::from_slice(nonce), plaintext).ok()
}

/// Relies on base64's STANDARD engine `encode`.
#[verifier::external_body]
fn base64_encode(data: &[u8]) -> (r: String)
    ensures
        r@ == base64_standard(data@),
{
    base64::engine::general_purpose::STANDARD.encode(data)
}

/// Relies on rand::rng with RngCore::fill_bytes: `len` random bytes.
#[verifier::external_body]
fn random_bytes(len: usize) -> (r: Vec<u8>)
    ensures
        r@.len() == len,
{
    let mut buf = vec![0u8; len];
    rand::RngCore::fill_bytes(&mut rand::rng(), &mut buf);
    buf
}

/// What `content` seals to for a follower holding `shared_secret`, under `nonce`.
pub open spec fn sealed_payload(content: Seq<u8>, shared_secret: Seq<u8>, nonce: Seq<u8>) -> Seq<char> {
    base64_standard(nonce + chacha20poly1305_sealed(sha256_digest(shared_secret), nonce, content))
}

/// Seals `content` for a follower: ChaCha20-Poly1305 under the SHA-256 of
/// `shared_secret`, the nonce prepended to the ciphertext, all in base64.
/// `None` exactly when the content is too long for the cipher.
pub fn seal_with_nonce(content: &str, shared_secret: &str, nonce: &Vec<u8>) -> (r: Option<String>)
    requires
        nonce@.len() == NONCE_LEN,
    ensures
        r is Some == (encode_utf8(content@).len() < SEAL_MAX_LEN),
        r matches Some(s) ==> s@ == sealed_payload(encode_utf8(content@), encode_utf8(shared_secret@), nonce@),
{
    let key = sha256(shared_secret.as_bytes());
    let ciphertext = match chacha20poly1305_seal(key.as_slice(), nonce.as_slice(), content.as_bytes()) {
        Some(c) => c,
        None => return None,
    };
    let mut combined = nonce.clone();
    let mut tail = ciphertext;
    combined.append(&mut tail);
    Some(base64_encode(combined.as_slice()))
}

/// Seals `content` for a follower under a fresh random nonce.
pub fn encrypt_with_secret(content: &str, shared_secret: &str) -> (r: Option<String>)
    ensures
        r is Some == (encode_utf8(content@).len() < SEAL_MAX_LEN),
        r matches Some(s) ==> exists|n: Seq<u8>|
            n.len() == NONCE_LEN && s@ == sealed_payload(encode_utf8(content@), encode_utf8(shared_secret@), n),
{
    let nonce = random_bytes(NONCE_LEN);
    seal_with_nonce(content, shared_secret, &nonce)
}

/// One sealed push message per subscriber of the event's author, in order;
/// `None` when sealing fails for any of them (content too long).
pub fn fanout_for_event(ev: &InboundEvent, subscribers: &Vec<SubscriptionRow>) -> (r: Option<Vec<FanoutMessage>>)
    ensures
        r is Some == (subscribers@.len() == 0 || encode_utf8(ev.content@).len() < SEAL_MAX_LEN),
        r matches Some(msgs) ==> {
            &&& msgs@.len() == subscribers@.len()
            &&& forall|i: int|
                0 <= i < msgs@.len() ==> {
                    &&& (#[trigger] msgs@[i]).target_pubkey@ == subscribers@[i].follower_pubkey@
                    &&& msgs@[i].bot_pubkey@ == ev.pubkey@
                    &&& msgs@[i].kind == ev.kind
                    &&& msgs@[i].original_event_id@ == ev.id@
                    &&& exists|n: Seq<u8>|
                        n.len() == NONCE_LEN && msgs@[i].payload@ == sealed_payload(
                            encode_utf8(ev.content@),
                            encode_utf8(subscribers@[i].shared_secret@),
                            n,
                        )
                }
        },
{
    let mut out: Vec<FanoutMessage> = Vec::new();
    let mut i: usize = 0;
    while i < subscribers.len()
        invariant
            0 <= i <= subscribers@.len(),
            out@.len() == i,
            i > 0 ==> encode_utf8(ev.content@).len() < SEAL_MAX_LEN,
            forall|j: int|
                0 <= j < i ==> {
                    &&& (#[trigger] out@[j]).target_pubkey@ == subscribers@[j].follower_pubkey@
                    &&& out@[j].bot_pubkey@ == ev.pubkey@
                    &&& out@[j].kind == ev.kind
                    &&& out@[j].original_event_id@ == ev.id@
                    &&& exists|n: Seq<u8>|
                        n.len() == NONCE_LEN && out@[j].payload@ == sealed_payload(
                            encode_utf8(ev.content@),
                            encode_utf8(subscribers@[j].shared_secret@),
                            n,
                        )
                },
        decreases subscribers@.len() - i,
    {
        let payload = match encrypt_with_secret(ev.content.as_str(), subscribers[i].shared_secret.as_str()) {
            Some(p) => p,
            None => return None,
        };
        out.push(
            FanoutMessage {
                target_pubkey: subscribers[i].follower_pubkey.clone(),
                bot_pubkey: ev.pubkey.clone(),
                kind: ev.kind,
                original_event_id: ev.id.clone(),
                payload,
            },
        );
        i = i + 1;
    }
    Some(out)
}

} // verus!
