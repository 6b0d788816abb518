use vstd::prelude::*;
use vstd::utf8::encode_utf8;

use crate::payload::opt_view;
use crate::fanout::SubscriptionRow;
use crate::router::InboundEvent;

verus! {

/// What `content`, sent by the holder of public key `sender` (hex), decrypts
/// to under NIP-04 for the holder of secret key `secret` (hex or bech32);
/// `None` when a key does not parse or the content does not decrypt to UTF-8.
pub uninterp spec fn nip04_plaintext(secret: Seq<char>, sender: Seq<char>, content: Seq<char>) -> Option<Seq<char>>;

/// Whether the `?iv=` marker starts at byte `i` of `b`.
pub open spec fn iv_marker_at(b: Seq<u8>, i: int) -> bool {
    0 <= i && i + 4 <= b.len() && b[i] == 63u8 && b[i + 1] == 105u8 && b[i + 2] == 118u8 && b[i + 3]
        == 61u8
}

/// The outer shape of a NIP-04 payload: one `?iv=` marker, followed by the
/// 24 characters of a base64 16-byte IV (ending in `==`).
pub open spec fn nip04_shaped(b: Seq<u8>) -> bool {
    &&& b.len() >= 28
    &&& iv_marker_at(b, b.len() - 28)
    &&& forall|j: int| #[trigger] iv_marker_at(b, j) ==> j == b.len() - 28
    &&& b[b.len() - 1] == 61u8
    &&& b[b.len() - 2] == 61u8
}

/// Relies on nostr::nips::nip04::decrypt (ECDH shared key, AES-256-CBC,
/// base64 with an `?iv=` suffix), the keys read by nostr::SecretKey::parse and
/// nostr::PublicKey::from_hex; deterministic in its three inputs. The IV must
/// decode to 16 bytes, or the cipher set-up panics: hence the shape required.
#[verifier::external_body]
fn nip04_decrypt(secret: &str, sender: &str, content: &str) -> (r: Option<String>)
    requires
        nip04_shaped(encode_utf8(content@)),
    ensures
        opt_view(r) == nip04_plaintext(secret@, sender@, content@),
{
    let sk = nostr::SecretKey::parse(secret).ok()?;
    let pk = nostr::PublicKey::from_hex(sender).ok()?;
    nostr::nips::nip04::decrypt(&sk, &pk, content).ok()
}

/// Checks the outer shape of a NIP-04 payload.
pub fn is_nip04_shaped(content: &str) -> (r: bool)
    ensures
        r == nip04_shaped(encode_utf8(content@)),
{
    let b = content.as_bytes();
    let n = b.len();
    if n < 28 {
        return false;
    }
    let mut j: usize = 0;
    while j <= n - 4
        invariant
            j <= n - 3,
            n == b@.len(),
            b@ == encode_utf8(content@),
            n >= 28,
            forall|k: int| 0 <= k < j && iv_marker_at(b@, k) ==> k == n - 28,
        decreases n - j,
    {
        if b[j] == 63u8 && b[j + 1] == 105u8 && b[j + 2] == 118u8 && b[j + 3] == 61u8 && j != n - 28 {
            assert(iv_marker_at(b@, j as int));
            return false;
        }
        j = j + 1;
    }
    proof {
        assert forall|k: int| #[trigger] iv_marker_at(b@, k) implies k == n - 28 by {
            assert(k < j);
        }
    }
    let m = n - 28;
    b[m] == 63u8 && b[m + 1] == 105u8 && b[m + 2] == 118u8 && b[m + 3] == 61u8 && b[n - 1] == 61u8
        && b[n - 2] == 61u8
}

/// Decrypts an inbound event's payload with the platform secret key, taking
/// the event's sender as the other party. A payload not shaped as NIP-04
/// (one `?iv=` marker and a 16-byte IV) is refused.
pub fn decrypt_event(platform_secret: &String, ev: &InboundEvent) -> (r: Option<String>)
    ensures
        !nip04_shaped(encode_utf8(ev.content@)) ==> r is None,
        nip04_shaped(encode_utf8(ev.content@)) ==> opt_view(r) == nip04_plaintext(
            platform_secret@,
            ev.pubkey@,
            ev.content@,
        ),
{
    if !is_nip04_shaped(ev.content.as_str()) {
        return None;
    }
    nip04_decrypt(platform_secret.as_str(), ev.pubkey.as_str(), ev.content.as_str())
}

/// Whether `secret` parses as a secret key (hex or bech32) and `recipient`
/// as a public key (hex, bech32 or nostr URI) naming a point on the curve.
pub uninterp spec fn nip04_keys_usable(secret: Seq<char>, recipient: Seq<char>) -> bool;

/// Relies on nostr::nips::nip04::encrypt (random IV), the keys read by
/// nostr::SecretKey::parse and nostr::PublicKey::parse: it fails only when a
/// key does not parse or the recipient is not a curve point (the shared-key
/// step); the ciphertext itself depends on the random IV.
#[verifier::external_body]
fn nip04_encrypt(secret: &str, recipient: &str, plaintext: &str) -> (r: Option<String>)
    ensures
        r is Some == nip04_keys_usable(secret@, recipient@),
{
    let sk = nostr::SecretKey::parse(secret).ok()?;
    let pk = nostr::PublicKey::parse(recipient).ok()?;
    nostr::nips::nip04::encrypt(&sk, &pk, plaintext).ok()
}

/// One re-publication per follower, in order: the recipient key (the
/// follower's `shared_secret`) and the plaintext encrypted to it with the
/// platform key; `None` exactly for a follower whose key is not usable.
pub fn republish_payloads(platform_secret: &String, followers: &Vec<SubscriptionRow>, plaintext: &String) -> (r: Vec<(String, Option<String>)>)
    ensures
        r@.len() == followers@.len(),
        forall|i: int|
            0 <= i < r@.len() ==> (#[trigger] r@[i]).0@ == followers@[i].shared_secret@ && r@[i].1 is Some
                == nip04_keys_usable(platform_secret@, followers@[i].shared_secret@),
{
    let mut out: Vec<(String, Option<String>)> = Vec::new();
    let mut i: usize = 0;
    while i < followers.len()
        invariant
            0 <= i <= followers@.len(),
            out@.len() == i,
            forall|j: int|
                0 <= j < i ==> (#[trigger] out@[j]).0@ == followers@[j].shared_secret@ && out@[j].1 is Some
                    == nip04_keys_usable(platform_secret@, followers@[j].shared_secret@),
        decreases followers@.len() - i,
    {
        let recipient = followers[i].shared_secret.clone();
        let sealed = nip04_encrypt(platform_secret.as_str(), recipient.as_str(), plaintext.as_str());
        out.push((recipient, sealed));
        i = i + 1;
    }
    out
}

} // verus!
