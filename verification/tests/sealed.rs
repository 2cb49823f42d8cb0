//! The sealed-output protocol, its JSON fields and the key derivation.
use hpke::aead::{AeadTag, ChaCha20Poly1305};
use hpke::kdf::HkdfSha256;
use hpke::kem::X25519HkdfSha256;
use hpke::rand_core::TryRng;
use hpke::{Deserializable, Kem, OpModeR, OpModeS, Serializable};
use mcpbytes_vault::crypto::Replay;
use mcpbytes_vault::kat::{run, Vector};
use mcpbytes_vault::protocol::{self, decode, encode, local_only, mix_with_local, Pending, WireEnvelope, WireRequest};
use mcpbytes_vault::sealed::{key_id, keypair, open, seal, Envelope, Error, Identity, Request};
use sha2::Digest;

fn entropy() -> [u8; 32] {
    let mut bytes = [0u8; 32];
    getrandom::fill(&mut bytes).unwrap();
    bytes
}

fn sealed(n: usize) -> (Request, Envelope) {
    let (_, pk) = keypair(&[1; 32]);
    let (sender, _) = keypair(&[2; 32]);
    let request = Request::new(n, pk).unwrap();
    let mut data = vec![42u8; n];
    let envelope = seal(&request, [3; 32], &sender, &mut data, &entropy()).unwrap();
    (request, envelope)
}

#[test]
fn embedded_vectors_pass() {
    assert!(run());
}

#[test]
fn other_vectors_do_not_pass() {
    assert!(Vector::official().check());
    for i in 0..3 {
        let mut vector = Vector::official();
        vector.cases[i].plaintext[0] ^= 1;
        assert!(!vector.check());
        let mut vector = Vector::official();
        vector.cases[i].expected[0] ^= 1;
        assert!(!vector.check());
        let mut vector = Vector::official();
        vector.cases[i].expected[44] ^= 1;
        assert!(!vector.check());
        let mut vector = Vector::official();
        vector.cases[i].expected.pop();
        assert!(!vector.check());
    }
    // The order of the messages counts.
    let mut vector = Vector::official();
    vector.cases.swap(1, 2);
    assert!(!vector.check());
    let mut vector = Vector::official();
    vector.enc[0] ^= 1;
    assert!(!vector.check());
    let mut vector = Vector::official();
    vector.pk_r[0] ^= 1;
    assert!(!vector.check());
}

#[test]
fn official_auth_x25519_hkdf_sha256_chacha_vectors() {
    let vector = Vector::official();
    let sender = <X25519HkdfSha256 as Kem>::PrivateKey::from_bytes(&vector.sk_s).unwrap();
    let sender_pk = <X25519HkdfSha256 as Kem>::PublicKey::from_bytes(&vector.pk_s).unwrap();
    let receiver = <X25519HkdfSha256 as Kem>::PrivateKey::from_bytes(&vector.sk_r).unwrap();
    let receiver_pk = <X25519HkdfSha256 as Kem>::PublicKey::from_bytes(&vector.pk_r).unwrap();
    let mut rng = Replay::new(vector.ikm_e.to_vec());
    let (enc, mut seal) = hpke::setup_sender_with_rng::<ChaCha20Poly1305, HkdfSha256, X25519HkdfSha256>(
        &OpModeS::Auth((sender, sender_pk.clone())),
        &receiver_pk,
        &vector.info,
        &mut rng,
    )
    .unwrap();
    assert_eq!(enc.to_bytes().as_slice(), vector.enc);
    assert_eq!(rng.offset, 32);
    let mut open = hpke::setup_receiver::<ChaCha20Poly1305, HkdfSha256, X25519HkdfSha256>(
        &OpModeR::Auth(sender_pk),
        &receiver,
        &enc,
        &vector.info,
    )
    .unwrap();
    for case in &vector.cases {
        let original = case.plaintext.clone();
        let mut encrypted = original.clone();
        let tag = seal.seal_inout_detached(encrypted.as_mut_slice().into(), &case.aad).unwrap();
        let mut expected = case.expected.clone();
        let tag_bytes = expected.split_off(expected.len() - 16);
        assert_eq!(hex::encode(&encrypted), hex::encode(&expected));
        assert_eq!(hex::encode(tag.to_bytes()), hex::encode(&tag_bytes));
        let tag = AeadTag::<ChaCha20Poly1305>::from_bytes(&tag_bytes).unwrap();
        open.open_inout_detached(encrypted.as_mut_slice().into(), &case.aad, &tag).unwrap();
        assert_eq!(encrypted, original);
    }
}

#[test]
fn boundaries_and_sealing_wipes_plaintext() {
    for n in [1, 32, 64] {
        let (receiver, pk) = keypair(&[1; 32]);
        let (sender, pinned) = keypair(&[2; 32]);
        let request = Request::new(n, pk).unwrap();
        let mut data = [42; 64];
        let envelope = seal(&request, [3; 32], &sender, &mut data[..n], &entropy()).unwrap();
        assert!(data[..n].iter().all(|b| *b == 0));
        assert_eq!(open(&request, &receiver, &pinned, &envelope).ok().unwrap().as_slice(), &[42; 64][..n]);
    }
    assert!(Request::new(0, [1; 32]).is_err());
    assert!(Request::new(65, [1; 32]).is_err());
}

#[test]
fn low_order_recipients_are_rejected_and_failed_seals_wipe_input() {
    let (sender, _) = keypair(&[2; 32]);
    for first in [0, 1] {
        let mut recipient = [0; 32];
        recipient[0] = first;
        assert_eq!(Request::new(32, recipient), Err(Error::InvalidRequest));
        let forged = Request { n: 32, recipient, id: [0; 32] };
        let mut plaintext = [42; 32];
        assert!(seal(&forged, [3; 32], &sender, &mut plaintext, &entropy()).is_err());
        assert_eq!(plaintext, [0; 32]);
    }
}

#[test]
fn tampering_and_request_rebinding_fail() {
    let (receiver, pk) = keypair(&[1; 32]);
    let (sender, pinned) = keypair(&[2; 32]);
    let request = Request::new(32, pk).unwrap();
    let envelope = seal(&request, [3; 32], &sender, &mut [42; 32], &entropy()).unwrap();
    for field in 0..6 {
        let mut changed = envelope.clone();
        match field {
            0 => changed.enc[0] ^= 1,
            1 => changed.ciphertext[0] ^= 1,
            2 => changed.identity.firmware[0] ^= 1,
            3 => changed.request.id[0] ^= 1,
            4 => changed.identity.key_id[0] ^= 1,
            _ => changed.ciphertext[79] ^= 1,
        }
        assert!(open(&request, &receiver, &pinned, &changed).is_err());
    }
    let (_, wrong) = keypair(&[4; 32]);
    assert!(open(&request, &receiver, &wrong, &envelope).is_err());
}

#[test]
fn each_refusal_of_an_envelope_has_its_error() {
    let (receiver, _) = keypair(&[1; 32]);
    let (_, pinned) = keypair(&[2; 32]);
    let (request, envelope) = sealed(16);
    let mut forged = request;
    forged.n = 17;
    assert_eq!(open(&forged, &receiver, &pinned, &envelope).err(), Some(Error::InvalidRequest));
    let mut padded = envelope.clone();
    padded.ciphertext[40] = 1;
    assert_eq!(open(&request, &receiver, &pinned, &padded).err(), Some(Error::InvalidEnvelope));
    let (other, _) = keypair(&[9; 32]);
    assert_eq!(open(&request, &other, &pinned, &envelope).err(), Some(Error::InvalidEnvelope));
    let mut changed = envelope.clone();
    changed.ciphertext[0] ^= 1;
    assert_eq!(open(&request, &receiver, &pinned, &changed).err(), Some(Error::AuthenticationFailed));
}

#[test]
fn the_same_entropy_seals_to_the_same_envelope() {
    let (_, pk) = keypair(&[1; 32]);
    let (sender, _) = keypair(&[2; 32]);
    let request = Request::new(4, pk).unwrap();
    let a = seal(&request, [3; 32], &sender, &mut [7; 4], &[5; 32]).unwrap();
    let b = seal(&request, [3; 32], &sender, &mut [7; 4], &[5; 32]).unwrap();
    let c = seal(&request, [3; 32], &sender, &mut [7; 4], &[6; 32]).unwrap();
    assert_eq!((a.enc, a.ciphertext), (b.enc, b.ciphertext));
    assert_ne!(a.enc, c.enc);
    assert!(seal(&request, [3; 32], &sender, &mut [7; 5], &[6; 32]).is_err());
}

#[test]
fn the_metadata_lists_every_field() {
    let (_, pk) = keypair(&[1; 32]);
    let request = Request::new(9, pk).unwrap();
    assert_eq!(request.validate(), Ok(()));
    let identity = Identity { key_id: [7; 32], firmware: [8; 32] };
    let aad = request.aad(&identity).unwrap();
    assert_eq!(aad[..2], [1, 9]);
    assert_eq!(aad[2..34], pk);
    assert_eq!(aad[34..66], request.id);
    assert_eq!(aad[66..98], [7; 32]);
    assert_eq!(aad[98..], [8; 32]);
    let mut forged = request;
    forged.id[0] ^= 1;
    assert_eq!(forged.validate(), Err(Error::InvalidRequest));
    assert_eq!(forged.aad(&identity), Err(Error::InvalidRequest));
}

#[test]
fn digests_and_keys_match_their_standards() {
    // FIPS 180 and RFC 7748 vectors.
    let mut public = [0u8; 32];
    hex::decode_to_slice("8520f0098930a754748b7ddcb43ef75a0dbf3a0d26381af4eba4a98eaa9b4e6a", &mut public).unwrap();
    let digest = key_id(&[0x61; 32]);
    assert_eq!(hex::encode(digest), "3ba3f5f43b92602683c19aee62a20342b084dd5971ddd33808d81a328879a547");
    assert!(Request::new(1, public).is_ok());
}

#[test]
fn local_generation_limits_and_context_separation() {
    assert!(local_only(0, b"label#1").is_err());
    assert!(local_only(65, b"label#1").is_err());
    assert_eq!(local_only(64, b"label#1").unwrap().len(), 64);
    let a = mix_with_local(&[1; 32], &[0; 32], b"a", 32, true).unwrap();
    assert_ne!(*a, *mix_with_local(&[2; 32], &[0; 32], b"a", 32, true).unwrap());
    assert_ne!(*a, *mix_with_local(&[1; 32], &[0; 32], b"b", 32, true).unwrap());
}

#[test]
fn derivation_matches_hkdf() {
    let salt = sha2::Sha256::digest(b"mcpbytes-vault/extract/v1");
    let mut info = b"mcpbytes-vault/key/v1\0".to_vec();
    info.extend_from_slice(&[4, 1, 0, 0, 0, 3]);
    info.extend_from_slice(b"abc");
    let mut ikm = vec![1u8; 32];
    ikm.extend_from_slice(&[9; 4]);
    let mut expected = [0u8; 4];
    hkdf::Hkdf::<sha2::Sha256>::new(Some(&salt), &ikm).expand(&info, &mut expected).unwrap();
    assert_eq!(mix_with_local(&[1; 32], &[9; 4], b"abc", 4, true).unwrap(), expected);
    for (remote, n, mixed) in [(3, 4, true), (4, 4, false), (0, 0, false), (65, 65, true)] {
        assert_eq!(
            mix_with_local(&[1; 32], &vec![9; remote], b"abc", n, mixed),
            Err(protocol::Error::InvalidRequest)
        );
    }
    assert_eq!(mix_with_local(&[1; 32], &[], b"abc", 4, false).unwrap().len(), 4);
}

#[test]
fn strict_wire_encodings_and_request_identity() {
    let request = Pending::new(32).ok().unwrap().request();
    assert!(request.to_core().is_ok());
    let mut changed = request.clone();
    changed.n = 16;
    assert!(changed.to_core().is_err());
    assert!(decode::<32>(&(request.pk_c.clone() + "=")).is_err());
}

#[test]
fn each_refusal_of_json_fields_has_its_error() {
    let (_, pk) = keypair(&[1; 32]);
    let wire = WireRequest::from(&Request::new(8, pk).unwrap());
    assert_eq!((wire.version, wire.n, wire.pk_c.len(), wire.request_id.len()), (1, 8, 43, 43));
    assert_eq!(WireRequest { version: 2, ..wire.clone() }.to_core(), Err(Error::InvalidRequest));
    assert_eq!(WireRequest { n: 9, ..wire.clone() }.to_core(), Err(Error::InvalidRequest));
    assert_eq!(WireRequest { n: 0, ..wire.clone() }.to_core(), Err(Error::InvalidRequest));
    assert_eq!(WireRequest { pk_c: "short".into(), ..wire.clone() }.to_core(), Err(Error::InvalidEnvelope));
    assert_eq!(WireRequest { request_id: "é".into(), ..wire.clone() }.to_core(), Err(Error::InvalidEnvelope));
    assert_eq!(WireRequest { request_id: encode(&[0; 32]), ..wire.clone() }.to_core(), Err(Error::InvalidRequest));
    assert_eq!(WireRequest { pk_c: encode(&[0; 32]), ..wire.clone() }.to_core(), Err(Error::InvalidRequest));
}

#[test]
fn base64url_fields_are_canonical() {
    assert_eq!(encode(&[0xfb, 0xff]), "-_8");
    assert_eq!(encode(b""), "");
    assert_eq!(decode::<2>("-_8"), Ok([0xfb, 0xff]));
    // Bits behind the last byte, padding, other alphabets and other lengths are refused.
    for text in ["-_9", "-_8=", "+/8", "-_", "-_8A", ""] {
        assert_eq!(decode::<2>(text), Err(Error::InvalidEnvelope));
    }
    assert_eq!(decode::<0>(""), Ok([]));
}

#[test]
fn envelopes_survive_the_wire() {
    let (receiver, _) = keypair(&[1; 32]);
    let (_, pinned) = keypair(&[2; 32]);
    let (request, envelope) = sealed(20);
    let wire = WireEnvelope::from(&envelope);
    let read = wire.to_core().unwrap();
    assert_eq!((read.request, read.identity, read.enc), (envelope.request, envelope.identity, envelope.enc));
    assert_eq!(read.ciphertext, envelope.ciphertext);
    assert_eq!(open(&request, &receiver, &pinned, &read).ok().unwrap().as_slice(), [42; 20]);
    for broken in [
        WireEnvelope { ct: wire.ct[1..].into(), ..wire.clone() },
        WireEnvelope { enc: "x".into(), ..wire.clone() },
        WireEnvelope { device_pk_id: String::new(), ..wire.clone() },
        WireEnvelope { fw_digest: wire.fw_digest.clone() + "=", ..wire.clone() },
    ] {
        assert_eq!(broken.to_core().err(), Some(Error::InvalidEnvelope));
    }
    let other = WireRequest { version: 3, ..wire.request.clone() };
    assert_eq!(WireEnvelope { request: other, ..wire }.to_core().err(), Some(Error::InvalidRequest));
}

#[test]
fn replies_are_opened_and_mixed_once() {
    let (sender, pinned) = keypair(&[2; 32]);
    let pending = Pending::from_seed(12, &[7; 32]).ok().unwrap();
    let request = pending.request().to_core().unwrap();
    let mut contribution = [6u8; 12];
    let envelope = seal(&request, [3; 32], &sender, &mut contribution, &entropy()).unwrap();
    let wire = WireEnvelope::from(&envelope);
    assert_eq!(pending.open_reply(&wire, &pinned).ok().unwrap().as_slice(), [6; 12]);
    let (_, stranger) = keypair(&[8; 32]);
    assert_eq!(pending.open_reply(&wire, &stranger).err(), Some(protocol::Error::AuthenticationFailed));
    let broken = WireEnvelope { enc: String::new(), ..wire.clone() };
    assert_eq!(pending.open_reply(&broken, &pinned).err(), Some(protocol::Error::InvalidEnvelope));
    assert_eq!(pending.open_and_mix(&wire, &pinned, b"context").unwrap().len(), 12);
    assert!(Pending::new(0).is_err() && Pending::new(65).is_err());
    assert_eq!(Pending::from_seed(65, &[7; 32]).err(), Some(protocol::Error::InvalidRequest));
}

#[test]
fn replays_hand_out_their_bytes_in_order() {
    let mut replay = Replay::new(vec![1, 2, 3, 4, 5]);
    let mut out = [9u8; 3];
    replay.try_fill_bytes(&mut out).unwrap();
    assert_eq!((out, replay.offset), ([1, 2, 3], 3));
    assert_eq!(replay.try_next_u32(), Ok(0x0504));
    assert_eq!(replay.try_next_u64(), Ok(0));
}

#[test]
fn missing_randomness_is_reported() {
    let with = |drawn, n| protocol::derive_with(drawn, &[], b"abc", n, false);
    assert_eq!(with(None, 16), Err(protocol::Error::EntropyUnavailable));
    assert_eq!(with(None, 0), Err(protocol::Error::InvalidRequest));
    assert_eq!(with(None, 65), Err(protocol::Error::InvalidRequest));
    assert_eq!(with(Some([1; 32]), 16), mix_with_local(&[1; 32], &[], b"abc", 16, false));
    // A contribution of another size is refused, but only once there is randomness to mix it with.
    let mixed = |drawn| protocol::derive_with(drawn, &[9; 3], b"abc", 4, true);
    assert_eq!(mixed(Some([1; 32])), Err(protocol::Error::InvalidRequest));
    assert_eq!(mixed(None), Err(protocol::Error::EntropyUnavailable));
}

#[test]
fn keys_are_bound_to_size_source_and_context() {
    let key = |remote: &[u8], context: &[u8], n, mixed| mix_with_local(&[1; 32], remote, context, n, mixed).unwrap();
    let long = key(&[], b"abc", 8, false);
    assert_ne!(key(&[], b"abc", 4, false), long[..4]);
    assert_ne!(key(&[], b"abd", 8, false), long);
    assert_ne!(key(&[0; 8], b"abc", 8, true), long);
    assert_eq!(key(&[], b"abc", 8, false), long);
}
