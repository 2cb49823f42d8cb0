//! The cryptographic primitives, as the outside crates compute them.
use hpke::aead::{AeadTag, ChaCha20Poly1305};
use hpke::kdf::HkdfSha256;
use hpke::kem::X25519HkdfSha256;
use hpke::rand_core::{TryCryptoRng, TryRng};
use hpke::{Deserializable, HpkeError, Kem, OpModeR, OpModeS, Serializable};
use sha2::{Digest, Sha256};
use vstd::prelude::*;
use zeroize::Zeroize;

verus! {

/// The SHA-256 digest of a byte string.
pub uninterp spec fn sha256_digest(bytes: Seq<u8>) -> Seq<u8>;

/// `Sha256::digest` of sha2: the digest of these bytes.
#[verifier::external_body]
pub(crate) fn sha256(bytes: &[u8]) -> (digest: [u8; 32])
    ensures
        digest@ == sha256_digest(bytes@),
{
    Sha256::digest(bytes).into()
}

/// The output key material of HKDF-SHA256: extract with `salt` and `ikm`, then expand `info` to
/// `len` bytes.
pub uninterp spec fn hkdf_output(salt: Seq<u8>, ikm: Seq<u8>, info: Seq<u8>, len: nat) -> Seq<u8>;

/// What hkdf reports of an output that is too long.
#[verifier::external_type_specification]
#[verifier::external_body]
pub struct ExInvalidLength(hkdf::InvalidLength);

/// `Hkdf::<Sha256>::new` and `expand` of hkdf: fills the whole output, and refuses one longer than
/// 255 blocks of 32 bytes.
#[verifier::external_body]
pub(crate) fn hkdf_sha256(salt: &[u8], ikm: &[u8], info: &[u8], output: &mut [u8]) -> (result: Result<(), hkdf::InvalidLength>)
    ensures
        final(output)@.len() == old(output)@.len(),
        result is Ok <==> old(output)@.len() <= 8160,
        result is Ok ==> final(output)@ == hkdf_output(salt@, ikm@, info@, old(output)@.len()),
{
    hkdf::Hkdf::<Sha256>::new(Some(salt), ikm).expand(info, output)
}

/// The X25519 function of RFC 7748: the scalar is clamped, then multiplies the point.
pub uninterp spec fn x25519_product(scalar: Seq<u8>, point: Seq<u8>) -> Seq<u8>;

/// `x25519` of x25519-dalek: the product of a clamped scalar and a point.
pub assume_specification[ x25519_dalek::x25519 ](k: [u8; 32], u: [u8; 32]) -> (product: [u8; 32])
    ensures
        product@ == x25519_product(k@, u@),
;

/// Bytes that the operating system's generator gave. Only `random` makes such a value, so whatever is
/// stated of one is stated of bytes that were drawn. They are wiped when they are dropped.
pub struct Drawn<const N: usize> {
    bytes: [u8; N],
}

impl<const N: usize> View for Drawn<N> {
    type V = Seq<u8>;

    closed spec fn view(&self) -> Seq<u8> {
        self.bytes@
    }
}

impl<const N: usize> Drop for Drawn<N> {
    fn drop(&mut self)
        opens_invariants none
        no_unwind
    {
        wipe(&mut self.bytes);
    }
}

impl<const N: usize> Drawn<N> {
    /// The bytes.
    pub fn bytes(&self) -> (bytes: [u8; N])
        ensures
            bytes@ == self@,
    {
        self.bytes
    }
}

/// A failure of the operating system's generator. Only `random` makes such a value.
pub struct NoEntropy {
    failed: bool,
}

impl NoEntropy {
    /// Whether the generator was asked and failed.
    pub closed spec fn happened(self) -> bool {
        self.failed
    }
}

/// `fill` of getrandom: fresh bytes of the operating system's generator, or its failure. Nothing is stated
/// of the bytes, which differ from call to call.
#[verifier::external_body]
pub(crate) fn random<const N: usize>() -> (drawn: Result<Drawn<N>, NoEntropy>)
    ensures
        drawn matches Err(failure) ==> failure.happened(),
{
    let mut bytes = [0u8; N];
    match getrandom::fill(&mut bytes) {
        Ok(()) => Ok(Drawn { bytes }),
        Err(_) => Err(NoEntropy { failed: true }),
    }
}

/// `zeroize` of zeroize: every byte becomes zero.
#[verifier::external_body]
pub(crate) fn wipe(bytes: &mut [u8])
    ensures
        final(bytes)@ == Seq::new(old(bytes)@.len(), |i: int| 0u8),
    opens_invariants none
    no_unwind
{
    bytes.zeroize()
}

/// `zeroize` of zeroize on a list: every byte becomes zero, spare ones too, and the list is empty.
#[verifier::external_body]
fn wipe_list(bytes: &mut Vec<u8>)
    ensures
        final(bytes)@ == Seq::<u8>::empty(),
    opens_invariants none
    no_unwind
{
    bytes.zeroize()
}

/// A secret. It is wiped when it is dropped.
pub struct Secret {
    bytes: Vec<u8>,
}

impl View for Secret {
    type V = Seq<u8>;

    closed spec fn view(&self) -> Seq<u8> {
        self.bytes@
    }
}

impl Drop for Secret {
    fn drop(&mut self)
        opens_invariants none
        no_unwind
    {
        wipe_list(&mut self.bytes);
    }
}

impl Secret {
    /// A secret of these bytes.
    pub fn new(bytes: Vec<u8>) -> (secret: Self)
        ensures
            secret@ == bytes@,
    {
        Secret { bytes }
    }

    /// The bytes.
    pub fn as_slice(&self) -> (bytes: &[u8])
        ensures
            bytes@ == self@,
    {
        self.bytes.as_slice()
    }
}

/// Bytes handed out in order to whoever draws randomness; zeros when they are used up.
pub struct Replay {
    pub bytes: Vec<u8>,
    pub offset: usize,
}

impl Replay {
    /// How many bytes are left.
    pub open spec fn left(&self) -> int {
        self.bytes@.len() - self.offset
    }

    /// The next 32 bytes.
    pub open spec fn next32(&self) -> Seq<u8> {
        self.bytes@.subrange(self.offset as int, self.offset + 32)
    }

    /// The byte that is handed out `k` bytes from now: zero behind the last one.
    pub open spec fn ahead(&self, k: int) -> int {
        if self.offset + k < self.bytes@.len() {
            self.bytes@[self.offset + k] as int
        } else {
            0
        }
    }

    /// Where the replay stands once `count` more bytes are handed out: never behind the last one.
    pub open spec fn moved(&self, count: int) -> int {
        if self.offset >= self.bytes@.len() {
            self.offset as int
        } else if self.offset + count >= self.bytes@.len() {
            self.bytes@.len() as int
        } else {
            self.offset + count
        }
    }

    /// A replay of these bytes from the first one on.
    pub fn new(bytes: Vec<u8>) -> (replay: Self)
        ensures
            replay.bytes == bytes,
            replay.offset == 0,
    {
        Replay { bytes, offset: 0 }
    }

    /// The next byte.
    fn take(&mut self) -> (byte: u8)
        ensures
            final(self).bytes == old(self).bytes,
            old(self).offset < old(self).bytes@.len() ==> {
                &&& byte == old(self).bytes@[old(self).offset as int]
                &&& final(self).offset == old(self).offset + 1
            },
            old(self).offset >= old(self).bytes@.len() ==> byte == 0 && final(self).offset == old(self).offset,
            byte == old(self).ahead(0),
            final(self).offset == old(self).moved(1),
    {
        if self.offset < self.bytes.len() {
            let byte = self.bytes[self.offset];
            self.offset = self.offset + 1;
            byte
        } else {
            0
        }
    }
}

impl TryRng for Replay {
    type Error = core::convert::Infallible;

    fn try_fill_bytes(&mut self, out: &mut [u8]) -> (result: Result<(), core::convert::Infallible>)
        ensures
            final(self).bytes == old(self).bytes,
            final(out)@.len() == old(out)@.len(),
            result is Ok,
            old(self).left() >= old(out)@.len() ==> {
                &&& final(self).offset == old(self).offset + old(out)@.len()
                &&& final(out)@ == old(self).bytes@.subrange(old(self).offset as int, old(self).offset + old(out)@.len())
            },
            forall|j: int| 0 <= j < final(out)@.len() ==> #[trigger] final(out)@[j] == old(self).ahead(j),
            final(self).offset == old(self).moved(old(out)@.len() as int),
    {
        let ghost start = self.offset as int;
        let ghost all = self.bytes;
        let ghost size = out@.len();
        let mut i: usize = 0;
        while i < out.len()
            invariant
                i <= out@.len() == size,
                self.bytes == all,
                all == old(self).bytes && start == old(self).offset,
                self.offset == old(self).moved(i as int),
                forall|j: int| 0 <= j < i ==> #[trigger] out@[j] == old(self).ahead(j),
                all@.len() - start >= size ==> {
                    &&& self.offset == start + i
                    &&& forall|j: int| 0 <= j < i ==> out@[j] == all@[start + j]
                },
            decreases size - i,
        {
            let byte = self.take();
            out[i] = byte;
            i += 1;
        }
        proof {
            if all@.len() - start >= size {
                assert(out@ =~= all@.subrange(start, start + size));
            }
        }
        Ok(())
    }

    fn try_next_u32(&mut self) -> (result: Result<u32, core::convert::Infallible>)
        ensures
            final(self).bytes == old(self).bytes,
            result is Ok,
            old(self).left() >= 4 ==> {
                let (all, at) = (old(self).bytes@, old(self).offset as int);
                &&& final(self).offset == at + 4
                &&& result->Ok_0 == all[at] + 0x100 * all[at + 1] + 0x1_0000 * all[at + 2] + 0x100_0000 * all[at + 3]
            },
            final(self).offset == old(self).moved(4),
            result->Ok_0 == old(self).ahead(0) + 0x100 * old(self).ahead(1) + 0x1_0000 * old(self).ahead(2) + 0x100_0000 * old(self).ahead(3),
    {
        let b0 = self.take() as u32;
        let b1 = self.take() as u32;
        let b2 = self.take() as u32;
        let b3 = self.take() as u32;
        Ok(b0 + 0x100 * b1 + 0x1_0000 * b2 + 0x100_0000 * b3)
    }

    fn try_next_u64(&mut self) -> (result: Result<u64, core::convert::Infallible>)
        ensures
            final(self).bytes == old(self).bytes,
            result is Ok,
            old(self).left() >= 8 ==> {
                let (all, at) = (old(self).bytes@, old(self).offset as int);
                &&& final(self).offset == at + 8
                &&& result->Ok_0 == all[at] + 0x100 * all[at + 1] + 0x1_0000 * all[at + 2] + 0x100_0000 * all[at + 3] + 0x1_0000_0000 * (
                all[at + 4] + 0x100 * all[at + 5] + 0x1_0000 * all[at + 6] + 0x100_0000 * all[at + 7])
            },
            final(self).offset == old(self).moved(8),
            result->Ok_0 == old(self).ahead(0) + 0x100 * old(self).ahead(1) + 0x1_0000 * old(self).ahead(2) + 0x100_0000 * old(self).ahead(3)
                + 0x1_0000_0000 * (old(self).ahead(4) + 0x100 * old(self).ahead(5) + 0x1_0000 * old(self).ahead(6) + 0x100_0000 * old(
                self,
            ).ahead(7)),
    {
        let low = self.try_next_u32();
        let high = self.try_next_u32();
        match (low, high) {
            (Ok(low), Ok(high)) => Ok(low as u64 + 0x1_0000_0000 * (high as u64)),
            _ => Ok(0),
        }
    }
}

impl TryCryptoRng for Replay {

}

/// Info strings are shorter than this: hpke counts them, with five bytes more, in 16 bits.
pub const MAX_INFO: usize = 65531;

/// What hpke reports of a message that it cannot seal or open.
#[verifier::external_type_specification]
#[verifier::external_body]
pub struct ExHpkeError(HpkeError);

/// The X25519 private key that RFC 9180 section 7.1.3 derives from a seed.
pub uninterp spec fn hpke_secret_key(seed: Seq<u8>) -> Seq<u8>;

/// The public key of an X25519 private key.
pub uninterp spec fn hpke_public_key(secret: Seq<u8>) -> Seq<u8>;

/// The encapsulated key, the ciphertext and the tag of one message in the authenticated mode of
/// RFC 9180, for DHKEM(X25519, HKDF-SHA256), HKDF-SHA256 and ChaCha20Poly1305; `None` where the key
/// exchange fails. `entropy` is what the ephemeral key is derived from.
pub uninterp spec fn hpke_sealed(
    sender: Seq<u8>,
    sender_public: Seq<u8>,
    recipient: Seq<u8>,
    info: Seq<u8>,
    aad: Seq<u8>,
    plaintext: Seq<u8>,
    entropy: Seq<u8>,
) -> Option<(Seq<u8>, Seq<u8>, Seq<u8>)>;

/// The plaintext of one message in that mode and suite; `None` where it does not authenticate.
pub uninterp spec fn hpke_opened(
    receiver: Seq<u8>,
    sender_public: Seq<u8>,
    enc: Seq<u8>,
    info: Seq<u8>,
    aad: Seq<u8>,
    ciphertext: Seq<u8>,
    tag: Seq<u8>,
) -> Option<Seq<u8>>;

/// The encapsulated key, the ciphertext and the tag of message number `sequence` of a sender's context in
/// that mode and suite; the first message has number zero. `None` where the key exchange or the sealing fails.
pub uninterp spec fn hpke_message_sealed(
    sender: Seq<u8>,
    sender_public: Seq<u8>,
    recipient: Seq<u8>,
    info: Seq<u8>,
    entropy: Seq<u8>,
    sequence: nat,
    aad: Seq<u8>,
    plaintext: Seq<u8>,
) -> Option<(Seq<u8>, Seq<u8>, Seq<u8>)>;

/// The plaintext of message number `sequence` of a receiver's context in that mode and suite; `None` where
/// it does not authenticate.
pub uninterp spec fn hpke_message_opened(
    receiver: Seq<u8>,
    sender_public: Seq<u8>,
    enc: Seq<u8>,
    info: Seq<u8>,
    sequence: nat,
    aad: Seq<u8>,
    ciphertext: Seq<u8>,
    tag: Seq<u8>,
) -> Option<Seq<u8>>;

/// `X25519HkdfSha256::derive_keypair` of hpke: the derived private key, and its public key.
#[verifier::external_body]
pub(crate) fn hpke_derive(seed: &[u8; 32]) -> (keys: ([u8; 32], [u8; 32]))
    ensures
        keys.0@ == hpke_secret_key(seed@),
        keys.1@ == hpke_public_key(keys.0@),
{
    let (secret, public) = X25519HkdfSha256::derive_keypair(seed);
    (secret.to_bytes().into(), public.to_bytes().into())
}

/// `X25519HkdfSha256::sk_to_pk` of hpke: the public key. A private key of 32 bytes always parses.
#[verifier::external_body]
pub(crate) fn hpke_public(secret: &[u8; 32]) -> (result: Result<[u8; 32], HpkeError>)
    ensures
        result is Ok,
        result->Ok_0@ == hpke_public_key(secret@),
{
    let secret = <X25519HkdfSha256 as Kem>::PrivateKey::from_bytes(secret)?;
    Ok(X25519HkdfSha256::sk_to_pk(&secret).to_bytes().into())
}

/// `single_shot_seal_inout_detached_with_rng` of hpke: replaces the plaintext by the ciphertext and
/// gives the encapsulated key and the tag. It draws 32 bytes once, and what it seals to a receiver's
/// public key in the name of a sender's, that receiver opens again.
#[verifier::external_body]
pub(crate) fn hpke_seal(
    sender: (&[u8; 32], &[u8; 32]),
    recipient: &[u8; 32],
    info: &[u8],
    aad: &[u8],
    data: &mut [u8],
    rng: &mut Replay,
) -> (result: Result<([u8; 32], [u8; 16]), HpkeError>)
    requires
        info@.len() < MAX_INFO,
        old(rng).left() >= 32,
    ensures
        final(data)@.len() == old(data)@.len(),
        match (result, hpke_sealed(sender.0@, sender.1@, recipient@, info@, aad@, old(data)@, old(rng).next32())) {
            (Ok((enc, tag)), Some(sealed)) => sealed == (enc@, final(data)@, tag@),
            (Err(_), None) => true,
            _ => false,
        },
        result matches Ok((enc, tag)) ==> {
            &&& final(rng).bytes == old(rng).bytes
            &&& final(rng).offset == old(rng).offset + 32
            &&& sender.1@ == hpke_public_key(sender.0@) ==> forall|receiver: Seq<u8>|
                receiver.len() == 32 && #[trigger] hpke_public_key(receiver) == recipient@
                    ==> hpke_opened(receiver, sender.1@, enc@, info@, aad@, final(data)@, tag@) == Some(old(data)@)
        },
{
    let secret = <X25519HkdfSha256 as Kem>::PrivateKey::from_bytes(sender.0)?;
    let public = <X25519HkdfSha256 as Kem>::PublicKey::from_bytes(sender.1)?;
    let recipient = <X25519HkdfSha256 as Kem>::PublicKey::from_bytes(recipient)?;
    let mode = OpModeS::Auth((secret, public));
    let (enc, tag) = hpke::single_shot_seal_inout_detached_with_rng::<ChaCha20Poly1305, HkdfSha256, X25519HkdfSha256>(
        &mode, &recipient, info, data.into(), aad, rng)?;
    Ok((enc.to_bytes().into(), tag.to_bytes().into()))
}

/// `single_shot_open_inout_detached` of hpke: replaces the ciphertext by the plaintext where the
/// message authenticates. Keys of 32 bytes and tags of 16 always parse.
#[verifier::external_body]
pub(crate) fn hpke_open(
    receiver: &[u8; 32],
    sender_public: &[u8; 32],
    enc: &[u8; 32],
    info: &[u8],
    aad: &[u8],
    data: &mut [u8],
    tag: &[u8; 16],
) -> (result: Result<(), HpkeError>)
    requires
        info@.len() < MAX_INFO,
    ensures
        final(data)@.len() == old(data)@.len(),
        match (result, hpke_opened(receiver@, sender_public@, enc@, info@, aad@, old(data)@, tag@)) {
            (Ok(()), Some(plaintext)) => plaintext == final(data)@,
            (Err(_), None) => true,
            _ => false,
        },
{
    let receiver = <X25519HkdfSha256 as Kem>::PrivateKey::from_bytes(receiver)?;
    let sender = <X25519HkdfSha256 as Kem>::PublicKey::from_bytes(sender_public)?;
    let enc = <X25519HkdfSha256 as Kem>::EncappedKey::from_bytes(enc)?;
    let tag = AeadTag::<ChaCha20Poly1305>::from_bytes(tag)?;
    hpke::single_shot_open_inout_detached::<ChaCha20Poly1305, HkdfSha256, X25519HkdfSha256>(
        &OpModeR::Auth(sender), &receiver, &enc, info, data.into(), aad, &tag)
}

/// `setup_sender_with_rng` of hpke, and `seal_inout_detached` on its context three times: the encapsulated
/// key, and each ciphertext with its tag. The setup draws 32 bytes once. A context counts its messages, and
/// what it seals depends on the number of a message, not on what the earlier ones hold.
#[verifier::external_body]
pub(crate) fn hpke_seal_three(
    sender: (&[u8; 32], &[u8; 32]),
    recipient: &[u8; 32],
    info: &[u8],
    rng: &mut Replay,
    aads: [&[u8]; 3],
    texts: [Vec<u8>; 3],
) -> (result: Result<([u8; 32], [Vec<u8>; 3], [[u8; 16]; 3]), HpkeError>)
    requires
        info@.len() < MAX_INFO,
        old(rng).left() >= 32,
    ensures
        result is Ok ==> final(rng).bytes == old(rng).bytes && final(rng).offset == old(rng).offset + 32,
        result matches Ok((enc, sealed, tags)) ==> forall|i: int|
            0 <= i < 3 ==> #[trigger] hpke_message_sealed(
                sender.0@,
                sender.1@,
                recipient@,
                info@,
                old(rng).next32(),
                i as nat,
                aads@[i]@,
                texts@[i]@,
            ) == Some((enc@, sealed@[i]@, tags@[i]@)),
        result is Err ==> exists|i: int|
            0 <= i < 3 && #[trigger] hpke_message_sealed(
                sender.0@,
                sender.1@,
                recipient@,
                info@,
                old(rng).next32(),
                i as nat,
                aads@[i]@,
                texts@[i]@,
            ) is None,
{
    let (enc, mut context) = hpke::setup_sender_with_rng::<ChaCha20Poly1305, HkdfSha256, X25519HkdfSha256>(
        &OpModeS::Auth((Deserializable::from_bytes(sender.0)?, Deserializable::from_bytes(sender.1)?)),
        &Deserializable::from_bytes(recipient)?, info, rng)?;
    let mut texts = texts;
    let a = context.seal_inout_detached(texts[0].as_mut_slice().into(), aads[0])?;
    let b = context.seal_inout_detached(texts[1].as_mut_slice().into(), aads[1])?;
    let c = context.seal_inout_detached(texts[2].as_mut_slice().into(), aads[2])?;
    Ok((enc.to_bytes().into(), texts, [a.to_bytes().into(), b.to_bytes().into(), c.to_bytes().into()]))
}

/// `setup_receiver` of hpke, and `open_inout_detached` on its context three times: the plaintexts, where all
/// three authenticate in that order.
#[verifier::external_body]
pub(crate) fn hpke_open_three(
    receiver: &[u8; 32],
    sender_public: &[u8; 32],
    enc: &[u8; 32],
    info: &[u8],
    aads: [&[u8]; 3],
    texts: [Vec<u8>; 3],
    tags: [&[u8; 16]; 3],
) -> (result: Result<[Vec<u8>; 3], HpkeError>)
    requires
        info@.len() < MAX_INFO,
    ensures
        result matches Ok(opened) ==> forall|i: int|
            0 <= i < 3 ==> #[trigger] hpke_message_opened(
                receiver@,
                sender_public@,
                enc@,
                info@,
                i as nat,
                aads@[i]@,
                texts@[i]@,
                tags@[i]@,
            ) == Some(opened@[i]@),
        result is Err ==> exists|i: int|
            0 <= i < 3 && #[trigger] hpke_message_opened(
                receiver@,
                sender_public@,
                enc@,
                info@,
                i as nat,
                aads@[i]@,
                texts@[i]@,
                tags@[i]@,
            ) is None,
{
    let mut context = hpke::setup_receiver::<ChaCha20Poly1305, HkdfSha256, X25519HkdfSha256>(
        &OpModeR::Auth(Deserializable::from_bytes(sender_public)?),
        &Deserializable::from_bytes(receiver)?, &Deserializable::from_bytes(enc)?, info)?;
    let mut texts = texts;
    context.open_inout_detached(texts[0].as_mut_slice().into(), aads[0], &AeadTag::from_bytes(tags[0])?)?;
    context.open_inout_detached(texts[1].as_mut_slice().into(), aads[1], &AeadTag::from_bytes(tags[1])?)?;
    context.open_inout_detached(texts[2].as_mut_slice().into(), aads[2], &AeadTag::from_bytes(tags[2])?)?;
    Ok(texts)
}

/// Two draws that hold the same bytes are the same: what a draw holds is all that the generator gave.
pub proof fn draws_are_told_apart<const N: usize>(a: Drawn<N>, b: Drawn<N>)
    requires
        a@ == b@,
    ensures
        a == b,
{
    assert(a.bytes =~= b.bytes);
}

/// That the generator failed is never taken for granted: only a failed call tells it.
pub proof fn failures_are_told() -> (untold: NoEntropy)
    ensures
        !untold.happened(),
{
    NoEntropy { failed: false }
}

} // verus!
