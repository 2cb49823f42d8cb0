//! The sealed-output protocol: requests, envelopes, sealing and opening. A device seals random bytes
//! to the public key of one request; only the holder of the request's secret key opens them.
use crate::crypto::{
    hpke_derive, hpke_open, hpke_opened, hpke_public, hpke_public_key, hpke_seal, hpke_sealed, hpke_secret_key, sha256,
    sha256_digest, wipe, x25519_product, Replay,
};
use crate::text::{extend, same_bytes};
use vstd::prelude::*;
use vstd::utf8::encode_utf8;

verus! {

/// Most bytes of one request.
pub const MAX_BYTES: usize = 64;

/// The length of an authentication tag.
pub const TAG_BYTES: usize = 16;

/// The HPKE info string of every envelope.
pub const INFO: &'static str = "mcpbytes-sealed-v1";

/// The length of the authenticated metadata of an envelope.
pub const AAD_LEN: usize = 130;

/// Why a request or an envelope is refused.
#[derive(Clone, Copy, Debug, PartialEq, Eq, Structural)]
pub enum Error {
    InvalidRequest,
    InvalidEnvelope,
    AuthenticationFailed,
}

/// A secret key of the protocol. It is wiped when it is dropped.
pub struct SecretKey {
    pub bytes: [u8; 32],
}

/// A request for `n` sealed bytes to the public key `recipient`; `id` names both.
#[derive(Clone, Copy, Debug, PartialEq, Eq)]
pub struct Request {
    pub n: u8,
    pub recipient: [u8; 32],
    pub id: [u8; 32],
}

/// The sender of an envelope. The firmware digest is authenticated sender metadata, not an
/// attestation of what the device measured when it started.
#[derive(Clone, Copy, Debug, PartialEq, Eq)]
pub struct Identity {
    pub key_id: [u8; 32],
    pub firmware: [u8; 32],
}

/// Sealed bytes. The ciphertext is followed by its tag, and that by zeros.
#[derive(Clone, Debug)]
pub struct Envelope {
    pub request: Request,
    pub identity: Identity,
    pub enc: [u8; 32],
    pub ciphertext: [u8; 80],
}

/// Opened bytes. They are wiped when they are dropped.
pub struct SecretBytes {
    bytes: [u8; 64],
    len: usize,
}

/// The fixed scalar that tells low-order public keys apart: it is no secret.
pub open spec fn probe() -> Seq<u8> {
    Seq::new(32, |i: int| 42u8)
}

/// A run of zeros.
pub open spec fn zeros(len: nat) -> Seq<u8> {
    Seq::new(len, |i: int| 0u8)
}

/// Whether `n` bytes may be requested to a public key: between 1 and 64, and a key of high order.
pub open spec fn is_admissible(n: int, recipient: Seq<u8>) -> bool {
    1 <= n <= MAX_BYTES && x25519_product(probe(), recipient) != zeros(32)
}

/// What the identifier of a request is the digest of.
pub open spec fn request_preimage(n: u8, recipient: Seq<u8>) -> Seq<u8> {
    encode_utf8("mcpbytes-sealed-request-v1\0"@) + seq![n] + recipient
}

/// The authenticated metadata of an envelope.
pub open spec fn aad_bytes(request: Request, key_id: Seq<u8>, firmware: Seq<u8>) -> Seq<u8> {
    seq![1u8, request.n] + request.recipient@ + request.id@ + key_id + firmware
}

/// The HPKE info string in bytes.
pub open spec fn info_bytes() -> Seq<u8> {
    encode_utf8(INFO@)
}

impl Request {
    /// Whether the parts of a request belong together.
    pub open spec fn valid(self) -> bool {
        &&& is_admissible(self.n as int, self.recipient@)
        &&& self.id@ == sha256_digest(request_preimage(self.n, self.recipient@))
    }

    /// A request for `n` bytes to a public key.
    pub fn new(n: usize, recipient: [u8; 32]) -> (result: Result<Self, Error>)
        ensures
            match result {
                Ok(request) => request.valid() && request.n == n && request.recipient == recipient,
                Err(error) => !is_admissible(n as int, recipient@) && error == Error::InvalidRequest,
            },
    {
        if n < 1 || n > MAX_BYTES {
            return Err(Error::InvalidRequest);
        }
        let scalar: [u8; 32] = [42; 32];
        let zero: [u8; 32] = [0; 32];
        let product = x25519_dalek::x25519(scalar, recipient);
        assert(scalar@ =~= probe());
        assert(zero@ =~= zeros(32));
        if same_bytes(&product, &zero) {
            return Err(Error::InvalidRequest);
        }
        let mut preimage: Vec<u8> = Vec::new();
        extend(&mut preimage, "mcpbytes-sealed-request-v1\0".as_bytes());
        preimage.push(n as u8);
        extend(&mut preimage, &recipient);
        assert(preimage@ =~= request_preimage(n as u8, recipient@));
        Ok(Request { n: n as u8, recipient, id: sha256(&preimage) })
    }

    /// Checks that the parts belong together.
    pub fn validate(&self) -> (result: Result<(), Error>)
        ensures
            match result {
                Ok(()) => self.valid(),
                Err(error) => !self.valid() && error == Error::InvalidRequest,
            },
    {
        match Request::new(self.n as usize, self.recipient) {
            Ok(request) => if same_bytes(&request.id, &self.id) {
                Ok(())
            } else {
                Err(Error::InvalidRequest)
            },
            Err(error) => Err(error),
        }
    }

    /// The authenticated metadata of an envelope that answers this request.
    pub fn aad(&self, identity: &Identity) -> (result: Result<[u8; 130], Error>)
        ensures
            match result {
                Ok(aad) => self.valid() && aad@ == aad_bytes(*self, identity.key_id@, identity.firmware@),
                Err(error) => !self.valid() && error == Error::InvalidRequest,
            },
    {
        if let Err(error) = self.validate() {
            return Err(error);
        }
        let mut aad: [u8; 130] = [0; 130];
        aad[0] = 1;
        aad[1] = self.n;
        let mut i: usize = 0;
        while i < 32
            invariant
                i <= 32,
                aad@.len() == 130,
                aad@[0] == 1 && aad@[1] == self.n,
                forall|j: int| 0 <= j < i ==> aad@[2 + j] == self.recipient@[j],
                forall|j: int| 0 <= j < i ==> aad@[34 + j] == self.id@[j],
                forall|j: int| 0 <= j < i ==> aad@[66 + j] == identity.key_id@[j],
                forall|j: int| 0 <= j < i ==> aad@[98 + j] == identity.firmware@[j],
            decreases 32 - i,
        {
            aad[2 + i] = self.recipient[i];
            aad[34 + i] = self.id[i];
            aad[66 + i] = identity.key_id[i];
            aad[98 + i] = identity.firmware[i];
            i += 1;
        }
        assert(aad@ =~= aad_bytes(*self, identity.key_id@, identity.firmware@)) by {
            assert forall|k: int| 0 <= k < 130 implies aad@[k] == aad_bytes(*self, identity.key_id@, identity.firmware@)[k] by {
                assert(2 <= k < 34 ==> aad@[2 + (k - 2)] == self.recipient@[k - 2]);
                assert(34 <= k < 66 ==> aad@[34 + (k - 34)] == self.id@[k - 34]);
                assert(66 <= k < 98 ==> aad@[66 + (k - 66)] == identity.key_id@[k - 66]);
                assert(98 <= k < 130 ==> aad@[98 + (k - 98)] == identity.firmware@[k - 98]);
            }
        }
        Ok(aad)
    }
}

impl Drop for SecretKey {
    fn drop(&mut self)
        opens_invariants none
        no_unwind
    {
        wipe(&mut self.bytes);
    }
}

/// The identifier of a public key.
pub fn key_id(public: &[u8; 32]) -> (id: [u8; 32])
    ensures
        id@ == sha256_digest(public@),
{
    sha256(public)
}

impl View for SecretBytes {
    type V = Seq<u8>;

    closed spec fn view(&self) -> Seq<u8> {
        self.bytes@.take(self.len as int)
    }
}

impl Drop for SecretBytes {
    fn drop(&mut self)
        opens_invariants none
        no_unwind
    {
        proof {
            use_type_invariant(&*self);
        }
        wipe(&mut self.bytes);
    }
}

impl SecretBytes {
    #[verifier::type_invariant]
    spec fn inv(self) -> bool {
        self.len <= 64
    }

    /// The bytes.
    pub fn as_slice(&self) -> (bytes: &[u8])
        ensures
            bytes@ == self@,
    {
        proof {
            use_type_invariant(self);
        }
        vstd::slice::slice_subrange(&self.bytes, 0, self.len)
    }

    /// These bytes; the list that held them is wiped.
    fn of(list: &mut Vec<u8>) -> (bytes: Self)
        requires
            old(list)@.len() <= MAX_BYTES,
        ensures
            bytes@ == old(list)@,
            final(list)@ == zeros(old(list)@.len()),
    {
        let ghost whole = list@;
        let mut bytes: [u8; 64] = [0; 64];
        let len: usize = list.len();
        let mut i: usize = 0;
        while i < len
            invariant
                i <= len <= 64,
                list@ == whole,
                whole.len() == len,
                bytes@.len() == 64,
                forall|j: int| 0 <= j < i ==> bytes@[j] == whole[j],
            decreases len - i,
        {
            bytes[i] = list[i];
            i += 1;
        }
        wipe(list.as_mut_slice());
        assert(bytes@.take(len as int) =~= whole);
        SecretBytes { bytes, len }
    }
}

/// The key pair of a seed.
pub fn keypair(seed: &[u8; 32]) -> (keys: (SecretKey, [u8; 32]))
    ensures
        keys.0.bytes@ == hpke_secret_key(seed@),
        keys.1@ == hpke_public_key(keys.0.bytes@),
{
    let (secret, public) = hpke_derive(seed);
    (SecretKey { bytes: secret }, public)
}

/// What sealing `plaintext` for a request gives: the encapsulated key, the ciphertext and the tag.
pub open spec fn sealed_parts(
    request: Request,
    firmware: Seq<u8>,
    sender: Seq<u8>,
    plaintext: Seq<u8>,
    entropy: Seq<u8>,
) -> Option<(Seq<u8>, Seq<u8>, Seq<u8>)> {
    let public = hpke_public_key(sender);
    let aad = aad_bytes(request, sha256_digest(public), firmware);
    hpke_sealed(sender, public, request.recipient@, info_bytes(), aad, plaintext, entropy)
}

/// What opening an envelope gives the holder of a receiver's key, who pinned a sender's public key.
pub open spec fn opening(expected: Request, receiver: Seq<u8>, pinned: Seq<u8>, envelope: Envelope) -> Result<Seq<u8>, Error> {
    let n = expected.n as int;
    let ciphertext = envelope.ciphertext@;
    if !expected.valid() {
        Err(Error::InvalidRequest)
    } else if {
        ||| envelope.request != expected
        ||| envelope.identity.key_id@ != sha256_digest(pinned)
        ||| hpke_public_key(receiver) != expected.recipient@
        ||| ciphertext.skip(n + 16) != zeros((64 - n) as nat)
    } {
        Err(Error::InvalidEnvelope)
    } else {
        let aad = aad_bytes(expected, envelope.identity.key_id@, envelope.identity.firmware@);
        match hpke_opened(
            receiver,
            pinned,
            envelope.enc@,
            info_bytes(),
            aad,
            ciphertext.take(n),
            ciphertext.subrange(n, n + 16),
        ) {
            Some(plaintext) => Ok(plaintext),
            None => Err(Error::AuthenticationFailed),
        }
    }
}

/// Seals `plaintext` for a request, in the name of `sender`. The caller supplies fresh checked
/// randomness as `entropy`; there is no fallback. The plaintext is wiped whether sealing succeeds or
/// fails. The receiver of the request opens the envelope to the same plaintext.
pub fn seal(
    request: &Request,
    firmware: [u8; 32],
    sender: &SecretKey,
    plaintext: &mut [u8],
    entropy: &[u8; 32],
) -> (result: Result<Envelope, Error>)
    ensures
        final(plaintext)@ == zeros(old(plaintext)@.len()),
        seal_result(*request, firmware, sender.bytes@, old(plaintext)@, entropy@, result),
        result matches Ok(envelope) ==> forall|receiver: Seq<u8>|
            receiver.len() == 32 && #[trigger] hpke_public_key(receiver) == request.recipient@
                ==> opening(*request, receiver, hpke_public_key(sender.bytes@), envelope) == Ok::<Seq<u8>, Error>(old(plaintext)@),
{
    let result = seal_inner(request, firmware, sender, plaintext, entropy);
    wipe(plaintext);
    result
}

/// When sealing succeeds, and with which envelope.
pub open spec fn seal_result(
    request: Request,
    firmware: [u8; 32],
    sender: Seq<u8>,
    plaintext: Seq<u8>,
    entropy: Seq<u8>,
    result: Result<Envelope, Error>,
) -> bool {
    let sound = request.valid() && plaintext.len() == request.n;
    match (result, sealed_parts(request, firmware@, sender, plaintext, entropy)) {
        (Ok(envelope), Some((enc, ciphertext, tag))) => {
            &&& sound
            &&& envelope.request == request
            &&& envelope.identity.key_id@ == sha256_digest(hpke_public_key(sender))
            &&& envelope.identity.firmware == firmware
            &&& envelope.enc@ == enc
            &&& envelope.ciphertext@ == ciphertext + tag + zeros((64 - request.n) as nat)
        },
        (Ok(_), None) => false,
        (Err(error), Some(_)) => !sound && error == Error::InvalidRequest,
        (Err(error), None) => error == Error::InvalidRequest,
    }
}

/// The info string is short.
proof fn info_is_short()
    ensures
        info_bytes().len() == 18,
{
    reveal_strlit("mcpbytes-sealed-v1");
    vstd::utf8::is_ascii_chars_encode_utf8(INFO@);
}

fn seal_inner(
    request: &Request,
    firmware: [u8; 32],
    sender: &SecretKey,
    plaintext: &[u8],
    entropy: &[u8; 32],
) -> (result: Result<Envelope, Error>)
    ensures
        seal_result(*request, firmware, sender.bytes@, plaintext@, entropy@, result),
        result matches Ok(envelope) ==> forall|receiver: Seq<u8>|
            receiver.len() == 32 && #[trigger] hpke_public_key(receiver) == request.recipient@
                ==> opening(*request, receiver, hpke_public_key(sender.bytes@), envelope) == Ok::<Seq<u8>, Error>(plaintext@),
{
    if let Err(error) = request.validate() {
        return Err(error);
    }
    if plaintext.len() != request.n as usize {
        return Err(Error::InvalidRequest);
    }
    let public = match hpke_public(&sender.bytes) {
        Ok(public) => public,
        Err(_) => return Err(Error::InvalidRequest),
    };
    let identity = Identity { key_id: key_id(&public), firmware };
    let aad = match request.aad(&identity) {
        Ok(aad) => aad,
        Err(error) => return Err(error),
    };
    let mut data: Vec<u8> = Vec::with_capacity(plaintext.len());
    extend(&mut data, plaintext);
    let mut bytes: Vec<u8> = Vec::with_capacity(32);
    extend(&mut bytes, entropy);
    let mut rng = Replay::new(bytes);
    proof {
        info_is_short();
        assert(data@ =~= plaintext@);
        assert(rng.next32() =~= entropy@);
    }
    let sealed = hpke_seal((&sender.bytes, &public), &request.recipient, INFO.as_bytes(), &aad, data.as_mut_slice(), &mut rng);
    wipe(rng.bytes.as_mut_slice());
    match sealed {
        Ok((enc, tag)) => {
            let ciphertext = padded(&data, &tag);
            let envelope = Envelope { request: *request, identity, enc, ciphertext };
            proof {
                let n = request.n as int;
                assert(ciphertext@.take(n) =~= data@);
                assert(ciphertext@.subrange(n, n + 16) =~= tag@);
                assert(ciphertext@.skip(n + 16) =~= zeros((64 - n) as nat));
            }
            Ok(envelope)
        },
        Err(_) => {
            wipe(data.as_mut_slice());
            Err(Error::InvalidRequest)
        },
    }
}

/// A ciphertext and its tag, followed by zeros.
fn padded(data: &Vec<u8>, tag: &[u8; 16]) -> (ciphertext: [u8; 80])
    requires
        data@.len() <= MAX_BYTES,
    ensures
        ciphertext@ == data@ + tag@ + zeros((64 - data@.len()) as nat),
{
    let mut ciphertext: [u8; 80] = [0; 80];
    let mut i: usize = 0;
    while i < data.len()
        invariant
            i <= data@.len() <= 64,
            ciphertext@.len() == 80,
            forall|j: int| 0 <= j < i ==> ciphertext@[j] == data@[j],
            forall|j: int| i <= j < 80 ==> ciphertext@[j] == 0,
        decreases data@.len() - i,
    {
        ciphertext[i] = data[i];
        i += 1;
    }
    let mut k: usize = 0;
    while k < 16
        invariant
            k <= 16,
            data@.len() <= 64,
            ciphertext@.len() == 80,
            forall|j: int| 0 <= j < data@.len() ==> ciphertext@[j] == data@[j],
            forall|j: int| 0 <= j < k ==> ciphertext@[data@.len() + j] == tag@[j],
            forall|j: int| data@.len() + k <= j < 80 ==> ciphertext@[j] == 0,
        decreases 16 - k,
    {
        ciphertext[data.len() + k] = tag[k];
        k += 1;
    }
    assert(ciphertext@ =~= data@ + tag@ + zeros((64 - data@.len()) as nat)) by {
        let n = data@.len() as int;
        assert forall|j: int| n <= j < n + 16 implies ciphertext@[j] == tag@[j - n] by {
            assert(ciphertext@[n + (j - n)] == tag@[j - n]);
        }
    }
    ciphertext
}

/// Whether the bytes from `start` on are zeros.
fn is_zero_from(bytes: &[u8; 80], start: usize) -> (result: bool)
    requires
        start <= 80,
    ensures
        result == (bytes@.skip(start as int) == zeros((80 - start) as nat)),
{
    let mut i: usize = start;
    while i < 80
        invariant
            start <= i <= 80,
            forall|j: int| start <= j < i ==> bytes@[j] == 0,
        decreases 80 - i,
    {
        if bytes[i] != 0 {
            assert(bytes@.skip(start as int)[i - start] != zeros((80 - start) as nat)[i - start]);
            return false;
        }
        i += 1;
    }
    assert(bytes@.skip(start as int) =~= zeros((80 - start) as nat));
    true
}

/// Opens an envelope that must answer `expected` and come from the pinned sender.
pub fn open(expected: &Request, receiver: &SecretKey, pinned_sender: &[u8; 32], envelope: &Envelope) -> (result: Result<SecretBytes, Error>)
    ensures
        match (result, opening(*expected, receiver.bytes@, pinned_sender@, *envelope)) {
            (Ok(bytes), Ok(plaintext)) => bytes@ == plaintext,
            (Err(error), Err(expected)) => error == expected,
            _ => false,
        },
        result matches Ok(bytes) ==> bytes@.len() == expected.n,
{
    if let Err(error) = expected.validate() {
        return Err(error);
    }
    let public = match hpke_public(&receiver.bytes) {
        Ok(public) => public,
        Err(_) => return Err(Error::InvalidEnvelope),
    };
    if !same_request(&envelope.request, expected) || !same_bytes(&envelope.identity.key_id, &key_id(pinned_sender))
        || !same_bytes(&public, &expected.recipient) {
        return Err(Error::InvalidEnvelope);
    }
    let n: usize = expected.n as usize;
    if !is_zero_from(&envelope.ciphertext, n + TAG_BYTES) {
        return Err(Error::InvalidEnvelope);
    }
    let aad = match expected.aad(&envelope.identity) {
        Ok(aad) => aad,
        Err(error) => return Err(error),
    };
    let mut bytes: Vec<u8> = Vec::with_capacity(n);
    let mut i: usize = 0;
    while i < n
        invariant
            i <= n <= 64,
            bytes@ == envelope.ciphertext@.take(i as int),
        decreases n - i,
    {
        bytes.push(envelope.ciphertext[i]);
        assert(bytes@ =~= envelope.ciphertext@.take(i + 1));
        i += 1;
    }
    let mut tag: [u8; 16] = [0; 16];
    let mut k: usize = 0;
    while k < 16
        invariant
            k <= 16,
            n <= 64,
            tag@.len() == 16,
            forall|j: int| 0 <= j < k ==> tag@[j] == envelope.ciphertext@[n + j],
        decreases 16 - k,
    {
        tag[k] = envelope.ciphertext[n + k];
        k += 1;
    }
    proof {
        assert(tag@ =~= envelope.ciphertext@.subrange(n as int, n + 16));
        info_is_short();
    }
    match hpke_open(&receiver.bytes, pinned_sender, &envelope.enc, INFO.as_bytes(), &aad, bytes.as_mut_slice(), &tag) {
        Ok(()) => Ok(SecretBytes::of(&mut bytes)),
        Err(_) => {
            wipe(bytes.as_mut_slice());
            Err(Error::AuthenticationFailed)
        },
    }
}

/// Whether two requests are equal.
fn same_request(a: &Request, b: &Request) -> (result: bool)
    ensures
        result == (*a == *b),
{
    let result = a.n == b.n && same_bytes(&a.recipient, &b.recipient) && same_bytes(&a.id, &b.id);
    proof {
        if result {
            assert(a.recipient =~= b.recipient);
            assert(a.id =~= b.id);
        }
    }
    result
}

/// The authenticated metadata fixes the request and the sender: no two pairs share it.
pub proof fn aad_is_injective(a: Request, b: Request, a_sender: Identity, b_sender: Identity)
    requires
        aad_bytes(a, a_sender.key_id@, a_sender.firmware@) == aad_bytes(b, b_sender.key_id@, b_sender.firmware@),
    ensures
        a == b,
        a_sender == b_sender,
{
    let x = aad_bytes(a, a_sender.key_id@, a_sender.firmware@);
    let y = aad_bytes(b, b_sender.key_id@, b_sender.firmware@);
    assert(x[1] == a.n && y[1] == b.n);
    assert(x.subrange(2, 34) =~= a.recipient@ && y.subrange(2, 34) =~= b.recipient@);
    assert(x.subrange(34, 66) =~= a.id@ && y.subrange(34, 66) =~= b.id@);
    assert(x.subrange(66, 98) =~= a_sender.key_id@ && y.subrange(66, 98) =~= b_sender.key_id@);
    assert(x.subrange(98, 130) =~= a_sender.firmware@ && y.subrange(98, 130) =~= b_sender.firmware@);
    assert(a.recipient =~= b.recipient && a.id =~= b.id);
    assert(a_sender.key_id =~= b_sender.key_id && a_sender.firmware =~= b_sender.firmware);
}

/// What a request identifier is the digest of fixes the size and the recipient.
pub proof fn request_preimage_is_injective(n: u8, recipient: Seq<u8>, m: u8, other: Seq<u8>)
    requires
        recipient.len() == 32,
        other.len() == 32,
        request_preimage(n, recipient) == request_preimage(m, other),
    ensures
        n == m,
        recipient == other,
{
    let tag = encode_utf8("mcpbytes-sealed-request-v1\0"@);
    let x = request_preimage(n, recipient);
    let y = request_preimage(m, other);
    assert(x[tag.len() as int] == n && y[tag.len() as int] == m);
    assert(x.skip(tag.len() as int + 1) =~= recipient && y.skip(tag.len() as int + 1) =~= other);
}

/// Only an envelope that answers the expected request, in the name of the pinned sender, opens.
pub proof fn opening_is_bound(expected: Request, receiver: Seq<u8>, pinned: Seq<u8>, envelope: Envelope)
    requires
        opening(expected, receiver, pinned, envelope) is Ok,
    ensures
        expected.valid(),
        envelope.request == expected,
        envelope.identity.key_id@ == sha256_digest(pinned),
        expected.recipient@ == hpke_public_key(receiver),
{
}

/// A request is valid exactly where it asks for 1 to 64 bytes, to a public key that the fixed scalar does
/// not take to zero, under the digest of its size and key.
pub proof fn requests_are_named_by_their_digest(request: Request, scalar: Seq<u8>, zero: Seq<u8>)
    requires
        scalar.len() == 32,
        forall|i: int| 0 <= i < 32 ==> #[trigger] scalar[i] == 42,
        zero.len() == 32,
        forall|i: int| 0 <= i < 32 ==> #[trigger] zero[i] == 0,
    ensures
        request.valid() <==> {
            &&& 1 <= request.n <= 64
            &&& x25519_product(scalar, request.recipient@) != zero
            &&& request.id@ == sha256_digest(encode_utf8("mcpbytes-sealed-request-v1\0"@) + seq![request.n] + request.recipient@)
        },
{
    assert(scalar =~= probe());
    assert(zero =~= zeros(32));
}

/// A plaintext is sealed under the protocol's own info string, from the sender's key to the request's, with
/// metadata that spells out the version of the protocol, the size, the request, the sender and its firmware.
pub proof fn sealing_is_bound(request: Request, firmware: Seq<u8>, sender: Seq<u8>, plaintext: Seq<u8>, entropy: Seq<u8>)
    ensures
        sealed_parts(request, firmware, sender, plaintext, entropy) == hpke_sealed(
            sender,
            hpke_public_key(sender),
            request.recipient@,
            encode_utf8("mcpbytes-sealed-v1"@),
            seq![1u8, request.n] + request.recipient@ + request.id@ + sha256_digest(hpke_public_key(sender)) + firmware,
            plaintext,
            entropy,
        ),
{
}

/// Sealing succeeds exactly for a valid request and a plaintext of its size that HPKE seals; the envelope
/// then answers that very request, names its sender and firmware, and holds the ciphertext, the tag, and
/// zeros up to its end.
pub proof fn envelopes_hold_what_was_sealed(
    request: Request,
    firmware: [u8; 32],
    sender: Seq<u8>,
    plaintext: Seq<u8>,
    entropy: Seq<u8>,
    result: Result<Envelope, Error>,
)
    requires
        seal_result(request, firmware, sender, plaintext, entropy, result),
    ensures
        result is Ok <==> request.valid() && plaintext.len() == request.n && sealed_parts(
            request,
            firmware@,
            sender,
            plaintext,
            entropy,
        ) is Some,
        result matches Err(error) ==> error == Error::InvalidRequest,
        result matches Ok(envelope) ==> {
            let (enc, ciphertext, tag) = sealed_parts(request, firmware@, sender, plaintext, entropy)->0;
            &&& envelope.request == request
            &&& envelope.identity.key_id@ == sha256_digest(hpke_public_key(sender))
            &&& envelope.identity.firmware@ == firmware@
            &&& envelope.enc@ == enc
            &&& ciphertext.is_prefix_of(envelope.ciphertext@)
            &&& envelope.ciphertext@.subrange(ciphertext.len() as int, (ciphertext.len() + tag.len()) as int) == tag
            &&& forall|i: int| ciphertext.len() + tag.len() <= i < 80 ==> #[trigger] envelope.ciphertext@[i] == 0
        },
{
    if result is Ok {
        let (enc, ciphertext, tag) = sealed_parts(request, firmware@, sender, plaintext, entropy)->0;
        let all = result->Ok_0.ciphertext@;
        assert(all == ciphertext + tag + zeros((64 - request.n) as nat));
        assert(all.subrange(0, ciphertext.len() as int) =~= ciphertext);
        assert(all.subrange(ciphertext.len() as int, (ciphertext.len() + tag.len()) as int) =~= tag);
        assert(all.len() == 80);
    }
}

/// An envelope opens exactly where it answers the expected request, names the pinned sender, is sealed to
/// the receiver's own key, holds zeros behind its tag, and authenticates under all of its metadata; each
/// other envelope is refused, and the opened bytes are those that HPKE gives.
pub proof fn envelopes_open_for_their_receiver(expected: Request, receiver: Seq<u8>, pinned: Seq<u8>, envelope: Envelope)
    ensures
        ({
            let n = expected.n as int;
            let matching = envelope.request == expected && envelope.identity.key_id@ == sha256_digest(pinned) && hpke_public_key(receiver)
                == expected.recipient@ && forall|i: int| n + 16 <= i < 80 ==> #[trigger] envelope.ciphertext@[i] == 0;
            let opened = hpke_opened(
                receiver,
                pinned,
                envelope.enc@,
                encode_utf8("mcpbytes-sealed-v1"@),
                seq![1u8, expected.n] + expected.recipient@ + expected.id@ + envelope.identity.key_id@ + envelope.identity.firmware@,
                envelope.ciphertext@.take(n),
                envelope.ciphertext@.subrange(n, n + 16),
            );
            &&& !expected.valid() ==> opening(expected, receiver, pinned, envelope) == Err::<Seq<u8>, Error>(Error::InvalidRequest)
            &&& expected.valid() && !matching ==> opening(expected, receiver, pinned, envelope) == Err::<Seq<u8>, Error>(
                Error::InvalidEnvelope,
            )
            &&& expected.valid() && matching && opened is None ==> opening(expected, receiver, pinned, envelope) == Err::<Seq<u8>, Error>(
                Error::AuthenticationFailed,
            )
            &&& expected.valid() && matching && opened is Some ==> opening(expected, receiver, pinned, envelope) == Ok::<Seq<u8>, Error>(
                opened->0,
            )
        }),
{
    let n = expected.n as int;
    if expected.valid() {
        let tail = envelope.ciphertext@.skip(n + 16);
        if tail == zeros((64 - n) as nat) {
            assert forall|i: int| n + 16 <= i < 80 implies #[trigger] envelope.ciphertext@[i] == 0 by {
                assert(tail[i - (n + 16)] == 0);
            }
        }
        if forall|i: int| n + 16 <= i < 80 ==> #[trigger] envelope.ciphertext@[i] == 0 {
            assert(tail =~= zeros((64 - n) as nat));
        }
    }
}

} // verus!
