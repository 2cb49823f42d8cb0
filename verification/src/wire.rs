//! How requests and envelopes are written in JSON fields: byte strings as unpadded base64url.
use crate::crypto::{sha256_digest, x25519_product};
use crate::encoding::{base64url, base64url_is_injective, base64url_text, from_base64url};
use crate::sealed::{is_admissible, probe, request_preimage, zeros, Envelope, Error, Identity, Request, TAG_BYTES};
use crate::text::same_bytes;
use vstd::prelude::*;
use vstd::utf8::encode_utf8;

verus! {

/// Whether a text is the base64url form of `len` bytes.
pub open spec fn decodes(text: Seq<char>, len: nat) -> bool {
    exists|bytes: Seq<u8>| bytes.len() == len && #[trigger] base64url_text(bytes) == text
}

/// The bytes that a text is the base64url form of.
pub open spec fn decoded(text: Seq<char>) -> Seq<u8> {
    choose|bytes: Seq<u8>| #[trigger] base64url_text(bytes) == text
}

/// Bytes in a JSON field.
pub fn encode(bytes: &[u8]) -> (text: String)
    ensures
        text@ == base64url_text(bytes@),
{
    base64url(bytes)
}

/// Exactly `N` bytes from a JSON field; every other text is refused.
pub fn decode<const N: usize>(text: &str) -> (result: Result<[u8; N], Error>)
    ensures
        match result {
            Ok(bytes) => base64url_text(bytes@) == text@,
            Err(error) => error == Error::InvalidEnvelope && !decodes(text@, N as nat),
        },
{
    let data = match decode_vec(text, N) {
        Some(data) => data,
        None => return Err(Error::InvalidEnvelope),
    };
    let mut bytes: [u8; N] = [0; N];
    let mut i: usize = 0;
    while i < N
        invariant
            i <= N,
            data@.len() == N,
            bytes@.len() == N,
            forall|j: int| 0 <= j < i ==> bytes@[j] == data@[j],
        decreases N - i,
    {
        bytes[i] = data[i];
        i += 1;
    }
    assert(bytes@ =~= data@);
    Ok(bytes)
}

/// Exactly `len` bytes from a JSON field.
fn decode_vec(text: &str, len: usize) -> (result: Option<Vec<u8>>)
    ensures
        match result {
            Some(bytes) => bytes@.len() == len && base64url_text(bytes@) == text@,
            None => !decodes(text@, len as nat),
        },
{
    let data = match from_base64url(text) {
        Ok(data) => data,
        Err(_) => return None,
    };
    proof {
        assert forall|bytes: Seq<u8>| #[trigger] base64url_text(bytes) == text@ implies bytes == data@ by {
            base64url_is_injective(bytes, data@);
        }
    }
    if data.len() != len {
        return None;
    }
    Some(data)
}

/// A request in JSON fields.
#[derive(Clone, Debug, PartialEq, Eq)]
pub struct WireRequest {
    pub version: u8,
    pub n: u8,
    pub pk_c: String,
    pub request_id: String,
}

impl WireRequest {
    /// Whether these fields are the given request.
    pub open spec fn carries(self, request: Request) -> bool {
        &&& self.version == 1
        &&& self.n == request.n
        &&& self.pk_c@ == base64url_text(request.recipient@)
        &&& self.request_id@ == base64url_text(request.id@)
    }

    /// Why these fields are no request; `None` where they are.
    pub open spec fn refusal(self) -> Option<Error> {
        let recipient = decoded(self.pk_c@);
        if self.version != 1 {
            Some(Error::InvalidRequest)
        } else if !decodes(self.pk_c@, 32) {
            Some(Error::InvalidEnvelope)
        } else if !is_admissible(self.n as int, recipient) {
            Some(Error::InvalidRequest)
        } else if !decodes(self.request_id@, 32) {
            Some(Error::InvalidEnvelope)
        } else if decoded(self.request_id@) != sha256_digest(request_preimage(self.n, recipient)) {
            Some(Error::InvalidRequest)
        } else {
            None
        }
    }

    /// The request in these fields.
    pub fn to_core(&self) -> (result: Result<Request, Error>)
        ensures
            match result {
                Ok(request) => self.refusal() is None && request.valid() && self.carries(request),
                Err(error) => self.refusal() == Some(error),
            },
    {
        if self.version != 1 {
            return Err(Error::InvalidRequest);
        }
        let recipient: [u8; 32] = match decode(self.pk_c.as_str()) {
            Ok(recipient) => recipient,
            Err(error) => return Err(error),
        };
        proof {
            decoded_is(self.pk_c@, recipient@);
        }
        let request = match Request::new(self.n as usize, recipient) {
            Ok(request) => request,
            Err(error) => return Err(error),
        };
        let id: [u8; 32] = match decode(self.request_id.as_str()) {
            Ok(id) => id,
            Err(error) => return Err(error),
        };
        proof {
            decoded_is(self.request_id@, id@);
        }
        if !same_bytes(&request.id, &id) {
            return Err(Error::InvalidRequest);
        }
        Ok(request)
    }

    /// The JSON fields of a request.
    pub fn from(value: &Request) -> (wire: Self)
        ensures
            wire.carries(*value),
    {
        WireRequest { version: 1, n: value.n, pk_c: encode(&value.recipient), request_id: encode(&value.id) }
    }
}

/// An envelope in JSON fields.
#[derive(Clone, Debug)]
pub struct WireEnvelope {
    pub request: WireRequest,
    pub device_pk_id: String,
    pub fw_digest: String,
    pub enc: String,
    pub ct: String,
}

impl WireEnvelope {
    /// Whether these fields are the given envelope.
    pub open spec fn carries(self, envelope: Envelope) -> bool {
        &&& self.request.carries(envelope.request)
        &&& self.device_pk_id@ == base64url_text(envelope.identity.key_id@)
        &&& self.fw_digest@ == base64url_text(envelope.identity.firmware@)
        &&& self.enc@ == base64url_text(envelope.enc@)
        &&& self.ct@ == base64url_text(envelope.ciphertext@.take(envelope.request.n + 16))
    }

    /// Why these fields are no envelope; `None` where they are.
    pub open spec fn refusal(self) -> Option<Error> {
        if self.request.refusal() is Some {
            self.request.refusal()
        } else if decodes(self.ct@, (self.request.n + 16) as nat) && decodes(self.device_pk_id@, 32) && decodes(self.fw_digest@, 32)
            && decodes(self.enc@, 32) {
            None
        } else {
            Some(Error::InvalidEnvelope)
        }
    }

    /// The envelope in these fields; the room behind its tag is zero.
    pub fn to_core(&self) -> (result: Result<Envelope, Error>)
        ensures
            match result {
                Ok(envelope) => {
                    &&& self.refusal() is None
                    &&& envelope.request.valid()
                    &&& self.carries(envelope)
                    &&& envelope.ciphertext@.skip(envelope.request.n + 16) == zeros((64 - envelope.request.n) as nat)
                },
                Err(error) => self.refusal() == Some(error),
            },
    {
        let request = match self.request.to_core() {
            Ok(request) => request,
            Err(error) => return Err(error),
        };
        let n: usize = request.n as usize + TAG_BYTES;
        let ct = match decode_vec(self.ct.as_str(), n) {
            Some(ct) => ct,
            None => return Err(Error::InvalidEnvelope),
        };
        let mut ciphertext: [u8; 80] = [0; 80];
        let mut i: usize = 0;
        while i < n
            invariant
                i <= n <= 80,
                ct@.len() == n,
                ciphertext@.len() == 80,
                forall|j: int| 0 <= j < i ==> ciphertext@[j] == ct@[j],
                forall|j: int| i <= j < 80 ==> ciphertext@[j] == 0,
            decreases n - i,
        {
            ciphertext[i] = ct[i];
            i += 1;
        }
        let key_id: [u8; 32] = match decode(self.device_pk_id.as_str()) {
            Ok(key_id) => key_id,
            Err(error) => return Err(error),
        };
        let firmware: [u8; 32] = match decode(self.fw_digest.as_str()) {
            Ok(firmware) => firmware,
            Err(error) => return Err(error),
        };
        let enc: [u8; 32] = match decode(self.enc.as_str()) {
            Ok(enc) => enc,
            Err(error) => return Err(error),
        };
        let envelope = Envelope { request, identity: Identity { key_id, firmware }, enc, ciphertext };
        proof {
            assert(ciphertext@.take(n as int) =~= ct@);
            assert(ciphertext@.skip(n as int) =~= zeros((80 - n) as nat));
        }
        Ok(envelope)
    }

    /// The JSON fields of an envelope.
    pub fn from(value: &Envelope) -> (wire: Self)
        requires
            value.request.n <= 64,
        ensures
            wire.carries(*value),
    {
        let n: usize = value.request.n as usize + TAG_BYTES;
        let mut ct: Vec<u8> = Vec::new();
        let mut i: usize = 0;
        while i < n
            invariant
                i <= n <= 80,
                ct@ == value.ciphertext@.take(i as int),
            decreases n - i,
        {
            ct.push(value.ciphertext[i]);
            assert(ct@ =~= value.ciphertext@.take(i + 1));
            i += 1;
        }
        WireEnvelope {
            request: WireRequest::from(&value.request),
            device_pk_id: encode(&value.identity.key_id),
            fw_digest: encode(&value.identity.firmware),
            enc: encode(&value.enc),
            ct: encode(&ct),
        }
    }
}

/// A text decodes to the bytes that it is the base64url form of, and to no others.
pub proof fn decoded_is(text: Seq<char>, bytes: Seq<u8>)
    requires
        base64url_text(bytes) == text,
    ensures
        decodes(text, bytes.len()),
        decoded(text) == bytes,
        forall|len: nat| decodes(text, len) ==> len == bytes.len(),
{
    base64url_is_injective(decoded(text), bytes);
    assert forall|len: nat| decodes(text, len) implies len == bytes.len() by {
        let other = choose|other: Seq<u8>| other.len() == len && #[trigger] base64url_text(other) == text;
        base64url_is_injective(other, bytes);
    }
}

/// A valid request written to JSON fields is read back as the same request.
pub proof fn request_survives_the_wire(request: Request, wire: WireRequest, read: Request)
    requires
        request.valid(),
        wire.carries(request),
    ensures
        wire.refusal() is None,
        wire.carries(read) ==> read == request,
{
    decoded_is(wire.pk_c@, request.recipient@);
    decoded_is(wire.request_id@, request.id@);
    if wire.carries(read) {
        base64url_is_injective(read.recipient@, request.recipient@);
        base64url_is_injective(read.id@, request.id@);
        assert(read.recipient =~= request.recipient);
        assert(read.id =~= request.id);
    }
}

/// An envelope for a valid request, with zeros behind its tag, written to JSON fields is read back
/// as the same envelope.
pub proof fn envelope_survives_the_wire(envelope: Envelope, wire: WireEnvelope, read: Envelope)
    requires
        envelope.request.valid(),
        envelope.ciphertext@.skip(envelope.request.n + 16) == zeros((64 - envelope.request.n) as nat),
        wire.carries(envelope),
    ensures
        wire.refusal() is None,
        wire.carries(read) && read.ciphertext@.skip(read.request.n + 16) == zeros((64 - read.request.n) as nat) ==> read == envelope,
{
    let n = envelope.request.n + 16;
    request_survives_the_wire(envelope.request, wire.request, read.request);
    decoded_is(wire.ct@, envelope.ciphertext@.take(n));
    decoded_is(wire.device_pk_id@, envelope.identity.key_id@);
    decoded_is(wire.fw_digest@, envelope.identity.firmware@);
    decoded_is(wire.enc@, envelope.enc@);
    if wire.carries(read) && read.ciphertext@.skip(read.request.n + 16) == zeros((64 - read.request.n) as nat) {
        base64url_is_injective(read.identity.key_id@, envelope.identity.key_id@);
        base64url_is_injective(read.identity.firmware@, envelope.identity.firmware@);
        base64url_is_injective(read.enc@, envelope.enc@);
        base64url_is_injective(read.ciphertext@.take(n), envelope.ciphertext@.take(n));
        assert(read.identity.key_id =~= envelope.identity.key_id);
        assert(read.identity.firmware =~= envelope.identity.firmware);
        assert(read.enc =~= envelope.enc);
        assert(read.ciphertext@ =~= read.ciphertext@.take(n) + read.ciphertext@.skip(n));
        assert(envelope.ciphertext@ =~= envelope.ciphertext@.take(n) + envelope.ciphertext@.skip(n));
        assert(read.ciphertext =~= envelope.ciphertext);
    }
}

/// The fields of a request are accepted exactly where they are of the first version, both texts are the
/// base64url form of 32 bytes, and the request that they spell is valid; what is wrong with them first
/// decides the error.
pub proof fn requests_are_read_strictly(wire: WireRequest, recipient: Seq<u8>, id: Seq<u8>)
    requires
        decodes(wire.pk_c@, 32) ==> base64url_text(recipient) == wire.pk_c@,
        decodes(wire.request_id@, 32) ==> base64url_text(id) == wire.request_id@,
    ensures
        ({
            let admissible = 1 <= wire.n <= 64 && x25519_product(Seq::new(32, |i: int| 42u8), recipient) != Seq::new(32, |i: int| 0u8);
            wire.refusal() == if wire.version != 1 {
                Some(Error::InvalidRequest)
            } else if !decodes(wire.pk_c@, 32) {
                Some(Error::InvalidEnvelope)
            } else if !admissible {
                Some(Error::InvalidRequest)
            } else if !decodes(wire.request_id@, 32) {
                Some(Error::InvalidEnvelope)
            } else if id != sha256_digest(encode_utf8("mcpbytes-sealed-request-v1\0"@) + seq![wire.n] + recipient) {
                Some(Error::InvalidRequest)
            } else {
                None
            }
        }),
{
    assert(Seq::new(32, |i: int| 42u8) =~= probe());
    assert(Seq::new(32, |i: int| 0u8) =~= zeros(32));
    if decodes(wire.pk_c@, 32) {
        decoded_is(wire.pk_c@, recipient);
    }
    if decodes(wire.request_id@, 32) {
        decoded_is(wire.request_id@, id);
    }
}

/// The fields of an envelope are accepted exactly where those of its request are, the other three texts
/// are the base64url form of 32 bytes, and the ciphertext has the request's size and room for its tag.
pub proof fn envelopes_are_read_strictly(wire: WireEnvelope)
    ensures
        wire.refusal() is None <==> {
            &&& wire.request.refusal() is None
            &&& exists|ct: Seq<u8>| ct.len() == wire.request.n + 16 && #[trigger] base64url_text(ct) == wire.ct@
            &&& exists|key_id: Seq<u8>| key_id.len() == 32 && #[trigger] base64url_text(key_id) == wire.device_pk_id@
            &&& exists|firmware: Seq<u8>| firmware.len() == 32 && #[trigger] base64url_text(firmware) == wire.fw_digest@
            &&& exists|enc: Seq<u8>| enc.len() == 32 && #[trigger] base64url_text(enc) == wire.enc@
        },
        wire.request.refusal() is Some ==> wire.refusal() == wire.request.refusal(),
        wire.request.refusal() is None && wire.refusal() is Some ==> wire.refusal() == Some(Error::InvalidEnvelope),
{
}

/// The fields of a request say what it is: its size as it stands, and its two byte strings in base64url.
pub proof fn fields_spell_the_request(wire: WireRequest, request: Request)
    requires
        wire.carries(request),
    ensures
        wire.version == 1,
        wire.n == request.n,
        wire.pk_c@ == base64url_text(request.recipient@),
        wire.request_id@ == base64url_text(request.id@),
{
}

/// The fields of an envelope say what it is, its ciphertext without the room behind the tag.
pub proof fn fields_spell_the_envelope(wire: WireEnvelope, envelope: Envelope)
    requires
        wire.carries(envelope),
    ensures
        wire.request.n == envelope.request.n,
        wire.request.request_id@ == base64url_text(envelope.request.id@),
        wire.device_pk_id@ == base64url_text(envelope.identity.key_id@),
        wire.fw_digest@ == base64url_text(envelope.identity.firmware@),
        wire.enc@ == base64url_text(envelope.enc@),
        wire.ct@ == base64url_text(envelope.ciphertext@.take(envelope.request.n + 16)),
{
}

} // verus!
