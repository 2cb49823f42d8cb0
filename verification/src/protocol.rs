//! Key derivation: OS randomness through HKDF, alone or mixed with a sealed remote contribution.
use crate::crypto::{
    hkdf_output, hkdf_sha256, hpke_public_key, hpke_secret_key, random, sha256, sha256_digest, wipe, Drawn, NoEntropy,
};
use crate::sealed::{self, is_admissible, keypair, opening, zeros, Envelope, Request, SecretBytes, SecretKey};
use crate::text::extend;
use crate::wire::envelope_survives_the_wire;
use vstd::prelude::*;
use vstd::utf8::encode_utf8;

pub use crate::wire::{decode, encode, WireEnvelope, WireRequest};

verus! {

/// Most bytes of one secret; the sealed protocol has the same limit.
pub const MAX_BYTES: usize = 64;

/// Why no secret was derived.
#[derive(Clone, Copy, Debug, PartialEq, Eq, Structural)]
pub enum Error {
    InvalidRequest,
    InvalidEnvelope,
    AuthenticationFailed,
    EntropyUnavailable,
    DerivationFailed,
}

impl From<sealed::Error> for Error {
    fn from(error: sealed::Error) -> (result: Self) {
        Error::InvalidEnvelope
    }
}

impl vstd::std_specs::convert::FromSpecImpl<sealed::Error> for Error {
    open spec fn obeys_from_spec() -> bool {
        true
    }

    open spec fn from_spec(error: sealed::Error) -> Self {
        Error::InvalidEnvelope
    }
}

/// A length in four bytes, most significant byte first.
pub open spec fn be32(len: int) -> Seq<u8> {
    seq![
        (len / 0x100_0000 % 0x100) as u8,
        (len / 0x1_0000 % 0x100) as u8,
        (len / 0x100 % 0x100) as u8,
        (len % 0x100) as u8,
    ]
}

/// What binds a derived secret to its size, its source and its context.
pub open spec fn key_info(context: Seq<u8>, n: int, mixed: bool) -> Seq<u8> {
    encode_utf8("mcpbytes-vault/key/v1\0"@) + seq![n as u8, if mixed { 1u8 } else { 0u8 }] + be32(context.len() as int) + context
}

/// The salt of every extraction.
pub open spec fn salt() -> Seq<u8> {
    sha256_digest(encode_utf8("mcpbytes-vault/extract/v1"@))
}

/// The secret of `n` bytes for a context, from local randomness and a remote contribution.
pub open spec fn derived(local: Seq<u8>, remote: Seq<u8>, context: Seq<u8>, n: int, mixed: bool) -> Seq<u8> {
    hkdf_output(salt(), local + remote, key_info(context, n, mixed), n as nat)
}

/// Whether `n` bytes can be derived: a mixed secret needs a contribution of its own size, a local
/// one none at all.
pub open spec fn derivable(remote: Seq<u8>, n: int, mixed: bool) -> bool {
    1 <= n <= MAX_BYTES && remote.len() == if mixed { n } else { 0 }
}

/// The secret for a context, from the given local randomness and remote contribution.
pub fn mix_with_local(local: &[u8; 32], remote: &[u8], context: &[u8], n: usize, mixed: bool) -> (result: Result<Vec<u8>, Error>)
    ensures
        match result {
            Ok(bytes) => {
                &&& derivable(remote@, n as int, mixed)
                &&& bytes@.len() == n
                &&& bytes@ == derived(local@, remote@, context@, n as int, mixed)
            },
            Err(error) => !derivable(remote@, n as int, mixed) && error == Error::InvalidRequest,
        },
{
    if n < 1 || n > MAX_BYTES || (mixed && remote.len() != n) || (!mixed && remote.len() != 0) {
        return Err(Error::InvalidRequest);
    }
    let mut ikm: Vec<u8> = Vec::with_capacity(32 + remote.len());
    extend(&mut ikm, local);
    extend(&mut ikm, remote);
    let salt = sha256("mcpbytes-vault/extract/v1".as_bytes());
    let mut info: Vec<u8> = Vec::new();
    extend(&mut info, "mcpbytes-vault/key/v1\0".as_bytes());
    info.push(n as u8);
    info.push(if mixed { 1 } else { 0 });
    let length: u64 = context.len() as u64;
    info.push((length / 0x100_0000 % 0x100) as u8);
    info.push((length / 0x1_0000 % 0x100) as u8);
    info.push((length / 0x100 % 0x100) as u8);
    info.push((length % 0x100) as u8);
    extend(&mut info, context);
    proof {
        assert(ikm@ =~= local@ + remote@);
        assert(info@ =~= key_info(context@, n as int, mixed));
    }
    let mut output: Vec<u8> = vec![0; n];
    let derivation = hkdf_sha256(&salt, &ikm, &info, output.as_mut_slice());
    wipe(ikm.as_mut_slice());
    match derivation {
        Ok(()) => Ok(output),
        Err(_) => Err(Error::DerivationFailed),
    }
}

/// The secret for a context, from local randomness that was drawn or could not be, and a remote
/// contribution. The randomness is wiped.
pub fn derive_with(drawn: Option<[u8; 32]>, remote: &[u8], context: &[u8], n: usize, mixed: bool) -> (result: Result<Vec<u8>, Error>)
    ensures
        match (drawn, result) {
            (_, Err(Error::InvalidRequest)) => !derivable(remote@, n as int, mixed) && (drawn is Some || !(1 <= n <= MAX_BYTES)),
            (Some(local), Ok(bytes)) => {
                &&& derivable(remote@, n as int, mixed)
                &&& is_derived(bytes@, local@, remote@, context@, n as int, mixed)
            },
            (None, Err(Error::EntropyUnavailable)) => 1 <= n <= MAX_BYTES,
            _ => false,
        },
{
    if n < 1 || n > MAX_BYTES {
        return Err(Error::InvalidRequest);
    }
    match drawn {
        Some(mut local) => {
            let result = mix_with_local(&local, remote, context, n, mixed);
            wipe(&mut local);
            result
        },
        None => Err(Error::EntropyUnavailable),
    }
}

/// The secret for a context, from fresh local randomness and a remote contribution.
fn derive(remote: &[u8], context: &[u8], n: usize, mixed: bool) -> (result: Result<Vec<u8>, Error>)
    ensures
        derivation_result(remote@, context@, n as int, mixed, result),
{
    match random::<32>() {
        Ok(drawn) => {
            let mut local: [u8; 32] = drawn.bytes();
            let result = derive_with(Some(local), remote, context, n, mixed);
            wipe(&mut local);
            proof {
                if result is Ok {
                    assert(is_derived(result->Ok_0@, drawn@, remote@, context@, n as int, mixed));
                }
            }
            result
        },
        Err(failure) => {
            assert(failure.happened());
            derive_with(None, remote, context, n, mixed)
        },
    }
}

/// Whether the operating system's generator failed.
pub open spec fn generator_failed() -> bool {
    exists|failure: NoEntropy| #[trigger] failure.happened()
}

/// Whether these bytes are the secret that the given local randomness leads to.
pub open spec fn is_derived(bytes: Seq<u8>, local: Seq<u8>, remote: Seq<u8>, context: Seq<u8>, n: int, mixed: bool) -> bool {
    local.len() == 32 && bytes.len() == n && bytes == derived(local, remote, context, n, mixed)
}

/// What a derivation gives, whatever the operating system's generator does: a secret of bytes that the
/// generator gave, or, where it failed, none.
pub open spec fn derivation_result(remote: Seq<u8>, context: Seq<u8>, n: int, mixed: bool, result: Result<Vec<u8>, Error>) -> bool {
    match result {
        Ok(bytes) => {
            &&& derivable(remote, n, mixed)
            &&& exists|local: Drawn<32>| is_derived(bytes@, #[trigger] local@, remote, context, n, mixed)
        },
        Err(Error::InvalidRequest) => !derivable(remote, n, mixed),
        Err(Error::EntropyUnavailable) => 1 <= n <= MAX_BYTES && generator_failed(),
        Err(_) => false,
    }
}

/// A secret of local randomness alone.
pub fn local_only(n: usize, key_context: &[u8]) -> (result: Result<Vec<u8>, Error>)
    ensures
        derivation_result(seq![], key_context@, n as int, false, result),
{
    let none: [u8; 0] = [];
    assert(none@ =~= seq![]);
    derive(&none, key_context, n, false)
}

/// Whether the generator gave a seed whose public key is of low order, so that nothing can be requested to it.
pub open spec fn low_order_drawn(n: int) -> bool {
    exists|seed: Drawn<32>| !is_admissible(n, hpke_public_key(hpke_secret_key(#[trigger] seed@)))
}

/// A sealed request that waits for its reply. It is consumed by the first reply, also by one that
/// does not authenticate.
pub struct Pending {
    request: Request,
    secret: SecretKey,
}

/// The envelope in JSON fields.
pub open spec fn read_envelope(wire: WireEnvelope) -> Envelope {
    choose|envelope: Envelope|
        #[trigger] wire.carries(envelope) && envelope.ciphertext@.skip(envelope.request.n + 16) == zeros(
            (64 - envelope.request.n) as nat,
        )
}

/// What a reply contributes to the holder of a request's secret key.
pub open spec fn contribution(expected: Request, secret: Seq<u8>, pinned: Seq<u8>, wire: WireEnvelope) -> Result<Seq<u8>, Error> {
    if wire.refusal() is Some {
        Err(Error::InvalidEnvelope)
    } else {
        match opening(expected, secret, pinned, read_envelope(wire)) {
            Ok(plaintext) => Ok(plaintext),
            Err(_) => Err(Error::AuthenticationFailed),
        }
    }
}

/// The context of a mixed secret: that of the key, and the request that the contribution answers.
pub open spec fn mixed_context(key_context: Seq<u8>, request: Request) -> Seq<u8> {
    key_context + request.id@
}

impl Pending {
    /// The request.
    pub closed spec fn expected(self) -> Request {
        self.request
    }

    /// The secret key that opens the reply.
    pub closed spec fn secret(self) -> Seq<u8> {
        self.secret.bytes@
    }

    /// Whether this waits for `n` bytes, sealed to the key pair of a seed.
    pub open spec fn stems_from(self, n: int, seed: Seq<u8>) -> bool {
        &&& self.secret() == hpke_secret_key(seed)
        &&& self.expected().recipient@ == hpke_public_key(self.secret())
        &&& self.expected().n == n
        &&& self.expected().valid()
    }

    /// A request for `n` bytes, under a fresh key pair.
    pub fn new(n: usize) -> (result: Result<Self, Error>)
        ensures
            match result {
                Ok(pending) => exists|seed: Drawn<32>| pending.stems_from(n as int, #[trigger] seed@),
                Err(Error::InvalidRequest) => !(1 <= n <= MAX_BYTES) || low_order_drawn(n as int),
                Err(Error::EntropyUnavailable) => 1 <= n <= MAX_BYTES && generator_failed(),
                Err(_) => false,
            },
    {
        if n < 1 || n > MAX_BYTES {
            return Err(Error::InvalidRequest);
        }
        match random::<32>() {
            Ok(drawn) => {
                let mut seed: [u8; 32] = drawn.bytes();
                let result = Pending::from_seed(n, &seed);
                wipe(&mut seed);
                proof {
                    if result is Ok {
                        assert(result->Ok_0.stems_from(n as int, drawn@));
                    } else {
                        assert(!is_admissible(n as int, hpke_public_key(hpke_secret_key(drawn@))));
                    }
                }
                result
            },
            Err(failure) => {
                assert(failure.happened());
                Err(Error::EntropyUnavailable)
            },
        }
    }

    /// A request for `n` bytes, under the key pair of a seed.
    pub fn from_seed(n: usize, seed: &[u8; 32]) -> (result: Result<Self, Error>)
        ensures
            match result {
                Ok(pending) => pending.stems_from(n as int, seed@),
                Err(error) => {
                    &&& error == Error::InvalidRequest
                    &&& !is_admissible(n as int, hpke_public_key(hpke_secret_key(seed@)))
                },
            },
    {
        let (secret, public) = keypair(seed);
        match Request::new(n, public) {
            Ok(request) => Ok(Pending { request, secret }),
            Err(_) => Err(Error::InvalidRequest),
        }
    }

    /// The request in JSON fields.
    pub fn request(&self) -> (wire: WireRequest)
        ensures
            wire.carries(self.expected()),
    {
        WireRequest::from(&self.request)
    }

    /// Opens a reply that must come from the pinned sender.
    pub fn open_reply(&self, envelope: &WireEnvelope, pinned_sender: &[u8; 32]) -> (result: Result<SecretBytes, Error>)
        ensures
            match (result, contribution(self.expected(), self.secret(), pinned_sender@, *envelope)) {
                (Ok(bytes), Ok(plaintext)) => bytes@ == plaintext && plaintext.len() == self.expected().n,
                (Err(error), Err(expected)) => error == expected,
                _ => false,
            },
            result is Ok ==> self.expected().valid(),
    {
        match envelope.to_core() {
            Ok(core) => {
                proof {
                    envelope_survives_the_wire(core, *envelope, read_envelope(*envelope));
                }
                match sealed::open(&self.request, &self.secret, pinned_sender, &core) {
                    Ok(bytes) => Ok(bytes),
                    Err(_) => Err(Error::AuthenticationFailed),
                }
            },
            Err(error) => Err(Error::from(error)),
        }
    }

    /// Opens a reply and mixes what it contributes with fresh local randomness. The request is
    /// consumed, whatever the reply.
    pub fn open_and_mix(self, envelope: &WireEnvelope, pinned_sender: &[u8; 32], key_context: &[u8]) -> (result: Result<Vec<u8>, Error>)
        ensures
            match contribution(self.expected(), self.secret(), pinned_sender@, *envelope) {
                Ok(plaintext) => {
                    &&& derivable(plaintext, self.expected().n as int, true)
                    &&& derivation_result(plaintext, mixed_context(key_context@, self.expected()), self.expected().n as int, true, result)
                },
                Err(error) => result == Err::<Vec<u8>, Error>(error),
            },
    {
        let remote = match self.open_reply(envelope, pinned_sender) {
            Ok(remote) => remote,
            Err(error) => return Err(error),
        };
        let mut context: Vec<u8> = Vec::new();
        extend(&mut context, key_context);
        extend(&mut context, &self.request.id);
        assert(context@ =~= mixed_context(key_context@, self.expected()));
        derive(remote.as_slice(), &context, self.request.n as usize, true)
    }
}

/// What a derivation is bound to fixes its context, its size and its kind of source.
pub proof fn key_info_is_injective(a: Seq<u8>, b: Seq<u8>, n: int, m: int, mixed: bool, other: bool)
    requires
        1 <= n <= MAX_BYTES,
        1 <= m <= MAX_BYTES,
        key_info(a, n, mixed) == key_info(b, m, other),
    ensures
        a == b,
        n == m,
        mixed == other,
{
    let tag = encode_utf8("mcpbytes-vault/key/v1\0"@);
    let x = key_info(a, n, mixed);
    let y = key_info(b, m, other);
    let k = tag.len() as int;
    assert(x[k] == n as u8 && y[k] == m as u8);
    assert(x[k + 1] == if mixed { 1u8 } else { 0u8 });
    assert(y[k + 1] == if other { 1u8 } else { 0u8 });
    assert(x.skip(k + 6) =~= a && y.skip(k + 6) =~= b);
}

/// A derived secret is the output of HKDF-SHA256 over bytes that the operating system's generator gave in
/// front of the remote contribution, under the vault's salt, for its size, its kind of source and its context.
pub proof fn secrets_come_from_the_generator(remote: Seq<u8>, context: Seq<u8>, n: int, mixed: bool, result: Result<Vec<u8>, Error>) -> (local: Drawn<32>)
    requires
        derivation_result(remote, context, n, mixed, result),
        result is Ok,
    ensures
        1 <= n <= 64,
        remote.len() == if mixed { n } else { 0 },
        local@.len() == 32,
        result->Ok_0@.len() == n,
        result->Ok_0@ == hkdf_output(
            sha256_digest(encode_utf8("mcpbytes-vault/extract/v1"@)),
            local@ + remote,
            encode_utf8("mcpbytes-vault/key/v1\0"@) + seq![
                n as u8,
                if mixed { 1u8 } else { 0u8 },
                (context.len() / 0x100_0000 % 0x100) as u8,
                (context.len() / 0x1_0000 % 0x100) as u8,
                (context.len() / 0x100 % 0x100) as u8,
                (context.len() % 0x100) as u8,
            ] + context,
            n as nat,
        ),
{
    let bytes = result->Ok_0@;
    let local = choose|local: Drawn<32>| is_derived(bytes, #[trigger] local@, remote, context, n, mixed);
    assert(key_info(context, n, mixed) =~= encode_utf8("mcpbytes-vault/key/v1\0"@) + seq![
        n as u8,
        if mixed { 1u8 } else { 0u8 },
        (context.len() / 0x100_0000 % 0x100) as u8,
        (context.len() / 0x1_0000 % 0x100) as u8,
        (context.len() / 0x100 % 0x100) as u8,
        (context.len() % 0x100) as u8,
    ] + context);
    local
}

/// A secret of every size and contribution that is accepted is owed, unless the generator failed.
pub proof fn secrets_are_owed(remote: Seq<u8>, context: Seq<u8>, n: int, mixed: bool, result: Result<Vec<u8>, Error>)
    requires
        derivation_result(remote, context, n, mixed, result),
        1 <= n <= 64,
        remote.len() == if mixed { n } else { 0 },
    ensures
        result is Ok || exists|failure: NoEntropy| #[trigger] failure.happened(),
{
}

/// What a secret is derived from tells the randomness and the contribution apart: two pairs of them are
/// never the same key material.
pub proof fn randomness_and_contribution_stay_apart(local: Seq<u8>, remote: Seq<u8>, other: Seq<u8>, contribution: Seq<u8>)
    requires
        local.len() == 32,
        other.len() == 32,
        local + remote == other + contribution,
    ensures
        local == other,
        remote == contribution,
{
    assert((local + remote).take(32) =~= local && (other + contribution).take(32) =~= other);
    assert((local + remote).skip(32) =~= remote && (other + contribution).skip(32) =~= contribution);
}

/// A reply contributes exactly what the envelope in its fields opens to; fields that hold no envelope, and
/// envelopes that do not open, contribute nothing.
pub proof fn contributions_are_opened_envelopes(expected: Request, secret: Seq<u8>, pinned: Seq<u8>, wire: WireEnvelope, envelope: Envelope)
    requires
        envelope.request.valid(),
        envelope.ciphertext@.skip(envelope.request.n + 16) == Seq::new((64 - envelope.request.n) as nat, |i: int| 0u8),
        wire.carries(envelope),
    ensures
        contribution(expected, secret, pinned, wire) == match opening(expected, secret, pinned, envelope) {
            Ok(plaintext) => Ok::<Seq<u8>, Error>(plaintext),
            Err(_) => Err(Error::AuthenticationFailed),
        },
{
    assert(envelope.ciphertext@.skip(envelope.request.n + 16) =~= zeros((64 - envelope.request.n) as nat));
    envelope_survives_the_wire(envelope, wire, read_envelope(wire));
}

/// Fields that hold no envelope contribute nothing, whoever sent them.
pub proof fn other_replies_contribute_nothing(expected: Request, secret: Seq<u8>, pinned: Seq<u8>, wire: WireEnvelope)
    requires
        wire.refusal() is Some,
    ensures
        contribution(expected, secret, pinned, wire) == Err::<Seq<u8>, Error>(Error::InvalidEnvelope),
{
}

/// A request waits for its own size, sealed to the key pair of its seed, and is named by its digest.
pub proof fn requests_belong_to_their_seed(pending: Pending, n: int, seed: Seq<u8>)
    requires
        pending.stems_from(n, seed),
    ensures
        pending.expected().n == n,
        1 <= n <= 64,
        pending.secret() == hpke_secret_key(seed),
        pending.expected().recipient@ == hpke_public_key(hpke_secret_key(seed)),
        pending.expected().id@ == sha256_digest(
            encode_utf8("mcpbytes-sealed-request-v1\0"@) + seq![n as u8] + hpke_public_key(hpke_secret_key(seed)),
        ),
{
}

} // verus!
