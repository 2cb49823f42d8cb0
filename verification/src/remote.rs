//! The remote service: what is sent, which replies count, and when an attempt is repeated.
use crate::text::{chars, is_name_char, is_word_point, name_char, name_characters_are_word_points, same, starts_with};
use crate::wire::WireEnvelope;
use vstd::prelude::*;

verus! {

/// Seconds for all attempts of one request together, with their bodies.
pub const DEADLINE: u64 = 90;

/// The largest reply.
pub const MAX_REPLY: usize = 4096;

/// Milliseconds between two attempts.
pub const PAUSE: u64 = 200;

/// Why the service contributed nothing.
#[derive(Clone, Copy, Debug, PartialEq, Eq, Structural)]
pub enum Error {
    Timeout,
    Unavailable,
    Authentication,
    InvalidResponse,
    Transport,
    Configuration,
}

/// The failures after which a secret of local randomness alone may be saved instead: the service did
/// not answer.
pub open spec fn is_absence(error: Error) -> bool {
    error == Error::Timeout || error == Error::Unavailable
}

/// The code of a failure.
pub open spec fn error_code(error: Error) -> Seq<char> {
    match error {
        Error::Timeout => "remote_timeout"@,
        Error::Unavailable => "remote_unavailable"@,
        Error::Authentication => "remote_authentication_failed"@,
        Error::InvalidResponse => "invalid_remote_response"@,
        Error::Transport => "remote_transport_failed"@,
        Error::Configuration => "remote_configuration_error"@,
    }
}

impl Error {
    /// Whether a secret of local randomness alone may be saved instead.
    pub fn allows_fallback(self) -> (result: bool)
        ensures
            result == is_absence(self),
    {
        match self {
            Error::Timeout | Error::Unavailable => true,
            _ => false,
        }
    }

    /// The code of the failure.
    pub fn code(self) -> (code: &'static str)
        ensures
            code@ == error_code(self),
    {
        match self {
            Error::Timeout => "remote_timeout",
            Error::Unavailable => "remote_unavailable",
            Error::Authentication => "remote_authentication_failed",
            Error::InvalidResponse => "invalid_remote_response",
            Error::Transport => "remote_transport_failed",
            Error::Configuration => "remote_configuration_error",
        }
    }
}

/// An API key: `mcpb_` and 43 letters, digits, `_` or `-`.
pub open spec fn is_api_key(key: Seq<char>) -> bool {
    &&& key.len() == 48
    &&& "mcpb_"@.is_prefix_of(key)
    &&& forall|i: int| 5 <= i < key.len() ==> is_name_char(#[trigger] key[i])
}

/// The authorization header of a request; `key` is missing where the environment has none.
#[verifier::loop_isolation(false)]
pub fn authorization(key: Option<&str>) -> (result: Result<String, Error>)
    ensures
        match result {
            Ok(header) => key matches Some(key) && is_api_key(key@) && header@ == "Bearer "@ + key@,
            Err(error) => {
                &&& error == Error::Configuration
                &&& key matches Some(key) ==> !is_api_key(key@)
            },
        },
{
    let key = match key {
        Some(key) => key,
        None => return Err(Error::Configuration),
    };
    let all = chars(key);
    if all.len() != 48 || !starts_with(key, "mcpb_") {
        return Err(Error::Configuration);
    }
    let mut i: usize = 5;
    while i < all.len()
        invariant
            5 <= i <= all@.len(),
            forall|j: int| 5 <= j < i ==> is_name_char(#[trigger] all@[j]),
        decreases all@.len() - i,
    {
        if !name_char(all[i]) {
            return Err(Error::Configuration);
        }
        i += 1;
    }
    let mut header = "Bearer ".to_owned();
    header.append(key);
    Ok(header)
}

/// What a failed transfer means.
pub fn transfer_failure(timed_out: bool) -> (error: Error)
    ensures
        error == if timed_out {
            Error::Timeout
        } else {
            Error::Transport
        },
{
    if timed_out {
        Error::Timeout
    } else {
        Error::Transport
    }
}

/// What a status says against a reply; `None` for a success.
pub open spec fn status_refusal(status: u16) -> Option<Error> {
    if status == 200 {
        None
    } else if status == 408 || status == 429 || status == 502 || status == 503 || status == 504 {
        Some(Error::Unavailable)
    } else if status == 401 || status == 403 {
        Some(Error::Authentication)
    } else {
        Some(Error::InvalidResponse)
    }
}

/// Whether a content type is JSON, with or without parameters.
pub open spec fn is_json(content_type: Seq<char>) -> bool {
    content_type == "application/json"@ || "application/json;"@.is_prefix_of(content_type)
}

/// What the head of a reply says against it; `None` where its body is read.
pub open spec fn head_refusal(status: u16, content_length: Option<u64>, content_type: Option<Seq<char>>) -> Option<Error> {
    if status_refusal(status) is Some {
        status_refusal(status)
    } else if content_length matches Some(length) && length > MAX_REPLY {
        Some(Error::InvalidResponse)
    } else if content_type matches Some(content_type) && is_json(content_type) {
        None
    } else {
        Some(Error::InvalidResponse)
    }
}

/// Checks the head of a reply before its body is read.
pub fn check_head(status: u16, content_length: Option<u64>, content_type: Option<&str>) -> (result: Result<(), Error>)
    ensures
        match (result, head_refusal(status, content_length, match content_type {
            Some(content_type) => Some(content_type@),
            None => None,
        })) {
            (Ok(()), None) => true,
            (Err(error), Some(expected)) => error == expected,
            _ => false,
        },
{
    match status {
        200 => {},
        408 | 429 | 502 | 503 | 504 => return Err(Error::Unavailable),
        401 | 403 => return Err(Error::Authentication),
        _ => return Err(Error::InvalidResponse),
    }
    if let Some(length) = content_length {
        if length > MAX_REPLY as u64 {
            return Err(Error::InvalidResponse);
        }
    }
    match content_type {
        Some(content_type) => if same(content_type, "application/json") || starts_with(content_type, "application/json;") {
            Ok(())
        } else {
            Err(Error::InvalidResponse)
        },
        None => Err(Error::InvalidResponse),
    }
}

/// The body of a reply, as far as it has arrived.
pub struct Body {
    bytes: Vec<u8>,
}

impl View for Body {
    type V = Seq<u8>;

    closed spec fn view(&self) -> Seq<u8> {
        self.bytes@
    }
}

impl Body {
    /// An empty body.
    pub fn new() -> (body: Self)
        ensures
            body@ == Seq::<u8>::empty(),
    {
        Body { bytes: Vec::new() }
    }

    /// Adds what arrived; a body longer than a reply may be is refused and does not grow.
    pub fn add(&mut self, chunk: &[u8]) -> (result: Result<(), Error>)
        ensures
            match result {
                Ok(()) => final(self)@ == old(self)@ + chunk@ && final(self)@.len() <= MAX_REPLY,
                Err(error) => {
                    &&& error == Error::InvalidResponse
                    &&& old(self)@.len() + chunk@.len() > MAX_REPLY
                    &&& final(self)@ == old(self)@
                },
            },
            result is Ok <==> old(self)@.len() + chunk@.len() <= 4096,
    {
        if chunk.len() > MAX_REPLY || self.bytes.len() > MAX_REPLY - chunk.len() {
            return Err(Error::InvalidResponse);
        }
        crate::text::extend(&mut self.bytes, chunk);
        Ok(())
    }

    /// The bytes.
    pub fn as_slice(&self) -> (bytes: &[u8])
        ensures
            bytes@ == self@,
    {
        self.bytes.as_slice()
    }
}

/// The envelope that a body parsed to, if it did.
pub fn reply(parsed: Option<WireEnvelope>) -> (result: Result<WireEnvelope, Error>)
    ensures
        match (parsed, result) {
            (Some(envelope), Ok(reply)) => reply == envelope,
            (None, Err(error)) => error == Error::InvalidResponse,
            _ => false,
        },
{
    match parsed {
        Some(envelope) => Ok(envelope),
        None => Err(Error::InvalidResponse),
    }
}

/// What follows an attempt.
pub enum Next {
    /// Wait this long, then make attempt number `attempt`, with the same request.
    Retry { milliseconds: u64, attempt: u8 },
    Return(Result<WireEnvelope, Error>),
}

/// Whether an attempt, the first being number 0, is followed by another: there are at most three, and
/// only a service that does not answer is asked again.
pub open spec fn is_repeated(attempt: u8, result: Result<WireEnvelope, Error>) -> bool {
    attempt < 2 && (result matches Err(error) && is_absence(error))
}

/// What follows attempt number `attempt`.
pub fn after_attempt(attempt: u8, result: Result<WireEnvelope, Error>) -> (next: Next)
    ensures
        next == if is_repeated(attempt, result) {
            Next::Retry { milliseconds: PAUSE, attempt: (attempt + 1) as u8 }
        } else {
            Next::Return(result)
        },
        next matches Next::Retry { milliseconds, attempt: again } ==> milliseconds == 200 && again == attempt + 1 && again <= 2,
{
    if let Err(error) = &result {
        if error.allows_fallback() && attempt < 2 {
            return Next::Retry { milliseconds: PAUSE, attempt: attempt + 1 };
        }
    }
    Next::Return(result)
}

/// What a request led to; `result` is missing where the deadline passed first.
pub fn within_deadline(result: Option<Result<WireEnvelope, Error>>) -> (outcome: Result<WireEnvelope, Error>)
    ensures
        outcome == match result {
            Some(result) => result,
            None => Err(Error::Timeout),
        },
{
    match result {
        Some(result) => result,
        None => Err(Error::Timeout),
    }
}

/// How many attempts a request takes, given what each of them would give.
pub open spec fn attempts(outcomes: spec_fn(u8) -> Result<WireEnvelope, Error>, attempt: u8) -> nat
    decreases 2 - attempt,
{
    if is_repeated(attempt, outcomes(attempt)) {
        1 + attempts(outcomes, (attempt + 1) as u8)
    } else {
        1
    }
}

/// A request takes at most three attempts, whatever the service does.
pub proof fn attempts_are_bounded(outcomes: spec_fn(u8) -> Result<WireEnvelope, Error>)
    ensures
        1 <= attempts(outcomes, 0) <= 3,
{
    reveal_with_fuel(attempts, 4);
}

/// An API key is `mcpb_` and 43 letters, digits, `_` or `-`, and nothing else.
pub proof fn api_keys_are_spelled_out(key: Seq<char>)
    ensures
        is_api_key(key) <==> {
            &&& key.len() == 48
            &&& key[0] == 'm' && key[1] == 'c' && key[2] == 'p' && key[3] == 'b' && key[4] == '_'
            &&& forall|i: int| 5 <= i < 48 ==> is_word_point(#[trigger] key[i] as int)
        },
{
    reveal_strlit("mcpb_");
    let head = "mcpb_"@;
    assert(head.len() == 5 && head[0] == 'm' && head[1] == 'c' && head[2] == 'p' && head[3] == 'b' && head[4] == '_');
    if key.len() == 48 {
        if head.is_prefix_of(key) {
            assert forall|i: int| 0 <= i < 5 implies #[trigger] key[i] == head[i] by {
                assert(key.subrange(0, 5)[i] == head[i]);
            }
        }
        if key[0] == 'm' && key[1] == 'c' && key[2] == 'p' && key[3] == 'b' && key[4] == '_' {
            assert(key.subrange(0, 5) =~= head);
        }
        if is_api_key(key) {
            assert forall|i: int| 5 <= i < 48 implies is_word_point(#[trigger] key[i] as int) by {
                name_characters_are_word_points(key[i]);
            }
        }
        if forall|i: int| 5 <= i < 48 ==> is_word_point(#[trigger] key[i] as int) {
            assert forall|i: int| 5 <= i < key.len() implies is_name_char(#[trigger] key[i]) by {
                name_characters_are_word_points(key[i]);
            }
        }
    }
}

/// What every status means: 200 alone is a success; the statuses of a busy or absent service may be tried
/// again, those of a refused key may not, and any other is no reply of the service.
pub proof fn statuses_are_classified(status: u16)
    ensures
        status_refusal(status) is None <==> status == 200,
        status_refusal(status) == Some(Error::Unavailable) <==> status == 408 || status == 429 || 502 <= status <= 504,
        status_refusal(status) == Some(Error::Authentication) <==> status == 401 || status == 403,
        status_refusal(status) matches Some(error) ==> error == Error::Unavailable || error == Error::Authentication || error
            == Error::InvalidResponse,
{
}

/// The body of a reply is read exactly where its status is a success, its announced length, if any, is at
/// most 4096 bytes, and its type is JSON, alone or with parameters behind a semicolon.
pub proof fn replies_are_short_json(status: u16, content_length: Option<u64>, content_type: Option<Seq<char>>)
    ensures
        head_refusal(status, content_length, content_type) is None <==> {
            &&& status == 200
            &&& content_length is Some ==> content_length->0 <= 4096
            &&& content_type is Some
            &&& content_type->0.len() >= 16
            &&& content_type->0.take(16) == "application/json"@
            &&& content_type->0.len() > 16 ==> content_type->0[16] == ';'
        },
        status != 200 ==> head_refusal(status, content_length, content_type) == status_refusal(status),
        status == 200 && head_refusal(status, content_length, content_type) is Some ==> head_refusal(status, content_length, content_type)
            == Some(Error::InvalidResponse),
{
    reveal_strlit("application/json");
    reveal_strlit("application/json;");
    let (whole, head) = ("application/json"@, "application/json;"@);
    assert(whole.len() == 16 && head.len() == 17);
    assert(head =~= whole.push(';'));
    if content_type is Some {
        let text = content_type->0;
        if text.len() == 16 {
            assert(text.take(16) =~= text);
        }
        if head.is_prefix_of(text) {
            assert(text.subrange(0, 17) == head);
            assert(text.take(16) =~= text.subrange(0, 17).take(16));
            assert(head.take(16) =~= whole);
            assert(text.subrange(0, 17)[16] == ';');
        }
        if text.len() > 16 && text.take(16) == whole && text[16] == ';' {
            assert(text.subrange(0, 17) =~= head) by {
                assert forall|i: int| 0 <= i < 16 implies text.subrange(0, 17)[i] == head[i] by {
                    assert(text.take(16)[i] == whole[i]);
                }
            }
        }
    }
}

/// Only the first two attempts can be repeated, and only where the service did not answer in time or was
/// not there; every reply, and every other failure, is final.
pub proof fn only_absence_is_repeated(attempt: u8, result: Result<WireEnvelope, Error>)
    ensures
        is_repeated(attempt, result) <==> attempt <= 1 && result is Err && (result->Err_0 == Error::Timeout || result->Err_0 == Error::Unavailable),
{
}

/// Different failures have different codes.
pub proof fn failures_have_their_own_codes(a: Error, b: Error)
    requires
        error_code(a) == error_code(b),
    ensures
        a == b,
{
    reveal_strlit("remote_timeout");
    reveal_strlit("remote_unavailable");
    reveal_strlit("remote_authentication_failed");
    reveal_strlit("invalid_remote_response");
    reveal_strlit("remote_transport_failed");
    reveal_strlit("remote_configuration_error");
    assert("remote_timeout"@.len() == 14 && "remote_unavailable"@.len() == 18 && "remote_authentication_failed"@.len() == 28);
    assert("invalid_remote_response"@.len() == 23 && "remote_transport_failed"@.len() == 23 && "remote_configuration_error"@.len() == 26);
    assert("invalid_remote_response"@[0] == 'i' && "remote_transport_failed"@[0] == 'r');
}

} // verus!
