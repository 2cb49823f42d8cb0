//! The vault: generating secrets once per operation, listing, revealing and deleting them.
use crate::config::{valid_label, Config, Mode, Pin, Store};
use crate::context::{key_context, key_context_bytes};
use crate::crypto::{hkdf_output, sha256_digest, Drawn, Secret};
use crate::encoding::base64url_text;
use crate::journal::{self, is_newest, is_started, record_file, record_file_name, replay_refusal, Journal, Record, MAX_RECORDS};
use crate::platform::Build;
use crate::protocol::{
    self, contribution, decode, encode, generator_failed, is_derived, local_only, low_order_drawn, mixed_context, Pending, WireEnvelope, WireRequest,
    MAX_BYTES,
};
use crate::remote;
use crate::sealed::{key_id, Request};
use crate::storage::{self, entry, entry_name, Destination, Receipt};
use crate::text::{code, contents, copy_option, is_name, is_word_point, mentions, mentions_between, name, names_are_words, same, starts_with};
use crate::wire::{decoded, decoded_is, decodes};
use vstd::prelude::*;
use vstd::utf8::encode_utf8;

verus! {

/// The arguments of one operation.
#[derive(Debug, PartialEq, Eq)]
pub struct Input {
    /// Secret label within the configured allowed prefix. Use a new operation ID to rotate it.
    pub label: String,
    /// Bytes to save, from 1 to 64. Bytes are never returned to the agent.
    pub n: u8,
    /// Stable caller-chosen ID. Reuse for retries of this operation; change only for a new secret.
    pub operation_id: String,
}

/// What the agent learns of a saved secret.
#[derive(Debug, PartialEq, Eq)]
pub struct Saved {
    pub reference: String,
    pub label: String,
    pub version: u64,
    pub bytes: usize,
    pub backend: String,
    pub entropy_mode: String,
    pub fallback_reason: Option<String>,
    /// The native store's lookup name where it differs from the reference.
    pub store_name: Option<String>,
    /// How the bytes are stored: `raw` (unencoded). Absent in receipts written before 0.2.
    pub format: Option<String>,
}

impl Clone for Input {
    fn clone(&self) -> (copy: Self)
        ensures
            copy == *self,
    {
        Input { label: self.label.clone(), n: self.n, operation_id: self.operation_id.clone() }
    }
}

impl Clone for Saved {
    fn clone(&self) -> (copy: Self)
        ensures
            copy == *self,
    {
        Saved {
            reference: self.reference.clone(),
            label: self.label.clone(),
            version: self.version,
            bytes: self.bytes,
            backend: self.backend.clone(),
            entropy_mode: self.entropy_mode.clone(),
            fallback_reason: copy_option(&self.fallback_reason),
            store_name: copy_option(&self.store_name),
            format: copy_option(&self.format),
        }
    }
}

impl Input {
    /// Whether two operations have the same arguments.
    pub open spec fn agrees(self, other: Input) -> bool {
        self.label@ == other.label@ && self.n == other.n && self.operation_id@ == other.operation_id@
    }

    /// Whether two operations have the same arguments.
    pub fn same(&self, other: &Input) -> (result: bool)
        ensures
            result == self.agrees(*other),
            result <==> self.label@ == other.label@ && self.n == other.n && self.operation_id@ == other.operation_id@,
    {
        self.label == other.label && self.n == other.n && self.operation_id == other.operation_id
    }
}

/// One journal entry as `list` shows it: metadata only, never the secret.
#[derive(Debug)]
pub struct Listed {
    pub label: String,
    pub version: u64,
    pub bytes: u8,
    /// `saved`, `deleted` or `incomplete` (interrupted or failed; the owner should inspect it).
    pub status: &'static str,
    pub entropy_mode: Option<String>,
    /// Unix seconds; absent for secrets created before 0.2.
    pub created_at: Option<u64>,
    pub reference: Option<String>,
}

/// Every secret that the journal knows.
#[derive(Debug)]
pub struct Listing {
    pub label_prefix: String,
    pub secrets: Vec<Listed>,
}

/// Errors caused by the tool arguments; every other code is an internal error.
pub const ARGUMENT_ERRORS: [&'static str; 4] = ["invalid_label", "label_prefix_mismatch", "invalid_size", "invalid_operation_id"];

/// Whether a code blames the tool arguments; every other code is an internal error.
pub open spec fn blames_arguments(code: Seq<char>) -> bool {
    ||| code == "invalid_label"@
    ||| code == "label_prefix_mismatch"@
    ||| code == "invalid_size"@
    ||| code == "invalid_operation_id"@
}

/// The vault of one configuration.
pub struct Vault {
    config: Config,
    build: Build,
}

/// The store, in words.
pub open spec fn backend_words(store: Store) -> Seq<char> {
    match store {
        Store::PrivateFile { .. } => "a private file"@,
        Store::WindowsCredentialManager => "Windows Credential Manager"@,
        Store::MacosKeychain => "the macOS Keychain"@,
        Store::LinuxSecretService => "the Linux Secret Service"@,
    }
}

/// The environment variable of the API key.
pub open spec fn key_variable(config: Config) -> Seq<char> {
    match config.remote {
        Some(remote) => remote.api_key_env@,
        None => "MCPBYTES_API_KEY"@,
    }
}

/// What the mode means for the agent.
pub open spec fn mode_words(config: Config) -> Seq<char> {
    match config.mode {
        Mode::LocalOnly => "local_only: OS randomness only; no network call and no cost."@,
        Mode::RemoteRequired => {
            "remote_required: each new secret runs one paid MCPBytes job (price in the MCPBytes catalog) and needs the "@
                + key_variable(config) + " environment variable; the call fails when the service is unavailable."@
        },
        Mode::RemotePreferred => {
            "remote_preferred: each new secret runs one paid MCPBytes job (price in the MCPBytes catalog) and needs the "@
                + key_variable(config)
                + " environment variable; on timeout or unavailability it saves OS-only randomness and reports fallback_reason."@
        },
    }
}

/// The description of the tool that generates a secret.
pub open spec fn description_words(config: Config) -> Seq<char> {
    "Generate 1–64 random bytes and save them in "@ + backend_words(config.store)
        + ". Returns a reference, never the bytes. Labels must start with \""@ + config.label_prefix@
        + "\" and use only letters, digits, _ or - (at most 64 characters). Reuse operation_id to retry safely (no new secret, no new charge); a new operation_id creates the next version of the label. Mode "@
        + mode_words(config)
}

/// The instructions of the server.
pub open spec fn instruction_words(config: Config) -> Seq<char> {
    "Local vault: tools return references and metadata only. Never read, print or export a stored secret into the conversation; the owner reveals secrets with `mcpbytes-vault reveal` in their own terminal. Labels must start with \""@
        + config.label_prefix@
        + "\". Reuse operation_id after an uncertain reply. If entropy_mode is local_only, the secret has no remote contribution."@
}

/// What a code means and what to do about it.
pub open spec fn hint_words(config: Config, code: Seq<char>) -> Seq<char> {
    if code == "label_prefix_mismatch"@ {
        "label must start with \""@ + config.label_prefix@ + "\""@
    } else if code == "invalid_label"@ {
        "label must be 1–64 letters, digits, _ or -"@
    } else if code == "invalid_size"@ {
        "n must be from 1 to 64"@
    } else if code == "invalid_operation_id"@ {
        "operation_id must be 1–128 letters, digits, _ or -"@
    } else if code == "operation_conflict"@ {
        "this operation_id was already used with a different label or n; use a new operation_id"@
    } else if code == "operation_interrupted_or_failed"@ {
        "an earlier attempt with this operation_id did not complete; the owner can inspect it with `mcpbytes-vault list`. Use a new operation_id for a new secret"@
    } else if code == "operation_policy_conflict"@ {
        "this operation completed without a remote contribution, which the current policy requires; use a new operation_id"@
    } else if code == "secret_deleted"@ {
        "the owner deleted the secret this operation_id created; use a new operation_id"@
    } else if code == "vault_busy"@ {
        "another vault operation is running; retry with the same operation_id"@
    } else if code == "remote_timeout"@ || code == "remote_unavailable"@ || code == "remote_transport_failed"@ {
        "the MCPBytes service could not be reached; retry later with the same operation_id"@
    } else if code == "remote_configuration_error"@ {
        "the vault process has no valid API key in "@ + key_variable(config) + "; the owner must set it in the MCP client's environment"@
    } else if code == "remote_authentication_failed"@ {
        "the MCPBytes API rejected the key in "@ + key_variable(config) + " or the response failed authentication; tell the owner"@
    } else if code == "untrusted_device"@ || code == "unapproved_firmware_metadata"@ || code == "invalid_remote_response"@ {
        "the service response did not match the pinned device or firmware; do not retry, tell the owner"@
    } else if code == "storage_failed"@ {
        backend_words(config.store) + " refused the write (locked or unavailable)"@
    } else if code == "entropy_unavailable"@ {
        "the OS random generator failed"@
    } else if code == "secret_not_found"@ {
        "no saved secret with that label and version; run `mcpbytes-vault list`"@
    } else if code == "remote_not_built"@ {
        "this build is local-only: set mode to local_only, or build the vault with --features remote"@
    } else if code == "secret_missing_from_store"@ {
        "the vault's records list this secret but "@ + backend_words(config.store)
            + " no longer holds it (deleted outside the vault?); run `mcpbytes-vault delete` to update the records"@
    } else {
        "see the vault README"@
    }
}

/// Three texts in a row.
fn joined(a: &str, b: &str, c: &str) -> (text: String)
    ensures
        text@ == a@ + b@ + c@,
{
    let mut text = a.to_owned();
    text.append(b);
    text.append(c);
    text
}

impl Vault {
    /// The configuration.
    pub closed spec fn spec_config(self) -> Config {
        self.config
    }

    /// What the program was built with.
    pub closed spec fn spec_build(self) -> Build {
        self.build
    }

    /// The prefix of every label.
    pub fn label_prefix(&self) -> (prefix: &str)
        ensures
            prefix@ == self.spec_config().label_prefix@,
    {
        self.config.label_prefix.as_str()
    }

    /// The configured folder of records.
    pub fn state_dir(&self) -> (directory: &str)
        ensures
            directory@ == self.spec_config().state_dir@,
    {
        self.config.state_dir.as_str()
    }

    /// The configured store.
    pub fn destination(&self) -> (destination: Destination)
        ensures
            destination == self.spec_config().store.spec_destination(),
    {
        self.config.store.destination()
    }

    fn backend_name(&self) -> (words: &'static str)
        ensures
            words@ == backend_words(self.spec_config().store),
    {
        match &self.config.store {
            Store::PrivateFile { .. } => "a private file",
            Store::WindowsCredentialManager => "Windows Credential Manager",
            Store::MacosKeychain => "the macOS Keychain",
            Store::LinuxSecretService => "the Linux Secret Service",
        }
    }

    /// The environment variable of the API key.
    pub fn key_env(&self) -> (variable: &str)
        ensures
            variable@ == key_variable(self.spec_config()),
    {
        match &self.config.remote {
            Some(remote) => remote.api_key_env.as_str(),
            None => "MCPBYTES_API_KEY",
        }
    }

    /// The description of the tool that generates a secret, written from the owner's configuration so
    /// that an agent knows the prefix, the cost and the failure behaviour before its first call.
    pub fn tool_description(&self) -> (text: String)
        ensures
            text@ == description_words(self.spec_config()),
    {
        let mode = match self.config.mode {
            Mode::LocalOnly => "local_only: OS randomness only; no network call and no cost.".to_owned(),
            Mode::RemoteRequired => joined(
                "remote_required: each new secret runs one paid MCPBytes job (price in the MCPBytes catalog) and needs the ",
                self.key_env(),
                " environment variable; the call fails when the service is unavailable.",
            ),
            Mode::RemotePreferred => joined(
                "remote_preferred: each new secret runs one paid MCPBytes job (price in the MCPBytes catalog) and needs the ",
                self.key_env(),
                " environment variable; on timeout or unavailability it saves OS-only randomness and reports fallback_reason.",
            ),
        };
        let mut text = joined(
            "Generate 1–64 random bytes and save them in ",
            self.backend_name(),
            ". Returns a reference, never the bytes. Labels must start with \"",
        );
        text.append(self.config.label_prefix.as_str());
        text.append(
            "\" and use only letters, digits, _ or - (at most 64 characters). Reuse operation_id to retry safely (no new secret, no new charge); a new operation_id creates the next version of the label. Mode ",
        );
        text.append(mode.as_str());
        text
    }

    /// The instructions of the server.
    pub fn instructions(&self) -> (text: String)
        ensures
            text@ == instruction_words(self.spec_config()),
    {
        joined(
            "Local vault: tools return references and metadata only. Never read, print or export a stored secret into the conversation; the owner reveals secrets with `mcpbytes-vault reveal` in their own terminal. Labels must start with \"",
            self.config.label_prefix.as_str(),
            "\". Reuse operation_id after an uncertain reply. If entropy_mode is local_only, the secret has no remote contribution.",
        )
    }

    /// What an error code means and what to do about it.
    pub fn hint(&self, code: &str) -> (text: String)
        ensures
            text@ == hint_words(self.spec_config(), code@),
    {
        if same(code, "label_prefix_mismatch") {
            joined("label must start with \"", self.config.label_prefix.as_str(), "\"")
        } else if same(code, "invalid_label") {
            "label must be 1–64 letters, digits, _ or -".to_owned()
        } else if same(code, "invalid_size") {
            "n must be from 1 to 64".to_owned()
        } else if same(code, "invalid_operation_id") {
            "operation_id must be 1–128 letters, digits, _ or -".to_owned()
        } else if same(code, "operation_conflict") {
            "this operation_id was already used with a different label or n; use a new operation_id".to_owned()
        } else if same(code, "operation_interrupted_or_failed") {
            "an earlier attempt with this operation_id did not complete; the owner can inspect it with `mcpbytes-vault list`. Use a new operation_id for a new secret".to_owned()
        } else if same(code, "operation_policy_conflict") {
            "this operation completed without a remote contribution, which the current policy requires; use a new operation_id".to_owned()
        } else if same(code, "secret_deleted") {
            "the owner deleted the secret this operation_id created; use a new operation_id".to_owned()
        } else if same(code, "vault_busy") {
            "another vault operation is running; retry with the same operation_id".to_owned()
        } else if same(code, "remote_timeout") || same(code, "remote_unavailable") || same(code, "remote_transport_failed") {
            "the MCPBytes service could not be reached; retry later with the same operation_id".to_owned()
        } else if same(code, "remote_configuration_error") {
            joined(
                "the vault process has no valid API key in ",
                self.key_env(),
                "; the owner must set it in the MCP client's environment",
            )
        } else if same(code, "remote_authentication_failed") {
            joined(
                "the MCPBytes API rejected the key in ",
                self.key_env(),
                " or the response failed authentication; tell the owner",
            )
        } else if same(code, "untrusted_device") || same(code, "unapproved_firmware_metadata") || same(code, "invalid_remote_response") {
            "the service response did not match the pinned device or firmware; do not retry, tell the owner".to_owned()
        } else if same(code, "storage_failed") {
            let mut text = self.backend_name().to_owned();
            text.append(" refused the write (locked or unavailable)");
            text
        } else if same(code, "entropy_unavailable") {
            "the OS random generator failed".to_owned()
        } else if same(code, "secret_not_found") {
            "no saved secret with that label and version; run `mcpbytes-vault list`".to_owned()
        } else if same(code, "remote_not_built") {
            "this build is local-only: set mode to local_only, or build the vault with --features remote".to_owned()
        } else if same(code, "secret_missing_from_store") {
            joined(
                "the vault's records list this secret but ",
                self.backend_name(),
                " no longer holds it (deleted outside the vault?); run `mcpbytes-vault delete` to update the records",
            )
        } else {
            "see the vault README".to_owned()
        }
    }
}

/// Why the arguments of an operation are refused; `None` where they are not.
pub open spec fn argument_refusal(config: Config, input: Input) -> Option<Seq<char>> {
    if !is_name(input.label@, 64) {
        Some("invalid_label"@)
    } else if !config.label_prefix@.is_prefix_of(input.label@) {
        Some("label_prefix_mismatch"@)
    } else if !(1 <= input.n <= MAX_BYTES) {
        Some("invalid_size"@)
    } else if !is_name(input.operation_id@, 128) {
        Some("invalid_operation_id"@)
    } else {
        None
    }
}

/// Arguments that every step of an operation relies on.
pub open spec fn is_sound(input: Input) -> bool {
    is_name(input.label@, 64) && 1 <= input.n <= MAX_BYTES && is_name(input.operation_id@, 128)
}

/// The context that the key of a record is derived for.
pub open spec fn record_context(record: Record) -> Seq<u8> {
    key_context_bytes(record.input.label@, record.version as nat, record.input.operation_id@)
}

/// An operation whose arguments were accepted: its record file, if there is one, is read next.
pub struct Lookup {
    input: Input,
}

/// An operation that has no record: the whole journal is read next.
pub struct Fresh {
    input: Input,
}

/// An operation that has a new record: the record is written next.
pub struct Begun {
    record: Record,
}

/// An operation that waits for the remote contribution: the request is sent next.
pub struct Awaiting {
    record: Record,
    context: Vec<u8>,
    pending: Pending,
}

/// A secret that is ready to be stored. It is wiped when the draft goes, stored or not.
pub struct Draft {
    record: Record,
    secret: Secret,
    entropy_mode: &'static str,
    fallback_reason: Option<String>,
}

/// An operation that has ended: its record is written next.
pub struct Completion {
    record: Record,
    result: Result<Saved, &'static str>,
}

/// What is known of an operation before anything is generated.
pub enum Resumed {
    /// It was completed before; this is its receipt.
    Done(Saved),
    Fresh(Fresh),
}

/// What an operation needs next.
pub enum Step {
    Fetch(Awaiting),
    Store(Draft),
    Finish(Completion),
}

impl Lookup {
    #[verifier::type_invariant]
    spec fn inv(self) -> bool {
        is_sound(self.input)
    }

    /// The arguments.
    pub closed spec fn spec_input(self) -> Input {
        self.input
    }

    /// The name of the record file.
    pub fn file(&self) -> (name: String)
        ensures
            name@ == record_file_name(self.spec_input().operation_id@),
    {
        record_file(self.input.operation_id.as_str())
    }
}

impl Fresh {
    #[verifier::type_invariant]
    spec fn inv(self) -> bool {
        is_sound(self.input)
    }

    /// The arguments.
    pub closed spec fn spec_input(self) -> Input {
        self.input
    }

    /// Starts the operation, given every record of the journal and the time.
    pub fn begin(self, records: &Vec<Record>, now: Option<u64>) -> (result: Result<Begun, &'static str>)
        ensures
            exists|newest: u64| #[trigger]
                is_newest(records@, self.spec_input().label@, newest) && match result {
                    Ok(begun) => records@.len() < MAX_RECORDS && is_started(begun.spec_record(), self.spec_input(), newest, now),
                    Err(code) => {
                        &&& code@ == "state_capacity_reached"@
                        &&& records@.len() >= MAX_RECORDS || newest == u64::MAX
                    },
                },
    {
        proof {
            use_type_invariant(&self);
        }
        let started = Journal::begin(records, &self.input, now);
        let ghost newest = choose|newest: u64| #[trigger]
            is_newest(records@, self.input.label@, newest) && match started {
                Ok(record) => records@.len() < MAX_RECORDS && is_started(record, self.input, newest, now),
                Err(code) => code@ == "state_capacity_reached"@ && (records@.len() >= MAX_RECORDS || newest == u64::MAX),
            };
        assert(is_newest(records@, self.spec_input().label@, newest));
        match started {
            Ok(record) => Ok(Begun { record }),
            Err(code) => Err(code),
        }
    }
}

impl Begun {
    #[verifier::type_invariant]
    spec fn inv(self) -> bool {
        is_sound(self.record.input)
    }

    /// The record.
    pub closed spec fn spec_record(self) -> Record {
        self.record
    }

    /// The record to write.
    pub fn record(&self) -> (record: &Record)
        ensures
            *record == self.spec_record(),
    {
        &self.record
    }
}

impl Awaiting {
    #[verifier::type_invariant]
    spec fn inv(self) -> bool {
        &&& is_sound(self.record.input)
        &&& self.context@ == record_context(self.record)
        &&& self.pending.expected().n == self.record.input.n
    }

    /// The record.
    pub closed spec fn spec_record(self) -> Record {
        self.record
    }

    /// The request that is waited for.
    pub closed spec fn spec_pending(self) -> Pending {
        self.pending
    }

    /// The request to send.
    pub fn request(&self) -> (request: WireRequest)
        ensures
            request.carries(self.spec_pending().expected()),
    {
        self.pending.request()
    }
}

impl Draft {
    /// The record.
    pub closed spec fn spec_record(self) -> Record {
        self.record
    }

    /// The secret.
    pub closed spec fn spec_bytes(self) -> Seq<u8> {
        self.secret@
    }

    /// Where the secret comes from.
    pub closed spec fn spec_mode(self) -> Seq<char> {
        self.entropy_mode@
    }

    /// Why it has no remote contribution, where that was wanted.
    pub closed spec fn spec_reason(self) -> Option<Seq<char>> {
        contents(self.fallback_reason)
    }

    /// Whether this holds a secret of a record, where it comes from and why.
    pub open spec fn holds(self, record: Record, bytes: Seq<u8>, mode: Seq<char>, reason: Option<Seq<char>>) -> bool {
        &&& self.spec_record() == record
        &&& self.spec_bytes() == bytes
        &&& self.spec_mode() == mode
        &&& self.spec_reason() == reason
    }

    /// The name to store the secret under.
    pub fn name(&self) -> (name: String)
        ensures
            name@ == entry(self.spec_record().input.label@, self.spec_record().version as nat),
    {
        entry_name(self.record.input.label.as_str(), self.record.version)
    }

    /// The secret.
    pub fn bytes(&self) -> (bytes: &[u8])
        ensures
            bytes@ == self.spec_bytes(),
    {
        self.secret.as_slice()
    }

    /// What storing the secret led to. The secret is wiped.
    pub fn stored(self, outcome: Result<Receipt, storage::Error>) -> (completion: Completion)
        ensures
            match outcome {
                Ok(receipt) => completion.is_saved(self, receipt),
                Err(_) => completion.is_failure(self.spec_record(), "storage_failed"@),
            },
    {
        let Draft { record, secret: _secret, entropy_mode, fallback_reason } = self;
        match outcome {
            Ok(receipt) => {
                let saved = Saved {
                    reference: receipt.reference,
                    label: record.input.label.clone(),
                    version: record.version,
                    bytes: receipt.bytes,
                    backend: receipt.backend,
                    entropy_mode: entropy_mode.to_owned(),
                    fallback_reason,
                    store_name: receipt.store_name,
                    format: Some("raw".to_owned()),
                };
                let mut record = record;
                record.receipt = Some(saved.clone());
                Completion { record, result: Ok(saved) }
            },
            Err(_) => Completion::failed(record, "storage_failed"),
        }
    }
}

impl Completion {
    /// The record.
    pub closed spec fn spec_record(self) -> Record {
        self.record
    }

    /// The answer, once the record is written.
    pub closed spec fn spec_result(self) -> Result<Saved, &'static str> {
        self.result
    }

    /// Whether this ends an operation with a code, and keeps everything else of its record.
    pub open spec fn is_failure(self, record: Record, code: Seq<char>) -> bool {
        &&& self.spec_result() matches Err(actual)
        &&& actual@ == code
        &&& contents(self.spec_record().error) == Some(code)
        &&& self.spec_record() == (Record { error: self.spec_record().error, ..record })
    }

    /// Whether this ends an operation with the receipt of its stored secret.
    pub open spec fn is_saved(self, draft: Draft, receipt: Receipt) -> bool {
        let record = draft.spec_record();
        &&& self.spec_result() matches Ok(saved)
        &&& saved.reference == receipt.reference
        &&& saved.label == record.input.label
        &&& saved.version == record.version
        &&& saved.bytes == receipt.bytes
        &&& saved.backend == receipt.backend
        &&& saved.entropy_mode@ == draft.spec_mode()
        &&& contents(saved.fallback_reason) == draft.spec_reason()
        &&& saved.store_name == receipt.store_name
        &&& contents(saved.format) == Some("raw"@)
        &&& self.spec_record() == (Record { receipt: Some(saved), ..record })
    }

    /// An operation that ends with a code.
    fn failed(record: Record, code: &'static str) -> (completion: Self)
        ensures
            completion.is_failure(record, code@),
    {
        let mut record = record;
        record.error = Some(code.to_owned());
        Completion { record, result: Err(code) }
    }

    /// The record to write.
    pub fn record(&self) -> (record: &Record)
        ensures
            *record == self.spec_record(),
    {
        &self.record
    }

    /// The answer, given whether the record was written.
    pub fn answer(self, written: bool) -> (result: Result<Saved, &'static str>)
        ensures
            written ==> result == self.spec_result(),
            !written ==> code(result) == Some("completion_ambiguous"@),
    {
        if written {
            self.result
        } else {
            Err("completion_ambiguous")
        }
    }
}

impl Step {
    /// What follows a derivation from local randomness alone.
    pub fn local(record: Record, derived: Result<Vec<u8>, protocol::Error>, reason: Option<String>) -> (step: Self)
        ensures
            match derived {
                Ok(bytes) => step matches Step::Store(draft) && draft.holds(record, bytes@, "local_only"@, contents(reason)),
                Err(_) => step matches Step::Finish(completion) && completion.is_failure(record, "entropy_unavailable"@),
            },
    {
        match derived {
            Ok(bytes) => Step::Store(Draft { record, secret: Secret::new(bytes), entropy_mode: "local_only", fallback_reason: reason }),
            Err(_) => Step::Finish(Completion::failed(record, "entropy_unavailable")),
        }
    }

    /// What follows a derivation with the remote contribution.
    pub fn mixed(record: Record, derived: Result<Vec<u8>, protocol::Error>) -> (step: Self)
        ensures
            match derived {
                Ok(bytes) => step matches Step::Store(draft) && draft.holds(record, bytes@, "mixed"@, None),
                Err(_) => step matches Step::Finish(completion) && completion.is_failure(record, "remote_authentication_failed"@),
            },
    {
        match derived {
            Ok(bytes) => Step::Store(Draft { record, secret: Secret::new(bytes), entropy_mode: "mixed", fallback_reason: None }),
            Err(_) => Step::Finish(Completion::failed(record, "remote_authentication_failed")),
        }
    }
}

/// How an operation that has a record is answered.
pub open spec fn replayed(mode: Mode, record: Record, input: Input) -> Result<Saved, Seq<char>> {
    match replay_refusal(record, input) {
        Some(code) => Err(code),
        None => if mode == Mode::RemoteRequired && record.receipt->0.entropy_mode@ != "mixed"@ {
            Err("operation_policy_conflict"@)
        } else {
            Ok(record.receipt->0)
        },
    }
}

/// Whether a draft holds a secret of local randomness alone, for the given reason.
pub open spec fn is_local_draft(draft: Draft, record: Record, reason: Option<Seq<char>>) -> bool {
    &&& draft.spec_record() == record
    &&& draft.spec_mode() == "local_only"@
    &&& draft.spec_reason() == reason
    &&& exists|local: Drawn<32>|
        is_derived(draft.spec_bytes(), #[trigger] local@, seq![], record_context(record), record.input.n as int, false)
}

/// Whether a draft holds a secret mixed from local randomness and a remote contribution.
pub open spec fn is_mixed_draft(draft: Draft, record: Record, request: Request, remote: Seq<u8>) -> bool {
    &&& draft.spec_record() == record
    &&& draft.spec_mode() == "mixed"@
    &&& draft.spec_reason() is None
    &&& exists|local: Drawn<32>|
        is_derived(draft.spec_bytes(), #[trigger] local@, remote, mixed_context(record_context(record), request), record.input.n as int, true)
}

/// Whether a step gives a secret of local randomness alone, or fails for want of randomness.
pub open spec fn is_local_step(step: Step, record: Record, reason: Option<Seq<char>>) -> bool {
    match step {
        Step::Store(draft) => is_local_draft(draft, record, reason),
        Step::Finish(completion) => completion.is_failure(record, "entropy_unavailable"@) && generator_failed(),
        Step::Fetch(_) => false,
    }
}

/// The key of the first pinned device that a reply names, from pin `i` on, or why there is none.
pub open spec fn trusted_key(pins: Seq<Pin>, envelope: WireEnvelope, i: int) -> Result<Seq<u8>, Seq<char>>
    decreases pins.len() - i,
{
    if i < 0 || i >= pins.len() {
        Err("untrusted_device"@)
    } else if !decodes(pins[i].public_key@, 32) {
        Err("invalid_pin"@)
    } else if base64url_text(sha256_digest(decoded(pins[i].public_key@))) == envelope.device_pk_id@ {
        if exists|j: int| 0 <= j < pins[i].firmware_digests@.len() && (#[trigger] pins[i].firmware_digests@[j])@ == envelope.fw_digest@ {
            Ok(decoded(pins[i].public_key@))
        } else {
            Err("unapproved_firmware_metadata"@)
        }
    } else {
        trusted_key(pins, envelope, i + 1)
    }
}

/// The key of the device that a reply names, if it is pinned with that firmware.
fn trusted(pins: &Vec<Pin>, envelope: &WireEnvelope) -> (result: Result<[u8; 32], &'static str>)
    ensures
        match (result, trusted_key(pins@, *envelope, 0)) {
            (Ok(key), Ok(expected)) => key@ == expected,
            (Err(code), Err(expected)) => code@ == expected,
            _ => false,
        },
{
    let mut i: usize = 0;
    while i < pins.len()
        invariant
            i <= pins@.len(),
            trusted_key(pins@, *envelope, 0) == trusted_key(pins@, *envelope, i as int),
        decreases pins@.len() - i,
    {
        let key: [u8; 32] = match decode(pins[i].public_key.as_str()) {
            Ok(key) => key,
            Err(_) => return Err("invalid_pin"),
        };
        proof {
            decoded_is(pins@[i as int].public_key@, key@);
        }
        if encode(&key_id(&key)) == envelope.device_pk_id {
            if !holds(&pins[i].firmware_digests, &envelope.fw_digest) {
                return Err("unapproved_firmware_metadata");
            }
            return Ok(key);
        }
        i += 1;
    }
    Err("untrusted_device")
}

/// Whether a list holds a text.
fn holds(list: &Vec<String>, text: &String) -> (result: bool)
    ensures
        result == exists|j: int| 0 <= j < list@.len() && (#[trigger] list@[j])@ == text@,
{
    let mut i: usize = 0;
    while i < list.len()
        invariant
            i <= list@.len(),
            forall|j: int| 0 <= j < i ==> (#[trigger] list@[j])@ != text@,
        decreases list@.len() - i,
    {
        if list[i] == *text {
            return true;
        }
        i += 1;
    }
    false
}

impl Vault {
    /// The vault of a configuration.
    pub fn new(config: Config, build: Build) -> (result: Result<Self, &'static str>)
        ensures
            config.judged(build, code(result)),
            result matches Ok(vault) ==> vault.spec_config() == config && vault.spec_build() == build,
    {
        match config.validate(build) {
            Ok(()) => Ok(Vault { config, build }),
            Err(code) => Err(code),
        }
    }

    /// Begins to answer an operation: checks its arguments.
    pub fn generate(&self, input: Input) -> (result: Result<Lookup, &'static str>)
        ensures
            code(result) == argument_refusal(self.spec_config(), input),
            result matches Ok(lookup) ==> lookup.spec_input() == input,
    {
        if !valid_label(input.label.as_str()) {
            return Err("invalid_label");
        }
        if !starts_with(input.label.as_str(), self.config.label_prefix.as_str()) {
            return Err("label_prefix_mismatch");
        }
        if input.n == 0 || input.n as usize > MAX_BYTES {
            return Err("invalid_size");
        }
        if !name(input.operation_id.as_str(), 128) {
            return Err("invalid_operation_id");
        }
        Ok(Lookup { input })
    }

    /// Answers an operation that has a record, with its receipt or a refusal. Only one without a record
    /// is generated.
    pub fn resume(&self, lookup: Lookup, found: Option<Record>) -> (result: Result<Resumed, &'static str>)
        ensures
            match found {
                None => result matches Ok(Resumed::Fresh(fresh)) && fresh.spec_input() == lookup.spec_input(),
                Some(record) => match replayed(self.spec_config().mode, record, lookup.spec_input()) {
                    Ok(saved) => result == Ok::<Resumed, &'static str>(Resumed::Done(saved)),
                    Err(expected) => code(result) == Some(expected),
                },
            },
    {
        proof {
            use_type_invariant(&lookup);
        }
        match Journal::existing(found, &lookup.input) {
            // Tightening the owner's policy must not make an earlier local-only result satisfy it. The
            // key stays as it is; a new operation is required under the new policy.
            Ok(Some(receipt)) => if self.config.mode == Mode::RemoteRequired && !same(receipt.entropy_mode.as_str(), "mixed") {
                Err("operation_policy_conflict")
            } else {
                Ok(Resumed::Done(receipt))
            },
            Ok(None) => Ok(Resumed::Fresh(Fresh { input: lookup.input })),
            Err(code) => Err(code),
        }
    }

    /// Goes on with an operation whose first record is written: generates the secret, or asks for the
    /// remote contribution.
    pub fn material(&self, begun: Begun) -> (step: Step)
        ensures
            if self.spec_config().mode == Mode::LocalOnly {
                is_local_step(step, begun.spec_record(), None)
            } else {
                match step {
                    Step::Fetch(awaiting) => {
                        &&& self.spec_build().remote
                        &&& awaiting.spec_record() == begun.spec_record()
                        &&& exists|seed: Drawn<32>|
                            awaiting.spec_pending().stems_from(begun.spec_record().input.n as int, #[trigger] seed@)
                    },
                    Step::Finish(completion) => {
                        &&& completion.is_failure(
                            begun.spec_record(),
                            if self.spec_build().remote {
                                "entropy_unavailable"@
                            } else {
                                "remote_not_built"@
                            },
                        )
                        &&& self.spec_build().remote ==> generator_failed() || low_order_drawn(begun.spec_record().input.n as int)
                    },
                    Step::Store(_) => false,
                }
            },
    {
        proof {
            use_type_invariant(&begun);
        }
        let record = begun.record;
        let context = match key_context(record.input.label.as_str(), record.version, record.input.operation_id.as_str()) {
            Some(context) => context,
            None => return Step::Finish(Completion::failed(record, "invalid_request")),
        };
        if self.config.mode == Mode::LocalOnly {
            return local_step(record, &context, None);
        }
        if !self.build.remote {
            return Step::Finish(Completion::failed(record, "remote_not_built"));
        }
        match Pending::new(record.input.n as usize) {
            Ok(pending) => {
                let ghost seed = choose|seed: Drawn<32>| pending.stems_from(record.input.n as int, #[trigger] seed@);
                let awaiting = Awaiting { record, context, pending };
                assert(awaiting.spec_pending().stems_from(record.input.n as int, seed@));
                Step::Fetch(awaiting)
            },
            Err(_) => Step::Finish(Completion::failed(record, "entropy_unavailable")),
        }
    }

    /// Goes on with an operation whose request was answered or failed: mixes the pinned device's sealed
    /// contribution with local randomness. Where the service did not answer, a vault that merely prefers
    /// the contribution generates the secret without it and says so.
    pub fn remote_material(&self, awaiting: Awaiting, reply: Result<WireEnvelope, remote::Error>) -> (step: Step)
        ensures
            self.remote_step(awaiting, reply, step),
    {
        proof {
            use_type_invariant(&awaiting);
        }
        let ghost expected = awaiting.pending.expected();
        let Awaiting { record, context, pending } = awaiting;
        let envelope = match reply {
            Ok(envelope) => envelope,
            Err(error) => if self.config.mode == Mode::RemotePreferred && error.allows_fallback() {
                return local_step(record, &context, Some(error.code().to_owned()));
            } else {
                return Step::Finish(Completion::failed(record, error.code()));
            },
        };
        let remote = match &self.config.remote {
            Some(remote) => remote,
            None => return Step::Finish(Completion::failed(record, "remote_not_configured")),
        };
        let pin = match trusted(&remote.pins, &envelope) {
            Ok(pin) => pin,
            Err(code) => return Step::Finish(Completion::failed(record, code)),
        };
        let derived = pending.open_and_mix(&envelope, &pin, &context);
        let step = Step::mixed(record, derived);
        proof {
            if step is Store {
                let plaintext = contribution(expected, pending.secret(), pin@, envelope)->Ok_0;
                let mixed = mixed_context(context@, expected);
                let local = choose|local: Drawn<32>|
                    is_derived(derived->Ok_0@, #[trigger] local@, plaintext, mixed, record.input.n as int, true);
                assert(is_derived(step->Store_0.spec_bytes(), local@, plaintext, mixed, record.input.n as int, true));
            }
        }
        step
    }

    /// What follows a reply.
    pub open spec fn remote_step(self, awaiting: Awaiting, reply: Result<WireEnvelope, remote::Error>, step: Step) -> bool {
        let record = awaiting.spec_record();
        let pending = awaiting.spec_pending();
        match reply {
            Err(error) => if self.spec_config().mode == Mode::RemotePreferred && remote::is_absence(error) {
                is_local_step(step, record, Some(remote::error_code(error)))
            } else {
                step matches Step::Finish(completion) && completion.is_failure(record, remote::error_code(error))
            },
            Ok(envelope) => match self.spec_config().remote {
                None => step matches Step::Finish(completion) && completion.is_failure(record, "remote_not_configured"@),
                Some(remote) => match trusted_key(remote.pins@, envelope, 0) {
                    Err(code) => step matches Step::Finish(completion) && completion.is_failure(record, code),
                    Ok(key) => match contribution(pending.expected(), pending.secret(), key, envelope) {
                        Err(_) => {
                            step matches Step::Finish(completion) && completion.is_failure(record, "remote_authentication_failed"@)
                        },
                        Ok(plaintext) => match step {
                            Step::Store(draft) => is_mixed_draft(draft, record, pending.expected(), plaintext),
                            Step::Finish(completion) => {
                                completion.is_failure(record, "remote_authentication_failed"@) && generator_failed()
                            },
                            Step::Fetch(_) => false,
                        },
                    },
                },
            },
        }
    }
}

/// A secret of local randomness alone.
fn local_step(record: Record, context: &Vec<u8>, reason: Option<String>) -> (step: Step)
    requires
        is_sound(record.input),
        context@ == record_context(record),
    ensures
        is_local_step(step, record, contents(reason)),
{
    let derived = local_only(record.input.n as usize, context.as_slice());
    let step = Step::local(record, derived, reason);
    proof {
        if step is Store {
            let local = choose|local: Drawn<32>|
                is_derived(derived->Ok_0@, #[trigger] local@, seq![], context@, record.input.n as int, false);
            assert(is_derived(step->Store_0.spec_bytes(), local@, seq![], record_context(record), record.input.n as int, false));
        }
    }
    step
}

/// How an operation stands.
pub open spec fn status_words(record: Record) -> Seq<char> {
    if record.deleted {
        "deleted"@
    } else if record.receipt is Some {
        "saved"@
    } else {
        "incomplete"@
    }
}

/// Whether an entry of a listing shows a record.
pub open spec fn shows(listed: Listed, record: Record) -> bool {
    &&& listed.label == record.input.label
    &&& listed.version == record.version
    &&& listed.bytes == record.input.n
    &&& listed.status@ == status_words(record)
    &&& listed.created_at == record.created_at
    &&& match record.receipt {
        Some(receipt) => listed.entropy_mode == Some(receipt.entropy_mode) && listed.reference == Some(receipt.reference),
        None => listed.entropy_mode is None && listed.reference is None,
    }
}

/// Whether a record is one that an owner command asks for: the given version of a label, or, where none
/// is given, a saved one that was not deleted.
pub open spec fn is_wanted(record: Record, label: Seq<char>, version: Option<u64>) -> bool {
    &&& record.input.label@ == label
    &&& match version {
        Some(version) => record.version == version,
        None => !record.deleted && record.receipt is Some,
    }
}

/// Whether the record at `i` is the last one that an owner command asks for.
pub open spec fn is_last_wanted(records: Seq<Record>, label: Seq<char>, version: Option<u64>, i: int) -> bool {
    &&& 0 <= i < records.len()
    &&& is_wanted(records[i], label, version)
    &&& forall|j: int| i < j < records.len() ==> !is_wanted(#[trigger] records[j], label, version)
}

/// Whether a record was found, or the right refusal given.
pub open spec fn is_find(records: Seq<Record>, label: Seq<char>, version: Option<u64>, result: Result<Record, &'static str>) -> bool {
    match result {
        Ok(record) => exists|i: int| #[trigger] is_last_wanted(records, label, version, i) && record == records[i] && !record.deleted,
        Err(code) => {
            ||| code@ == "secret_not_found"@ && forall|i: int| 0 <= i < records.len() ==> !is_wanted(#[trigger] records[i], label, version)
            ||| code@ == "secret_deleted"@ && exists|i: int| #[trigger] is_last_wanted(records, label, version, i) && records[i].deleted
        },
    }
}

/// The record for a label: the given version, or the newest saved one.
fn find(records: &Vec<Record>, label: &str, version: Option<u64>) -> (result: Result<Record, &'static str>)
    ensures
        is_find(records@, label@, version, result),
{
    let mut i: usize = records.len();
    while i > 0
        invariant
            i <= records@.len(),
            forall|j: int| i <= j < records@.len() ==> !is_wanted(#[trigger] records@[j], label@, version),
        decreases i,
    {
        i -= 1;
        let record = &records[i];
        let wanted: bool = match version {
            Some(version) => record.version == version,
            None => !record.deleted && record.receipt.is_some(),
        };
        if wanted && same(record.input.label.as_str(), label) {
            assert(is_last_wanted(records@, label@, version, i as int));
            if record.deleted {
                return Err("secret_deleted");
            }
            return Ok(record.clone());
        }
    }
    Err("secret_not_found")
}

/// A secret that the owner may see: it is read from the store next.
pub struct Reveal {
    record: Record,
}

/// A secret that the owner deletes: it is removed from the store next.
pub struct Deletion {
    record: Record,
}

impl Reveal {
    /// The record.
    pub closed spec fn spec_record(self) -> Record {
        self.record
    }

    /// The name that the secret is stored under.
    pub fn name(&self) -> (name: String)
        ensures
            name@ == entry(self.spec_record().input.label@, self.spec_record().version as nat),
    {
        entry_name(self.record.input.label.as_str(), self.record.version)
    }

    /// The record and the stored bytes.
    pub fn opened(self, read: Result<Vec<u8>, storage::Error>) -> (result: Result<(Record, Vec<u8>), &'static str>)
        ensures
            match read {
                Ok(bytes) => result == Ok::<(Record, Vec<u8>), &'static str>((self.spec_record(), bytes)),
                Err(error) => code(result) == Some(
                    if error == storage::Error::NotFound {
                        "secret_missing_from_store"@
                    } else {
                        "storage_failed"@
                    },
                ),
            },
    {
        match read {
            Ok(bytes) => Ok((self.record, bytes)),
            Err(storage::Error::NotFound) => Err("secret_missing_from_store"),
            Err(_) => Err("storage_failed"),
        }
    }
}

impl Deletion {
    /// The record.
    pub closed spec fn spec_record(self) -> Record {
        self.record
    }

    /// The name that the secret is stored under.
    pub fn name(&self) -> (name: String)
        ensures
            name@ == entry(self.spec_record().input.label@, self.spec_record().version as nat),
    {
        entry_name(self.record.input.label.as_str(), self.record.version)
    }

    /// The record to write, marked deleted, and whether the store still held the secret. Nothing is
    /// marked where the store failed.
    pub fn removed(self, outcome: Result<bool, storage::Error>) -> (result: Result<(Record, bool), &'static str>)
        ensures
            match outcome {
                Ok(existed) => result == Ok::<(Record, bool), &'static str>(
                    (Record { deleted: true, ..self.spec_record() }, existed),
                ),
                Err(_) => code(result) == Some("storage_failed"@),
            },
    {
        match outcome {
            Ok(existed) => {
                let mut record = self.record;
                record.deleted = true;
                Ok((record, existed))
            },
            Err(_) => Err("storage_failed"),
        }
    }
}

impl Vault {
    /// Metadata of every secret that the journal knows, deleted and incomplete ones too.
    pub fn list(&self, records: Vec<Record>) -> (listing: Listing)
        ensures
            listing.label_prefix@ == self.spec_config().label_prefix@,
            listing.secrets@.len() == records@.len(),
            forall|i: int|
                0 <= i < records@.len() ==> {
                    &&& (#[trigger] listing.secrets@[i]).label@ == records@[i].input.label@
                    &&& listing.secrets@[i].version == records@[i].version
                    &&& listing.secrets@[i].bytes == records@[i].input.n
                    &&& listing.secrets@[i].created_at == records@[i].created_at
                },
            forall|i: int| 0 <= i < records@.len() ==> shows(#[trigger] listing.secrets@[i], records@[i]),
    {
        let mut secrets: Vec<Listed> = Vec::new();
        let mut i: usize = 0;
        while i < records.len()
            invariant
                i <= records@.len(),
                secrets@.len() == i,
                forall|j: int| 0 <= j < i ==> shows(#[trigger] secrets@[j], records@[j]),
            decreases records@.len() - i,
        {
            let record = &records[i];
            let (entropy_mode, reference) = match &record.receipt {
                Some(receipt) => (Some(receipt.entropy_mode.clone()), Some(receipt.reference.clone())),
                None => (None, None),
            };
            let status = if record.deleted {
                "deleted"
            } else if record.receipt.is_some() {
                "saved"
            } else {
                "incomplete"
            };
            secrets.push(
                Listed {
                    label: record.input.label.clone(),
                    version: record.version,
                    bytes: record.input.n,
                    status,
                    entropy_mode,
                    created_at: record.created_at,
                    reference,
                },
            );
            i += 1;
        }
        Listing { label_prefix: self.config.label_prefix.clone(), secrets }
    }

    /// The record whose secret the owner asks to see: the given version of a label, or the newest saved
    /// one. For the owner's terminal command only.
    pub fn reveal_secret(&self, records: &Vec<Record>, label: &str, version: Option<u64>) -> (result: Result<Reveal, &'static str>)
        ensures
            match result {
                Ok(shown) => {
                    &&& is_find(records@, label@, version, Ok(shown.spec_record()))
                    &&& shown.spec_record().receipt is Some
                },
                Err(code) => {
                    ||| is_find(records@, label@, version, Err(code))
                    ||| code@ == "operation_interrupted_or_failed"@ && exists|record: Record|
                        record.receipt is None && #[trigger] is_find(records@, label@, version, Ok(record))
                },
            },
            result matches Ok(shown) ==> {
                &&& records@.contains(shown.spec_record())
                &&& shown.spec_record().input.label@ == label@
                &&& !shown.spec_record().deleted
                &&& version matches Some(version) ==> shown.spec_record().version == version
            },
            version is None ==> (result is Ok <==> exists|i: int|
                0 <= i < records@.len() && (#[trigger] records@[i]).input.label@ == label@ && records@[i].receipt is Some
                    && !records@[i].deleted),
            version is None && result is Err ==> code(result) == Some("secret_not_found"@),
    {
        let found = find(records, label, version);
        proof {
            match version {
                None => the_newest_saved_secret_is_revealed(records@, label@, found),
                Some(version) => the_given_version_is_found(records@, label@, version, found),
            }
        }
        match found {
            Ok(record) => if record.receipt.is_none() {
                assert(is_find(records@, label@, version, Ok(record)));
                Err("operation_interrupted_or_failed")
            } else {
                Ok(Reveal { record })
            },
            Err(code) => Err(code),
        }
    }

    /// The record whose secret the owner deletes.
    pub fn delete(&self, records: &Vec<Record>, label: &str, version: u64) -> (result: Result<Deletion, &'static str>)
        ensures
            match result {
                Ok(deletion) => is_find(records@, label@, Some(version), Ok(deletion.spec_record())),
                Err(code) => is_find(records@, label@, Some(version), Err(code)),
            },
            result matches Ok(deletion) ==> {
                &&& records@.contains(deletion.spec_record())
                &&& deletion.spec_record().input.label@ == label@
                &&& deletion.spec_record().version == version
                &&& !deletion.spec_record().deleted
            },
            code(result) == Some("secret_not_found"@) <==> forall|i: int|
                0 <= i < records@.len() ==> !((#[trigger] records@[i]).input.label@ == label@ && records@[i].version == version),
    {
        let found = find(records, label, Some(version));
        proof {
            the_given_version_is_found(records@, label@, version, found);
        }
        match found {
            Ok(record) => Ok(Deletion { record }),
            Err(code) => Err(code),
        }
    }
}

/// Whether a code blames the tool arguments.
pub fn is_argument_error(code: &str) -> (result: bool)
    ensures
        result == blames_arguments(code@),
{
    same(code, ARGUMENT_ERRORS[0]) || same(code, ARGUMENT_ERRORS[1]) || same(code, ARGUMENT_ERRORS[2]) || same(code, ARGUMENT_ERRORS[3])
}

/// Retrying a completed operation gives back the very same receipt, as long as the policy does not ask
/// for a remote contribution that the secret does not have.
pub proof fn retries_return_the_same_receipt(mode: Mode, draft: Draft, receipt: Receipt, completion: Completion, input: Input)
    requires
        completion.is_saved(draft, receipt),
        draft.spec_record().input.label@ == input.label@,
        draft.spec_record().input.n == input.n,
        draft.spec_record().input.operation_id@ == input.operation_id@,
        !draft.spec_record().deleted,
        mode == Mode::RemoteRequired ==> draft.spec_mode() == "mixed"@,
    ensures
        replayed(mode, completion.spec_record(), input) == Ok::<Saved, Seq<char>>(completion.spec_result()->Ok_0),
{
}

/// An operation that was started and has not been completed is never generated again.
pub proof fn interrupted_operations_stay_interrupted(mode: Mode, record: Record, input: Input, newest: u64, now: Option<u64>)
    requires
        is_started(record, input, newest, now),
    ensures
        replayed(mode, record, input) == Err::<Saved, Seq<char>>("operation_interrupted_or_failed"@),
{
}

/// An operation that failed is never generated again.
pub proof fn failed_operations_stay_failed(mode: Mode, record: Record, completion: Completion, code: Seq<char>, input: Input)
    requires
        completion.is_failure(record, code),
        record.receipt is None,
        !record.deleted,
        record.input.label@ == input.label@,
        record.input.n == input.n,
        record.input.operation_id@ == input.operation_id@,
    ensures
        replayed(mode, completion.spec_record(), input) == Err::<Saved, Seq<char>>("operation_interrupted_or_failed"@),
{
}

/// An operation whose secret was deleted is not answered with a receipt.
pub proof fn deleted_secrets_have_no_receipt(mode: Mode, record: Record, input: Input)
    requires
        record.deleted,
        record.input.label@ == input.label@,
        record.input.n == input.n,
        record.input.operation_id@ == input.operation_id@,
    ensures
        replayed(mode, record, input) == Err::<Saved, Seq<char>>("secret_deleted"@),
{
}

/// An operation identifier with another label or another size is a conflict, whatever became of the
/// operation.
pub proof fn other_arguments_conflict(mode: Mode, record: Record, input: Input)
    requires
        record.input.label@ != input.label@ || record.input.n != input.n || record.input.operation_id@ != input.operation_id@,
    ensures
        replayed(mode, record, input) == Err::<Saved, Seq<char>>("operation_conflict"@),
{
}

/// A vault that requires the remote contribution never answers with a secret that lacks it.
pub proof fn required_contributions_are_there(record: Record, input: Input)
    requires
        replayed(Mode::RemoteRequired, record, input) is Ok,
    ensures
        replayed(Mode::RemoteRequired, record, input)->Ok_0.entropy_mode@ == "mixed"@,
{
}

/// A secret without a remote contribution is saved after a reply only where the vault merely prefers the
/// contribution and the service did not answer; a reply that is refused never leads to one.
pub proof fn fallback_is_explicit(vault: Vault, awaiting: Awaiting, reply: Result<WireEnvelope, remote::Error>, draft: Draft)
    requires
        vault.remote_step(awaiting, reply, Step::Store(draft)),
    ensures
        draft.spec_mode() == "mixed"@ || draft.spec_mode() == "local_only"@,
        draft.spec_mode() == "local_only"@ ==> {
            &&& vault.spec_config().mode == Mode::RemotePreferred
            &&& reply matches Err(error)
            &&& remote::is_absence(error)
            &&& draft.spec_reason() == Some(remote::error_code(error))
        },
{
    reveal_strlit("mixed");
    reveal_strlit("local_only");
    assert("mixed"@.len() == 5 && "local_only"@.len() == 10);
}

/// In a sorted journal, the record that is found without a version is the newest saved one.
pub proof fn the_newest_is_found(records: Seq<Record>, label: Seq<char>, found: int, i: int)
    requires
        journal::sorted(records),
        is_last_wanted(records, label, None, found),
        0 <= i < records.len(),
        is_wanted(records[i], label, None),
    ensures
        records[i].version <= records[found].version,
{
    crate::text::order_is_total(label, label);
    if i < found {
        assert(journal::in_order(records[i], records[found]));
    }
}

/// Whether an operation went from one record to the other by ending, with a receipt or a failure, or by the
/// deletion of its secret.
pub open spec fn is_ending(before: Record, after: Record) -> bool {
    ||| exists|completion: Completion, code: Seq<char>| #[trigger]
        completion.is_failure(before, code) && after == completion.spec_record()
    ||| exists|completion: Completion, draft: Draft, receipt: Receipt|
        draft.spec_record() == before && #[trigger] completion.is_saved(draft, receipt) && after == completion.spec_record()
    ||| after == (Record { deleted: true, ..before })
}

/// Ending an operation, with a receipt or a failure, or deleting its secret, changes neither its arguments
/// nor its version: the journal stays in order, and no version is free again.
pub proof fn endings_keep_the_journal(records: Seq<Record>, i: int, after: Record, label: Seq<char>, newest: u64)
    requires
        journal::kept(records),
        0 <= i < records.len(),
        is_newest(records, label, newest),
        is_ending(records[i], after),
    ensures
        journal::kept(records.update(i, after)),
        is_newest(records.update(i, after), label, newest),
{
    assert(after.input == records[i].input && after.version == records[i].version);
    journal::updating_keeps_the_journal(records, i, after, label, newest);
}

/// What a key is derived from is bound to its label, version, operation and size: no two secrets of local
/// randomness alone share it.
pub proof fn local_keys_are_separate(a: Record, b: Record)
    requires
        is_sound(a.input),
        is_sound(b.input),
        protocol::key_info(record_context(a), a.input.n as int, false) == protocol::key_info(record_context(b), b.input.n as int, false),
    ensures
        a.input.agrees(b.input),
        a.version == b.version,
{
    protocol::key_info_is_injective(record_context(a), record_context(b), a.input.n as int, b.input.n as int, false, false);
    crate::context::key_context_is_injective(
        a.input.label@,
        a.version as nat,
        a.input.operation_id@,
        b.input.label@,
        b.version as nat,
        b.input.operation_id@,
    );
}

/// What a mixed key is derived from is bound to the request that its contribution answers, too; and it is
/// never that of a key of local randomness alone.
pub proof fn mixed_keys_are_separate(a: Record, b: Record, request: Request, other: Request, mixed: bool)
    requires
        is_sound(a.input),
        is_sound(b.input),
        protocol::key_info(mixed_context(record_context(a), request), a.input.n as int, true) == protocol::key_info(
            if mixed {
                mixed_context(record_context(b), other)
            } else {
                record_context(b)
            },
            b.input.n as int,
            mixed,
        ),
    ensures
        mixed,
        a.input.agrees(b.input),
        a.version == b.version,
        request.id == other.id,
{
    let x = mixed_context(record_context(a), request);
    let y = if mixed {
        mixed_context(record_context(b), other)
    } else {
        record_context(b)
    };
    protocol::key_info_is_injective(x, y, a.input.n as int, b.input.n as int, true, mixed);
    let k = x.len() - 32;
    assert(x.take(k) =~= record_context(a) && x.skip(k) =~= request.id@);
    assert(y.take(k) =~= record_context(b) && y.skip(k) =~= other.id@);
    assert(request.id =~= other.id);
    crate::context::key_context_is_injective(
        a.input.label@,
        a.version as nat,
        a.input.operation_id@,
        b.input.label@,
        b.version as nat,
        b.input.operation_id@,
    );
}

/// The secret of every record that a vault starts can be stored: its name is one that the store accepts.
pub proof fn every_record_can_be_stored(record: Record)
    requires
        is_sound(record.input),
    ensures
        storage::is_entry(entry(record.input.label@, record.version as nat)),
{
    storage::entry_is_accepted(record.input.label@, record.version);
}

/// Two operations are the same only where label, size and identifier all are.
pub proof fn operations_are_compared_field_by_field(a: Input, b: Input)
    ensures
        a.agrees(b) <==> a.label@ == b.label@ && a.n == b.n && a.operation_id@ == b.operation_id@,
{
}

/// A recorded operation is answered with its own receipt exactly for the same label, size and identifier,
/// where its secret was saved, was not deleted, and has the contribution that the policy asks for.
pub proof fn receipts_answer_the_same_arguments(mode: Mode, record: Record, input: Input)
    ensures
        replayed(mode, record, input) is Ok <==> {
            &&& record.input.label@ == input.label@
            &&& record.input.n == input.n
            &&& record.input.operation_id@ == input.operation_id@
            &&& !record.deleted
            &&& record.receipt is Some
            &&& mode == Mode::RemoteRequired ==> record.receipt->0.entropy_mode@ == "mixed"@
        },
        replayed(mode, record, input) matches Ok(saved) ==> record.receipt == Some(saved),
        replayed(mode, record, input) == Err::<Saved, Seq<char>>("operation_conflict"@) <==> {
            ||| record.input.label@ != input.label@
            ||| record.input.n != input.n
            ||| record.input.operation_id@ != input.operation_id@
        },
{
    reveal_strlit("operation_conflict");
    reveal_strlit("secret_deleted");
    reveal_strlit("operation_interrupted_or_failed");
    reveal_strlit("operation_policy_conflict");
    assert("operation_conflict"@.len() == 18 && "secret_deleted"@.len() == 14);
    assert("operation_interrupted_or_failed"@.len() == 31 && "operation_policy_conflict"@.len() == 25);
}

/// Which arguments are accepted, spelled out, and which code each of the others gets.
pub proof fn arguments_are_judged_in_order(config: Config, input: Input)
    ensures
        ({
            let label = input.label@;
            let prefix = config.label_prefix@;
            let operation = input.operation_id@;
            let labelled = 1 <= label.len() <= 64 && forall|i: int| 0 <= i < label.len() ==> is_word_point(#[trigger] label[i] as int);
            let prefixed = prefix.len() <= label.len() && forall|i: int| 0 <= i < prefix.len() ==> #[trigger] label[i] == prefix[i];
            let sized = 1 <= input.n <= 64;
            let named = 1 <= operation.len() <= 128 && forall|i: int|
                0 <= i < operation.len() ==> is_word_point(#[trigger] operation[i] as int);
            argument_refusal(config, input) == if !labelled {
                Some("invalid_label"@)
            } else if !prefixed {
                Some("label_prefix_mismatch"@)
            } else if !sized {
                Some("invalid_size"@)
            } else if !named {
                Some("invalid_operation_id"@)
            } else {
                None
            }
        }),
{
    let label = input.label@;
    let prefix = config.label_prefix@;
    names_are_words(label, 64);
    names_are_words(input.operation_id@, 128);
    if prefix.is_prefix_of(label) {
        assert forall|i: int| 0 <= i < prefix.len() implies #[trigger] label[i] == prefix[i] by {
            assert(label.subrange(0, prefix.len() as int)[i] == prefix[i]);
        }
    }
    if prefix.len() <= label.len() && forall|i: int| 0 <= i < prefix.len() ==> #[trigger] label[i] == prefix[i] {
        assert(label.subrange(0, prefix.len() as int) =~= prefix);
    }
}

/// Every code that refuses the arguments blames them, and no code of a later step does.
pub proof fn only_arguments_are_blamed(config: Config, input: Input, record: Record, error: remote::Error)
    ensures
        argument_refusal(config, input) matches Some(code) ==> blames_arguments(code),
        forall|code: Seq<char>| #[trigger]
            blames_arguments(code) ==> code == "invalid_label"@ || code == "label_prefix_mismatch"@ || code == "invalid_size"@ || code
                == "invalid_operation_id"@,
        replay_refusal(record, input) matches Some(code) ==> !blames_arguments(code),
        !blames_arguments(remote::error_code(error)),
        !blames_arguments("storage_failed"@),
        !blames_arguments("entropy_unavailable"@),
        !blames_arguments("untrusted_device"@),
        !blames_arguments("secret_not_found"@),
{
    reveal_strlit("invalid_label");
    reveal_strlit("label_prefix_mismatch");
    reveal_strlit("invalid_size");
    reveal_strlit("invalid_operation_id");
    reveal_strlit("operation_conflict");
    reveal_strlit("secret_deleted");
    reveal_strlit("operation_interrupted_or_failed");
    reveal_strlit("storage_failed");
    reveal_strlit("entropy_unavailable");
    reveal_strlit("untrusted_device");
    reveal_strlit("secret_not_found");
    reveal_strlit("remote_timeout");
    reveal_strlit("remote_unavailable");
    reveal_strlit("remote_authentication_failed");
    reveal_strlit("invalid_remote_response");
    reveal_strlit("remote_transport_failed");
    reveal_strlit("remote_configuration_error");
    assert("invalid_label"@.len() == 13 && "label_prefix_mismatch"@.len() == 21);
    assert("invalid_size"@.len() == 12 && "invalid_operation_id"@.len() == 20);
    assert("operation_conflict"@.len() == 18 && "secret_deleted"@.len() == 14 && "operation_interrupted_or_failed"@.len() == 31);
    assert("storage_failed"@.len() == 14 && "entropy_unavailable"@.len() == 19 && "untrusted_device"@.len() == 16);
    assert("secret_not_found"@.len() == 16 && "remote_timeout"@.len() == 14 && "remote_unavailable"@.len() == 18);
    assert("remote_authentication_failed"@.len() == 28 && "invalid_remote_response"@.len() == 23);
    assert("remote_transport_failed"@.len() == 23 && "remote_configuration_error"@.len() == 26);
}

/// Whether a pin is that of the device that a reply names.
pub open spec fn names_pin(envelope: WireEnvelope, pin: Pin) -> bool {
    exists|key: Seq<u8>| key.len() == 32 && #[trigger] base64url_text(key) == pin.public_key@ && base64url_text(sha256_digest(key))
        == envelope.device_pk_id@
}

proof fn trusted_from(pins: Seq<Pin>, envelope: WireEnvelope, start: int, i: int)
    requires
        0 <= start <= i <= pins.len(),
        forall|j: int| start <= j < i ==> decodes((#[trigger] pins[j]).public_key@, 32),
        forall|j: int| start <= j < i ==> !names_pin(envelope, #[trigger] pins[j]),
    ensures
        trusted_key(pins, envelope, start) == trusted_key(pins, envelope, i),
    decreases i - start,
{
    if start < i {
        pin_key(envelope, pins[start]);
        assert(!names_pin(envelope, pins[start]));
        trusted_from(pins, envelope, start + 1, i);
    }
}

proof fn pin_key(envelope: WireEnvelope, pin: Pin)
    requires
        decodes(pin.public_key@, 32),
    ensures
        base64url_text(decoded(pin.public_key@)) == pin.public_key@,
        decoded(pin.public_key@).len() == 32,
        names_pin(envelope, pin) <==> base64url_text(sha256_digest(decoded(pin.public_key@))) == envelope.device_pk_id@,
{
    let key = choose|key: Seq<u8>| key.len() == 32 && #[trigger] base64url_text(key) == pin.public_key@;
    decoded_is(pin.public_key@, key);
    if names_pin(envelope, pin) {
        let other = choose|other: Seq<u8>| other.len() == 32 && #[trigger] base64url_text(other) == pin.public_key@ && base64url_text(
            sha256_digest(other),
        ) == envelope.device_pk_id@;
        decoded_is(pin.public_key@, other);
    }
}

/// A reply is refused as that of a stranger exactly where none of the pins, at whatever index, is that of the
/// device it names.
pub proof fn every_pin_is_heard(pins: Seq<Pin>, envelope: WireEnvelope)
    requires
        forall|j: int| 0 <= j < pins.len() ==> decodes((#[trigger] pins[j]).public_key@, 32),
    ensures
        trusted_key(pins, envelope, 0) == Err::<Seq<u8>, Seq<char>>("untrusted_device"@) <==> forall|j: int|
            0 <= j < pins.len() ==> !names_pin(envelope, #[trigger] pins[j]),
{
    reveal_strlit("untrusted_device");
    reveal_strlit("unapproved_firmware_metadata");
    assert("untrusted_device"@.len() == 16 && "unapproved_firmware_metadata"@.len() == 28);
    if forall|j: int| 0 <= j < pins.len() ==> !names_pin(envelope, #[trigger] pins[j]) {
        trusted_from(pins, envelope, 0, pins.len() as int);
    } else {
        let i = first_pin(pins, envelope, 0);
        the_first_pin_of_a_device_decides(pins, envelope, i);
    }
}

proof fn first_pin(pins: Seq<Pin>, envelope: WireEnvelope, start: int) -> (i: int)
    requires
        0 <= start <= pins.len(),
        exists|j: int| start <= j < pins.len() && names_pin(envelope, #[trigger] pins[j]),
        forall|j: int| 0 <= j < start ==> !names_pin(envelope, #[trigger] pins[j]),
    ensures
        start <= i < pins.len(),
        names_pin(envelope, pins[i]),
        forall|j: int| 0 <= j < i ==> !names_pin(envelope, #[trigger] pins[j]),
    decreases pins.len() - start,
{
    if names_pin(envelope, pins[start]) {
        start
    } else {
        first_pin(pins, envelope, start + 1)
    }
}

/// The first pin of the device that a reply names decides, at whatever index: with its key where it approves
/// the reply's firmware anywhere in its list, and against the reply where it does not.
pub proof fn the_first_pin_of_a_device_decides(pins: Seq<Pin>, envelope: WireEnvelope, i: int)
    requires
        0 <= i < pins.len(),
        forall|j: int| 0 <= j <= i ==> decodes((#[trigger] pins[j]).public_key@, 32),
        names_pin(envelope, pins[i]),
        forall|j: int| 0 <= j < i ==> !names_pin(envelope, #[trigger] pins[j]),
    ensures
        match trusted_key(pins, envelope, 0) {
            Ok(key) => {
                &&& key.len() == 32
                &&& base64url_text(key) == pins[i].public_key@
                &&& exists|k: int| 0 <= k < pins[i].firmware_digests@.len() && (#[trigger] pins[i].firmware_digests@[k])@ == envelope.fw_digest@
            },
            Err(code) => {
                &&& code == "unapproved_firmware_metadata"@
                &&& forall|k: int| 0 <= k < pins[i].firmware_digests@.len() ==> (#[trigger] pins[i].firmware_digests@[k])@ != envelope.fw_digest@
            },
        },
{
    trusted_from(pins, envelope, 0, i);
    pin_key(envelope, pins[i]);
}

/// A pin that holds no key ends the search where it is reached, before any pin of the device.
pub proof fn pins_without_a_key_are_not_passed(pins: Seq<Pin>, envelope: WireEnvelope, i: int)
    requires
        0 <= i < pins.len(),
        !decodes(pins[i].public_key@, 32),
        forall|j: int| 0 <= j < i ==> decodes((#[trigger] pins[j]).public_key@, 32) && !names_pin(envelope, pins[j]),
    ensures
        trusted_key(pins, envelope, 0) == Err::<Seq<u8>, Seq<char>>("invalid_pin"@),
{
    trusted_from(pins, envelope, 0, i);
}

/// A properly sealed reply of any pinned device, with a firmware that its pin approves, is mixed into the
/// secret; only a failure of the generator stands in the way.
pub proof fn pinned_devices_contribute(vault: Vault, awaiting: Awaiting, envelope: WireEnvelope, step: Step, i: int, key: Seq<u8>, remote: Seq<u8>)
    requires
        vault.remote_step(awaiting, Ok(envelope), step),
        vault.spec_config().remote is Some,
        forall|j: int| 0 <= j <= i ==> decodes((#[trigger] vault.spec_config().remote->0.pins@[j]).public_key@, 32),
        0 <= i < vault.spec_config().remote->0.pins@.len(),
        names_pin(envelope, vault.spec_config().remote->0.pins@[i]),
        forall|j: int| 0 <= j < i ==> !names_pin(envelope, #[trigger] vault.spec_config().remote->0.pins@[j]),
        exists|k: int|
            0 <= k < vault.spec_config().remote->0.pins@[i].firmware_digests@.len()
                && (#[trigger] vault.spec_config().remote->0.pins@[i].firmware_digests@[k])@ == envelope.fw_digest@,
        key.len() == 32,
        base64url_text(key) == vault.spec_config().remote->0.pins@[i].public_key@,
        contribution(awaiting.spec_pending().expected(), awaiting.spec_pending().secret(), key, envelope) == Ok::<Seq<u8>, protocol::Error>(remote),
    ensures
        step is Store || step is Finish && generator_failed(),
        step matches Step::Store(draft) ==> {
            &&& draft.spec_mode() == "mixed"@
            &&& draft.spec_reason() is None
            &&& draft.spec_record() == awaiting.spec_record()
            &&& is_mixed_draft(draft, awaiting.spec_record(), awaiting.spec_pending().expected(), remote)
        },
{
    let pins = vault.spec_config().remote->0.pins@;
    the_first_pin_of_a_device_decides(pins, envelope, i);
    let found = trusted_key(pins, envelope, 0)->Ok_0;
    decoded_is(pins[i].public_key@, key);
    decoded_is(pins[i].public_key@, found);
}

/// Without a version, the newest secret of a label that was saved and not deleted is found; a deleted or
/// unfinished one never stands in its way.
pub proof fn the_newest_saved_secret_is_revealed(records: Seq<Record>, label: Seq<char>, result: Result<Record, &'static str>)
    requires
        is_find(records, label, None, result),
    ensures
        result is Ok <==> exists|i: int|
            0 <= i < records.len() && (#[trigger] records[i]).input.label@ == label && records[i].receipt is Some && !records[i].deleted,
        result matches Err(code) ==> code@ == "secret_not_found"@,
        result matches Ok(record) ==> {
            &&& records.contains(record)
            &&& record.input.label@ == label
            &&& record.receipt is Some
            &&& !record.deleted
            &&& journal::sorted(records) ==> forall|i: int|
                0 <= i < records.len() && (#[trigger] records[i]).input.label@ == label && records[i].receipt is Some && !records[i].deleted
                    ==> records[i].version <= record.version
        },
{
    match result {
        Ok(record) => {
            let found = choose|i: int| #[trigger] is_last_wanted(records, label, None, i) && record == records[i] && !record.deleted;
            assert(records[found].input.label@ == label && records[found].receipt is Some && !records[found].deleted);
            if journal::sorted(records) {
                assert forall|i: int|
                    0 <= i < records.len() && (#[trigger] records[i]).input.label@ == label && records[i].receipt is Some
                        && !records[i].deleted implies records[i].version <= record.version by {
                    assert(is_wanted(records[i], label, None));
                    the_newest_is_found(records, label, found, i);
                }
            }
        },
        Err(code) => {
            assert forall|i: int|
                0 <= i < records.len() && (#[trigger] records[i]).input.label@ == label && records[i].receipt is Some implies records[i].deleted by {
                if !records[i].deleted {
                    assert(is_wanted(records[i], label, None));
                }
            }
        },
    }
}

/// With a version, the record of that label and that version is found; a deleted one is named as such, and
/// only what the journal does not hold is not found.
pub proof fn the_given_version_is_found(records: Seq<Record>, label: Seq<char>, version: u64, result: Result<Record, &'static str>)
    requires
        is_find(records, label, Some(version), result),
    ensures
        result matches Ok(record) ==> records.contains(record) && record.input.label@ == label && record.version == version && !record.deleted,
        result matches Err(code) ==> code@ == "secret_not_found"@ || code@ == "secret_deleted"@,
        (result matches Err(code) && code@ == "secret_not_found"@) <==> forall|i: int|
            0 <= i < records.len() ==> !((#[trigger] records[i]).input.label@ == label && records[i].version == version),
        journal::kept(records) ==> forall|i: int|
            0 <= i < records.len() && (#[trigger] records[i]).input.label@ == label && records[i].version == version ==> {
                &&& records[i].deleted ==> (result matches Err(code) && code@ == "secret_deleted"@)
                &&& !records[i].deleted ==> result == Ok::<Record, &'static str>(records[i])
            },
{
    reveal_strlit("secret_not_found");
    reveal_strlit("secret_deleted");
    assert("secret_not_found"@.len() == 16 && "secret_deleted"@.len() == 14);
    if exists|i: int| 0 <= i < records.len() && (#[trigger] records[i]).input.label@ == label && records[i].version == version {
        let i = choose|i: int| 0 <= i < records.len() && (#[trigger] records[i]).input.label@ == label && records[i].version == version;
        assert(is_wanted(records[i], label, Some(version)));
    }
    if exists|j: int| #[trigger] is_last_wanted(records, label, Some(version), j) {
        let last = choose|j: int| #[trigger] is_last_wanted(records, label, Some(version), j);
        assert(records[last].input.label@ == label && records[last].version == version);
        assert forall|j: int| #[trigger] is_last_wanted(records, label, Some(version), j) implies j == last by {
        }
    }
}

/// What a listing tells of a record, spelled out.
pub proof fn listings_tell_the_records(listed: Listed, record: Record)
    requires
        shows(listed, record),
    ensures
        listed.label@ == record.input.label@,
        listed.version == record.version,
        listed.bytes == record.input.n,
        listed.created_at == record.created_at,
        listed.status@ == "deleted"@ <==> record.deleted,
        listed.status@ == "saved"@ <==> !record.deleted && record.receipt is Some,
        listed.status@ == "incomplete"@ <==> !record.deleted && record.receipt is None,
        contents(listed.entropy_mode) == match record.receipt {
            Some(receipt) => Some(receipt.entropy_mode@),
            None => None,
        },
        contents(listed.reference) == match record.receipt {
            Some(receipt) => Some(receipt.reference@),
            None => None,
        },
{
    reveal_strlit("deleted");
    reveal_strlit("saved");
    reveal_strlit("incomplete");
    assert("deleted"@.len() == 7 && "saved"@.len() == 5 && "incomplete"@.len() == 10);
}

/// What a listing shows is what the owner's commands act on: the label and the version of an entry find the
/// very record that it shows, as saved or as deleted.
pub proof fn listed_versions_are_found(records: Seq<Record>, listed: Listed, i: int, result: Result<Record, &'static str>)
    requires
        journal::kept(records),
        0 <= i < records.len(),
        shows(listed, records[i]),
        is_find(records, listed.label@, Some(listed.version), result),
    ensures
        listed.status@ == "saved"@ ==> result == Ok::<Record, &'static str>(records[i]) && records[i].receipt is Some,
        listed.status@ == "incomplete"@ ==> result == Ok::<Record, &'static str>(records[i]) && records[i].receipt is None,
        listed.status@ == "deleted"@ ==> (result matches Err(code) && code@ == "secret_deleted"@),
{
    listings_tell_the_records(listed, records[i]);
    the_given_version_is_found(records, listed.label@, listed.version, result);
}

/// No two entries of a listing have the same label and version.
pub proof fn listed_versions_are_distinct(records: Seq<Record>, a: Listed, b: Listed, i: int, j: int)
    requires
        journal::kept(records),
        0 <= i < j < records.len(),
        shows(a, records[i]),
        shows(b, records[j]),
    ensures
        a.label@ != b.label@ || a.version != b.version,
{
    assert(records[i].input.label@ != records[j].input.label@ || records[i].version != records[j].version);
}

/// An operation that fails keeps its arguments, version and time, gets no receipt, and is answered with the
/// code that its record holds.
pub proof fn failures_are_recorded(completion: Completion, record: Record, code: Seq<char>)
    requires
        completion.is_failure(record, code),
    ensures
        completion.spec_result() matches Err(answer) && answer@ == code,
        contents(completion.spec_record().error) == Some(code),
        completion.spec_record().receipt == record.receipt,
        completion.spec_record().input == record.input,
        completion.spec_record().version == record.version,
        completion.spec_record().created_at == record.created_at,
        completion.spec_record().deleted == record.deleted,
{
}

/// A saved secret is answered with its label, its version, and what the store said of it; its record holds
/// the same receipt, and keeps everything else.
pub proof fn receipts_tell_where_the_secret_is(completion: Completion, draft: Draft, receipt: Receipt)
    requires
        completion.is_saved(draft, receipt),
    ensures
        completion.spec_result() is Ok,
        completion.spec_record().receipt == Some(completion.spec_result()->Ok_0),
        completion.spec_result()->Ok_0.reference@ == receipt.reference@,
        completion.spec_result()->Ok_0.label@ == draft.spec_record().input.label@,
        completion.spec_result()->Ok_0.version == draft.spec_record().version,
        completion.spec_result()->Ok_0.bytes == receipt.bytes,
        completion.spec_result()->Ok_0.backend@ == receipt.backend@,
        completion.spec_result()->Ok_0.entropy_mode@ == draft.spec_mode(),
        contents(completion.spec_result()->Ok_0.fallback_reason) == draft.spec_reason(),
        contents(completion.spec_result()->Ok_0.store_name) == contents(receipt.store_name),
        contents(completion.spec_result()->Ok_0.format) == Some("raw"@),
        completion.spec_record().input == draft.spec_record().input,
        completion.spec_record().version == draft.spec_record().version,
        completion.spec_record().error == draft.spec_record().error,
        completion.spec_record().created_at == draft.spec_record().created_at,
        completion.spec_record().deleted == draft.spec_record().deleted,
{
}

/// A secret without a remote contribution is derived from bytes that the generator gave, and is bound to the
/// label, the version, the operation and the size of its record.
pub proof fn local_secrets_are_drawn(draft: Draft, record: Record, reason: Option<Seq<char>>) -> (local: Drawn<32>)
    requires
        is_local_draft(draft, record, reason),
    ensures
        draft.spec_record() == record,
        draft.spec_mode() == "local_only"@,
        draft.spec_reason() == reason,
        local@.len() == 32,
        draft.spec_bytes().len() == record.input.n,
        draft.spec_bytes() == hkdf_output(
            sha256_digest(encode_utf8("mcpbytes-vault/extract/v1"@)),
            local@,
            protocol::key_info(
                key_context_bytes(record.input.label@, record.version as nat, record.input.operation_id@),
                record.input.n as int,
                false,
            ),
            record.input.n as nat,
        ),
{
    let local = choose|local: Drawn<32>|
        is_derived(draft.spec_bytes(), #[trigger] local@, seq![], record_context(record), record.input.n as int, false);
    assert(local@ + Seq::<u8>::empty() =~= local@);
    local
}

/// A mixed secret is derived from bytes that the generator gave and from the whole contribution, and is bound
/// to the request that the contribution answers, too.
pub proof fn mixed_secrets_are_drawn(draft: Draft, record: Record, request: Request, remote: Seq<u8>) -> (local: Drawn<32>)
    requires
        is_mixed_draft(draft, record, request, remote),
    ensures
        draft.spec_record() == record,
        draft.spec_mode() == "mixed"@,
        draft.spec_reason() is None,
        local@.len() == 32,
        draft.spec_bytes().len() == record.input.n,
        draft.spec_bytes() == hkdf_output(
            sha256_digest(encode_utf8("mcpbytes-vault/extract/v1"@)),
            local@ + remote,
            protocol::key_info(
                key_context_bytes(record.input.label@, record.version as nat, record.input.operation_id@) + request.id@,
                record.input.n as int,
                true,
            ),
            record.input.n as nat,
        ),
{
    choose|local: Drawn<32>|
        is_derived(
            draft.spec_bytes(),
            #[trigger] local@,
            remote,
            mixed_context(record_context(record), request),
            record.input.n as int,
            true,
        )
}

/// A service that does not answer is replaced by local randomness where the owner merely prefers it, and
/// nowhere else; every other failure ends the operation with its own code.
pub proof fn unanswered_requests(vault: Vault, awaiting: Awaiting, error: remote::Error, step: Step)
    requires
        vault.remote_step(awaiting, Err(error), step),
    ensures
        !(step is Fetch),
        vault.spec_config().mode == Mode::RemotePreferred && (error == remote::Error::Timeout || error == remote::Error::Unavailable)
            ==> step is Store || generator_failed(),
        step matches Step::Store(draft) ==> {
            &&& vault.spec_config().mode == Mode::RemotePreferred
            &&& error == remote::Error::Timeout || error == remote::Error::Unavailable
            &&& draft.spec_reason() == Some(if error == remote::Error::Timeout { "remote_timeout"@ } else { "remote_unavailable"@ })
            &&& draft.spec_mode() == "local_only"@
        },
        !(vault.spec_config().mode == Mode::RemotePreferred && (error == remote::Error::Timeout || error == remote::Error::Unavailable)) ==> step is Finish
            && step->Finish_0.spec_result() is Err && step->Finish_0.spec_result()->Err_0@ == match error {
            remote::Error::Timeout => "remote_timeout"@,
            remote::Error::Unavailable => "remote_unavailable"@,
            remote::Error::Authentication => "remote_authentication_failed"@,
            remote::Error::InvalidResponse => "invalid_remote_response"@,
            remote::Error::Transport => "remote_transport_failed"@,
            remote::Error::Configuration => "remote_configuration_error"@,
        },
{
}

/// A reply leads to a secret only where it is that of a pinned device: whatever else it holds, the operation
/// ends with a code, and never with a secret of local randomness alone.
pub proof fn replies_of_strangers_lead_nowhere(vault: Vault, awaiting: Awaiting, envelope: WireEnvelope, step: Step)
    requires
        vault.remote_step(awaiting, Ok(envelope), step),
        vault.spec_config().remote matches Some(remote) ==> forall|j: int|
            0 <= j < remote.pins@.len() ==> decodes((#[trigger] remote.pins@[j]).public_key@, 32) && !names_pin(envelope, remote.pins@[j]),
    ensures
        step matches Step::Finish(completion) && completion.spec_result() is Err,
{
    if vault.spec_config().remote is Some {
        every_pin_is_heard(vault.spec_config().remote->0.pins@, envelope);
    }
}

/// What the vault tells the agent names the owner's prefix, store and API key variable.
pub proof fn the_vault_names_its_configuration(config: Config)
    ensures
        mentions(description_words(config), config.label_prefix@),
        mentions(instruction_words(config), config.label_prefix@),
        mentions(hint_words(config, "label_prefix_mismatch"@), config.label_prefix@),
        mentions(hint_words(config, "remote_configuration_error"@), variable_of(config)),
        mentions(hint_words(config, "remote_authentication_failed"@), variable_of(config)),
        mentions(hint_words(config, "storage_failed"@), store_of(config)),
        mentions(hint_words(config, "secret_missing_from_store"@), store_of(config)),
        mentions(description_words(config), store_of(config)),
        config.mode != Mode::LocalOnly ==> mentions(description_words(config), variable_of(config)),
{
    let (prefix, store, variable) = (config.label_prefix@, store_of(config), variable_of(config));
    assert(store == backend_words(config.store) && variable == key_variable(config));
    let opening = "Generate 1–64 random bytes and save them in "@;
    let middle = ". Returns a reference, never the bytes. Labels must start with \""@;
    let rules =
        "\" and use only letters, digits, _ or - (at most 64 characters). Reuse operation_id to retry safely (no new secret, no new charge); a new operation_id creates the next version of the label. Mode "@;
    let mode = mode_words(config);
    assert(description_words(config) =~= opening + store + (middle + prefix + rules + mode));
    mentions_between(opening, store, middle + prefix + rules + mode);
    assert(description_words(config) =~= (opening + store + middle) + prefix + (rules + mode));
    mentions_between(opening + store + middle, prefix, rules + mode);
    if config.mode != Mode::LocalOnly {
        let (needs, rest) = if config.mode == Mode::RemoteRequired {
            (
                "remote_required: each new secret runs one paid MCPBytes job (price in the MCPBytes catalog) and needs the "@,
                " environment variable; the call fails when the service is unavailable."@,
            )
        } else {
            (
                "remote_preferred: each new secret runs one paid MCPBytes job (price in the MCPBytes catalog) and needs the "@,
                " environment variable; on timeout or unavailability it saves OS-only randomness and reports fallback_reason."@,
            )
        };
        let before = opening + store + middle + prefix + rules + needs;
        assert(description_words(config) =~= before + variable + rest);
        mentions_between(before, variable, rest);
    }
    hints_name_their_part(config);
    mentions_between(
        "Local vault: tools return references and metadata only. Never read, print or export a stored secret into the conversation; the owner reveals secrets with `mcpbytes-vault reveal` in their own terminal. Labels must start with \""@,
        prefix,
        "\". Reuse operation_id after an uncertain reply. If entropy_mode is local_only, the secret has no remote contribution."@,
    );
}

/// The environment variable of the API key, as the configuration names it.
pub open spec fn variable_of(config: Config) -> Seq<char> {
    if config.remote is Some {
        config.remote->0.api_key_env@
    } else {
        "MCPBYTES_API_KEY"@
    }
}

/// The store, in the words of its platform.
pub open spec fn store_of(config: Config) -> Seq<char> {
    if config.store is PrivateFile {
        "a private file"@
    } else if config.store is WindowsCredentialManager {
        "Windows Credential Manager"@
    } else if config.store is MacosKeychain {
        "the macOS Keychain"@
    } else {
        "the Linux Secret Service"@
    }
}

#[verifier::spinoff_prover]
proof fn hints_name_their_part(config: Config)
    ensures
        mentions(hint_words(config, "label_prefix_mismatch"@), config.label_prefix@),
        mentions(hint_words(config, "remote_configuration_error"@), variable_of(config)),
        mentions(hint_words(config, "remote_authentication_failed"@), variable_of(config)),
        mentions(hint_words(config, "storage_failed"@), store_of(config)),
        mentions(hint_words(config, "secret_missing_from_store"@), store_of(config)),
{
    let (store, variable) = (store_of(config), variable_of(config));
    codes_differ();
    mentions_between("label must start with \""@, config.label_prefix@, "\""@);
    mentions_between("the vault process has no valid API key in "@, variable, "; the owner must set it in the MCP client's environment"@);
    mentions_between("the MCPBytes API rejected the key in "@, variable, " or the response failed authentication; tell the owner"@);
    mentions_between(seq![], store, " refused the write (locked or unavailable)"@);
    assert(Seq::<char>::empty() + store + " refused the write (locked or unavailable)"@ =~= store
        + " refused the write (locked or unavailable)"@);
    mentions_between(
        "the vault's records list this secret but "@,
        store,
        " no longer holds it (deleted outside the vault?); run `mcpbytes-vault delete` to update the records"@,
    );
}

/// The codes that hints are looked up by, told apart by their lengths and a character.
#[verifier::spinoff_prover]
proof fn codes_differ()
    ensures
        ({
            let key = "remote_configuration_error"@;
            &&& key != "label_prefix_mismatch"@ && key != "invalid_label"@ && key != "invalid_size"@ && key != "invalid_operation_id"@
            &&& key != "operation_conflict"@ && key != "operation_interrupted_or_failed"@ && key != "operation_policy_conflict"@
            &&& key != "secret_deleted"@ && key != "vault_busy"@ && key != "remote_timeout"@ && key != "remote_unavailable"@
            &&& key != "remote_transport_failed"@
        }),
        ({
            let key = "remote_authentication_failed"@;
            &&& key != "label_prefix_mismatch"@ && key != "invalid_label"@ && key != "invalid_size"@ && key != "invalid_operation_id"@
            &&& key != "operation_conflict"@ && key != "operation_interrupted_or_failed"@ && key != "operation_policy_conflict"@
            &&& key != "secret_deleted"@ && key != "vault_busy"@ && key != "remote_timeout"@ && key != "remote_unavailable"@
            &&& key != "remote_transport_failed"@ && key != "remote_configuration_error"@
        }),
        ({
            let key = "storage_failed"@;
            &&& key != "label_prefix_mismatch"@ && key != "invalid_label"@ && key != "invalid_size"@ && key != "invalid_operation_id"@
            &&& key != "operation_conflict"@ && key != "operation_interrupted_or_failed"@ && key != "operation_policy_conflict"@
            &&& key != "secret_deleted"@ && key != "vault_busy"@ && key != "remote_timeout"@ && key != "remote_unavailable"@
            &&& key != "remote_transport_failed"@ && key != "remote_configuration_error"@ && key != "remote_authentication_failed"@
            &&& key != "untrusted_device"@ && key != "unapproved_firmware_metadata"@ && key != "invalid_remote_response"@
        }),
        ({
            let key = "secret_missing_from_store"@;
            &&& key != "label_prefix_mismatch"@ && key != "invalid_label"@ && key != "invalid_size"@ && key != "invalid_operation_id"@
            &&& key != "operation_conflict"@ && key != "operation_interrupted_or_failed"@ && key != "operation_policy_conflict"@
            &&& key != "secret_deleted"@ && key != "vault_busy"@ && key != "remote_timeout"@ && key != "remote_unavailable"@
            &&& key != "remote_transport_failed"@ && key != "remote_configuration_error"@ && key != "remote_authentication_failed"@
            &&& key != "untrusted_device"@ && key != "unapproved_firmware_metadata"@ && key != "invalid_remote_response"@
            &&& key != "storage_failed"@ && key != "entropy_unavailable"@ && key != "secret_not_found"@ && key != "remote_not_built"@
        }),
{
    reveal_strlit("remote_configuration_error");
    reveal_strlit("remote_authentication_failed");
    reveal_strlit("storage_failed");
    reveal_strlit("secret_missing_from_store");
    reveal_strlit("label_prefix_mismatch");
    reveal_strlit("invalid_label");
    reveal_strlit("invalid_size");
    reveal_strlit("invalid_operation_id");
    reveal_strlit("operation_conflict");
    reveal_strlit("operation_interrupted_or_failed");
    reveal_strlit("operation_policy_conflict");
    reveal_strlit("secret_deleted");
    reveal_strlit("vault_busy");
    reveal_strlit("remote_timeout");
    reveal_strlit("remote_unavailable");
    reveal_strlit("remote_transport_failed");
    reveal_strlit("untrusted_device");
    reveal_strlit("unapproved_firmware_metadata");
    reveal_strlit("invalid_remote_response");
    reveal_strlit("entropy_unavailable");
    reveal_strlit("secret_not_found");
    reveal_strlit("remote_not_built");
    assert("remote_configuration_error"@.len() == 26 && "remote_authentication_failed"@.len() == 28 && "storage_failed"@.len() == 14);
    assert("secret_missing_from_store"@.len() == 25 && "label_prefix_mismatch"@.len() == 21 && "invalid_label"@.len() == 13);
    assert("invalid_size"@.len() == 12 && "invalid_operation_id"@.len() == 20 && "operation_conflict"@.len() == 18);
    assert("operation_interrupted_or_failed"@.len() == 31 && "operation_policy_conflict"@.len() == 25 && "secret_deleted"@.len() == 14);
    assert("vault_busy"@.len() == 10 && "remote_timeout"@.len() == 14 && "remote_unavailable"@.len() == 18);
    assert("remote_transport_failed"@.len() == 23 && "untrusted_device"@.len() == 16 && "unapproved_firmware_metadata"@.len() == 28);
    assert("invalid_remote_response"@.len() == 23 && "entropy_unavailable"@.len() == 19 && "secret_not_found"@.len() == 16);
    assert("remote_not_built"@.len() == 16);
    assert("storage_failed"@[1] == 't' && "secret_deleted"@[1] == 'e' && "remote_timeout"@[1] == 'e');
    assert("remote_authentication_failed"@[0] == 'r' && "unapproved_firmware_metadata"@[0] == 'u');
    assert("secret_missing_from_store"@[0] == 's' && "operation_policy_conflict"@[0] == 'o');
}

/// A draft holds the secret of its own record, says where it comes from, and why it lacks a contribution.
pub proof fn drafts_hold_their_secret(draft: Draft, record: Record, bytes: Seq<u8>, mode: Seq<char>, reason: Option<Seq<char>>)
    ensures
        draft.holds(record, bytes, mode, reason) <==> draft.spec_record() == record && draft.spec_bytes() == bytes && draft.spec_mode() == mode
            && draft.spec_reason() == reason,
{
}

/// After a code that leaves the operation open the agent is told to retry with the same identifier, and after
/// one that closes it to use a new one.
#[verifier::spinoff_prover]
pub proof fn hints_tell_how_to_retry(config: Config)
    ensures
        mentions(hint_words(config, "vault_busy"@), "same operation_id"@),
        mentions(hint_words(config, "remote_timeout"@), "same operation_id"@),
        mentions(hint_words(config, "remote_unavailable"@), "same operation_id"@),
        mentions(hint_words(config, "remote_transport_failed"@), "same operation_id"@),
        mentions(hint_words(config, "operation_conflict"@), "new operation_id"@),
        mentions(hint_words(config, "operation_interrupted_or_failed"@), "new operation_id"@),
        mentions(hint_words(config, "operation_policy_conflict"@), "new operation_id"@),
        mentions(hint_words(config, "secret_deleted"@), "new operation_id"@),
{
    reveal_strlit("label_prefix_mismatch");
    reveal_strlit("invalid_label");
    reveal_strlit("invalid_size");
    reveal_strlit("invalid_operation_id");
    reveal_strlit("operation_conflict");
    reveal_strlit("operation_interrupted_or_failed");
    reveal_strlit("operation_policy_conflict");
    reveal_strlit("secret_deleted");
    reveal_strlit("vault_busy");
    reveal_strlit("remote_timeout");
    reveal_strlit("remote_unavailable");
    reveal_strlit("remote_transport_failed");
    assert("label_prefix_mismatch"@.len() == 21);
    assert("invalid_label"@.len() == 13);
    assert("invalid_size"@.len() == 12);
    assert("invalid_operation_id"@.len() == 20);
    assert("operation_conflict"@.len() == 18);
    assert("operation_interrupted_or_failed"@.len() == 31);
    assert("operation_policy_conflict"@.len() == 25);
    assert("secret_deleted"@.len() == 14);
    assert("vault_busy"@.len() == 10);
    assert("remote_timeout"@.len() == 14);
    assert("remote_unavailable"@.len() == 18);
    assert("remote_transport_failed"@.len() == 23);
    assert("secret_deleted"@[0] == 's' && "remote_timeout"@[0] == 'r');
    assert("operation_conflict"@[0] == 'o' && "remote_unavailable"@[0] == 'r');
    reveal_strlit("new operation_id");
    reveal_strlit("same operation_id");
    reveal_strlit("this operation_id was already used with a different label or n; use a new operation_id");
    assert("this operation_id was already used with a different label or n; use a new operation_id"@.subrange(70, 70int + "new operation_id"@.len()) =~= "new operation_id"@);
    reveal_strlit("an earlier attempt with this operation_id did not complete; the owner can inspect it with `mcpbytes-vault list`. Use a new operation_id for a new secret");
    assert("an earlier attempt with this operation_id did not complete; the owner can inspect it with `mcpbytes-vault list`. Use a new operation_id for a new secret"@.subrange(119, 119int + "new operation_id"@.len()) =~= "new operation_id"@);
    reveal_strlit("this operation completed without a remote contribution, which the current policy requires; use a new operation_id");
    assert("this operation completed without a remote contribution, which the current policy requires; use a new operation_id"@.subrange(97, 97int + "new operation_id"@.len()) =~= "new operation_id"@);
    reveal_strlit("the owner deleted the secret this operation_id created; use a new operation_id");
    assert("the owner deleted the secret this operation_id created; use a new operation_id"@.subrange(62, 62int + "new operation_id"@.len()) =~= "new operation_id"@);
    reveal_strlit("another vault operation is running; retry with the same operation_id");
    assert("another vault operation is running; retry with the same operation_id"@.subrange(51, 51int + "same operation_id"@.len()) =~= "same operation_id"@);
    reveal_strlit("the MCPBytes service could not be reached; retry later with the same operation_id");
    assert("the MCPBytes service could not be reached; retry later with the same operation_id"@.subrange(64, 64int + "same operation_id"@.len()) =~= "same operation_id"@);
}

/// A step with local randomness alone ends in a secret of the generator's bytes for the same record, and in
/// a failure only where the generator failed; no request is ever made.
pub proof fn local_steps_need_the_generator_alone(step: Step, record: Record, reason: Option<Seq<char>>)
    requires
        is_local_step(step, record, reason),
    ensures
        !(step is Fetch),
        step is Store || generator_failed(),
        step matches Step::Store(draft) ==> draft.spec_record() == record && draft.spec_mode() == "local_only"@ && draft.spec_reason() == reason
            && draft.spec_bytes().len() == record.input.n,
        step matches Step::Finish(completion) ==> completion.spec_record().input == record.input && completion.spec_record().receipt
            == record.receipt && contents(completion.spec_record().error) == Some("entropy_unavailable"@),
{
}

/// A reply that does not open under the pinned key ends the operation, and so does one to a vault without a
/// service; each keeps the record and names its code.
pub proof fn replies_that_do_not_open_end_the_operation(vault: Vault, awaiting: Awaiting, envelope: WireEnvelope, step: Step)
    requires
        vault.remote_step(awaiting, Ok(envelope), step),
    ensures
        vault.spec_config().remote is None ==> step is Finish && step->Finish_0.is_failure(awaiting.spec_record(), "remote_not_configured"@),
        vault.spec_config().remote matches Some(remote) ==> match trusted_key(remote.pins@, envelope, 0) {
            Ok(key) => contribution(awaiting.spec_pending().expected(), awaiting.spec_pending().secret(), key, envelope) is Err ==> step is Finish
                && step->Finish_0.is_failure(awaiting.spec_record(), "remote_authentication_failed"@),
            Err(code) => step is Finish && step->Finish_0.is_failure(awaiting.spec_record(), code),
        },
        step matches Step::Finish(completion) ==> completion.spec_result() is Err && completion.spec_record().input == awaiting.spec_record().input
            && completion.spec_record().receipt == awaiting.spec_record().receipt,
        !(step is Fetch),
{
}

/// The description of the tool ends with the vault's mode, under the name that the configuration gives it,
/// and with what the mode costs.
pub proof fn descriptions_tell_the_mode(config: Config)
    ensures
        mode_words(config).is_suffix_of(description_words(config)),
        config.mode == Mode::LocalOnly ==> "local_only: "@.is_prefix_of(mode_words(config)) && mentions(
            mode_words(config),
            "no network call and no cost"@,
        ),
        config.mode == Mode::RemoteRequired ==> "remote_required: "@.is_prefix_of(mode_words(config)) && " the call fails when the service is unavailable."@.is_suffix_of(
            mode_words(config),
        ),
        config.mode == Mode::RemotePreferred ==> "remote_preferred: "@.is_prefix_of(mode_words(config))
            && " it saves OS-only randomness and reports fallback_reason."@.is_suffix_of(mode_words(config)),
{
    let text = description_words(config);
    let mode = mode_words(config);
    assert(text.subrange(text.len() - mode.len(), text.len() as int) =~= mode);
    reveal_strlit("local_only: ");
    reveal_strlit("local_only: OS randomness only; no network call and no cost.");
    reveal_strlit("no network call and no cost");
    reveal_strlit("remote_required: ");
    reveal_strlit(
        "remote_required: each new secret runs one paid MCPBytes job (price in the MCPBytes catalog) and needs the ",
    );
    reveal_strlit(" environment variable; the call fails when the service is unavailable.");
    reveal_strlit(" the call fails when the service is unavailable.");
    reveal_strlit("remote_preferred: ");
    reveal_strlit(
        "remote_preferred: each new secret runs one paid MCPBytes job (price in the MCPBytes catalog) and needs the ",
    );
    reveal_strlit(" environment variable; on timeout or unavailability it saves OS-only randomness and reports fallback_reason.");
    reveal_strlit(" it saves OS-only randomness and reports fallback_reason.");
    match config.mode {
        Mode::LocalOnly => {
            assert(mode.subrange(0, 12) =~= "local_only: "@);
            assert(mode.subrange(32, 32int + "no network call and no cost"@.len()) =~= "no network call and no cost"@);
        },
        Mode::RemoteRequired => {
            let end = " the call fails when the service is unavailable."@;
            assert(mode.subrange(0, 17) =~= "remote_required: "@);
            assert(mode.subrange(mode.len() - end.len(), mode.len() as int) =~= end);
        },
        Mode::RemotePreferred => {
            let end = " it saves OS-only randomness and reports fallback_reason."@;
            assert(mode.subrange(0, 18) =~= "remote_preferred: "@);
            assert(mode.subrange(mode.len() - end.len(), mode.len() as int) =~= end);
        },
    }
}

} // verus!
