//! The vault, driven over a store and a journal that are kept in memory.
use mcpbytes_vault::app::{is_argument_error, Input, Listing, Resumed, Saved, Step, Vault, ARGUMENT_ERRORS};
use mcpbytes_vault::config::{Config, Mode, Pin, Remote, Store};
use mcpbytes_vault::journal::{is_record_file, record_file, Journal, Record};
use mcpbytes_vault::platform::{Build, Found, Platform};
use mcpbytes_vault::protocol::{self, WireEnvelope, WireRequest};
use mcpbytes_vault::remote;
use mcpbytes_vault::sealed::{keypair, seal};
use mcpbytes_vault::storage::{self, FileWrite, Place, Receipt};

const LINUX: Platform = Platform::Linux;

fn build() -> Build {
    Build { platform: LINUX, remote: true }
}

fn remote_config() -> Remote {
    let (_, public) = keypair(&[2; 32]);
    Remote {
        url: "https://api.mcpbytes.com/v1/sealed-random".into(),
        api_key_env: "MCPBYTES_API_KEY".into(),
        pins: vec![Pin {
            public_key: protocol::encode(&public),
            firmware_digests: vec![protocol::encode(&[3; 32])],
        }],
    }
}

fn fixture(mode: Mode) -> Config {
    Config {
        state_dir: "/root/state".into(),
        store: Store::PrivateFile { directory: "/root/keys".into() },
        label_prefix: "test-".into(),
        mode,
        remote: Some(remote_config()),
    }
}

fn input() -> Input {
    Input { label: "test-key".into(), n: 32, operation_id: "same-logical-operation".into() }
}

/// The service, as a reply to a request.
type Service = fn(&WireRequest) -> Result<WireEnvelope, remote::Error>;

fn offline(_: &WireRequest) -> Result<WireEnvelope, remote::Error> {
    Err(remote::Error::Timeout)
}

fn device(request: &WireRequest) -> Result<WireEnvelope, remote::Error> {
    let (sender, _) = keypair(&[2; 32]);
    let request = request.to_core().unwrap();
    let mut material = vec![0u8; request.n as usize];
    let envelope = seal(&request, [3; 32], &sender, &mut material, &[5; 32]).unwrap();
    assert!(material.iter().all(|b| *b == 0));
    Ok(WireEnvelope::from(&envelope))
}

/// Files, by path.
struct World {
    records: Vec<(String, Record)>,
    keys: Vec<(String, Vec<u8>)>,
    clock: u64,
    broken_store: bool,
}

impl World {
    fn new() -> Self {
        World { records: vec![], keys: vec![], clock: 1_700_000_000, broken_store: false }
    }

    fn journal(&self) -> Result<Vec<Record>, &'static str> {
        let mut journal = Journal::open(true, true)?;
        for (name, record) in &self.records {
            if is_record_file(name) {
                journal.room()?;
                journal.add(record.clone());
            }
        }
        Ok(journal.records())
    }

    fn write(&mut self, record: &Record) {
        let replacement = Journal::write(record).unwrap();
        assert!(replacement.temporary.starts_with(".tmp-") && replacement.temporary.len() == 37);
        self.records.retain(|(name, _)| *name != replacement.file);
        self.records.push((replacement.file, record.clone()));
    }

    fn path(&self, vault: &Vault, name: &str) -> Result<String, storage::Error> {
        match storage::read(LINUX, &vault.destination(), name)? {
            Place::File { directory, file } => Ok(format!("{directory}/{file}")),
            Place::Native { .. } => panic!("not a native store"),
        }
    }

    fn save(&mut self, vault: &Vault, name: &str, bytes: &[u8]) -> Result<Receipt, storage::Error> {
        if self.broken_store {
            return Err(storage::Error::StoreUnavailable);
        }
        storage::save(LINUX, &vault.destination(), name, bytes)?;
        let path = self.path(vault, name)?;
        assert!(self.keys.iter().all(|(known, _)| *known != path), "nothing is overwritten");
        self.keys.push((path.clone(), bytes.to_vec()));
        storage::file_saved(FileWrite::Done, &path, bytes.len())
    }

    fn read(&self, path: &str) -> Option<Vec<u8>> {
        self.keys.iter().find(|(known, _)| known == path).map(|(_, bytes)| bytes.clone())
    }

    fn generate(&mut self, vault: &Vault, input: Input, service: Service) -> Result<Saved, &'static str> {
        let lookup = vault.generate(input)?;
        let file = lookup.file();
        let found = self.records.iter().find(|(name, _)| *name == file).map(|(_, record)| record.clone());
        let fresh = match vault.resume(lookup, found)? {
            Resumed::Done(saved) => return Ok(saved),
            Resumed::Fresh(fresh) => fresh,
        };
        self.clock += 60;
        let begun = fresh.begin(&self.journal()?, Some(self.clock))?;
        self.write(begun.record());
        let mut step = vault.material(begun);
        if let Step::Fetch(awaiting) = step {
            let reply = service(&awaiting.request());
            step = vault.remote_material(awaiting, reply);
        }
        let completion = match step {
            Step::Fetch(_) => panic!("asked twice"),
            Step::Finish(completion) => completion,
            Step::Store(draft) => {
                let bytes = draft.bytes().to_vec();
                let outcome = self.save(vault, &draft.name(), &bytes);
                draft.stored(outcome)
            }
        };
        self.write(completion.record());
        completion.answer(true)
    }

    fn show(&self, vault: &Vault, label: &str, version: Option<u64>) -> Result<(Record, Vec<u8>), &'static str> {
        let shown = vault.reveal_secret(&self.journal()?, label, version)?;
        let path = self.path(vault, &shown.name()).map_err(|_| "storage_failed")?;
        shown.opened(self.read(&path).ok_or(storage::Error::NotFound))
    }

    fn delete(&mut self, vault: &Vault, label: &str, version: u64) -> Result<(Record, bool), &'static str> {
        let deletion = vault.delete(&self.journal()?, label, version)?;
        let path = self.path(vault, &deletion.name()).map_err(|_| "storage_failed")?;
        let before = self.keys.len();
        self.keys.retain(|(known, _)| *known != path);
        let found = if self.keys.len() < before { Found::Value(()) } else { Found::Missing };
        let (record, existed) = deletion.removed(storage::deleted(found))?;
        self.write(&record);
        Ok((record, existed))
    }

    fn list(&self, vault: &Vault) -> Listing {
        vault.list(self.journal().unwrap())
    }
}

fn local() -> (World, Vault) {
    (World::new(), Vault::new(fixture(Mode::LocalOnly), build()).ok().unwrap())
}

#[test]
fn retries_return_the_same_reference_and_rotation_does_not_overwrite() {
    let (mut world, vault) = local();
    let first = world.generate(&vault, input(), offline).unwrap();
    let repeat = world.generate(&vault, input(), offline).unwrap();
    assert_eq!(first.reference, repeat.reference);
    assert_eq!(first, repeat);
    let mut next = input();
    next.operation_id = "rotate".into();
    let second = world.generate(&vault, next, offline).unwrap();
    assert_eq!(second.version, first.version + 1);
    assert_ne!(second.reference, first.reference);
    assert_eq!(world.keys.len(), 2);
    let bytes = world.read(&first.reference).unwrap();
    let leaked = protocol::encode(&bytes);
    assert!(!format!("{first:?}").contains(&leaked));
    for (_, record) in &world.records {
        assert!(!format!("{record:?}").contains(&leaked));
    }
}

#[test]
fn fallback_is_explicit_and_never_masks_bad_authentication() {
    let cases: [(Mode, Service, bool); 4] = [
        (Mode::RemoteRequired, offline, false),
        (Mode::RemotePreferred, offline, true),
        (Mode::RemotePreferred, |_| Err(remote::Error::Authentication), false),
        (Mode::RemotePreferred, |_| Err(remote::Error::InvalidResponse), false),
    ];
    for (mode, service, success) in cases {
        let mut world = World::new();
        let vault = Vault::new(fixture(mode), build()).ok().unwrap();
        let result = world.generate(&vault, input(), service);
        assert_eq!(result.is_ok(), success);
        if let Ok(saved) = result {
            assert_eq!(saved.entropy_mode, "local_only");
            assert_eq!(saved.fallback_reason.as_deref(), Some("remote_timeout"));
        } else {
            assert!(world.keys.is_empty());
        }
    }
}

#[test]
fn requiring_remote_rejects_an_earlier_local_only_completion() {
    let (mut world, vault) = local();
    let saved = world.generate(&vault, input(), offline).unwrap();
    let required = Vault::new(fixture(Mode::RemoteRequired), build()).ok().unwrap();
    let unavailable: Service = |_| Err(remote::Error::Unavailable);
    assert_eq!(world.generate(&required, input(), unavailable).unwrap_err(), "operation_policy_conflict");
    assert!(world.read(&saved.reference).is_some());
    assert_eq!(world.keys.len(), 1);
}

#[test]
fn conflicting_ids_and_interrupted_operations_do_not_generate_again() {
    let (mut world, vault) = local();
    world.write(&Journal::begin(&vec![], &input(), None).unwrap());
    assert_eq!(
        world.generate(&vault, input(), offline).unwrap_err(),
        "operation_interrupted_or_failed"
    );
    let mut changed = input();
    changed.n = 64;
    assert_eq!(world.generate(&vault, changed, offline).unwrap_err(), "operation_conflict");
    assert_eq!(world.keys.len(), 0);
}

#[test]
fn invalid_arguments_name_the_problem_and_the_prefix() {
    let (mut world, vault) = local();
    for (change, code) in [
        (Input { label: "agent-key".into(), ..input() }, "label_prefix_mismatch"),
        (Input { label: "test-bad label".into(), ..input() }, "invalid_label"),
        (Input { n: 65, ..input() }, "invalid_size"),
        (Input { operation_id: "has space".into(), ..input() }, "invalid_operation_id"),
    ] {
        assert_eq!(world.generate(&vault, change, offline).unwrap_err(), code);
        assert!(ARGUMENT_ERRORS.contains(&code));
        assert!(is_argument_error(code));
    }
    assert!(!is_argument_error("vault_busy"));
    assert_eq!(vault.hint("label_prefix_mismatch"), "label must start with \"test-\"");
    assert!(vault.tool_description().contains("start with \"test-\""));
    assert!(vault.tool_description().contains("no network call"));
    let remote = Vault::new(fixture(Mode::RemoteRequired), build()).ok().unwrap();
    assert!(remote.tool_description().contains("paid MCPBytes job"));
    assert!(remote.tool_description().contains("MCPBYTES_API_KEY"));
}

#[test]
fn a_local_only_build_refuses_remote_modes() {
    for mode in [Mode::RemoteRequired, Mode::RemotePreferred] {
        let local_only = Build { platform: LINUX, remote: false };
        assert_eq!(Vault::new(fixture(mode), local_only).err(), Some("remote_not_built"));
    }
}

#[test]
fn list_reveal_and_delete_keep_the_journal_consistent() {
    let (mut world, vault) = local();
    let first = world.generate(&vault, input(), offline).unwrap();
    assert_eq!(first.format.as_deref(), Some("raw"));
    let second = world
        .generate(&vault, Input { operation_id: "rotate".into(), ..input() }, offline)
        .unwrap();
    let listing = world.list(&vault);
    assert_eq!(listing.label_prefix, "test-");
    assert_eq!(listing.secrets.len(), 2);
    assert!(listing.secrets.iter().all(|s| s.status == "saved" && s.created_at.is_some()));
    // The listing is metadata only.
    let stored = world.read(&first.reference).unwrap();
    assert!(!format!("{listing:?}").contains(&protocol::encode(&stored)));

    // Without a version, the newest saved one is revealed.
    let (record, bytes) = world.show(&vault, "test-key", None).unwrap();
    assert_eq!(record.version, second.version);
    assert_eq!(bytes, world.read(&second.reference).unwrap());
    assert_eq!(world.show(&vault, "test-key", Some(1)).unwrap().1, stored);
    assert_eq!(world.show(&vault, "test-none", None).err(), Some("secret_not_found"));

    let (_, existed) = world.delete(&vault, "test-key", 1).unwrap();
    assert!(existed);
    assert!(world.read(&first.reference).is_none());
    assert_eq!(world.delete(&vault, "test-key", 1).err(), Some("secret_deleted"));
    assert_eq!(world.show(&vault, "test-key", Some(1)).err(), Some("secret_deleted"));
    // A retry of the deleted operation must not return a receipt for a secret that is gone.
    assert_eq!(world.generate(&vault, input(), offline).unwrap_err(), "secret_deleted");
    // Versions are never reused after a delete.
    let third = world
        .generate(&vault, Input { operation_id: "after-delete".into(), ..input() }, offline)
        .unwrap();
    assert_eq!(third.version, 3);
    let statuses: Vec<_> = world.list(&vault).secrets.iter().map(|s| s.status).collect();
    assert_eq!(statuses, ["deleted", "saved", "saved"]);

    // A secret removed outside the vault still deletes cleanly and reveals as missing.
    world.keys.retain(|(path, _)| *path != second.reference);
    assert_eq!(world.show(&vault, "test-key", Some(2)).err(), Some("secret_missing_from_store"));
    assert!(!world.delete(&vault, "test-key", 2).unwrap().1);
}

#[test]
fn authenticated_remote_mix_is_saved_but_tampering_never_falls_back() {
    let tampered: Service = |request| {
        let mut envelope = device(request)?.to_core().unwrap();
        envelope.ciphertext[0] ^= 1;
        Ok(WireEnvelope::from(&envelope))
    };
    for (tamper, service) in [(false, device as Service), (true, tampered)] {
        let mut world = World::new();
        let vault = Vault::new(fixture(Mode::RemotePreferred), build()).ok().unwrap();
        let result = world.generate(&vault, input(), service);
        if tamper {
            assert_eq!(result.unwrap_err(), "remote_authentication_failed");
            assert_eq!(world.keys.len(), 0);
        } else {
            let receipt = result.unwrap();
            assert_eq!(receipt.entropy_mode, "mixed");
            assert!(receipt.fallback_reason.is_none());
            assert_eq!(world.read(&receipt.reference).unwrap().len(), 32);
        }
    }
}

#[test]
fn replies_of_strangers_are_refused() {
    let strange_firmware: Service = |request| {
        let mut envelope = device(request)?;
        envelope.fw_digest = protocol::encode(&[4; 32]);
        Ok(envelope)
    };
    let strange_device: Service = |request| {
        let mut envelope = device(request)?;
        envelope.device_pk_id = protocol::encode(&[4; 32]);
        Ok(envelope)
    };
    for (service, code) in [
        (strange_firmware, "unapproved_firmware_metadata"),
        (strange_device, "untrusted_device"),
        (|_: &WireRequest| Err(remote::Error::Transport), "remote_transport_failed"),
        (|_: &WireRequest| Err(remote::Error::Configuration), "remote_configuration_error"),
    ] {
        for mode in [Mode::RemotePreferred, Mode::RemoteRequired] {
            let mut world = World::new();
            let vault = Vault::new(fixture(mode), build()).ok().unwrap();
            assert_eq!(world.generate(&vault, input(), service).unwrap_err(), code);
            assert_eq!(world.records[0].1.error.as_deref(), Some(code));
            assert!(world.records[0].1.receipt.is_none() && world.keys.is_empty());
        }
    }
}

#[test]
fn failed_stores_fail_the_operation_for_good() {
    let (mut world, vault) = local();
    world.broken_store = true;
    assert_eq!(world.generate(&vault, input(), offline).unwrap_err(), "storage_failed");
    world.broken_store = false;
    assert_eq!(world.generate(&vault, input(), offline).unwrap_err(), "operation_interrupted_or_failed");
    assert_eq!(world.show(&vault, "test-key", Some(1)).err(), Some("operation_interrupted_or_failed"));
    assert_eq!(world.list(&vault).secrets[0].status, "incomplete");
    assert_eq!(world.show(&vault, "test-key", None).err(), Some("secret_not_found"));
}

#[test]
fn unwritten_completions_are_ambiguous() {
    let (mut world, vault) = local();
    let lookup = vault.generate(input()).ok().unwrap();
    let fresh = match vault.resume(lookup, None).ok().unwrap() {
        Resumed::Fresh(fresh) => fresh,
        Resumed::Done(_) => panic!("nothing was done"),
    };
    let begun = fresh.begin(&vec![], None).ok().unwrap();
    assert_eq!((begun.record().version, begun.record().created_at), (1, None));
    let draft = match vault.material(begun) {
        Step::Store(draft) => draft,
        _ => panic!("no draft"),
    };
    assert_eq!((draft.name().as_str(), draft.bytes().len()), ("test-key#1", 32));
    let bytes = draft.bytes().to_vec();
    let outcome = world.save(&vault, &draft.name(), &bytes);
    assert_eq!(draft.stored(outcome).answer(false).unwrap_err(), "completion_ambiguous");
}

#[test]
fn journals_are_limited_and_sorted() {
    let record = |label: &str, version| Record {
        input: Input { label: label.into(), n: 1, operation_id: format!("{label}{version}") },
        version,
        receipt: None,
        error: None,
        created_at: None,
        deleted: false,
    };
    assert_eq!(Journal::open(false, true).err(), Some("state_unavailable"));
    assert_eq!(Journal::open(true, false).err(), Some("vault_busy"));
    let mut journal = Journal::open(true, true).ok().unwrap();
    for (label, version) in [("b", 2), ("a", 10), ("ab", 1), ("b", 1), ("a", 9), ("B", 3)] {
        journal.add(record(label, version));
    }
    let sorted: Vec<_> = journal.records().iter().map(|r| (r.input.label.clone(), r.version)).collect();
    let expected = [("B", 3), ("a", 9), ("a", 10), ("ab", 1), ("b", 1), ("b", 2)].map(|(l, v)| (l.to_string(), v));
    assert_eq!(sorted, expected);
    assert_eq!(Journal::begin(&vec![record("a", u64::MAX)], &input(), Some(5)).unwrap().version, 1);
    let full = Input { label: "a".into(), ..input() };
    assert_eq!(Journal::begin(&vec![record("a", u64::MAX)], &full, None).err(), Some("state_capacity_reached"));
    let many: Vec<Record> = (0..10000).map(|i| record("a", i)).collect();
    assert_eq!(Journal::begin(&many, &full, None).err(), Some("state_capacity_reached"));
    let mut journal = Journal::open(true, true).ok().unwrap();
    assert!(journal.room().is_ok());
    for i in 0..10000 {
        journal.add(record("a", i));
    }
    assert_eq!(journal.room().err(), Some("state_capacity_reached"));
}

#[test]
fn record_files_are_named_by_digest() {
    assert_eq!(
        record_file("abc"),
        "op-ba7816bf8f01cfea414140de5dae2223b00361a396177a9cb410ff61f20015ad.json"
    );
    assert!(is_record_file(&record_file("abc")));
    for name in [".lock", "op-x.jso", "xop-1.json", "op-.jsonx"] {
        assert!(!is_record_file(name));
    }
    assert!(is_record_file("op-.json"));
}

#[test]
fn vaults_speak_from_their_configuration() {
    let (_, vault) = local();
    assert_eq!(vault.label_prefix(), "test-");
    assert_eq!(vault.state_dir(), "/root/state");
    assert_eq!(
        vault.tool_description(),
        "Generate 1–64 random bytes and save them in a private file. Returns a reference, never the bytes. Labels must start with \"test-\" and use only letters, digits, _ or - (at most 64 characters). Reuse operation_id to retry safely (no new secret, no new charge); a new operation_id creates the next version of the label. Mode local_only: OS randomness only; no network call and no cost."
    );
    assert!(vault.instructions().contains("Labels must start with \"test-\". Reuse operation_id"));
    let stores = [
        (Store::WindowsCredentialManager, "Windows Credential Manager"),
        (Store::MacosKeychain, "the macOS Keychain"),
        (Store::LinuxSecretService, "the Linux Secret Service"),
    ];
    for (store, words) in stores {
        let vault = Vault::new(Config { store, remote: None, ..fixture(Mode::LocalOnly) }, build()).ok().unwrap();
        assert_eq!(vault.hint("storage_failed"), format!("{words} refused the write (locked or unavailable)"));
        assert_eq!(vault.key_env(), "MCPBYTES_API_KEY");
    }
    for (code, words) in [
        ("invalid_label", "label must be 1–64 letters, digits, _ or -"),
        ("invalid_size", "n must be from 1 to 64"),
        ("invalid_operation_id", "operation_id must be 1–128 letters, digits, _ or -"),
        ("secret_deleted", "the owner deleted the secret this operation_id created; use a new operation_id"),
        ("entropy_unavailable", "the OS random generator failed"),
        ("anything else", "see the vault README"),
    ] {
        assert_eq!(vault.hint(code), words);
    }
    assert!(vault.hint("remote_configuration_error").contains("no valid API key in MCPBYTES_API_KEY;"));
    let preferred = Vault::new(fixture(Mode::RemotePreferred), build()).ok().unwrap();
    assert!(preferred.tool_description().ends_with("reports fallback_reason."));
}

fn started() -> Record {
    Journal::begin(&vec![], &input(), Some(5)).unwrap()
}

#[test]
fn records_are_written_through_new_files() {
    let mut nonce = [0u8; 16];
    nonce[0] = 0xab;
    let replacement = Journal::write_with(&started(), Some(nonce)).unwrap();
    assert_eq!(replacement.temporary, ".tmp-ab000000000000000000000000000000");
    assert_eq!(replacement.file, record_file("same-logical-operation"));
    assert_eq!(Journal::write_with(&started(), None).err(), Some("entropy_unavailable"));
    // Fresh randomness names every file anew.
    let (a, b) = (Journal::write(&started()).unwrap(), Journal::write(&started()).unwrap());
    assert_ne!(a.temporary, b.temporary);
    assert_eq!((a.temporary.len(), &a.file), (37, &b.file));
    assert!(!is_record_file(&a.temporary) && is_record_file(&a.file));
}

#[test]
fn derivations_lead_to_drafts_or_failures() {
    let failure = |step| match step {
        Step::Finish(completion) => (completion.record().error.clone(), completion.answer(true).unwrap_err()),
        _ => panic!("no failure"),
    };
    let (error, code) = failure(Step::local(started(), Err(protocol::Error::EntropyUnavailable), None));
    assert_eq!((error.as_deref(), code), (Some("entropy_unavailable"), "entropy_unavailable"));
    let (error, code) = failure(Step::mixed(started(), Err(protocol::Error::EntropyUnavailable)));
    assert_eq!((error.as_deref(), code), (Some("remote_authentication_failed"), "remote_authentication_failed"));
    let saved = |step| match step {
        Step::Store(draft) => {
            assert_eq!(draft.bytes(), [7, 8]);
            let receipt = Receipt { reference: "r".into(), bytes: 2, backend: "b".into(), store_name: None };
            draft.stored(Ok(receipt)).answer(true).unwrap()
        }
        _ => panic!("no draft"),
    };
    let local = saved(Step::local(started(), Ok(vec![7, 8]), Some("remote_timeout".into())));
    assert_eq!((local.entropy_mode.as_str(), local.fallback_reason.as_deref()), ("local_only", Some("remote_timeout")));
    let mixed = saved(Step::mixed(started(), Ok(vec![7, 8])));
    assert_eq!((mixed.entropy_mode.as_str(), mixed.fallback_reason), ("mixed", None));
    assert_eq!((mixed.version, mixed.bytes, mixed.format.as_deref()), (1, 2, Some("raw")));
}

#[test]
fn the_same_version_may_be_read_twice() {
    let mut journal = Journal::open(true, true).ok().unwrap();
    for n in [1, 2, 3] {
        journal.add(Record { input: Input { n, ..input() }, ..started() });
    }
    assert_eq!(journal.records().iter().map(|r| r.input.n).collect::<Vec<_>>(), [1, 2, 3]);
    assert_eq!(Journal::open(true, true).ok().unwrap().records().len(), 0);
}
