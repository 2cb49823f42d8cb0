//! Configuration, storage, installation, the remote service and the server: their rules one by one.
use mcpbytes_vault::app::Vault;
use mcpbytes_vault::config::{
    default_path, valid_label, validate_remote_url, Base, Config, Mode, Pin, Remote, Store,
};
use mcpbytes_vault::install::{
    self, beside_name, executable_name, initial_config, native_backend, settings, CopyOutcome, Event, FolderOutcome, Install,
    Installed, Paths, Progress, Stage, WriteOutcome, FOLDER_MODE, PROGRAM_MODE,
};
use mcpbytes_vault::journal;
use mcpbytes_vault::platform::{absolute, Build, FileFacts, Found, Ownership, Platform};
use mcpbytes_vault::protocol::encode;
use mcpbytes_vault::remote::{self, after_attempt, authorization, check_head, Body, Next};
use mcpbytes_vault::serve::{label_pattern, tool_error, FrameLimit};
use mcpbytes_vault::storage::{self, Destination, Error, FileWrite, Place};

const LINUX: Platform = Platform::Linux;

fn build(remote: bool) -> Build {
    Build { platform: LINUX, remote }
}

fn remote_settings() -> Remote {
    Remote {
        url: "https://api.mcpbytes.com/v1/sealed-random".into(),
        api_key_env: "MCPBYTES_API_KEY".into(),
        pins: vec![Pin { public_key: encode(&[1; 32]), firmware_digests: vec![encode(&[3; 32])] }],
    }
}

fn config(mode: Mode) -> Config {
    Config {
        state_dir: "/state".into(),
        store: Store::PrivateFile { directory: "/keys".into() },
        label_prefix: "agent-".into(),
        mode,
        remote: Some(remote_settings()),
    }
}

fn file() -> FileFacts {
    let ownership = Ownership { mode: 0o100600, uid: 7, euid: 7 };
    FileFacts { is_file: true, is_dir: false, is_symlink: false, len: 10, ownership: Some(ownership) }
}

fn folder(mode: u32) -> FileFacts {
    FileFacts { is_file: false, is_dir: true, ownership: Some(Ownership { mode, uid: 7, euid: 7 }), ..file() }
}

#[test]
fn configurations_are_validated() {
    assert_eq!(config(Mode::LocalOnly).validate(build(false)), Ok(()));
    assert_eq!(config(Mode::RemotePreferred).validate(build(true)), Ok(()));
    let refused = |config: Config| config.validate(build(true)).unwrap_err();
    assert_eq!(refused(Config { state_dir: "state".into(), ..config(Mode::LocalOnly) }), "invalid_config");
    assert_eq!(refused(Config { label_prefix: "a b".into(), ..config(Mode::LocalOnly) }), "invalid_config");
    let relative = Store::PrivateFile { directory: "keys".into() };
    assert_eq!(refused(Config { store: relative, ..config(Mode::LocalOnly) }), "invalid_config");
    assert_eq!(refused(Config { remote: None, ..config(Mode::RemoteRequired) }), "remote_not_configured");
    assert_eq!(config(Mode::RemoteRequired).validate(build(false)), Err("remote_not_built"));
    let with = |remote: Remote| refused(Config { remote: Some(remote), ..config(Mode::RemoteRequired) });
    assert_eq!(with(Remote { url: "https://example.com/".into(), ..remote_settings() }), "invalid_remote_url");
    for name in ["", "A-B", "É"] {
        assert_eq!(with(Remote { api_key_env: name.into(), ..remote_settings() }), "invalid_config");
    }
    assert_eq!(with(Remote { api_key_env: "A".repeat(101), ..remote_settings() }), "invalid_config");
    assert_eq!(with(Remote { pins: vec![], ..remote_settings() }), "invalid_config");
    let pins = |pin: Pin| with(Remote { pins: vec![pin], ..remote_settings() });
    assert_eq!(pins(Pin { public_key: "x".into(), firmware_digests: vec![encode(&[3; 32])] }), "invalid_pin");
    assert_eq!(pins(Pin { public_key: encode(&[0; 32]), firmware_digests: vec![encode(&[3; 32])] }), "invalid_pin");
    assert_eq!(pins(Pin { public_key: encode(&[1; 32]), firmware_digests: vec![] }), "invalid_pin");
    assert_eq!(pins(Pin { public_key: encode(&[1; 32]), firmware_digests: vec!["y".into()] }), "invalid_pin");
    let many = vec![encode(&[3; 32]); 17];
    assert_eq!(pins(Pin { public_key: encode(&[1; 32]), firmware_digests: many }), "invalid_pin");
    // What a platform says of its own paths is handed in.
    assert_eq!(config(Mode::LocalOnly).validate_with(false, true, false), Err("invalid_config"));
    assert_eq!(config(Mode::LocalOnly).validate_with(false, true, true), Ok(()));
}

#[test]
fn labels_and_addresses() {
    assert!(valid_label("agent-X_9"));
    assert!(valid_label(&"a".repeat(64)));
    for label in ["", "a b", "a#1", "é", "a."] {
        assert!(!valid_label(label));
    }
    assert!(!valid_label(&"a".repeat(65)));
    assert_eq!(validate_remote_url("https://api.mcpbytes.com/v1/sealed-random"), Ok(()));
    assert_eq!(validate_remote_url("https://api.mcpbytes.com/v1/sealed-random/"), Err("invalid_remote_url"));
    assert!(absolute(LINUX, "/") && !absolute(LINUX, "x/") && !absolute(LINUX, ""));
    assert!(absolute(Platform::Other, "/x"));
}

#[test]
fn configuration_files_are_checked() {
    assert_eq!(Config::check_file(None), Err("config_unreadable"));
    assert_eq!(Config::check_file(Some(file())), Ok(()));
    assert_eq!(Config::check_file(Some(FileFacts { len: 16384, ..file() })), Ok(()));
    assert_eq!(Config::check_file(Some(FileFacts { len: 16385, ..file() })), Err("invalid_config"));
    assert_eq!(Config::check_file(Some(FileFacts { is_symlink: true, ..file() })), Err("invalid_config"));
    assert_eq!(Config::check_file(Some(folder(0o700))), Err("invalid_config"));
    assert_eq!(Config::check_file(Some(FileFacts { ownership: None, ..file() })), Ok(()));
    for (mode, uid) in [(0o620, 7), (0o602, 7), (0o600, 8)] {
        let ownership = Some(Ownership { mode, uid, euid: 7 });
        assert_eq!(Config::check_file(Some(FileFacts { ownership, ..file() })), Err("unsafe_config_permissions"));
    }
    let readable = Some(Ownership { mode: 0o644, uid: 7, euid: 7 });
    assert_eq!(Config::check_file(Some(FileFacts { ownership: readable, ..file() })), Ok(()));
    let loaded = |read, parsed| Config::load(read, parsed, build(false)).err();
    assert_eq!(loaded(None, Some(config(Mode::LocalOnly))), Some("config_unreadable"));
    assert_eq!(loaded(Some(16385), Some(config(Mode::LocalOnly))), Some("invalid_config"));
    assert_eq!(loaded(Some(10), None), Some("invalid_config"));
    assert_eq!(loaded(Some(10), Some(config(Mode::RemoteRequired))), Some("remote_not_built"));
    assert_eq!(loaded(Some(16384), Some(config(Mode::LocalOnly))), None);
}

#[test]
fn default_locations() {
    let at = |platform, local, home, xdg| default_path(platform, local, home, xdg).map(|l| (l.base, l.below.join("|")));
    let windows = (Base::LocalAppData, "MCPBytes|Vault|config.json".to_string());
    assert_eq!(at(Platform::Windows, true, false, false), Some(windows));
    assert_eq!(at(Platform::Windows, false, true, true), None);
    let mac = (Base::Home, "Library/Application Support/MCPBytes/Vault|config.json".to_string());
    assert_eq!(at(Platform::Macos, false, true, true), Some(mac));
    let xdg = (Base::XdgDataHome, "mcpbytes-vault|config.json".to_string());
    assert_eq!(at(LINUX, false, true, true), Some(xdg));
    let home = (Base::Home, ".local/share|mcpbytes-vault|config.json".to_string());
    assert_eq!(at(Platform::Unix, false, true, false), Some(home));
    assert_eq!(at(LINUX, true, false, false), None);
    assert_eq!(at(Platform::Other, true, true, true), None);
}

#[test]
fn file_receipt_never_contains_the_secret() {
    let secret = b"TEST-ONLY-SECRET-DO-NOT-PRINT-0001";
    let destination = Destination::PrivateFile("/keys".into());
    let path = match storage::save(LINUX, &destination, "test#1", secret).ok().unwrap() {
        Place::File { directory, file } => format!("{directory}/{file}"),
        Place::Native { .. } => panic!("not a native store"),
    };
    assert_eq!(path, "/keys/test#1.key");
    let receipt = storage::file_saved(FileWrite::Done, &path, secret.len()).unwrap();
    assert!(!format!("{receipt:?}").contains("TEST-ONLY"));
    assert_eq!((receipt.bytes, receipt.backend.as_str(), receipt.store_name), (34, "private_file", None));
    assert_eq!(storage::file_read(Some(secret.to_vec())).unwrap().as_slice(), secret);
    assert!(storage::deleted(Found::Value(())).unwrap());
    assert!(!storage::deleted(Found::Missing).unwrap());
    assert_eq!(storage::check_secret_file(Found::Missing).unwrap_err(), Error::NotFound);
}

#[test]
fn broad_directory_and_symlink_are_rejected() {
    assert_eq!(storage::check_folder(Some(folder(0o40755))).unwrap_err(), Error::UnsafeDirectory);
    let link = FileFacts { is_symlink: true, is_dir: false, ..folder(0o120777) };
    assert_eq!(storage::check_folder(Some(link)).unwrap_err(), Error::UnsafeDirectory);
    assert_eq!(storage::check_folder(None).unwrap_err(), Error::UnsafeDirectory);
    assert_eq!(storage::check_folder(Some(folder(0o40700))), Ok(()));
    let strange = Some(Ownership { mode: 0o700, uid: 0, euid: 7 });
    let facts = FileFacts { ownership: strange, ..folder(0o700) };
    assert_eq!(storage::check_folder(Some(facts)).unwrap_err(), Error::UnsafeDirectory);
    assert_eq!(storage::check_folder(Some(FileFacts { ownership: None, ..folder(0) })), Ok(()));
}

#[test]
fn invalid_destinations_never_fall_back() {
    let refused = |destination: Destination| storage::save(LINUX, &destination, "test#1", &[1; 32]).err();
    assert_eq!(refused(Destination::PrivateFile("relative".into())), Some(Error::InvalidDestination));
    assert_eq!(refused(Destination::WindowsCredentialManager), Some(Error::UnsupportedPlatform));
    let on_windows = storage::save(Platform::Windows, &Destination::LinuxSecretService, "test#1", &[1; 32]);
    assert_eq!(on_windows.err(), Some(Error::UnsupportedPlatform));
    assert_eq!(refused(Destination::MacosKeychain), Some(Error::UnsupportedPlatform));
    let native = storage::save(LINUX, &Destination::LinuxSecretService, "test#1", &[1; 32]).ok().unwrap();
    assert!(matches!(native, Place::Native { backend: "linux_secret_service" }));
    let keys = Destination::PrivateFile("/keys".into());
    for bytes in [0, 65] {
        assert_eq!(storage::save(LINUX, &keys, "test#1", &vec![1; bytes]).err(), Some(Error::InvalidDestination));
    }
    for name in ["", "a/b", "..", "é"] {
        assert_eq!(storage::read(LINUX, &keys, name).err(), Some(Error::InvalidDestination));
        assert_eq!(storage::delete(LINUX, &keys, name).err(), Some(Error::InvalidDestination));
    }
    assert_eq!(storage::read(LINUX, &keys, &"a".repeat(101)).err(), Some(Error::InvalidDestination));
    assert!(storage::place_with(Platform::Windows, &keys, "a", false).is_err());
}

#[test]
fn native_items_are_never_replaced_and_always_read_back() {
    assert_eq!(storage::before_write(Found::Missing), Ok(()));
    assert_eq!(storage::before_write(Found::Value(vec![1])), Err(Error::StoreUnavailable));
    assert_eq!(storage::before_write(Found::Failed), Err(Error::StoreUnavailable));
    let saved = |platform, readback| storage::native_saved(platform, "a#1", &[1, 2], "b", readback);
    let receipt = saved(Platform::Windows, Some(vec![1, 2])).unwrap();
    assert_eq!((receipt.reference.as_str(), receipt.bytes, receipt.backend.as_str()), ("vault:mcpbytes-vault/a#1", 2, "b"));
    assert_eq!(receipt.store_name.as_deref(), Some("a#1.mcpbytes-vault"));
    assert_eq!(saved(LINUX, Some(vec![1, 2])).unwrap().store_name, None);
    assert_eq!(saved(LINUX, Some(vec![1, 3])).unwrap_err(), Error::StoreUnavailable);
    assert_eq!(saved(LINUX, None).unwrap_err(), Error::StoreUnavailable);
    assert_eq!(storage::native_read(Found::Value(vec![9])), Ok(vec![9]));
    assert_eq!(storage::native_read(Found::Missing), Err(Error::NotFound));
    assert_eq!(storage::native_read(Found::Failed), Err(Error::StoreUnavailable));
    assert_eq!(storage::deleted(Found::Failed), Err(Error::StoreUnavailable));
    assert_eq!(storage::entry_name("a", u64::MAX), "a#18446744073709551615");
}

#[test]
fn private_files_fail_step_by_step() {
    let outcome = |outcome| storage::file_saved(outcome, "/k", 1).unwrap_err();
    assert_eq!(outcome(FileWrite::NotCreated(Error::UnsafeDirectory)), Error::UnsafeDirectory);
    assert_eq!(outcome(FileWrite::NotWritten), Error::StoreUnavailable);
    assert_eq!(outcome(FileWrite::FolderNotSynced), Error::StoreUnavailable);
    assert!(FileWrite::NotWritten.removes() && !FileWrite::FolderNotSynced.removes());
    assert_eq!(storage::check_secret_file(Found::Value(file())), Ok(()));
    assert_eq!(storage::check_secret_file(Found::Value(folder(0o700))), Err(Error::UnsafeDirectory));
    assert_eq!(storage::check_secret_file(Found::Failed), Err(Error::StoreUnavailable));
    assert_eq!(storage::file_read(Some(vec![])), Err(Error::StoreUnavailable));
    assert_eq!(storage::file_read(Some(vec![0; 65])), Err(Error::StoreUnavailable));
    assert_eq!(storage::file_read(None), Err(Error::StoreUnavailable));
}

#[test]
fn state_folders_and_records_are_checked() {
    assert_eq!(journal::check_directory(None), Err("state_directory_unavailable"));
    assert_eq!(journal::check_directory(Some(folder(0o700))), Ok(()));
    assert_eq!(journal::check_directory(Some(folder(0o750))), Err("unsafe_state_directory"));
    assert_eq!(journal::check_lock(None), Err("state_unavailable"));
    assert_eq!(journal::check_lock(Some(file())), Ok(()));
    assert_eq!(journal::check_lock(Some(folder(0o700))), Err("unsafe_state_directory"));
    assert_eq!(journal::check_record(None), Err("state_unavailable"));
    assert_eq!(journal::check_record(Some(FileFacts { len: 8192, ..file() })), Ok(()));
    assert_eq!(journal::check_record(Some(FileFacts { len: 8193, ..file() })), Err("invalid_state"));
    assert_eq!(journal::read(None, None).err(), Some("state_unavailable"));
    assert_eq!(journal::read(Some(3), None).err(), Some("invalid_state"));
}

fn paths() -> Paths {
    let path = |name: &str| format!("/v/{name}");
    Paths {
        root: "/v".into(),
        state: path("state"),
        keys: path("keys"),
        config: path("config.json"),
        bin: path("bin"),
        binary: path("bin/mcpbytes-vault"),
        settings: path("mcp-server.json"),
        beside: "/v-local".into(),
    }
}

/// Runs an installation over a folder in which every action succeeds.
fn install_into(existing_config: Option<Store>, file_store: bool) -> Result<(Installed, Vec<Stage>), String> {
    let mut state: Install = install::install(LINUX, true, paths(), file_store)?;
    let mut stages = vec![];
    loop {
        stages.push(state.stage);
        let event = match state.stage {
            Stage::Marker => Event::Exists(false),
            Stage::Config => Event::Exists(existing_config.is_some()),
            Stage::Root | Stage::State | Stage::Keys | Stage::Bin => Event::Folder(FolderOutcome::Done),
            Stage::Create | Stage::Settings => Event::Written(WriteOutcome::Done),
            Stage::Load => Event::Loaded(Ok(match &existing_config {
                Some(store) => store.clone(),
                None => initial_config(LINUX, &state.paths, file_store).store,
            })),
            Stage::Binary => Event::Copied(CopyOutcome::Done),
        };
        match state.next(event)? {
            Progress::Continue(next) => state = next,
            Progress::Done(installed) => return Ok((installed, stages)),
        }
    }
}

#[test]
fn installs_once_and_keeps_the_configuration() {
    let (first, stages) = install_into(None, true).unwrap();
    assert!(first.created_config);
    assert_eq!(first.backend, "private_file");
    assert_eq!((first.binary.as_str(), first.settings.as_str()), ("/v/bin/mcpbytes-vault", "/v/mcp-server.json"));
    assert_eq!(
        stages,
        [
            Stage::Marker, Stage::Root, Stage::State, Stage::Config, Stage::Keys, Stage::Create, Stage::Load, Stage::Bin,
            Stage::Binary, Stage::Settings,
        ]
    );
    let config = initial_config(LINUX, &paths(), true);
    assert_eq!((config.mode, config.label_prefix.as_str()), (Mode::LocalOnly, "agent-"));
    assert_eq!(config.validate(build(false)), Ok(()));
    // A second run keeps the owner's configuration, whatever the options.
    let (again, stages) = install_into(Some(config.store), false).unwrap();
    assert!(!again.created_config);
    assert!(!stages.contains(&Stage::Create) && !stages.contains(&Stage::Keys));
    assert_eq!(again.backend, "private_file");
    let (native, stages) = install_into(None, false).unwrap();
    assert_eq!(native.backend, "linux_secret_service");
    assert!(!stages.contains(&Stage::Keys));
    let settings = settings(&paths());
    assert_eq!((settings.server, settings.command), ("mcpbytes-vault", first.binary));
    assert_eq!(settings.args, ["--config".to_string(), first.config]);
    assert_eq!((FOLDER_MODE, PROGRAM_MODE, storage::PRIVATE_MODE), (0o700, 0o700, 0o600));
}

#[test]
fn kept_configurations_name_their_own_store() {
    // Whatever the platform: the configuration says where its secrets go.
    for (store, backend) in [
        (Store::MacosKeychain, "macos_keychain"),
        (Store::WindowsCredentialManager, "windows_credential_manager"),
        (Store::LinuxSecretService, "linux_secret_service"),
        (Store::PrivateFile { directory: "/k".into() }, "private_file"),
    ] {
        let (done, _) = install_into(Some(store), true).unwrap();
        assert_eq!((done.backend, done.created_config), (backend, false));
    }
}

#[test]
fn folders_beside_are_named_after_the_root() {
    assert_eq!(beside_name(Some("Vault folder")), "Vault folder-local");
    assert_eq!(beside_name(None), "mcpbytes-vault-local");
}

fn at(stage: Stage) -> Install {
    Install { platform: LINUX, paths: paths(), file_store: true, stage, created_config: false, backend: "" }
}

#[test]
fn refuses_what_it_should_not_touch() {
    assert!(install::install(LINUX, false, paths(), false).is_err());
    let refusal = at(Stage::Marker).next(Event::Exists(true)).err().unwrap();
    assert!(refusal.contains("mcpbytes.com installer") && refusal.contains("nothing was changed"), "{refusal}");
    // It names a folder beside it.
    assert!(refusal.contains("/v-local"), "{refusal}");
    assert!(refusal.ends_with("(with the one-line installer: curl ... | sh -s -- --dir '/v-local')"));
    let windows = Install { platform: Platform::Windows, ..at(Stage::Marker) };
    assert!(windows.next(Event::Exists(true)).err().unwrap().contains("$env:MCPBYTES_VAULT_DIR = '/v-local' before"));
    let remote = at(Stage::Load).next(Event::Loaded(Err("remote_not_built"))).err().unwrap();
    assert!(remote.contains("remote mode"));
    let invalid = at(Stage::Load).next(Event::Loaded(Err("invalid_config"))).err().unwrap();
    assert_eq!(invalid, "invalid_config: /v/config.json");
}

#[test]
fn installation_failures_name_the_path() {
    let said = |stage, event| at(stage).next(event).err().unwrap();
    assert_eq!(said(Stage::Root, Event::Folder(FolderOutcome::Symlink)), "/v is a symlink; use a real folder");
    assert_eq!(said(Stage::State, Event::Folder(FolderOutcome::NotCreated)), "cannot create /v/state");
    assert_eq!(said(Stage::Keys, Event::Folder(FolderOutcome::NotPrivate)), "cannot make /v/keys private");
    assert_eq!(said(Stage::Bin, Event::Folder(FolderOutcome::NotCreated)), "cannot create /v/bin");
    assert_eq!(said(Stage::Create, Event::Written(WriteOutcome::NotEncoded)), "cannot write the configuration");
    assert_eq!(said(Stage::Create, Event::Written(WriteOutcome::NotCreated)), "cannot create /v/config.json");
    assert_eq!(said(Stage::Create, Event::Written(WriteOutcome::NotWritten)), "cannot write /v/config.json");
    assert_eq!(said(Stage::Binary, Event::Copied(CopyOutcome::Unlocated)), "cannot locate this executable");
    assert!(said(Stage::Binary, Event::Copied(CopyOutcome::NotReplaced)).starts_with("cannot replace /v/bin/mcpbytes-vault:"));
    assert_eq!(said(Stage::Settings, Event::Written(WriteOutcome::NotEncoded)), "cannot write the settings");
    assert_eq!(said(Stage::Settings, Event::Written(WriteOutcome::NotWritten)), "cannot write /v/mcp-server.json");
    assert_eq!(native_backend(Platform::Windows), "windows_credential_manager");
    assert_eq!(native_backend(Platform::Macos), "macos_keychain");
    assert_eq!(native_backend(Platform::Unix), "linux_secret_service");
    assert_eq!(executable_name(Platform::Windows), "mcpbytes-vault.exe");
    assert_eq!(executable_name(LINUX), "mcpbytes-vault");
}

#[test]
fn only_api_keys_are_sent() {
    let key = format!("mcpb_{}", "aZ0_-".repeat(9))[..48].to_string();
    assert_eq!(authorization(Some(&key)), Ok(format!("Bearer {key}")));
    for bad in [&key[..47], &format!("{key}a"), &format!("mcpx_{}", &key[5..]), &format!("{} ", &key[..47])] {
        assert_eq!(authorization(Some(bad)), Err(remote::Error::Configuration));
    }
    assert_eq!(authorization(None), Err(remote::Error::Configuration));
}

#[test]
fn replies_are_checked_before_they_are_read() {
    let json = Some("application/json");
    assert_eq!(check_head(200, Some(4096), json), Ok(()));
    assert_eq!(check_head(200, None, Some("application/json; charset=utf-8")), Ok(()));
    for (status, error) in [
        (408, remote::Error::Unavailable),
        (429, remote::Error::Unavailable),
        (502, remote::Error::Unavailable),
        (503, remote::Error::Unavailable),
        (504, remote::Error::Unavailable),
        (401, remote::Error::Authentication),
        (403, remote::Error::Authentication),
        (404, remote::Error::InvalidResponse),
        (302, remote::Error::InvalidResponse),
        (201, remote::Error::InvalidResponse),
    ] {
        assert_eq!(check_head(status, None, json), Err(error));
    }
    assert_eq!(check_head(200, Some(4097), json), Err(remote::Error::InvalidResponse));
    for kind in [None, Some("text/html"), Some("application/json2"), Some(" application/json")] {
        assert_eq!(check_head(200, None, kind), Err(remote::Error::InvalidResponse));
    }
    let mut body = Body::new();
    assert_eq!(body.add(&[1; 4000]), Ok(()));
    assert_eq!(body.add(&[2; 97]), Err(remote::Error::InvalidResponse));
    assert_eq!(body.add(&[2; 96]), Ok(()));
    assert_eq!(body.as_slice().len(), 4096);
    assert_eq!(remote::reply(None).err(), Some(remote::Error::InvalidResponse));
    assert_eq!(remote::transfer_failure(true), remote::Error::Timeout);
    assert_eq!(remote::transfer_failure(false), remote::Error::Transport);
    assert_eq!(remote::within_deadline(None).err(), Some(remote::Error::Timeout));
    assert_eq!(remote::within_deadline(Some(Err(remote::Error::Transport))).err(), Some(remote::Error::Transport));
}

#[test]
fn only_absent_services_are_asked_again() {
    for error in [remote::Error::Timeout, remote::Error::Unavailable] {
        assert!(error.allows_fallback());
        for attempt in [0, 1] {
            assert!(matches!(
                after_attempt(attempt, Err(error)),
                Next::Retry { milliseconds: 200, attempt: next } if next == attempt + 1
            ));
        }
        assert!(matches!(after_attempt(2, Err(error)), Next::Return(Err(last)) if last == error));
    }
    for (error, code) in [
        (remote::Error::Authentication, "remote_authentication_failed"),
        (remote::Error::InvalidResponse, "invalid_remote_response"),
        (remote::Error::Transport, "remote_transport_failed"),
        (remote::Error::Configuration, "remote_configuration_error"),
    ] {
        assert!(!error.allows_fallback());
        assert_eq!(error.code(), code);
        assert!(matches!(after_attempt(0, Err(error)), Next::Return(Err(last)) if last == error));
    }
    assert_eq!(remote::Error::Timeout.code(), "remote_timeout");
    assert_eq!(remote::Error::Unavailable.code(), "remote_unavailable");
}

#[test]
fn frames_are_bounded() {
    let mut limit = FrameLimit::new();
    assert!(limit.accept(&[b'a'; 16383]));
    assert!(limit.accept(b"\n"));
    assert!(limit.accept(&[b'a'; 10000]));
    assert!(limit.accept(&[b'a'; 6384]));
    assert!(!limit.accept(b"\n"));
    let mut limit = FrameLimit::new();
    assert!(!limit.accept(&[b'a'; 16385]));
    let mut limit = FrameLimit::new();
    assert!(limit.accept(&[b'\n'; 100_000]));
}

#[test]
fn tools_report_errors_in_fixed_words() {
    let vault = Vault::new(config(Mode::LocalOnly), build(false)).ok().unwrap();
    let error = tool_error(&vault, "invalid_size");
    assert!(error.arguments);
    assert_eq!(error.message, "invalid_size: n must be from 1 to 64");
    assert!(!tool_error(&vault, "vault_busy").arguments);
    assert_eq!(label_pattern(&vault), "^agent-[A-Za-z0-9_-]*$");
}

#[test]
fn private_files_need_a_platform_that_keeps_them_private() {
    assert_eq!(storage::check_volume(Some(storage::PERSISTENT_ACLS | 1)), Ok(()));
    assert_eq!(storage::check_volume(Some(0xffff_fff7)), Err(Error::UnsafeDirectory));
    assert_eq!(storage::check_volume(None), Err(Error::UnsafeDirectory));
    assert_eq!(storage::created(LINUX, true), Ok(()));
    assert_eq!(storage::created(Platform::Windows, false), Err(Error::StoreUnavailable));
    for opened in [true, false] {
        assert_eq!(storage::created(Platform::Other, opened), Err(Error::UnsupportedPlatform));
    }
}

#[test]
fn every_version_has_its_own_entry() {
    assert_eq!(storage::entry_name("agent-x", 12), "agent-x#12");
    assert_ne!(storage::entry_name("a1", 2), storage::entry_name("a", 12));
    // The longest label and the greatest version still name an entry.
    let longest = storage::entry_name(&"a".repeat(64), u64::MAX);
    assert!(storage::read(LINUX, &Destination::PrivateFile("/keys".into()), &longest).is_ok());
}
