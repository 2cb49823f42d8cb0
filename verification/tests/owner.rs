//! Owner commands: their arguments and what they print.
use mcpbytes_vault::app::{Input, Listed, Listing, Saved, Vault};
use mcpbytes_vault::calendar::utc;
use mcpbytes_vault::cli::{self, Args, Client, Command, Failure, Invocation, USAGE};
use mcpbytes_vault::config::{Config, Mode, Store};
use mcpbytes_vault::encoding::{base32, base64_padded, hex};
use mcpbytes_vault::install::Installed;
use mcpbytes_vault::journal::Record;
use mcpbytes_vault::owner::{confirms, percent, push_groups, shell_quote};
use mcpbytes_vault::platform::{Build, Platform};
use mcpbytes_vault::table::table;

fn vault() -> Vault {
    let config = Config {
        state_dir: "/state".into(),
        store: Store::LinuxSecretService,
        label_prefix: "agent-".into(),
        mode: Mode::LocalOnly,
        remote: None,
    };
    Vault::new(config, Build { platform: Platform::Linux, remote: false }).ok().unwrap()
}

fn words(list: &[&str]) -> Vec<String> {
    list.iter().map(|word| word.to_string()).collect()
}

fn usage(failure: Failure) -> String {
    match failure {
        Failure::Usage(message) => message,
        Failure::Vault(code) => panic!("{code}"),
    }
}

#[test]
fn encodings_match_their_standards() {
    // RFC 4648 section 10 vectors, unpadded.
    for (input, expected) in [
        ("", ""),
        ("f", "MY"),
        ("fo", "MZXQ"),
        ("foo", "MZXW6"),
        ("foob", "MZXW6YQ"),
        ("fooba", "MZXW6YTB"),
        ("foobar", "MZXW6YTBOI"),
    ] {
        assert_eq!(base32(input.as_bytes()), expected);
    }
    assert_eq!(hex(&[0x0d, 0xff, 0x00]), "0dff00");
    assert_eq!(percent("MCPBytes Vault/é"), "MCPBytes%20Vault%2F%C3%A9");
    assert_eq!(utc(0), "1970-01-01 00:00");
    assert_eq!(utc(1_700_000_000), "2023-11-14 22:13");
    assert_eq!(utc(951_782_400), "2000-02-29 00:00");
}

#[test]
fn dates_at_the_edges() {
    assert_eq!(utc(951_868_799), "2000-02-29 23:59");
    assert_eq!(utc(951_868_800), "2000-03-01 00:00");
    assert_eq!(utc(4_107_542_399), "2100-02-28 23:59");
    assert_eq!(utc(4_107_542_400), "2100-03-01 00:00");
    assert_eq!(utc(1_735_689_599), "2024-12-31 23:59");
    assert_eq!(utc(253_402_300_800), "10000-01-01 00:00");
    assert_eq!(utc(u64::MAX), "584554051223-11-09 07:00");
}

#[test]
fn texts_of_times_sort_as_times() {
    let times = [0, 59, 60, 3_599, 86_399, 86_400, 951_782_400, 951_868_800, 1_700_000_000, 4_107_542_400, 253_402_300_799];
    for pair in times.windows(2) {
        let (a, b) = (utc(pair[0]), utc(pair[1]));
        assert_eq!((a.len(), b.len()), (16, 16));
        assert!(a <= b && (a == b) == (pair[0] / 60 == pair[1] / 60), "{a} {b}");
    }
    assert_eq!(utc(253_402_300_799), "9999-12-31 23:59");
}

#[test]
fn base64_and_long_base32() {
    assert_eq!(base64_padded(b""), "");
    assert_eq!(base64_padded(b"f"), "Zg==");
    assert_eq!(base64_padded(b"fo"), "Zm8=");
    assert_eq!(base64_padded(b"foo"), "Zm9v");
    assert_eq!(base64_padded(&[0xfb, 0xff, 0xfe]), "+//+");
    assert_eq!(base32(b"Hello!\xde\xad\xbe\xef"), "JBSWY3DPEHPK3PXP");
}

#[test]
fn arguments_parse_strictly() {
    let args = |v: &[&str]| cli::parse(&v.iter().map(|s| s.to_string()).collect::<Vec<_>>());
    let parsed = args(&["agent-x", "--version", "2", "--base32", "--config", "C:/c.json"]).ok().unwrap();
    assert_eq!(parsed.label.as_deref(), Some("agent-x"));
    assert_eq!(parsed.version, Some(2));
    assert_eq!(parsed.encoding, Some("base32"));
    assert_eq!(parsed.config.as_deref(), Some("C:/c.json"));
    assert!(args(&["agent-x", "--version", "two"]).is_err());
    assert!(args(&["agent-x", "agent-y"]).is_err());
    assert!(args(&["--hex", "--base64"]).is_err());
    assert!(args(&["--version"]).is_err());
}

#[test]
fn every_argument_has_its_place() {
    let args = |v: &[&str]| cli::parse(&words(v));
    let parsed = args(&[
        "--issuer", "I", "--account", "A", "--json", "--light-terminal", "--store", "file", "--dir", "/d", "--hex", "",
    ])
    .ok()
    .unwrap();
    assert_eq!((parsed.issuer.as_deref(), parsed.account.as_deref()), (Some("I"), Some("A")));
    assert_eq!((parsed.store.as_deref(), parsed.dir.as_deref()), (Some("file"), Some("/d")));
    assert_eq!((parsed.json, parsed.light_terminal, parsed.encoding), (true, true, Some("hex")));
    assert_eq!(parsed.label.as_deref(), Some(""));
    assert_eq!(args(&["--version", "+7"]).ok().unwrap().version, Some(7));
    assert_eq!(args(&["--version", "18446744073709551615"]).ok().unwrap().version, Some(u64::MAX));
    assert_eq!(args(&["--config", "a", "--config", "--hex"]).ok().unwrap().config.as_deref(), Some("--hex"));
    for number in ["18446744073709551616", "+", "", "-1", "1 ", "99999999999999999999999"] {
        assert_eq!(args(&["--version", number]).err().unwrap(), "--version must be a number");
    }
    assert_eq!(args(&["--dir"]).err().unwrap(), "--dir needs a value");
    assert_eq!(args(&["--what"]).err().unwrap(), "unexpected argument: --what");
    assert_eq!(args(&["--hex", "--hex"]).err().unwrap(), "unexpected argument: --hex");
}

#[test]
fn invocations() {
    let of = |v: &[&str]| cli::invocation(&words(v));
    assert_eq!(of(&[]), Invocation::Refuse);
    assert_eq!(of(&["--config", "c.json"]), Invocation::Serve);
    assert_eq!(of(&["--config"]), Invocation::Refuse);
    assert_eq!(of(&["--config", "a", "b"]), Invocation::Refuse);
    assert_eq!(of(&["install"]), Invocation::Owner(Command::Install));
    assert_eq!(of(&["list", "--json"]), Invocation::Owner(Command::List));
    assert_eq!(of(&["reveal"]), Invocation::Owner(Command::Reveal));
    assert_eq!(of(&["delete"]), Invocation::Owner(Command::Delete));
    assert_eq!(of(&["totp-qr"]), Invocation::Owner(Command::TotpQr));
    for help in ["help", "--help", "-h"] {
        assert_eq!(of(&[help]), Invocation::Help);
    }
    assert_eq!(of(&["what"]), Invocation::Refuse);
}

#[test]
fn exits_name_the_problem() {
    let vault = vault();
    let exit = cli::Exit::of(&vault, Ok(()));
    assert_eq!((exit.code, exit.message), (0, None));
    let exit = cli::Exit::of(&vault, Err(Failure::Usage("no".into())));
    assert_eq!((exit.code, exit.message.as_deref()), (2, Some("mcpbytes-vault: no")));
    let exit = cli::Exit::of(&vault, Err(Failure::Vault("vault_busy")));
    assert_eq!(exit.code, 1);
    assert_eq!(
        exit.message.as_deref(),
        Some("mcpbytes-vault: vault_busy: another vault operation is running; retry with the same operation_id")
    );
    let exit = cli::Exit::bad_arguments("bad");
    assert_eq!((exit.code, exit.message), (2, Some(format!("mcpbytes-vault: bad\n\n{USAGE}"))));
    let exit = cli::Exit::bad_configuration("invalid_config", "/c");
    assert_eq!(exit.message.as_deref(), Some("mcpbytes-vault: invalid_config (/c)"));
    assert_eq!(cli::Exit::no_configuration().code, 2);
    assert_eq!(cli::Exit::no_folder().code, 2);
    assert_eq!(cli::Exit::not_installed("x").code, 1);
}

#[test]
fn terminals_and_labels_are_required() {
    assert!(cli::require_terminal("reveal", "prints a secret", true, true).is_ok());
    for (input, output) in [(true, false), (false, true), (false, false)] {
        let message = usage(cli::require_terminal("reveal", "prints a secret", input, output).unwrap_err());
        assert!(message.starts_with("reveal prints a secret, so it runs only in an interactive terminal."));
    }
    for command in [Command::Reveal, Command::Delete, Command::TotpQr] {
        assert!(cli::allow(command, true, true).is_ok());
        assert!(usage(cli::allow(command, true, false).unwrap_err()).contains("only in an interactive terminal"));
    }
    assert!(usage(cli::allow(Command::TotpQr, false, true).unwrap_err()).starts_with("totp-qr shows a secret as a QR code, so"));
    assert!(cli::allow(Command::List, false, false).is_ok() && cli::allow(Command::Install, false, false).is_ok());
    let args = Args { label: Some("x".into()), ..Args::default() };
    assert_eq!(cli::label(&args).ok(), Some("x"));
    assert_eq!(usage(cli::label(&Args::default()).unwrap_err()), format!("a label is required\n\n{USAGE}"));
}

#[test]
fn deletion_needs_a_version_and_the_label() {
    assert!(usage(cli::required_version(&Args::default()).unwrap_err()).starts_with("delete needs --version N"));
    assert_eq!(cli::required_version(&Args { version: Some(3), ..Args::default() }).ok(), Some(3));
    assert_eq!(
        cli::delete_question("a", 3),
        "Delete a version 3 permanently? Type the label to confirm: "
    );
    assert!(cli::confirmed(Some(" a\r\n"), "a").is_ok());
    assert_eq!(usage(cli::confirmed(Some("b\n"), "a").unwrap_err()), "not confirmed; nothing was deleted");
    assert_eq!(usage(cli::confirmed(None, "a").unwrap_err()), "no confirmation read");
    assert!(confirms("\u{3000}x y\u{a0}\t", "x y"));
    assert!(!confirms("x y", "xy"));
    assert!(confirms(" \n", ""));
    assert!(!confirms("", "a"));
    assert_eq!(cli::deleted_line("a", 3, true), "Deleted a version 3.");
    assert!(cli::deleted_line("a", 3, false).starts_with("a version 3 was already gone from the store;"));
}

fn record(mode: Option<&str>) -> Record {
    Record {
        input: Input { label: "agent-x".into(), n: 20, operation_id: "op".into() },
        version: 4,
        receipt: mode.map(|mode| Saved {
            reference: "r".into(),
            label: "agent-x".into(),
            version: 4,
            bytes: 20,
            backend: "b".into(),
            entropy_mode: mode.into(),
            fallback_reason: None,
            store_name: None,
            format: None,
        }),
        error: None,
        created_at: None,
        deleted: false,
    }
}

#[test]
fn secrets_are_revealed_as_asked() {
    let bytes = b"foob";
    let with = |encoding| Args { encoding, ..Args::default() };
    assert_eq!(cli::encoded(bytes, &with(None)), "666f6f62");
    assert_eq!(cli::encoded(bytes, &with(Some("hex"))), "666f6f62");
    assert_eq!(cli::encoded(bytes, &with(Some("base64"))), "Zm9vYg==");
    assert_eq!(cli::encoded(bytes, &with(Some("base32"))), "MZXW6YQ");
    assert_eq!(cli::heading(&record(Some("local_only")), bytes), "agent-x version 4 (4 bytes, local_only):");
    assert_eq!(cli::heading(&record(None), bytes), "agent-x version 4 (4 bytes, -):");
}

#[test]
fn authenticator_seeds_are_enrolled() {
    let args = Args { issuer: Some("A B".into()), ..Args::default() };
    let short = cli::totp("agent-x", 2, &[0; 15], &args).err().unwrap();
    assert_eq!(
        usage(short),
        "agent-x version 2 has 15 bytes; a TOTP seed needs at least 16 (create one with n = 20)"
    );
    let totp = cli::totp("agent-x", 2, &[0; 16], &args).ok().unwrap();
    assert_eq!(
        totp.uri,
        "otpauth://totp/A%20B:agent-x?secret=AAAAAAAAAAAAAAAAAAAAAAAAAA&issuer=A%20B&algorithm=SHA1&digits=6&period=30"
    );
    let dark = cli::qr_code(&totp, &args).ok().unwrap();
    let light = cli::qr_code(&totp, &Args { light_terminal: true, ..Args::default() }).ok().unwrap();
    // The quiet zone is blank ink on one of them, and full blocks on the other.
    assert!(dark.starts_with('█') && light.starts_with(' '));
    assert_eq!(dark.lines().count(), light.lines().count());
    assert_eq!(
        cli::totp_lines(&totp, 2, &args),
        "agent-x (A B), version 2. Scan with your authenticator app.\nIf the code does not scan, retry with --light-terminal.\nManual entry key: AAAA AAAA AAAA AAAA AAAA AAAA AA"
    );
    let args = Args { account: Some("me".into()), light_terminal: true, ..Args::default() };
    let totp = cli::totp("agent-x", 2, &[0; 20], &args).ok().unwrap();
    assert_eq!((totp.issuer.as_str(), totp.account.as_str()), ("MCPBytes Vault", "me"));
    assert!(cli::totp_lines(&totp, 2, &args).contains("retry without --light-terminal."));
    let endless = cli::Totp { uri: "x".repeat(3000), secret: String::new(), issuer: String::new(), account: String::new() };
    assert_eq!(usage(cli::qr_code(&endless, &args).unwrap_err()), "QR encoding failed");
}

#[test]
fn keys_are_grouped_by_four() {
    let in_groups = |text: &str| {
        let mut result = String::new();
        push_groups(&mut result, text);
        result
    };
    assert_eq!(in_groups(""), "");
    assert_eq!(in_groups("ABCD"), "ABCD");
    assert_eq!(in_groups("ABCDE"), "ABCD E");
    assert_eq!(in_groups("ABCDEFGHI"), "ABCD EFGH I");
    let mut text = "Key: ".to_string();
    push_groups(&mut text, "ABCDE");
    assert_eq!(text, "Key: ABCD E");
}

#[test]
fn paths_are_single_shell_words() {
    assert_eq!(shell_quote("/usr/a_b-c.d", false), "/usr/a_b-c.d");
    assert_eq!(shell_quote("C:\\x", true), "C:\\x");
    assert_eq!(shell_quote("/a b", false), "'/a b'");
    assert_eq!(shell_quote("it's", false), "'it'\\''s'");
    assert_eq!(shell_quote("it's", true), "'it''s'");
    assert_eq!(shell_quote("", false), "''");
    assert_eq!(shell_quote("é", false), "'é'");
    // A backslash quotes in a POSIX shell, and stands for itself in PowerShell.
    assert_eq!(shell_quote("/a\\b", false), "'/a\\b'");
    assert_eq!(shell_quote("\\\\host\\x", true), "\\\\host\\x");
    // PowerShell takes typographic quotes for single quotes too.
    assert_eq!(shell_quote("C:\\it’s", true), "'C:\\it’’s'");
    assert_eq!(shell_quote("/it’s", false), "'/it’s'");
    assert_eq!(shell_quote("/a$(b);c", false), "'/a$(b);c'");
}

#[test]
fn listings_are_tables() {
    let empty = Listing { label_prefix: "agent-".into(), secrets: vec![] };
    assert_eq!(table(&empty), ["No secrets yet. Labels must start with \"agent-\"."]);
    let listing = Listing {
        label_prefix: "agent-".into(),
        secrets: vec![
            Listed {
                label: "agent-é".into(),
                version: 12,
                bytes: 32,
                status: "saved",
                entropy_mode: Some("local_only".into()),
                created_at: Some(0),
                reference: None,
            },
            Listed {
                label: "agent-longer".into(),
                version: 1,
                bytes: 1,
                status: "incomplete",
                entropy_mode: None,
                created_at: None,
                reference: None,
            },
        ],
    };
    assert_eq!(
        table(&listing),
        [
            "LABEL         VERSION  BYTES  STATUS      ENTROPY     CREATED (UTC)",
            "agent-é       12       32     saved       local_only  1970-01-01 00:00",
            "agent-longer  1        1      incomplete  -           -",
        ]
    );
}

#[test]
fn installations_are_summed_up() {
    let done = Installed {
        binary: "/v/bin/mcpbytes-vault".into(),
        config: "/v/my config.json".into(),
        settings: "/v/mcp-server.json".into(),
        created_config: true,
        backend: "linux_secret_service",
    };
    let clients = vec![Client { title: "Some Client:", program: "some", options: "--transport stdio --scope user " }];
    assert_eq!(
        cli::install_command(&done, "0.2.0", &clients, false, true, Platform::Linux),
        "Installed MCPBytes Vault 0.2.0 for this user.
  Program:       /v/bin/mcpbytes-vault
  Configuration: /v/my config.json (new: local-only, linux_secret_service)

Register it with your MCP client:
  Some Client:   some mcp add --transport stdio --scope user mcpbytes-vault -- /v/bin/mcpbytes-vault --config '/v/my config.json'
  Codex:         codex mcp add mcpbytes-vault -- /v/bin/mcpbytes-vault --config '/v/my config.json'
  Other clients: the server entry in /v/mcp-server.json

The Secret Service needs an unlocked desktop keyring. On a server, install into a new folder with --store file.

Manage your secrets with: /v/bin/mcpbytes-vault list"
    );
    let kept = Installed { created_config: false, backend: "private_file", ..done };
    let text = cli::install_command(&kept, "0.2.0", &clients, true, false, Platform::Windows);
    assert!(text.contains("(kept)\n  --store only applies to a new configuration; the existing one was kept.\n"));
    assert!(text.contains("& (Get-Command some -CommandType Application | Select-Object -First 1 -ExpandProperty Source) mcp add"));
    assert!(text.ends_with("Manage your secrets with: & /v/bin/mcpbytes-vault list --config '/v/my config.json'"));
    assert!(!text.contains("Secret Service"));
    let store = |store: Option<&str>| cli::file_store(&Args { store: store.map(Into::into), ..Args::default() });
    assert_eq!(store(None).ok(), Some(false));
    assert_eq!(store(Some("native")).ok(), Some(false));
    assert_eq!(store(Some("file")).ok(), Some(true));
    let exit = store(Some("cloud")).err().unwrap();
    assert_eq!((exit.code, exit.message.as_deref()), (2, Some("mcpbytes-vault: --store is native or file, not cloud")));
}
