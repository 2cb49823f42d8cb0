//! Owner commands: their arguments, and what they print. `reveal`, `delete` and `totp-qr` run only in an
//! interactive terminal, so that an agent's shell tool cannot use them by accident. That is a speed bump,
//! not a boundary: another program of the same user can read the store.
use crate::app::{hint_words, Vault};
use crate::encoding::{base32, base32_text, base64_padded, base64_text, hex, hex_text};
use crate::install::Installed;
use crate::journal::Record;
use crate::owner::{confirms, escaped, grouped, percent, push_groups, shell_quote, shell_word, trimmed};
use crate::platform::Platform;
use crate::text::{
    chars, contents, decimal, decimal_is_digits, decimal_text, mentions, mentions_between, mentions_within, room_for, same, space_pad, space_padded, starts_with,
};
use qrcode::render::unicode::Dense1x2;
use vstd::prelude::*;
use vstd::utf8::encode_utf8;

verus! {

/// How the program is called.
pub const USAGE: &'static str = "Usage:
  mcpbytes-vault install [--store native|file] [--dir <folder>]
      Install this executable for your user: a local-only configuration (created once, then kept)
      and the settings for your MCP client.
  mcpbytes-vault --config <config.json>
      Run the MCP server (your MCP client starts this).
  mcpbytes-vault list [--json] [--config <path>]
      Labels, versions and dates of your secrets. Never shows values.
  mcpbytes-vault reveal <label> [--version N] [--hex | --base64 | --base32] [--config <path>]
      Print a secret (default: the newest saved version, as hex).
  mcpbytes-vault delete <label> --version N [--config <path>]
      Delete one version permanently, after you type the label to confirm.
  mcpbytes-vault totp-qr <label> [--version N] [--issuer NAME] [--account NAME] [--light-terminal] [--config <path>]
      Show an authenticator-app QR code for a TOTP seed (create it with n = 20).

reveal, delete and totp-qr work only in an interactive terminal. Without --config, the
installer's location is used.";

/// The arguments of an owner command.
pub struct Args {
    pub label: Option<String>,
    pub version: Option<u64>,
    pub config: Option<String>,
    pub encoding: Option<&'static str>,
    pub issuer: Option<String>,
    pub account: Option<String>,
    pub json: bool,
    pub light_terminal: bool,
    pub store: Option<String>,
    pub dir: Option<String>,
}

/// The arguments of an owner command, as texts.
#[verifier::ext_equal]
pub struct ArgsView {
    pub label: Option<Seq<char>>,
    pub version: Option<u64>,
    pub config: Option<Seq<char>>,
    pub encoding: Option<Seq<char>>,
    pub issuer: Option<Seq<char>>,
    pub account: Option<Seq<char>>,
    pub json: bool,
    pub light_terminal: bool,
    pub store: Option<Seq<char>>,
    pub dir: Option<Seq<char>>,
}

impl View for Args {
    type V = ArgsView;

    open spec fn view(&self) -> ArgsView {
        ArgsView {
            label: contents(self.label),
            version: self.version,
            config: contents(self.config),
            encoding: match self.encoding {
                Some(encoding) => Some(encoding@),
                None => None,
            },
            issuer: contents(self.issuer),
            account: contents(self.account),
            json: self.json,
            light_terminal: self.light_terminal,
            store: contents(self.store),
            dir: contents(self.dir),
        }
    }
}

/// No arguments.
pub open spec fn no_args() -> ArgsView {
    ArgsView {
        label: None,
        version: None,
        config: None,
        encoding: None,
        issuer: None,
        account: None,
        json: false,
        light_terminal: false,
        store: None,
        dir: None,
    }
}

impl Default for Args {
    fn default() -> (args: Self)
        ensures
            args@ == no_args(),
    {
        Args {
            label: None,
            version: None,
            config: None,
            encoding: None,
            issuer: None,
            account: None,
            json: false,
            light_terminal: false,
            store: None,
            dir: None,
        }
    }
}

/// The value of decimal digits.
pub open spec fn digits_value(digits: Seq<char>) -> nat
    decreases digits.len(),
{
    if digits.len() == 0 {
        0
    } else {
        (digits_value(digits.drop_last()) * 10 + (digits.last() as int - '0' as int)) as nat
    }
}

/// Whether a text is one or more decimal digits.
pub open spec fn is_digits(text: Seq<char>) -> bool {
    text.len() >= 1 && forall|i: int| 0 <= i < text.len() ==> '0' <= #[trigger] text[i] <= '9'
}

/// A number of 64 bits in decimal, with an optional plus sign.
pub open spec fn number(text: Seq<char>) -> Option<u64> {
    let digits = if text.len() > 0 && text[0] == '+' {
        text.skip(1)
    } else {
        text
    };
    if is_digits(digits) && digits_value(digits) <= u64::MAX {
        Some(digits_value(digits) as u64)
    } else {
        None
    }
}

/// More digits never make a smaller number.
proof fn digits_grow(digits: Seq<char>, i: int)
    requires
        is_digits(digits),
        0 <= i <= digits.len(),
    ensures
        digits_value(digits.take(i)) <= digits_value(digits),
    decreases digits.len() - i,
{
    if i < digits.len() {
        assert(digits.take(i + 1).drop_last() =~= digits.take(i));
        assert(digits.take(i + 1).last() == digits[i]);
        digits_grow(digits, i + 1);
    } else {
        assert(digits.take(i) =~= digits);
    }
}

/// A number of 64 bits in decimal.
#[verifier::loop_isolation(false)]
fn parse_number(text: &str) -> (result: Option<u64>)
    ensures
        result == number(text@),
{
    let all = chars(text);
    let start: usize = if all.len() > 0 && all[0] == '+' {
        1
    } else {
        0
    };
    let ghost digits = all@.skip(start as int);
    assert(start == 0 ==> digits =~= text@);
    if all.len() == start {
        return None;
    }
    let mut value: u64 = 0;
    let mut i: usize = start;
    while i < all.len()
        invariant
            start <= i <= all@.len(),
            forall|j: int| 0 <= j < i - start ==> '0' <= #[trigger] digits[j] <= '9',
            value == digits_value(digits.take(i - start)),
        decreases all@.len() - i,
    {
        let c: char = all[i];
        assert(c == digits[i - start]);
        if c < '0' || c > '9' {
            return None;
        }
        let digit: u64 = c as u64 - 48;
        proof {
            assert(digits.take(i + 1 - start).drop_last() =~= digits.take(i - start));
            assert(digits.take(i + 1 - start).last() == digits[i - start]);
            if is_digits(digits) {
                digits_grow(digits, i + 1 - start);
            }
        }
        if value > (u64::MAX - digit) / 10 {
            return None;
        }
        value = value * 10 + digit;
        i += 1;
    }
    assert(digits.take(all@.len() - start) =~= digits);
    Some(value)
}

/// Whether an argument is followed by a value.
pub open spec fn takes_value(arg: Seq<char>) -> bool {
    ||| arg == "--config"@
    ||| arg == "--version"@
    ||| arg == "--issuer"@
    ||| arg == "--account"@
    ||| arg == "--store"@
    ||| arg == "--dir"@
}

/// The arguments with one that is followed by a value.
pub open spec fn with_value(args: ArgsView, arg: Seq<char>, value: Seq<char>) -> Result<ArgsView, Seq<char>> {
    if arg == "--config"@ {
        Ok(ArgsView { config: Some(value), ..args })
    } else if arg == "--version"@ {
        match number(value) {
            Some(version) => Ok(ArgsView { version: Some(version), ..args }),
            None => Err("--version must be a number"@),
        }
    } else if arg == "--issuer"@ {
        Ok(ArgsView { issuer: Some(value), ..args })
    } else if arg == "--account"@ {
        Ok(ArgsView { account: Some(value), ..args })
    } else if arg == "--store"@ {
        Ok(ArgsView { store: Some(value), ..args })
    } else {
        Ok(ArgsView { dir: Some(value), ..args })
    }
}

/// The arguments with one that stands alone.
pub open spec fn with_flag(args: ArgsView, arg: Seq<char>) -> Result<ArgsView, Seq<char>> {
    if (arg == "--hex"@ || arg == "--base64"@ || arg == "--base32"@) && args.encoding is None {
        Ok(ArgsView { encoding: Some(arg.skip(2)), ..args })
    } else if arg == "--json"@ {
        Ok(ArgsView { json: true, ..args })
    } else if arg == "--light-terminal"@ {
        Ok(ArgsView { light_terminal: true, ..args })
    } else if !(arg.len() > 0 && arg[0] == '-') && args.label is None {
        Ok(ArgsView { label: Some(arg), ..args })
    } else {
        Err("unexpected argument: "@ + arg)
    }
}

/// The arguments of an owner command, from left to right, or what is wrong with the first bad one.
pub open spec fn parsed(args: Seq<Seq<char>>, so_far: ArgsView) -> Result<ArgsView, Seq<char>>
    decreases args.len(),
{
    if args.len() == 0 {
        Ok(so_far)
    } else if takes_value(args[0]) {
        if args.len() == 1 {
            Err(args[0] + " needs a value"@)
        } else {
            match with_value(so_far, args[0], args[1]) {
                Ok(next) => parsed(args.skip(2), next),
                Err(message) => Err(message),
            }
        }
    } else {
        match with_flag(so_far, args[0]) {
            Ok(next) => parsed(args.skip(1), next),
            Err(message) => Err(message),
        }
    }
}

/// The texts of the arguments.
pub open spec fn texts(args: Seq<String>) -> Seq<Seq<char>> {
    args.map_values(|arg: String| arg@)
}

/// Adds an argument that is followed by a value.
fn set_value(args: &mut Args, arg: &str, value: &String) -> (result: Result<(), String>)
    requires
        takes_value(arg@),
    ensures
        match (result, with_value(old(args)@, arg@, value@)) {
            (Ok(()), Ok(expected)) => final(args)@ == expected,
            (Err(message), Err(expected)) => message@ == expected,
            _ => false,
        },
{
    if same(arg, "--config") {
        args.config = Some(value.clone());
    } else if same(arg, "--version") {
        match parse_number(value.as_str()) {
            Some(version) => args.version = Some(version),
            None => return Err("--version must be a number".to_owned()),
        }
    } else if same(arg, "--issuer") {
        args.issuer = Some(value.clone());
    } else if same(arg, "--account") {
        args.account = Some(value.clone());
    } else if same(arg, "--store") {
        args.store = Some(value.clone());
    } else {
        args.dir = Some(value.clone());
    }
    Ok(())
}

/// Adds an argument that stands alone.
fn set_flag(args: &mut Args, arg: &String) -> (result: Result<(), String>)
    ensures
        match (result, with_flag(old(args)@, arg@)) {
            (Ok(()), Ok(expected)) => final(args)@ == expected,
            (Err(message), Err(expected)) => message@ == expected,
            _ => false,
        },
{
    let text = arg.as_str();
    proof {
        reveal_strlit("--hex");
        reveal_strlit("--base64");
        reveal_strlit("--base32");
        reveal_strlit("hex");
        reveal_strlit("base64");
        reveal_strlit("base32");
        reveal_strlit("-");
        assert("--hex"@.skip(2) =~= "hex"@);
        assert("--base64"@.skip(2) =~= "base64"@);
        assert("--base32"@.skip(2) =~= "base32"@);
        assert("-"@.is_prefix_of(arg@) <==> arg@.len() > 0 && arg@[0] == '-') by {
            if arg@.len() > 0 && arg@[0] == '-' {
                assert("-"@ =~= arg@.subrange(0, 1));
            }
            if "-"@.is_prefix_of(arg@) {
                assert(arg@.subrange(0, 1)[0] == "-"@[0]);
            }
        }
    }
    let is_hex: bool = same(text, "--hex");
    let is_base64: bool = same(text, "--base64");
    let is_base32: bool = same(text, "--base32");
    if (is_hex || is_base64 || is_base32) && args.encoding.is_none() {
        args.encoding = Some(
            if is_hex {
                "hex"
            } else if is_base64 {
                "base64"
            } else {
                "base32"
            },
        );
    } else if same(text, "--json") {
        args.json = true;
    } else if same(text, "--light-terminal") {
        args.light_terminal = true;
    } else if !starts_with(text, "-") && args.label.is_none() {
        args.label = Some(arg.clone());
    } else {
        let mut message = "unexpected argument: ".to_owned();
        message.append(text);
        return Err(message);
    }
    Ok(())
}

/// Reads the arguments of an owner command.
#[verifier::loop_isolation(false)]
pub fn parse(args: &Vec<String>) -> (result: Result<Args, String>)
    ensures
        match (result, parsed(texts(args@), no_args())) {
            (Ok(args), Ok(expected)) => args@ == expected,
            (Err(message), Err(expected)) => message@ == expected,
            _ => false,
        },
{
    let mut so_far = Args::default();
    let mut i: usize = 0;
    let ghost all = texts(args@);
    assert(all.skip(0) =~= all);
    while i < args.len()
        invariant
            i <= args@.len(),
            parsed(all, no_args()) == parsed(all.skip(i as int), so_far@),
        decreases args@.len() - i,
    {
        let arg = &args[i];
        let text = arg.as_str();
        let ghost rest = all.skip(i as int);
        assert(rest[0] == arg@);
        if same(text, "--config") || same(text, "--version") || same(text, "--issuer") || same(text, "--account") || same(
            text,
            "--store",
        ) || same(text, "--dir") {
            if args.len() - i == 1 {
                let mut message = arg.clone();
                message.append(" needs a value");
                return Err(message);
            }
            assert(rest[1] == args@[i + 1]@);
            if let Err(message) = set_value(&mut so_far, text, &args[i + 1]) {
                return Err(message);
            }
            assert(rest.skip(2) =~= all.skip(i + 2));
            i += 2;
        } else {
            if let Err(message) = set_flag(&mut so_far, arg) {
                return Err(message);
            }
            assert(rest.skip(1) =~= all.skip(i + 1));
            i += 1;
        }
    }
    Ok(so_far)
}

/// An owner command.
#[derive(Clone, Copy, Debug, PartialEq, Eq, Structural)]
pub enum Command {
    Install,
    List,
    Reveal,
    Delete,
    TotpQr,
}

/// What the program is called for.
#[derive(Clone, Copy, Debug, PartialEq, Eq, Structural)]
pub enum Invocation {
    /// The server, with the configuration that the second argument names.
    Serve,
    /// An owner command, with the arguments behind the first.
    Owner(Command),
    Help,
    /// Something that the usage does not name.
    Refuse,
}

/// What the program is called for.
pub open spec fn invoked(args: Seq<Seq<char>>) -> Invocation {
    if args.len() == 0 {
        Invocation::Refuse
    } else if args[0] == "--config"@ && args.len() == 2 {
        Invocation::Serve
    } else if args[0] == "install"@ {
        Invocation::Owner(Command::Install)
    } else if args[0] == "list"@ {
        Invocation::Owner(Command::List)
    } else if args[0] == "reveal"@ {
        Invocation::Owner(Command::Reveal)
    } else if args[0] == "delete"@ {
        Invocation::Owner(Command::Delete)
    } else if args[0] == "totp-qr"@ {
        Invocation::Owner(Command::TotpQr)
    } else if args[0] == "help"@ || args[0] == "--help"@ || args[0] == "-h"@ {
        Invocation::Help
    } else {
        Invocation::Refuse
    }
}

/// What the program is called for, given its arguments without its own name.
pub fn invocation(args: &Vec<String>) -> (result: Invocation)
    ensures
        result == invoked(texts(args@)),
{
    if args.len() == 0 {
        return Invocation::Refuse;
    }
    assert(texts(args@)[0] == args@[0]@);
    let first = args[0].as_str();
    if same(first, "--config") && args.len() == 2 {
        Invocation::Serve
    } else if same(first, "install") {
        Invocation::Owner(Command::Install)
    } else if same(first, "list") {
        Invocation::Owner(Command::List)
    } else if same(first, "reveal") {
        Invocation::Owner(Command::Reveal)
    } else if same(first, "delete") {
        Invocation::Owner(Command::Delete)
    } else if same(first, "totp-qr") {
        Invocation::Owner(Command::TotpQr)
    } else if same(first, "help") || same(first, "--help") || same(first, "-h") {
        Invocation::Help
    } else {
        Invocation::Refuse
    }
}

/// Why an owner command failed.
#[derive(Debug)]
pub enum Failure {
    Usage(String),
    Vault(&'static str),
}

impl Failure {
    /// Whether this tells the owner how to use the command, in these words.
    pub open spec fn says(self, message: Seq<char>) -> bool {
        self matches Failure::Usage(text) && text@ == message
    }
}

/// How the program ends: its exit code, and what it prints to the standard error.
#[derive(Debug)]
pub struct Exit {
    pub code: i32,
    pub message: Option<String>,
}

impl Exit {
    /// Whether the program ends with this code and these words.
    pub open spec fn is(self, code: i32, message: Seq<char>) -> bool {
        self.code == code && contents(self.message) == Some("mcpbytes-vault: "@ + message)
    }

    /// Ends with a code and a message.
    fn with(code: i32, message: &str) -> (exit: Self)
        ensures
            exit.is(code, message@),
    {
        let mut text = "mcpbytes-vault: ".to_owned();
        text.append(message);
        Exit { code, message: Some(text) }
    }

    /// The arguments could not be read.
    pub fn bad_arguments(message: &str) -> (exit: Self)
        ensures
            exit.is(2, message@ + "\n\n"@ + USAGE@),
    {
        let mut text = message.to_owned();
        text.append("\n\n");
        text.append(USAGE);
        Exit::with(2, text.as_str())
    }

    /// No configuration was given, and there is no default one.
    pub fn no_configuration() -> (exit: Self)
        ensures
            exit.is(2, "no --config given and no default location on this system"@),
    {
        Exit::with(2, "no --config given and no default location on this system")
    }

    /// The configuration at a path is refused.
    pub fn bad_configuration(code: &str, path: &str) -> (exit: Self)
        ensures
            exit.is(2, code@ + " ("@ + path@ + ")"@),
    {
        let mut text = code.to_owned();
        text.append(" (");
        text.append(path);
        text.append(")");
        Exit::with(2, text.as_str())
    }

    /// There is no folder to install into.
    pub fn no_folder() -> (exit: Self)
        ensures
            exit.is(2, "no default install folder on this system; pass --dir <folder>"@),
    {
        Exit::with(2, "no default install folder on this system; pass --dir <folder>")
    }

    /// The installation failed.
    pub fn not_installed(message: &str) -> (exit: Self)
        ensures
            exit.is(1, message@),
    {
        Exit::with(1, message)
    }

    /// What an owner command of a vault came to.
    pub fn of(vault: &Vault, result: Result<(), Failure>) -> (exit: Self)
        ensures
            match result {
                Ok(()) => exit.code == 0 && exit.message is None,
                Err(Failure::Usage(message)) => exit.is(2, message@),
                Err(Failure::Vault(code)) => exit.is(1, code@ + ": "@ + hint_words(vault.spec_config(), code@)),
            },
    {
        match result {
            Ok(()) => Exit { code: 0, message: None },
            Err(Failure::Usage(message)) => Exit::with(2, message.as_str()),
            Err(Failure::Vault(code)) => Exit::with(1, error_message(vault, code).as_str()),
        }
    }
}

/// A code and what to do about it.
pub fn error_message(vault: &Vault, code: &'static str) -> (text: String)
    ensures
        text@ == code@ + ": "@ + hint_words(vault.spec_config(), code@),
{
    let mut text = code.to_owned();
    text.append(": ");
    text.append(vault.hint(code).as_str());
    text
}

/// Why a command asks for an interactive terminal.
pub open spec fn terminal_words(command: Seq<char>, action: Seq<char>) -> Seq<char> {
    command + " "@ + action
        + ", so it runs only in an interactive terminal. Open a terminal and run it there (not through an agent's shell tool)."@
}

/// Refuses a command outside an interactive terminal, before anything is read.
pub fn require_terminal(command: &str, action: &str, input: bool, output: bool) -> (result: Result<(), Failure>)
    ensures
        match result {
            Ok(()) => input && output,
            Err(failure) => !(input && output) && failure.says(terminal_words(command@, action@)),
        },
{
    if input && output {
        return Ok(());
    }
    let mut text = command.to_owned();
    text.append(" ");
    text.append(action);
    text.append(", so it runs only in an interactive terminal. Open a terminal and run it there (not through an agent's shell tool).");
    Err(Failure::Usage(text))
}

/// What a command does that asks for an interactive terminal, after its name; `None` where it asks for none.
pub open spec fn guarded_action(command: Command) -> Option<(Seq<char>, Seq<char>)> {
    match command {
        Command::Install | Command::List => None,
        Command::Reveal => Some(("reveal"@, "prints a secret"@)),
        Command::Delete => Some(("delete"@, "deletes a secret permanently"@)),
        Command::TotpQr => Some(("totp-qr"@, "shows a secret as a QR code"@)),
    }
}

/// Lets a command at the vault: those that show or delete a secret run only in an interactive terminal.
pub fn allow(command: Command, input: bool, output: bool) -> (result: Result<(), Failure>)
    ensures
        match (guarded_action(command), result) {
            (None, Ok(())) => true,
            (Some(_), Ok(())) => input && output,
            (Some((name, action)), Err(failure)) => !(input && output) && failure.says(terminal_words(name, action)),
            (None, Err(_)) => false,
        },
{
    match command {
        Command::Install | Command::List => Ok(()),
        Command::Reveal => require_terminal("reveal", "prints a secret", input, output),
        Command::Delete => require_terminal("delete", "deletes a secret permanently", input, output),
        Command::TotpQr => require_terminal("totp-qr", "shows a secret as a QR code", input, output),
    }
}

/// The label of a command.
pub fn label(args: &Args) -> (result: Result<&str, Failure>)
    ensures
        match result {
            Ok(label) => args@.label == Some(label@),
            Err(failure) => args@.label is None && failure.says("a label is required\n\n"@ + USAGE@),
        },
{
    match &args.label {
        Some(label) => Ok(label.as_str()),
        None => {
            let mut text = "a label is required\n\n".to_owned();
            text.append(USAGE);
            Err(Failure::Usage(text))
        },
    }
}

/// A secret in the encoding that was asked for; hexadecimal where none was.
pub open spec fn encoded_text(bytes: Seq<u8>, encoding: Option<Seq<char>>) -> Seq<char> {
    match encoding {
        None => hex_text(bytes),
        Some(encoding) => if encoding == "hex"@ {
            hex_text(bytes)
        } else if encoding == "base64"@ {
            base64_text(bytes)
        } else {
            base32_text(bytes)
        },
    }
}

/// The secret as `reveal` prints it.
pub fn encoded(bytes: &[u8], args: &Args) -> (text: String)
    ensures
        text@ == encoded_text(bytes@, args@.encoding),
{
    match args.encoding {
        None => hex(bytes),
        Some(encoding) => if same(encoding, "hex") {
            hex(bytes)
        } else if same(encoding, "base64") {
            base64_padded(bytes)
        } else {
            base32(bytes)
        },
    }
}

/// The line above a secret that `reveal` prints.
pub open spec fn heading_text(record: Record, len: nat) -> Seq<char> {
    record.input.label@ + " version "@ + decimal(record.version as nat) + " ("@ + decimal(len) + " bytes, "@ + match record.receipt {
        Some(receipt) => receipt.entropy_mode@,
        None => "-"@,
    } + "):"@
}

/// The line above a secret that `reveal` prints.
pub fn heading(record: &Record, bytes: &[u8]) -> (text: String)
    ensures
        text@ == heading_text(*record, bytes@.len()),
{
    let mut text = record.input.label.clone();
    text.append(" version ");
    text.append(decimal_text(record.version).as_str());
    text.append(" (");
    text.append(decimal_text(bytes.len() as u64).as_str());
    text.append(" bytes, ");
    match &record.receipt {
        Some(receipt) => text.append(receipt.entropy_mode.as_str()),
        None => text.append("-"),
    }
    text.append("):");
    text
}

/// The version that `delete` needs.
pub fn required_version(args: &Args) -> (result: Result<u64, Failure>)
    ensures
        match result {
            Ok(version) => args.version == Some(version),
            Err(failure) => args.version is None && failure.says("delete needs --version N (see `mcpbytes-vault list`)"@),
        },
{
    match args.version {
        Some(version) => Ok(version),
        None => Err(Failure::Usage("delete needs --version N (see `mcpbytes-vault list`)".to_owned())),
    }
}

/// What `delete` asks.
pub fn delete_question(label: &str, version: u64) -> (text: String)
    ensures
        text@ == "Delete "@ + label@ + " version "@ + decimal(version as nat) + " permanently? Type the label to confirm: "@,
{
    let mut text = "Delete ".to_owned();
    text.append(label);
    text.append(" version ");
    text.append(decimal_text(version).as_str());
    text.append(" permanently? Type the label to confirm: ");
    text
}

/// Whether the owner confirmed; `answer` is missing where none could be read. Nothing is deleted without
/// the label.
pub fn confirmed(answer: Option<&str>, label: &str) -> (result: Result<(), Failure>)
    ensures
        match (result, answer) {
            (Ok(()), Some(answer)) => trimmed(answer@) == label@,
            (Ok(()), None) => false,
            (Err(failure), Some(answer)) => trimmed(answer@) != label@ && failure.says("not confirmed; nothing was deleted"@),
            (Err(failure), None) => failure.says("no confirmation read"@),
        },
{
    match answer {
        Some(answer) => if confirms(answer, label) {
            Ok(())
        } else {
            Err(Failure::Usage("not confirmed; nothing was deleted".to_owned()))
        },
        None => Err(Failure::Usage("no confirmation read".to_owned())),
    }
}

/// What `delete` prints.
pub fn deleted_line(label: &str, version: u64, existed: bool) -> (text: String)
    ensures
        text@ == if existed {
            "Deleted "@ + label@ + " version "@ + decimal(version as nat) + "."@
        } else {
            label@ + " version "@ + decimal(version as nat) + " was already gone from the store; the vault's records now match."@
        },
{
    if existed {
        let mut text = "Deleted ".to_owned();
        text.append(label);
        text.append(" version ");
        text.append(decimal_text(version).as_str());
        text.append(".");
        text
    } else {
        let mut text = label.to_owned();
        text.append(" version ");
        text.append(decimal_text(version).as_str());
        text.append(" was already gone from the store; the vault's records now match.");
        text
    }
}

/// The least bytes of an authenticator seed (RFC 4226 section 4 asks for 128 bits).
pub const MIN_SEED: usize = 16;

/// An authenticator seed, as it is enrolled.
pub struct Totp {
    /// The seed in base32.
    pub secret: String,
    pub issuer: String,
    pub account: String,
    /// The key URI: unpadded base32, and the issuer both as prefix and as parameter.
    pub uri: String,
}

/// The key URI of an authenticator seed.
pub open spec fn key_uri(secret: Seq<char>, issuer: Seq<char>, account: Seq<char>) -> Seq<char> {
    "otpauth://totp/"@ + escaped(encode_utf8(issuer)) + ":"@ + escaped(encode_utf8(account)) + "?secret="@ + secret + "&issuer="@
        + escaped(encode_utf8(issuer)) + "&algorithm=SHA1&digits=6&period=30"@
}

/// Prepares a secret as an authenticator seed.
pub fn totp(label: &str, version: u64, bytes: &[u8], args: &Args) -> (result: Result<Totp, Failure>)
    ensures
        match result {
            Ok(totp) => {
                &&& bytes@.len() >= MIN_SEED
                &&& totp.secret@ == base32_text(bytes@)
                &&& totp.issuer@ == match args@.issuer {
                    Some(issuer) => issuer,
                    None => "MCPBytes Vault"@,
                }
                &&& totp.account@ == match args@.account {
                    Some(account) => account,
                    None => label@,
                }
                &&& totp.uri@ == key_uri(totp.secret@, totp.issuer@, totp.account@)
            },
            Err(failure) => bytes@.len() < MIN_SEED && failure.says(
                label@ + " version "@ + decimal(version as nat) + " has "@ + decimal(bytes@.len())
                    + " bytes; a TOTP seed needs at least 16 (create one with n = 20)"@,
            ),
        },
        result is Ok <==> bytes@.len() >= 16,
{
    if bytes.len() < MIN_SEED {
        let mut text = label.to_owned();
        text.append(" version ");
        text.append(decimal_text(version).as_str());
        text.append(" has ");
        text.append(decimal_text(bytes.len() as u64).as_str());
        text.append(" bytes; a TOTP seed needs at least 16 (create one with n = 20)");
        return Err(Failure::Usage(text));
    }
    let secret = base32(bytes);
    let issuer = match &args.issuer {
        Some(issuer) => issuer.clone(),
        None => "MCPBytes Vault".to_owned(),
    };
    let account = match &args.account {
        Some(account) => account.clone(),
        None => label.to_owned(),
    };
    let escaped_issuer = percent(issuer.as_str());
    let escaped_account = percent(account.as_str());
    let issuer_len: usize = escaped_issuer.as_str().unicode_len();
    let names: usize = issuer_len.saturating_add(issuer_len).saturating_add(escaped_account.as_str().unicode_len());
    let mut uri = room_for(names.saturating_add(secret.as_str().unicode_len()).saturating_add(80), 1);
    uri.append("otpauth://totp/");
    uri.append(escaped_issuer.as_str());
    uri.append(":");
    uri.append(escaped_account.as_str());
    uri.append("?secret=");
    uri.append(secret.as_str());
    uri.append("&issuer=");
    uri.append(escaped_issuer.as_str());
    uri.append("&algorithm=SHA1&digits=6&period=30");
    Ok(Totp { secret, issuer, account, uri })
}

/// The QR code of some bytes with its quiet zone, in half blocks of text; a module is inked or left
/// blank. `None` where the bytes do not fit a code.
pub uninterp spec fn qr_image(data: Seq<u8>, dark_inked: bool, light_inked: bool) -> Option<Seq<char>>;

/// `QrCode::new` and the `Dense1x2` renderer of qrcode: the code of these bytes, with dark and light
/// modules inked or not as asked.
#[verifier::external_body]
fn qr_render(data: &[u8], dark_inked: bool, light_inked: bool) -> (image: Option<String>)
    ensures
        contents(image) == qr_image(data@, dark_inked, light_inked),
{
    let code = qrcode::QrCode::new(data).ok()?;
    let colors = [Dense1x2::Light, Dense1x2::Dark];
    let mut renderer = code.render::<Dense1x2>();
    renderer.quiet_zone(true).dark_color(colors[usize::from(dark_inked)]).light_color(colors[usize::from(light_inked)]);
    Some(renderer.build())
}

/// The QR code of a key URI. Text is light on a dark terminal, so there the light modules are inked.
pub fn qr_code(totp: &Totp, args: &Args) -> (result: Result<String, Failure>)
    ensures
        match (result, qr_image(encode_utf8(totp.uri@), args.light_terminal, !args.light_terminal)) {
            (Ok(image), Some(expected)) => image@ == expected,
            (Err(failure), None) => failure.says("QR encoding failed"@),
            _ => false,
        },
{
    match qr_render(totp.uri.as_str().as_bytes(), args.light_terminal, !args.light_terminal) {
        Some(image) => Ok(image),
        None => Err(Failure::Usage("QR encoding failed".to_owned())),
    }
}

/// What `totp-qr` prints below the code.
pub open spec fn totp_text(secret: Seq<char>, issuer: Seq<char>, account: Seq<char>, version: nat, light_terminal: bool) -> Seq<char> {
    account + " ("@ + issuer + "), version "@ + decimal(version)
        + ". Scan with your authenticator app.\nIf the code does not scan, retry with"@ + if light_terminal {
        "out"@
    } else {
        ""@
    } + " --light-terminal.\nManual entry key: "@ + grouped(secret)
}

/// What `totp-qr` prints below the code.
pub fn totp_lines(totp: &Totp, version: u64, args: &Args) -> (text: String)
    ensures
        text@ == totp_text(totp.secret@, totp.issuer@, totp.account@, version as nat, args.light_terminal),
{
    let names: usize = totp.account.as_str().unicode_len().saturating_add(totp.issuer.as_str().unicode_len());
    let secret_len: usize = totp.secret.as_str().unicode_len();
    let mut text = room_for(names.saturating_add(secret_len).saturating_add(secret_len).saturating_add(180), 4);
    text.append(totp.account.as_str());
    text.append(" (");
    text.append(totp.issuer.as_str());
    text.append("), version ");
    text.append(decimal_text(version).as_str());
    text.append(". Scan with your authenticator app.\nIf the code does not scan, retry with");
    text.append(
        if args.light_terminal {
            "out"
        } else {
            ""
        },
    );
    text.append(" --light-terminal.\nManual entry key: ");
    push_groups(&mut text, totp.secret.as_str());
    text
}

/// Whether `install` is asked for private files.
pub fn file_store(args: &Args) -> (result: Result<bool, Exit>)
    ensures
        match (args@.store, result) {
            (None, Ok(file)) => !file,
            (Some(store), Ok(file)) => store == if file {
                "file"@
            } else {
                "native"@
            },
            (Some(store), Err(exit)) => {
                &&& store != "native"@
                &&& store != "file"@
                &&& exit.is(2, "--store is native or file, not "@ + store)
            },
            (None, Err(_)) => false,
        },
{
    match &args.store {
        None => Ok(false),
        Some(store) => if same(store.as_str(), "native") {
            Ok(false)
        } else if same(store.as_str(), "file") {
            Ok(true)
        } else {
            let mut text = "--store is native or file, not ".to_owned();
            text.append(store.as_str());
            Err(Exit::with(2, text.as_str()))
        },
    }
}

/// How a client program is called. On Windows its executable is looked up, because the PowerShell shim of
/// npm swallows the `--` separator.
pub open spec fn client_words(name: Seq<char>, windows: bool) -> Seq<char> {
    if windows {
        "& (Get-Command "@ + name + " -CommandType Application | Select-Object -First 1 -ExpandProperty Source)"@
    } else {
        name
    }
}

fn client_command(name: &str, windows: bool) -> (text: String)
    ensures
        text@ == client_words(name@, windows),
{
    if windows {
        let mut text = "& (Get-Command ".to_owned();
        text.append(name);
        text.append(" -CommandType Application | Select-Object -First 1 -ExpandProperty Source)");
        text
    } else {
        name.to_owned()
    }
}

/// What is said of the configuration of an installation.
pub open spec fn configuration_words(done: Installed, store_given: bool) -> Seq<char> {
    "  Configuration: "@ + done.config@ + if done.created_config {
        " (new: local-only, "@ + done.backend@ + ")\n"@
    } else if store_given {
        " (kept)\n  --store only applies to a new configuration; the existing one was kept.\n"@
    } else {
        " (kept)\n"@
    }
}

/// An MCP client that servers are registered with on the command line.
#[derive(Debug)]
pub struct Client {
    /// What stands before the command, such as `Codex:`. It fills 15 columns.
    pub title: &'static str,
    pub program: &'static str,
    /// Options of its `mcp add` command, each followed by a space.
    pub options: &'static str,
}

/// How an installation is registered with a client.
pub open spec fn client_line(title: Seq<char>, program: Seq<char>, options: Seq<char>, done: Installed, windows: bool) -> Seq<char> {
    "  "@ + space_padded(title, 15) + client_words(program, windows) + " mcp add "@ + options + "mcpbytes-vault -- "@
        + shell_word(done.binary@, windows) + " --config "@ + shell_word(done.config@, windows) + "\n"@
}

/// How an installation is registered with each of some clients.
pub open spec fn client_lines(clients: Seq<Client>, done: Installed, windows: bool) -> Seq<char>
    decreases clients.len(),
{
    if clients.len() == 0 {
        seq![]
    } else {
        let client = clients.last();
        client_lines(clients.drop_last(), done, windows) + client_line(client.title@, client.program@, client.options@, done, windows)
    }
}

/// How an installation is registered with an MCP client: with those that the caller names, with Codex, and
/// with any other. Codex is the only client that the library names itself: the names, programs and options
/// of those before it are the caller's, and nothing is stated of them.
pub open spec fn registration_words(done: Installed, clients: Seq<Client>, windows: bool) -> Seq<char> {
    "\nRegister it with your MCP client:\n"@ + client_lines(clients, done, windows) + client_line("Codex:"@, "codex"@, ""@, done, windows) + "  Other clients: the server entry in "@ + done.settings@ + "\n"@
}

/// How the secrets of an installation are managed. Outside the default folder owner commands need
/// `--config`: without it they would read the default one. PowerShell runs a quoted path only through its
/// call operator.
pub open spec fn management_words(done: Installed, default_config: bool, windows: bool) -> Seq<char> {
    "\nManage your secrets with: "@ + if windows {
        "& "@
    } else {
        ""@
    } + shell_word(done.binary@, windows) + " list"@ + if default_config {
        ""@
    } else {
        " --config "@ + shell_word(done.config@, windows)
    }
}

/// What `install` prints.
pub open spec fn installed_words(
    done: Installed,
    version: Seq<char>,
    clients: Seq<Client>,
    store_given: bool,
    default_config: bool,
    windows: bool,
) -> Seq<char> {
    "Installed MCPBytes Vault "@ + version + " for this user.\n  Program:       "@ + done.binary@ + "\n"@
        + configuration_words(done, store_given) + registration_words(done, clients, windows) + if done.backend@
        == "linux_secret_service"@ {
        "\nThe Secret Service needs an unlocked desktop keyring. On a server, install into a new folder with --store file.\n"@
    } else {
        ""@
    } + management_words(done, default_config, windows)
}

fn configuration_text(done: &Installed, store_given: bool) -> (text: String)
    ensures
        text@ == configuration_words(*done, store_given),
{
    let mut text = "  Configuration: ".to_owned();
    text.append(done.config.as_str());
    if done.created_config {
        let mut words = " (new: local-only, ".to_owned();
        words.append(done.backend);
        words.append(")\n");
        text.append(words.as_str());
    } else if store_given {
        text.append(" (kept)\n  --store only applies to a new configuration; the existing one was kept.\n");
    } else {
        text.append(" (kept)\n");
    }
    text
}

fn client_text(title: &str, program: &str, options: &str, done: &Installed, windows: bool) -> (text: String)
    ensures
        text@ == client_line(title@, program@, options@, *done, windows),
{
    let mut text = "  ".to_owned();
    text.append(space_pad(title, 15).as_str());
    text.append(client_command(program, windows).as_str());
    text.append(" mcp add ");
    text.append(options);
    text.append("mcpbytes-vault -- ");
    text.append(shell_quote(done.binary.as_str(), windows).as_str());
    text.append(" --config ");
    text.append(shell_quote(done.config.as_str(), windows).as_str());
    text.append("\n");
    text
}

fn registration_text(done: &Installed, clients: &Vec<Client>, windows: bool) -> (text: String)
    ensures
        text@ == registration_words(*done, clients@, windows),
{
    let mut lines = String::new();
    let mut i: usize = 0;
    assert(lines@ =~= client_lines(clients@.take(0), *done, windows));
    while i < clients.len()
        invariant
            i <= clients@.len(),
            lines@ == client_lines(clients@.take(i as int), *done, windows),
        decreases clients@.len() - i,
    {
        lines.append(client_text(clients[i].title, clients[i].program, clients[i].options, done, windows).as_str());
        assert(clients@.take(i + 1).drop_last() =~= clients@.take(i as int));
        i += 1;
    }
    assert(clients@.take(clients@.len() as int) =~= clients@);
    let mut text = "\nRegister it with your MCP client:\n".to_owned();
    text.append(lines.as_str());
    text.append(client_text("Codex:", "codex", "", done, windows).as_str());
    text.append("  Other clients: the server entry in ");
    text.append(done.settings.as_str());
    text.append("\n");
    text
}

fn management_text(done: &Installed, default_config: bool, windows: bool) -> (text: String)
    ensures
        text@ == management_words(*done, default_config, windows),
{
    let mut text = "\nManage your secrets with: ".to_owned();
    text.append(
        if windows {
            "& "
        } else {
            ""
        },
    );
    text.append(shell_quote(done.binary.as_str(), windows).as_str());
    text.append(" list");
    let mut flag = String::new();
    if !default_config {
        flag.append(" --config ");
        flag.append(shell_quote(done.config.as_str(), windows).as_str());
        assert(flag@ =~= " --config "@ + shell_word(done.config@, windows));
    } else {
        proof {
            reveal_strlit("");
        }
        assert(flag@ =~= ""@);
    }
    text.append(flag.as_str());
    text
}

/// What `install` prints, given the program's version, the clients to name besides Codex, whether `--store`
/// was given, and whether the configuration is the default one.
pub fn install_command(
    done: &Installed,
    version: &str,
    clients: &Vec<Client>,
    store_given: bool,
    default_config: bool,
    platform: Platform,
) -> (text: String)
    ensures
        text@ == installed_words(*done, version@, clients@, store_given, default_config, platform == Platform::Windows),
{
    let windows: bool = platform == Platform::Windows;
    let mut text = "Installed MCPBytes Vault ".to_owned();
    text.append(version);
    text.append(" for this user.\n  Program:       ");
    text.append(done.binary.as_str());
    text.append("\n");
    text.append(configuration_text(done, store_given).as_str());
    text.append(registration_text(done, clients, windows).as_str());
    text.append(
        if same(done.backend, "linux_secret_service") {
            "\nThe Secret Service needs an unlocked desktop keyring. On a server, install into a new folder with --store file.\n"
        } else {
            ""
        },
    );
    text.append(management_text(done, default_config, windows).as_str());
    text
}

/// The options are different texts, and each starts with a dash.
proof fn options_differ()
    ensures
        ({
            let (a, b, c, d, e, f) = ("--config"@, "--version"@, "--issuer"@, "--account"@, "--store"@, "--dir"@);
            let (g, h, i, j, k) = ("--hex"@, "--base64"@, "--base32"@, "--json"@, "--light-terminal"@);
            &&& a != b && a != c && a != d && a != e && a != f && a != g && a != h && a != i && a != j && a != k
            &&& b != c && b != d && b != e && b != f && b != g && b != h && b != i && b != j && b != k
            &&& c != d && c != e && c != f && c != g && c != h && c != i && c != j && c != k
            &&& d != e && d != f && d != g && d != h && d != i && d != j && d != k
            &&& e != f && e != g && e != h && e != i && e != j && e != k
            &&& f != g && f != h && f != i && f != j && f != k
            &&& g != h && g != i && g != j && g != k
            &&& h != i && h != j && h != k
            &&& i != j && i != k
            &&& j != k
            &&& a[0] == '-' && b[0] == '-' && c[0] == '-' && d[0] == '-' && e[0] == '-' && f[0] == '-'
            &&& g[0] == '-' && h[0] == '-' && i[0] == '-' && j[0] == '-' && k[0] == '-'
            &&& a.len() > 0 && b.len() > 0 && c.len() > 0 && d.len() > 0 && e.len() > 0 && f.len() > 0
            &&& g.len() > 0 && h.len() > 0 && i.len() > 0 && j.len() > 0 && k.len() > 0
            &&& g.skip(2) == "hex"@ && h.skip(2) == "base64"@ && i.skip(2) == "base32"@
        }),
{
    reveal_strlit("--config");
    reveal_strlit("--version");
    reveal_strlit("--issuer");
    reveal_strlit("--account");
    reveal_strlit("--store");
    reveal_strlit("--dir");
    reveal_strlit("--hex");
    reveal_strlit("--base64");
    reveal_strlit("--base32");
    reveal_strlit("--json");
    reveal_strlit("--light-terminal");
    reveal_strlit("hex");
    reveal_strlit("base64");
    reveal_strlit("base32");
    assert("--config"@.len() == 8 && "--config"@[0] == '-' && "--config"@[2] == 'c');
    assert("--version"@.len() == 9 && "--version"@[0] == '-' && "--version"@[2] == 'v');
    assert("--issuer"@.len() == 8 && "--issuer"@[0] == '-' && "--issuer"@[2] == 'i');
    assert("--account"@.len() == 9 && "--account"@[0] == '-' && "--account"@[2] == 'a');
    assert("--store"@.len() == 7 && "--store"@[0] == '-' && "--store"@[2] == 's');
    assert("--dir"@.len() == 5 && "--dir"@[0] == '-' && "--dir"@[2] == 'd');
    assert("--hex"@.len() == 5 && "--hex"@[0] == '-' && "--hex"@[2] == 'h');
    assert("--base64"@.len() == 8 && "--base64"@[0] == '-' && "--base64"@[2] == 'b');
    assert("--base32"@.len() == 8 && "--base32"@[0] == '-' && "--base32"@[2] == 'b');
    assert("--json"@.len() == 6 && "--json"@[0] == '-' && "--json"@[2] == 'j');
    assert("--light-terminal"@.len() == 16 && "--light-terminal"@[0] == '-' && "--light-terminal"@[2] == 'l');
    assert("--base64"@[6] == '6' && "--base32"@[6] == '3');
    assert("--hex"@.skip(2) =~= "hex"@ && "--base64"@.skip(2) =~= "base64"@ && "--base32"@.skip(2) =~= "base32"@);
}

/// An option that is followed by a value sets its own field to that value, whatever was there before, and
/// leaves the other nine as they are; reading goes on behind the value.
pub proof fn options_set_their_own_value(args: Seq<Seq<char>>, so_far: ArgsView)
    requires
        args.len() >= 2,
    ensures
        args[0] == "--config"@ ==> parsed(args, so_far) == parsed(args.skip(2), (ArgsView { config: Some(args[1]), ..so_far })),
        args[0] == "--issuer"@ ==> parsed(args, so_far) == parsed(args.skip(2), (ArgsView { issuer: Some(args[1]), ..so_far })),
        args[0] == "--account"@ ==> parsed(args, so_far) == parsed(args.skip(2), (ArgsView { account: Some(args[1]), ..so_far })),
        args[0] == "--store"@ ==> parsed(args, so_far) == parsed(args.skip(2), (ArgsView { store: Some(args[1]), ..so_far })),
        args[0] == "--dir"@ ==> parsed(args, so_far) == parsed(args.skip(2), (ArgsView { dir: Some(args[1]), ..so_far })),
        args[0] == "--version"@ && number(args[1]) is Some ==> parsed(args, so_far) == parsed(
            args.skip(2),
            (ArgsView { version: number(args[1]), ..so_far }),
        ),
        args[0] == "--version"@ && number(args[1]) is None ==> parsed(args, so_far) == Err::<ArgsView, Seq<char>>(
            "--version must be a number"@,
        ),
{
    options_differ();
}

/// An option that stands alone sets its own field and leaves the others as they are. There is one encoding
/// and one label; a second one, and every other text with a dash, is refused by name.
pub proof fn flags_set_their_own_field(args: Seq<Seq<char>>, so_far: ArgsView)
    requires
        args.len() >= 1,
    ensures
        ({
            let arg = args[0];
            let refused = Err::<ArgsView, Seq<char>>("unexpected argument: "@ + arg);
            let encoding = arg == "--hex"@ || arg == "--base64"@ || arg == "--base32"@;
            let valued = arg == "--config"@ || arg == "--version"@ || arg == "--issuer"@ || arg == "--account"@ || arg == "--store"@ || arg
                == "--dir"@;
            let dashed = arg.len() > 0 && arg[0] == '-';
            &&& arg == "--json"@ ==> parsed(args, so_far) == parsed(args.skip(1), (ArgsView { json: true, ..so_far }))
            &&& arg == "--light-terminal"@ ==> parsed(args, so_far) == parsed(args.skip(1), (ArgsView { light_terminal: true, ..so_far }))
            &&& arg == "--hex"@ && so_far.encoding is None ==> parsed(args, so_far) == parsed(
                args.skip(1),
                (ArgsView { encoding: Some("hex"@), ..so_far }),
            )
            &&& arg == "--base64"@ && so_far.encoding is None ==> parsed(args, so_far) == parsed(
                args.skip(1),
                (ArgsView { encoding: Some("base64"@), ..so_far }),
            )
            &&& arg == "--base32"@ && so_far.encoding is None ==> parsed(args, so_far) == parsed(
                args.skip(1),
                (ArgsView { encoding: Some("base32"@), ..so_far }),
            )
            &&& encoding && so_far.encoding is Some ==> parsed(args, so_far) == refused
            &&& !dashed && so_far.label is None ==> parsed(args, so_far) == parsed(args.skip(1), (ArgsView { label: Some(arg), ..so_far }))
            &&& !dashed && so_far.label is Some ==> parsed(args, so_far) == refused
            &&& dashed && !encoding && !valued && arg != "--json"@ && arg != "--light-terminal"@ ==> parsed(args, so_far) == refused
            &&& valued && args.len() == 1 ==> parsed(args, so_far) == Err::<ArgsView, Seq<char>>(arg + " needs a value"@)
        }),
{
    options_differ();
}

/// Arguments that end are those that were read so far.
pub proof fn reading_ends_with_the_arguments(so_far: ArgsView)
    ensures
        parsed(seq![], so_far) == Ok::<ArgsView, Seq<char>>(so_far),
        no_args().label is None && no_args().version is None && no_args().config is None && no_args().encoding is None,
        no_args().issuer is None && no_args().account is None && no_args().store is None && no_args().dir is None,
        !no_args().json && !no_args().light_terminal,
{
}

proof fn decimal_has_its_value(value: nat)
    ensures
        digits_value(decimal(value)) == value,
    decreases value,
{
    if value < 10 {
        assert(decimal(value).drop_last() =~= seq![]);
        assert(digits_value(decimal(value).drop_last()) == 0);
    } else {
        decimal_has_its_value(value / 10);
        assert(decimal(value).drop_last() =~= decimal(value / 10));
    }
}

/// Every version is read as it is printed, with or without a plus sign, and leading zeros change nothing.
pub proof fn versions_are_read_as_printed(version: u64, zeros: nat)
    ensures
        number(decimal(version as nat)) == Some(version),
        number(seq!['+'] + decimal(version as nat)) == Some(version),
        number(Seq::new(zeros, |i: int| '0') + decimal(version as nat)) == Some(version),
{
    let digits = decimal(version as nat);
    decimal_is_digits(version as nat);
    decimal_has_its_value(version as nat);
    assert((seq!['+'] + digits).skip(1) =~= digits);
    let text = Seq::new(zeros, |i: int| '0') + digits;
    zeros_count_for_nothing(zeros, digits);
    assert(is_digits(text));
}

proof fn zeros_count_for_nothing(zeros: nat, digits: Seq<char>)
    ensures
        digits_value(Seq::new(zeros, |i: int| '0') + digits) == digits_value(digits),
    decreases zeros + digits.len(),
{
    let text = Seq::new(zeros, |i: int| '0') + digits;
    if digits.len() > 0 {
        assert(text.drop_last() =~= Seq::new(zeros, |i: int| '0') + digits.drop_last());
        zeros_count_for_nothing(zeros, digits.drop_last());
    } else if zeros > 0 {
        assert(text.drop_last() =~= Seq::new((zeros - 1) as nat, |i: int| '0') + digits);
        zeros_count_for_nothing((zeros - 1) as nat, digits);
    } else {
        assert(text =~= digits);
    }
}

/// Only digits behind an optional plus sign are a number: any other character, wherever it stands, and no
/// digits at all, are refused.
pub proof fn only_digits_are_numbers(text: Seq<char>)
    ensures
        text.len() == 0 ==> number(text) is None,
        text.len() == 1 && text[0] == '+' ==> number(text) is None,
        (exists|i: int| 0 <= i < text.len() && !(48 <= #[trigger] text[i] as int <= 57) && !(i == 0 && text[0] == '+')) ==> number(text) is None,
        text.len() > 0 && text[0] == '+' ==> number(text) == if text.len() > 1 && text[1] == '+' {
            None
        } else {
            number(text.skip(1))
        },
{
    let digits = if text.len() > 0 && text[0] == '+' {
        text.skip(1)
    } else {
        text
    };
    if text.len() > 1 && text[0] == '+' && text[1] == '+' {
        assert(digits[0] == '+');
    }
    if exists|i: int| 0 <= i < text.len() && !(48 <= #[trigger] text[i] as int <= 57) && !(i == 0 && text[0] == '+') {
        let i = choose|i: int| 0 <= i < text.len() && !(48 <= #[trigger] text[i] as int <= 57) && !(i == 0 && text[0] == '+');
        if text[0] == '+' {
            assert(digits[i - 1] == text[i]);
        } else {
            assert(digits[i] == text[i]);
        }
    }
}

/// A secret is shown in the encoding that was asked for, and in hexadecimal where none was.
pub proof fn secrets_are_shown_as_asked(bytes: Seq<u8>)
    ensures
        encoded_text(bytes, None) == hex_text(bytes),
        encoded_text(bytes, Some("hex"@)) == hex_text(bytes),
        encoded_text(bytes, Some("base64"@)) == base64_text(bytes),
        encoded_text(bytes, Some("base32"@)) == base32_text(bytes),
{
    reveal_strlit("hex");
    reveal_strlit("base64");
    reveal_strlit("base32");
    assert("hex"@.len() == 3 && "base64"@.len() == 6 && "base32"@.len() == 6);
    assert("base64"@[4] == '6' && "base32"@[4] == '3');
}

/// A key URI holds the secret as it stands, and the issuer and the account escaped, each in its own place;
/// the issuer stands in it twice.
pub proof fn key_uris_hold_their_parts(secret: Seq<char>, issuer: Seq<char>, account: Seq<char>)
    ensures
        ({
            let (i, a) = (escaped(encode_utf8(issuer)), escaped(encode_utf8(account)));
            let uri = key_uri(secret, issuer, account);
            let head = "otpauth://totp/"@;
            let first = head.len() + i.len();
            let second = first + ":"@.len() + a.len();
            let third = second + "?secret="@.len() + secret.len();
            let fourth = third + "&issuer="@.len() + i.len();
            &&& uri.subrange(0, head.len() as int) == head
            &&& uri.subrange(head.len() as int, first as int) == i
            &&& uri.subrange((first + ":"@.len()) as int, second as int) == a
            &&& uri.subrange((second + "?secret="@.len()) as int, third as int) == secret
            &&& uri.subrange((third + "&issuer="@.len()) as int, fourth as int) == i
            &&& uri.skip(fourth as int) == "&algorithm=SHA1&digits=6&period=30"@
        }),
{
    let (i, a) = (escaped(encode_utf8(issuer)), escaped(encode_utf8(account)));
    let uri = key_uri(secret, issuer, account);
    let head = "otpauth://totp/"@;
    let first = (head.len() + i.len()) as int;
    let second = (first + ":"@.len() + a.len()) as int;
    let third = (second + "?secret="@.len() + secret.len()) as int;
    let fourth = (third + "&issuer="@.len() + i.len()) as int;
    assert(uri.subrange(0, head.len() as int) =~= head);
    assert(uri.subrange(head.len() as int, first) =~= i);
    assert(uri.subrange(first + ":"@.len(), second) =~= a);
    assert(uri.subrange(second + "?secret="@.len(), third) =~= secret);
    assert(uri.subrange(third + "&issuer="@.len(), fourth) =~= i);
    assert(uri.skip(fourth) =~= "&algorithm=SHA1&digits=6&period=30"@);
}

/// The three commands that show or remove a secret ask for a terminal, under their own names; the other
/// two do not.
pub proof fn secrets_stay_in_the_terminal(command: Command)
    ensures
        guarded_action(command) is None <==> command == Command::Install || command == Command::List,
        command == Command::Reveal ==> (guarded_action(command) matches Some((name, _)) && name == "reveal"@),
        command == Command::Delete ==> (guarded_action(command) matches Some((name, _)) && name == "delete"@),
        command == Command::TotpQr ==> (guarded_action(command) matches Some((name, _)) && name == "totp-qr"@),
        guarded_action(command) matches Some((name, action)) ==> mentions(terminal_words(name, action), name) && mentions(
            terminal_words(name, action),
            action,
        ),
{
    if guarded_action(command) is Some {
        let (name, action) = guarded_action(command)->0;
        let none = Seq::<char>::empty();
        let words =
            ", so it runs only in an interactive terminal. Open a terminal and run it there (not through an agent's shell tool)."@;
        assert(terminal_words(name, action) =~= none + name + (" "@ + action + words));
        mentions_between(none, name, " "@ + action + words);
        mentions_between(name + " "@, action, words);
    }
}

/// What the program is called for is told by its first word; the server alone takes exactly one more.
pub proof fn the_first_word_decides(args: Seq<Seq<char>>)
    ensures
        args.len() == 0 ==> invoked(args) == Invocation::Refuse,
        invoked(args) == Invocation::Serve <==> args.len() == 2 && args[0] == "--config"@,
        args.len() > 0 ==> {
            &&& invoked(args) == Invocation::Owner(Command::Install) <==> args[0] == "install"@
            &&& invoked(args) == Invocation::Owner(Command::List) <==> args[0] == "list"@
            &&& invoked(args) == Invocation::Owner(Command::Reveal) <==> args[0] == "reveal"@
            &&& invoked(args) == Invocation::Owner(Command::Delete) <==> args[0] == "delete"@
            &&& invoked(args) == Invocation::Owner(Command::TotpQr) <==> args[0] == "totp-qr"@
            &&& invoked(args) == Invocation::Help <==> args[0] == "help"@ || args[0] == "--help"@ || args[0] == "-h"@
        },
{
    reveal_strlit("--config");
    reveal_strlit("install");
    reveal_strlit("list");
    reveal_strlit("reveal");
    reveal_strlit("delete");
    reveal_strlit("totp-qr");
    reveal_strlit("help");
    reveal_strlit("--help");
    reveal_strlit("-h");
    assert("--config"@.len() == 8 && "install"@.len() == 7 && "list"@.len() == 4 && "reveal"@.len() == 6 && "delete"@.len() == 6);
    assert("totp-qr"@.len() == 7 && "help"@.len() == 4 && "--help"@.len() == 6 && "-h"@.len() == 2);
    assert("install"@[0] == 'i' && "totp-qr"@[0] == 't' && "list"@[0] == 'l' && "help"@[0] == 'h');
    assert("reveal"@[0] == 'r' && "delete"@[0] == 'd' && "--help"@[0] == '-');
}

/// The line above a secret names its label, its version and its size, and how it was made.
pub proof fn headings_name_the_secret(record: Record, len: nat)
    ensures
        record.input.label@.is_prefix_of(heading_text(record, len)),
        mentions(heading_text(record, len), " version "@ + decimal(record.version as nat) + " ("@ + decimal(len) + " bytes, "@),
        record.receipt matches Some(receipt) ==> mentions(heading_text(record, len), receipt.entropy_mode@),
{
    let text = heading_text(record, len);
    let label = record.input.label@;
    let middle = " version "@ + decimal(record.version as nat) + " ("@ + decimal(len) + " bytes, "@;
    let source = match record.receipt {
        Some(receipt) => receipt.entropy_mode@,
        None => "-"@,
    };
    assert(text =~= label + middle + (source + "):"@));
    mentions_between(label, middle, source + "):"@);
    assert(text =~= (label + middle) + source + "):"@);
    mentions_between(label + middle, source, "):"@);
    assert(text.subrange(0, label.len() as int) =~= label);
}

/// What `totp-qr` prints names the account, the issuer and the version, and ends with the key in groups; the
/// other kind of terminal is proposed.
pub proof fn enrolment_names_its_parts(secret: Seq<char>, issuer: Seq<char>, account: Seq<char>, version: nat, light_terminal: bool)
    ensures
        ({
            let text = totp_text(secret, issuer, account, version, light_terminal);
            &&& (account + " ("@ + issuer + "), version "@ + decimal(version) + "."@).is_prefix_of(text)
            &&& ("Manual entry key: "@ + grouped(secret)).is_suffix_of(text)
            &&& light_terminal ==> mentions(text, "retry without --light-terminal"@)
            &&& !light_terminal ==> mentions(text, "retry with --light-terminal"@)
        }),
{
    let text = totp_text(secret, issuer, account, version, light_terminal);
    let names = account + " ("@ + issuer + "), version "@ + decimal(version);
    let (scan, behind) = (
        ". Scan with your authenticator app.\nIf the code does not scan, retry with"@,
        " --light-terminal.\nManual entry key: "@,
    );
    let out = if light_terminal {
        "out"@
    } else {
        ""@
    };
    reveal_strlit(".");
    reveal_strlit("out");
    reveal_strlit("");
    reveal_strlit(". Scan with your authenticator app.\nIf the code does not scan, retry with");
    reveal_strlit(" --light-terminal.\nManual entry key: ");
    reveal_strlit("Manual entry key: ");
    reveal_strlit("retry without --light-terminal");
    reveal_strlit("retry with --light-terminal");
    assert(text == names + scan + out + behind + grouped(secret));
    let start = names + "."@;
    assert(scan[0] == '.');
    assert(text.subrange(0, start.len() as int) =~= start);
    let end = "Manual entry key: "@ + grouped(secret);
    assert(behind.skip(behind.len() - "Manual entry key: "@.len()) =~= "Manual entry key: "@);
    assert(text.skip(text.len() - end.len()) =~= end);
    assert(text.subrange(text.len() - end.len(), text.len() as int) =~= end);
    let from = (names.len() + scan.len() - 10) as int;
    if light_terminal {
        assert(text.subrange(from, from + "retry without --light-terminal"@.len()) =~= "retry without --light-terminal"@);
    } else {
        assert(text.subrange(from, from + "retry with --light-terminal"@.len()) =~= "retry with --light-terminal"@);
    }
}

/// What `install` says of the configuration names its path, and says truly whether it is new or was kept.
pub proof fn configurations_are_reported(done: Installed, store_given: bool)
    ensures
        ("  Configuration: "@ + done.config@).is_prefix_of(configuration_words(done, store_given)),
        done.created_config ==> mentions(configuration_words(done, store_given), " (new: local-only, "@ + done.backend@ + ")"@),
        !done.created_config ==> mentions(configuration_words(done, store_given), " (kept)\n"@),
        !done.created_config && store_given ==> mentions(
            configuration_words(done, store_given),
            "--store only applies to a new configuration; the existing one was kept."@,
        ),
{
    let text = configuration_words(done, store_given);
    let head = "  Configuration: "@ + done.config@;
    assert(text.subrange(0, head.len() as int) =~= head);
    reveal_strlit(" (kept)\n");
    reveal_strlit(" (kept)\n  --store only applies to a new configuration; the existing one was kept.\n");
    reveal_strlit("--store only applies to a new configuration; the existing one was kept.");
    reveal_strlit(")");
    reveal_strlit(")\n");
    let from = head.len() as int;
    if done.created_config {
        let part = " (new: local-only, "@ + done.backend@ + ")"@;
        assert(")\n"@[0] == ')' && ")"@ =~= seq![')']);
        assert(text.subrange(from, from + part.len()) =~= part);
    } else {
        let part = " (kept)\n"@;
        let words = "--store only applies to a new configuration; the existing one was kept."@;
        assert(text.subrange(from, from + part.len()) =~= part);
        if store_given {
            let whole = " (kept)\n  --store only applies to a new configuration; the existing one was kept.\n"@;
            assert(whole.subrange(10, 10int + words.len()) =~= words);
            assert(text.subrange(from + 10, from + 10 + words.len()) =~= whole.subrange(10, 10int + words.len()));
        }
    }
}

/// Every client is told the installed program and the installed configuration, each as one word of its
/// shell, by the client's own program.
pub proof fn clients_start_the_installed_program(title: Seq<char>, program: Seq<char>, options: Seq<char>, done: Installed, windows: bool)
    ensures
        mentions(client_line(title, program, options, done, windows), " mcp add "@ + options + "mcpbytes-vault -- "@),
        (shell_word(done.binary@, windows) + " --config "@ + shell_word(done.config@, windows) + "\n"@).is_suffix_of(
            client_line(title, program, options, done, windows),
        ),
        mentions(client_line(title, program, options, done, windows), program),
{
    let before = "  "@ + space_padded(title, 15) + client_words(program, windows);
    let middle = " mcp add "@ + options + "mcpbytes-vault -- "@;
    let front = before + " mcp add "@ + options + "mcpbytes-vault -- "@;
    let end = shell_word(done.binary@, windows) + " --config "@ + shell_word(done.config@, windows) + "\n"@;
    let text = client_line(title, program, options, done, windows);
    assert(front =~= before + middle);
    assert(text =~= front + end);
    assert(text.subrange(text.len() - end.len(), text.len() as int) =~= end);
    mentions_between(before, middle, seq![]);
    assert(before + middle + seq![] =~= front);
    mentions_within(before, front, end, middle);
    clients_are_called_by_name(program, windows);
    mentions_within("  "@ + space_padded(title, 15), client_words(program, windows), middle, program);
    mentions_within(before, before, middle, program);
    mentions_within(before, front, end, program);
}

/// A client is called by the name of its program; on Windows its executable is looked up by that name.
pub proof fn clients_are_called_by_name(program: Seq<char>, windows: bool)
    ensures
        mentions(client_words(program, windows), program),
        !windows ==> client_words(program, windows) == program,
        windows ==> ("& (Get-Command "@ + program + " -CommandType Application"@).is_prefix_of(client_words(program, windows)),
{
    if windows {
        reveal_strlit(" -CommandType Application");
        reveal_strlit(" -CommandType Application | Select-Object -First 1 -ExpandProperty Source)");
        let head = "& (Get-Command "@ + program + " -CommandType Application"@;
        assert(client_words(program, windows).subrange(0, head.len() as int) =~= head);
    }
    let none = Seq::<char>::empty();
    mentions_between("& (Get-Command "@, program, " -CommandType Application | Select-Object -First 1 -ExpandProperty Source)"@);
    mentions_between(none, program, none);
    assert(none + program + none =~= program);
}

/// Each of the clients that are named gets its line, in their order, and Codex comes after them.
pub proof fn every_client_gets_its_line(clients: Seq<Client>, more: Seq<Client>, done: Installed, windows: bool)
    ensures
        client_lines(clients + more, done, windows) == client_lines(clients, done, windows) + client_lines(more, done, windows),
        clients.len() == 1 ==> client_lines(clients, done, windows) == client_line(
            clients[0].title@,
            clients[0].program@,
            clients[0].options@,
            done,
            windows,
        ),
    decreases more.len(),
{
    if clients.len() == 1 {
        assert(client_lines(clients.drop_last(), done, windows) =~= seq![]);
        let one = client_line(clients[0].title@, clients[0].program@, clients[0].options@, done, windows);
        assert(Seq::<char>::empty() + one =~= one);
    }
    if more.len() == 0 {
        assert(clients + more =~= clients);
        assert(client_lines(clients, done, windows) + client_lines(more, done, windows) =~= client_lines(clients, done, windows));
    } else {
        assert((clients + more).drop_last() =~= clients + more.drop_last());
        every_client_gets_its_line(clients, more.drop_last(), done, windows);
        let last = client_line(more.last().title@, more.last().program@, more.last().options@, done, windows);
        assert(client_lines(clients, done, windows) + (client_lines(more.drop_last(), done, windows) + last) =~= client_lines(
            clients,
            done,
            windows,
        ) + client_lines(more.drop_last(), done, windows) + last);
    }
}

/// The command that manages the secrets of an installation starts the installed program, and names the
/// configuration exactly where it is not the default one.
pub proof fn management_reaches_the_installation(done: Installed, default_config: bool, windows: bool)
    ensures
        mentions(management_words(done, default_config, windows), shell_word(done.binary@, windows) + " list"@),
        windows ==> ("\nManage your secrets with: & "@ + shell_word(done.binary@, windows)).is_prefix_of(
            management_words(done, default_config, windows),
        ),
        !windows ==> ("\nManage your secrets with: "@ + shell_word(done.binary@, windows)).is_prefix_of(
            management_words(done, default_config, windows),
        ),
        !default_config ==> (" list --config "@ + shell_word(done.config@, windows)).is_suffix_of(management_words(done, default_config, windows)),
        default_config ==> " list"@.is_suffix_of(management_words(done, default_config, windows)),
{
    let text = management_words(done, default_config, windows);
    let (opening, call, binary) = (
        "\nManage your secrets with: "@,
        if windows {
            "& "@
        } else {
            ""@
        },
        shell_word(done.binary@, windows),
    );
    let rest = if default_config {
        ""@
    } else {
        " --config "@ + shell_word(done.config@, windows)
    };
    reveal_strlit("");
    reveal_strlit(" list");
    reveal_strlit(" --config ");
    reveal_strlit(" list --config ");
    assert(text =~= (opening + call) + (binary + " list"@) + rest);
    mentions_between(opening + call, binary + " list"@, rest);
    assert(" list"@ + " --config "@ =~= " list --config "@);
    reveal_strlit("& ");
    reveal_strlit("\nManage your secrets with: ");
    reveal_strlit("\nManage your secrets with: & ");
    assert("\nManage your secrets with: "@ + "& "@ =~= "\nManage your secrets with: & "@);
    assert("\nManage your secrets with: "@ + ""@ =~= "\nManage your secrets with: "@);
    let start = opening + call + binary;
    assert(text.subrange(0, start.len() as int) =~= start);
    let end = if default_config {
        " list"@
    } else {
        " list --config "@ + shell_word(done.config@, windows)
    };
    assert(text =~= opening + call + binary + end);
    assert(text.subrange(text.len() - end.len(), text.len() as int) =~= end);
}

/// How an installation is registered names every client in its order, Codex behind them, and the file of
/// settings for the others.
pub proof fn registrations_name_the_settings(done: Installed, clients: Seq<Client>, windows: bool)
    ensures
        mentions(
            registration_words(done, clients, windows),
            client_lines(clients, done, windows) + client_line("Codex:"@, "codex"@, ""@, done, windows),
        ),
        ("the server entry in "@ + done.settings@ + "\n"@).is_suffix_of(registration_words(done, clients, windows)),
{
    let head = "\nRegister it with your MCP client:\n"@;
    let (some, codex) = (client_lines(clients, done, windows), client_line("Codex:"@, "codex"@, ""@, done, windows));
    let other = "  Other clients: the server entry in "@;
    let behind = other + done.settings@ + "\n"@;
    let text = registration_words(done, clients, windows);
    assert(text =~= head + (some + codex) + behind);
    mentions_between(head, some + codex, behind);
    reveal_strlit("  Other clients: the server entry in ");
    reveal_strlit("the server entry in ");
    let words = "the server entry in "@;
    assert(other.skip(other.len() - words.len()) =~= words);
    let end = words + done.settings@ + "\n"@;
    assert(behind.skip(behind.len() - end.len()) =~= end);
    assert(text.subrange(text.len() - end.len(), text.len() as int) =~= behind.skip(behind.len() - end.len()));
}

/// What `install` prints names the version, the program and the configuration, and ends with how it is
/// registered and managed; the note on keyrings stands between them only for the store that needs one.
pub proof fn installations_are_reported(
    done: Installed,
    version: Seq<char>,
    clients: Seq<Client>,
    store_given: bool,
    default_config: bool,
    windows: bool,
)
    ensures
        ({
            let text = installed_words(done, version, clients, store_given, default_config, windows);
            let (registration, management) = (registration_words(done, clients, windows), management_words(done, default_config, windows));
            let note =
                "\nThe Secret Service needs an unlocked desktop keyring. On a server, install into a new folder with --store file.\n"@;
            &&& mentions(text, version)
            &&& mentions(text, done.binary@)
            &&& mentions(text, configuration_words(done, store_given))
            &&& done.backend@ == "linux_secret_service"@ ==> (registration + note + management).is_suffix_of(text)
            &&& done.backend@ != "linux_secret_service"@ ==> (registration + management).is_suffix_of(text)
        }),
{
    let text = installed_words(done, version, clients, store_given, default_config, windows);
    let (registration, management) = (registration_words(done, clients, windows), management_words(done, default_config, windows));
    let linux = "\nThe Secret Service needs an unlocked desktop keyring. On a server, install into a new folder with --store file.\n"@;
    let note = if done.backend@ == "linux_secret_service"@ {
        linux
    } else {
        ""@
    };
    let none = Seq::<char>::empty();
    let one = "Installed MCPBytes Vault "@ + version + " for this user.\n  Program:       "@;
    let two = one + done.binary@ + "\n"@;
    let three = two + configuration_words(done, store_given);
    let end = registration + note + management;
    assert(text == three + registration + note + management);
    assert(text =~= three + end);
    mentions_between("Installed MCPBytes Vault "@, version, " for this user.\n  Program:       "@);
    mentions_within(none, one, done.binary@, version);
    mentions_within(none, one + done.binary@, "\n"@, version);
    mentions_within(none, two, configuration_words(done, store_given), version);
    mentions_within(none, three, end, version);
    mentions_between(one, done.binary@, "\n"@);
    mentions_within(none, two, configuration_words(done, store_given), done.binary@);
    mentions_within(none, three, end, done.binary@);
    mentions_between(two, configuration_words(done, store_given), none);
    assert(two + configuration_words(done, store_given) + none =~= three);
    mentions_within(none, three, end, configuration_words(done, store_given));
    assert(text.subrange(text.len() - end.len(), text.len() as int) =~= end);
    reveal_strlit("");
    assert(registration + ""@ =~= registration);
}

/// Failures and exits say exactly the given words; an exit says who speaks first.
pub proof fn failures_say_their_words(failure: Failure, exit: Exit, code: i32, message: Seq<char>)
    ensures
        failure.says(message) <==> failure is Usage && failure->Usage_0@ == message,
        exit.is(code, message) ==> exit.code == code && exit.message is Some && exit.message->0@ == "mcpbytes-vault: "@ + message,
{
}

/// The texts of the arguments are those of each of them, in their order.
pub proof fn texts_are_those_of_the_arguments(args: Seq<String>, i: int)
    requires
        0 <= i < args.len(),
    ensures
        texts(args).len() == args.len(),
        texts(args)[i] == args[i]@,
{
}

} // verus!
