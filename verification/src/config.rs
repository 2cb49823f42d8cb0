//! The owner's configuration: what it must hold, and where it is looked for.
use crate::encoding::base64url_text;
use crate::platform::{absolute, absolute_answer, Build, FileFacts, Platform};
use crate::sealed::zeros;
use crate::storage::Destination;
use crate::text::{
    chars, code, is_name, is_name_char, is_word_point, name, name_char, name_characters_are_word_points, names_are_words, same, same_bytes,
};
use crate::wire::{decode, decoded, decoded_is, decodes};
use vstd::prelude::*;

verus! {

/// Where the randomness of a secret comes from.
#[derive(Clone, Copy, Debug, PartialEq, Eq, Structural)]
pub enum Mode {
    LocalOnly,
    RemoteRequired,
    RemotePreferred,
}

/// A trusted device key, and the firmware it may run.
pub struct Pin {
    pub public_key: String,
    pub firmware_digests: Vec<String>,
}

/// The remote service.
pub struct Remote {
    pub url: String,
    pub api_key_env: String,
    pub pins: Vec<Pin>,
}

/// Where secrets are stored.
pub enum Store {
    PrivateFile { directory: String },
    WindowsCredentialManager,
    MacosKeychain,
    LinuxSecretService,
}

impl Clone for Store {
    fn clone(&self) -> (copy: Self)
        ensures
            copy == *self,
    {
        match self {
            Store::PrivateFile { directory } => Store::PrivateFile { directory: directory.clone() },
            Store::WindowsCredentialManager => Store::WindowsCredentialManager,
            Store::MacosKeychain => Store::MacosKeychain,
            Store::LinuxSecretService => Store::LinuxSecretService,
        }
    }
}

impl Store {
    /// The same place as a storage destination.
    pub fn destination(&self) -> (destination: Destination)
        ensures
            destination == self.spec_destination(),
    {
        match self {
            Store::PrivateFile { directory } => Destination::PrivateFile(directory.clone()),
            Store::WindowsCredentialManager => Destination::WindowsCredentialManager,
            Store::MacosKeychain => Destination::MacosKeychain,
            Store::LinuxSecretService => Destination::LinuxSecretService,
        }
    }

    /// The same place as a storage destination.
    pub open spec fn spec_destination(&self) -> Destination {
        match self {
            Store::PrivateFile { directory } => Destination::PrivateFile(*directory),
            Store::WindowsCredentialManager => Destination::WindowsCredentialManager,
            Store::MacosKeychain => Destination::MacosKeychain,
            Store::LinuxSecretService => Destination::LinuxSecretService,
        }
    }
}

/// The owner's configuration.
pub struct Config {
    pub state_dir: String,
    pub store: Store,
    pub label_prefix: String,
    pub mode: Mode,
    pub remote: Option<Remote>,
}

/// The one address that the API key is sent to.
pub open spec fn service_url() -> Seq<char> {
    "https://api.mcpbytes.com/v1/sealed-random"@
}

/// The name of an environment variable: between 1 and 100 letters, digits or `_`.
pub open spec fn is_variable(text: Seq<char>) -> bool {
    &&& 1 <= text.len() <= 100
    &&& forall|i: int| 0 <= i < text.len() ==> is_name_char(#[trigger] text[i]) && text[i] != '-'
}

/// A pin holds a key that is not zero, and between 1 and 16 firmware digests.
pub open spec fn pin_ok(pin: Pin) -> bool {
    &&& decodes(pin.public_key@, 32)
    &&& decoded(pin.public_key@) != zeros(32)
    &&& 1 <= pin.firmware_digests@.len() <= 16
    &&& forall|i: int| 0 <= i < pin.firmware_digests@.len() ==> decodes(#[trigger] pin.firmware_digests@[i]@, 32)
}

/// Why the settings of the remote service are refused; `None` where they are not.
pub open spec fn remote_refusal(remote: Remote) -> Option<Seq<char>> {
    if remote.url@ != service_url() {
        Some("invalid_remote_url"@)
    } else if !is_variable(remote.api_key_env@) || !(1 <= remote.pins@.len() <= 16) {
        Some("invalid_config"@)
    } else if exists|i: int| 0 <= i < remote.pins@.len() && !pin_ok(#[trigger] remote.pins@[i]) {
        Some("invalid_pin"@)
    } else {
        None
    }
}

impl Config {
    /// Why the configuration is refused, given which of its two paths are absolute; `None` where it
    /// is not.
    pub open spec fn refusal(self, remote_built: bool, state_absolute: bool, store_absolute: bool) -> Option<Seq<char>> {
        if !state_absolute || !is_name(self.label_prefix@, 64) || (self.store is PrivateFile && !store_absolute) {
            Some("invalid_config"@)
        } else if self.mode == Mode::LocalOnly {
            None
        } else if !remote_built {
            Some("remote_not_built"@)
        } else {
            match self.remote {
                Some(remote) => remote_refusal(remote),
                None => Some("remote_not_configured"@),
            }
        }
    }

    /// The folder of private files; empty for the other stores.
    pub open spec fn spec_folder(self) -> Seq<char> {
        match self.store {
            Store::PrivateFile { directory } => directory@,
            _ => seq![],
        }
    }

    /// Whether a refusal is right, whatever the platform says of its own absolute paths.
    pub open spec fn judged(self, build: Build, refusal: Option<Seq<char>>) -> bool {
        exists|state: bool, store: bool|
            absolute_answer(build.platform, self.state_dir@, state) && absolute_answer(build.platform, self.spec_folder(), store)
                && refusal == #[trigger] self.refusal(build.remote, state, store)
    }

    /// Checks the configuration.
    pub fn validate(&self, build: Build) -> (result: Result<(), &'static str>)
        ensures
            self.judged(build, code(result)),
    {
        let state: bool = absolute(build.platform, self.state_dir.as_str());
        let store: bool = match &self.store {
            Store::PrivateFile { directory } => absolute(build.platform, directory.as_str()),
            _ => false,
        };
        let result = self.validate_with(build.remote, state, store);
        proof {
            assert(absolute_answer(build.platform, self.spec_folder(), store));
            assert(code(result) == self.refusal(build.remote, state, store));
        }
        result
    }

    /// Checks the configuration, given which of its two paths are absolute.
    pub fn validate_with(&self, remote_built: bool, state_absolute: bool, store_absolute: bool) -> (result: Result<(), &'static str>)
        ensures
            code(result) == self.refusal(remote_built, state_absolute, store_absolute),
    {
        if !state_absolute || !valid_label(self.label_prefix.as_str()) {
            return Err("invalid_config");
        }
        if let Store::PrivateFile { .. } = &self.store {
            if !store_absolute {
                return Err("invalid_config");
            }
        }
        if self.mode == Mode::LocalOnly {
            return Ok(());
        }
        // A build without the remote contribution has no network code: remote modes cannot start.
        if !remote_built {
            return Err("remote_not_built");
        }
        match &self.remote {
            Some(remote) => remote.validate(),
            None => Err("remote_not_configured"),
        }
    }
}

/// The largest configuration file.
pub const MAX_FILE: u64 = 16384;

/// Why a configuration file is not read; `None` where it is.
pub open spec fn file_refusal(facts: Option<FileFacts>) -> Option<Seq<char>> {
    match facts {
        None => Some("config_unreadable"@),
        Some(facts) => if !facts.plain_file() || facts.len > MAX_FILE {
            Some("invalid_config"@)
        } else if facts.ownership matches Some(ownership) && !ownership.spec_denies(0o022) {
            Some("unsafe_config_permissions"@)
        } else {
            None
        },
    }
}

impl Config {
    /// Checks the file of a configuration before it is read: a real file of at most 16 KiB that no one
    /// but its owner can write. `facts` is missing where the file has none.
    pub fn check_file(facts: Option<FileFacts>) -> (result: Result<(), &'static str>)
        ensures
            code(result) == file_refusal(facts),
    {
        match facts {
            None => Err("config_unreadable"),
            Some(facts) => {
                if !facts.is_file || facts.is_symlink || facts.len > MAX_FILE {
                    return Err("invalid_config");
                }
                match &facts.ownership {
                    Some(ownership) => if ownership.denies(0o022) {
                        Ok(())
                    } else {
                        Err("unsafe_config_permissions")
                    },
                    None => Ok(()),
                }
            },
        }
    }

    /// The configuration of a file: how many bytes were read of it, and what they parsed to. `read` is
    /// missing where reading failed, `parsed` where the bytes are no configuration.
    pub fn load(read: Option<usize>, parsed: Option<Config>, build: Build) -> (result: Result<Config, &'static str>)
        ensures
            match (read, parsed) {
                (None, _) => code(result) == Some("config_unreadable"@),
                (Some(len), Some(config)) => if len > MAX_FILE {
                    code(result) == Some("invalid_config"@)
                } else {
                    config.judged(build, code(result)) && (result is Ok ==> result->Ok_0 == config)
                },
                (Some(_), None) => code(result) == Some("invalid_config"@),
            },
            result is Ok ==> read is Some && read->0 <= 16384 && parsed == Some(result->Ok_0),
    {
        match read {
            None => return Err("config_unreadable"),
            Some(len) => if len as u64 > MAX_FILE {
                return Err("invalid_config");
            },
        }
        match parsed {
            Some(config) => match config.validate(build) {
                Ok(()) => Ok(config),
                Err(code) => Err(code),
            },
            None => Err("invalid_config"),
        }
    }
}

/// The environment variable that a default location starts from.
#[derive(Clone, Copy, Debug, PartialEq, Eq, Structural)]
pub enum Base {
    LocalAppData,
    Home,
    XdgDataHome,
}

/// A path below the folder that an environment variable names.
pub struct Location {
    pub base: Base,
    pub below: Vec<&'static str>,
}

/// Where the configuration is by default, given which variables are set.
pub open spec fn default_location(platform: Platform, local_app_data: bool, home: bool, xdg_data_home: bool) -> Option<(Base, Seq<Seq<char>>)> {
    match platform {
        Platform::Windows => if local_app_data {
            Some((Base::LocalAppData, seq!["MCPBytes"@, "Vault"@, "config.json"@]))
        } else {
            None
        },
        Platform::Macos => if home {
            Some((Base::Home, seq!["Library/Application Support/MCPBytes/Vault"@, "config.json"@]))
        } else {
            None
        },
        Platform::Linux | Platform::Unix => if xdg_data_home {
            Some((Base::XdgDataHome, seq!["mcpbytes-vault"@, "config.json"@]))
        } else if home {
            Some((Base::Home, seq![".local/share"@, "mcpbytes-vault"@, "config.json"@]))
        } else {
            None
        },
        Platform::Other => None,
    }
}

/// Where the installer writes the configuration by default, for owner commands that name none. Each
/// flag says whether the variable is set and not empty.
pub fn default_path(platform: Platform, local_app_data: bool, home: bool, xdg_data_home: bool) -> (location: Option<Location>)
    ensures
        match (location, default_location(platform, local_app_data, home, xdg_data_home)) {
            (Some(location), Some((base, below))) => {
                location.base == base && location.below@.map_values(|part: &'static str| part@) == below
            },
            (None, None) => true,
            _ => false,
        },
{
    let location = match platform {
        Platform::Windows => if local_app_data {
            Location { base: Base::LocalAppData, below: vec!["MCPBytes", "Vault", "config.json"] }
        } else {
            return None;
        },
        Platform::Macos => if home {
            Location { base: Base::Home, below: vec!["Library/Application Support/MCPBytes/Vault", "config.json"] }
        } else {
            return None;
        },
        Platform::Linux | Platform::Unix => if xdg_data_home {
            Location { base: Base::XdgDataHome, below: vec!["mcpbytes-vault", "config.json"] }
        } else if home {
            Location { base: Base::Home, below: vec![".local/share", "mcpbytes-vault", "config.json"] }
        } else {
            return None;
        },
        Platform::Other => return None,
    };
    proof {
        let (base, below) = default_location(platform, local_app_data, home, xdg_data_home)->0;
        assert(location.below@.map_values(|part: &'static str| part@) =~= below);
    }
    Some(location)
}

impl Remote {
    /// Checks the settings of the remote service.
    pub fn validate(&self) -> (result: Result<(), &'static str>)
        ensures
            code(result) == remote_refusal(*self),
    {
        if let Err(code) = validate_remote_url(self.url.as_str()) {
            return Err(code);
        }
        if !valid_variable(self.api_key_env.as_str()) || self.pins.len() == 0 || self.pins.len() > 16 {
            return Err("invalid_config");
        }
        let mut i: usize = 0;
        while i < self.pins.len()
            invariant
                i <= self.pins@.len(),
                forall|j: int| 0 <= j < i ==> pin_ok(#[trigger] self.pins@[j]),
                self.url@ == service_url(),
                is_variable(self.api_key_env@) && 1 <= self.pins@.len() <= 16,
            decreases self.pins@.len() - i,
        {
            if !self.pins[i].check() {
                assert(!pin_ok(self.pins@[i as int]));
                return Err("invalid_pin");
            }
            i += 1;
        }
        Ok(())
    }
}

impl Pin {
    /// Whether the pin holds a usable key and firmware digests.
    pub fn check(&self) -> (result: bool)
        ensures
            result == pin_ok(*self),
    {
        let public: [u8; 32] = match decode(self.public_key.as_str()) {
            Ok(public) => public,
            Err(_) => return false,
        };
        let zero: [u8; 32] = [0; 32];
        proof {
            decoded_is(self.public_key@, public@);
            assert(zero@ =~= zeros(32));
        }
        if same_bytes(&public, &zero) || self.firmware_digests.len() == 0 || self.firmware_digests.len() > 16 {
            return false;
        }
        let mut i: usize = 0;
        while i < self.firmware_digests.len()
            invariant
                i <= self.firmware_digests@.len(),
                forall|j: int| 0 <= j < i ==> decodes(#[trigger] self.firmware_digests@[j]@, 32),
            decreases self.firmware_digests@.len() - i,
        {
            let digest: Result<[u8; 32], _> = decode(self.firmware_digests[i].as_str());
            match digest {
                Ok(bytes) => {
                    assert(base64url_text(bytes@) == self.firmware_digests@[i as int]@);
                },
                Err(_) => return false,
            }
            i += 1;
        }
        true
    }
}

/// A label: between 1 and 64 letters, digits, `_` or `-`.
pub fn valid_label(value: &str) -> (result: bool)
    ensures
        result == is_name(value@, 64),
{
    name(value, 64)
}

/// Whether a text names an environment variable.
#[verifier::loop_isolation(false)]
fn valid_variable(value: &str) -> (result: bool)
    ensures
        result == is_variable(value@),
{
    let all = chars(value);
    if all.len() == 0 || all.len() > 100 {
        return false;
    }
    let mut i: usize = 0;
    while i < all.len()
        invariant
            i <= all@.len(),
            forall|j: int| 0 <= j < i ==> is_name_char(#[trigger] all@[j]) && all@[j] != '-',
        decreases all@.len() - i,
    {
        if !name_char(all[i]) || all[i] == '-' {
            return false;
        }
        i += 1;
    }
    true
}

/// The agent cannot send its API key to another address.
pub fn validate_remote_url(value: &str) -> (result: Result<(), &'static str>)
    ensures
        match result {
            Ok(()) => value@ == service_url(),
            Err(code) => value@ != service_url() && code@ == "invalid_remote_url"@,
        },
{
    if same(value, "https://api.mcpbytes.com/v1/sealed-random") {
        Ok(())
    } else {
        Err("invalid_remote_url")
    }
}

/// A variable's name, spelled out: letters, digits and `_`, at most a hundred of them.
pub proof fn variables_are_words(text: Seq<char>)
    ensures
        is_variable(text) <==> 1 <= text.len() <= 100 && forall|i: int|
            0 <= i < text.len() ==> is_word_point(#[trigger] text[i] as int) && text[i] as int != 45,
{
    if is_variable(text) {
        assert forall|i: int| 0 <= i < text.len() implies is_word_point(#[trigger] text[i] as int) && text[i] as int != 45 by {
            name_characters_are_word_points(text[i]);
        }
    }
    if 1 <= text.len() <= 100 && forall|i: int| 0 <= i < text.len() ==> is_word_point(#[trigger] text[i] as int) && text[i] as int != 45 {
        assert forall|i: int| 0 <= i < text.len() implies is_name_char(#[trigger] text[i]) && text[i] != '-' by {
            name_characters_are_word_points(text[i]);
        }
    }
}

/// A pin is usable exactly where its key is the base64url form of 32 bytes that are not all zero, and each
/// of its one to sixteen digests is the base64url form of 32 bytes.
pub proof fn pins_hold_a_key_and_digests(pin: Pin)
    ensures
        pin_ok(pin) <==> {
            &&& exists|key: Seq<u8>, i: int|
                key.len() == 32 && 0 <= i < 32 && #[trigger] key[i] != 0 && #[trigger] base64url_text(key) == pin.public_key@
            &&& 1 <= pin.firmware_digests@.len() <= 16
            &&& forall|i: int| 0 <= i < pin.firmware_digests@.len() ==> exists|digest: Seq<u8>|
                digest.len() == 32 && #[trigger] base64url_text(digest) == (#[trigger] pin.firmware_digests@[i])@
        },
{
    let keyed = exists|key: Seq<u8>, i: int|
        key.len() == 32 && 0 <= i < 32 && #[trigger] key[i] != 0 && #[trigger] base64url_text(key) == pin.public_key@;
    if keyed {
        let (key, i) = choose|key: Seq<u8>, i: int|
            key.len() == 32 && 0 <= i < 32 && #[trigger] key[i] != 0 && #[trigger] base64url_text(key) == pin.public_key@;
        decoded_is(pin.public_key@, key);
        assert(zeros(32)[i] == 0);
    }
    if decodes(pin.public_key@, 32) && decoded(pin.public_key@) != zeros(32) {
        let key = choose|bytes: Seq<u8>| bytes.len() == 32 && #[trigger] base64url_text(bytes) == pin.public_key@;
        decoded_is(pin.public_key@, key);
        if forall|i: int| 0 <= i < 32 ==> #[trigger] key[i] == 0 {
            assert(key =~= zeros(32));
        }
        let i = choose|i: int| 0 <= i < 32 && #[trigger] key[i] != 0;
        assert(key[i] != 0 && base64url_text(key) == pin.public_key@);
    }
}

/// Which configurations are accepted, and the code that each of the others is refused with. Every pin
/// counts, wherever it stands.
pub proof fn configurations_are_judged_in_order(config: Config, remote_built: bool, state_absolute: bool, store_absolute: bool)
    ensures
        ({
            let prefix = config.label_prefix@;
            let local = state_absolute && 1 <= prefix.len() <= 64 && (forall|i: int|
                0 <= i < prefix.len() ==> is_word_point(#[trigger] prefix[i] as int)) && (config.store is PrivateFile ==> store_absolute);
            let remote = config.remote->0;
            config.refusal(remote_built, state_absolute, store_absolute) == if !local {
                Some("invalid_config"@)
            } else if config.mode == Mode::LocalOnly {
                None
            } else if !remote_built {
                Some("remote_not_built"@)
            } else if config.remote is None {
                Some("remote_not_configured"@)
            } else if remote.url@ != "https://api.mcpbytes.com/v1/sealed-random"@ {
                Some("invalid_remote_url"@)
            } else if !is_variable(remote.api_key_env@) || remote.pins@.len() < 1 || remote.pins@.len() > 16 {
                Some("invalid_config"@)
            } else if !(forall|i: int| 0 <= i < remote.pins@.len() ==> pin_ok(#[trigger] remote.pins@[i])) {
                Some("invalid_pin"@)
            } else {
                None
            }
        }),
{
    names_are_words(config.label_prefix@, 64);
}

/// On Unix a configuration is judged by the first characters of its paths.
pub proof fn unix_configurations_name_absolute_paths(config: Config, build: Build, refusal: Option<Seq<char>>)
    requires
        config.judged(build, refusal),
        build.platform == Platform::Linux || build.platform == Platform::Macos || build.platform == Platform::Unix,
    ensures
        refusal == config.refusal(
            build.remote,
            config.state_dir@.len() > 0 && config.state_dir@[0] == '/',
            match config.store {
                Store::PrivateFile { directory } => directory@.len() > 0 && directory@[0] == '/',
                _ => true,
            },
        ),
{
}

/// A configuration file is read exactly where it is a real file of at most 16 KiB that, where the platform
/// knows owners, is this user's and grants the group and others no writing.
pub proof fn configuration_files_are_the_owners(facts: Option<FileFacts>)
    ensures
        file_refusal(facts) == match facts {
            None => Some("config_unreadable"@),
            Some(facts) => if !facts.is_file || facts.is_symlink || facts.len > 16384 {
                Some("invalid_config"@)
            } else if facts.ownership is Some && (facts.ownership->0.uid != facts.ownership->0.euid || facts.ownership->0.mode & 18 != 0) {
                Some("unsafe_config_permissions"@)
            } else {
                None
            },
        },
{
}

/// Every store is a destination of its own.
pub proof fn stores_keep_their_destination(store: Store)
    ensures
        match (store, store.spec_destination()) {
            (Store::PrivateFile { directory }, Destination::PrivateFile(folder)) => folder@ == directory@,
            (Store::WindowsCredentialManager, Destination::WindowsCredentialManager) => true,
            (Store::MacosKeychain, Destination::MacosKeychain) => true,
            (Store::LinuxSecretService, Destination::LinuxSecretService) => true,
            _ => false,
        },
{
}

/// The default configuration is below a folder of the user that the platform names, in a file of its own;
/// it is found wherever one of the platform's variables is set.
pub proof fn default_locations_follow_the_platform(platform: Platform, local_app_data: bool, home: bool, xdg_data_home: bool)
    ensures
        default_location(platform, local_app_data, home, xdg_data_home) is Some <==> {
            ||| platform == Platform::Windows && local_app_data
            ||| platform == Platform::Macos && home
            ||| (platform == Platform::Linux || platform == Platform::Unix) && (xdg_data_home || home)
        },
        default_location(platform, local_app_data, home, xdg_data_home) matches Some((base, below)) ==> {
            &&& below.len() >= 2
            &&& below.last() == "config.json"@
            &&& base == Base::LocalAppData ==> platform == Platform::Windows && local_app_data
            &&& base == Base::XdgDataHome ==> xdg_data_home && (platform == Platform::Linux || platform == Platform::Unix)
            &&& base == Base::Home ==> home && (platform == Platform::Macos || !xdg_data_home)
        },
{
}

} // verus!
