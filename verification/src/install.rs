//! `install`: the program installs itself for the current user. It copies itself to the standard folder,
//! creates a private local-only configuration the first time and keeps it afterwards, and writes the
//! settings for the MCP client. The steps are decided here, one at a time; the caller performs each action
//! and tells how it went.
use crate::config::{Config, Mode, Store};
use crate::platform::Platform;
use crate::text::{is_name, mentions, mentions_between, mentions_within, same};
use vstd::prelude::*;

verus! {

/// What an installation left in place.
#[derive(Debug)]
pub struct Installed {
    pub binary: String,
    pub config: String,
    pub settings: String,
    /// False when an existing configuration was kept.
    pub created_config: bool,
    /// The configuration's store backend, for the summary.
    pub backend: &'static str,
}

/// The paths of an installation.
pub struct Paths {
    pub root: String,
    pub state: String,
    pub keys: String,
    pub config: String,
    pub bin: String,
    pub binary: String,
    pub settings: String,
    /// A folder beside the root, for a second installation.
    pub beside: String,
}

/// The folder of records, below the root.
pub const STATE_FOLDER: &'static str = "state";

/// The folder of private files, below the root.
pub const KEYS_FOLDER: &'static str = "keys";

/// The folder of the program, below the root.
pub const PROGRAM_FOLDER: &'static str = "bin";

/// The configuration, below the root.
pub const CONFIG_FILE: &'static str = "config.json";

/// The settings for the MCP client, below the root.
pub const SETTINGS_FILE: &'static str = "mcp-server.json";

/// The mark of the mcpbytes.com installer, below the root.
pub const MARKER_FILE: &'static str = ".mcpbytes-vault-managed";

/// The permissions of every folder of an installation on Unix: its owner alone uses it.
pub const FOLDER_MODE: u32 = 0o700;

/// The permissions of the program on Unix: its owner alone runs it.
pub const PROGRAM_MODE: u32 = 0o700;

/// The backend of a store, as a configuration names it.
pub open spec fn store_words(store: Store) -> Seq<char> {
    match store {
        Store::PrivateFile { .. } => "private_file"@,
        Store::WindowsCredentialManager => "windows_credential_manager"@,
        Store::MacosKeychain => "macos_keychain"@,
        Store::LinuxSecretService => "linux_secret_service"@,
    }
}

/// The backend of a store, as a configuration names it.
pub fn store_backend(store: &Store) -> (backend: &'static str)
    ensures
        backend@ == store_words(*store),
{
    match store {
        Store::PrivateFile { .. } => "private_file",
        Store::WindowsCredentialManager => "windows_credential_manager",
        Store::MacosKeychain => "macos_keychain",
        Store::LinuxSecretService => "linux_secret_service",
    }
}

/// The file name of the program.
pub fn executable_name(platform: Platform) -> (name: &'static str)
    ensures
        name@ == if platform == Platform::Windows {
            "mcpbytes-vault.exe"@
        } else {
            "mcpbytes-vault"@
        },
{
    if platform == Platform::Windows {
        "mcpbytes-vault.exe"
    } else {
        "mcpbytes-vault"
    }
}

/// The native store of a platform, as a configuration names it.
pub open spec fn spec_native_store(platform: Platform) -> Store {
    match platform {
        Platform::Windows => Store::WindowsCredentialManager,
        Platform::Macos => Store::MacosKeychain,
        _ => Store::LinuxSecretService,
    }
}

/// The store that `install` configures unless asked for private files.
pub fn native_backend(platform: Platform) -> (backend: &'static str)
    ensures
        backend@ == store_words(spec_native_store(platform)),
{
    match platform {
        Platform::Windows => "windows_credential_manager",
        Platform::Macos => "macos_keychain",
        _ => "linux_secret_service",
    }
}

/// Whether this is the configuration that a first installation creates: local only, in the native store
/// or in private files.
pub open spec fn is_initial(config: Config, platform: Platform, paths: Paths, file_store: bool) -> bool {
    &&& config.state_dir == paths.state
    &&& config.store == if file_store {
        Store::PrivateFile { directory: paths.keys }
    } else {
        spec_native_store(platform)
    }
    &&& config.label_prefix@ == "agent-"@
    &&& config.mode == Mode::LocalOnly
    &&& config.remote is None
}

/// The configuration that a first installation creates.
pub fn initial_config(platform: Platform, paths: &Paths, file_store: bool) -> (config: Config)
    ensures
        is_initial(config, platform, *paths, file_store),
{
    let store = if file_store {
        Store::PrivateFile { directory: paths.keys.clone() }
    } else {
        match platform {
            Platform::Windows => Store::WindowsCredentialManager,
            Platform::Macos => Store::MacosKeychain,
            _ => Store::LinuxSecretService,
        }
    };
    Config { state_dir: paths.state.clone(), store, label_prefix: "agent-".to_owned(), mode: Mode::LocalOnly, remote: None }
}

/// The server entry for an MCP client: the name of the server, and the command that starts it.
#[derive(Debug)]
pub struct Settings {
    pub server: &'static str,
    pub command: String,
    pub args: Vec<String>,
}

impl Settings {
    /// Whether this entry starts a program with a configuration.
    pub open spec fn starts(self, binary: Seq<char>, config: Seq<char>) -> bool {
        &&& self.server@ == "mcpbytes-vault"@
        &&& self.command@ == binary
        &&& self.args@.len() == 2
        &&& self.args@[0]@ == "--config"@
        &&& self.args@[1]@ == config
    }
}

/// The server entry of an installation.
pub fn settings(paths: &Paths) -> (settings: Settings)
    ensures
        settings.starts(paths.binary@, paths.config@),
{
    Settings {
        server: "mcpbytes-vault",
        command: paths.binary.clone(),
        args: vec!["--config".to_owned(), paths.config.clone()],
    }
}

/// The name of a folder beside one of this name; a root has none.
pub fn beside_name(name: Option<&str>) -> (beside: String)
    ensures
        beside@ == match name {
            Some(name) => name@,
            None => "mcpbytes-vault"@,
        } + "-local"@,
{
    let mut beside = match name {
        Some(name) => name.to_owned(),
        None => "mcpbytes-vault".to_owned(),
    };
    beside.append("-local");
    beside
}

/// Why a folder of the mcpbytes.com installer is refused, and the two ways forward.
pub open spec fn managed_text(root: Seq<char>, beside: Seq<char>, windows: bool) -> Seq<char> {
    root
        + " holds the MCPBytes release, set up by the mcpbytes.com installer; nothing was changed.\n  To keep that release: update it with its own installer (https://mcpbytes.com/docs/random-bytes).\n  To install this local-only build beside it: mcpbytes-vault install --dir \""@
        + beside + "\"\n  (with the one-line installer: "@ + if windows {
        "$env:MCPBYTES_VAULT_DIR = '"@ + beside + "' before the irm ... | iex line"@
    } else {
        "curl ... | sh -s -- --dir '"@ + beside + "'"@
    } + ")"@
}

fn managed_folder(root: &str, beside: &str, windows: bool) -> (text: String)
    ensures
        text@ == managed_text(root@, beside@, windows),
{
    let mut text = root.to_owned();
    text.append(
        " holds the MCPBytes release, set up by the mcpbytes.com installer; nothing was changed.\n  To keep that release: update it with its own installer (https://mcpbytes.com/docs/random-bytes).\n  To install this local-only build beside it: mcpbytes-vault install --dir \"",
    );
    text.append(beside);
    text.append("\"\n  (with the one-line installer: ");
    let mut one_line = String::new();
    if windows {
        one_line.append("$env:MCPBYTES_VAULT_DIR = '");
        one_line.append(beside);
        one_line.append("' before the irm ... | iex line");
        assert(one_line@ =~= "$env:MCPBYTES_VAULT_DIR = '"@ + beside@ + "' before the irm ... | iex line"@);
    } else {
        one_line.append("curl ... | sh -s -- --dir '");
        one_line.append(beside);
        one_line.append("'");
        assert(one_line@ =~= "curl ... | sh -s -- --dir '"@ + beside@ + "'"@);
    }
    text.append(one_line.as_str());
    text.append(")");
    text
}

/// How far an installation is; the action that comes next.
#[derive(Clone, Copy, Debug, PartialEq, Eq, Structural)]
pub enum Stage {
    /// See whether the mcpbytes.com installer marked the root.
    Marker,
    /// Make the root a private folder.
    Root,
    /// Make the state folder a private one.
    State,
    /// See whether there is a configuration.
    Config,
    /// Make the key folder a private one.
    Keys,
    /// Create the configuration file, readable by its owner only and never over another file.
    Create,
    /// Load the configuration.
    Load,
    /// Make the program's folder a private one.
    Bin,
    /// Copy the program beside its place and rename it over, unless it runs from there.
    Binary,
    /// Write the settings for the MCP client.
    Settings,
}

/// How making a folder private went. A symbolic link is never followed.
#[derive(Clone, Copy, Debug, PartialEq, Eq, Structural)]
pub enum FolderOutcome {
    Symlink,
    NotCreated,
    NotPrivate,
    Done,
}

/// How writing a file went.
#[derive(Clone, Copy, Debug, PartialEq, Eq, Structural)]
pub enum WriteOutcome {
    /// Its contents could not be put into JSON.
    NotEncoded,
    NotCreated,
    NotWritten,
    Done,
}

/// How replacing the program went.
#[derive(Clone, Copy, Debug, PartialEq, Eq, Structural)]
pub enum CopyOutcome {
    /// The running program could not be located.
    Unlocated,
    NotReplaced,
    Done,
}

/// How an action went.
pub enum Event {
    Exists(bool),
    Folder(FolderOutcome),
    Written(WriteOutcome),
    /// The store of the loaded configuration, or the code that it is refused with.
    Loaded(Result<Store, &'static str>),
    Copied(CopyOutcome),
}

/// An installation under way.
pub struct Install {
    pub platform: Platform,
    pub paths: Paths,
    pub file_store: bool,
    pub stage: Stage,
    pub created_config: bool,
    pub backend: &'static str,
}

/// What an event leads to.
pub enum Progress {
    Continue(Install),
    Done(Installed),
}

/// The folder that a stage makes private.
pub open spec fn stage_folder(paths: Paths, stage: Stage) -> Seq<char> {
    match stage {
        Stage::Root => paths.root@,
        Stage::State => paths.state@,
        Stage::Keys => paths.keys@,
        _ => paths.bin@,
    }
}

/// What is said of a folder that could not be made private.
pub open spec fn folder_text(path: Seq<char>, outcome: FolderOutcome) -> Seq<char> {
    match outcome {
        FolderOutcome::Symlink => path + " is a symlink; use a real folder"@,
        FolderOutcome::NotCreated => "cannot create "@ + path,
        _ => "cannot make "@ + path + " private"@,
    }
}

/// What is said of a configuration that is refused.
pub open spec fn load_text(path: Seq<char>, code: Seq<char>) -> Seq<char> {
    if code == "remote_not_built"@ {
        path + " uses a remote mode, which this local-only build does not include"@
    } else {
        code + ": "@ + path
    }
}

impl Install {
    /// The actions of a stage can end in these events.
    pub open spec fn expects(self, event: Event) -> bool {
        match self.stage {
            Stage::Marker | Stage::Config => event is Exists,
            Stage::Root | Stage::State | Stage::Keys | Stage::Bin => event is Folder,
            Stage::Create | Stage::Settings => event is Written,
            Stage::Load => event is Loaded,
            Stage::Binary => event is Copied,
        }
    }

    /// The same installation at another stage.
    pub open spec fn at(self, stage: Stage) -> Install {
        Install { stage, ..self }
    }

    /// What an event leads to: the next stage, the end (`None`), or what went wrong.
    pub open spec fn after(self, event: Event) -> Result<Option<Install>, Seq<char>> {
        match (self.stage, event) {
            (Stage::Marker, Event::Exists(managed)) => if managed {
                Err(managed_text(self.paths.root@, self.paths.beside@, self.platform == Platform::Windows))
            } else {
                Ok(Some(self.at(Stage::Root)))
            },
            (Stage::Config, Event::Exists(exists)) => if exists {
                Ok(Some(Install { created_config: false, ..self.at(Stage::Load) }))
            } else {
                Ok(
                    Some(
                        Install {
                            created_config: true,
                            ..self.at(
                                if self.file_store {
                                    Stage::Keys
                                } else {
                                    Stage::Create
                                },
                            )
                        },
                    ),
                )
            },
            (_, Event::Folder(outcome)) => if outcome == FolderOutcome::Done {
                Ok(
                    Some(
                        self.at(
                            match self.stage {
                                Stage::Root => Stage::State,
                                Stage::State => Stage::Config,
                                Stage::Keys => Stage::Create,
                                _ => Stage::Binary,
                            },
                        ),
                    ),
                )
            } else {
                Err(folder_text(stage_folder(self.paths, self.stage), outcome))
            },
            (Stage::Create, Event::Written(outcome)) => match outcome {
                WriteOutcome::NotEncoded => Err("cannot write the configuration"@),
                WriteOutcome::NotCreated => Err("cannot create "@ + self.paths.config@),
                WriteOutcome::NotWritten => Err("cannot write "@ + self.paths.config@),
                WriteOutcome::Done => Ok(Some(self.at(Stage::Load))),
            },
            (_, Event::Loaded(loaded)) => match loaded {
                Ok(_) => Ok(Some(self.at(Stage::Bin))),
                Err(code) => Err(load_text(self.paths.config@, code@)),
            },
            (_, Event::Copied(outcome)) => match outcome {
                CopyOutcome::Unlocated => Err("cannot locate this executable"@),
                CopyOutcome::NotReplaced => Err(
                    "cannot replace "@ + self.paths.binary@ + ": if an MCP client is running the vault, close it and try again"@,
                ),
                CopyOutcome::Done => Ok(Some(self.at(Stage::Settings))),
            },
            (_, Event::Written(outcome)) => match outcome {
                WriteOutcome::NotEncoded => Err("cannot write the settings"@),
                WriteOutcome::Done => Ok(None),
                _ => Err("cannot write "@ + self.paths.settings@),
            },
            (_, Event::Exists(_)) => Err(seq![]),
        }
    }

    /// The backend that an event settles.
    pub open spec fn backend_after(self, event: Event) -> Seq<char> {
        match event {
            Event::Loaded(Ok(store)) => store_words(store),
            _ => self.backend@,
        }
    }

    /// Whether an event goes on to this state of the installation.
    pub open spec fn leads_to(self, event: Event, install: Install) -> bool {
        &&& self.expects(event)
        &&& self.after(event) matches Ok(Some(expected))
        &&& install.stage == expected.stage
        &&& install.platform == expected.platform
        &&& install.paths == expected.paths
        &&& install.file_store == expected.file_store
        &&& install.created_config == expected.created_config
        &&& install.backend@ == self.backend_after(event)
    }

    /// The next stage, the end, or what went wrong.
    pub fn next(self, event: Event) -> (result: Result<Progress, String>)
        requires
            self.expects(event),
        ensures
            match (result, self.after(event)) {
                (Ok(Progress::Continue(install)), Ok(Some(_))) => self.leads_to(event, install),
                (Ok(Progress::Done(installed)), Ok(None)) => {
                    &&& installed.binary == self.paths.binary
                    &&& installed.config == self.paths.config
                    &&& installed.settings == self.paths.settings
                    &&& installed.created_config == self.created_config
                    &&& installed.backend == self.backend
                },
                (Err(message), Err(expected)) => message@ == expected,
                _ => false,
            },
    {
        proof {
            reveal_strlit("");
            assert(""@.len() == 0);
        }
        let mut install = self;
        match event {
            Event::Exists(exists) => if install.stage == Stage::Marker {
                if exists {
                    return Err(
                        managed_folder(
                            install.paths.root.as_str(),
                            install.paths.beside.as_str(),
                            install.platform == Platform::Windows,
                        ),
                    );
                }
                install.stage = Stage::Root;
            } else {
                install.created_config = !exists;
                install.stage = if exists {
                    Stage::Load
                } else if install.file_store {
                    Stage::Keys
                } else {
                    Stage::Create
                };
            },
            Event::Folder(outcome) => {
                let path = match install.stage {
                    Stage::Root => install.paths.root.as_str(),
                    Stage::State => install.paths.state.as_str(),
                    Stage::Keys => install.paths.keys.as_str(),
                    _ => install.paths.bin.as_str(),
                };
                match outcome {
                    FolderOutcome::Symlink => return Err(around("", path, " is a symlink; use a real folder")),
                    FolderOutcome::NotCreated => return Err(around("cannot create ", path, "")),
                    FolderOutcome::NotPrivate => return Err(around("cannot make ", path, " private")),
                    FolderOutcome::Done => {},
                }
                install.stage = match install.stage {
                    Stage::Root => Stage::State,
                    Stage::State => Stage::Config,
                    Stage::Keys => Stage::Create,
                    _ => Stage::Binary,
                };
            },
            Event::Written(outcome) => if install.stage == Stage::Create {
                let path = install.paths.config.as_str();
                match outcome {
                    WriteOutcome::NotEncoded => return Err("cannot write the configuration".to_owned()),
                    WriteOutcome::NotCreated => return Err(around("cannot create ", path, "")),
                    WriteOutcome::NotWritten => return Err(around("cannot write ", path, "")),
                    WriteOutcome::Done => {},
                }
                install.stage = Stage::Load;
            } else {
                match outcome {
                    WriteOutcome::NotEncoded => return Err("cannot write the settings".to_owned()),
                    WriteOutcome::NotCreated | WriteOutcome::NotWritten => {
                        return Err(around("cannot write ", install.paths.settings.as_str(), ""));
                    },
                    WriteOutcome::Done => {},
                }
                return Ok(
                    Progress::Done(
                        Installed {
                            binary: install.paths.binary,
                            config: install.paths.config,
                            settings: install.paths.settings,
                            created_config: install.created_config,
                            backend: install.backend,
                        },
                    ),
                );
            },
            Event::Loaded(loaded) => match loaded {
                Ok(store) => {
                    install.backend = store_backend(&store);
                    install.stage = Stage::Bin;
                },
                Err(code) => {
                    let path = install.paths.config.as_str();
                    return Err(
                        if same(code, "remote_not_built") {
                            around("", path, " uses a remote mode, which this local-only build does not include")
                        } else {
                            around(code, ": ", path)
                        },
                    );
                },
            },
            Event::Copied(outcome) => {
                match outcome {
                    CopyOutcome::Unlocated => return Err("cannot locate this executable".to_owned()),
                    CopyOutcome::NotReplaced => {
                        return Err(
                            around(
                                "cannot replace ",
                                install.paths.binary.as_str(),
                                ": if an MCP client is running the vault, close it and try again",
                            ),
                        );
                    },
                    CopyOutcome::Done => {},
                }
                install.stage = Stage::Settings;
            },
        }
        Ok(Progress::Continue(install))
    }
}

/// Begins to install into a root folder. `file_store` only applies when no configuration exists yet.
pub fn install(platform: Platform, root_absolute: bool, paths: Paths, file_store: bool) -> (result: Result<Install, String>)
    ensures
        match result {
            Ok(install) => {
                &&& root_absolute
                &&& install.stage == Stage::Marker
                &&& install.platform == platform
                &&& install.paths == paths
                &&& install.file_store == file_store
                &&& !install.created_config
                &&& install.backend@ == ""@
            },
            Err(message) => !root_absolute && message@ == "the install folder must be an absolute path"@,
        },
{
    if !root_absolute {
        return Err("the install folder must be an absolute path".to_owned());
    }
    Ok(Install { platform, paths, file_store, stage: Stage::Marker, created_config: false, backend: "" })
}

/// Three texts in a row; an empty one leaves no trace.
fn around(before: &str, middle: &str, behind: &str) -> (text: String)
    ensures
        text@ == before@ + middle@ + behind@,
        before@.len() == 0 ==> text@ == middle@ + behind@,
        behind@.len() == 0 ==> text@ == before@ + middle@,
{
    let mut text = before.to_owned();
    text.append(middle);
    text.append(behind);
    assert(before@.len() == 0 ==> text@ =~= middle@ + behind@);
    assert(behind@.len() == 0 ==> text@ =~= before@ + middle@);
    text
}

/// Whether these are the states that an installation goes through, with the events between them.
pub open spec fn is_course(states: Seq<Install>, events: Seq<Event>) -> bool {
    &&& states.len() == events.len() + 1
    &&& states[0].stage == Stage::Marker
    &&& forall|i: int| 0 <= i < events.len() ==> (#[trigger] states[i]).leads_to(events[i], states[i + 1])
}

/// The program is replaced only after the configuration was loaded and accepted: a failed installation
/// changes nothing that runs.
pub proof fn the_program_waits_for_the_configuration(states: Seq<Install>, events: Seq<Event>, k: int) -> (j: int)
    requires
        is_course(states, events),
        0 <= k < states.len(),
        states[k].stage == Stage::Binary,
    ensures
        0 <= j < k,
        states[j].stage == Stage::Load,
        events[j] matches Event::Loaded(Ok(_)),
{
    assert(states[k - 1].leads_to(events[k - 1], states[k - 1 + 1]));
    assert(states[k - 1].stage == Stage::Bin);
    assert(states[k - 2].leads_to(events[k - 2], states[k - 2 + 1]));
    k - 2
}

/// The backend that an installation reports is that of the configuration it loaded, whatever the platform.
pub proof fn the_backend_is_that_of_the_configuration(states: Seq<Install>, events: Seq<Event>, k: int) -> (store: Store)
    requires
        is_course(states, events),
        0 <= k < states.len(),
        states[k].stage == Stage::Settings,
    ensures
        events.contains(Event::Loaded(Ok(store))),
        states[k].backend@ == store_words(store),
{
    assert(states[k - 1].leads_to(events[k - 1], states[k - 1 + 1]));
    assert(states[k - 1].stage == Stage::Binary);
    assert(states[k - 2].leads_to(events[k - 2], states[k - 2 + 1]));
    assert(states[k - 2].stage == Stage::Bin);
    assert(states[k - 3].leads_to(events[k - 3], states[k - 3 + 1]));
    events[k - 3]->Loaded_0->Ok_0
}

/// A configuration is created only where there was none: an existing one is always kept.
pub proof fn configurations_are_kept(states: Seq<Install>, events: Seq<Event>, k: int) -> (j: int)
    requires
        is_course(states, events),
        0 <= k < states.len(),
        states[k].stage == Stage::Create,
    ensures
        0 <= j < k,
        states[j].stage == Stage::Config,
        events[j] == Event::Exists(false),
{
    assert(states[k - 1].leads_to(events[k - 1], states[k - 1 + 1]));
    if states[k - 1].stage == Stage::Keys {
        assert(states[k - 2].leads_to(events[k - 2], states[k - 2 + 1]));
        k - 2
    } else {
        k - 1
    }
}

/// A folder that the mcpbytes.com installer marked is refused before any folder is made: nothing comes
/// before that check.
pub proof fn marked_folders_are_refused(states: Seq<Install>, events: Seq<Event>, k: int)
    requires
        is_course(states, events),
        0 < k < states.len(),
    ensures
        states[k].stage != Stage::Marker,
        events[0] == Event::Exists(false),
    decreases k,
{
    assert(states[0].leads_to(events[0], states[1]));
    assert(states[k - 1].leads_to(events[k - 1], states[k - 1 + 1]));
}

/// The configuration that a first installation creates is accepted, by every build, where its paths are
/// absolute.
pub proof fn the_first_configuration_is_accepted(config: Config, platform: Platform, paths: Paths, file_store: bool, remote_built: bool)
    requires
        is_initial(config, platform, paths, file_store),
    ensures
        config.refusal(remote_built, true, true) is None,
{
    reveal_strlit("agent-");
    assert(is_name(config.label_prefix@, 64));
}

/// An installation goes on exactly where the action before succeeded: a marked root, a folder that is not
/// private, a file that is not written, a configuration that is refused and a program that is not replaced
/// all stop it.
pub proof fn failures_stop_an_installation(install: Install, event: Event)
    requires
        install.expects(event),
    ensures
        install.after(event) is Ok <==> match event {
            Event::Exists(there) => install.stage == Stage::Config || !there,
            Event::Folder(outcome) => outcome == FolderOutcome::Done,
            Event::Written(outcome) => outcome == WriteOutcome::Done,
            Event::Loaded(loaded) => loaded is Ok,
            Event::Copied(outcome) => outcome == CopyOutcome::Done,
        },
        install.after(event) == Ok::<Option<Install>, Seq<char>>(None) ==> install.stage == Stage::Settings,
        install.stage == Stage::Settings && install.after(event) is Ok ==> install.after(event)->Ok_0 is None,
{
}

/// Which stage follows which, whatever else the installation holds; nothing but the stage and the two
/// findings about the configuration ever changes.
pub proof fn stages_come_in_order(install: Install, event: Event, next: Install)
    requires
        install.leads_to(event, next),
    ensures
        next.platform == install.platform,
        next.paths == install.paths,
        next.file_store == install.file_store,
        install.stage == Stage::Marker ==> next.stage == Stage::Root,
        install.stage == Stage::Root ==> next.stage == Stage::State,
        install.stage == Stage::State ==> next.stage == Stage::Config,
        install.stage == Stage::Config ==> event is Exists && next.created_config == !event->Exists_0 && next.stage == if event->Exists_0 {
            Stage::Load
        } else if install.file_store {
            Stage::Keys
        } else {
            Stage::Create
        },
        install.stage == Stage::Keys ==> next.stage == Stage::Create,
        install.stage == Stage::Create ==> next.stage == Stage::Load,
        install.stage == Stage::Load ==> next.stage == Stage::Bin && event is Loaded && event->Loaded_0 is Ok,
        install.stage == Stage::Bin ==> next.stage == Stage::Binary,
        install.stage == Stage::Binary ==> next.stage == Stage::Settings,
        install.stage != Stage::Settings,
        install.stage != Stage::Config ==> next.created_config == install.created_config,
        install.stage != Stage::Load ==> next.backend@ == install.backend@,
{
}

/// A failed installation names the path that stopped it.
pub proof fn failures_name_their_path(install: Install, event: Event)
    requires
        install.expects(event),
        install.after(event) is Err,
    ensures
        install.stage == Stage::Marker ==> mentions(install.after(event)->Err_0, install.paths.root@) && mentions(
            install.after(event)->Err_0,
            install.paths.beside@,
        ),
        install.stage == Stage::Root ==> mentions(install.after(event)->Err_0, install.paths.root@),
        install.stage == Stage::State ==> mentions(install.after(event)->Err_0, install.paths.state@),
        install.stage == Stage::Keys ==> mentions(install.after(event)->Err_0, install.paths.keys@),
        install.stage == Stage::Bin ==> mentions(install.after(event)->Err_0, install.paths.bin@),
        install.stage == Stage::Load ==> mentions(install.after(event)->Err_0, install.paths.config@),
        event == Event::Copied(CopyOutcome::NotReplaced) ==> mentions(install.after(event)->Err_0, install.paths.binary@),
        install.stage == Stage::Create && event != Event::Written(WriteOutcome::NotEncoded) ==> mentions(
            install.after(event)->Err_0,
            install.paths.config@,
        ),
        install.stage == Stage::Settings && event != Event::Written(WriteOutcome::NotEncoded) ==> mentions(
            install.after(event)->Err_0,
            install.paths.settings@,
        ),
{
    let text = install.after(event)->Err_0;
    let paths = install.paths;
    let none = Seq::<char>::empty();
    match event {
        Event::Exists(_) => {
            let opening =
                " holds the MCPBytes release, set up by the mcpbytes.com installer; nothing was changed.\n  To keep that release: update it with its own installer (https://mcpbytes.com/docs/random-bytes).\n  To install this local-only build beside it: mcpbytes-vault install --dir \""@;
            let before = paths.root@ + opening;
            let behind = text.skip((before.len() + paths.beside@.len()) as int);
            assert(text =~= none + paths.root@ + text.skip(paths.root@.len() as int));
            mentions_between(none, paths.root@, text.skip(paths.root@.len() as int));
            assert(text =~= before + paths.beside@ + behind);
            mentions_between(before, paths.beside@, behind);
        },
        Event::Folder(outcome) => {
            let path = stage_folder(paths, install.stage);
            path_is_named("cannot create "@, path);
            mentions_between("cannot make "@, path, " private"@);
            assert(none + path + " is a symlink; use a real folder"@ =~= path + " is a symlink; use a real folder"@);
            mentions_between(none, path, " is a symlink; use a real folder"@);
        },
        Event::Written(_) => {
            path_is_named("cannot create "@, paths.config@);
            path_is_named("cannot write "@, paths.config@);
            path_is_named("cannot write "@, paths.settings@);
        },
        Event::Loaded(loaded) => {
            let words = " uses a remote mode, which this local-only build does not include"@;
            assert(none + paths.config@ + words =~= paths.config@ + words);
            mentions_between(none, paths.config@, words);
            path_is_named(loaded->Err_0@ + ": "@, paths.config@);
        },
        Event::Copied(_) => {
            mentions_between("cannot replace "@, paths.binary@, ": if an MCP client is running the vault, close it and try again"@);
        },
    }
}

proof fn path_is_named(before: Seq<char>, path: Seq<char>)
    ensures
        mentions(before + path, path),
{
    let none = Seq::<char>::empty();
    assert(before + path + none =~= before + path);
    mentions_between(before, path, none);
}

/// Different stores have different names, and those of the platforms are their own.
pub proof fn stores_have_their_own_names(store: Store, other: Store, platform: Platform)
    ensures
        store_words(store) == store_words(other) ==> {
            &&& store is PrivateFile <==> other is PrivateFile
            &&& store is WindowsCredentialManager <==> other is WindowsCredentialManager
            &&& store is MacosKeychain <==> other is MacosKeychain
        },
        store_words(store) == if store is PrivateFile {
            "private_file"@
        } else if store is WindowsCredentialManager {
            "windows_credential_manager"@
        } else if store is MacosKeychain {
            "macos_keychain"@
        } else {
            "linux_secret_service"@
        },
        spec_native_store(platform) is WindowsCredentialManager <==> platform == Platform::Windows,
        spec_native_store(platform) is MacosKeychain <==> platform == Platform::Macos,
        spec_native_store(platform) is LinuxSecretService <==> platform != Platform::Windows && platform != Platform::Macos,
{
    reveal_strlit("private_file");
    reveal_strlit("windows_credential_manager");
    reveal_strlit("macos_keychain");
    reveal_strlit("linux_secret_service");
    assert("private_file"@.len() == 12 && "windows_credential_manager"@.len() == 26 && "macos_keychain"@.len() == 14
        && "linux_secret_service"@.len() == 20);
}

/// A first installation keeps its records and its private files below the root, and asks nobody for
/// randomness; private files are used only where they were asked for.
pub proof fn first_configurations_are_local(config: Config, platform: Platform, paths: Paths, file_store: bool)
    requires
        is_initial(config, platform, paths, file_store),
    ensures
        config.state_dir@ == paths.state@,
        config.label_prefix@ == "agent-"@,
        config.mode == Mode::LocalOnly,
        config.remote is None,
        config.store is PrivateFile <==> file_store,
        file_store ==> config.store->directory@ == paths.keys@,
        !file_store ==> store_words(config.store) == store_words(spec_native_store(platform)),
{
}

/// The entry for an MCP client starts the installed program with the installed configuration.
pub proof fn settings_start_the_program(settings: Settings, binary: Seq<char>, config: Seq<char>)
    requires
        settings.starts(binary, config),
    ensures
        settings.command@ == binary,
        settings.args@.len() == 2,
        settings.args@[0]@ == "--config"@,
        settings.args@[1]@ == config,
        settings.server@ == "mcpbytes-vault"@,
{
}

/// What is said of a folder says what is wrong with it: whether it is a link, could not be made, or could
/// not be made private.
pub proof fn folder_failures_are_told_apart(path: Seq<char>)
    ensures
        folder_text(path, FolderOutcome::Symlink) == path + " is a symlink; use a real folder"@,
        folder_text(path, FolderOutcome::NotCreated) == "cannot create "@ + path,
        folder_text(path, FolderOutcome::NotPrivate) == "cannot make "@ + path + " private"@,
{
}

/// A configuration that is refused is named with its code, but for a remote mode, which is explained.
pub proof fn refused_configurations_are_explained(path: Seq<char>, code: Seq<char>)
    ensures
        code != "remote_not_built"@ ==> (code + ": "@).is_prefix_of(load_text(path, code)) && path.is_suffix_of(load_text(path, code)),
        code == "remote_not_built"@ ==> path.is_prefix_of(load_text(path, code)) && mentions(load_text(path, code), "remote mode"@),
{
    let text = load_text(path, code);
    if code == "remote_not_built"@ {
        let words = " uses a remote mode, which this local-only build does not include"@;
        reveal_strlit(" uses a remote mode, which this local-only build does not include");
        reveal_strlit("remote mode");
        assert(text.subrange(0, path.len() as int) =~= path);
        assert(words.subrange(8, 8int + "remote mode"@.len()) =~= "remote mode"@);
        let none = Seq::<char>::empty();
        mentions_within(path, words, none, "remote mode"@);
    } else {
        let head = code + ": "@;
        assert(text.subrange(0, head.len() as int) =~= head);
        assert(text.subrange(text.len() - path.len(), text.len() as int) =~= path);
    }
}

} // verus!
