//! Only receipts are returned to agents. There is no default store and no fallback to a weaker one.
//! Reading and deleting serve the owner's terminal commands, never the agent's tools.
use crate::crypto::wipe;
use crate::platform::{absolute, absolute_answer, FileFacts, Found, Platform};
use crate::protocol::MAX_BYTES;
use crate::text::{chars, contents, decimal, decimal_is_digits, decimal_is_injective, decimal_text, is_name, is_name_char, is_word_point, name_char, name_characters_are_word_points, same_bytes};
use vstd::prelude::*;

verus! {

/// Why the store refuses.
#[derive(Clone, Copy, Debug, PartialEq, Eq, Structural)]
pub enum Error {
    InvalidDestination,
    UnsafeDirectory,
    UnsupportedPlatform,
    StoreUnavailable,
    EntropyUnavailable,
    AuthenticationFailed,
    NotFound,
}

/// Where a secret goes.
pub enum Destination {
    PrivateFile(String),
    WindowsCredentialManager,
    LinuxSecretService,
    MacosKeychain,
}

/// What is told of a stored secret.
#[derive(Clone, Debug)]
pub struct Receipt {
    pub reference: String,
    pub bytes: usize,
    pub backend: String,
    /// The native store's own lookup name, where it differs from the reference.
    pub store_name: Option<String>,
}

/// Native stores keep every item under this service; the account is `label#version`.
pub const SERVICE: &'static str = "mcpbytes-vault";

/// The name of one version of a label.
pub open spec fn entry(label: Seq<char>, version: nat) -> Seq<char> {
    label + seq!['#'] + decimal(version)
}

/// The name of one version of a label.
pub fn entry_name(label: &str, version: u64) -> (result: String)
    ensures
        result@ == entry(label@, version as nat),
{
    let mut result = label.to_owned();
    result.push('#');
    result.append(decimal_text(version).as_str());
    assert(result@ =~= entry(label@, version as nat));
    result
}

/// A name in the store: between 1 and 100 letters, digits, `_`, `-` or `#`.
pub open spec fn is_entry(name: Seq<char>) -> bool {
    &&& 1 <= name.len() <= 100
    &&& forall|i: int| 0 <= i < name.len() ==> is_name_char(#[trigger] name[i]) || name[i] == '#'
}

/// Checks a name in the store.
#[verifier::loop_isolation(false)]
fn check_name(name: &str) -> (result: Result<(), Error>)
    ensures
        match result {
            Ok(()) => is_entry(name@),
            Err(error) => !is_entry(name@) && error == Error::InvalidDestination,
        },
{
    let all = chars(name);
    if all.len() == 0 || all.len() > 100 {
        return Err(Error::InvalidDestination);
    }
    let mut i: usize = 0;
    while i < all.len()
        invariant
            i <= all@.len(),
            forall|j: int| 0 <= j < i ==> is_name_char(#[trigger] all@[j]) || all@[j] == '#',
        decreases all@.len() - i,
    {
        if !name_char(all[i]) && all[i] != '#' {
            return Err(Error::InvalidDestination);
        }
        i += 1;
    }
    Ok(())
}

/// The backend of a native destination, and the platform that has it.
pub open spec fn native(destination: Destination) -> Option<(Seq<char>, Platform)> {
    match destination {
        Destination::PrivateFile(_) => None,
        Destination::WindowsCredentialManager => Some(("windows_credential_manager"@, Platform::Windows)),
        Destination::LinuxSecretService => Some(("linux_secret_service"@, Platform::Linux)),
        Destination::MacosKeychain => Some(("macos_keychain"@, Platform::Macos)),
    }
}

/// The backend of a native destination on this platform.
fn native_backend(platform: Platform, destination: &Destination) -> (result: Result<&'static str, Error>)
    ensures
        match (result, native(*destination)) {
            (Ok(backend), Some((expected, supported))) => backend@ == expected && platform == supported,
            (Err(error), Some((_, supported))) => platform != supported && error == Error::UnsupportedPlatform,
            (Err(error), None) => error == Error::InvalidDestination,
            (Ok(_), None) => false,
        },
{
    match destination {
        Destination::PrivateFile(_) => Err(Error::InvalidDestination),
        Destination::WindowsCredentialManager => if platform == Platform::Windows {
            Ok("windows_credential_manager")
        } else {
            Err(Error::UnsupportedPlatform)
        },
        Destination::LinuxSecretService => if platform == Platform::Linux {
            Ok("linux_secret_service")
        } else {
            Err(Error::UnsupportedPlatform)
        },
        Destination::MacosKeychain => if platform == Platform::Macos {
            Ok("macos_keychain")
        } else {
            Err(Error::UnsupportedPlatform)
        },
    }
}

/// Where exactly an entry lies: a file of this name in a folder, or the native store.
pub enum Place {
    File { directory: String, file: String },
    Native { backend: &'static str },
}

/// Why an entry has no place, given whether the folder of private files is absolute; `None` where it
/// has one.
pub open spec fn place_refusal(platform: Platform, destination: Destination, name: Seq<char>, folder_absolute: bool) -> Option<Error> {
    if !is_entry(name) {
        Some(Error::InvalidDestination)
    } else {
        match native(destination) {
            None => if folder_absolute {
                None
            } else {
                Some(Error::InvalidDestination)
            },
            Some((_, supported)) => if platform == supported {
                None
            } else {
                Some(Error::UnsupportedPlatform)
            },
        }
    }
}

/// The folder of a private file; empty for native stores.
pub open spec fn folder(destination: Destination) -> Seq<char> {
    match destination {
        Destination::PrivateFile(directory) => directory@,
        _ => seq![],
    }
}

/// Whether a place is that of an entry.
pub open spec fn is_place(place: Place, destination: Destination, name: Seq<char>) -> bool {
    match (place, native(destination)) {
        (Place::File { directory, file }, None) => directory@ == folder(destination) && file@ == name + ".key"@,
        (Place::Native { backend }, Some((expected, _))) => backend@ == expected,
        _ => false,
    }
}

/// Whether a result is right, whatever the platform says of its own absolute paths.
pub open spec fn placed(platform: Platform, destination: Destination, name: Seq<char>, result: Result<Place, Error>) -> bool {
    exists|absolute: bool|
        absolute_answer(platform, folder(destination), absolute) && match (
            result,
            #[trigger] place_refusal(platform, destination, name, absolute),
        ) {
            (Ok(place), None) => is_place(place, destination, name),
            (Err(error), Some(expected)) => error == expected,
            _ => false,
        }
}

/// Where an entry lies.
fn place(platform: Platform, destination: &Destination, name: &str) -> (result: Result<Place, Error>)
    ensures
        placed(platform, *destination, name@, result),
{
    let known: bool = match destination {
        Destination::PrivateFile(directory) => absolute(platform, directory.as_str()),
        _ => false,
    };
    let result = place_with(platform, destination, name, known);
    proof {
        let refusal = place_refusal(platform, *destination, name@, known);
        assert(absolute_answer(platform, folder(*destination), known));
    }
    result
}

/// Where an entry lies, given whether the folder of private files is absolute.
pub fn place_with(platform: Platform, destination: &Destination, name: &str, folder_absolute: bool) -> (result: Result<Place, Error>)
    ensures
        match (result, place_refusal(platform, *destination, name@, folder_absolute)) {
            (Ok(place), None) => is_place(place, *destination, name@),
            (Err(error), Some(expected)) => error == expected,
            _ => false,
        },
{
    if let Err(error) = check_name(name) {
        return Err(error);
    }
    match destination {
        Destination::PrivateFile(directory) => {
            if !folder_absolute {
                return Err(Error::InvalidDestination);
            }
            let mut file = name.to_owned();
            file.append(".key");
            Ok(Place::File { directory: directory.clone(), file })
        },
        _ => match native_backend(platform, destination) {
            Ok(backend) => Ok(Place::Native { backend }),
            Err(error) => Err(error),
        },
    }
}

/// Where a new secret is saved: between 1 and 64 bytes under a valid name.
pub fn save(platform: Platform, destination: &Destination, name: &str, bytes: &[u8]) -> (result: Result<Place, Error>)
    ensures
        if 1 <= bytes@.len() <= MAX_BYTES {
            placed(platform, *destination, name@, result)
        } else {
            result == Err::<Place, Error>(Error::InvalidDestination)
        },
{
    if bytes.len() == 0 || bytes.len() > MAX_BYTES {
        return Err(Error::InvalidDestination);
    }
    place(platform, destination, name)
}

/// Where a secret is read from, for the owner's commands only.
pub fn read(platform: Platform, destination: &Destination, name: &str) -> (result: Result<Place, Error>)
    ensures
        placed(platform, *destination, name@, result),
{
    place(platform, destination, name)
}

/// Where a secret is deleted.
pub fn delete(platform: Platform, destination: &Destination, name: &str) -> (result: Result<Place, Error>)
    ensures
        placed(platform, *destination, name@, result),
{
    place(platform, destination, name)
}

/// Checks the folder of private files: a real folder that only its owner can use.
pub fn check_folder(facts: Option<FileFacts>) -> (result: Result<(), Error>)
    ensures
        match result {
            Ok(()) => facts matches Some(facts) && facts.private_folder(),
            Err(error) => {
                &&& error == Error::UnsafeDirectory
                &&& facts matches Some(facts) ==> !facts.private_folder()
            },
        },
{
    match facts {
        Some(facts) => if facts.is_private_folder() {
            Ok(())
        } else {
            Err(Error::UnsafeDirectory)
        },
        None => Err(Error::UnsafeDirectory),
    }
}

/// How far writing a private file got.
#[derive(Clone, Copy, Debug, PartialEq, Eq, Structural)]
pub enum FileWrite {
    NotCreated(Error),
    NotWritten,
    FolderNotSynced,
    Done,
}

impl FileWrite {
    /// Whether the file is removed again: one that was created and could not be written.
    pub fn removes(self) -> (result: bool)
        ensures
            result == (self == FileWrite::NotWritten),
    {
        match self {
            FileWrite::NotWritten => true,
            _ => false,
        }
    }
}

/// The receipt of a private file of `bytes` bytes at the path `reference`.
pub fn file_saved(outcome: FileWrite, reference: &str, bytes: usize) -> (result: Result<Receipt, Error>)
    ensures
        match (outcome, result) {
            (FileWrite::NotCreated(error), Err(refusal)) => refusal == error,
            (FileWrite::NotWritten, Err(refusal)) => refusal == Error::StoreUnavailable,
            (FileWrite::FolderNotSynced, Err(refusal)) => refusal == Error::StoreUnavailable,
            (FileWrite::Done, Ok(receipt)) => {
                &&& receipt.reference@ == reference@
                &&& receipt.bytes == bytes
                &&& receipt.backend@ == "private_file"@
                &&& receipt.store_name is None
            },
            _ => false,
        },
{
    match outcome {
        FileWrite::NotCreated(error) => Err(error),
        FileWrite::NotWritten => Err(Error::StoreUnavailable),
        FileWrite::FolderNotSynced => Err(Error::StoreUnavailable),
        FileWrite::Done => Ok(
            Receipt { reference: reference.to_owned(), bytes, backend: "private_file".to_owned(), store_name: None },
        ),
    }
}

/// Decides whether an item of the native store may be written: only where there is none yet, so that
/// none is ever replaced. What was found is wiped.
pub fn before_write(found: Found<Vec<u8>>) -> (result: Result<(), Error>)
    ensures
        match result {
            Ok(()) => found is Missing,
            Err(error) => !(found is Missing) && error == Error::StoreUnavailable,
        },
{
    match found {
        Found::Missing => Ok(()),
        Found::Value(mut existing) => {
            wipe(existing.as_mut_slice());
            Err(Error::StoreUnavailable)
        },
        Found::Failed => Err(Error::StoreUnavailable),
    }
}

/// The reference of an item of the native store.
pub open spec fn native_reference(id: Seq<char>) -> Seq<char> {
    "vault:mcpbytes-vault/"@ + id
}

/// The name that Windows looks an item up by.
pub open spec fn windows_target(id: Seq<char>) -> Seq<char> {
    id + ".mcpbytes-vault"@
}

/// The receipt of an item of the native store, once it reads back as the bytes that were written.
/// `readback` is missing where the write or the read failed.
pub fn native_saved(platform: Platform, id: &str, bytes: &[u8], backend: &'static str, readback: Option<Vec<u8>>) -> (result: Result<Receipt, Error>)
    ensures
        match result {
            Ok(receipt) => {
                &&& readback matches Some(readback) && readback@ == bytes@
                &&& receipt.reference@ == native_reference(id@)
                &&& receipt.bytes == bytes@.len()
                &&& receipt.backend@ == backend@
                &&& contents(receipt.store_name) == if platform == Platform::Windows {
                    Some(windows_target(id@))
                } else {
                    None
                }
            },
            Err(error) => {
                &&& error == Error::StoreUnavailable
                &&& readback matches Some(readback) ==> readback@ != bytes@
            },
        },
{
    let mut stored = match readback {
        Some(stored) => stored,
        None => return Err(Error::StoreUnavailable),
    };
    let equal: bool = same_bytes(&stored, bytes);
    wipe(stored.as_mut_slice());
    if !equal {
        return Err(Error::StoreUnavailable);
    }
    let mut reference = "vault:mcpbytes-vault/".to_owned();
    reference.append(id);
    let store_name = if platform == Platform::Windows {
        let mut target = id.to_owned();
        target.append(".mcpbytes-vault");
        Some(target)
    } else {
        None
    };
    Ok(Receipt { reference, bytes: bytes.len(), backend: backend.to_owned(), store_name })
}

/// What is known of the file of a stored secret before it is read.
pub open spec fn secret_file(facts: Found<FileFacts>) -> Result<(), Error> {
    match facts {
        Found::Missing => Err(Error::NotFound),
        Found::Failed => Err(Error::StoreUnavailable),
        Found::Value(facts) => if facts.plain_file() {
            Ok(())
        } else {
            Err(Error::UnsafeDirectory)
        },
    }
}

/// Checks the file of a stored secret before it is read.
pub fn check_secret_file(facts: Found<FileFacts>) -> (result: Result<(), Error>)
    ensures
        result == secret_file(facts),
{
    match facts {
        Found::Missing => Err(Error::NotFound),
        Found::Failed => Err(Error::StoreUnavailable),
        Found::Value(facts) => if !facts.is_file || facts.is_symlink {
            Err(Error::UnsafeDirectory)
        } else {
            Ok(())
        },
    }
}

/// The secret in a private file, given what was read of it.
pub open spec fn file_secret(bytes: Option<Vec<u8>>) -> Result<Vec<u8>, Error> {
    match bytes {
        Some(bytes) => if 1 <= bytes@.len() <= MAX_BYTES {
            Ok(bytes)
        } else {
            Err(Error::StoreUnavailable)
        },
        None => Err(Error::StoreUnavailable),
    }
}

/// The secret in a private file: between 1 and 64 bytes. `bytes` is missing where reading failed; of a
/// longer file at least 65 bytes are read. What is refused is wiped.
pub fn file_read(bytes: Option<Vec<u8>>) -> (result: Result<Vec<u8>, Error>)
    ensures
        result == file_secret(bytes),
{
    match bytes {
        Some(mut bytes) => if bytes.len() == 0 || bytes.len() > MAX_BYTES {
            wipe(bytes.as_mut_slice());
            Err(Error::StoreUnavailable)
        } else {
            Ok(bytes)
        },
        None => Err(Error::StoreUnavailable),
    }
}

/// The secret in an item of the native store.
pub fn native_read(found: Found<Vec<u8>>) -> (result: Result<Vec<u8>, Error>)
    ensures
        match (found, result) {
            (Found::Value(bytes), Ok(secret)) => secret == bytes,
            (Found::Missing, Err(error)) => error == Error::NotFound,
            (Found::Failed, Err(error)) => error == Error::StoreUnavailable,
            _ => false,
        },
{
    match found {
        Found::Value(bytes) => Ok(bytes),
        Found::Missing => Err(Error::NotFound),
        Found::Failed => Err(Error::StoreUnavailable),
    }
}

/// What removing an entry came to.
pub open spec fn deletion(found: Found<()>) -> Result<bool, Error> {
    match found {
        Found::Value(_) => Ok(true),
        Found::Missing => Ok(false),
        Found::Failed => Err(Error::StoreUnavailable),
    }
}

/// Whether the store still held a deleted secret; `false` where it was already gone.
pub fn deleted(found: Found<()>) -> (result: Result<bool, Error>)
    ensures
        result == deletion(found),
{
    match found {
        Found::Value(_) => Ok(true),
        Found::Missing => Ok(false),
        Found::Failed => Err(Error::StoreUnavailable),
    }
}

/// The permissions of a private file on Unix: its owner alone reads and writes it.
pub const PRIVATE_MODE: u32 = 0o600;

/// The access list of a private file on Windows: its owner alone, and nothing inherited.
pub const PRIVATE_DACL: &'static str = "D:P(A;;FA;;;OW)";

/// The flag of a Windows volume that keeps access lists.
pub const PERSISTENT_ACLS: u32 = 8;

/// Checks that a Windows volume keeps access lists, before a private file is created on it. `flags` is
/// missing where the volume has none.
pub fn check_volume(flags: Option<u32>) -> (result: Result<(), Error>)
    ensures
        match result {
            Ok(()) => flags matches Some(flags) && flags & PERSISTENT_ACLS != 0,
            Err(error) => {
                &&& error == Error::UnsafeDirectory
                &&& flags matches Some(flags) ==> flags & PERSISTENT_ACLS == 0
            },
        },
        result is Ok <==> flags is Some && flags->0 & 8 != 0,
{
    match flags {
        Some(flags) => if flags & PERSISTENT_ACLS != 0 {
            Ok(())
        } else {
            Err(Error::UnsafeDirectory)
        },
        None => Err(Error::UnsafeDirectory),
    }
}

/// Whether a private file was created: only where the platform has private files and no file of that name
/// was there before.
pub fn created(platform: Platform, opened: bool) -> (result: Result<(), Error>)
    ensures
        result == if platform == Platform::Other {
            Err::<(), Error>(Error::UnsupportedPlatform)
        } else if opened {
            Ok(())
        } else {
            Err(Error::StoreUnavailable)
        },
{
    if platform == Platform::Other {
        Err(Error::UnsupportedPlatform)
    } else if opened {
        Ok(())
    } else {
        Err(Error::StoreUnavailable)
    }
}

/// A secret only ever goes where the configuration says: private files to their folder, and native
/// destinations to the store of their own platform. There is no other outcome but an error.
pub proof fn there_is_no_fallback(platform: Platform, destination: Destination, name: Seq<char>, place: Place)
    requires
        placed(platform, destination, name, Ok(place)),
    ensures
        place is File <==> destination is PrivateFile,
        place matches Place::File { directory, file } ==> directory@ == folder(destination) && file@ == name + ".key"@,
        place matches Place::Native { backend } ==> native(destination) == Some((backend@, platform)),
        is_entry(name),
{
}

/// Two entry names are equal only for the same label and the same version: no version of a secret
/// shares its place with another.
pub proof fn entry_is_injective(a: Seq<char>, v: nat, b: Seq<char>, w: nat)
    requires
        entry(a, v) == entry(b, w),
    ensures
        a == b,
        v == w,
{
    let x = entry(a, v);
    let y = entry(b, w);
    decimal_is_digits(v);
    decimal_is_digits(w);
    assert(x[a.len() as int] == '#' && y[b.len() as int] == '#');
    assert(x.len() == a.len() + 1 + decimal(v).len() && y.len() == b.len() + 1 + decimal(w).len());
    if a.len() < b.len() {
        assert(x[b.len() as int] == decimal(v)[b.len() - a.len() - 1]);
    } else if b.len() < a.len() {
        assert(y[a.len() as int] == decimal(w)[a.len() - b.len() - 1]);
    }
    assert(x.take(a.len() as int) =~= a && y.take(b.len() as int) =~= b);
    assert(x.skip(a.len() as int + 1) =~= decimal(v) && y.skip(b.len() as int + 1) =~= decimal(w));
    decimal_is_injective(v, w);
}

/// Files that nobody but the vault touches: their contents, by folder and name.
pub struct Files {
    pub contents: Map<(Seq<char>, Seq<char>), Seq<u8>>,
}

/// The folder and the name of a place among files.
pub open spec fn address(place: Place) -> (Seq<char>, Seq<char>) {
    (place->directory@, place->file@)
}

impl Files {
    /// Whether a file can be created at a place: none is ever replaced.
    pub open spec fn has_room(self, place: Place) -> bool {
        !self.contents.contains_key(address(place))
    }

    /// The files once a new one is written.
    pub open spec fn with(self, place: Place, bytes: Seq<u8>) -> Files {
        Files { contents: self.contents.insert(address(place), bytes) }
    }

    /// The files once one is removed.
    pub open spec fn without(self, place: Place) -> Files {
        Files { contents: self.contents.remove(address(place)) }
    }

    /// Whether these are the facts about the file at a place. Every file here is a real one.
    pub open spec fn shows(self, place: Place, facts: Found<FileFacts>) -> bool {
        match facts {
            Found::Value(facts) => self.contents.contains_key(address(place)) && facts.plain_file(),
            Found::Missing => !self.contents.contains_key(address(place)),
            Found::Failed => false,
        }
    }

    /// Whether this is what reading the file at a place gives: all of it, or at least 65 bytes.
    pub open spec fn reads(self, place: Place, bytes: Option<Vec<u8>>) -> bool {
        self.contents.contains_key(address(place)) ==> {
            let all = self.contents[address(place)];
            &&& bytes matches Some(read)
            &&& read@.is_prefix_of(all)
            &&& read@.len() == all.len() || read@.len() > MAX_BYTES
        }
    }

    /// Whether this is what removing the file at a place finds.
    pub open spec fn removes(self, place: Place, found: Found<()>) -> bool {
        match found {
            Found::Value(_) => self.contents.contains_key(address(place)),
            Found::Missing => !self.contents.contains_key(address(place)),
            Found::Failed => false,
        }
    }
}

/// Reading and deleting go to the place that saving went to: on Unix always, elsewhere wherever they go
/// anywhere.
pub proof fn entries_keep_their_place(platform: Platform, destination: Destination, name: Seq<char>, place: Place, again: Result<Place, Error>)
    requires
        destination is PrivateFile,
        placed(platform, destination, name, Ok(place)),
        placed(platform, destination, name, again),
    ensures
        platform.spec_unix() ==> again is Ok,
        again matches Ok(other) ==> address(other) == address(place),
{
}

/// Two entries of one folder share a file only where their names are equal.
pub proof fn entries_have_their_own_files(platform: Platform, destination: Destination, a: Seq<char>, b: Seq<char>, x: Place, y: Place)
    requires
        destination is PrivateFile,
        placed(platform, destination, a, Ok(x)),
        placed(platform, destination, b, Ok(y)),
        address(x) == address(y),
    ensures
        a == b,
{
    let tail = ".key"@;
    let (p, q) = (a + tail, b + tail);
    assert(p == q);
    assert(p.len() == a.len() + tail.len() && q.len() == b.len() + tail.len());
    assert(p.take(a.len() as int) =~= a && q.take(b.len() as int) =~= b);
}

/// What is saved is read back, as often as it is read. `saved` is where the secret went, `read` where it is
/// read from, `facts` and `bytes` what is found there.
pub proof fn saved_secrets_are_read_back(
    platform: Platform,
    destination: Destination,
    name: Seq<char>,
    secret: Seq<u8>,
    files: Files,
    saved: Place,
    read: Place,
    facts: Found<FileFacts>,
    bytes: Option<Vec<u8>>,
)
    requires
        destination is PrivateFile,
        1 <= secret.len() <= MAX_BYTES,
        placed(platform, destination, name, Ok(saved)),
        placed(platform, destination, name, Ok(read)),
        files.with(saved, secret).shows(read, facts),
        files.with(saved, secret).reads(read, bytes),
    ensures
        secret_file(facts) == Ok::<(), Error>(()),
        file_secret(bytes) matches Ok(result) && result@ == secret,
{
    entries_keep_their_place(platform, destination, name, saved, Ok(read));
    let read_bytes = bytes->0@;
    assert(read_bytes.len() == secret.len());
    assert(read_bytes =~= secret);
}

/// Deleting a saved secret finds it; then it is gone: reading finds nothing, and deleting it again neither.
pub proof fn deleted_secrets_are_gone(
    platform: Platform,
    destination: Destination,
    name: Seq<char>,
    secret: Seq<u8>,
    files: Files,
    saved: Place,
    place: Place,
    first: Found<()>,
    facts: Found<FileFacts>,
    second: Found<()>,
)
    requires
        destination is PrivateFile,
        placed(platform, destination, name, Ok(saved)),
        placed(platform, destination, name, Ok(place)),
        files.with(saved, secret).removes(place, first),
        files.with(saved, secret).without(place).shows(place, facts),
        files.with(saved, secret).without(place).removes(place, second),
    ensures
        deletion(first) == Ok::<bool, Error>(true),
        secret_file(facts) == Err::<(), Error>(Error::NotFound),
        deletion(second) == Ok::<bool, Error>(false),
        files.has_room(saved) ==> files.with(saved, secret).without(place) == files,
{
    entries_keep_their_place(platform, destination, name, saved, Ok(place));
    if files.has_room(saved) {
        assert(files.with(saved, secret).without(place).contents =~= files.contents);
    }
}

/// Saving or deleting another entry leaves a secret as it is.
pub proof fn other_entries_are_untouched(platform: Platform, destination: Destination, name: Seq<char>, other: Seq<char>, files: Files, place: Place, elsewhere: Place, secret: Seq<u8>)
    requires
        destination is PrivateFile,
        name != other,
        placed(platform, destination, name, Ok(place)),
        placed(platform, destination, other, Ok(elsewhere)),
    ensures
        files.with(elsewhere, secret).has_room(place) == files.has_room(place),
        files.without(elsewhere).has_room(place) == files.has_room(place),
        !files.has_room(place) ==> {
            &&& files.with(elsewhere, secret).contents[address(place)] == files.contents[address(place)]
            &&& files.without(elsewhere).contents[address(place)] == files.contents[address(place)]
        },
{
    if address(place) == address(elsewhere) {
        entries_have_their_own_files(platform, destination, name, other, place, elsewhere);
    }
}

/// A number of 64 bits has at most 20 digits.
proof fn decimal_len(value: nat, digits: nat)
    requires
        digits >= 1,
        value < vstd::arithmetic::power::pow(10, digits),
    ensures
        decimal(value).len() <= digits,
    decreases digits,
{
    if value >= 10 {
        vstd::arithmetic::power::lemma_pow1(10);
        if digits == 1 {
        } else {
            vstd::arithmetic::power::lemma_pow_adds(10, (digits - 1) as nat, 1);
            assert(value / 10 < vstd::arithmetic::power::pow(10, (digits - 1) as nat));
            decimal_len(value / 10, (digits - 1) as nat);
        }
    }
}

/// Every version of every valid label has a name that the store accepts.
pub proof fn entry_is_accepted(label: Seq<char>, version: u64)
    requires
        is_name(label, 64),
    ensures
        is_entry(entry(label, version as nat)),
{
    decimal_is_digits(version as nat);
    assert(0xffff_ffff_ffff_ffff < vstd::arithmetic::power::pow(10, 20)) by {
        reveal(vstd::arithmetic::power::pow);
        reveal_with_fuel(vstd::arithmetic::power::pow, 21);
    }
    decimal_len(version as nat, 20);
    let x = entry(label, version as nat);
    assert forall|i: int| 0 <= i < x.len() implies is_name_char(#[trigger] x[i]) || x[i] == '#' by {
        if i < label.len() {
            assert(x[i] == label[i]);
        } else if i > label.len() {
            assert(x[i] == decimal(version as nat)[i - label.len() - 1]);
        }
    }
}

/// A name in the store, spelled out: letters, digits, `_`, `-` and `#`, at most a hundred of them.
pub proof fn entries_are_words(name: Seq<char>)
    ensures
        is_entry(name) <==> 1 <= name.len() <= 100 && forall|i: int|
            0 <= i < name.len() ==> is_word_point(#[trigger] name[i] as int) || name[i] as int == 35,
{
    if is_entry(name) {
        assert forall|i: int| 0 <= i < name.len() implies is_word_point(#[trigger] name[i] as int) || name[i] as int == 35 by {
            name_characters_are_word_points(name[i]);
        }
    }
    if 1 <= name.len() <= 100 && forall|i: int| 0 <= i < name.len() ==> is_word_point(#[trigger] name[i] as int) || name[i] as int == 35 {
        assert forall|i: int| 0 <= i < name.len() implies is_name_char(#[trigger] name[i]) || name[i] == '#' by {
            name_characters_are_word_points(name[i]);
        }
    }
}

/// Where an entry goes, spelled out for every destination, and when it goes nowhere.
pub proof fn every_destination_has_its_own_place(platform: Platform, destination: Destination, name: Seq<char>, result: Result<Place, Error>)
    requires
        placed(platform, destination, name, result),
    ensures
        !is_entry(name) ==> result == Err::<Place, Error>(Error::InvalidDestination),
        is_entry(name) ==> match destination {
            Destination::PrivateFile(directory) => {
                &&& result matches Ok(place) ==> place is File && place->directory@ == directory@ && place->file@ == name + ".key"@
                &&& result matches Err(error) ==> error == Error::InvalidDestination
                &&& platform == Platform::Linux || platform == Platform::Macos || platform == Platform::Unix ==> (result is Ok <==> directory@.len()
                    > 0 && directory@[0] == '/')
            },
            Destination::WindowsCredentialManager => if platform == Platform::Windows {
                result is Ok && result->Ok_0 is Native && result->Ok_0->backend@ == "windows_credential_manager"@
            } else {
                result == Err::<Place, Error>(Error::UnsupportedPlatform)
            },
            Destination::LinuxSecretService => if platform == Platform::Linux {
                result is Ok && result->Ok_0 is Native && result->Ok_0->backend@ == "linux_secret_service"@
            } else {
                result == Err::<Place, Error>(Error::UnsupportedPlatform)
            },
            Destination::MacosKeychain => if platform == Platform::Macos {
                result is Ok && result->Ok_0 is Native && result->Ok_0->backend@ == "macos_keychain"@
            } else {
                result == Err::<Place, Error>(Error::UnsupportedPlatform)
            },
        },
{
}

/// A secret is read only from a real file, and only where all of it is between 1 and 64 bytes; a missing
/// file is told apart from one that cannot be read.
pub proof fn only_real_files_hold_secrets(facts: Found<FileFacts>, bytes: Option<Vec<u8>>)
    ensures
        secret_file(facts) is Ok <==> facts is Value && facts->Value_0.is_file && !facts->Value_0.is_symlink,
        secret_file(facts) == Err::<(), Error>(Error::NotFound) <==> facts is Missing,
        secret_file(facts) == Err::<(), Error>(Error::StoreUnavailable) <==> facts is Failed,
        file_secret(bytes) is Ok <==> bytes is Some && 1 <= bytes->0@.len() <= 64,
        file_secret(bytes) matches Ok(secret) ==> bytes == Some(secret),
        file_secret(bytes) matches Err(error) ==> error == Error::StoreUnavailable,
{
}

/// A deletion tells whether the secret was still there, and fails only where the store did.
pub proof fn deletions_tell_what_was_there(found: Found<()>)
    ensures
        deletion(found) == Ok::<bool, Error>(true) <==> found is Value,
        deletion(found) == Ok::<bool, Error>(false) <==> found is Missing,
        deletion(found) == Err::<bool, Error>(Error::StoreUnavailable) <==> found is Failed,
{
}

/// The references of native stores are distinct, and so are the names that Windows looks items up by.
pub proof fn native_references_are_distinct(a: Seq<char>, b: Seq<char>)
    ensures
        native_reference(a) == native_reference(b) ==> a == b,
        windows_target(a) == windows_target(b) ==> a == b,
{
    let (head, tail) = ("vault:mcpbytes-vault/"@, ".mcpbytes-vault"@);
    assert(native_reference(a).skip(head.len() as int) =~= a && native_reference(b).skip(head.len() as int) =~= b);
    let (x, y) = (windows_target(a), windows_target(b));
    assert(x.len() == a.len() + tail.len() && y.len() == b.len() + tail.len());
    assert(x.take(a.len() as int) =~= a && y.take(b.len() as int) =~= b);
}

/// The name of an entry is its label, a number sign, and its version in decimal; references and lookup names
/// of native stores hold it whole.
pub proof fn entries_name_their_label_and_version(label: Seq<char>, version: nat, id: Seq<char>)
    ensures
        entry(label, version).take(label.len() as int) == label,
        entry(label, version)[label.len() as int] as int == 35,
        entry(label, version).skip(label.len() + 1int) == decimal(version),
        native_reference(id).take(21) == "vault:mcpbytes-vault/"@,
        native_reference(id).skip(21) == id,
        windows_target(id).take(id.len() as int) == id,
        windows_target(id).skip(id.len() as int) == ".mcpbytes-vault"@,
{
    let name = entry(label, version);
    reveal_strlit("vault:mcpbytes-vault/");
    assert(name.take(label.len() as int) =~= label);
    assert(name.skip(label.len() + 1int) =~= decimal(version));
    assert(native_reference(id).take(21) =~= "vault:mcpbytes-vault/"@);
    assert(native_reference(id).skip(21) =~= id);
    assert(windows_target(id).take(id.len() as int) =~= id);
    assert(windows_target(id).skip(id.len() as int) =~= ".mcpbytes-vault"@);
}

} // verus!
