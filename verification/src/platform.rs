//! What the library is told of the machine: the platform, the build, and facts about files.
use crate::text::chars;
use vstd::prelude::*;

verus! {

/// The platform that the program runs on.
#[derive(Clone, Copy, Debug, PartialEq, Eq, Structural)]
pub enum Platform {
    Windows,
    Macos,
    Linux,
    /// A Unix without a native credential store.
    Unix,
    Other,
}

impl Platform {
    /// Whether paths, owners and permissions are those of Unix.
    pub open spec fn spec_unix(self) -> bool {
        self == Platform::Macos || self == Platform::Linux || self == Platform::Unix
    }

    /// Whether paths, owners and permissions are those of Unix.
    pub fn is_unix(self) -> (result: bool)
        ensures
            result == self.spec_unix(),
    {
        match self {
            Platform::Macos | Platform::Linux | Platform::Unix => true,
            Platform::Windows | Platform::Other => false,
        }
    }
}

/// The platform, and whether the remote contribution is built in.
#[derive(Clone, Copy, Debug, PartialEq, Eq, Structural)]
pub struct Build {
    pub platform: Platform,
    pub remote: bool,
}

/// Who owns a file and who may use it.
#[derive(Clone, Copy, Debug, PartialEq, Eq, Structural)]
pub struct Ownership {
    pub mode: u32,
    pub uid: u32,
    /// The effective user of this process.
    pub euid: u32,
}

impl Ownership {
    /// Whether the file belongs to this user and grants others none of the permissions in `mask`.
    pub open spec fn spec_denies(self, mask: u32) -> bool {
        self.uid == self.euid && self.mode & mask == 0
    }

    /// Whether the file belongs to this user and grants others none of the permissions in `mask`.
    pub fn denies(&self, mask: u32) -> (result: bool)
        ensures
            result == self.spec_denies(mask),
    {
        self.uid == self.euid && self.mode & mask == 0
    }
}

/// Facts about a file, read without following a symbolic link. Only Unix has an ownership.
#[derive(Clone, Copy, Debug, PartialEq, Eq, Structural)]
pub struct FileFacts {
    pub is_file: bool,
    pub is_dir: bool,
    pub is_symlink: bool,
    pub len: u64,
    pub ownership: Option<Ownership>,
}

impl FileFacts {
    /// A real file, not a link.
    pub open spec fn plain_file(self) -> bool {
        self.is_file && !self.is_symlink
    }

    /// A real folder that only its owner can use, where the platform knows owners.
    pub open spec fn private_folder(self) -> bool {
        self.is_dir && !self.is_symlink && (self.ownership matches Some(ownership) ==> ownership.spec_denies(0o077))
    }

    /// Whether this is a real folder that only its owner can use.
    pub fn is_private_folder(&self) -> (result: bool)
        ensures
            result == self.private_folder(),
    {
        if !self.is_dir || self.is_symlink {
            return false;
        }
        match &self.ownership {
            Some(ownership) => ownership.denies(0o077),
            None => true,
        }
    }
}

/// What a lookup found.
pub enum Found<T> {
    Value(T),
    Missing,
    Failed,
}

/// Whether a path starts at the root, as absolute paths do on Unix.
pub open spec fn is_rooted(path: Seq<char>) -> bool {
    path.len() > 0 && path[0] == '/'
}

/// Whether an answer to "is this path absolute" is right: on Unix an absolute path starts at the
/// root, elsewhere the platform decides.
pub open spec fn absolute_answer(platform: Platform, path: Seq<char>, answer: bool) -> bool {
    platform.spec_unix() ==> answer == is_rooted(path)
}

/// `Path::is_absolute` of std, for the platform that the program was built for. Nothing is stated of
/// the answer: the rules for prefixes and drives are the platform's own.
#[verifier::external_body]
fn native_absolute(path: &str) -> (answer: bool) {
    std::path::Path::new(path).is_absolute()
}

/// Whether a path is absolute.
pub fn absolute(platform: Platform, path: &str) -> (answer: bool)
    ensures
        absolute_answer(platform, path@, answer),
{
    if platform.is_unix() {
        let all = chars(path);
        all.len() > 0 && all[0] == '/'
    } else {
        native_absolute(path)
    }
}

/// Three platforms have the paths, owners and permissions of Unix; on each of them a path is absolute
/// exactly where its first character is a slash.
pub proof fn unix_paths_start_with_a_slash(platform: Platform, path: Seq<char>, answer: bool)
    requires
        absolute_answer(platform, path, answer),
    ensures
        platform.spec_unix() <==> platform != Platform::Windows && platform != Platform::Other,
        platform.spec_unix() ==> (answer <==> path.len() > 0 && path[0] as int == 47),
{
}

/// A folder is private exactly where it is a real one and where, on a platform that knows owners, it is
/// this user's and grants the group and others nothing; a plain file is never a link.
pub proof fn private_folders_are_the_owners(facts: FileFacts)
    ensures
        facts.private_folder() <==> facts.is_dir && !facts.is_symlink && match facts.ownership {
            Some(ownership) => ownership.uid == ownership.euid && ownership.mode & 63 == 0,
            None => true,
        },
        facts.plain_file() <==> facts.is_file && !facts.is_symlink,
{
}

/// A file denies nothing to its owner's group or to others unless it is this user's own, and a stricter
/// mask denies at least as much.
pub proof fn denials_are_monotonic(ownership: Ownership, mask: u32, part: u32)
    requires
        part & mask == part,
        ownership.spec_denies(mask),
    ensures
        ownership.uid == ownership.euid,
        ownership.mode & mask == 0,
        ownership.spec_denies(part),
{
    let mode = ownership.mode;
    assert(mode & part == 0) by (bit_vector)
        requires
            part & mask == part,
            mode & mask == 0,
    ;
}

} // verus!
