//! What the packaging of a release computes: versions, names of targets and of
//! artifacts, and patches of files.

use crate::text::{occurs_in, replaced, str_contains, str_eq, str_replace, string_push_str};
use vstd::prelude::*;

verus! {

/// The command line of the packaging tool.
#[derive(Debug, Clone, PartialEq, Eq)]
pub struct Cli {
    pub command: Commands,
}

/// What the packaging tool can be asked to do.
#[derive(Debug, Clone, PartialEq, Eq)]
pub enum Commands {
    /// Build and package the language server and the client.
    Dist { client_patch_version: Option<String> },
    /// Generate the schema.
    Generate { flb_version: Option<String> },
}

/// The version of the client in a stable release, without its patch number.
pub open spec fn version_stable() -> Seq<char> {
    "0.2"@
}

/// The version of the client in development, without its patch number.
pub open spec fn version_dev() -> Seq<char> {
    "0.3"@
}

/// The file name of the server, without the suffix of executables.
pub open spec fn server_name() -> Seq<char> {
    "fluent-bit-language-server"@
}

/// The suffix of executables on the target `target`.
pub open spec fn exe_suffix_of(target: Seq<char>) -> Seq<char> {
    if occurs_in(target, "-windows-"@) {
        ".exe"@
    } else {
        Seq::empty()
    }
}

/// The version of the client with patch number `patch_version`.
pub fn client_version(stable: bool, patch_version: &str) -> (version: String)
    ensures
        version@ == (if stable {
            version_stable()
        } else {
            version_dev()
        }) + "."@ + patch_version@,
{
    let mut version = if stable {
        "0.2".to_owned()
    } else {
        "0.3".to_owned()
    };
    string_push_str(&mut version, ".");
    string_push_str(&mut version, patch_version);
    version
}

/// Whether a release is a stable one: the event that started the build is a
/// dispatch by hand.
pub fn is_stable_release(event_name: &str) -> (stable: bool)
    ensures
        stable == (event_name@ == "workflow_dispatch"@),
{
    str_eq(event_name, "workflow_dispatch")
}

/// Whether `target` is a target for Windows.
pub fn is_windows_target(target: &str) -> (windows: bool)
    ensures
        windows == occurs_in(target@, "-windows-"@),
{
    str_contains(target, "-windows-")
}

/// Whether `target` is a target for Linux.
pub fn is_linux_target(target: &str) -> (linux: bool)
    ensures
        linux == occurs_in(target@, "-linux-"@),
{
    str_contains(target, "-linux-")
}

/// The file name of the server built for `target`.
pub fn server_file_name(target: &str) -> (name: String)
    ensures
        name@ == server_name() + exe_suffix_of(target@),
{
    let mut name = "fluent-bit-language-server".to_owned();
    if is_windows_target(target) {
        string_push_str(&mut name, ".exe");
    } else {
        assert(server_name() + Seq::<char>::empty() =~= server_name());
    }
    name
}

/// The file name of the debug symbols of the server built for `target`:
/// Windows targets have one.
pub fn symbols_file_name(target: &str) -> (name: Option<String>)
    ensures
        name is Some <==> occurs_in(target@, "-windows-"@),
        name matches Some(n) ==> n@ == "fluent_bit_language_server.pdb"@,
{
    if is_windows_target(target) {
        Some("fluent_bit_language_server.pdb".to_owned())
    } else {
        None
    }
}

/// The name of the artifact that holds the server built for `target`.
pub fn artifact_name(target: &str) -> (name: String)
    ensures
        name@ == server_name() + "-"@ + target@ + exe_suffix_of(target@),
{
    let mut name = "fluent-bit-language-server".to_owned();
    string_push_str(&mut name, "-");
    string_push_str(&mut name, target);
    if is_windows_target(target) {
        string_push_str(&mut name, ".exe");
    } else {
        assert(server_name() + "-"@ + target@ + Seq::<char>::empty() =~= server_name() + "-"@
            + target@);
    }
    name
}

/// The line of the client's package file that holds its version in
/// development.
pub fn dev_version_entry() -> (entry: String)
    ensures
        entry@ == "\"version\": \""@ + version_dev() + ".0-dev\""@,
{
    let mut entry = "\"version\": \"".to_owned();
    string_push_str(&mut entry, "0.3");
    string_push_str(&mut entry, ".0-dev\"");
    entry
}

/// The line of the client's package file that holds the version `version`.
pub fn version_entry(version: &str) -> (entry: String)
    ensures
        entry@ == "\"version\": \""@ + version@ + "\""@,
{
    let mut entry = "\"version\": \"".to_owned();
    string_push_str(&mut entry, version);
    string_push_str(&mut entry, "\"");
    entry
}

/// `s` with every carriage return and line feed pair replaced by a line feed.
pub fn normalize_newlines(s: &str) -> (normal: String)
    ensures
        normal@ == replaced(s@, "\r\n"@, "\n"@),
{
    str_replace(s, "\r\n", "\n")
}

/// Whether a file that holds `old_contents` is up to date with `contents`:
/// the two are the same but for their line endings.
pub fn is_up_to_date(old_contents: &str, contents: &str) -> (same: bool)
    ensures
        same == (replaced(old_contents@, "\r\n"@, "\n"@) == replaced(
            contents@,
            "\r\n"@,
            "\n"@,
        )),
{
    let old_normal = normalize_newlines(old_contents);
    let normal = normalize_newlines(contents);
    str_eq(old_normal.as_str(), normal.as_str())
}

/// A file whose contents are being changed.
#[derive(Debug, Clone, PartialEq, Eq)]
pub struct Patch {
    pub path: String,
    pub original_contents: String,
    pub contents: String,
}

impl Patch {
    /// A patch of the file at `path`, which holds `contents`.
    pub fn new(path: String, contents: String) -> (patch: Patch)
        ensures
            patch.path == path,
            patch.original_contents@ == contents@,
            patch.contents@ == contents@,
    {
        Patch { path, original_contents: contents.clone(), contents }
    }

    /// Whether `from` occurs in the contents, so that it can be replaced.
    pub fn can_replace(&self, from: &str) -> (found: bool)
        ensures
            found == occurs_in(self.contents@, from@),
    {
        str_contains(self.contents.as_str(), from)
    }

    /// Replaces each occurrence of `from` in the contents by `to`. There must
    /// be one.
    pub fn replace(&mut self, from: &str, to: &str)
        requires
            occurs_in(old(self).contents@, from@),
        ensures
            final(self).contents@ == replaced(old(self).contents@, from@, to@),
            final(self).path == old(self).path,
            final(self).original_contents == old(self).original_contents,
    {
        self.contents = str_replace(self.contents.as_str(), from, to);
    }
}

} // verus!
