//! Where the application keeps its files.

use vstd::prelude::*;
use vstd::utf8::*;

verus! {

broadcast use vstd::string::group_string_axioms;

/// The path of a file or a directory: the bytes that the system knows it by, which
/// need not be text. A slash stands between its parts.
#[derive(Debug)]
pub struct FilePath {
    bytes: Vec<u8>,
}

impl View for FilePath {
    type V = Seq<u8>;

    closed spec fn view(&self) -> Seq<u8> {
        self.bytes@
    }
}

/// The view of an optional path.
pub open spec fn opt_path(path: Option<FilePath>) -> Option<Seq<u8>> {
    match path {
        Some(p) => Some(p@),
        None => None,
    }
}

/// The path `name`, from the directory `dir` on: inside it, unless `name` begins at
/// the root.
pub open spec fn joined_bytes(dir: Seq<u8>, name: Seq<u8>) -> Seq<u8> {
    if name.len() > 0 && name[0] == 0x2f {
        name
    } else if dir.len() == 0 || dir.last() == 0x2f {
        dir + name
    } else {
        dir.push(0x2f) + name
    }
}

/// The same for a name that is text.
pub open spec fn joined(dir: Seq<u8>, name: Seq<char>) -> Seq<u8> {
    joined_bytes(dir, encode_utf8(name))
}

fn push_all(bytes: &mut Vec<u8>, more: &[u8])
    ensures
        final(bytes)@ == old(bytes)@ + more@,
{
    let ghost before = bytes@;
    let mut i: usize = 0;
    while i < more.len()
        invariant
            i <= more@.len(),
            bytes@ == before + more@.take(i as int),
        decreases more.len() - i,
    {
        bytes.push(more[i]);
        i += 1;
        assert(bytes@ =~= before + more@.take(i as int));
    }
    assert(more@.take(i as int) =~= more@);
}

impl FilePath {
    pub fn from_bytes(bytes: Vec<u8>) -> (path: Self)
        ensures
            path@ == bytes@,
    {
        FilePath { bytes }
    }

    pub fn from_text(text: &str) -> (path: Self)
        ensures
            path@ == encode_utf8(text@),
    {
        let mut bytes: Vec<u8> = Vec::new();
        push_all(&mut bytes, text.as_bytes());
        assert(bytes@ =~= encode_utf8(text@));
        FilePath { bytes }
    }

    pub fn bytes(&self) -> (bytes: &Vec<u8>)
        ensures
            bytes@ == self@,
    {
        &self.bytes
    }

    pub fn copy(&self) -> (path: Self)
        ensures
            path@ == self@,
    {
        let mut bytes: Vec<u8> = Vec::new();
        push_all(&mut bytes, self.bytes.as_slice());
        assert(bytes@ =~= self.bytes@);
        FilePath { bytes }
    }

    /// The path `name` from this directory on.
    pub fn join(&self, name: &str) -> (path: Self)
        ensures
            path@ == joined(self@, name@),
    {
        let more = name.as_bytes();
        let mut bytes: Vec<u8> = Vec::new();
        if more.len() == 0 || more[0] != 0x2f {
            push_all(&mut bytes, self.bytes.as_slice());
            assert(bytes@ =~= self.bytes@);
            let n = bytes.len();
            if n > 0 && bytes[n - 1] != 0x2f {
                bytes.push(0x2f);
            }
        }
        push_all(&mut bytes, more);
        assert(bytes@ =~= joined(self@, name@));
        FilePath { bytes }
    }
}

/// The application's own directory inside the user's data directory, or inside
/// the working directory where the user has none.
pub open spec fn app_dir(data_dir: Option<Seq<u8>>) -> Seq<u8> {
    match data_dir {
        Some(dir) => joined(dir, "com.chyin.kokoro"@),
        None => joined(encode_utf8("."@), "com.chyin.kokoro"@),
    }
}

/// `dirs_next::data_dir`, the user's data directory, as the bytes of its path. It
/// depends on the machine and its environment, so nothing is said of it.
#[verifier::external_body]
fn data_dir() -> (dir: Option<Vec<u8>>) {
    match dirs_next::data_dir() {
        Some(dir) => Some(dir.into_os_string().into_encoded_bytes()),
        None => None,
    }
}

/// The path of the application's file `name`, given the user's data directory.
pub fn app_file(data_dir: Option<FilePath>, name: &str) -> (path: FilePath)
    ensures
        path@ == joined(app_dir(opt_path(data_dir)), name@),
{
    let base = match data_dir {
        Some(dir) => dir,
        None => FilePath::from_text("."),
    };
    base.join("com.chyin.kokoro").join(name)
}

/// `path` is that of the application's file `name` for some data directory.
pub open spec fn is_app_file(path: Seq<u8>, name: Seq<char>) -> bool {
    exists|dir: Option<Seq<u8>>| path == joined(#[trigger] app_dir(dir), name)
}

fn own_file(name: &str) -> (path: FilePath)
    ensures
        is_app_file(path@, name@),
{
    let dir = match data_dir() {
        Some(bytes) => Some(FilePath::from_bytes(bytes)),
        None => None,
    };
    let ghost base = app_dir(opt_path(dir));
    let path = app_file(dir, name);
    assert(path@ == joined(base, name@));
    path
}

/// The file that holds the bot configuration.
pub fn bot_config_path() -> (path: FilePath)
    ensures
        is_app_file(path@, "bot_config.json"@),
{
    own_file("bot_config.json")
}

/// The file that held the Telegram configuration before there was one for all
/// bots.
pub fn legacy_telegram_config_path() -> (path: FilePath)
    ensures
        is_app_file(path@, "telegram_config.json"@),
{
    own_file("telegram_config.json")
}

/// The file that holds how memories are handled.
pub fn memory_upgrade_config_path() -> (path: FilePath)
    ensures
        is_app_file(path@, "memory_upgrade_config.json"@),
{
    own_file("memory_upgrade_config.json")
}

/// The file that says whether memories are kept.
pub fn memory_config_path() -> (path: FilePath)
    ensures
        is_app_file(path@, "memory_system_config.json"@),
{
    own_file("memory_system_config.json")
}

/// The file that holds the prompt that goes before all others.
pub fn jailbreak_prompt_path() -> (path: FilePath)
    ensures
        is_app_file(path@, "jailbreak_prompt.json"@),
{
    own_file("jailbreak_prompt.json")
}

/// The file that says whether the character speaks on its own.
pub fn proactive_enabled_path() -> (path: FilePath)
    ensures
        is_app_file(path@, "proactive_enabled.json"@),
{
    own_file("proactive_enabled.json")
}

/// The file that holds how much of a conversation is kept.
pub fn context_settings_path() -> (path: FilePath)
    ensures
        is_app_file(path@, "context_settings.json"@),
{
    own_file("context_settings.json")
}

/// The log of failures, one to a line.
pub fn failure_events_log_path() -> (path: FilePath)
    ensures
        is_app_file(path@, "failure_events.jsonl"@),
{
    own_file("failure_events.jsonl")
}

/// Where the log of failures goes when it has grown too large.
pub fn rotated_failure_events_log_path() -> (path: FilePath)
    ensures
        is_app_file(path@, "failure_events.1.jsonl"@),
{
    own_file("failure_events.1.jsonl")
}

/// The file that holds what the user says of themselves, in the application's
/// directory `app_data`.
pub fn user_profile_settings_path(app_data: &FilePath) -> (path: FilePath)
    ensures
        path@ == joined(app_data@, "user_profile.json"@),
{
    app_data.join("user_profile.json")
}

} // verus!
