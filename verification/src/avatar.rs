//! The avatars that characters own, each in a directory of its own, and how
//! they are put aside while a character changes.

use vstd::prelude::*;
use crate::approval::new_request_id;
use crate::error;
use crate::error::KokoroError;
use crate::file_swap::Found;
use crate::paths;
use crate::paths::FilePath;
use crate::text;
use crate::text::{concat2, concat3, same_text};

verus! {

broadcast use vstd::string::group_string_axioms;

/// The directory that holds the avatars of all characters.
pub fn managed_avatar_root(app_data: &FilePath) -> (path: FilePath)
    ensures
        path@ == paths::joined(app_data@, "character-instance-resources"@),
{
    app_data.join("character-instance-resources")
}

/// The directory of one character's avatar.
pub fn avatar_directory(root: &FilePath, instance_id: &str) -> (path: FilePath)
    ensures
        path@ == paths::joined(root@, instance_id@),
{
    root.join(instance_id)
}

/// The file that holds an avatar.
pub fn avatar_file(directory: &FilePath) -> (path: FilePath)
    ensures
        path@ == paths::joined(directory@, "avatar.png"@),
{
    directory.join("avatar.png")
}

/// The error for what was found in a place: something unsafe, which `words`
/// are for, or what cannot be told.
pub open spec fn refuses(found: Found, words: Seq<char>, e: KokoroError) -> bool {
    match found {
        Found::Unsafe => error::is_validation(e, words),
        Found::Unknown(reason) => error::is_io(e, reason@),
        _ => false,
    }
}

/// Whether a directory is there, or why that is refused.
pub open spec fn directory_there(found: Found, words: Seq<char>, r: Result<bool, KokoroError>) -> bool {
    match r {
        Ok(there) => (there && found is Present) || (!there && found is Missing),
        Err(e) => refuses(found, words, e),
    }
}

fn check_directory(found: Found, words: &str) -> (r: Result<bool, KokoroError>)
    ensures
        directory_there(found, words@, r),
{
    match found {
        Found::Missing => Ok(false),
        Found::Present => Ok(true),
        Found::Unsafe => Err(KokoroError::Validation(words.to_owned())),
        Found::Unknown(reason) => Err(KokoroError::Io(reason)),
    }
}

/// Whether the directory for all avatars is there.
pub fn inspect_managed_avatar_root(found: Found) -> (r: Result<bool, KokoroError>)
    ensures
        directory_there(found, "managed character avatar resource root is unsafe"@, r),
{
    check_directory(found, "managed character avatar resource root is unsafe")
}

/// Whether one character's directory is there.
pub fn inspect_avatar_directory(found: Found) -> (r: Result<bool, KokoroError>)
    ensures
        directory_there(found, "character avatar resource directory is unsafe"@, r),
{
    check_directory(found, "character avatar resource directory is unsafe")
}

/// The directory for all avatars was made where it was missing; it must be
/// there now.
pub fn ensure_managed_avatar_root(found: Found) -> (r: Result<(), KokoroError>)
    ensures
        match found {
            Found::Missing => r matches Err(e) && error::is_internal(
                e,
                "managed character avatar resource root disappeared"@,
            ),
            Found::Present => r is Ok,
            Found::Unsafe => r matches Err(e) && error::is_validation(
                e,
                "managed character avatar resource root is unsafe"@,
            ),
            Found::Unknown(reason) => r matches Err(e) && error::is_io(e, reason@),
        },
{
    match inspect_managed_avatar_root(found) {
        Ok(there) => if there {
            Ok(())
        } else {
            Err(
                KokoroError::Internal(
                    "managed character avatar resource root disappeared".to_owned(),
                ),
            )
        },
        Err(e) => Err(e),
    }
}

/// A new character's directory must not be there yet.
pub fn check_new_avatar_directory(found: Found, character_id: &str) -> (r: Result<(), KokoroError>)
    ensures
        match found {
            Found::Missing => r is Ok,
            Found::Present => r matches Err(e) && error::is_validation(
                e,
                "managed avatar resource already exists for character '"@ + character_id@ + "'"@,
            ),
            Found::Unsafe => r matches Err(e) && error::is_validation(
                e,
                "character avatar resource directory is unsafe"@,
            ),
            Found::Unknown(reason) => r matches Err(e) && error::is_io(e, reason@),
        },
{
    match inspect_avatar_directory(found) {
        Ok(there) => if there {
            Err(
                KokoroError::Validation(
                    concat3(
                        "managed avatar resource already exists for character '",
                        character_id,
                        "'",
                    ),
                ),
            )
        } else {
            Ok(())
        },
        Err(e) => Err(e),
    }
}

/// The words that refuse what is not of the right kind, or the reason why that
/// cannot be told.
pub open spec fn refuses_kind(is_right: Result<bool, String>, words: Seq<char>, e: KokoroError) -> bool {
    match is_right {
        Ok(right) => !right && error::is_validation(e, words),
        Err(reason) => error::is_io(e, reason@),
    }
}

fn check_kind(is_right: Result<bool, String>, words: &str) -> (r: Result<(), KokoroError>)
    ensures
        match r {
            Ok(_) => is_right matches Ok(right) && right,
            Err(e) => refuses_kind(is_right, words@, e),
        },
{
    match is_right {
        Ok(right) => if right {
            Ok(())
        } else {
            Err(KokoroError::Validation(words.to_owned()))
        },
        Err(reason) => Err(KokoroError::Io(reason)),
    }
}

/// Something is there, and it is of the right kind.
pub open spec fn is_right_kind(is_right: Result<bool, String>) -> bool {
    is_right matches Ok(right) && right
}

/// Whether an avatar can be read: the directory for all avatars must be there,
/// and the character's directory and the file in it must be what they should.
pub fn check_readable_avatar(
    root: Found,
    directory: Result<bool, String>,
    file: Result<bool, String>,
) -> (r: Result<(), KokoroError>)
    ensures
        match r {
            Ok(_) => root is Present && is_right_kind(directory) && is_right_kind(file),
            Err(e) => if root is Missing {
                error::is_not_found(e, "managed avatar resource directory not found"@)
            } else if !(root is Present) {
                refuses(root, "managed character avatar resource root is unsafe"@, e)
            } else if !is_right_kind(directory) {
                refuses_kind(directory, "character avatar resource directory is unsafe"@, e)
            } else {
                refuses_kind(file, "character avatar resource file is unsafe"@, e)
            },
        },
{
    match inspect_managed_avatar_root(root) {
        Ok(there) => if !there {
            return Err(
                KokoroError::NotFound("managed avatar resource directory not found".to_owned()),
            );
        },
        Err(e) => {
            return Err(e);
        },
    }
    if let Err(e) = check_kind(directory, "character avatar resource directory is unsafe") {
        return Err(e);
    }
    check_kind(file, "character avatar resource file is unsafe")
}

/// An avatar's directory that was put aside, until it is known whether it goes
/// or comes back.
pub struct ManagedAvatarRemoval {
    original: Option<FilePath>,
    backup: Option<FilePath>,
    is_armed: bool,
}

pub ghost struct RemovalView {
    /// Where the directory was.
    pub original: Option<Seq<u8>>,
    /// Where it is now.
    pub backup: Option<Seq<u8>>,
    /// It comes back unless it is told to go.
    pub is_armed: bool,
}

impl View for ManagedAvatarRemoval {
    type V = RemovalView;

    closed spec fn view(&self) -> RemovalView {
        RemovalView {
            original: paths::opt_path(self.original),
            backup: paths::opt_path(self.backup),
            is_armed: self.is_armed,
        }
    }
}

impl RemovalView {
    /// What may come back is there, and so is the place that it came from.
    pub open spec fn well_formed(self) -> bool {
        &&& self.is_armed ==> self.backup is Some
        &&& self.backup is Some ==> self.original is Some
    }
}

/// Nothing is put aside.
pub open spec fn nothing_staged() -> RemovalView {
    RemovalView { original: None, backup: None, is_armed: false }
}

/// The directory is back, or it never left: nothing is put aside any more.
pub open spec fn after_rollback(removal: RemovalView, ok: bool) -> RemovalView {
    if !removal.is_armed || !ok {
        removal
    } else {
        RemovalView { backup: None, is_armed: false, ..removal }
    }
}

/// The directory is to go: it does not come back.
pub open spec fn after_finalize(removal: RemovalView) -> RemovalView {
    RemovalView { backup: None, is_armed: false, ..removal }
}

impl ManagedAvatarRemoval {
    #[verifier::type_invariant]
    closed spec fn inv(self) -> bool {
        self@.well_formed()
    }

    pub fn empty() -> (r: Self)
        ensures
            r@ == nothing_staged(),
    {
        ManagedAvatarRemoval { original: None, backup: None, is_armed: false }
    }

    /// What is put aside, if anything: where there is no directory for the
    /// avatar, there is nothing. Gives the directory and where it goes.
    pub fn stage(app_data: &FilePath, instance_id: &str, root: Found, directory: Found) -> (r: Result<
        Option<(FilePath, FilePath)>,
        KokoroError,
    >)
        ensures
            match r {
                Ok(Some(moved)) => {
                    &&& root is Present
                    &&& directory is Present
                    &&& moved.0@ == paths::joined(
                        paths::joined(app_data@, "character-instance-resources"@),
                        instance_id@,
                    )
                    &&& is_backup_of(
                        moved.1@,
                        paths::joined(app_data@, "character-instance-resources"@),
                        instance_id@,
                    )
                },
                Ok(None) => root is Missing || (root is Present && directory is Missing),
                Err(e) => if root is Present {
                    refuses(directory, "character avatar resource directory is unsafe"@, e)
                } else {
                    refuses(root, "managed character avatar resource root is unsafe"@, e)
                },
            },
    {
        match inspect_managed_avatar_root(root) {
            Ok(true) => {},
            Ok(false) => {
                return Ok(None);
            },
            Err(e) => {
                return Err(e);
            },
        }
        match inspect_avatar_directory(directory) {
            Ok(true) => {},
            Ok(false) => {
                return Ok(None);
            },
            Err(e) => {
                return Err(e);
            },
        }
        let root_path = managed_avatar_root(app_data);
        let original = avatar_directory(&root_path, instance_id);
        let token = new_request_id();
        let name = concat2(
            concat3(".", instance_id, ".delete-backup-").as_str(),
            token.as_str(),
        );
        let backup = root_path.join(name.as_str());
        assert(token@.len() == 36 && backup@ == paths::joined(
            root_path@,
            "."@ + instance_id@ + ".delete-backup-"@ + token@,
        ));
        Ok(Some((original, backup)))
    }

    /// The directory was put aside.
    pub fn staged(original: FilePath, backup: FilePath) -> (r: Self)
        ensures
            r@ == (RemovalView {
                original: Some(original@),
                backup: Some(backup@),
                is_armed: true,
            }),
    {
        ManagedAvatarRemoval { original: Some(original), backup: Some(backup), is_armed: true }
    }

    /// The directory is to go. Gives what is to be removed, if anything.
    pub fn finalize(&mut self) -> (removed: Option<FilePath>)
        ensures
            paths::opt_path(removed) == old(self)@.backup,
            final(self)@ == after_finalize(old(self)@),
    {
        let mut taken = ManagedAvatarRemoval { original: None, backup: None, is_armed: false };
        std::mem::swap(&mut taken, self);
        *self = ManagedAvatarRemoval { original: taken.original, backup: None, is_armed: false };
        taken.backup
    }

    /// What is to be renamed so that the directory comes back, if anything:
    /// from where, and to where.
    pub fn rollback(&self) -> (r: Option<(FilePath, FilePath)>)
        ensures
            match r {
                Some(moved) => {
                    &&& self@.is_armed
                    &&& self@.backup == Some(moved.0@)
                    &&& self@.original == Some(moved.1@)
                },
                None => !self@.is_armed,
            },
    {
        proof {
            use_type_invariant(self);
        }
        if !self.is_armed {
            return None;
        }
        match (&self.backup, &self.original) {
            (Some(backup), Some(original)) => Some((backup.copy(), original.copy())),
            _ => None,
        }
    }

    /// The directory came back, or did not.
    pub fn rolled_back(&mut self, ok: bool)
        ensures
            final(self)@ == after_rollback(old(self)@, ok),
    {
        if self.is_armed && ok {
            let mut taken = ManagedAvatarRemoval { original: None, backup: None, is_armed: false };
            std::mem::swap(&mut taken, self);
            *self = ManagedAvatarRemoval {
                original: taken.original,
                backup: None,
                is_armed: false,
            };
        }
    }
}

/// `path` is where the directory of `instance_id` goes when it is put aside.
pub open spec fn is_backup_of(path: Seq<u8>, root: Seq<u8>, instance_id: Seq<char>) -> bool {
    exists|token: Seq<char>|
        (#[trigger] token.len()) == 36 && path == paths::joined(
            root,
            "."@ + instance_id + ".delete-backup-"@ + token,
        )
}

/// A directory that was put aside either goes or comes back, and not both: once
/// it went, there is nothing to bring back, and once it came back, there is
/// nothing to remove. One that could not be brought back stays to be tried
/// again.
pub proof fn lemma_removal_once(removal: RemovalView)
    requires
        removal.well_formed(),
    ensures
        !after_finalize(removal).is_armed,
        removal.is_armed ==> after_rollback(removal, true).backup is None,
        after_rollback(after_finalize(removal), true) == after_finalize(removal),
        after_rollback(removal, false) == removal,
        after_finalize(removal).well_formed(),
        after_rollback(removal, true).well_formed(),
{
}

/// The error that a directory could not be removed.
pub fn removal_error(backup: &str, reason: &str) -> (e: KokoroError)
    ensures
        error::is_io(
            e,
            "failed to remove deleted character resource backup '"@ + backup@ + "': "@ + reason@,
        ),
{
    let head = concat3("failed to remove deleted character resource backup '", backup, "': ");
    KokoroError::Io(concat2(head.as_str(), reason))
}

/// The error that a directory could not be brought back.
pub fn restoration_error(original: &str, reason: &str) -> (e: KokoroError)
    ensures
        error::is_io(
            e,
            "failed to restore managed avatar resource '"@ + original@ + "': "@ + reason@,
        ),
{
    let head = concat3("failed to restore managed avatar resource '", original, "': ");
    KokoroError::Io(concat2(head.as_str(), reason))
}

/// The error of an operation that had to be cleaned up after. `rendered` is the
/// operation's error in words.
pub fn recover_cleanup_failure(
    operation_error: KokoroError,
    rendered: &str,
    cleanup_result: Result<(), String>,
) -> (r: KokoroError)
    ensures
        match cleanup_result {
            Ok(_) => r == operation_error,
            Err(cleanup) => error::is_internal(
                r,
                "avatar operation failed: "@ + rendered@ + "; cleanup also failed: "@ + cleanup@,
            ),
        },
{
    match cleanup_result {
        Ok(_) => operation_error,
        Err(cleanup) => {
            let head = concat3("avatar operation failed: ", rendered, "; cleanup also failed: ");
            KokoroError::Internal(concat2(head.as_str(), cleanup.as_str()))
        },
    }
}

/// How a step went, in words.
pub open spec fn step_words(result: Result<(), String>) -> Seq<char> {
    match result {
        Ok(_) => "ok"@,
        Err(e) => e@,
    }
}

fn step_text(result: &Result<(), String>) -> (r: String)
    ensures
        r@ == step_words(*result),
{
    match result {
        Ok(_) => "ok".to_owned(),
        Err(e) => e.clone(),
    }
}

/// The error of an operation after which an avatar was cleaned up and another
/// one brought back. Where both went well, it is the operation's own.
/// `rendered` is that one in words.
pub fn recover_managed_avatar_failure(
    operation_error: KokoroError,
    rendered: &str,
    cleanup_result: Result<(), String>,
    restore_result: Result<(), String>,
) -> (r: KokoroError)
    ensures
        if cleanup_result is Ok && restore_result is Ok {
            r == operation_error
        } else {
            error::is_internal(
                r,
                "avatar operation failed: "@ + rendered@ + "; cleanup: "@ + step_words(
                    cleanup_result,
                ) + "; restoration: "@ + step_words(restore_result),
            )
        },
{
    if cleanup_result.is_ok() && restore_result.is_ok() {
        return operation_error;
    }
    let head = concat3("avatar operation failed: ", rendered, "; cleanup: ");
    let head = concat3(
        head.as_str(),
        step_text(&cleanup_result).as_str(),
        "; restoration: ",
    );
    KokoroError::Internal(concat2(head.as_str(), step_text(&restore_result).as_str()))
}

/// The character owns its avatar: the avatar's reference names the character.
pub open spec fn owns_avatar(character_id: Seq<char>, avatar_owner: Option<Seq<char>>) -> bool {
    avatar_owner == Some(character_id)
}

pub fn is_own_avatar(character_id: &str, avatar_owner: Option<&str>) -> (b: bool)
    ensures
        b == owns_avatar(character_id@, text::opt_str(avatar_owner)),
{
    match avatar_owner {
        Some(owner) => same_text(owner, character_id),
        None => false,
    }
}

/// Whether a character's avatar is put aside: where the character owns it, and
/// another one, or none, takes its place. `avatar_owner` is whom the reference
/// in `avatar_path` names.
pub fn stage_owned_avatar_if_replaced(
    character_id: &str,
    avatar_path: Option<&str>,
    avatar_owner: Option<&str>,
    next_avatar: Option<&str>,
) -> (b: bool)
    ensures
        b == (owns_avatar(character_id@, text::opt_str(avatar_owner)) && text::opt_str(avatar_path)
            != text::opt_str(next_avatar)),
{
    let same = match (avatar_path, next_avatar) {
        (Some(a), Some(b)) => same_text(a, b),
        (None, None) => true,
        _ => false,
    };
    is_own_avatar(character_id, avatar_owner) && !same
}

} // verus!
