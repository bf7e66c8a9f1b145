//! Replacing a file so that it is never lost: the new content is written beside
//! it, the old file is put aside, the new one takes its place, and the old one
//! goes.

use vstd::prelude::*;
use crate::approval::new_request_id;
use crate::paths;
use crate::paths::FilePath;
use crate::text::{self, concat2, concat3};

verus! {

broadcast use vstd::string::group_string_axioms;

/// What is replaced.
#[derive(Debug, Clone, Copy, PartialEq, Eq, Structural)]
pub enum SwapKind {
    /// A settings file.
    Settings,
    /// A character's avatar.
    Avatar,
}

/// The three files that take part.
#[derive(Debug, Clone, Copy, PartialEq, Eq, Structural)]
pub enum FileRole {
    Target,
    Temporary,
    Backup,
}

/// How far a replacement is.
#[derive(Debug, Clone, Copy, PartialEq, Eq, Structural)]
pub enum SwapStage {
    /// The new content is to be written to the temporary file.
    Writing,
    /// Whether the target exists is to be found out.
    Looking,
    /// There is no target: the temporary file is to take its place.
    Placing,
    /// The target is to be put aside.
    Staging,
    /// The temporary file is to take the place of the target.
    Swapping,
    /// That failed: the target is to be put back.
    Restoring,
    /// The temporary file is to be removed.
    Clearing,
    /// The old content is to be removed.
    Finalizing,
    /// The new content is in place.
    Replaced,
    /// It is not, or the old content could not be removed.
    Failed,
}

/// What is to be done next.
#[derive(Debug, Clone, Copy, PartialEq, Eq, Structural)]
pub enum SwapAction {
    Write,
    Look,
    Rename(FileRole, FileRole),
    Remove(FileRole),
    Nothing,
}

/// What is found where the target should be.
#[derive(Debug)]
pub enum Found {
    Missing,
    /// Something of the kind that is expected.
    Present,
    /// Something else, or a link to elsewhere.
    Unsafe,
    /// It cannot be told, with the reason.
    Unknown(String),
}

/// What is done at each stage.
pub open spec fn action_at(stage: SwapStage) -> SwapAction {
    match stage {
        SwapStage::Writing => SwapAction::Write,
        SwapStage::Looking => SwapAction::Look,
        SwapStage::Placing => SwapAction::Rename(FileRole::Temporary, FileRole::Target),
        SwapStage::Staging => SwapAction::Rename(FileRole::Target, FileRole::Backup),
        SwapStage::Swapping => SwapAction::Rename(FileRole::Temporary, FileRole::Target),
        SwapStage::Restoring => SwapAction::Rename(FileRole::Backup, FileRole::Target),
        SwapStage::Clearing => SwapAction::Remove(FileRole::Temporary),
        SwapStage::Finalizing => SwapAction::Remove(FileRole::Backup),
        SwapStage::Replaced => SwapAction::Nothing,
        SwapStage::Failed => SwapAction::Nothing,
    }
}

/// The stage that follows when what was to be done is done, or failed.
pub open spec fn stage_after(kind: SwapKind, stage: SwapStage, ok: bool) -> SwapStage {
    match stage {
        SwapStage::Writing => if ok {
            SwapStage::Looking
        } else {
            SwapStage::Failed
        },
        SwapStage::Placing => if ok {
            SwapStage::Replaced
        } else if kind is Settings {
            SwapStage::Clearing
        } else {
            SwapStage::Failed
        },
        SwapStage::Staging => if ok {
            SwapStage::Swapping
        } else if kind is Settings {
            SwapStage::Clearing
        } else {
            SwapStage::Failed
        },
        SwapStage::Swapping => if ok {
            SwapStage::Finalizing
        } else {
            SwapStage::Restoring
        },
        SwapStage::Restoring => SwapStage::Clearing,
        SwapStage::Clearing => SwapStage::Failed,
        SwapStage::Finalizing => if ok {
            SwapStage::Replaced
        } else {
            SwapStage::Failed
        },
        other => other,
    }
}

/// The stage that follows when the target was looked for. A settings file is
/// only asked for its existence; an avatar must be a file of its own.
pub open spec fn stage_after_look(kind: SwapKind, found: Found) -> SwapStage {
    match found {
        Found::Missing => SwapStage::Placing,
        Found::Present => SwapStage::Staging,
        Found::Unsafe => if kind is Settings {
            SwapStage::Staging
        } else {
            SwapStage::Failed
        },
        Found::Unknown(_) => if kind is Settings {
            SwapStage::Placing
        } else {
            SwapStage::Failed
        },
    }
}

/// A replacement on its way.
pub struct FileSwap {
    kind: SwapKind,
    file_name: String,
    stage: SwapStage,
    error: String,
    restoration: Option<String>,
    cleanup: String,
}

pub ghost struct SwapView {
    pub kind: SwapKind,
    pub file_name: Seq<char>,
    pub stage: SwapStage,
    /// The words of the error that the replacement ends with, if it fails.
    pub error: Seq<char>,
    /// How putting the target back went, where that was tried.
    pub restoration: Option<Seq<char>>,
    /// How removing the temporary file went.
    pub cleanup: Seq<char>,
}

impl View for FileSwap {
    type V = SwapView;

    closed spec fn view(&self) -> SwapView {
        SwapView {
            kind: self.kind,
            file_name: self.file_name@,
            stage: self.stage,
            error: self.error@,
            restoration: text::opt_view(self.restoration),
            cleanup: self.cleanup@,
        }
    }
}

/// The words for a failure at a stage, which come before its reason. An avatar's
/// failures are told in their own words, but for the one that is told with how
/// it was undone.
pub open spec fn failure_words(kind: SwapKind, stage: SwapStage, file_name: Seq<char>) -> Seq<char> {
    if kind is Settings {
        match stage {
            SwapStage::Writing => "failed to write "@ + file_name + ": "@,
            SwapStage::Placing => "failed to persist "@ + file_name + ": "@,
            SwapStage::Staging => "failed to stage existing "@ + file_name + ": "@,
            SwapStage::Swapping => "failed to persist "@ + file_name + ": "@,
            SwapStage::Finalizing => "failed to finalize "@ + file_name + ": "@,
            _ => Seq::empty(),
        }
    } else if stage is Swapping {
        "failed to replace character avatar: "@
    } else {
        Seq::empty()
    }
}

/// A replacement after a step. The error is that of the step that failed first;
/// what undoing it brings does not replace it.
pub open spec fn swap_after(swap: SwapView, outcome: Result<(), Seq<char>>) -> SwapView {
    let stage = stage_after(swap.kind, swap.stage, outcome is Ok);
    match swap.stage {
        SwapStage::Restoring => SwapView {
            stage,
            restoration: Some(
                match outcome {
                    Ok(_) => "ok"@,
                    Err(e) => e,
                },
            ),
            ..swap
        },
        SwapStage::Clearing => SwapView {
            stage,
            cleanup: match outcome {
                Ok(_) => "ok"@,
                Err(e) => e,
            },
            ..swap
        },
        SwapStage::Looking => swap,
        SwapStage::Replaced => swap,
        SwapStage::Failed => swap,
        _ => match outcome {
            Ok(_) => SwapView { stage, ..swap },
            Err(e) => SwapView {
                stage,
                error: failure_words(swap.kind, swap.stage, swap.file_name) + e,
                ..swap
            },
        },
    }
}

/// A replacement after the target was looked for.
pub open spec fn swap_after_look(swap: SwapView, found: Found) -> SwapView {
    if !(swap.stage is Looking) {
        swap
    } else {
        let stage = stage_after_look(swap.kind, found);
        if stage is Failed {
            SwapView {
                stage,
                error: match found {
                    Found::Unknown(reason) => reason@,
                    _ => "character avatar resource file is unsafe"@,
                },
                ..swap
            }
        } else {
            SwapView { stage, ..swap }
        }
    }
}

/// The words that a failed replacement ends with. Where an avatar's target had
/// to be put back, they tell how that went.
pub open spec fn swap_error(swap: SwapView) -> Seq<char> {
    match swap.restoration {
        Some(restoration) if swap.kind is Avatar => swap.error + "; restoration: "@ + restoration
            + "; cleanup: "@ + swap.cleanup,
        _ => swap.error,
    }
}

/// The view of the outcome of a step.
pub open spec fn outcome_view(outcome: Result<(), String>) -> Result<(), Seq<char>> {
    match outcome {
        Ok(_) => Ok(()),
        Err(e) => Err(e@),
    }
}

fn words_for(kind: SwapKind, stage: SwapStage, file_name: &str) -> (r: String)
    ensures
        r@ == failure_words(kind, stage, file_name@),
{
    match kind {
        SwapKind::Settings => match stage {
            SwapStage::Writing => concat3("failed to write ", file_name, ": "),
            SwapStage::Placing => concat3("failed to persist ", file_name, ": "),
            SwapStage::Staging => concat3("failed to stage existing ", file_name, ": "),
            SwapStage::Swapping => concat3("failed to persist ", file_name, ": "),
            SwapStage::Finalizing => concat3("failed to finalize ", file_name, ": "),
            _ => String::new(),
        },
        SwapKind::Avatar => match stage {
            SwapStage::Swapping => "failed to replace character avatar: ".to_owned(),
            _ => String::new(),
        },
    }
}

fn next_stage(kind: SwapKind, stage: SwapStage, ok: bool) -> (r: SwapStage)
    ensures
        r == stage_after(kind, stage, ok),
{
    let settings = match kind {
        SwapKind::Settings => true,
        SwapKind::Avatar => false,
    };
    match stage {
        SwapStage::Writing => if ok {
            SwapStage::Looking
        } else {
            SwapStage::Failed
        },
        SwapStage::Placing => if ok {
            SwapStage::Replaced
        } else if settings {
            SwapStage::Clearing
        } else {
            SwapStage::Failed
        },
        SwapStage::Staging => if ok {
            SwapStage::Swapping
        } else if settings {
            SwapStage::Clearing
        } else {
            SwapStage::Failed
        },
        SwapStage::Swapping => if ok {
            SwapStage::Finalizing
        } else {
            SwapStage::Restoring
        },
        SwapStage::Restoring => SwapStage::Clearing,
        SwapStage::Clearing => SwapStage::Failed,
        SwapStage::Finalizing => if ok {
            SwapStage::Replaced
        } else {
            SwapStage::Failed
        },
        other => other,
    }
}

impl FileSwap {
    /// A replacement that has not begun. `file_name` is used in its errors.
    pub fn new(kind: SwapKind, file_name: &str) -> (r: Self)
        ensures
            r@ == (SwapView {
                kind,
                file_name: file_name@,
                stage: SwapStage::Writing,
                error: Seq::empty(),
                restoration: None,
                cleanup: Seq::empty(),
            }),
    {
        FileSwap {
            kind,
            file_name: file_name.to_owned(),
            stage: SwapStage::Writing,
            error: String::new(),
            restoration: None,
            cleanup: String::new(),
        }
    }

    /// What is to be done next.
    pub fn action(&self) -> (r: SwapAction)
        ensures
            r == action_at(self@.stage),
    {
        match self.stage {
            SwapStage::Writing => SwapAction::Write,
            SwapStage::Looking => SwapAction::Look,
            SwapStage::Placing => SwapAction::Rename(FileRole::Temporary, FileRole::Target),
            SwapStage::Staging => SwapAction::Rename(FileRole::Target, FileRole::Backup),
            SwapStage::Swapping => SwapAction::Rename(FileRole::Temporary, FileRole::Target),
            SwapStage::Restoring => SwapAction::Rename(FileRole::Backup, FileRole::Target),
            SwapStage::Clearing => SwapAction::Remove(FileRole::Temporary),
            SwapStage::Finalizing => SwapAction::Remove(FileRole::Backup),
            SwapStage::Replaced => SwapAction::Nothing,
            SwapStage::Failed => SwapAction::Nothing,
        }
    }

    /// The target was looked for.
    pub fn looked(&mut self, found: Found)
        ensures
            final(self)@ == swap_after_look(old(self)@, found),
    {
        match self.stage {
            SwapStage::Looking => {},
            _ => {
                return ;
            },
        }
        let settings = match self.kind {
            SwapKind::Settings => true,
            SwapKind::Avatar => false,
        };
        match found {
            Found::Missing => {
                self.stage = SwapStage::Placing;
            },
            Found::Present => {
                self.stage = SwapStage::Staging;
            },
            Found::Unsafe => if settings {
                self.stage = SwapStage::Staging;
            } else {
                self.stage = SwapStage::Failed;
                self.error = "character avatar resource file is unsafe".to_owned();
            },
            Found::Unknown(reason) => if settings {
                self.stage = SwapStage::Placing;
            } else {
                self.stage = SwapStage::Failed;
                self.error = reason;
            },
        }
    }

    /// What was to be done is done, or failed.
    pub fn done(&mut self, outcome: Result<(), String>)
        ensures
            final(self)@ == swap_after(old(self)@, outcome_view(outcome)),
    {
        let stage = next_stage(self.kind, self.stage, outcome.is_ok());
        match self.stage {
            SwapStage::Restoring => {
                self.restoration = Some(
                    match outcome {
                        Ok(_) => "ok".to_owned(),
                        Err(e) => e,
                    },
                );
            },
            SwapStage::Clearing => {
                self.cleanup = match outcome {
                    Ok(_) => "ok".to_owned(),
                    Err(e) => e,
                };
            },
            SwapStage::Looking => {
                return ;
            },
            SwapStage::Replaced => {
                return ;
            },
            SwapStage::Failed => {
                return ;
            },
            _ => {
                if let Err(e) = outcome {
                    let words = words_for(self.kind, self.stage, self.file_name.as_str());
                    self.error = concat2(words.as_str(), e.as_str());
                }
            },
        }
        self.stage = stage;
    }

    /// How the replacement ended, once it has.
    pub fn result(&self) -> (r: Option<Result<(), String>>)
        ensures
            match r {
                Some(Ok(_)) => self@.stage is Replaced,
                Some(Err(e)) => self@.stage is Failed && e@ == swap_error(self@),
                None => !(self@.stage is Replaced) && !(self@.stage is Failed),
            },
    {
        match self.stage {
            SwapStage::Replaced => Some(Ok(())),
            SwapStage::Failed => {
                let avatar = match self.kind {
                    SwapKind::Settings => false,
                    SwapKind::Avatar => true,
                };
                match &self.restoration {
                    Some(restoration) if avatar => {
                        let head = concat3(
                            self.error.as_str(),
                            "; restoration: ",
                            restoration.as_str(),
                        );
                        Some(
                            Err(concat3(head.as_str(), "; cleanup: ", self.cleanup.as_str())),
                        )
                    },
                    _ => Some(Err(self.error.clone())),
                }
            },
            _ => None,
        }
    }
}

/// The names of the two helper files beside a target, made so that no two
/// replacements share them. `token` is drawn anew for each.
pub fn settings_temporary(directory: &FilePath, file_name: &str, token: &str) -> (path: FilePath)
    ensures
        path@ == paths::joined(directory@, "."@ + file_name@ + "."@ + token@ + ".tmp"@),
{
    let name = concat2(
        concat2(concat3(".", file_name, ".").as_str(), token).as_str(),
        ".tmp",
    );
    directory.join(name.as_str())
}

pub fn settings_backup(directory: &FilePath, file_name: &str, token: &str) -> (path: FilePath)
    ensures
        path@ == paths::joined(directory@, "."@ + file_name@ + "."@ + token@ + ".backup"@),
{
    let name = concat2(
        concat2(concat3(".", file_name, ".").as_str(), token).as_str(),
        ".backup",
    );
    directory.join(name.as_str())
}

pub fn avatar_temporary(directory: &FilePath, token: &str) -> (path: FilePath)
    ensures
        path@ == paths::joined(directory@, ".avatar-"@ + token@ + ".tmp"@),
{
    directory.join(concat3(".avatar-", token, ".tmp").as_str())
}

pub fn avatar_backup(directory: &FilePath, token: &str) -> (path: FilePath)
    ensures
        path@ == paths::joined(directory@, ".avatar-"@ + token@ + ".backup"@),
{
    directory.join(concat3(".avatar-", token, ".backup").as_str())
}

/// A token that is drawn anew.
pub fn swap_token() -> (token: String)
    ensures
        token@.len() == 36,
{
    new_request_id()
}

/// The three files and what they hold.
pub ghost struct Disk {
    pub target: Option<int>,
    pub temporary: Option<int>,
    pub backup: Option<int>,
}

pub open spec fn held(disk: Disk, role: FileRole) -> Option<int> {
    match role {
        FileRole::Target => disk.target,
        FileRole::Temporary => disk.temporary,
        FileRole::Backup => disk.backup,
    }
}

pub open spec fn holding(disk: Disk, role: FileRole, content: Option<int>) -> Disk {
    match role {
        FileRole::Target => Disk { target: content, ..disk },
        FileRole::Temporary => Disk { temporary: content, ..disk },
        FileRole::Backup => Disk { backup: content, ..disk },
    }
}

/// The files after an action; one that fails changes nothing.
pub open spec fn disk_after(disk: Disk, action: SwapAction, ok: bool, new: int) -> Disk {
    if !ok {
        disk
    } else {
        match action {
            SwapAction::Write => holding(disk, FileRole::Temporary, Some(new)),
            SwapAction::Rename(from, to) => holding(
                holding(disk, to, held(disk, from)),
                from,
                None,
            ),
            SwapAction::Remove(role) => holding(disk, role, None),
            _ => disk,
        }
    }
}

/// What the files hold at each stage, where the target held `old` at first and
/// `new` is to take its place.
pub open spec fn swap_inv(stage: SwapStage, disk: Disk, old: Option<int>, new: int) -> bool {
    match stage {
        SwapStage::Writing => disk.target == old && disk.backup is None,
        SwapStage::Looking => disk.target == old && disk.temporary == Some(new) && disk.backup is None,
        SwapStage::Placing => disk.target == old && disk.temporary == Some(new)
            && disk.backup is None,
        SwapStage::Staging => old is Some && disk.target == old && disk.temporary == Some(new)
            && disk.backup is None,
        SwapStage::Swapping => old is Some && disk.target is None && disk.temporary == Some(new)
            && disk.backup == old,
        SwapStage::Restoring => old is Some && disk.target is None && disk.backup == old,
        SwapStage::Clearing => disk.target == old || (disk.target is None && disk.backup == old),
        SwapStage::Finalizing => disk.target == Some(new) && disk.backup == old,
        SwapStage::Replaced => disk.target == Some(new) && disk.backup is None,
        SwapStage::Failed => kept(disk, old, new),
    }
}

/// The old content or the new one is in place; or the old one, which could not
/// be put back, still stands aside.
pub open spec fn kept(disk: Disk, old: Option<int>, new: int) -> bool {
    disk.target == old || disk.target == Some(new) || (disk.target is None && disk.backup == old)
}

/// However the steps come out, and whatever the look at the target finds, the
/// content of a file is not lost: every step keeps what holds of the files at its
/// stage, so a replacement that is done has the new content in place, and one that
/// failed still has the old or the new one. Where something is found, there was
/// something.
pub proof fn lemma_swap_keeps_content(
    kind: SwapKind,
    stage: SwapStage,
    disk: Disk,
    old: Option<int>,
    new: int,
    ok: bool,
    found: Found,
)
    requires
        swap_inv(stage, disk, old, new),
        stage is Looking && (found is Present || found is Unsafe) ==> old is Some,
    ensures
        !(stage is Looking) ==> swap_inv(
            stage_after(kind, stage, ok),
            disk_after(disk, action_at(stage), ok, new),
            old,
            new,
        ),
        stage is Looking ==> swap_inv(stage_after_look(kind, found), disk, old, new),
        swap_inv(SwapStage::Replaced, disk, old, new) ==> disk.target == Some(new),
        swap_inv(SwapStage::Failed, disk, old, new) ==> kept(disk, old, new),
{
}

/// How many steps a replacement still takes at most.
pub open spec fn steps_left(stage: SwapStage) -> nat {
    match stage {
        SwapStage::Writing => 6,
        SwapStage::Looking => 5,
        SwapStage::Staging => 4,
        SwapStage::Swapping => 3,
        SwapStage::Restoring => 2,
        SwapStage::Placing => 2,
        SwapStage::Clearing => 1,
        SwapStage::Finalizing => 1,
        SwapStage::Replaced => 0,
        SwapStage::Failed => 0,
    }
}

/// Every replacement ends: each step leaves fewer.
pub proof fn lemma_swap_ends(kind: SwapKind, stage: SwapStage, ok: bool, found: Found)
    ensures
        !(stage is Looking) && steps_left(stage) > 0 ==> steps_left(stage_after(kind, stage, ok))
            < steps_left(stage),
        steps_left(stage_after_look(kind, found)) < steps_left(SwapStage::Looking),
        steps_left(stage) == 0 <==> stage is Replaced || stage is Failed,
{
}

} // verus!
