//! How replacing a file and changing an avatar come out, whichever step fails, and
//! how paths and digests are written.

use vstd::prelude::*;
use vstd::utf8::*;
use crate::avatar;
use crate::avatar::RemovalView;
use crate::avatar_change;
use crate::avatar_change::{ChangePlan, ChangeStage, ChangeView, Place};
use crate::encoding;
use crate::error;
use crate::error::KokoroError;
use crate::file_swap;
use crate::file_swap::{Disk, Found, SwapKind, SwapStage, SwapView};
use crate::paths;

verus! {

broadcast use vstd::string::group_string_axioms;

/// The stage and the files at the end of a replacement in which the step at the stage
/// `failing` fails, if it is reached, and all others are done.
pub open spec fn swap_run(
    kind: SwapKind,
    stage: SwapStage,
    disk: Disk,
    found: Found,
    new: int,
    failing: Option<SwapStage>,
    steps: nat,
) -> (SwapStage, Disk)
    decreases steps,
{
    if steps == 0 {
        (stage, disk)
    } else if stage is Looking {
        swap_run(
            kind,
            file_swap::stage_after_look(kind, found),
            disk,
            found,
            new,
            failing,
            (steps - 1) as nat,
        )
    } else {
        let ok = failing != Some(stage);
        swap_run(
            kind,
            file_swap::stage_after(kind, stage, ok),
            file_swap::disk_after(disk, file_swap::action_at(stage), ok, new),
            found,
            new,
            failing,
            (steps - 1) as nat,
        )
    }
}

/// A replacement in which nothing fails ends with the new content in place and no
/// other file left over, whether or not there was an old one.
pub proof fn lemma_swap_done(kind: SwapKind, old: Option<int>, left: Option<int>, new: int)
    ensures
        ({
            let disk = Disk { target: old, temporary: left, backup: None };
            let found = if old is Some {
                Found::Present
            } else {
                Found::Missing
            };
            swap_run(kind, SwapStage::Writing, disk, found, new, None, 6) == (
                SwapStage::Replaced,
                Disk { target: Some(new), temporary: None, backup: None },
            )
        }),
{
    reveal_with_fuel(swap_run, 7);
}

/// A replacement in which one step fails ends as failed, with the old content in
/// place; only where the old content could not be removed is the new one there
/// already. Nothing is left aside where the old content is back.
pub proof fn lemma_swap_undone(
    kind: SwapKind,
    old: Option<int>,
    left: Option<int>,
    new: int,
    failing: SwapStage,
)
    requires
        failing is Writing || (failing is Placing && old is None) || (old is Some && (
        failing is Staging || failing is Swapping || failing is Finalizing)),
    ensures
        ({
            let disk = Disk { target: old, temporary: left, backup: None };
            let found = if old is Some {
                Found::Present
            } else {
                Found::Missing
            };
            let (stage, end) = swap_run(
                kind,
                SwapStage::Writing,
                disk,
                found,
                new,
                Some(failing),
                6,
            );
            &&& stage is Failed
            &&& end.target == (if failing is Finalizing {
                Some(new)
            } else {
                old
            })
            &&& !(failing is Finalizing) ==> end.backup is None
            &&& failing is Swapping ==> end.temporary is None
        }),
{
    reveal_with_fuel(swap_run, 7);
}

/// What is found decides: an avatar is only put in the place of a file of its own or
/// of nothing; settings take the place of whatever is there.
pub proof fn lemma_swap_look(reason: String)
    ensures
        file_swap::stage_after_look(SwapKind::Avatar, Found::Unsafe) is Failed,
        file_swap::stage_after_look(SwapKind::Avatar, Found::Unknown(reason)) is Failed,
        file_swap::stage_after_look(SwapKind::Avatar, Found::Present) is Staging,
        file_swap::stage_after_look(SwapKind::Avatar, Found::Missing) is Placing,
        file_swap::stage_after_look(SwapKind::Settings, Found::Present) is Staging,
        file_swap::stage_after_look(SwapKind::Settings, Found::Unsafe) is Staging,
        file_swap::stage_after_look(SwapKind::Settings, Found::Missing) is Placing,
        file_swap::stage_after_look(SwapKind::Settings, Found::Unknown(reason)) is Placing,
{
}

/// The error of a replacement is that of the step that failed; how undoing it went
/// is told behind it for an avatar, and does not replace it.
pub proof fn lemma_swap_error(swap: SwapView, e: Seq<char>, back: Seq<char>, cleared: Seq<char>)
    requires
        swap.stage is Swapping,
        swap.restoration is None,
    ensures
        ({
            let failed = file_swap::swap_after(swap, Err(e));
            let restored = file_swap::swap_after(failed, Err(back));
            let kept = file_swap::swap_after(failed, Ok(()));
            let end = file_swap::swap_after(restored, Err(cleared));
            let clean = file_swap::swap_after(kept, Ok(()));
            &&& failed.stage is Restoring && restored.stage is Clearing && end.stage is Failed
            &&& swap.kind is Settings ==> file_swap::swap_error(end) == "failed to persist "@
                + swap.file_name + ": "@ + e
            &&& swap.kind is Avatar ==> file_swap::swap_error(end)
                == "failed to replace character avatar: "@ + e + "; restoration: "@ + back
                + "; cleanup: "@ + cleared
            &&& swap.kind is Avatar ==> file_swap::swap_error(clean)
                == "failed to replace character avatar: "@ + e + "; restoration: "@ + "ok"@
                + "; cleanup: "@ + "ok"@
        }),
{
}

/// The words with which a failed replacement of settings begins, and those for an
/// avatar in whose place something unsafe stands.
pub proof fn lemma_swap_words(swap: SwapView, e: Seq<char>, reason: String)
    requires
        swap.restoration is None,
    ensures
        swap.kind is Settings && swap.stage is Writing ==> file_swap::swap_error(
            file_swap::swap_after(swap, Err(e)),
        ) == "failed to write "@ + swap.file_name + ": "@ + e,
        swap.kind is Settings && swap.stage is Placing ==> file_swap::swap_error(
            file_swap::swap_after(swap, Err(e)),
        ) == "failed to persist "@ + swap.file_name + ": "@ + e,
        swap.kind is Settings && swap.stage is Staging ==> file_swap::swap_error(
            file_swap::swap_after(swap, Err(e)),
        ) == "failed to stage existing "@ + swap.file_name + ": "@ + e,
        swap.kind is Settings && swap.stage is Finalizing ==> file_swap::swap_error(
            file_swap::swap_after(swap, Err(e)),
        ) == "failed to finalize "@ + swap.file_name + ": "@ + e,
        swap.kind is Avatar && (swap.stage is Writing || swap.stage is Placing
            || swap.stage is Staging || swap.stage is Finalizing) ==> file_swap::swap_error(
            file_swap::swap_after(swap, Err(e)),
        ) == e,
        swap.kind is Avatar && swap.stage is Looking ==> file_swap::swap_error(
            file_swap::swap_after_look(swap, Found::Unsafe),
        ) == "character avatar resource file is unsafe"@,
        swap.kind is Avatar && swap.stage is Looking ==> file_swap::swap_error(
            file_swap::swap_after_look(swap, Found::Unknown(reason)),
        ) == reason@,
{
    if swap.kind is Avatar {
        assert(Seq::<char>::empty() + e =~= e);
    }
}

/// The stage and the place at the end of a change in which the step at the stage
/// `failing` fails, if it is reached, and all others are done. `left` is what a
/// failed writing leaves behind.
pub open spec fn change_run(
    plan: ChangePlan,
    stage: ChangeStage,
    place: Place,
    new: int,
    left: Option<int>,
    failing: Option<ChangeStage>,
    steps: nat,
) -> (ChangeStage, Place)
    decreases steps,
{
    if steps == 0 {
        (stage, place)
    } else {
        let ok = failing != Some(stage);
        change_run(
            plan,
            avatar_change::next_stage(plan, stage, ok),
            avatar_change::place_after(place, stage, ok, new, left),
            new,
            left,
            failing,
            (steps - 1) as nat,
        )
    }
}

/// A change in which nothing fails is made: the character is stored, the new avatar is
/// in place where one was written, the old one is gone where it was put aside, and
/// stays where nothing was planned for it.
pub proof fn lemma_change_done(plan: ChangePlan, old: Option<int>, new: int, left: Option<int>)
    ensures
        ({
            let place = Place { current: old, aside: None, stored: false };
            change_run(plan, avatar_change::first_stage(plan), place, new, left, None, 4) == (
                ChangeStage::Done,
                Place {
                    current: if plan.writes {
                        Some(new)
                    } else if plan.stages {
                        None
                    } else {
                        old
                    },
                    aside: None,
                    stored: true,
                },
            )
        }),
{
    reveal_with_fuel(change_run, 5);
}

/// A change in which a step fails is not made: it ends as failed, with the old avatar
/// in place, nothing put aside, and the character as it was; only where the old avatar
/// could not be removed at the end is the change made all the same.
pub proof fn lemma_change_undone(
    plan: ChangePlan,
    old: Option<int>,
    new: int,
    left: Option<int>,
    failing: ChangeStage,
)
    requires
        plan.writes && !plan.stages ==> old is None,
        (failing is Staging && plan.stages) || (failing is Writing && plan.writes)
            || failing is Storing || (failing is Removing && plan.stages),
    ensures
        ({
            let place = Place { current: old, aside: None, stored: false };
            let (stage, end) = change_run(
                plan,
                avatar_change::first_stage(plan),
                place,
                new,
                left,
                Some(failing),
                5,
            );
            &&& stage is Failed
            &&& !(failing is Removing) ==> end == place
            &&& failing is Removing ==> end.stored && end.aside == old && end.current == (
            if plan.writes {
                Some(new)
            } else {
                None
            })
        }),
{
    reveal_with_fuel(change_run, 6);
}

/// Bringing back what was put aside forgets it only where that went well, and letting
/// it go forgets it at once; where it was, stays known.
pub proof fn lemma_removal(removal: RemovalView)
    ensures
        avatar::after_finalize(removal) == (RemovalView {
            original: removal.original,
            backup: None,
            is_armed: false,
        }),
        removal.is_armed ==> avatar::after_rollback(removal, true) == (RemovalView {
            original: removal.original,
            backup: None,
            is_armed: false,
        }),
        !removal.is_armed ==> avatar::after_rollback(removal, true) == removal,
        avatar::after_rollback(removal, false) == removal,
        avatar::nothing_staged().backup is None && !avatar::nothing_staged().is_armed,
        removal.well_formed() <==> (removal.is_armed ==> removal.backup is Some) && (
        removal.backup is Some ==> removal.original is Some),
{
}

/// A name goes behind its directory with one slash between them; one that begins at
/// the root stands alone.
pub proof fn lemma_joined(dir: Seq<u8>, name: Seq<u8>)
    ensures
        name.len() > 0 && name[0] == 0x2f ==> paths::joined_bytes(dir, name) == name,
        (name.len() == 0 || name[0] != 0x2f) && dir.len() > 0 && dir.last() != 0x2f
            ==> paths::joined_bytes(dir, name) == dir + seq![0x2fu8] + name,
        (name.len() == 0 || name[0] != 0x2f) && dir.len() > 0 && dir.last() == 0x2f
            ==> paths::joined_bytes(dir, name) == dir + name,
        name.len() == 0 || name[0] != 0x2f ==> paths::joined_bytes(Seq::empty(), name) == name,
{
    assert(dir.push(0x2f) + name =~= dir + seq![0x2fu8] + name);
    assert(Seq::<u8>::empty() + name =~= name);
}

/// The application's files stand in its own directory inside that of the user's data.
pub proof fn lemma_app_dir(data: Seq<u8>)
    requires
        data.len() > 0,
        data.last() != 0x2f,
    ensures
        paths::app_dir(Some(data)) == data + seq![0x2fu8] + encode_utf8("com.chyin.kokoro"@),
        paths::app_dir(None) == seq![0x2eu8, 0x2fu8] + encode_utf8("com.chyin.kokoro"@),
{
    reveal_strlit("com.chyin.kokoro");
    reveal_strlit(".");
    let name = "com.chyin.kokoro"@;
    let here = "."@;
    reveal_with_fuel(encode_utf8, 2);
    assert(name[0] as u32 == 0x63u32 && here[0] as u32 == 0x2eu32);
    assert(0x63u32 & 0x7F == 0x63u32 && 0x2eu32 & 0x7F == 0x2eu32) by (bit_vector);
    assert(0x63u32 as u8 == 0x63u8 && 0x2eu32 as u8 == 0x2eu8) by (bit_vector);
    assert(encode_scalar(name[0] as u32) =~= seq![0x63u8]);
    assert(encode_utf8(name)[0] == 0x63);
    assert(encode_scalar(here[0] as u32) =~= seq![0x2eu8]);
    assert(here.drop_first() =~= Seq::<char>::empty());
    assert(encode_utf8(here) =~= seq![0x2eu8]);
    lemma_joined(data, encode_utf8(name));
    lemma_joined(encode_utf8(here), encode_utf8(name));
    assert(seq![0x2eu8] + seq![0x2fu8] =~= seq![0x2eu8, 0x2fu8]);
}

/// One more byte is two more digits behind the others: first the one for its upper
/// half, then that for its lower half.
pub proof fn lemma_hex(bytes: Seq<u8>, byte: u8)
    ensures
        encoding::hex(Seq::empty()) == Seq::<char>::empty(),
        encoding::hex(bytes.push(byte)) == encoding::hex(bytes) + seq![
            encoding::hex_digit(byte as int / 16),
            encoding::hex_digit(byte as int % 16),
        ],
{
    let more = encoding::hex(bytes.push(byte));
    let before = encoding::hex(bytes);
    let n = bytes.len() as int;
    assert(encoding::hex(Seq::empty()) =~= Seq::<char>::empty());
    assert(more =~= before + seq![
        encoding::hex_digit(byte as int / 16),
        encoding::hex_digit(byte as int % 16),
    ]) by {
        assert forall|k: int| 0 <= k < 2 * n implies more[k] == before[k] by {
            assert(bytes.push(byte)[k / 2] == bytes[k / 2]);
        }
        assert((2 * n) / 2 == n && (2 * n + 1) / 2 == n);
    }
}

/// The digits are those from `0` to `9` and the letters from `a` to `f`, in their
/// order.
pub proof fn lemma_hex_digit(n: int)
    requires
        0 <= n < 16,
    ensures
        n < 10 ==> encoding::hex_digit(n) as u32 == '0' as u32 + n,
        n >= 10 ==> encoding::hex_digit(n) as u32 == 'a' as u32 + (n - 10),
{
}

/// A change after a step that was done goes on and keeps its error; after one that
/// failed it has that error, unless it is being undone already, and then the failure
/// is kept beside the first error.
pub proof fn lemma_change_error(change: ChangeView, first: (KokoroError, String), second: (
    KokoroError,
    String,
))
    requires
        change.stage is Storing,
        change.plan.writes,
        change.plan.stages,
        change.failure is None,
        change.cleanup is Ok,
        change.restoration is Ok,
    ensures
        ({
            let failed = avatar_change::change_after(change, Some(first));
            let cleared = avatar_change::change_after(failed, None);
            let undone = avatar_change::change_after(cleared, None);
            let dirty = avatar_change::change_after(failed, Some(second));
            let half = avatar_change::change_after(dirty, None);
            let lost = avatar_change::change_after(cleared, Some(second));
            &&& avatar_change::change_after(change, None).failure is None
            &&& failed.stage is Clearing && failed.failure == Some(first)
            &&& undone.stage is Failed && undone.failure == Some(first)
            &&& avatar_change::is_change_error(undone, first.0)
            &&& half.stage is Failed && half.failure == Some(first)
            &&& forall|e: KokoroError| #[trigger]
                avatar_change::is_change_error(half, e) && !change.plan.creates ==> error::is_internal(
                    e,
                    "avatar operation failed: "@ + first.1@ + "; cleanup: "@ + second.1@
                        + "; restoration: "@ + "ok"@,
                )
            &&& forall|e: KokoroError| #[trigger]
                avatar_change::is_change_error(half, e) && change.plan.creates ==> error::is_internal(
                    e,
                    "avatar operation failed: "@ + first.1@ + "; cleanup also failed: "@
                        + second.1@,
                )
            &&& forall|e: KokoroError| #[trigger]
                avatar_change::is_change_error(lost, e) && !change.plan.creates ==> error::is_internal(
                    e,
                    "avatar operation failed: "@ + first.1@ + "; cleanup: "@ + "ok"@
                        + "; restoration: "@ + second.1@,
                )
        }),
{
}

/// What is found where a directory should be: it is there, it is missing, or it is
/// refused with the right error.
pub proof fn lemma_directory(words: Seq<char>, reason: String, r: Result<bool, KokoroError>)
    ensures
        avatar::directory_there(Found::Present, words, r) <==> r == Ok::<bool, KokoroError>(true),
        avatar::directory_there(Found::Missing, words, r) <==> r == Ok::<bool, KokoroError>(false),
        avatar::directory_there(Found::Unsafe, words, r) <==> (r matches Err(e)
            && error::is_validation(e, words)),
        avatar::directory_there(Found::Unknown(reason), words, r) <==> (r matches Err(e)
            && error::is_io(e, reason@)),
{
}

/// What is not of the right kind is refused, and what cannot be told gives the reason.
pub proof fn lemma_kind(words: Seq<char>, reason: String, e: KokoroError)
    ensures
        avatar::is_right_kind(Ok(true)),
        !avatar::is_right_kind(Ok(false)),
        !avatar::is_right_kind(Err(reason)),
        avatar::refuses_kind(Ok(false), words, e) <==> error::is_validation(e, words),
        avatar::refuses_kind(Err(reason), words, e) <==> error::is_io(e, reason@),
        !avatar::refuses_kind(Ok(true), words, e),
{
}

/// A character owns the avatar whose reference names it.
pub proof fn lemma_owner(id: Seq<char>, owner: Seq<char>)
    ensures
        avatar::owns_avatar(id, Some(owner)) <==> id == owner,
        !avatar::owns_avatar(id, None),
{
}

/// What is put aside goes beside the directory, under a name of its own.
pub proof fn lemma_backup_name(path: Seq<u8>, root: Seq<u8>, id: Seq<char>) -> (token: Seq<char>)
    requires
        avatar::is_backup_of(path, root, id),
    ensures
        token.len() == 36,
        path == paths::joined_bytes(root, encode_utf8("."@ + id + ".delete-backup-"@ + token)),
{
    choose|token: Seq<char>|
        (#[trigger] token.len()) == 36 && path == paths::joined(
            root,
            "."@ + id + ".delete-backup-"@ + token,
        )
}

/// A file of the application stands in its directory, under its name.
pub proof fn lemma_app_file(path: Seq<u8>, name: Seq<char>) -> (dir: Option<Seq<u8>>)
    requires
        paths::is_app_file(path, name),
    ensures
        path == paths::joined_bytes(paths::app_dir(dir), encode_utf8(name)),
{
    choose|dir: Option<Seq<u8>>| path == paths::joined(#[trigger] paths::app_dir(dir), name)
}

} // verus!
