//! Changing a character together with its avatar: the old avatar is put aside,
//! the new one written, the character stored, and then the old avatar goes. If
//! a step fails, what was done is undone.

use vstd::prelude::*;
use crate::avatar;
use crate::avatar::{recover_cleanup_failure, recover_managed_avatar_failure};
use crate::error;
use crate::error::KokoroError;

verus! {

/// What a change consists of.
#[derive(Debug, Clone, Copy, PartialEq, Eq, Structural)]
pub struct ChangePlan {
    /// The character is new.
    pub creates: bool,
    /// An old avatar is put aside.
    pub stages: bool,
    /// A new avatar is written.
    pub writes: bool,
}

/// How far a change is.
#[derive(Debug, Clone, Copy, PartialEq, Eq, Structural)]
pub enum ChangeStage {
    /// The old avatar is to be put aside.
    Staging,
    /// The new avatar is to be written.
    Writing,
    /// The character is to be stored.
    Storing,
    /// A step failed: the new avatar is to be removed.
    Clearing,
    /// A step failed: the old avatar is to be brought back.
    Restoring,
    /// The old avatar is to be removed.
    Removing,
    /// The change is made.
    Done,
    /// It is not, or the old avatar could not be removed.
    Failed,
}

pub open spec fn first_stage(plan: ChangePlan) -> ChangeStage {
    if plan.stages {
        ChangeStage::Staging
    } else if plan.writes {
        ChangeStage::Writing
    } else {
        ChangeStage::Storing
    }
}

/// The stage that follows when a step is done, or failed.
pub open spec fn next_stage(plan: ChangePlan, stage: ChangeStage, ok: bool) -> ChangeStage {
    match stage {
        ChangeStage::Staging => if !ok {
            ChangeStage::Failed
        } else if plan.writes {
            ChangeStage::Writing
        } else {
            ChangeStage::Storing
        },
        ChangeStage::Writing => if ok {
            ChangeStage::Storing
        } else {
            ChangeStage::Clearing
        },
        ChangeStage::Storing => if ok {
            if plan.stages {
                ChangeStage::Removing
            } else {
                ChangeStage::Done
            }
        } else if plan.writes {
            ChangeStage::Clearing
        } else if plan.stages {
            ChangeStage::Restoring
        } else {
            ChangeStage::Failed
        },
        ChangeStage::Clearing => if plan.stages {
            ChangeStage::Restoring
        } else {
            ChangeStage::Failed
        },
        ChangeStage::Restoring => ChangeStage::Failed,
        ChangeStage::Removing => if ok {
            ChangeStage::Done
        } else {
            ChangeStage::Failed
        },
        other => other,
    }
}

/// A change on its way.
pub struct AvatarChange {
    plan: ChangePlan,
    stage: ChangeStage,
    failure: Option<(KokoroError, String)>,
    cleanup: Result<(), String>,
    restoration: Result<(), String>,
}

pub ghost struct ChangeView {
    pub plan: ChangePlan,
    pub stage: ChangeStage,
    /// The error of the step that failed, also in words.
    pub failure: Option<(KokoroError, String)>,
    /// How removing the new avatar went.
    pub cleanup: Result<(), String>,
    /// How bringing the old avatar back went.
    pub restoration: Result<(), String>,
}

impl View for AvatarChange {
    type V = ChangeView;

    closed spec fn view(&self) -> ChangeView {
        ChangeView {
            plan: self.plan,
            stage: self.stage,
            failure: self.failure,
            cleanup: self.cleanup,
            restoration: self.restoration,
        }
    }
}

impl ChangeView {
    /// A change that is being undone, or has failed, has an error.
    pub open spec fn well_formed(self) -> bool {
        self.stage is Clearing || self.stage is Restoring || self.stage is Failed
            ==> self.failure is Some
    }
}

/// A change after a step.
pub open spec fn change_after(change: ChangeView, failure: Option<(KokoroError, String)>) -> ChangeView {
    let stage = next_stage(change.plan, change.stage, failure is None);
    let words: Result<(), String> = match failure {
        Some(f) => Err(f.1),
        None => Ok(()),
    };
    match change.stage {
        ChangeStage::Clearing => ChangeView { stage, cleanup: words, ..change },
        ChangeStage::Restoring => ChangeView { stage, restoration: words, ..change },
        ChangeStage::Done => change,
        ChangeStage::Failed => change,
        _ => match failure {
            Some(f) => ChangeView { stage, failure: Some(f), ..change },
            None => ChangeView { stage, ..change },
        },
    }
}

/// The error that a failed change ends with: that of the step that failed, and
/// what went wrong in undoing it, if anything did.
pub open spec fn is_change_error(change: ChangeView, e: KokoroError) -> bool {
    let own = (change.failure->0).0;
    let words = (change.failure->0).1@;
    if change.plan.creates {
        match change.cleanup {
            Ok(_) => e == own,
            Err(cleanup) => error::is_internal(
                e,
                "avatar operation failed: "@ + words + "; cleanup also failed: "@ + cleanup@,
            ),
        }
    } else if change.cleanup is Ok && change.restoration is Ok {
        e == own
    } else {
        error::is_internal(
            e,
            "avatar operation failed: "@ + words + "; cleanup: "@ + avatar::step_words(
                change.cleanup,
            ) + "; restoration: "@ + avatar::step_words(change.restoration),
        )
    }
}

impl AvatarChange {
    #[verifier::type_invariant]
    closed spec fn inv(self) -> bool {
        self@.well_formed()
    }

    pub fn new(plan: ChangePlan) -> (r: Self)
        ensures
            r@ == (ChangeView {
                plan,
                stage: first_stage(plan),
                failure: None,
                cleanup: Ok(()),
                restoration: Ok(()),
            }),
    {
        let stage = if plan.stages {
            ChangeStage::Staging
        } else if plan.writes {
            ChangeStage::Writing
        } else {
            ChangeStage::Storing
        };
        AvatarChange { plan, stage, failure: None, cleanup: Ok(()), restoration: Ok(()) }
    }

    /// What is to be done next.
    pub fn stage(&self) -> (r: ChangeStage)
        ensures
            r == self@.stage,
    {
        self.stage
    }

    /// A step is done, or failed with an error that is given also in words.
    pub fn step(self, failure: Option<(KokoroError, String)>) -> (r: Self)
        ensures
            r@ == change_after(self@, failure),
    {
        proof {
            use_type_invariant(&self);
        }
        let plan = self.plan;
        let ok = failure.is_none();
        let ghost before = self@;
        match self.stage {
            ChangeStage::Clearing => {
                let cleanup = match failure {
                    Some(f) => Err(f.1),
                    None => Ok(()),
                };
                let stage = if plan.stages {
                    ChangeStage::Restoring
                } else {
                    ChangeStage::Failed
                };
                AvatarChange {
                    plan,
                    stage,
                    failure: self.failure,
                    cleanup,
                    restoration: self.restoration,
                }
            },
            ChangeStage::Restoring => {
                let restoration = match failure {
                    Some(f) => Err(f.1),
                    None => Ok(()),
                };
                AvatarChange {
                    plan,
                    stage: ChangeStage::Failed,
                    failure: self.failure,
                    cleanup: self.cleanup,
                    restoration,
                }
            },
            ChangeStage::Done => self,
            ChangeStage::Failed => self,
            forward => {
                let stage = forward_stage(plan, forward, ok);
                let failure = match failure {
                    Some(f) => Some(f),
                    None => self.failure,
                };
                AvatarChange {
                    plan,
                    stage,
                    failure,
                    cleanup: self.cleanup,
                    restoration: self.restoration,
                }
            },
        }
    }

    /// How the change ended.
    pub fn result(self) -> (r: Option<Result<(), KokoroError>>)
        ensures
            match r {
                Some(Ok(_)) => self@.stage is Done,
                Some(Err(e)) => self@.stage is Failed && is_change_error(self@, e),
                None => !(self@.stage is Done) && !(self@.stage is Failed),
            },
    {
        proof {
            use_type_invariant(&self);
        }
        match self.stage {
            ChangeStage::Done => Some(Ok(())),
            ChangeStage::Failed => match self.failure {
                Some(failure) => {
                    let (own, words) = failure;
                    if self.plan.creates {
                        Some(Err(recover_cleanup_failure(own, words.as_str(), self.cleanup)))
                    } else {
                        Some(
                            Err(
                                recover_managed_avatar_failure(
                                    own,
                                    words.as_str(),
                                    self.cleanup,
                                    self.restoration,
                                ),
                            ),
                        )
                    }
                },
                None => None,
            },
            _ => None,
        }
    }
}

fn forward_stage(plan: ChangePlan, stage: ChangeStage, ok: bool) -> (r: ChangeStage)
    requires
        stage is Staging || stage is Writing || stage is Storing || stage is Removing,
    ensures
        r == next_stage(plan, stage, ok),
{
    match stage {
        ChangeStage::Staging => if !ok {
            ChangeStage::Failed
        } else if plan.writes {
            ChangeStage::Writing
        } else {
            ChangeStage::Storing
        },
        ChangeStage::Writing => if ok {
            ChangeStage::Storing
        } else {
            ChangeStage::Clearing
        },
        ChangeStage::Storing => if ok {
            if plan.stages {
                ChangeStage::Removing
            } else {
                ChangeStage::Done
            }
        } else if plan.writes {
            ChangeStage::Clearing
        } else if plan.stages {
            ChangeStage::Restoring
        } else {
            ChangeStage::Failed
        },
        _ => if ok {
            ChangeStage::Done
        } else {
            ChangeStage::Failed
        },
    }
}

/// A character's avatar and whether the character was stored.
pub ghost struct Place {
    /// The avatar in its directory.
    pub current: Option<int>,
    /// The avatar that was put aside.
    pub aside: Option<int>,
    pub stored: bool,
}

/// The place after a step. Writing that fails may leave something behind, here
/// `left`; any other step that fails changes nothing.
pub open spec fn place_after(
    place: Place,
    stage: ChangeStage,
    ok: bool,
    new: int,
    left: Option<int>,
) -> Place {
    match stage {
        ChangeStage::Staging => if ok {
            Place { current: None, aside: place.current, ..place }
        } else {
            place
        },
        ChangeStage::Writing => Place {
            current: if ok {
                Some(new)
            } else {
                left
            },
            ..place
        },
        ChangeStage::Storing => Place { stored: ok, ..place },
        ChangeStage::Clearing => if ok {
            Place { current: None, ..place }
        } else {
            place
        },
        ChangeStage::Restoring => if ok {
            Place { current: place.aside, aside: None, ..place }
        } else {
            place
        },
        ChangeStage::Removing => if ok {
            Place { aside: None, ..place }
        } else {
            place
        },
        _ => place,
    }
}

/// What holds of the place at each stage of a change whose undoing never fails.
/// `old` is the avatar at first; it is put aside, or there is none.
pub open spec fn change_inv(
    plan: ChangePlan,
    stage: ChangeStage,
    place: Place,
    old: Option<int>,
    new: int,
) -> bool {
    match stage {
        ChangeStage::Staging => plan.stages && place.current == old && !place.stored
            && place.aside is None,
        ChangeStage::Writing => plan.writes && !place.stored && aside_as_planned(plan, place, old)
            && place.current is None,
        ChangeStage::Storing => !place.stored && aside_as_planned(plan, place, old)
            && place.current == (if plan.writes {
            Some(new)
        } else if plan.stages {
            None
        } else {
            old
        }),
        ChangeStage::Clearing => plan.writes && !place.stored && aside_as_planned(plan, place, old),
        ChangeStage::Restoring => plan.stages && !place.stored && place.aside == old
            && place.current is None,
        ChangeStage::Removing => plan.stages && place.stored && place.current == (if plan.writes {
            Some(new)
        } else {
            None
        }),
        ChangeStage::Done => place.stored && place.aside is None && place.current == (
        if plan.writes {
            Some(new)
        } else if plan.stages {
            None
        } else {
            old
        }),
        ChangeStage::Failed => place.stored || place.current == old,
    }
}

pub open spec fn aside_as_planned(plan: ChangePlan, place: Place, old: Option<int>) -> bool {
    if plan.stages {
        place.aside == old
    } else {
        place.aside is None && (plan.writes ==> old is None)
    }
}

/// A change that fails leaves the avatar as it was, as long as undoing its
/// steps does not fail too; and one that is done has the character stored, the
/// new avatar in place and nothing put aside. Every step keeps what holds at
/// its stage.
pub proof fn lemma_change_is_all_or_nothing(
    plan: ChangePlan,
    stage: ChangeStage,
    place: Place,
    old: Option<int>,
    new: int,
    ok: bool,
    left: Option<int>,
)
    requires
        change_inv(plan, stage, place, old, new),
        stage is Clearing || stage is Restoring ==> ok,
    ensures
        change_inv(
            plan,
            next_stage(plan, stage, ok),
            place_after(place, stage, ok, new, left),
            old,
            new,
        ),
        stage is Failed && !place.stored ==> place.current == old,
        stage is Done ==> place.stored && place.aside is None,
        plan.writes && stage is Done ==> place.current == Some(new),
{
}

} // verus!
