//! The order of work when removing an installed rice, as a state machine:
//! run its pre-remove pipeline, delete its links, restore its backup when
//! asked, forget its record, and delete its checkout when asked. The caller
//! performs each action and reports its outcome as the next event; a failing
//! action ends the removal with its error.

use vstd::prelude::*;
use crate::models::InstalledRice;
use crate::text::to_owned_string;

verus! {

/// Where a removal stands.
#[derive(Clone, Copy, Debug, PartialEq, Eq, Structural)]
pub enum RemoveStage {
    Start,
    LoadingPipeline,
    RunningPipeline,
    RemovingLinks,
    Restoring,
    Unrecording,
    Purging,
    Finished,
}

/// A removal in progress: the rice, the options, the backup taken when it
/// was installed, and the stage.
#[derive(Clone, Debug, PartialEq)]
pub struct RemoveFlow {
    pub id: String,
    pub restore: bool,
    pub purge: bool,
    pub backup_id: Option<String>,
    pub stage: RemoveStage,
}

/// The outcome of the last action.
pub enum RemoveEvent {
    Started,
    /// Whether the rice has a pipeline.
    PipelineLoaded { present: bool },
    PipelineDone,
    LinksRemoved,
    Restored,
    Unrecorded,
    Purged,
}

/// What to do next.
#[derive(Clone, Debug, PartialEq)]
pub enum RemoveAction {
    LoadPipeline,
    RunPipeline,
    RemoveLinks,
    /// Restore the backup with this id.
    Restore(String),
    /// Forget the rice's record; `missing_backup`: a restore was asked for
    /// but the installation made no backup (to be reported).
    Unrecord { missing_backup: bool },
    /// Delete the rice's checkout.
    Purge,
    Done,
    /// The event does not belong to the current stage: nothing to do.
    Ignore,
}

/// The flow `f` moved to stage `s`.
pub open spec fn moved(f: RemoveFlow, s: RemoveStage) -> RemoveFlow {
    RemoveFlow { stage: s, ..f }
}

/// What follows the deletion of the links: restoring the backup when one
/// is asked for and exists, else forgetting the record.
pub open spec fn after_links(f: RemoveFlow) -> (RemoveFlow, RemoveAction) {
    if f.restore {
        match f.backup_id {
            Some(b) => (moved(f, RemoveStage::Restoring), RemoveAction::Restore(b)),
            None => (moved(f, RemoveStage::Unrecording), RemoveAction::Unrecord { missing_backup: true }),
        }
    } else {
        (moved(f, RemoveStage::Unrecording), RemoveAction::Unrecord { missing_backup: false })
    }
}

/// The next state and action of `f` after `e`. An event that does not
/// belong to the current stage changes nothing.
pub open spec fn remove_step(f: RemoveFlow, e: RemoveEvent) -> (RemoveFlow, RemoveAction) {
    match (f.stage, e) {
        (RemoveStage::Start, RemoveEvent::Started) => (moved(f, RemoveStage::LoadingPipeline), RemoveAction::LoadPipeline),
        (RemoveStage::LoadingPipeline, RemoveEvent::PipelineLoaded { present }) => if present {
            (moved(f, RemoveStage::RunningPipeline), RemoveAction::RunPipeline)
        } else {
            (moved(f, RemoveStage::RemovingLinks), RemoveAction::RemoveLinks)
        },
        (RemoveStage::RunningPipeline, RemoveEvent::PipelineDone) => (
            moved(f, RemoveStage::RemovingLinks),
            RemoveAction::RemoveLinks,
        ),
        (RemoveStage::RemovingLinks, RemoveEvent::LinksRemoved) => after_links(f),
        (RemoveStage::Restoring, RemoveEvent::Restored) => (
            moved(f, RemoveStage::Unrecording),
            RemoveAction::Unrecord { missing_backup: false },
        ),
        (RemoveStage::Unrecording, RemoveEvent::Unrecorded) => if f.purge {
            (moved(f, RemoveStage::Purging), RemoveAction::Purge)
        } else {
            (moved(f, RemoveStage::Finished), RemoveAction::Done)
        },
        (RemoveStage::Purging, RemoveEvent::Purged) => (moved(f, RemoveStage::Finished), RemoveAction::Done),
        _ => (f, RemoveAction::Ignore),
    }
}

/// Law: the links are deleted before the backup is restored, and a backup
/// is restored only when `--restore` was given, and then the one the
/// installation made.
pub proof fn lemma_restore_only_when_asked(f: RemoveFlow, e: RemoveEvent)
    ensures
        remove_step(f, e).1 matches RemoveAction::Restore(b) ==> f.restore && f.backup_id == Some(b)
            && f.stage == RemoveStage::RemovingLinks,
        remove_step(f, e).1 is Purge ==> f.purge,
{
}

/// Law: a removal forgets the rice's record before it finishes. `Done` is
/// issued only from forgetting the record or purging the checkout; purging
/// only follows forgetting the record; and the forgetting stage is entered
/// only with the `Unrecord` action. After a restore, the record is forgotten
/// next, whatever the purge option.
pub proof fn lemma_record_forgotten_before_done(f: RemoveFlow, e: RemoveEvent)
    ensures
        remove_step(f, e).1 is Done ==> f.stage == RemoveStage::Unrecording || f.stage == RemoveStage::Purging,
        remove_step(f, e).1 is Purge ==> f.stage == RemoveStage::Unrecording,
        remove_step(f, e).0.stage == RemoveStage::Purging && f.stage != RemoveStage::Purging ==> f.stage
            == RemoveStage::Unrecording,
        remove_step(f, e).0.stage == RemoveStage::Unrecording && f.stage != RemoveStage::Unrecording
            ==> remove_step(f, e).1 is Unrecord,
        remove_step(f, e).0.stage == RemoveStage::Finished && f.stage != RemoveStage::Finished ==> f.stage
            == RemoveStage::Unrecording || f.stage == RemoveStage::Purging,
        f.stage == RemoveStage::Restoring && e is Restored ==> remove_step(f, e).1 == (RemoveAction::Unrecord {
            missing_backup: false,
        }),
        f.stage == RemoveStage::RemovingLinks && e is LinksRemoved ==> remove_step(f, e).1 is Restore
            || remove_step(f, e).1 is Unrecord,
{
}

impl RemoveFlow {
    /// A new removal of the installed rice `entry`, with the command's options.
    pub fn new(entry: &InstalledRice, restore: bool, purge: bool) -> (r: RemoveFlow)
        ensures
            r.id@ == entry.rice_id@,
            r.restore == restore,
            r.purge == purge,
            r.backup_id.deep_view() == entry.backup_id.deep_view(),
            r.stage == RemoveStage::Start,
    {
        let backup_id = match &entry.backup_id {
            Some(b) => Some(to_owned_string(b.as_str())),
            None => None,
        };
        RemoveFlow { id: to_owned_string(entry.rice_id.as_str()), restore, purge, backup_id, stage: RemoveStage::Start }
    }

    /// The next state and action after `event`.
    pub fn step(self, event: RemoveEvent) -> (r: (RemoveFlow, RemoveAction))
        ensures
            r == remove_step(self, event),
    {
        match (self.stage, event) {
            (RemoveStage::Start, RemoveEvent::Started) => {
                (RemoveFlow { stage: RemoveStage::LoadingPipeline, ..self }, RemoveAction::LoadPipeline)
            },
            (RemoveStage::LoadingPipeline, RemoveEvent::PipelineLoaded { present }) => {
                if present {
                    (RemoveFlow { stage: RemoveStage::RunningPipeline, ..self }, RemoveAction::RunPipeline)
                } else {
                    (RemoveFlow { stage: RemoveStage::RemovingLinks, ..self }, RemoveAction::RemoveLinks)
                }
            },
            (RemoveStage::RunningPipeline, RemoveEvent::PipelineDone) => {
                (RemoveFlow { stage: RemoveStage::RemovingLinks, ..self }, RemoveAction::RemoveLinks)
            },
            (RemoveStage::RemovingLinks, RemoveEvent::LinksRemoved) => {
                if self.restore {
                    match &self.backup_id {
                        Some(b) => {
                            let b2 = b.clone();
                            (RemoveFlow { stage: RemoveStage::Restoring, ..self }, RemoveAction::Restore(b2))
                        },
                        None => (
                            RemoveFlow { stage: RemoveStage::Unrecording, ..self },
                            RemoveAction::Unrecord { missing_backup: true },
                        ),
                    }
                } else {
                    (RemoveFlow { stage: RemoveStage::Unrecording, ..self }, RemoveAction::Unrecord { missing_backup: false })
                }
            },
            (RemoveStage::Restoring, RemoveEvent::Restored) => {
                (RemoveFlow { stage: RemoveStage::Unrecording, ..self }, RemoveAction::Unrecord { missing_backup: false })
            },
            (RemoveStage::Unrecording, RemoveEvent::Unrecorded) => {
                if self.purge {
                    (RemoveFlow { stage: RemoveStage::Purging, ..self }, RemoveAction::Purge)
                } else {
                    (RemoveFlow { stage: RemoveStage::Finished, ..self }, RemoveAction::Done)
                }
            },
            (RemoveStage::Purging, RemoveEvent::Purged) => {
                (RemoveFlow { stage: RemoveStage::Finished, ..self }, RemoveAction::Done)
            },
            (_, _) => (self, RemoveAction::Ignore),
        }
    }
}

} // verus!
