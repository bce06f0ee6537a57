//! The order of work when installing a rice, as a state machine: the caller
//! performs each action (cloning, planning, backing up, installing packages,
//! linking, recording, running the pipeline, pruning backups) and reports
//! its outcome as the next event. A failing action ends the installation
//! with its error; that is the caller's part.

use vstd::prelude::*;
use crate::error::RiceForgeError;
use crate::text::to_owned_string;

verus! {

/// Where an installation stands.
#[derive(Clone, Copy, Debug, PartialEq, Eq, Structural)]
pub enum InstallStage {
    Start,
    Cloning,
    Planning,
    BackingUp,
    CheckingPackages,
    InstallingPackages,
    Applying,
    Recording,
    LoadingPipeline,
    RunningPipeline,
    Cleaning,
    Finished,
}

/// An installation in progress: its options, whether the rice has
/// dependencies, the stage, and what earlier steps produced.
#[derive(Clone, Debug, PartialEq)]
pub struct InstallFlow {
    pub id: String,
    pub dry_run: bool,
    pub no_packages: bool,
    pub force: bool,
    pub has_deps: bool,
    pub stage: InstallStage,
    pub commit: Option<String>,
    pub backup_id: Option<String>,
}

/// The outcome of the last action.
pub enum InstallEvent {
    /// The flow begins; whether the rice is installed already.
    Started { installed: bool },
    /// The repository is up to date at this commit.
    Cloned(String),
    /// The deploy plan is made; whether it has files to back up.
    Planned { needs_backup: bool },
    /// The backup with this id was made.
    BackedUp(String),
    /// Whether any dependency is missing.
    PackagesChecked { any_missing: bool },
    PackagesInstalled,
    Applied,
    Recorded,
    /// Whether the rice has a pipeline.
    PipelineLoaded { present: bool },
    PipelineDone,
    Cleaned,
}

/// What to do next.
#[derive(Clone, Debug, PartialEq)]
pub enum InstallAction {
    /// Stop with this error.
    Refuse(RiceForgeError),
    Clone,
    Plan,
    Backup,
    CheckPackages,
    InstallPackages,
    Apply,
    /// Record the rice as installed at this commit, with this backup.
    Record { commit: String, backup_id: Option<String> },
    LoadPipeline,
    RunPipeline,
    /// Keep the five newest backups.
    Clean,
    /// The installation is over (`dry_run`: nothing was changed).
    Done { dry_run: bool },
    /// The event does not belong to the current stage: nothing to do.
    Ignore,
}

/// The stage that follows a finished plan or backup: checking packages
/// when the rice has dependencies and packages are not skipped, else linking.
pub open spec fn after_backup(f: InstallFlow) -> InstallStage {
    if f.has_deps && !f.no_packages {
        InstallStage::CheckingPackages
    } else {
        InstallStage::Applying
    }
}

/// The action that begins a stage reached after the plan.
pub open spec fn action_of(s: InstallStage) -> InstallAction {
    match s {
        InstallStage::CheckingPackages => InstallAction::CheckPackages,
        _ => InstallAction::Apply,
    }
}

/// The flow `f` moved to stage `s`.
pub open spec fn at(f: InstallFlow, s: InstallStage) -> InstallFlow {
    InstallFlow { stage: s, ..f }
}

/// The next state and action of `f` after `e`. An event that does not
/// belong to the current stage changes nothing.
pub open spec fn install_step(f: InstallFlow, e: InstallEvent) -> (InstallFlow, InstallAction) {
    match (f.stage, e) {
        (InstallStage::Start, InstallEvent::Started { installed }) => if !f.dry_run && !f.force && installed {
            (at(f, InstallStage::Finished), InstallAction::Refuse(RiceForgeError::AlreadyInstalled(f.id)))
        } else {
            (at(f, InstallStage::Cloning), InstallAction::Clone)
        },
        (InstallStage::Cloning, InstallEvent::Cloned(c)) => (
            InstallFlow { stage: InstallStage::Planning, commit: Some(c), ..f },
            InstallAction::Plan,
        ),
        (InstallStage::Planning, InstallEvent::Planned { needs_backup }) => if f.dry_run {
            (at(f, InstallStage::Finished), InstallAction::Done { dry_run: true })
        } else if needs_backup {
            (at(f, InstallStage::BackingUp), InstallAction::Backup)
        } else {
            (at(f, after_backup(f)), action_of(after_backup(f)))
        },
        (InstallStage::BackingUp, InstallEvent::BackedUp(b)) => (
            InstallFlow { stage: after_backup(f), backup_id: Some(b), ..f },
            action_of(after_backup(f)),
        ),
        (InstallStage::CheckingPackages, InstallEvent::PackagesChecked { any_missing }) => if any_missing {
            (at(f, InstallStage::InstallingPackages), InstallAction::InstallPackages)
        } else {
            (at(f, InstallStage::Applying), InstallAction::Apply)
        },
        (InstallStage::InstallingPackages, InstallEvent::PackagesInstalled) => (
            at(f, InstallStage::Applying),
            InstallAction::Apply,
        ),
        (InstallStage::Applying, InstallEvent::Applied) => match f.commit {
            Some(c) => (at(f, InstallStage::Recording), InstallAction::Record { commit: c, backup_id: f.backup_id }),
            None => (f, InstallAction::Ignore),
        },
        (InstallStage::Recording, InstallEvent::Recorded) => (
            at(f, InstallStage::LoadingPipeline),
            InstallAction::LoadPipeline,
        ),
        (InstallStage::LoadingPipeline, InstallEvent::PipelineLoaded { present }) => if present {
            (at(f, InstallStage::RunningPipeline), InstallAction::RunPipeline)
        } else {
            (at(f, InstallStage::Cleaning), InstallAction::Clean)
        },
        (InstallStage::RunningPipeline, InstallEvent::PipelineDone) => (
            at(f, InstallStage::Cleaning),
            InstallAction::Clean,
        ),
        (InstallStage::Cleaning, InstallEvent::Cleaned) => (
            at(f, InstallStage::Finished),
            InstallAction::Done { dry_run: false },
        ),
        _ => (f, InstallAction::Ignore),
    }
}

/// The stages a dry run can be in.
pub open spec fn dry_stage(s: InstallStage) -> bool {
    s == InstallStage::Start || s == InstallStage::Cloning || s == InstallStage::Planning || s == InstallStage::Finished
}

/// The actions that change nothing on the machine beyond the rice's
/// checkout: refusing, cloning, planning, finishing, ignoring.
pub open spec fn preview_action(a: InstallAction) -> bool {
    a is Refuse || a is Clone || a is Plan || a is Done || a is Ignore
}

/// Law: a dry run only ever clones and plans. From any stage it can be in,
/// every event leads to such a stage again, with an action that backs up,
/// installs, links, records, runs and deletes nothing.
pub proof fn lemma_dry_run_changes_nothing(f: InstallFlow, e: InstallEvent)
    requires
        f.dry_run,
        dry_stage(f.stage),
    ensures
        dry_stage(install_step(f, e).0.stage),
        install_step(f, e).0.dry_run,
        preview_action(install_step(f, e).1),
{
}

/// Law: an installation that is neither forced nor a dry run refuses an
/// installed rice at once, and goes ahead with one that is not installed.
pub proof fn lemma_installed_rice_refused(f: InstallFlow, installed: bool)
    requires
        f.stage == InstallStage::Start,
    ensures
        (install_step(f, InstallEvent::Started { installed }).1 is Refuse) <==> (!f.dry_run && !f.force && installed),
{
}

/// Law: a step keeps the rice and the options; only a finished clone sets
/// the commit and only a finished backup sets the backup id; and the record
/// an installation writes carries exactly the flow's commit and backup id.
pub proof fn lemma_step_keeps_what_was_done(f: InstallFlow, e: InstallEvent)
    ensures
        ({
            let (n, a) = install_step(f, e);
            &&& n.id == f.id && n.dry_run == f.dry_run && n.no_packages == f.no_packages
            &&& n.force == f.force && n.has_deps == f.has_deps
            &&& !(f.stage == InstallStage::Cloning && e is Cloned) ==> n.commit == f.commit
            &&& !(f.stage == InstallStage::BackingUp && e is BackedUp) ==> n.backup_id == f.backup_id
            &&& (a matches InstallAction::Record { commit, backup_id } ==> f.commit == Some(commit)
                && backup_id == f.backup_id)
        }),
{
}

/// Law: when the rice has dependencies and packages are not skipped, the
/// rice is linked only after its packages were checked: `Apply` is issued
/// only from checking or installing packages, and a finished plan (with or
/// without a backup to make) leads to a backup or to checking packages,
/// never straight to linking.
pub proof fn lemma_packages_checked_before_linking(f: InstallFlow, e: InstallEvent)
    requires
        f.has_deps,
        !f.no_packages,
    ensures
        install_step(f, e).1 is Apply ==> f.stage == InstallStage::CheckingPackages || f.stage
            == InstallStage::InstallingPackages,
        !f.dry_run && f.stage == InstallStage::Planning ==> (e matches InstallEvent::Planned { needs_backup } ==> if needs_backup {
            install_step(f, e).1 is Backup
        } else {
            install_step(f, e).1 is CheckPackages
        }),
        f.stage == InstallStage::BackingUp && e is BackedUp ==> install_step(f, e).1 is CheckPackages,
{
}

/// Law: when the rice has no dependencies, or packages are skipped, no
/// package is ever checked or installed.
pub proof fn lemma_no_packages_when_skipped(f: InstallFlow, e: InstallEvent)
    requires
        !f.has_deps || f.no_packages,
    ensures
        !(install_step(f, e).1 is CheckPackages),
        !(install_step(f, e).1 is InstallPackages) || f.stage == InstallStage::CheckingPackages,
{
}

/// The number of backups kept after an installation.
pub const KEPT_BACKUPS: usize = 5;

impl InstallFlow {
    /// A new installation of rice `id` with the command's options.
    pub fn new(id: &str, dry_run: bool, no_packages: bool, force: bool, has_deps: bool) -> (r: InstallFlow)
        ensures
            r.id@ == id@,
            r.dry_run == dry_run,
            r.no_packages == no_packages,
            r.force == force,
            r.has_deps == has_deps,
            r.stage == InstallStage::Start,
            r.commit is None,
            r.backup_id is None,
    {
        InstallFlow {
            id: to_owned_string(id),
            dry_run,
            no_packages,
            force,
            has_deps,
            stage: InstallStage::Start,
            commit: None,
            backup_id: None,
        }
    }

    /// Whether the dependencies are looked at (listed, checked, installed).
    pub fn checks_packages(&self) -> (r: bool)
        ensures
            r == (self.has_deps && !self.no_packages),
    {
        self.has_deps && !self.no_packages
    }

    /// The next state and action after `event`.
    pub fn step(self, event: InstallEvent) -> (r: (InstallFlow, InstallAction))
        ensures
            r == install_step(self, event),
    {
        let stage = self.stage;
        match (stage, event) {
            (InstallStage::Start, InstallEvent::Started { installed }) => {
                if !self.dry_run && !self.force && installed {
                    let m = self.id.clone();
                    (InstallFlow { stage: InstallStage::Finished, ..self }, InstallAction::Refuse(RiceForgeError::AlreadyInstalled(m)))
                } else {
                    (InstallFlow { stage: InstallStage::Cloning, ..self }, InstallAction::Clone)
                }
            },
            (InstallStage::Cloning, InstallEvent::Cloned(c)) => {
                (InstallFlow { stage: InstallStage::Planning, commit: Some(c), ..self }, InstallAction::Plan)
            },
            (InstallStage::Planning, InstallEvent::Planned { needs_backup }) => {
                if self.dry_run {
                    (InstallFlow { stage: InstallStage::Finished, ..self }, InstallAction::Done { dry_run: true })
                } else if needs_backup {
                    (InstallFlow { stage: InstallStage::BackingUp, ..self }, InstallAction::Backup)
                } else if self.has_deps && !self.no_packages {
                    (InstallFlow { stage: InstallStage::CheckingPackages, ..self }, InstallAction::CheckPackages)
                } else {
                    (InstallFlow { stage: InstallStage::Applying, ..self }, InstallAction::Apply)
                }
            },
            (InstallStage::BackingUp, InstallEvent::BackedUp(b)) => {
                if self.has_deps && !self.no_packages {
                    (
                        InstallFlow { stage: InstallStage::CheckingPackages, backup_id: Some(b), ..self },
                        InstallAction::CheckPackages,
                    )
                } else {
                    (InstallFlow { stage: InstallStage::Applying, backup_id: Some(b), ..self }, InstallAction::Apply)
                }
            },
            (InstallStage::CheckingPackages, InstallEvent::PackagesChecked { any_missing }) => {
                if any_missing {
                    (InstallFlow { stage: InstallStage::InstallingPackages, ..self }, InstallAction::InstallPackages)
                } else {
                    (InstallFlow { stage: InstallStage::Applying, ..self }, InstallAction::Apply)
                }
            },
            (InstallStage::InstallingPackages, InstallEvent::PackagesInstalled) => {
                (InstallFlow { stage: InstallStage::Applying, ..self }, InstallAction::Apply)
            },
            (InstallStage::Applying, InstallEvent::Applied) => {
                match &self.commit {
                    Some(c) => {
                        let commit = c.clone();
                        let backup_id = match &self.backup_id {
                            Some(b) => Some(b.clone()),
                            None => None,
                        };
                        (InstallFlow { stage: InstallStage::Recording, ..self }, InstallAction::Record { commit, backup_id })
                    },
                    None => (self, InstallAction::Ignore),
                }
            },
            (InstallStage::Recording, InstallEvent::Recorded) => {
                (InstallFlow { stage: InstallStage::LoadingPipeline, ..self }, InstallAction::LoadPipeline)
            },
            (InstallStage::LoadingPipeline, InstallEvent::PipelineLoaded { present }) => {
                if present {
                    (InstallFlow { stage: InstallStage::RunningPipeline, ..self }, InstallAction::RunPipeline)
                } else {
                    (InstallFlow { stage: InstallStage::Cleaning, ..self }, InstallAction::Clean)
                }
            },
            (InstallStage::RunningPipeline, InstallEvent::PipelineDone) => {
                (InstallFlow { stage: InstallStage::Cleaning, ..self }, InstallAction::Clean)
            },
            (InstallStage::Cleaning, InstallEvent::Cleaned) => {
                (InstallFlow { stage: InstallStage::Finished, ..self }, InstallAction::Done { dry_run: false })
            },
            (_, _) => (self, InstallAction::Ignore),
        }
    }
}

} // verus!
