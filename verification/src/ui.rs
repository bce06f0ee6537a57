//! The desktop interface's decisions: window-manager colours, the browse
//! filter, the sample catalogue, and the state machines behind the rice
//! page, the installed list and the settings page. Rendering and running
//! the work in the background are the caller's.

use vstd::prelude::*;
use vstd::string::StringExecFns;
use crate::clock::{format_utc, utc_text};
use crate::models::{copy_strings, DeployPlan, InstalledRice, Rice, RiceView, WindowManager};
use vstd::string::StringSliceAdditionalSpecFns;
use crate::text::{contains, is_substring, lowercase, push_char, to_lowercase, to_owned_string};

verus! {

/// The accent colour of a window manager.
pub open spec fn wm_color_spec(wm: WindowManager) -> Seq<char> {
    match wm {
        WindowManager::Hyprland => "#a855f7"@,
        WindowManager::Sway => "#3b82f6"@,
        WindowManager::I3 => "#22c55e"@,
        WindowManager::Bspwm => "#f97316"@,
        WindowManager::Qtile => "#ec4899"@,
        WindowManager::Xmonad => "#eab308"@,
        WindowManager::Openbox => "#06b6d4"@,
        WindowManager::Unknown => "#71717a"@,
    }
}

/// The accent colour of a window manager.
pub fn wm_color(wm: &WindowManager) -> (r: &'static str)
    ensures
        r@ == wm_color_spec(*wm),
{
    match wm {
        WindowManager::Hyprland => "#a855f7",
        WindowManager::Sway => "#3b82f6",
        WindowManager::I3 => "#22c55e",
        WindowManager::Bspwm => "#f97316",
        WindowManager::Qtile => "#ec4899",
        WindowManager::Xmonad => "#eab308",
        WindowManager::Openbox => "#06b6d4",
        WindowManager::Unknown => "#71717a",
    }
}

/// The thumbnail background of a window manager.
pub open spec fn thumbnail_gradient_spec(wm: WindowManager) -> Seq<char> {
    match wm {
        WindowManager::Hyprland => "linear-gradient(135deg, #180d2e 0%, #2d1654 100%)"@,
        WindowManager::Sway => "linear-gradient(135deg, #0a1628 0%, #0e2a4a 100%)"@,
        WindowManager::I3 => "linear-gradient(135deg, #0d1f0d 0%, #143314 100%)"@,
        WindowManager::Bspwm => "linear-gradient(135deg, #1e0a00 0%, #3d1a00 100%)"@,
        WindowManager::Qtile => "linear-gradient(135deg, #1e0020 0%, #3d0040 100%)"@,
        WindowManager::Xmonad => "linear-gradient(135deg, #1a1600 0%, #332d00 100%)"@,
        WindowManager::Openbox => "linear-gradient(135deg, #001e1e 0%, #003535 100%)"@,
        WindowManager::Unknown => "linear-gradient(135deg, #111111 0%, #1a1a1a 100%)"@,
    }
}

/// The thumbnail background of a window manager.
pub fn thumbnail_gradient(wm: &WindowManager) -> (r: &'static str)
    ensures
        r@ == thumbnail_gradient_spec(*wm),
{
    match wm {
        WindowManager::Hyprland => "linear-gradient(135deg, #180d2e 0%, #2d1654 100%)",
        WindowManager::Sway => "linear-gradient(135deg, #0a1628 0%, #0e2a4a 100%)",
        WindowManager::I3 => "linear-gradient(135deg, #0d1f0d 0%, #143314 100%)",
        WindowManager::Bspwm => "linear-gradient(135deg, #1e0a00 0%, #3d1a00 100%)",
        WindowManager::Qtile => "linear-gradient(135deg, #1e0020 0%, #3d0040 100%)",
        WindowManager::Xmonad => "linear-gradient(135deg, #1a1600 0%, #332d00 100%)",
        WindowManager::Openbox => "linear-gradient(135deg, #001e1e 0%, #003535 100%)",
        WindowManager::Unknown => "linear-gradient(135deg, #111111 0%, #1a1a1a 100%)",
    }
}

/// A commit hash as shown: its first 8 bytes when those end on a character
/// boundary, the whole hash otherwise (`str::get(..8)`, or the hash).
pub fn short_hash(commit: &str) -> (r: String)
    ensures
        vstd::utf8::is_char_boundary(commit.spec_bytes(), 8) ==> vstd::utf8::encode_utf8(r@)
            == commit.spec_bytes().subrange(0, 8),
        !vstd::utf8::is_char_boundary(commit.spec_bytes(), 8) ==> r@ == commit@,
{
    if commit.is_char_boundary(8) {
        let (head, _) = commit.split_at(8);
        to_owned_string(head)
    } else {
        to_owned_string(commit)
    }
}

/// The browse page keeps a rice when the lower-cased query is empty or
/// occurs in its lower-cased name, author or theme.
pub open spec fn browse_keeps(r: RiceView, q: Seq<char>) -> bool {
    ||| q.len() == 0
    ||| is_substring(q, lowercase(r.name))
    ||| is_substring(q, lowercase(r.author))
    ||| is_substring(q, lowercase(r.theme))
}

/// The rices the browse page shows for a search box holding `search`.
pub fn browse_filter(rices: &Vec<Rice>, search: &str) -> (r: Vec<Rice>)
    ensures
        r@.map_values(|x: Rice| x@) == rices@.map_values(|x: Rice| x@).filter(
            |x: RiceView| browse_keeps(x, lowercase(search@)),
        ),
{
    let q = to_lowercase(search);
    let ghost views = rices@.map_values(|x: Rice| x@);
    let ghost pred = |x: RiceView| browse_keeps(x, lowercase(search@));
    let mut res: Vec<Rice> = Vec::new();
    let mut i: usize = 0;
    while i < rices.len()
        invariant
            views == rices@.map_values(|x: Rice| x@),
            pred == |x: RiceView| browse_keeps(x, lowercase(search@)),
            q@ == lowercase(search@),
            i <= views.len(),
            res@.map_values(|x: Rice| x@) == views.take(i as int).filter(pred),
        decreases views.len() - i,
    {
        let r = &rices[i];
        let keep = q.as_str().is_empty() || contains(to_lowercase(r.name.as_str()).as_str(), q.as_str())
            || contains(to_lowercase(r.author.as_str()).as_str(), q.as_str())
            || contains(to_lowercase(r.theme.as_str()).as_str(), q.as_str());
        proof {
            assert(views.take(i + 1) =~= views.take(i as int).push(views[i as int]));
            views.take(i as int).lemma_filter_push(views[i as int], pred);
        }
        if keep {
            let ghost r0 = res@.map_values(|x: Rice| x@);
            res.push(r.duplicate());
            assert(res@.map_values(|x: Rice| x@) =~= r0.push(views[i as int]));
        }
        i = i + 1;
    }
    assert(views.take(i as int) =~= views);
    res
}

// ---------------------------------------------------------------------------
// The rice page.

/// Where installing from the rice page stands.
#[derive(Clone, Debug, PartialEq)]
pub enum InstallState {
    Idle,
    Planning,
    ConfirmPlan { links: Vec<String>, to_backup: Vec<String>, has_pipeline: bool, missing_pkgs: Vec<String> },
    Applying,
    Done(String),
    Error(String),
}

/// Where removing from the rice page stands.
#[derive(Clone, Debug, PartialEq)]
pub enum RemoveState {
    Idle,
    Confirm,
    Removing,
    Done,
    Error(String),
}

/// The state of the rice page.
#[derive(Clone, Debug, PartialEq)]
pub struct DetailState {
    pub installed: bool,
    pub install: InstallState,
    pub remove: RemoveState,
}

/// What happens on the rice page: a click, or the outcome of background work.
pub enum DetailEvent {
    InstallClicked,
    PlanReady { links: Vec<String>, to_backup: Vec<String>, has_pipeline: bool, missing_pkgs: Vec<String> },
    PlanFailed(String),
    ConfirmInstall,
    CancelInstall,
    ApplyDone(String),
    ApplyFailed(String),
    RemoveClicked,
    ConfirmRemove,
    CancelRemove,
    RemoveDone,
    RemoveFailed(String),
}

/// Background work the rice page starts.
#[derive(Clone, Copy, Debug, PartialEq, Eq, Structural)]
pub enum DetailAction {
    Nothing,
    Plan,
    Apply,
    Remove,
}

/// The rice page is busy while planning, applying or removing.
pub open spec fn detail_busy(s: DetailState) -> bool {
    s.install is Planning || s.install is Applying || s.remove is Removing
}

impl DetailState {
    /// The page as first shown.
    pub fn new(installed: bool) -> (r: DetailState)
        ensures
            r.installed == installed,
            r.install is Idle,
            r.remove is Idle,
    {
        DetailState { installed, install: InstallState::Idle, remove: RemoveState::Idle }
    }

    /// Whether background work is running.
    pub fn is_busy(&self) -> (r: bool)
        ensures
            r == detail_busy(*self),
    {
        matches!(self.install, InstallState::Planning | InstallState::Applying) || matches!(
            self.remove,
            RemoveState::Removing
        )
    }

    /// Whether the Install button shows: not installed, and not just installed.
    pub fn shows_install(&self) -> (r: bool)
        ensures
            r == (!self.installed && !(self.install is Done)),
    {
        !self.installed && !matches!(self.install, InstallState::Done(_))
    }

    /// Whether the Remove button shows: installed, and no removal under way.
    pub fn shows_remove(&self) -> (r: bool)
        ensures
            r == (self.installed && (self.remove is Idle || self.remove is Error)),
    {
        self.installed && matches!(self.remove, RemoveState::Idle | RemoveState::Error(_))
    }

    /// The page after `event`, and the work to start.
    pub fn step(self, event: DetailEvent) -> (r: (DetailState, DetailAction))
        ensures
            ({
                let (n, a) = r;
                match event {
                    DetailEvent::InstallClicked => n.install is Planning && a == DetailAction::Plan
                        && n.installed == self.installed && n.remove == self.remove,
                    DetailEvent::PlanReady { links, to_backup, has_pipeline, missing_pkgs } =>
                        (n.install matches InstallState::ConfirmPlan { links: l, to_backup: b, has_pipeline: h, missing_pkgs: m }
                        && l == links && b == to_backup && h == has_pipeline && m == missing_pkgs)
                        && a == DetailAction::Nothing && n.installed == self.installed && n.remove == self.remove,
                    DetailEvent::PlanFailed(msg) => n.install == InstallState::Error(msg)
                        && a == DetailAction::Nothing && n.installed == self.installed && n.remove == self.remove,
                    DetailEvent::ConfirmInstall => n.install is Applying && a == DetailAction::Apply
                        && n.installed == self.installed && n.remove == self.remove,
                    DetailEvent::CancelInstall => n.install is Idle && a == DetailAction::Nothing
                        && n.installed == self.installed && n.remove == self.remove,
                    DetailEvent::ApplyDone(commit) => n.installed && (n.install matches InstallState::Done(h) && (
                    vstd::utf8::is_char_boundary(vstd::utf8::encode_utf8(commit@), 8) ==> vstd::utf8::encode_utf8(h@)
                        == vstd::utf8::encode_utf8(commit@).subrange(0, 8)) && (!vstd::utf8::is_char_boundary(
                        vstd::utf8::encode_utf8(commit@),
                        8,
                    ) ==> h@ == commit@)) && a == DetailAction::Nothing && n.remove == self.remove,
                    DetailEvent::ApplyFailed(msg) => n.install == InstallState::Error(msg)
                        && a == DetailAction::Nothing && n.installed == self.installed && n.remove == self.remove,
                    DetailEvent::RemoveClicked => n.remove is Confirm && a == DetailAction::Nothing
                        && n.installed == self.installed && n.install == self.install,
                    DetailEvent::ConfirmRemove => n.remove is Removing && a == DetailAction::Remove
                        && n.installed == self.installed && n.install == self.install,
                    DetailEvent::CancelRemove => n.remove is Idle && a == DetailAction::Nothing
                        && n.installed == self.installed && n.install == self.install,
                    DetailEvent::RemoveDone => !n.installed && n.remove is Done && a == DetailAction::Nothing
                        && n.install == self.install,
                    DetailEvent::RemoveFailed(msg) => n.remove == RemoveState::Error(msg)
                        && a == DetailAction::Nothing && n.installed == self.installed && n.install == self.install,
                }
            }),
    {
        let DetailState { installed, install, remove } = self;
        match event {
            DetailEvent::InstallClicked => (DetailState { installed, install: InstallState::Planning, remove }, DetailAction::Plan),
            DetailEvent::PlanReady { links, to_backup, has_pipeline, missing_pkgs } => (
                DetailState { installed, install: InstallState::ConfirmPlan { links, to_backup, has_pipeline, missing_pkgs }, remove },
                DetailAction::Nothing,
            ),
            DetailEvent::PlanFailed(msg) => (DetailState { installed, install: InstallState::Error(msg), remove }, DetailAction::Nothing),
            DetailEvent::ConfirmInstall => (DetailState { installed, install: InstallState::Applying, remove }, DetailAction::Apply),
            DetailEvent::CancelInstall => (DetailState { installed, install: InstallState::Idle, remove }, DetailAction::Nothing),
            DetailEvent::ApplyDone(commit) => {
                let h = short_hash(commit.as_str());
                (DetailState { installed: true, install: InstallState::Done(h), remove }, DetailAction::Nothing)
            },
            DetailEvent::ApplyFailed(msg) => (DetailState { installed, install: InstallState::Error(msg), remove }, DetailAction::Nothing),
            DetailEvent::RemoveClicked => (DetailState { installed, install, remove: RemoveState::Confirm }, DetailAction::Nothing),
            DetailEvent::ConfirmRemove => (DetailState { installed, install, remove: RemoveState::Removing }, DetailAction::Remove),
            DetailEvent::CancelRemove => (DetailState { installed, install, remove: RemoveState::Idle }, DetailAction::Nothing),
            DetailEvent::RemoveDone => (DetailState { installed: false, install, remove: RemoveState::Done }, DetailAction::Nothing),
            DetailEvent::RemoveFailed(msg) => (DetailState { installed, install, remove: RemoveState::Error(msg) }, DetailAction::Nothing),
        }
    }
}

/// The destinations and backups of a plan, as the confirmation box lists them.
pub fn plan_preview(plan: &DeployPlan) -> (r: (Vec<String>, Vec<String>))
    ensures
        r.0.deep_view() == plan.links.deep_view().map_values(|l: (Seq<char>, Seq<char>)| l.1),
        r.1.deep_view() == plan.to_backup.deep_view(),
{
    let mut dests: Vec<String> = Vec::new();
    let mut i: usize = 0;
    while i < plan.links.len()
        invariant
            i <= plan.links@.len(),
            dests@.len() == i,
            forall|k: int| 0 <= k < i ==> dests@[k]@ == plan.links@[k].1@,
        decreases plan.links@.len() - i,
    {
        dests.push(plan.links[i].1.clone());
        i = i + 1;
    }
    assert(dests.deep_view() =~= plan.links.deep_view().map_values(|l: (Seq<char>, Seq<char>)| l.1));
    (dests, copy_strings(&plan.to_backup))
}

/// How many links the confirmation box lists, and how many it sums up as
/// "… and N more" (it lists at most 12).
pub fn listed_links(total: usize) -> (r: (usize, usize))
    ensures
        r.0 == if total <= 12 { total } else { 12 },
        r.1 == total - r.0,
{
    if total <= 12 {
        (total, 0)
    } else {
        (12, total - 12)
    }
}

/// The command the page suggests for missing packages:
/// `sudo pacman -S --needed <packages separated by spaces>`.
pub fn pacman_command(missing: &[String]) -> (r: String)
    ensures
        r@ == "sudo pacman -S --needed "@ + crate::packages::joined(missing@.map_values(|s: String| s@), " "@),
{
    let list = crate::packages::join_with(missing, " ");
    String::from_str("sudo pacman -S --needed ").concat(list.as_str())
}

/// The style of the rice page's picture: the window manager's gradient,
/// with the first screenshot over it when there is one.
pub fn hero_style(rice: &Rice) -> (r: String)
    ensures
        rice.screenshots@.len() > 0 ==> r@ == "background: "@ + thumbnail_gradient_spec(rice.wm)
            + "; background-image: url('"@ + rice.screenshots@[0]@
            + "'); background-size: cover; background-position: center;"@,
        rice.screenshots@.len() == 0 ==> r@ == "background: "@ + thumbnail_gradient_spec(rice.wm) + ";"@,
{
    let g = thumbnail_gradient(&rice.wm);
    if rice.screenshots.len() > 0 {
        String::from_str("background: ").concat(g).concat("; background-image: url('").concat(
            rice.screenshots[0].as_str(),
        ).concat("'); background-size: cover; background-position: center;")
    } else {
        String::from_str("background: ").concat(g).concat(";")
    }
}

// ---------------------------------------------------------------------------
// The installed list.

/// Where an installed rice's row stands.
#[derive(Clone, Debug, PartialEq)]
pub enum RowOp {
    Idle,
    Removing,
    Upgrading,
    UpgradeDone(String),
    Error(String),
}

/// The state of a row: its operation, and whether purging awaits confirmation.
#[derive(Clone, Debug, PartialEq)]
pub struct RowState {
    pub op: RowOp,
    pub confirm_purge: bool,
}

/// What happens on a row.
pub enum RowEvent {
    UpgradeClicked,
    UpgradeDone(String),
    RemoveClicked,
    PurgeClicked,
    PurgeConfirmed,
    PurgeCancelled,
    Removed,
    Failed(String),
}

/// Background work a row starts, or the list to refresh.
#[derive(Clone, Copy, Debug, PartialEq, Eq, Structural)]
pub enum RowAction {
    Nothing,
    Upgrade,
    Remove,
    Purge,
    Refresh,
}

impl RowState {
    /// A row as first shown.
    pub fn new() -> (r: RowState)
        ensures
            r.op is Idle,
            !r.confirm_purge,
    {
        RowState { op: RowOp::Idle, confirm_purge: false }
    }

    /// Whether the Upgrade, Remove and Purge buttons show.
    pub fn shows_actions(&self) -> (r: bool)
        ensures
            r == ((self.op is Idle || self.op is UpgradeDone) && !self.confirm_purge),
    {
        matches!(self.op, RowOp::Idle | RowOp::UpgradeDone(_)) && !self.confirm_purge
    }

    /// The row after `event`, and the work to start.
    pub fn step(self, event: RowEvent) -> (r: (RowState, RowAction))
        ensures
            ({
                let (n, a) = r;
                match event {
                    RowEvent::UpgradeClicked => n.op is Upgrading && a == RowAction::Upgrade && n.confirm_purge == self.confirm_purge,
                    RowEvent::UpgradeDone(commit) => (n.op matches RowOp::UpgradeDone(h) && (!vstd::utf8::is_char_boundary(
                        vstd::utf8::encode_utf8(commit@),
                        8,
                    ) ==> h@ == commit@) && (vstd::utf8::is_char_boundary(vstd::utf8::encode_utf8(commit@), 8)
                        ==> vstd::utf8::encode_utf8(h@) == vstd::utf8::encode_utf8(commit@).subrange(0, 8)))
                        && a == RowAction::Nothing && n.confirm_purge == self.confirm_purge,
                    RowEvent::RemoveClicked => n.op is Removing && a == RowAction::Remove && n.confirm_purge == self.confirm_purge,
                    RowEvent::PurgeClicked => n.confirm_purge && n.op == self.op && a == RowAction::Nothing,
                    RowEvent::PurgeConfirmed => n.op is Removing && a == RowAction::Purge && n.confirm_purge == self.confirm_purge,
                    RowEvent::PurgeCancelled => !n.confirm_purge && n.op == self.op && a == RowAction::Nothing,
                    RowEvent::Removed => n == self && a == RowAction::Refresh,
                    RowEvent::Failed(msg) => n.op == RowOp::Error(msg) && a == RowAction::Nothing && n.confirm_purge == self.confirm_purge,
                }
            }),
    {
        let RowState { op, confirm_purge } = self;
        match event {
            RowEvent::UpgradeClicked => (RowState { op: RowOp::Upgrading, confirm_purge }, RowAction::Upgrade),
            RowEvent::UpgradeDone(commit) => {
                let h = short_hash(commit.as_str());
                (RowState { op: RowOp::UpgradeDone(h), confirm_purge }, RowAction::Nothing)
            },
            RowEvent::RemoveClicked => (RowState { op: RowOp::Removing, confirm_purge }, RowAction::Remove),
            RowEvent::PurgeClicked => (RowState { op, confirm_purge: true }, RowAction::Nothing),
            RowEvent::PurgeConfirmed => (RowState { op: RowOp::Removing, confirm_purge }, RowAction::Purge),
            RowEvent::PurgeCancelled => (RowState { op, confirm_purge: false }, RowAction::Nothing),
            RowEvent::Removed => (RowState { op, confirm_purge }, RowAction::Refresh),
            RowEvent::Failed(msg) => (RowState { op: RowOp::Error(msg), confirm_purge }, RowAction::Nothing),
        }
    }
}

// ---------------------------------------------------------------------------
// The settings page.

/// The decimal digits of `n`.
pub open spec fn decimal(n: nat) -> Seq<char>
    decreases n,
{
    if n < 10 {
        seq![digit_char(n)]
    } else {
        decimal(n / 10) + seq![digit_char(n % 10)]
    }
}

/// The digit for a number below ten.
pub open spec fn digit_char(d: nat) -> char {
    ('0' as u32 + d) as char
}

/// The decimal text of `n` (`usize::to_string`).
pub fn decimal_text(n: usize) -> (r: String)
    ensures
        r@ == decimal(n as nat),
{
    let mut digits: Vec<char> = Vec::new();
    let mut m = n;
    let ghost mut done: Seq<char> = Seq::empty();
    assert(decimal(n as nat) =~= decimal(m as nat) + done);
    loop
        invariant_except_break
            decimal(n as nat) == decimal(m as nat) + done,
            digits@ == done.reverse(),
        ensures
            decimal(n as nat) == done,
            digits@ == done.reverse(),
        decreases m,
    {
        let d = m % 10;
        let c = if d == 0 { '0' } else if d == 1 { '1' } else if d == 2 { '2' } else if d == 3 { '3' }
            else if d == 4 { '4' } else if d == 5 { '5' } else if d == 6 { '6' } else if d == 7 { '7' }
            else if d == 8 { '8' } else { '9' };
        assert(c == digit_char(d as nat));
        let ghost old_done = done;
        proof {
            done = seq![c] + done;
        }
        digits.push(c);
        assert(digits@ =~= done.reverse());
        if m < 10 {
            assert(decimal(m as nat) == seq![c]);
            assert(decimal(n as nat) =~= done);
            break;
        }
        assert(decimal(m as nat) == decimal((m / 10) as nat) + seq![c]);
        m = m / 10;
        assert(decimal(n as nat) =~= decimal(m as nat) + done);
    }
    let mut out: Vec<char> = Vec::new();
    let mut i = digits.len();
    while i > 0
        invariant
            i <= digits@.len(),
            digits@ == done.reverse(),
            out@ == done.take(digits@.len() - i),
        decreases i,
    {
        i = i - 1;
        out.push(digits[i]);
        assert(out@ =~= done.take(digits@.len() - i));
    }
    assert(out@ =~= done);
    crate::text::string_from_chars(&out)
}

/// Where updating the index from the settings page stands.
#[derive(Clone, Debug, PartialEq)]
pub enum UpdateStatus {
    Idle,
    Running,
    Done(String),
    Error(String),
}

impl UpdateStatus {
    /// The status after clicking Update: running.
    pub fn start() -> (r: UpdateStatus)
        ensures
            r is Running,
    {
        UpdateStatus::Running
    }

    /// The status after an update that indexed `count` rices: `<count> rices indexed`.
    pub fn finished(count: usize) -> (r: UpdateStatus)
        ensures
            r matches UpdateStatus::Done(m) && m@ == decimal(count as nat) + " rices indexed"@,
    {
        let t = decimal_text(count);
        UpdateStatus::Done(t.concat(" rices indexed"))
    }

    /// The status after a failed update.
    pub fn failed(msg: String) -> (r: UpdateStatus)
        ensures
            r == UpdateStatus::Error(msg),
    {
        UpdateStatus::Error(msg)
    }

    /// Whether the Update button is disabled: while an update runs.
    pub fn is_running(&self) -> (r: bool)
        ensures
            r == (*self is Running),
    {
        matches!(self, UpdateStatus::Running)
    }
}

// ---------------------------------------------------------------------------
// The sample catalogue the browse page shows.

/// A list of strings made from literals.
fn strings(items: &[&str]) -> (r: Vec<String>)
    ensures
        r.deep_view() == items@.map_values(|s: &str| s@),
{
    let mut r: Vec<String> = Vec::new();
    let mut i: usize = 0;
    while i < items.len()
        invariant
            i <= items@.len(),
            r@.len() == i,
            forall|k: int| 0 <= k < i ==> #[trigger] r@[k]@ == items@[k]@,
        decreases items@.len() - i,
    {
        r.push(String::from_str(items[i]));
        i = i + 1;
    }
    assert(r.deep_view() =~= items@.map_values(|s: &str| s@));
    r
}

/// What a row of the installed list shows of its record: the rice's name
/// (its id when the index has no name for it), the commit hash as shown,
/// the installation date label, and whether a backup can be restored.
pub struct RowInfo {
    pub display_name: String,
    pub short_hash: String,
    pub date_label: Option<String>,
    pub backup_available: bool,
}

/// The row text of `entry`; `rice_name` is the name the index gives it.
/// The date label is `installed YYYY-MM-DD` (UTC), absent when the
/// installation time cannot be rendered.
pub fn row_info(entry: &InstalledRice, rice_name: Option<String>) -> (r: RowInfo)
    ensures
        r.display_name@ == match rice_name {
            Some(n) => n@,
            None => entry.rice_id@,
        },
        vstd::utf8::is_char_boundary(vstd::utf8::encode_utf8(entry.commit_hash@), 8) ==> vstd::utf8::encode_utf8(
            r.short_hash@,
        ) == vstd::utf8::encode_utf8(entry.commit_hash@).subrange(0, 8),
        !vstd::utf8::is_char_boundary(vstd::utf8::encode_utf8(entry.commit_hash@), 8) ==> r.short_hash@
            == entry.commit_hash@,
        r.date_label.deep_view() == match utc_text(entry.installed_at.secs, entry.installed_at.nanos, "%Y-%m-%d"@) {
            Some(d) => Some("installed "@ + d),
            None => None,
        },
        r.backup_available == (entry.backup_id is Some),
{
    let display_name = match rice_name {
        Some(n) => n,
        None => entry.rice_id.clone(),
    };
    let date_label = match format_utc(entry.installed_at, "%Y-%m-%d") {
        Some(d) => Some(String::from_str("installed ").concat(d.as_str())),
        None => None,
    };
    RowInfo {
        display_name,
        short_hash: short_hash(entry.commit_hash.as_str()),
        date_label,
        backup_available: entry.backup_id.is_some(),
    }
}

/// The command the rice page offers to copy: `riceforge install <id>`.
pub fn install_command(rice: &Rice) -> (r: String)
    ensures
        r@ == "riceforge install "@ + rice.id@,
{
    String::from_str("riceforge install ").concat(rice.id.as_str())
}

/// The value of a sample rice: no screenshots, commit or update time.
pub open spec fn sample_view(
    id: Seq<char>,
    name: Seq<char>,
    author: Seq<char>,
    description: Seq<char>,
    wm: WindowManager,
    theme: Seq<char>,
    fonts: Seq<Seq<char>>,
    dependencies: Seq<Seq<char>>,
    repo_url: Seq<char>,
    stars: u32,
) -> RiceView {
    RiceView {
        id,
        name,
        author,
        description,
        wm,
        theme,
        fonts,
        dependencies,
        repo_url,
        screenshots: Seq::empty(),
        stars,
        commit_hash: None,
        updated_at: None,
    }
}

/// A sample rice with no screenshots, commit or update time.
fn sample(
    id: &str,
    name: &str,
    author: &str,
    description: &str,
    wm: WindowManager,
    theme: &str,
    fonts: &[&str],
    dependencies: &[&str],
    repo_url: &str,
    stars: u32,
) -> (r: Rice)
    ensures
        r@ == sample_view(
            id@,
            name@,
            author@,
            description@,
            wm,
            theme@,
            fonts@.map_values(|f: &str| f@),
            dependencies@.map_values(|d: &str| d@),
            repo_url@,
            stars,
        ),
{
    let font_list = strings(fonts);
    let dependency_list = strings(dependencies);
    let r = Rice {
        id: String::from_str(id),
        name: String::from_str(name),
        author: String::from_str(author),
        description: String::from_str(description),
        wm,
        theme: String::from_str(theme),
        fonts: font_list,
        dependencies: dependency_list,
        repo_url: String::from_str(repo_url),
        screenshots: Vec::new(),
        stars,
        commit_hash: None,
        updated_at: None,
    };
    assert(r.screenshots.deep_view() =~= Seq::<Seq<char>>::empty());
    r
}

/// The sample catalogue: six rices, in this order, with these ids, window
/// managers, themes and stars.
pub fn mock_rices() -> (r: Vec<Rice>)
    ensures
        r@.map_values(|x: Rice| x@) == seq![
            sample_view(
                "catppuccin-hyprland"@,
                "Catppuccin Hyprland"@,
                "notashelf"@,
                "Mocha-themed Hyprland setup with Waybar, Kitty and Rofi. Clean, minimal and easy to configure."@,
                WindowManager::Hyprland,
                "catppuccin-mocha"@,
                seq!["JetBrains Mono"@, "Noto Sans"@],
                seq!["hyprland"@, "waybar"@, "kitty"@, "rofi"@],
                "https://github.com/notashelf/catppuccin-hyprland"@,
                342,
            ),
            sample_view(
                "nord-sway"@,
                "Nord Sway"@,
                "linuxbro"@,
                "Minimalist Nord-themed Sway setup. Swaybar, foot terminal and wofi launcher. Fully keyboard-driven."@,
                WindowManager::Sway,
                "nord"@,
                seq!["Iosevka"@],
                seq!["sway"@, "swaybar"@, "foot"@, "wofi"@],
                "https://github.com/linuxbro/nord-sway"@,
                187,
            ),
            sample_view(
                "gruvbox-i3"@,
                "Gruvbox i3"@,
                "ricemaster"@,
                "Classic Gruvbox i3 setup that stands the test of time. Polybar, urxvt and dmenu."@,
                WindowManager::I3,
                "gruvbox-dark"@,
                seq!["Hack"@, "Font Awesome"@],
                seq!["i3-wm"@, "polybar"@, "urxvt"@, "dmenu"@],
                "https://github.com/ricemaster/gruvbox-i3"@,
                521,
            ),
            sample_view(
                "tokyo-night-hyprland"@,
                "Tokyo Night"@,
                "0xlain"@,
                "Hyprland setup with Tokyo Night palette. AGS bar, swww wallpapers and smooth animations."@,
                WindowManager::Hyprland,
                "tokyo-night"@,
                seq!["Geist Mono"@, "Inter"@],
                seq!["hyprland"@, "ags"@, "swww"@, "wezterm"@],
                "https://github.com/0xlain/tokyo-night-hyprland"@,
                203,
            ),
            sample_view(
                "dracula-bspwm"@,
                "Dracula bspwm"@,
                "vampirice"@,
                "Dark Dracula theme for bspwm. Polybar with custom modules, picom blur and alacritty."@,
                WindowManager::Bspwm,
                "dracula"@,
                seq!["FiraCode Nerd Font"@],
                seq!["bspwm"@, "sxhkd"@, "polybar"@, "picom"@, "alacritty"@],
                "https://github.com/vampirice/dracula-bspwm"@,
                98,
            ),
            sample_view(
                "rosepine-hyprland"@,
                "Ros\u{e9} Pine"@,
                "prettywm"@,
                "Soft Ros\u{e9} Pine setup for Hyprland. EWW bar, cava visualizer and a warm pastel palette."@,
                WindowManager::Hyprland,
                "rose-pine"@,
                seq!["Maple Mono"@, "Nunito"@],
                seq!["hyprland"@, "eww"@, "cava"@, "kitty"@],
                "https://github.com/prettywm/rosepine-hyprland"@,
                156,
            ),
        ],
{
    let mut r: Vec<Rice> = Vec::new();
    r.push(
        sample(
            "catppuccin-hyprland",
            "Catppuccin Hyprland",
            "notashelf",
            "Mocha-themed Hyprland setup with Waybar, Kitty and Rofi. Clean, minimal and easy to configure.",
            WindowManager::Hyprland,
            "catppuccin-mocha",
            &["JetBrains Mono", "Noto Sans"],
            &["hyprland", "waybar", "kitty", "rofi"],
            "https://github.com/notashelf/catppuccin-hyprland",
            342,
        ),
    );
    r.push(
        sample(
            "nord-sway",
            "Nord Sway",
            "linuxbro",
            "Minimalist Nord-themed Sway setup. Swaybar, foot terminal and wofi launcher. Fully keyboard-driven.",
            WindowManager::Sway,
            "nord",
            &["Iosevka"],
            &["sway", "swaybar", "foot", "wofi"],
            "https://github.com/linuxbro/nord-sway",
            187,
        ),
    );
    r.push(
        sample(
            "gruvbox-i3",
            "Gruvbox i3",
            "ricemaster",
            "Classic Gruvbox i3 setup that stands the test of time. Polybar, urxvt and dmenu.",
            WindowManager::I3,
            "gruvbox-dark",
            &["Hack", "Font Awesome"],
            &["i3-wm", "polybar", "urxvt", "dmenu"],
            "https://github.com/ricemaster/gruvbox-i3",
            521,
        ),
    );
    r.push(
        sample(
            "tokyo-night-hyprland",
            "Tokyo Night",
            "0xlain",
            "Hyprland setup with Tokyo Night palette. AGS bar, swww wallpapers and smooth animations.",
            WindowManager::Hyprland,
            "tokyo-night",
            &["Geist Mono", "Inter"],
            &["hyprland", "ags", "swww", "wezterm"],
            "https://github.com/0xlain/tokyo-night-hyprland",
            203,
        ),
    );
    r.push(
        sample(
            "dracula-bspwm",
            "Dracula bspwm",
            "vampirice",
            "Dark Dracula theme for bspwm. Polybar with custom modules, picom blur and alacritty.",
            WindowManager::Bspwm,
            "dracula",
            &["FiraCode Nerd Font"],
            &["bspwm", "sxhkd", "polybar", "picom", "alacritty"],
            "https://github.com/vampirice/dracula-bspwm",
            98,
        ),
    );
    r.push(
        sample(
            "rosepine-hyprland",
            "Ros\u{e9} Pine",
            "prettywm",
            "Soft Ros\u{e9} Pine setup for Hyprland. EWW bar, cava visualizer and a warm pastel palette.",
            WindowManager::Hyprland,
            "rose-pine",
            &["Maple Mono", "Nunito"],
            &["hyprland", "eww", "cava", "kitty"],
            "https://github.com/prettywm/rosepine-hyprland",
            156,
        ),
    );
    assert(r@[0]@.fonts =~= seq!["JetBrains Mono"@, "Noto Sans"@]);
    assert(r@[0]@.dependencies =~= seq!["hyprland"@, "waybar"@, "kitty"@, "rofi"@]);
    assert(r@[1]@.fonts =~= seq!["Iosevka"@]);
    assert(r@[1]@.dependencies =~= seq!["sway"@, "swaybar"@, "foot"@, "wofi"@]);
    assert(r@[2]@.fonts =~= seq!["Hack"@, "Font Awesome"@]);
    assert(r@[2]@.dependencies =~= seq!["i3-wm"@, "polybar"@, "urxvt"@, "dmenu"@]);
    assert(r@[3]@.fonts =~= seq!["Geist Mono"@, "Inter"@]);
    assert(r@[3]@.dependencies =~= seq!["hyprland"@, "ags"@, "swww"@, "wezterm"@]);
    assert(r@[4]@.fonts =~= seq!["FiraCode Nerd Font"@]);
    assert(r@[4]@.dependencies =~= seq!["bspwm"@, "sxhkd"@, "polybar"@, "picom"@, "alacritty"@]);
    assert(r@[5]@.fonts =~= seq!["Maple Mono"@, "Nunito"@]);
    assert(r@[5]@.dependencies =~= seq!["hyprland"@, "eww"@, "cava"@, "kitty"@]);
    assert(r@.map_values(|x: Rice| x@) =~= seq![
            sample_view(
                "catppuccin-hyprland"@,
                "Catppuccin Hyprland"@,
                "notashelf"@,
                "Mocha-themed Hyprland setup with Waybar, Kitty and Rofi. Clean, minimal and easy to configure."@,
                WindowManager::Hyprland,
                "catppuccin-mocha"@,
                seq!["JetBrains Mono"@, "Noto Sans"@],
                seq!["hyprland"@, "waybar"@, "kitty"@, "rofi"@],
                "https://github.com/notashelf/catppuccin-hyprland"@,
                342,
            ),
            sample_view(
                "nord-sway"@,
                "Nord Sway"@,
                "linuxbro"@,
                "Minimalist Nord-themed Sway setup. Swaybar, foot terminal and wofi launcher. Fully keyboard-driven."@,
                WindowManager::Sway,
                "nord"@,
                seq!["Iosevka"@],
                seq!["sway"@, "swaybar"@, "foot"@, "wofi"@],
                "https://github.com/linuxbro/nord-sway"@,
                187,
            ),
            sample_view(
                "gruvbox-i3"@,
                "Gruvbox i3"@,
                "ricemaster"@,
                "Classic Gruvbox i3 setup that stands the test of time. Polybar, urxvt and dmenu."@,
                WindowManager::I3,
                "gruvbox-dark"@,
                seq!["Hack"@, "Font Awesome"@],
                seq!["i3-wm"@, "polybar"@, "urxvt"@, "dmenu"@],
                "https://github.com/ricemaster/gruvbox-i3"@,
                521,
            ),
            sample_view(
                "tokyo-night-hyprland"@,
                "Tokyo Night"@,
                "0xlain"@,
                "Hyprland setup with Tokyo Night palette. AGS bar, swww wallpapers and smooth animations."@,
                WindowManager::Hyprland,
                "tokyo-night"@,
                seq!["Geist Mono"@, "Inter"@],
                seq!["hyprland"@, "ags"@, "swww"@, "wezterm"@],
                "https://github.com/0xlain/tokyo-night-hyprland"@,
                203,
            ),
            sample_view(
                "dracula-bspwm"@,
                "Dracula bspwm"@,
                "vampirice"@,
                "Dark Dracula theme for bspwm. Polybar with custom modules, picom blur and alacritty."@,
                WindowManager::Bspwm,
                "dracula"@,
                seq!["FiraCode Nerd Font"@],
                seq!["bspwm"@, "sxhkd"@, "polybar"@, "picom"@, "alacritty"@],
                "https://github.com/vampirice/dracula-bspwm"@,
                98,
            ),
            sample_view(
                "rosepine-hyprland"@,
                "Ros\u{e9} Pine"@,
                "prettywm"@,
                "Soft Ros\u{e9} Pine setup for Hyprland. EWW bar, cava visualizer and a warm pastel palette."@,
                WindowManager::Hyprland,
                "rose-pine"@,
                seq!["Maple Mono"@, "Nunito"@],
                seq!["hyprland"@, "eww"@, "cava"@, "kitty"@],
                "https://github.com/prettywm/rosepine-hyprland"@,
                156,
            ),
        ]);
    r
}

} // verus!
