//! The data model: window managers, rices, the index, installed rices,
//! backups and deploy plans.

use vstd::prelude::*;
use vstd::string::StringExecFns;
use crate::text::{lowercase, same_text, to_lowercase};

verus! {

/// The window managers (compositors) a rice can target.
#[derive(Clone, Copy, Debug, PartialEq, Eq, Structural)]
pub enum WindowManager {
    Hyprland,
    Sway,
    I3,
    Openbox,
    Bspwm,
    Qtile,
    Xmonad,
    Unknown,
}

/// The human-readable name of a window manager.
pub open spec fn wm_display_name(wm: WindowManager) -> Seq<char> {
    match wm {
        WindowManager::Hyprland => "Hyprland"@,
        WindowManager::Sway => "Sway"@,
        WindowManager::I3 => "i3"@,
        WindowManager::Openbox => "Openbox"@,
        WindowManager::Bspwm => "bspwm"@,
        WindowManager::Qtile => "Qtile"@,
        WindowManager::Xmonad => "XMonad"@,
        WindowManager::Unknown => "Unknown"@,
    }
}

/// The lower-case name under which a window manager is written in index
/// files and `rice.toml` (`Unknown` stands for any other name).
pub open spec fn wm_key(wm: WindowManager) -> Seq<char> {
    match wm {
        WindowManager::Hyprland => "hyprland"@,
        WindowManager::Sway => "sway"@,
        WindowManager::I3 => "i3"@,
        WindowManager::Openbox => "openbox"@,
        WindowManager::Bspwm => "bspwm"@,
        WindowManager::Qtile => "qtile"@,
        WindowManager::Xmonad => "xmonad"@,
        WindowManager::Unknown => "unknown"@,
    }
}

/// The window manager whose lower-case name is exactly `l`; `Unknown` otherwise.
pub open spec fn wm_from_lower(l: Seq<char>) -> WindowManager {
    if l == "hyprland"@ {
        WindowManager::Hyprland
    } else if l == "sway"@ {
        WindowManager::Sway
    } else if l == "i3"@ {
        WindowManager::I3
    } else if l == "openbox"@ {
        WindowManager::Openbox
    } else if l == "bspwm"@ {
        WindowManager::Bspwm
    } else if l == "qtile"@ {
        WindowManager::Qtile
    } else if l == "xmonad"@ {
        WindowManager::Xmonad
    } else {
        WindowManager::Unknown
    }
}

impl WindowManager {
    /// The display name (`Hyprland`, `Sway`, `i3`, `Openbox`, `bspwm`,
    /// `Qtile`, `XMonad`, `Unknown`).
    pub fn to_string(&self) -> (r: String)
        ensures
            r@ == wm_display_name(*self),
    {
        match self {
            WindowManager::Hyprland => String::from_str("Hyprland"),
            WindowManager::Sway => String::from_str("Sway"),
            WindowManager::I3 => String::from_str("i3"),
            WindowManager::Openbox => String::from_str("Openbox"),
            WindowManager::Bspwm => String::from_str("bspwm"),
            WindowManager::Qtile => String::from_str("Qtile"),
            WindowManager::Xmonad => String::from_str("XMonad"),
            WindowManager::Unknown => String::from_str("Unknown"),
        }
    }

    /// Parses a window manager name, ignoring case; any other name gives
    /// `Unknown`. Never fails.
    pub fn from_str(s: &str) -> (r: Result<WindowManager, ()>)
        ensures
            r == Ok::<WindowManager, ()>(wm_from_lower(lowercase(s@))),
    {
        let l = to_lowercase(s);
        let l = l.as_str();
        let wm = if same_text(l, "hyprland") {
            WindowManager::Hyprland
        } else if same_text(l, "sway") {
            WindowManager::Sway
        } else if same_text(l, "i3") {
            WindowManager::I3
        } else if same_text(l, "openbox") {
            WindowManager::Openbox
        } else if same_text(l, "bspwm") {
            WindowManager::Bspwm
        } else if same_text(l, "qtile") {
            WindowManager::Qtile
        } else if same_text(l, "xmonad") {
            WindowManager::Xmonad
        } else {
            WindowManager::Unknown
        };
        Ok(wm)
    }
}

/// A point in time: whole seconds since the Unix epoch and the nanoseconds
/// past that second (above 999 999 999 only during a leap second).
/// Timestamps are ordered by `(secs, nanos)`.
#[derive(Clone, Copy, Debug, PartialEq, Eq, Structural)]
pub struct Timestamp {
    pub secs: i64,
    pub nanos: u32,
}

/// `a` is not later than `b`.
pub open spec fn ts_le(a: Timestamp, b: Timestamp) -> bool {
    a.secs < b.secs || (a.secs == b.secs && a.nanos <= b.nanos)
}

impl Timestamp {
    /// Whether `self` is strictly earlier than `other`.
    pub fn is_before(&self, other: &Timestamp) -> (r: bool)
        ensures
            r == !ts_le(*other, *self),
    {
        self.secs < other.secs || (self.secs == other.secs && self.nanos < other.nanos)
    }
}

/// A rice: a published set of dotfiles for one window manager.
#[derive(Clone, Debug, PartialEq)]
pub struct Rice {
    pub id: String,
    pub name: String,
    pub author: String,
    pub description: String,
    pub wm: WindowManager,
    pub theme: String,
    pub fonts: Vec<String>,
    pub dependencies: Vec<String>,
    pub repo_url: String,
    pub screenshots: Vec<String>,
    pub stars: u32,
    pub commit_hash: Option<String>,
    pub updated_at: Option<Timestamp>,
}

/// The registry: every published rice.
#[derive(Clone, Debug, PartialEq)]
pub struct Index {
    pub version: String,
    pub updated_at: Timestamp,
    pub rices: Vec<Rice>,
}

/// One record of the installed-rices database.
#[derive(Clone, Debug, PartialEq)]
pub struct InstalledRice {
    pub rice_id: String,
    pub commit_hash: String,
    pub installed_at: Timestamp,
    pub backup_id: Option<String>,
}

/// One snapshot of configuration files taken before an installation.
#[derive(Clone, Debug, PartialEq)]
pub struct BackupEntry {
    pub id: String,
    pub rice_id: Option<String>,
    pub created_at: Timestamp,
    pub files: Vec<String>,
}

/// What deploying a rice does: each `(source, destination)` pair becomes a
/// symlink at the destination, and the files in `to_backup` are saved first.
#[derive(Clone, Debug, PartialEq)]
pub struct DeployPlan {
    pub links: Vec<(String, String)>,
    pub to_backup: Vec<String>,
}

/// The value of a `Rice`, each string taken as its characters.
pub struct RiceView {
    pub id: Seq<char>,
    pub name: Seq<char>,
    pub author: Seq<char>,
    pub description: Seq<char>,
    pub wm: WindowManager,
    pub theme: Seq<char>,
    pub fonts: Seq<Seq<char>>,
    pub dependencies: Seq<Seq<char>>,
    pub repo_url: Seq<char>,
    pub screenshots: Seq<Seq<char>>,
    pub stars: u32,
    pub commit_hash: Option<Seq<char>>,
    pub updated_at: Option<Timestamp>,
}

impl View for Rice {
    type V = RiceView;

    open spec fn view(&self) -> RiceView {
        RiceView {
            id: self.id@,
            name: self.name@,
            author: self.author@,
            description: self.description@,
            wm: self.wm,
            theme: self.theme@,
            fonts: self.fonts.deep_view(),
            dependencies: self.dependencies.deep_view(),
            repo_url: self.repo_url@,
            screenshots: self.screenshots.deep_view(),
            stars: self.stars,
            commit_hash: self.commit_hash.deep_view(),
            updated_at: self.updated_at,
        }
    }
}

/// The value of an `InstalledRice`.
pub struct InstalledRiceView {
    pub rice_id: Seq<char>,
    pub commit_hash: Seq<char>,
    pub installed_at: Timestamp,
    pub backup_id: Option<Seq<char>>,
}

impl View for InstalledRice {
    type V = InstalledRiceView;

    open spec fn view(&self) -> InstalledRiceView {
        InstalledRiceView {
            rice_id: self.rice_id@,
            commit_hash: self.commit_hash@,
            installed_at: self.installed_at,
            backup_id: self.backup_id.deep_view(),
        }
    }
}

/// The value of a `BackupEntry`.
pub struct BackupEntryView {
    pub id: Seq<char>,
    pub rice_id: Option<Seq<char>>,
    pub created_at: Timestamp,
    pub files: Seq<Seq<char>>,
}

impl View for BackupEntry {
    type V = BackupEntryView;

    open spec fn view(&self) -> BackupEntryView {
        BackupEntryView {
            id: self.id@,
            rice_id: self.rice_id.deep_view(),
            created_at: self.created_at,
            files: self.files.deep_view(),
        }
    }
}

/// A copy of a list of strings.
pub fn copy_strings(v: &Vec<String>) -> (r: Vec<String>)
    ensures
        r.deep_view() == v.deep_view(),
{
    let mut r: Vec<String> = Vec::new();
    for i in 0..v.len()
        invariant
            r@.len() == i,
            forall|j: int| 0 <= j < i ==> r@[j]@ == v@[j]@,
    {
        r.push(v[i].clone());
    }
    assert(r.deep_view() =~= v.deep_view());
    r
}

/// A copy of an optional string.
pub fn copy_opt_string(o: &Option<String>) -> (r: Option<String>)
    ensures
        r.deep_view() == o.deep_view(),
{
    match o {
        Some(s) => Some(s.clone()),
        None => None,
    }
}

impl Rice {
    /// A field-for-field copy.
    pub fn duplicate(&self) -> (r: Rice)
        ensures
            r@ == self@,
    {
        Rice {
            id: self.id.clone(),
            name: self.name.clone(),
            author: self.author.clone(),
            description: self.description.clone(),
            wm: self.wm,
            theme: self.theme.clone(),
            fonts: copy_strings(&self.fonts),
            dependencies: copy_strings(&self.dependencies),
            repo_url: self.repo_url.clone(),
            screenshots: copy_strings(&self.screenshots),
            stars: self.stars,
            commit_hash: copy_opt_string(&self.commit_hash),
            updated_at: self.updated_at,
        }
    }
}

impl InstalledRice {
    /// A field-for-field copy.
    pub fn duplicate(&self) -> (r: InstalledRice)
        ensures
            r@ == self@,
    {
        InstalledRice {
            rice_id: self.rice_id.clone(),
            commit_hash: self.commit_hash.clone(),
            installed_at: self.installed_at,
            backup_id: copy_opt_string(&self.backup_id),
        }
    }
}

impl BackupEntry {
    /// A field-for-field copy.
    pub fn duplicate(&self) -> (r: BackupEntry)
        ensures
            r@ == self@,
    {
        BackupEntry {
            id: self.id.clone(),
            rice_id: copy_opt_string(&self.rice_id),
            created_at: self.created_at,
            files: copy_strings(&self.files),
        }
    }
}

/// Law: the lower-case name a window manager is written under in index
/// files and `rice.toml` parses back to it.
pub proof fn lemma_index_name_parses_back(wm: WindowManager)
    ensures
        wm_from_lower(wm_key(wm)) == wm,
{
    reveal_strlit("hyprland");
    reveal_strlit("sway");
    reveal_strlit("i3");
    reveal_strlit("openbox");
    reveal_strlit("bspwm");
    reveal_strlit("qtile");
    reveal_strlit("xmonad");
    reveal_strlit("unknown");
    let k = wm_key(wm);
    match wm {
        WindowManager::Unknown => {
            assert(k != "hyprland"@ && k != "sway"@ && k != "i3"@ && k != "openbox"@) by {
                assert(k[0] == 'u');
            }
            assert(k != "bspwm"@ && k != "qtile"@ && k != "xmonad"@) by {
                assert(k[0] == 'u');
            }
            assert(wm_from_lower(k) == WindowManager::Unknown);
        },
        WindowManager::Hyprland => {
            assert(wm_from_lower(k) == wm);
        },
        WindowManager::Sway => {
            assert(k[0] == 's' && k.len() == 4);
            assert(wm_from_lower(k) == wm);
        },
        WindowManager::I3 => {
            assert(k[0] == 'i' && k.len() == 2);
            assert(wm_from_lower(k) == wm);
        },
        WindowManager::Openbox => {
            assert(k[0] == 'o' && k.len() == 7);
            assert(wm_from_lower(k) == wm);
        },
        WindowManager::Bspwm => {
            assert(k[0] == 'b' && k.len() == 5);
            assert(wm_from_lower(k) == wm);
        },
        WindowManager::Qtile => {
            assert(k[0] == 'q' && k.len() == 5);
            assert(wm_from_lower(k) == wm);
        },
        WindowManager::Xmonad => {
            assert(k[0] == 'x' && k.len() == 6);
            assert(wm_from_lower(k) == wm);
        },
    }
}

/// Law: every display name is ASCII, and parsing it (ignoring case) gives
/// the window manager back. (`WindowManager::from_str` parses the
/// lower-cased text, and lower-casing ASCII text maps only `A`-`Z`.)
pub proof fn lemma_display_name_parses_back(wm: WindowManager)
    ensures
        crate::text::all_ascii(wm_display_name(wm)),
        wm_from_lower(crate::text::ascii_lower(wm_display_name(wm))) == wm,
{
    reveal_strlit("Hyprland");
    reveal_strlit("Sway");
    reveal_strlit("i3");
    reveal_strlit("Openbox");
    reveal_strlit("bspwm");
    reveal_strlit("Qtile");
    reveal_strlit("XMonad");
    reveal_strlit("Unknown");
    reveal_strlit("hyprland");
    reveal_strlit("sway");
    reveal_strlit("openbox");
    reveal_strlit("qtile");
    reveal_strlit("xmonad");
    let d = wm_display_name(wm);
    let l = crate::text::ascii_lower(d);
    match wm {
        WindowManager::Hyprland => {
            assert(d == "Hyprland"@);
            assert(l =~= "hyprland"@);
            assert(wm_from_lower(l) == WindowManager::Hyprland);
        },
        WindowManager::Sway => {
            assert(l =~= "sway"@);
            assert(l[0] == 's' && l.len() == 4);
            assert(wm_from_lower(l) == WindowManager::Sway);
        },
        WindowManager::I3 => {
            assert(l =~= "i3"@);
            assert(l[0] == 'i' && l.len() == 2);
            assert(wm_from_lower(l) == WindowManager::I3);
        },
        WindowManager::Openbox => {
            assert(l =~= "openbox"@);
            assert(l[0] == 'o' && l.len() == 7);
            assert(wm_from_lower(l) == WindowManager::Openbox);
        },
        WindowManager::Bspwm => {
            assert(l =~= "bspwm"@);
            assert(l[0] == 'b' && l.len() == 5);
            assert(wm_from_lower(l) == WindowManager::Bspwm);
        },
        WindowManager::Qtile => {
            assert(l =~= "qtile"@);
            assert(l[0] == 'q' && l.len() == 5);
            assert(wm_from_lower(l) == WindowManager::Qtile);
        },
        WindowManager::Xmonad => {
            assert(l =~= "xmonad"@);
            assert(l[0] == 'x' && l.len() == 6);
            assert(wm_from_lower(l) == WindowManager::Xmonad);
        },
        WindowManager::Unknown => {
            assert(l != "hyprland"@ && l != "sway"@ && l != "i3"@ && l != "openbox"@ && l != "bspwm"@
                && l != "qtile"@ && l != "xmonad"@) by {
                assert(l.len() == 7);
                assert(l[0] == 'u');
            }
        },
    }
}

impl std::str::FromStr for WindowManager {
    type Err = ();

    /// Parses a window manager name as `WindowManager::from_str` does.
    fn from_str(s: &str) -> (r: Result<Self, Self::Err>)
        ensures
            r == Ok::<WindowManager, ()>(wm_from_lower(lowercase(s@))),
    {
        WindowManager::from_str(s)
    }
}

} // verus!
