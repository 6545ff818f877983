//! The application state of the two-panel file manager and what each user
//! action or finished background operation does to it.
//!
//! `FileCommander::update` takes an event and returns the outside work to do
//! (listing a directory, copying, reading a file, ...); the caller performs
//! it and reports back with a further event.
use vstd::prelude::*;
use crate::Entry;
use crate::hash::{FileHashes, report_text};
use crate::model::{
    SortOrder, BannerMessage, BannerSeverity, DirEntryView, PanelState, PanelStatus, Side, SortColumn,
    Strings, ThemeMode, ViewerState, moved_selection, row_above, lemma_side_opposite_twice,
    lemma_moved_selection_in_range,
    lemma_theme_toggled_twice,
};
use crate::paths::{
    join_path, joined, joinable, path_parent, path_is_absolute, is_relative_name, is_rooted,
    is_tidy_path, tidy_parent, same_path, same_path_answer,
};
use crate::registration::{verify_code, code_verdict, agrees, error_text};
use crate::sort::is_stable_sort;
use crate::text::{push_char, trim, trimmed, string_from_str, string_from_chars, push_str, is_blank, unicode_lowercase, to_lowercase, chars_of};

verus! {

/// A listed directory entry with what the file system reports of it.
#[derive(Debug, Clone)]
pub struct ListedEntry {
    pub entry: Entry,
    pub readonly: bool,
    pub hidden: bool,
}

#[derive(Debug, Clone)]
pub enum OperationKind {
    Copy { from: Side, to: Side },
    Move { from: Side, to: Side },
    Delete { side: Side },
    CreateFolder { side: Side },
    Rename { side: Side },
    Compress { side: Side, dest: String },
}

/// What the user did, or what came back from outside work.
#[derive(Debug)]
pub enum Message {
    PanelLoaded { side: Side, path: String, entries: Vec<ListedEntry> },
    PanelLoadFailed { side: Side, path: String, error: String },
    SearchChanged(Side, String),
    PathChanged(Side, String),
    PathSubmitted(Side),
    /// Answer to `Action::CheckDirectory`.
    DirectoryChecked { side: Side, path: String, is_dir: bool },
    SelectEntry(Side, usize),
    SelectParent(Side),
    ToggleSort(Side, SortColumn),
    Refresh(Side),
    RefreshAll,
    NavigateUp(Side),
    Copy(Side),
    Move(Side),
    Delete(Side),
    NewFolderNameChanged(Side, String),
    CreateFolder(Side),
    QuickCreateFolder(Side),
    OperationFinished { kind: OperationKind, result: Result<(), String> },
    StartRename(Side),
    RenameInputChanged(Side, String),
    SubmitRename(Side),
    CancelRename(Side),
    ViewFile(Side),
    ViewerLoaded { path: String, result: Result<String, String> },
    CloseViewer,
    EditFile(Side),
    /// Answer to `Action::OpenExternal`.
    ExternalOpened { name: String, result: Result<(), String> },
    Compress(Side),
    FocusPanel(Side),
    SwapPanels,
    ComputeHashes(Side),
    HashesComputed { side: Side, path: String, result: Result<FileHashes, String> },
    ToggleTheme,
    ToggleConfigPanel,
    ToggleAboutPanel,
    MoveSelection { side: Side, delta: i32 },
    RegistrationCodeChanged(String),
    ApplyRegistration,
    ClearRegistration,
    KeyboardShortcut { key: KeyInput, modifiers: KeyModifiers },
}

/// The named keys that have shortcuts.
#[derive(Debug, Clone, Copy, PartialEq, Eq, Structural)]
pub enum NamedKey {
    Escape,
    Delete,
    Tab,
    ArrowUp,
    ArrowDown,
    F2,
    F3,
    F4,
    F5,
    F6,
    F7,
    F8,
    Other,
}

/// A pressed key.
#[derive(Debug, Clone)]
pub enum KeyInput {
    Named(NamedKey),
    Character(String),
    Unidentified,
}

/// The modifier keys held down.
#[derive(Debug, Clone, Copy, PartialEq, Eq, Structural)]
pub struct KeyModifiers {
    pub control: bool,
    pub command: bool,
    pub shift: bool,
}

/// Outside work requested by `update`.
#[derive(Debug, Clone)]
pub enum Action {
    /// List the directory and answer `PanelLoaded` or `PanelLoadFailed`.
    LoadPanel { side: Side, path: String },
    /// Answer `DirectoryChecked` with whether `path` is a directory.
    CheckDirectory { side: Side, path: String },
    /// Copy `src` into `dest_dir`; answer `OperationFinished`.
    CopyEntry { from: Side, to: Side, src: String, dest_dir: String },
    /// Move `src` into `dest_dir`; answer `OperationFinished`.
    MoveEntry { from: Side, to: Side, src: String, dest_dir: String },
    /// Delete `target`; answer `OperationFinished`.
    DeleteEntry { side: Side, target: String },
    /// Create the directory `target`; answer `OperationFinished`.
    CreateDirectory { side: Side, target: String },
    /// Rename `src` within its directory; answer `OperationFinished`.
    RenamePath { side: Side, src: String, new_name: String },
    /// Read the text file; answer `ViewerLoaded`.
    ReadTextFile { path: String },
    /// Open the file in the default application; answer `ExternalOpened`.
    OpenExternal { path: String, name: String },
    /// Zip `src` next to it under a free name; answer `OperationFinished`.
    CompressPath { side: Side, src: String },
    /// Compute the digests of the file; answer `HashesComputed`.
    ComputeHashes { side: Side, path: String },
}

/// The registration state shown in the settings.
#[derive(Debug, Clone)]
pub struct UiPreferences {
    registration_name: Option<String>,
    registration_input: String,
}

impl UiPreferences {
    /// The registered name, if any.
    pub closed spec fn name_view(&self) -> Option<Seq<char>> {
        match self.registration_name {
            Some(n) => Some(n@),
            None => None,
        }
    }

    /// The registration code being typed.
    pub closed spec fn input_view(&self) -> Seq<char> {
        self.registration_input@
    }

    /// Unregistered, with an empty code input.
    pub fn new() -> (r: Self)
        ensures
            r.name_view() is None,
            r.input_view().len() == 0,
    {
        UiPreferences { registration_name: None, registration_input: String::new() }
    }

    /// A name is registered.
    pub fn is_registered(&self) -> (r: bool)
        ensures
            r == self.name_view() is Some,
    {
        self.registration_name.is_some()
    }

    /// The registered name, if any.
    pub fn registration_name(&self) -> (r: Option<&str>)
        ensures
            match r {
                Some(n) => self.name_view() == Some(n@),
                None => self.name_view() is None,
            },
    {
        match &self.registration_name {
            Some(n) => Some(n.as_str()),
            None => None,
        }
    }

    /// Registers `name`.
    pub fn set_registration_name(&mut self, name: String)
        ensures
            final(self).name_view() == Some(name@),
            final(self).input_view() == old(self).input_view(),
    {
        self.registration_name = Some(name);
    }

    /// Forgets the registered name.
    pub fn clear_registration(&mut self)
        ensures
            final(self).name_view() is None,
            final(self).input_view() == old(self).input_view(),
    {
        self.registration_name = None;
    }

    /// The registration code being typed.
    pub fn registration_input(&self) -> (r: &str)
        ensures
            r@ == self.input_view(),
    {
        self.registration_input.as_str()
    }

    /// Replaces the registration code being typed.
    pub fn set_registration_input(&mut self, value: String)
        ensures
            final(self).input_view() == value@,
            final(self).name_view() == old(self).name_view(),
    {
        self.registration_input = value;
    }
}

/// The whole application state.
#[derive(Debug)]
pub struct FileCommander {
    pub left: PanelState,
    pub right: PanelState,
    pub banner: Option<BannerMessage>,
    pub active: Side,
    pub viewer: Option<ViewerState>,
    pub theme: ThemeMode,
    pub show_config: bool,
    pub show_about: bool,
    pub ui_prefs: UiPreferences,
    /// The texts of the current language.
    pub strings: Strings,
}

// ---------------------------------------------------------------------------
// Vocabulary of the specification
// ---------------------------------------------------------------------------

/// The panel is busy with the given text.
pub open spec fn is_busy(s: PanelStatus, text: Seq<char>) -> bool {
    s matches PanelStatus::Busy(t) && t@ == text
}

/// The panel shows the given error.
pub open spec fn is_error(s: PanelStatus, text: Seq<char>) -> bool {
    s matches PanelStatus::Error(t) && t@ == text
}

/// The banner shows `text` with this severity.
pub open spec fn shows_banner(b: Option<BannerMessage>, severity: BannerSeverity, text: Seq<char>) -> bool {
    b matches Some(m) && m.severity == severity && m.text@ == text
}

/// `Debug` of a side.
pub open spec fn side_name(side: Side) -> Seq<char> {
    match side {
        Side::Left => "Left"@,
        Side::Right => "Right"@,
    }
}

impl FileCommander {
    /// The panel on `side`.
    pub open spec fn panel_of(&self, side: Side) -> PanelState {
        match side {
            Side::Left => self.left,
            Side::Right => self.right,
        }
    }

    /// This state with the panel on `side` replaced by `p`.
    pub open spec fn with_panel(&self, side: Side, p: PanelState) -> FileCommander {
        match side {
            Side::Left => FileCommander { left: p, ..*self },
            Side::Right => FileCommander { right: p, ..*self },
        }
    }

    /// `new` is `self` with only the banner changed, to one with this
    /// severity and text.
    pub open spec fn banner_set(&self, new: FileCommander, severity: BannerSeverity, text: Seq<char>) -> bool {
        &&& new == FileCommander { banner: new.banner, ..*self }
        &&& shows_banner(new.banner, severity, text)
    }

    /// `new` is `self` with only the status of the side's panel changed.
    pub open spec fn status_set(&self, new: FileCommander, side: Side) -> bool {
        new == self.with_panel(side, PanelState { status: new.panel_of(side).status, ..self.panel_of(side) })
    }

    /// `reload_panel`: the panel waits for its listing and the listing of its
    /// directory is requested.
    pub open spec fn reloaded(&self, side: Side, new: FileCommander, a: Action) -> bool {
        &&& new == self.with_panel(side, PanelState { status: PanelStatus::Loading, ..self.panel_of(side) })
        &&& a == Action::LoadPanel { side, path: self.panel_of(side).path }
    }

    /// The selected entry of the side's panel, when the selection points
    /// into the listing.
    pub open spec fn selection(&self, side: Side) -> Option<DirEntryView> {
        self.panel_of(side).selected_view()
    }

    /// `p` is where the selected entry of the side's panel lives.
    pub open spec fn selected_path(&self, side: Side, p: Seq<char>) -> bool {
        self.selection(side) matches Some(e) && (joinable(self.panel_of(side).path@) && is_relative_name(e.name_text()) ==> joined(
            self.panel_of(side).path@,
            e.name_text(),
            p,
        ))
    }
}

// ---------------------------------------------------------------------------
// Handlers
// ---------------------------------------------------------------------------

impl FileCommander {
    /// A panel just opened on `cwd`, waiting for its listing.
    pub open spec fn fresh_panel(p: PanelState, cwd: Seq<char>) -> bool {
        &&& p.path@ == cwd
        &&& p.path_input@ == cwd
        &&& p.search@.len() == 0
        &&& p.entries@.len() == 0
        &&& p.selected is None
        &&& p.status is Loading
        &&& p.new_folder@.len() == 0
        &&& p.rename_target is None
        &&& p.rename_input@.len() == 0
        &&& p.sort_column == SortColumn::Name
        &&& p.sort_order == SortOrder::Ascending
        &&& !p.parent_selected
    }

    /// The state at start-up: both panels on `cwd` and waiting for their
    /// listings, nothing shown over them, unregistered.
    pub open spec fn booted(&self, cwd: Seq<char>, strings: Strings) -> bool {
        &&& Self::fresh_panel(self.left, cwd)
        &&& Self::fresh_panel(self.right, cwd)
        &&& self.banner is None
        &&& self.active == Side::Left
        &&& self.viewer is None
        &&& self.theme == ThemeMode::Light
        &&& !self.show_config
        &&& !self.show_about
        &&& self.ui_prefs.name_view() is None
        &&& self.ui_prefs.input_view().len() == 0
        &&& self.strings == strings
    }

    /// The state at start-up, with the listing requests of both panels.
    pub fn boot(cwd: String, strings: Strings) -> (r: (FileCommander, Vec<Action>))
        ensures
            r.0.booted(cwd@, strings),
            r.1@ == seq![
                Action::LoadPanel { side: Side::Left, path: r.0.left.path },
                Action::LoadPanel { side: Side::Right, path: r.0.right.path },
            ],
    {
        let mut left = PanelState::new(string_from_str(cwd.as_str()));
        let mut right = PanelState::new(cwd);
        left.status = PanelStatus::Loading;
        right.status = PanelStatus::Loading;
        let state = FileCommander {
            left,
            right,
            banner: None,
            active: Side::Left,
            viewer: None,
            theme: ThemeMode::Light,
            show_config: false,
            show_about: false,
            ui_prefs: UiPreferences::new(),
            strings,
        };
        let actions = vec![
            Action::LoadPanel { side: Side::Left, path: state.left.path.clone() },
            Action::LoadPanel { side: Side::Right, path: state.right.path.clone() },
        ];
        (state, actions)
    }

    /// The window title: the base title and the edition badge, registered
    /// or open source.
    pub fn window_title(&self) -> (r: String)
        ensures
            r@ == self.strings.title_base@ + seq![' '] + (if self.ui_prefs.name_view() is Some {
                self.strings.badge_registered@
            } else {
                self.strings.badge_open_source@
            }),
    {
        let mut r = string_from_str(self.strings.title_base.as_str());
        push_char(&mut r, ' ');
        if self.ui_prefs.is_registered() {
            push_str(&mut r, self.strings.badge_registered.as_str());
        } else {
            push_str(&mut r, self.strings.badge_open_source.as_str());
        }
        r
    }

    /// The panel on `side`.
    pub fn panel(&self, side: Side) -> (r: &PanelState)
        ensures
            *r == self.panel_of(side),
    {
        match side {
            Side::Left => &self.left,
            Side::Right => &self.right,
        }
    }

    fn panel_mut(&mut self, side: Side) -> (r: &mut PanelState)
        ensures
            *r == old(self).panel_of(side),
            *final(self) == old(self).with_panel(side, *final(r)),
    {
        match side {
            Side::Left => &mut self.left,
            Side::Right => &mut self.right,
        }
    }

    fn set_banner(&mut self, severity: BannerSeverity, text: &str)
        ensures
            old(self).banner_set(*final(self), severity, text@),
    {
        let t = string_from_str(text);
        self.banner = Some(BannerMessage { severity, text: t });
    }

    fn set_busy(&mut self, side: Side, text: &str)
        ensures
            old(self).status_set(*final(self), side),
            is_busy(final(self).panel_of(side).status, text@),
    {
        let t = string_from_str(text);
        self.panel_mut(side).status = PanelStatus::Busy(t);
    }

    fn reload_panel(&mut self, side: Side) -> (a: Action)
        ensures
            old(self).reloaded(side, *final(self), a),
    {
        let path = self.panel(side).path.clone();
        self.panel_mut(side).status = PanelStatus::Loading;
        Action::LoadPanel { side, path }
    }
}


// ---------------------------------------------------------------------------
// Operations on the selected entry
// ---------------------------------------------------------------------------

impl FileCommander {
    /// This state with `side` active.
    pub open spec fn with_active(&self, side: Side) -> FileCommander {
        FileCommander { active: side, ..*self }
    }

    /// `copy_from` (`is_move` false) and `move_from`: the selected entry is
    /// sent to the other panel's directory while the panel shows it is busy.
    pub open spec fn transfer_requested(&self, from: Side, is_move: bool, new: FileCommander, acts: Seq<Action>) -> bool {
        match self.selection(from) {
            None => new == *self && acts.len() == 0,
            Some(e) => {
                &&& self.status_set(new, from)
                &&& is_busy(
                    new.panel_of(from).status,
                    if is_move {
                        "Moving..."@
                    } else {
                        "Copying..."@
                    },
                )
                &&& acts.len() == 1
                &&& if is_move {
                    acts[0] matches Action::MoveEntry { from: f, to: t, src, dest_dir } && f == from
                        && t == from.opposite() && self.selected_path(from, src@) && dest_dir
                        == self.panel_of(from.opposite()).path
                } else {
                    acts[0] matches Action::CopyEntry { from: f, to: t, src, dest_dir } && f == from
                        && t == from.opposite() && self.selected_path(from, src@) && dest_dir
                        == self.panel_of(from.opposite()).path
                }
            },
        }
    }

    /// `delete_from`: the selected entry is deleted while the panel shows it
    /// is busy.
    pub open spec fn delete_requested(&self, side: Side, new: FileCommander, acts: Seq<Action>) -> bool {
        match self.selection(side) {
            None => new == *self && acts.len() == 0,
            Some(e) => {
                &&& self.status_set(new, side)
                &&& is_busy(new.panel_of(side).status, "Deleting..."@)
                &&& acts.len() == 1
                &&& acts[0] matches Action::DeleteEntry { side: s, target } && s == side
                    && self.selected_path(side, target@)
            },
        }
    }

    /// `compress_from`: the selected entry is zipped while the panel shows
    /// it is busy.
    pub open spec fn compress_requested(&self, side: Side, new: FileCommander, acts: Seq<Action>) -> bool {
        match self.selection(side) {
            None => self.banner_set(new, BannerSeverity::Error, "Select an item to compress"@)
                && acts.len() == 0,
            Some(e) => {
                &&& self.status_set(new, side)
                &&& is_busy(new.panel_of(side).status, "Compressing..."@)
                &&& acts.len() == 1
                &&& acts[0] matches Action::CompressPath { side: s, src } && s == side
                    && self.selected_path(side, src@)
            },
        }
    }

    /// `open_viewer`: the selected file is read into the viewer.
    pub open spec fn view_requested(&self, side: Side, new: FileCommander, acts: Seq<Action>) -> bool {
        match self.selection(side) {
            None => self.banner_set(new, BannerSeverity::Error, "Select a file to view"@)
                && acts.len() == 0,
            Some(e) => if e.is_directory() {
                self.banner_set(new, BannerSeverity::Error, "Cannot view a directory"@) && acts.len()
                    == 0
            } else {
                &&& new == FileCommander { viewer: new.viewer, ..*self }
                &&& new.viewer matches Some(ViewerState::Loading { path }) && self.selected_path(
                    side,
                    path@,
                ) && acts.len() == 1 && acts[0] == Action::ReadTextFile { path }
            },
        }
    }

    /// `launch_editor`: the selected file is opened in its application.
    pub open spec fn edit_requested(&self, side: Side, new: FileCommander, acts: Seq<Action>) -> bool {
        match self.selection(side) {
            None => self.banner_set(new, BannerSeverity::Error, "Select a file to edit"@)
                && acts.len() == 0,
            Some(e) => if e.is_directory() {
                self.banner_set(new, BannerSeverity::Error, "Cannot edit a directory"@) && acts.len()
                    == 0
            } else {
                &&& new == *self
                &&& acts.len() == 1
                &&& acts[0] matches Action::OpenExternal { path, name } && self.selected_path(
                    side,
                    path@,
                ) && name@ == e.name_text()
            },
        }
    }

    /// `compute_hashes`: the digests of the selected file are computed while
    /// the panel shows it is busy.
    pub open spec fn hashes_requested(&self, side: Side, new: FileCommander, acts: Seq<Action>) -> bool {
        match self.selection(side) {
            None => self.banner_set(new, BannerSeverity::Error, "Select a file to hash"@)
                && acts.len() == 0,
            Some(e) => if e.is_directory() {
                self.banner_set(new, BannerSeverity::Error, "Cannot hash a directory"@) && acts.len()
                    == 0
            } else {
                &&& self.status_set(new, side)
                &&& is_busy(new.panel_of(side).status, "Hashing..."@)
                &&& acts.len() == 1
                &&& acts[0] matches Action::ComputeHashes { side: s, path } && s == side
                    && self.selected_path(side, path@)
            },
        }
    }

    /// The path of the selected entry, with the entry.
    fn selected_target(&self, side: Side) -> (r: Option<(String, bool, String)>)
        ensures
            match r {
                None => self.selection(side) is None,
                Some((path, is_dir, name)) => self.selected_path(side, path@) && (self.selection(
                    side,
                ) matches Some(e) && is_dir == e.is_directory() && name@ == e.name_text()),
            },
    {
        let panel = self.panel(side);
        match panel.selected_entry() {
            None => None,
            Some(entry) => {
                let path = join_path(panel.path.as_str(), entry.entry_name());
                let name = string_from_str(entry.entry_name());
                Some((path, entry.entry_is_dir(), name))
            },
        }
    }

    fn copy_from(&mut self, from: Side) -> (r: Vec<Action>)
        ensures
            old(self).transfer_requested(from, false, *final(self), r@),
    {
        match self.selected_target(from) {
            None => Vec::new(),
            Some((src, _, _)) => {
                let dest_dir = self.panel(from.other()).path.clone();
                self.set_busy(from, "Copying...");
                vec![Action::CopyEntry { from, to: from.other(), src, dest_dir }]
            },
        }
    }

    fn move_from(&mut self, from: Side) -> (r: Vec<Action>)
        ensures
            old(self).transfer_requested(from, true, *final(self), r@),
    {
        match self.selected_target(from) {
            None => Vec::new(),
            Some((src, _, _)) => {
                let dest_dir = self.panel(from.other()).path.clone();
                self.set_busy(from, "Moving...");
                vec![Action::MoveEntry { from, to: from.other(), src, dest_dir }]
            },
        }
    }

    fn delete_from(&mut self, side: Side) -> (r: Vec<Action>)
        ensures
            old(self).delete_requested(side, *final(self), r@),
    {
        match self.selected_target(side) {
            None => Vec::new(),
            Some((target, _, _)) => {
                self.set_busy(side, "Deleting...");
                vec![Action::DeleteEntry { side, target }]
            },
        }
    }

    fn compress_from(&mut self, side: Side) -> (r: Vec<Action>)
        ensures
            old(self).compress_requested(side, *final(self), r@),
    {
        match self.selected_target(side) {
            None => {
                self.set_banner(BannerSeverity::Error, "Select an item to compress");
                Vec::new()
            },
            Some((src, _, _)) => {
                self.set_busy(side, "Compressing...");
                vec![Action::CompressPath { side, src }]
            },
        }
    }

    fn open_viewer(&mut self, side: Side) -> (r: Vec<Action>)
        ensures
            old(self).view_requested(side, *final(self), r@),
    {
        match self.selected_target(side) {
            None => {
                self.set_banner(BannerSeverity::Error, "Select a file to view");
                Vec::new()
            },
            Some((path, is_dir, _)) => {
                if is_dir {
                    self.set_banner(BannerSeverity::Error, "Cannot view a directory");
                    return Vec::new();
                }
                self.viewer = Some(ViewerState::Loading { path: path.clone() });
                vec![Action::ReadTextFile { path }]
            },
        }
    }

    fn launch_editor(&mut self, side: Side) -> (r: Vec<Action>)
        ensures
            old(self).edit_requested(side, *final(self), r@),
    {
        match self.selected_target(side) {
            None => {
                self.set_banner(BannerSeverity::Error, "Select a file to edit");
                Vec::new()
            },
            Some((path, is_dir, name)) => {
                if is_dir {
                    self.set_banner(BannerSeverity::Error, "Cannot edit a directory");
                    return Vec::new();
                }
                vec![Action::OpenExternal { path, name }]
            },
        }
    }

    fn compute_hashes(&mut self, side: Side) -> (r: Vec<Action>)
        ensures
            old(self).hashes_requested(side, *final(self), r@),
    {
        match self.selected_target(side) {
            None => {
                self.set_banner(BannerSeverity::Error, "Select a file to hash");
                Vec::new()
            },
            Some((path, is_dir, _)) => {
                if is_dir {
                    self.set_banner(BannerSeverity::Error, "Cannot hash a directory");
                    return Vec::new();
                }
                self.set_busy(side, "Hashing...");
                vec![Action::ComputeHashes { side, path }]
            },
        }
    }
}


// ---------------------------------------------------------------------------
// Folders, renaming and navigation
// ---------------------------------------------------------------------------

/// `q` is a proper prefix of `path` (what `Path::parent` returns).
pub open spec fn is_parent_text(q: Seq<char>, path: Seq<char>) -> bool {
    q.len() < path.len() && path.take(q.len() as int) == q
}

/// Where the typed `input` leads from `current`, given whether the trimmed
/// input is an absolute path: nothing when it is blank, the trimmed input
/// itself when absolute, and otherwise the trimmed input joined to
/// `current` (exactly so for a joinable `current` and a relative name; an
/// input rooted at `/` replaces a joinable `current`).
pub open spec fn resolved_with(current: Seq<char>, input: Seq<char>, absolute: bool, r: Option<Seq<char>>) -> bool {
    let t = trim(input);
    &&& (r is None) == (t.len() == 0)
    &&& r matches Some(c) ==> if absolute {
        c == t
    } else {
        &&& joinable(current) && is_relative_name(t) ==> joined(current, t, c)
        &&& joinable(current) && is_rooted(t) ==> c == t
    }
}

/// `resolve_path`: as `resolved_with` for the platform's answer to whether
/// the trimmed input is absolute; a relative name never is.
pub open spec fn resolves_to(current: Seq<char>, input: Seq<char>, r: Option<Seq<char>>) -> bool {
    exists|absolute: bool|
        #![trigger resolved_with(current, input, absolute, r)]
        (is_relative_name(trim(input)) ==> !absolute) && resolved_with(current, input, absolute, r)
}

/// The view of an optional string.
pub open spec fn opt_view(r: Option<String>) -> Option<Seq<char>> {
    match r {
        Some(c) => Some(c@),
        None => None,
    }
}

/// Resolves a typed path against the current directory, given whether the
/// trimmed input is absolute.
pub fn resolve_with(current: &str, input: &str, absolute: bool) -> (r: Option<String>)
    ensures
        resolved_with(current@, input@, absolute, opt_view(r)),
{
    let t = trimmed(input);
    if t.len() == 0 {
        return None;
    }
    let candidate = string_from_chars(&t);
    if absolute {
        Some(candidate)
    } else {
        Some(join_path(current, candidate.as_str()))
    }
}

/// Resolves a typed path against the current directory: blank input gives
/// nothing, an absolute path is taken as it is, a relative one is joined to
/// `current`.
pub fn resolve_path(current: &str, input: &str) -> (r: Option<String>)
    ensures
        resolves_to(current@, input@, opt_view(r)),
        joinable(current@) && is_rooted(trim(input@)) ==> opt_view(r) == Some(trim(input@)),
{
    let t = trimmed(input);
    let candidate = string_from_chars(&t);
    let absolute = path_is_absolute(candidate.as_str());
    let r = resolve_with(current, input, absolute);
    assert(resolved_with(current@, input@, absolute, opt_view(r)));
    r
}

impl FileCommander {
    /// `create_folder`: a directory named by the trimmed folder input is
    /// created while the panel shows it is busy; a blank input is refused.
    pub open spec fn folder_requested(&self, side: Side, new: FileCommander, acts: Seq<Action>) -> bool {
        let p = self.panel_of(side);
        let name = trim(p.new_folder@);
        if name.len() == 0 {
            self.banner_set(new, BannerSeverity::Error, "Enter a folder name"@) && acts.len() == 0
        } else {
            let np = new.panel_of(side);
            &&& new == self.with_panel(
                side,
                PanelState { new_folder: np.new_folder, status: np.status, ..p },
            )
            &&& np.new_folder@.len() == 0
            &&& is_busy(np.status, "Creating folder..."@)
            &&& acts.len() == 1
            &&& acts[0] matches Action::CreateDirectory { side: s, target } && s == side && (
            joinable(p.path@) && is_relative_name(name) ==> joined(p.path@, name, target@))
        }
    }

    /// `quick_create_folder`: the folder input becomes the suggested name,
    /// then as `create_folder`.
    pub open spec fn quick_folder_requested(&self, side: Side, new: FileCommander, acts: Seq<Action>) -> bool {
        exists|mid: FileCommander|
            #![trigger mid.folder_requested(side, new, acts)]
            mid == self.with_panel(
                side,
                PanelState { new_folder: mid.panel_of(side).new_folder, ..self.panel_of(side) },
            ) && mid.panel_of(side).new_folder@ == self.panel_of(side).suggested_name(
                self.strings.new_folder_suggestion@,
            ) && mid.folder_requested(side, new, acts)
    }

    /// `begin_rename`: the selected entry becomes the rename target, its
    /// name the rename input.
    pub open spec fn rename_started(&self, side: Side, new: FileCommander) -> bool {
        let p = self.panel_of(side);
        match p.selected {
            None => self.banner_set(new, BannerSeverity::Error, "Select an item to rename"@),
            Some(idx) => if idx < p.entries@.len() {
                let np = new.panel_of(side);
                &&& new == self.with_panel(
                    side,
                    PanelState { rename_target: Some(idx), rename_input: np.rename_input, ..p },
                )
                &&& np.rename_input@ == p.entries@[idx as int].name_text()
            } else {
                new == *self
            },
        }
    }

    /// `rename_entry`: the rename target is renamed to the trimmed input
    /// while the panel shows it is busy.
    pub open spec fn rename_requested(&self, side: Side, new: FileCommander, acts: Seq<Action>) -> bool {
        let p = self.panel_of(side);
        match p.rename_target {
            None => self.banner_set(new, BannerSeverity::Error, "No item selected for rename"@)
                && acts.len() == 0,
            Some(t) => {
                let new_name = trim(p.rename_input@);
                if new_name.len() == 0 {
                    self.banner_set(new, BannerSeverity::Error, "Enter a new name"@) && acts.len()
                        == 0
                } else if t >= p.entries@.len() {
                    new == *self && acts.len() == 0
                } else {
                    let e = p.entries@[t as int];
                    &&& self.status_set(new, side)
                    &&& is_busy(new.panel_of(side).status, "Renaming..."@)
                    &&& acts.len() == 1
                    &&& acts[0] matches Action::RenamePath { side: s, src, new_name: n } && s
                        == side && n@ == new_name && (joinable(p.path@) && is_relative_name(e.name_text()) ==> joined(p.path@, e.name_text(), src@))
                }
            },
        }
    }

    /// `enter_directory`: a directory entry opens in the panel.
    pub open spec fn entered(&self, side: Side, index: usize, new: FileCommander, acts: Seq<Action>) -> bool {
        let p = self.panel_of(side);
        if index < p.entries@.len() && p.entries@[index as int].is_directory() {
            let e = p.entries@[index as int];
            let np = new.panel_of(side);
            &&& new == self.with_panel(side, np)
            &&& np.after_set_path(p, np.path)
            &&& joinable(p.path@) && is_relative_name(e.name_text())
                ==> joined(
                p.path@,
                e.name_text(),
                np.path@,
            )
            &&& acts.len() == 1
            &&& acts[0] == Action::LoadPanel { side, path: np.path }
        } else {
            new == *self && acts.len() == 0
        }
    }

    /// `go_up`: the panel opens the parent directory, when there is one; a
    /// tidy path always has one, `tidy_parent`.
    pub open spec fn went_up(&self, side: Side, new: FileCommander, acts: Seq<Action>) -> bool {
        let p = self.panel_of(side);
        &&& (p.path@.len() == 0 || p.path@ == seq!['/']) ==> (new == *self && acts.len() == 0)
        &&& is_tidy_path(p.path@) ==> (self.moved_up(side, new, acts) && new.panel_of(side).path@
            == tidy_parent(p.path@))
        &&& (new == *self && acts.len() == 0) || self.moved_up(side, new, acts)
    }

    /// The panel was pointed at a parent of its directory, which is
    /// requested.
    pub open spec fn moved_up(&self, side: Side, new: FileCommander, acts: Seq<Action>) -> bool {
        let p = self.panel_of(side);
        let np = new.panel_of(side);
        &&& new == self.with_panel(side, np).with_active(side)
        &&& np.after_set_path(p, np.path)
        &&& is_parent_text(np.path@, p.path@)
        &&& acts.len() == 1
        &&& acts[0] == Action::LoadPanel { side, path: np.path }
    }

    /// `SelectEntry`: clicking an entry selects it; clicking the selected
    /// entry again enters it.
    pub open spec fn entry_clicked(&self, side: Side, index: usize, new: FileCommander, acts: Seq<Action>) -> bool {
        let p = self.panel_of(side);
        if index >= p.entries@.len() {
            new == *self && acts.len() == 0
        } else {
            exists|mid: FileCommander|
                #![trigger mid.panel_of(side)]
                mid == self.with_panel(
                    side,
                    PanelState {
                        selected: Some(index),
                        parent_selected: false,
                        rename_target: None,
                        rename_input: mid.panel_of(side).rename_input,
                        ..p
                    },
                ).with_active(side) && mid.panel_of(side).rename_input@.len() == 0 && if p.selected
                    == Some(index) {
                    mid.entered(side, index, new, acts)
                } else {
                    new == mid && acts.len() == 0
                }
        }
    }

    /// `SelectParent`: clicking the parent row selects it; clicking it again
    /// goes up. Nothing happens without a parent; a tidy path has one.
    pub open spec fn parent_clicked(&self, side: Side, new: FileCommander, acts: Seq<Action>) -> bool {
        let p = self.panel_of(side);
        &&& (p.path@.len() == 0 || p.path@ == seq!['/']) ==> (new == *self && acts.len() == 0)
        &&& is_tidy_path(p.path@) ==> self.parent_row_clicked(side, new, acts)
        &&& (new == *self && acts.len() == 0) || self.parent_row_clicked(side, new, acts)
    }

    /// The parent row became the selection; when it already was, the panel
    /// went up.
    pub open spec fn parent_row_clicked(&self, side: Side, new: FileCommander, acts: Seq<Action>) -> bool {
        let p = self.panel_of(side);
        exists|mid: FileCommander|
            #![trigger mid.panel_of(side)]
            mid == self.with_panel(
                side,
                PanelState {
                    selected: None,
                    parent_selected: true,
                    rename_target: None,
                    rename_input: mid.panel_of(side).rename_input,
                    ..p
                },
            ).with_active(side) && mid.panel_of(side).rename_input@.len() == 0 && if p.parent_selected {
                mid.went_up(side, new, acts)
            } else {
                new == mid && acts.len() == 0
            }
    }

    /// `PathSubmitted`: the typed path is resolved and checked to be a
    /// directory; a blank one is refused.
    pub open spec fn path_submitted(&self, side: Side, new: FileCommander, acts: Seq<Action>) -> bool {
        let p = self.panel_of(side);
        let t = trim(p.path_input@);
        let me = self.with_active(side);
        if t.len() == 0 {
            me.status_set(new, side) && is_error(new.panel_of(side).status, "Invalid path"@)
                && acts.len() == 0
        } else {
            &&& new == me
            &&& acts.len() == 1
            &&& acts[0] matches Action::CheckDirectory { side: s, path } && s == side && (
            joinable(p.path@) && is_relative_name(t) ==> joined(p.path@, t, path@)) && (
            joinable(p.path@) && is_rooted(t) ==> path@ == t)
        }
    }

    /// `DirectoryChecked`: a directory opens in the panel; anything else is
    /// an invalid path.
    pub open spec fn directory_checked(&self, side: Side, path: String, is_dir: bool, new: FileCommander, acts: Seq<Action>) -> bool {
        let p = self.panel_of(side);
        let np = new.panel_of(side);
        if is_dir {
            &&& new == self.with_panel(side, np)
            &&& np.after_set_path(p, path)
            &&& acts.len() == 1
            &&& acts[0] == Action::LoadPanel { side, path: np.path }
        } else {
            self.status_set(new, side) && is_error(new.panel_of(side).status, "Invalid path"@)
                && acts.len() == 0
        }
    }

    fn create_folder(&mut self, side: Side) -> (r: Vec<Action>)
        ensures
            old(self).folder_requested(side, *final(self), r@),
    {
        let name = trimmed(self.panel(side).new_folder.as_str());
        if name.len() == 0 {
            self.set_banner(BannerSeverity::Error, "Enter a folder name");
            return Vec::new();
        }
        let name_text = string_from_chars(&name);
        let target = join_path(self.panel(side).path.as_str(), name_text.as_str());
        let busy = string_from_str("Creating folder...");
        let p = self.panel_mut(side);
        p.new_folder = String::new();
        p.status = PanelStatus::Busy(busy);
        vec![Action::CreateDirectory { side, target }]
    }

    fn quick_create_folder(&mut self, side: Side) -> (r: Vec<Action>)
        ensures
            old(self).quick_folder_requested(side, *final(self), r@),
    {
        let name = self.panel(side).suggest_new_folder_name(
            self.strings.new_folder_suggestion.as_str(),
        );
        self.panel_mut(side).new_folder = name;
        let ghost mid = *self;
        let r = self.create_folder(side);
        assert(mid.folder_requested(side, *self, r@));
        r
    }

    fn begin_rename(&mut self, side: Side)
        ensures
            old(self).rename_started(side, *final(self)),
    {
        let idx = match self.panel(side).selected {
            None => {
                self.set_banner(BannerSeverity::Error, "Select an item to rename");
                return ;
            },
            Some(i) => i,
        };
        if idx >= self.panel(side).entries.len() {
            return ;
        }
        let name = string_from_str(self.panel(side).entries[idx].entry_name());
        let p = self.panel_mut(side);
        p.rename_target = Some(idx);
        p.rename_input = name;
    }

    fn rename_entry(&mut self, side: Side) -> (r: Vec<Action>)
        ensures
            old(self).rename_requested(side, *final(self), r@),
    {
        let target_idx = match self.panel(side).rename_target {
            None => {
                self.set_banner(BannerSeverity::Error, "No item selected for rename");
                return Vec::new();
            },
            Some(t) => t,
        };
        let new_name_chars = trimmed(self.panel(side).rename_input.as_str());
        if new_name_chars.len() == 0 {
            self.set_banner(BannerSeverity::Error, "Enter a new name");
            return Vec::new();
        }
        if target_idx >= self.panel(side).entries.len() {
            return Vec::new();
        }
        let src = join_path(
            self.panel(side).path.as_str(),
            self.panel(side).entries[target_idx].entry_name(),
        );
        let new_name = string_from_chars(&new_name_chars);
        self.set_busy(side, "Renaming...");
        vec![Action::RenamePath { side, src, new_name }]
    }

    fn enter_directory(&mut self, side: Side, index: usize) -> (r: Vec<Action>)
        ensures
            old(self).entered(side, index, *final(self), r@),
    {
        if index >= self.panel(side).entries.len() {
            return Vec::new();
        }
        if !self.panel(side).entries[index].entry_is_dir() {
            return Vec::new();
        }
        let next = join_path(
            self.panel(side).path.as_str(),
            self.panel(side).entries[index].entry_name(),
        );
        self.panel_mut(side).set_path(next);
        let a = self.reload_panel(side);
        vec![a]
    }

    fn go_up(&mut self, side: Side) -> (r: Vec<Action>)
        ensures
            old(self).went_up(side, *final(self), r@),
    {
        match path_parent(self.panel(side).path.as_str()) {
            Some(parent) => {
                self.panel_mut(side).set_path(parent);
                self.panel_mut(side).parent_selected = false;
                self.active = side;
                let a = self.reload_panel(side);
                vec![a]
            },
            None => Vec::new(),
        }
    }

    fn select_entry(&mut self, side: Side, index: usize) -> (r: Vec<Action>)
        ensures
            old(self).entry_clicked(side, index, *final(self), r@),
    {
        if index >= self.panel(side).entries.len() {
            return Vec::new();
        }
        let already_selected = self.panel(side).selected == Some(index);
        {
            let p = self.panel_mut(side);
            p.selected = Some(index);
            p.parent_selected = false;
            p.clear_rename();
        }
        self.active = side;
        let ghost mid = *self;
        assert(mid.panel_of(side).rename_input@.len() == 0);
        if already_selected {
            let r = self.enter_directory(side, index);
            assert(mid.entered(side, index, *self, r@));
            r
        } else {
            Vec::new()
        }
    }

    fn select_parent(&mut self, side: Side) -> (r: Vec<Action>)
        ensures
            old(self).parent_clicked(side, *final(self), r@),
    {
        if !self.panel(side).can_go_up() {
            return Vec::new();
        }
        let already_selected = self.panel(side).parent_selected;
        {
            let p = self.panel_mut(side);
            p.selected = None;
            p.parent_selected = true;
            p.clear_rename();
        }
        self.active = side;
        let ghost mid = *self;
        assert(mid.panel_of(side).rename_input@.len() == 0);
        if already_selected {
            let r = self.go_up(side);
            assert(mid.went_up(side, *self, r@));
            r
        } else {
            Vec::new()
        }
    }

    fn submit_path(&mut self, side: Side) -> (r: Vec<Action>)
        ensures
            old(self).path_submitted(side, *final(self), r@),
    {
        self.active = side;
        let candidate = resolve_path(
            self.panel(side).path.as_str(),
            self.panel(side).path_input.as_str(),
        );
        match candidate {
            Some(path) => vec![Action::CheckDirectory { side, path }],
            None => {
                let t = string_from_str("Invalid path");
                self.panel_mut(side).status = PanelStatus::Error(t);
                Vec::new()
            },
        }
    }

    fn check_directory(&mut self, side: Side, path: String, is_dir: bool) -> (r: Vec<Action>)
        ensures
            old(self).directory_checked(side, path, is_dir, *final(self), r@),
    {
        if is_dir {
            self.panel_mut(side).set_path(path);
            let a = self.reload_panel(side);
            vec![a]
        } else {
            let t = string_from_str("Invalid path");
            self.panel_mut(side).status = PanelStatus::Error(t);
            Vec::new()
        }
    }
}


// ---------------------------------------------------------------------------
// Answers from outside work
// ---------------------------------------------------------------------------

impl FileCommander {
    /// The side's panel waits for its listing.
    pub open spec fn loading(&self, side: Side) -> FileCommander {
        self.with_panel(side, PanelState { status: PanelStatus::Loading, ..self.panel_of(side) })
    }

    /// `PanelLoaded`: a listing of the panel's current directory (compared
    /// as paths) replaces its entries; a stale listing is ignored.
    pub open spec fn listing_applied(&self, side: Side, path: String, entries: Seq<ListedEntry>, new: FileCommander, acts: Seq<Action>) -> bool {
        exists|same: bool|
            #![trigger same_path_answer(self.panel_of(side).path@, path@, same)]
            same_path_answer(self.panel_of(side).path@, path@, same) && self.listing_taken(
                side,
                same,
                entries,
                new,
                acts,
            )
    }

    /// `PanelLoaded`, given whether the listing is of the panel's current
    /// directory.
    pub open spec fn listing_taken(&self, side: Side, same: bool, entries: Seq<ListedEntry>, new: FileCommander, acts: Seq<Action>) -> bool {
        let p = self.panel_of(side);
        let np = new.panel_of(side);
        &&& acts.len() == 0
        &&& if !same {
            new == *self
        } else {
            &&& new == self.with_panel(
                side,
                PanelState { entries: np.entries, status: PanelStatus::Ready, selected: None, ..p },
            )
            &&& np.entries@.len() == entries.len()
            &&& forall|i: int|
                0 <= i < entries.len() ==> #[trigger] np.entries@[i].shows(
                    entries[i].entry,
                    entries[i].readonly,
                    entries[i].hidden,
                )
        }
    }

    /// `PanelLoadFailed`: the panel and the banner show the error; a stale
    /// failure (for another path) is ignored.
    pub open spec fn load_failure_shown(&self, side: Side, path: String, error: String, new: FileCommander, acts: Seq<Action>) -> bool {
        exists|same: bool|
            #![trigger same_path_answer(self.panel_of(side).path@, path@, same)]
            same_path_answer(self.panel_of(side).path@, path@, same) && self.load_failure_taken(
                side,
                same,
                error,
                new,
                acts,
            )
    }

    /// `PanelLoadFailed`, given whether the failure is of the panel's
    /// current directory.
    pub open spec fn load_failure_taken(&self, side: Side, same: bool, error: String, new: FileCommander, acts: Seq<Action>) -> bool {
        let p = self.panel_of(side);
        &&& acts.len() == 0
        &&& if !same {
            new == *self
        } else {
            &&& new == FileCommander {
                banner: new.banner,
                ..self.with_panel(side, PanelState { status: PanelStatus::Error(error), ..p })
            }
            &&& shows_banner(
                new.banner,
                BannerSeverity::Error,
                side_name(side) + " load failed: "@ + error@,
            )
        }
    }

    /// A failed operation: the panel and the banner show the error.
    pub open spec fn failure_shown(&self, side: Side, error: String, new: FileCommander) -> bool {
        &&& new == FileCommander {
            banner: new.banner,
            ..self.with_panel(
                side,
                PanelState { status: new.panel_of(side).status, ..self.panel_of(side) },
            )
        }
        &&& is_error(new.panel_of(side).status, error@)
        &&& shows_banner(new.banner, BannerSeverity::Error, error@)
    }

    /// A successful operation on one panel: the banner reports it and the
    /// panel's listing is requested again.
    pub open spec fn success_shown(&self, side: Side, text: Seq<char>, new: FileCommander, acts: Seq<Action>) -> bool {
        &&& new == FileCommander { banner: new.banner, ..self.loading(side) }
        &&& shows_banner(new.banner, BannerSeverity::Info, text)
        &&& acts.len() == 1
        &&& acts[0] == Action::LoadPanel { side, path: self.panel_of(side).path }
    }

    /// `OperationFinished`.
    pub open spec fn operation_reported(&self, kind: OperationKind, result: Result<(), String>, new: FileCommander, acts: Seq<Action>) -> bool {
        match kind {
            OperationKind::Copy { from, to } => match result {
                Ok(_) => {
                    &&& new == FileCommander { banner: new.banner, ..self.loading(from).loading(to) }
                    &&& shows_banner(new.banner, BannerSeverity::Info, "Copy completed"@)
                    &&& acts.len() == 2
                    &&& acts[0] == Action::LoadPanel { side: from, path: self.panel_of(from).path }
                    &&& acts[1] == Action::LoadPanel { side: to, path: self.panel_of(to).path }
                },
                Err(e) => self.failure_shown(from, e, new) && acts.len() == 0,
            },
            OperationKind::Move { from, to } => match result {
                Ok(_) => {
                    &&& new == FileCommander { banner: new.banner, ..self.loading(from).loading(to) }
                    &&& shows_banner(new.banner, BannerSeverity::Info, "Move completed"@)
                    &&& acts.len() == 2
                    &&& acts[0] == Action::LoadPanel { side: from, path: self.panel_of(from).path }
                    &&& acts[1] == Action::LoadPanel { side: to, path: self.panel_of(to).path }
                },
                Err(e) => self.failure_shown(from, e, new) && acts.len() == 0,
            },
            OperationKind::Delete { side } => match result {
                Ok(_) => self.success_shown(side, "Delete completed"@, new, acts),
                Err(e) => self.failure_shown(side, e, new) && acts.len() == 0,
            },
            OperationKind::CreateFolder { side } => match result {
                Ok(_) => self.success_shown(side, "Folder created"@, new, acts),
                Err(e) => self.failure_shown(side, e, new) && acts.len() == 0,
            },
            OperationKind::Rename { side } => match result {
                Ok(_) => {
                    let p = self.panel_of(side);
                    let np = new.panel_of(side);
                    &&& new == FileCommander {
                        banner: new.banner,
                        ..self.with_panel(
                            side,
                            PanelState {
                                status: PanelStatus::Loading,
                                rename_target: None,
                                rename_input: np.rename_input,
                                ..p
                            },
                        )
                    }
                    &&& np.rename_input@.len() == 0
                    &&& shows_banner(new.banner, BannerSeverity::Info, "Rename completed"@)
                    &&& acts.len() == 1
                    &&& acts[0] == Action::LoadPanel { side, path: p.path }
                },
                Err(e) => self.failure_shown(side, e, new) && acts.len() == 0,
            },
            OperationKind::Compress { side, dest } => match result {
                Ok(_) => self.success_shown(side, "Created archive "@ + dest@, new, acts),
                Err(e) => self.failure_shown(side, e, new) && acts.len() == 0,
            },
        }
    }

    /// `ViewerLoaded`: the text, or why it could not be read, replaces the
    /// viewer that waits for this file (compared as paths); other answers
    /// are ignored.
    pub open spec fn viewer_answered(&self, path: String, result: Result<String, String>, new: FileCommander) -> bool {
        match self.viewer {
            Some(ViewerState::Loading { path: cur }) => exists|same: bool|
                #![trigger same_path_answer(cur@, path@, same)]
                same_path_answer(cur@, path@, same) && self.viewer_taken(same, path, result, new),
            _ => new == *self,
        }
    }

    /// `ViewerLoaded`, given whether the answer is for the file the viewer
    /// waits for.
    pub open spec fn viewer_taken(&self, same: bool, path: String, result: Result<String, String>, new: FileCommander) -> bool {
        if same {
            new == FileCommander {
                viewer: Some(
                    match result {
                        Ok(content) => ViewerState::Ready { path, content },
                        Err(message) => ViewerState::Error { path, message },
                    },
                ),
                ..*self
            }
        } else {
            new == *self
        }
    }

    /// `ExternalOpened`: the banner tells whether the file was opened.
    pub open spec fn opening_reported(&self, name: String, result: Result<(), String>, new: FileCommander) -> bool {
        match result {
            Ok(_) => self.banner_set(new, BannerSeverity::Info, "Opened "@ + name@),
            Err(e) => self.banner_set(new, BannerSeverity::Error, e@),
        }
    }

    /// `HashesComputed`: the panel is ready again; the report opens in the
    /// viewer, or the banner shows the error.
    pub open spec fn hashes_reported(&self, side: Side, path: String, result: Result<FileHashes, String>, new: FileCommander) -> bool {
        let ready = self.with_panel(
            side,
            PanelState { status: PanelStatus::Ready, ..self.panel_of(side) },
        );
        match result {
            Ok(h) => {
                &&& new == FileCommander { banner: new.banner, viewer: new.viewer, ..ready }
                &&& shows_banner(new.banner, BannerSeverity::Info, "Hash calculation complete"@)
                &&& new.viewer matches Some(ViewerState::Ready { path: vp, content }) && vp == path
                    && content@ == report_text(h, path@)
            },
            Err(e) => new == FileCommander { banner: new.banner, ..ready } && shows_banner(
                new.banner,
                BannerSeverity::Error,
                e@,
            ),
        }
    }

    /// `ApplyRegistration`: the trimmed code input is verified; a valid code
    /// registers its name and clears the input.
    pub open spec fn registration_applied(&self, new: FileCommander) -> bool {
        let code = trim(self.ui_prefs.input_view());
        if code.len() == 0 {
            self.banner_set(new, BannerSeverity::Error, "Enter a registration code"@)
        } else {
            match code_verdict(code) {
                Ok(name) => {
                    &&& new == FileCommander { banner: new.banner, ui_prefs: new.ui_prefs, ..*self }
                    &&& new.ui_prefs.name_view() == Some(name)
                    &&& new.ui_prefs.input_view().len() == 0
                    &&& shows_banner(new.banner, BannerSeverity::Info, "Registered to "@ + name)
                },
                Err(e) => self.banner_set(
                    new,
                    BannerSeverity::Error,
                    "Registration failed: "@ + error_text(e),
                ),
            }
        }
    }

    /// `ClearRegistration`.
    pub open spec fn registration_cleared(&self, new: FileCommander) -> bool {
        if self.ui_prefs.name_view() is Some {
            &&& new == FileCommander { banner: new.banner, ui_prefs: new.ui_prefs, ..*self }
            &&& new.ui_prefs.name_view() is None
            &&& new.ui_prefs.input_view() == self.ui_prefs.input_view()
            &&& shows_banner(new.banner, BannerSeverity::Info, "Registration cleared"@)
        } else {
            new == *self
        }
    }

    fn set_banner_text(&mut self, severity: BannerSeverity, text: String)
        ensures
            old(self).banner_set(*final(self), severity, text@),
    {
        self.banner = Some(BannerMessage { severity, text });
    }

    fn panel_loaded(&mut self, side: Side, path: String, entries: Vec<ListedEntry>) -> (r: Vec<Action>)
        ensures
            old(self).listing_applied(side, path, entries@, *final(self), r@),
    {
        let same = same_path(self.panel(side).path.as_str(), path.as_str());
        assert(same_path_answer(old(self).panel_of(side).path@, path@, same));
        if !same {
            return Vec::new();
        }
        let ghost input = entries@;
        let mut views: Vec<DirEntryView> = Vec::new();
        for listed in it: entries
            invariant
                it.seq() == input,
                views@.len() == it.index(),
                forall|i: int|
                    0 <= i < views@.len() ==> #[trigger] views@[i].shows(
                        input[i].entry,
                        input[i].readonly,
                        input[i].hidden,
                    ),
        {
            let ListedEntry { entry, readonly, hidden } = listed;
            views.push(DirEntryView::from_entry(entry, readonly, hidden));
        }
        let p = self.panel_mut(side);
        p.entries = views;
        p.status = PanelStatus::Ready;
        p.selected = None;
        Vec::new()
    }

    fn load_failed(&mut self, side: Side, path: String, error: String) -> (r: Vec<Action>)
        ensures
            old(self).load_failure_shown(side, path, error, *final(self), r@),
    {
        let same = same_path(self.panel(side).path.as_str(), path.as_str());
        assert(same_path_answer(old(self).panel_of(side).path@, path@, same));
        if !same {
            return Vec::new();
        }
        let mut text = String::new();
        match side {
            Side::Left => push_str(&mut text, "Left"),
            Side::Right => push_str(&mut text, "Right"),
        }
        push_str(&mut text, " load failed: ");
        push_str(&mut text, error.as_str());
        self.panel_mut(side).status = PanelStatus::Error(error);
        self.set_banner_text(BannerSeverity::Error, text);
        Vec::new()
    }

    fn show_failure(&mut self, side: Side, error: String)
        ensures
            old(self).failure_shown(side, error, *final(self)),
    {
        self.panel_mut(side).status = PanelStatus::Error(error.clone());
        self.set_banner_text(BannerSeverity::Error, error);
    }

    fn show_success(&mut self, side: Side, text: &str) -> (r: Vec<Action>)
        ensures
            old(self).success_shown(side, text@, *final(self), r@),
    {
        self.panel_mut(side).status = PanelStatus::Ready;
        self.set_banner(BannerSeverity::Info, text);
        let a = self.reload_panel(side);
        vec![a]
    }

    fn operation_finished(&mut self, kind: OperationKind, result: Result<(), String>) -> (r: Vec<Action>)
        ensures
            old(self).operation_reported(kind, result, *final(self), r@),
    {
        match kind {
            OperationKind::Copy { from, to } => match result {
                Ok(()) => {
                    self.panel_mut(from).status = PanelStatus::Ready;
                    self.set_banner(BannerSeverity::Info, "Copy completed");
                    let a = self.reload_panel(from);
                    let b = self.reload_panel(to);
                    vec![a, b]
                },
                Err(err) => {
                    self.show_failure(from, err);
                    Vec::new()
                },
            },
            OperationKind::Move { from, to } => match result {
                Ok(()) => {
                    self.panel_mut(from).status = PanelStatus::Ready;
                    self.set_banner(BannerSeverity::Info, "Move completed");
                    let a = self.reload_panel(from);
                    let b = self.reload_panel(to);
                    vec![a, b]
                },
                Err(err) => {
                    self.show_failure(from, err);
                    Vec::new()
                },
            },
            OperationKind::Delete { side } => match result {
                Ok(()) => self.show_success(side, "Delete completed"),
                Err(err) => {
                    self.show_failure(side, err);
                    Vec::new()
                },
            },
            OperationKind::CreateFolder { side } => match result {
                Ok(()) => self.show_success(side, "Folder created"),
                Err(err) => {
                    self.show_failure(side, err);
                    Vec::new()
                },
            },
            OperationKind::Rename { side } => match result {
                Ok(()) => {
                    {
                        let p = self.panel_mut(side);
                        p.status = PanelStatus::Ready;
                        p.clear_rename();
                    }
                    self.set_banner(BannerSeverity::Info, "Rename completed");
                    let a = self.reload_panel(side);
                    vec![a]
                },
                Err(err) => {
                    self.show_failure(side, err);
                    Vec::new()
                },
            },
            OperationKind::Compress { side, dest } => match result {
                Ok(()) => {
                    let mut text = String::new();
                    push_str(&mut text, "Created archive ");
                    push_str(&mut text, dest.as_str());
                    self.show_success(side, text.as_str())
                },
                Err(err) => {
                    self.show_failure(side, err);
                    Vec::new()
                },
            },
        }
    }

    fn viewer_loaded(&mut self, path: String, result: Result<String, String>)
        ensures
            old(self).viewer_answered(path, result, *final(self)),
    {
        let matches_path = match &self.viewer {
            Some(ViewerState::Loading { path: current }) => {
                let same = same_path(current.as_str(), path.as_str());
                assert(same_path_answer(current@, path@, same));
                same
            },
            _ => false,
        };
        if !matches_path {
            return ;
        }
        self.viewer = Some(
            match result {
                Ok(content) => ViewerState::Ready { path, content },
                Err(message) => ViewerState::Error { path, message },
            },
        );
    }

    fn external_opened(&mut self, name: String, result: Result<(), String>)
        ensures
            old(self).opening_reported(name, result, *final(self)),
    {
        match result {
            Ok(()) => {
                let mut text = String::new();
                push_str(&mut text, "Opened ");
                push_str(&mut text, name.as_str());
                self.set_banner_text(BannerSeverity::Info, text);
            },
            Err(err) => {
                self.set_banner_text(BannerSeverity::Error, err);
            },
        }
    }

    fn hashes_computed(&mut self, side: Side, path: String, result: Result<FileHashes, String>)
        ensures
            old(self).hashes_reported(side, path, result, *final(self)),
    {
        self.panel_mut(side).status = PanelStatus::Ready;
        match result {
            Ok(hashes) => {
                let report = hashes.to_report(path.as_str());
                self.set_banner(BannerSeverity::Info, "Hash calculation complete");
                self.viewer = Some(ViewerState::Ready { path, content: report });
            },
            Err(err) => {
                self.set_banner_text(BannerSeverity::Error, err);
            },
        }
    }

    fn apply_registration(&mut self)
        ensures
            old(self).registration_applied(*final(self)),
    {
        let code_chars = trimmed(self.ui_prefs.registration_input());
        if code_chars.len() == 0 {
            self.set_banner(BannerSeverity::Error, "Enter a registration code");
            return ;
        }
        let code = string_from_chars(&code_chars);
        match verify_code(code.as_str()) {
            Ok(info) => {
                let mut text = String::new();
                push_str(&mut text, "Registered to ");
                push_str(&mut text, info.name.as_str());
                self.ui_prefs.set_registration_name(info.name);
                self.ui_prefs.set_registration_input(String::new());
                self.set_banner_text(BannerSeverity::Info, text);
            },
            Err(err) => {
                let mut text = String::new();
                push_str(&mut text, "Registration failed: ");
                let m = err.message();
                push_str(&mut text, m.as_str());
                self.set_banner_text(BannerSeverity::Error, text);
            },
        }
    }

    fn clear_registration(&mut self)
        ensures
            old(self).registration_cleared(*final(self)),
    {
        if self.ui_prefs.is_registered() {
            self.ui_prefs.clear_registration();
            self.set_banner(BannerSeverity::Info, "Registration cleared");
        }
    }
}


// ---------------------------------------------------------------------------
// Keyboard shortcuts
// ---------------------------------------------------------------------------

/// The event a key press stands for in the active panel.
pub open spec fn shortcut_event(key: KeyInput, modifiers: KeyModifiers, active: Side) -> Option<Message> {
    match key {
        KeyInput::Named(named) => match named {
            NamedKey::Escape => Some(Message::CloseViewer),
            NamedKey::Delete => Some(Message::Delete(active)),
            NamedKey::Tab => Some(Message::FocusPanel(active.opposite())),
            NamedKey::ArrowUp => Some(Message::MoveSelection { side: active, delta: -1i32 }),
            NamedKey::ArrowDown => Some(Message::MoveSelection { side: active, delta: 1i32 }),
            NamedKey::F2 => Some(Message::Refresh(active)),
            NamedKey::F3 => Some(Message::ViewFile(active)),
            NamedKey::F4 => Some(Message::EditFile(active)),
            NamedKey::F5 => Some(Message::Copy(active)),
            NamedKey::F6 => Some(Message::Move(active)),
            NamedKey::F7 => Some(Message::CreateFolder(active)),
            NamedKey::F8 => Some(Message::Delete(active)),
            NamedKey::Other => None,
        },
        KeyInput::Character(value) => {
            let lower = unicode_lowercase(value@);
            let command = modifiers.control || modifiers.command;
            if command && lower == seq!['h'] {
                Some(Message::ComputeHashes(active))
            } else if command && lower == seq!['r'] && modifiers.shift {
                Some(Message::RefreshAll)
            } else if command && lower == seq!['t'] {
                Some(Message::ToggleTheme)
            } else if command && lower == seq![','] {
                Some(Message::ToggleConfigPanel)
            } else if command && lower == seq!['.'] {
                Some(Message::ToggleAboutPanel)
            } else if command && lower == seq!['u'] {
                Some(Message::SwapPanels)
            } else if lower == seq!['v'] {
                Some(Message::ViewFile(active))
            } else if lower == seq!['e'] {
                Some(Message::EditFile(active))
            } else if lower == seq!['c'] {
                Some(Message::Copy(active))
            } else if lower == seq!['r'] {
                Some(Message::StartRename(active))
            } else if lower == seq!['z'] {
                Some(Message::Compress(active))
            } else if lower == seq!['+'] {
                Some(Message::QuickCreateFolder(active))
            } else {
                None
            }
        },
        KeyInput::Unidentified => None,
    }
}

/// The text is exactly the one character `c`.
fn is_single(v: &Vec<char>, c: char) -> (r: bool)
    ensures
        r == (v@ == seq![c]),
{
    if v.len() == 1 && v[0] == c {
        assert(v@ =~= seq![c]);
        true
    } else {
        false
    }
}

/// Maps a key press to the event it stands for in the active panel.
pub fn shortcut_message(key: KeyInput, modifiers: KeyModifiers, active: Side) -> (r: Option<Message>)
    ensures
        r == shortcut_event(key, modifiers, active),
{
    match key {
        KeyInput::Named(named) => match named {
            NamedKey::Escape => Some(Message::CloseViewer),
            NamedKey::Delete => Some(Message::Delete(active)),
            NamedKey::Tab => Some(Message::FocusPanel(active.other())),
            NamedKey::ArrowUp => Some(Message::MoveSelection { side: active, delta: -1 }),
            NamedKey::ArrowDown => Some(Message::MoveSelection { side: active, delta: 1 }),
            NamedKey::F2 => Some(Message::Refresh(active)),
            NamedKey::F3 => Some(Message::ViewFile(active)),
            NamedKey::F4 => Some(Message::EditFile(active)),
            NamedKey::F5 => Some(Message::Copy(active)),
            NamedKey::F6 => Some(Message::Move(active)),
            NamedKey::F7 => Some(Message::CreateFolder(active)),
            NamedKey::F8 => Some(Message::Delete(active)),
            NamedKey::Other => None,
        },
        KeyInput::Character(value) => {
            let lower_text = to_lowercase(value.as_str());
            let lower = chars_of(lower_text.as_str());
            let command = modifiers.control || modifiers.command;
            if command && is_single(&lower, 'h') {
                Some(Message::ComputeHashes(active))
            } else if command && is_single(&lower, 'r') && modifiers.shift {
                Some(Message::RefreshAll)
            } else if command && is_single(&lower, 't') {
                Some(Message::ToggleTheme)
            } else if command && is_single(&lower, ',') {
                Some(Message::ToggleConfigPanel)
            } else if command && is_single(&lower, '.') {
                Some(Message::ToggleAboutPanel)
            } else if command && is_single(&lower, 'u') {
                Some(Message::SwapPanels)
            } else if is_single(&lower, 'v') {
                Some(Message::ViewFile(active))
            } else if is_single(&lower, 'e') {
                Some(Message::EditFile(active))
            } else if is_single(&lower, 'c') {
                Some(Message::Copy(active))
            } else if is_single(&lower, 'r') {
                Some(Message::StartRename(active))
            } else if is_single(&lower, 'z') {
                Some(Message::Compress(active))
            } else if is_single(&lower, '+') {
                Some(Message::QuickCreateFolder(active))
            } else {
                None
            }
        },
        KeyInput::Unidentified => None,
    }
}


// ---------------------------------------------------------------------------
// The update step
// ---------------------------------------------------------------------------

impl FileCommander {
    /// `MoveSelection`: the side becomes active and its cursor moves by
    /// `delta` rows over the parent row (where the directory has one) and the
    /// entries the panel shows, in their shown order.
    pub open spec fn selection_moved(&self, side: Side, delta: i32, new: FileCommander) -> bool {
        let me = self.with_active(side);
        let p = self.panel_of(side);
        if p.entries@.len() < i32::MAX {
            exists|visible: Seq<usize>, has_parent: bool|
                #![trigger is_stable_sort(&p, p.filtered(), visible), moved_selection(p.selected, p.parent_selected, delta as int, visible, has_parent)]
                is_stable_sort(&p, p.filtered(), visible) && row_above(p.path@, has_parent) && new
                    == me.with_panel(
                    side,
                    PanelState {
                        selected: moved_selection(
                            p.selected,
                            p.parent_selected,
                            delta as int,
                            visible,
                            has_parent,
                        ).0,
                        parent_selected: moved_selection(
                            p.selected,
                            p.parent_selected,
                            delta as int,
                            visible,
                            has_parent,
                        ).1,
                        ..p
                    },
                )
        } else {
            new == me
        }
    }

    /// What `event` (other than a key press) does: the new state and the
    /// outside work requested.
    pub open spec fn applies(&self, event: Message, new: FileCommander, acts: Seq<Action>) -> bool {
        match event {
            Message::PanelLoaded { side, path, entries } => self.listing_applied(
                side,
                path,
                entries@,
                new,
                acts,
            ),
            Message::PanelLoadFailed { side, path, error } => self.load_failure_shown(
                side,
                path,
                error,
                new,
                acts,
            ),
            Message::SearchChanged(side, query) => new == self.with_panel(
                side,
                PanelState {
                    search: query,
                    selected: None,
                    parent_selected: false,
                    ..self.panel_of(side)
                },
            ).with_active(side) && acts.len() == 0,
            Message::PathChanged(side, value) => new == self.with_panel(
                side,
                PanelState { path_input: value, ..self.panel_of(side) },
            ).with_active(side) && acts.len() == 0,
            Message::PathSubmitted(side) => self.path_submitted(side, new, acts),
            Message::DirectoryChecked { side, path, is_dir } => self.directory_checked(
                side,
                path,
                is_dir,
                new,
                acts,
            ),
            Message::SelectEntry(side, index) => self.entry_clicked(side, index, new, acts),
            Message::SelectParent(side) => self.parent_clicked(side, new, acts),
            Message::ToggleSort(side, column) => new == self.with_active(side).with_panel(
                side,
                self.panel_of(side).sorted_on(column),
            ) && acts.len() == 0,
            Message::Refresh(side) => acts.len() == 1 && self.reloaded(side, new, acts[0]),
            Message::RefreshAll => {
                &&& new == self.loading(Side::Left).loading(Side::Right)
                &&& acts.len() == 2
                &&& acts[0] == Action::LoadPanel { side: Side::Left, path: self.left.path }
                &&& acts[1] == Action::LoadPanel { side: Side::Right, path: self.right.path }
            },
            Message::NavigateUp(side) => self.went_up(side, new, acts),
            Message::Copy(side) => self.transfer_requested(side, false, new, acts),
            Message::Move(side) => self.transfer_requested(side, true, new, acts),
            Message::Delete(side) => self.delete_requested(side, new, acts),
            Message::NewFolderNameChanged(side, value) => new == self.with_panel(
                side,
                PanelState { new_folder: value, ..self.panel_of(side) },
            ).with_active(side) && acts.len() == 0,
            Message::CreateFolder(side) => self.with_active(side).folder_requested(side, new, acts),
            Message::QuickCreateFolder(side) => self.with_active(side).quick_folder_requested(
                side,
                new,
                acts,
            ),
            Message::OperationFinished { kind, result } => self.operation_reported(
                kind,
                result,
                new,
                acts,
            ),
            Message::StartRename(side) => self.with_active(side).rename_started(side, new)
                && acts.len() == 0,
            Message::RenameInputChanged(side, value) => acts.len() == 0 && if self.panel_of(
                side,
            ).rename_target is Some {
                new == self.with_panel(side, PanelState { rename_input: value, ..self.panel_of(side) })
            } else {
                new == *self
            },
            Message::SubmitRename(side) => self.with_active(side).rename_requested(side, new, acts),
            Message::CancelRename(side) => new == self.with_panel(side, new.panel_of(side))
                && new.panel_of(side).after_clear_rename(self.panel_of(side)) && acts.len() == 0,
            Message::ViewFile(side) => self.with_active(side).view_requested(side, new, acts),
            Message::ViewerLoaded { path, result } => self.viewer_answered(path, result, new)
                && acts.len() == 0,
            Message::CloseViewer => new == FileCommander { viewer: None, ..*self } && acts.len() == 0,
            Message::EditFile(side) => self.with_active(side).edit_requested(side, new, acts),
            Message::ExternalOpened { name, result } => self.opening_reported(name, result, new)
                && acts.len() == 0,
            Message::Compress(side) => self.with_active(side).compress_requested(side, new, acts),
            Message::FocusPanel(side) => new == self.with_active(side) && acts.len() == 0,
            Message::SwapPanels => new == FileCommander {
                left: self.right,
                right: self.left,
                active: self.active.opposite(),
                ..*self
            } && acts.len() == 0,
            Message::ComputeHashes(side) => self.with_active(side).hashes_requested(side, new, acts),
            Message::HashesComputed { side, path, result } => self.hashes_reported(
                side,
                path,
                result,
                new,
            ) && acts.len() == 0,
            Message::ToggleTheme => new == FileCommander { theme: self.theme.switched(), ..*self }
                && acts.len() == 0,
            Message::ToggleConfigPanel => new == FileCommander {
                show_config: !self.show_config,
                show_about: if !self.show_config {
                    false
                } else {
                    self.show_about
                },
                ..*self
            } && acts.len() == 0,
            Message::ToggleAboutPanel => new == FileCommander {
                show_about: !self.show_about,
                show_config: if !self.show_about {
                    false
                } else {
                    self.show_config
                },
                ..*self
            } && acts.len() == 0,
            Message::MoveSelection { side, delta } => self.selection_moved(side, delta, new)
                && acts.len() == 0,
            Message::RegistrationCodeChanged(value) => {
                &&& new == FileCommander { ui_prefs: new.ui_prefs, ..*self }
                &&& new.ui_prefs.input_view() == value@
                &&& new.ui_prefs.name_view() == self.ui_prefs.name_view()
                &&& acts.len() == 0
            },
            Message::ApplyRegistration => self.registration_applied(new) && acts.len() == 0,
            Message::ClearRegistration => self.registration_cleared(new) && acts.len() == 0,
            Message::KeyboardShortcut { .. } => new == *self && acts.len() == 0,
        }
    }

    /// What any event does; a key press does what its shortcut stands for.
    pub open spec fn step(&self, event: Message, new: FileCommander, acts: Seq<Action>) -> bool {
        match event {
            Message::KeyboardShortcut { key, modifiers } => match shortcut_event(
                key,
                modifiers,
                self.active,
            ) {
                Some(mapped) => self.applies(mapped, new, acts),
                None => new == *self && acts.len() == 0,
            },
            _ => self.applies(event, new, acts),
        }
    }

    /// Makes `side` active and moves its cursor by `delta` rows.
    fn shift_selection(&mut self, side: Side, delta: i32)
        ensures
            old(self).selection_moved(side, delta, *final(self)),
    {
        self.active = side;
        if self.panel(side).entries.len() < 2147483647usize {
            let ghost before = self.panel_of(side);
            self.panel_mut(side).move_selection(delta);
            assert(self.panel_of(side) == PanelState {
                selected: self.panel_of(side).selected,
                parent_selected: self.panel_of(side).parent_selected,
                ..before
            });
        }
    }

    /// Applies an event that reads or edits a panel's path, listing or selection.
    fn apply_panel_event(&mut self, event: Message) -> (r: Vec<Action>)
        requires
            event is PanelLoaded || event is PanelLoadFailed || event is SearchChanged ||
                event is PathChanged || event is PathSubmitted || event is DirectoryChecked ||
                event is SelectEntry || event is SelectParent,
        ensures
            old(self).applies(event, *final(self), r@),
    {
        match event {
            Message::PanelLoaded { side, path, entries } => self.panel_loaded(side, path, entries),
            Message::PanelLoadFailed { side, path, error } => self.load_failed(side, path, error),
            Message::SearchChanged(side, query) => {
                let p = self.panel_mut(side);
                p.search = query;
                p.clear_selection();
                self.active = side;
                Vec::new()
            },
            Message::PathChanged(side, value) => {
                self.panel_mut(side).path_input = value;
                self.active = side;
                Vec::new()
            },
            Message::PathSubmitted(side) => self.submit_path(side),
            Message::DirectoryChecked { side, path, is_dir } => self.check_directory(
                side,
                path,
                is_dir,
            ),
            Message::SelectEntry(side, index) => self.select_entry(side, index),
            Message::SelectParent(side) => self.select_parent(side),
            _ => Vec::new(),
        }
    }

    /// Applies an event that reorders, reloads or moves through the panels.
    fn apply_listing_event(&mut self, event: Message) -> (r: Vec<Action>)
        requires
            event is ToggleSort || event is Refresh || event is RefreshAll ||
                event is NavigateUp || event is MoveSelection || event is FocusPanel ||
                event is SwapPanels,
        ensures
            old(self).applies(event, *final(self), r@),
    {
        match event {
            Message::ToggleSort(side, column) => {
                self.active = side;
                self.panel_mut(side).toggle_sort(column);
                Vec::new()
            },
            Message::Refresh(side) => {
                let a = self.reload_panel(side);
                vec![a]
            },
            Message::RefreshAll => {
                let a = self.reload_panel(Side::Left);
                let b = self.reload_panel(Side::Right);
                vec![a, b]
            },
            Message::NavigateUp(side) => self.go_up(side),
            Message::MoveSelection { side, delta } => {
                self.shift_selection(side, delta);
                Vec::new()
            },
            Message::FocusPanel(side) => {
                self.active = side;
                Vec::new()
            },
            Message::SwapPanels => {
                std::mem::swap(&mut self.left, &mut self.right);
                self.active = self.active.other();
                Vec::new()
            },
            _ => Vec::new(),
        }
    }

    /// Applies an event that starts or reports a file operation.
    fn apply_file_event(&mut self, event: Message) -> (r: Vec<Action>)
        requires
            event is Copy || event is Move || event is Delete ||
                event is NewFolderNameChanged || event is CreateFolder ||
                event is QuickCreateFolder || event is OperationFinished ||
                event is StartRename || event is RenameInputChanged || event is SubmitRename ||
                event is CancelRename,
        ensures
            old(self).applies(event, *final(self), r@),
    {
        match event {
            Message::Copy(side) => self.copy_from(side),
            Message::Move(side) => self.move_from(side),
            Message::Delete(side) => self.delete_from(side),
            Message::NewFolderNameChanged(side, value) => {
                self.panel_mut(side).new_folder = value;
                self.active = side;
                Vec::new()
            },
            Message::CreateFolder(side) => {
                self.active = side;
                self.create_folder(side)
            },
            Message::QuickCreateFolder(side) => {
                self.active = side;
                self.quick_create_folder(side)
            },
            Message::OperationFinished { kind, result } => self.operation_finished(kind, result),
            Message::StartRename(side) => {
                self.active = side;
                self.begin_rename(side);
                Vec::new()
            },
            Message::RenameInputChanged(side, value) => {
                let p = self.panel_mut(side);
                if p.rename_target.is_some() {
                    p.rename_input = value;
                }
                Vec::new()
            },
            Message::SubmitRename(side) => {
                self.active = side;
                self.rename_entry(side)
            },
            Message::CancelRename(side) => {
                self.panel_mut(side).clear_rename();
                Vec::new()
            },
            _ => Vec::new(),
        }
    }

    /// Applies an event that opens, packs or hashes an entry, or reports on that.
    fn apply_outside_event(&mut self, event: Message) -> (r: Vec<Action>)
        requires
            event is ViewFile || event is ViewerLoaded || event is CloseViewer ||
                event is EditFile || event is ExternalOpened || event is Compress ||
                event is ComputeHashes || event is HashesComputed,
        ensures
            old(self).applies(event, *final(self), r@),
    {
        match event {
            Message::ViewFile(side) => {
                self.active = side;
                self.open_viewer(side)
            },
            Message::ViewerLoaded { path, result } => {
                self.viewer_loaded(path, result);
                Vec::new()
            },
            Message::CloseViewer => {
                self.viewer = None;
                Vec::new()
            },
            Message::EditFile(side) => {
                self.active = side;
                self.launch_editor(side)
            },
            Message::ExternalOpened { name, result } => {
                self.external_opened(name, result);
                Vec::new()
            },
            Message::Compress(side) => {
                self.active = side;
                self.compress_from(side)
            },
            Message::ComputeHashes(side) => {
                self.active = side;
                self.compute_hashes(side)
            },
            Message::HashesComputed { side, path, result } => {
                self.hashes_computed(side, path, result);
                Vec::new()
            },
            _ => Vec::new(),
        }
    }

    /// Applies an event on the theme, the side panels or the registration.
    fn apply_settings_event(&mut self, event: Message) -> (r: Vec<Action>)
        requires
            event is ToggleTheme || event is ToggleConfigPanel || event is ToggleAboutPanel ||
                event is RegistrationCodeChanged || event is ApplyRegistration ||
                event is ClearRegistration || event is KeyboardShortcut,
        ensures
            old(self).applies(event, *final(self), r@),
    {
        match event {
            Message::ToggleTheme => {
                self.theme = self.theme.toggle();
                Vec::new()
            },
            Message::ToggleConfigPanel => {
                self.show_config = !self.show_config;
                if self.show_config {
                    self.show_about = false;
                }
                Vec::new()
            },
            Message::ToggleAboutPanel => {
                self.show_about = !self.show_about;
                if self.show_about {
                    self.show_config = false;
                }
                Vec::new()
            },
            Message::RegistrationCodeChanged(value) => {
                self.ui_prefs.set_registration_input(value);
                Vec::new()
            },
            Message::ApplyRegistration => {
                self.apply_registration();
                Vec::new()
            },
            Message::ClearRegistration => {
                self.clear_registration();
                Vec::new()
            },
            Message::KeyboardShortcut { .. } => Vec::new(),

            _ => Vec::new(),
        }
    }

    /// Applies an event other than a key press.
    fn apply(&mut self, event: Message) -> (r: Vec<Action>)
        ensures
            old(self).applies(event, *final(self), r@),
    {
        match event {
            Message::PanelLoaded { .. }
            | Message::PanelLoadFailed { .. }
            | Message::SearchChanged(..)
            | Message::PathChanged(..)
            | Message::PathSubmitted(..)
            | Message::DirectoryChecked { .. }
            | Message::SelectEntry(..)
            | Message::SelectParent(..) => self.apply_panel_event(event),
            Message::ToggleSort(..)
            | Message::Refresh(..)
            | Message::RefreshAll
            | Message::NavigateUp(..)
            | Message::MoveSelection { .. }
            | Message::FocusPanel(..)
            | Message::SwapPanels => self.apply_listing_event(event),
            Message::Copy(..)
            | Message::Move(..)
            | Message::Delete(..)
            | Message::NewFolderNameChanged(..)
            | Message::CreateFolder(..)
            | Message::QuickCreateFolder(..)
            | Message::OperationFinished { .. }
            | Message::StartRename(..)
            | Message::RenameInputChanged(..)
            | Message::SubmitRename(..)
            | Message::CancelRename(..) => self.apply_file_event(event),
            Message::ViewFile(..)
            | Message::ViewerLoaded { .. }
            | Message::CloseViewer
            | Message::EditFile(..)
            | Message::ExternalOpened { .. }
            | Message::Compress(..)
            | Message::ComputeHashes(..)
            | Message::HashesComputed { .. } => self.apply_outside_event(event),
            Message::ToggleTheme
            | Message::ToggleConfigPanel
            | Message::ToggleAboutPanel
            | Message::RegistrationCodeChanged(..)
            | Message::ApplyRegistration
            | Message::ClearRegistration
            | Message::KeyboardShortcut { .. } => self.apply_settings_event(event),
        }
    }

    /// Applies an event and returns the outside work it asks for.
    #[verifier::rlimit(40)]
    pub fn update(&mut self, event: Message) -> (r: Vec<Action>)
        ensures
            old(self).step(event, *final(self), r@),
    {
        match event {
            Message::KeyboardShortcut { key, modifiers } => {
                match shortcut_message(key, modifiers, self.active) {
                    Some(mapped) => self.apply(mapped),
                    None => Vec::new(),
                }
            },
            other => self.apply(other),
        }
    }
}

// ---------------------------------------------------------------------------
// Laws
// ---------------------------------------------------------------------------

/// Swapping the panels twice gives back the same state, and asks for no
/// outside work.
pub proof fn lemma_swap_twice(
    s: FileCommander,
    mid: FileCommander,
    fin: FileCommander,
    first: Seq<Action>,
    second: Seq<Action>,
)
    requires
        s.step(Message::SwapPanels, mid, first),
        mid.step(Message::SwapPanels, fin, second),
    ensures
        fin == s,
        first.len() == 0,
        second.len() == 0,
{
    lemma_side_opposite_twice(s.active);
}

/// Toggling the theme twice gives back the same state.
pub proof fn lemma_theme_twice(
    s: FileCommander,
    mid: FileCommander,
    fin: FileCommander,
    first: Seq<Action>,
    second: Seq<Action>,
)
    requires
        s.step(Message::ToggleTheme, mid, first),
        mid.step(Message::ToggleTheme, fin, second),
    ensures
        fin == s,
        first.len() == 0,
        second.len() == 0,
{
    lemma_theme_toggled_twice(s.theme);
}

/// The settings and the about panels are never shown together: no event
/// opens one while leaving the other open.
pub proof fn lemma_side_panels_exclusive(s: FileCommander, event: Message, new: FileCommander, acts: Seq<Action>)
    requires
        !(s.show_config && s.show_about),
        s.step(event, new, acts),
    ensures
        !(new.show_config && new.show_about),
{
    match event {
        Message::KeyboardShortcut { key, modifiers } => {
            if let Some(mapped) = shortcut_event(key, modifiers, s.active) {
                lemma_applies_keeps_panels_exclusive(s, mapped, new, acts);
            }
        },
        _ => lemma_applies_keeps_panels_exclusive(s, event, new, acts),
    }
}

/// One event other than a key press keeps the side panels exclusive.
#[verifier::spinoff_prover]
#[verifier::rlimit(40)]
proof fn lemma_applies_keeps_panels_exclusive(
    s: FileCommander,
    event: Message,
    new: FileCommander,
    acts: Seq<Action>,
)
    requires
        !(s.show_config && s.show_about),
        s.applies(event, new, acts),
    ensures
        !(new.show_config && new.show_about),
{
    match event {
        Message::PanelLoaded { .. } => {},
        Message::PanelLoadFailed { .. } => {},
        Message::SearchChanged(..) => {},
        Message::PathChanged(..) => {},
        Message::PathSubmitted(..) => {},
        Message::DirectoryChecked { .. } => {},
        Message::SelectEntry(..) => {},
        Message::SelectParent(..) => {},
        Message::ToggleSort(..) => {},
        Message::Refresh(..) => {},
        Message::RefreshAll => {},
        Message::NavigateUp(..) => {},
        Message::Copy(..) => {},
        Message::Move(..) => {},
        Message::Delete(..) => {},
        Message::NewFolderNameChanged(..) => {},
        Message::CreateFolder(..) => {},
        Message::QuickCreateFolder(..) => {},
        Message::OperationFinished { .. } => {},
        Message::StartRename(..) => {},
        Message::RenameInputChanged(..) => {},
        Message::SubmitRename(..) => {},
        Message::CancelRename(..) => {},
        Message::ViewFile(..) => {},
        Message::ViewerLoaded { .. } => {},
        Message::CloseViewer => {},
        Message::EditFile(..) => {},
        Message::ExternalOpened { .. } => {},
        Message::Compress(..) => {},
        Message::FocusPanel(..) => {},
        Message::SwapPanels => {},
        Message::ComputeHashes(..) => {},
        Message::HashesComputed { .. } => {},
        Message::ToggleTheme => {},
        Message::ToggleConfigPanel => {},
        Message::ToggleAboutPanel => {},
        Message::MoveSelection { .. } => {},
        Message::RegistrationCodeChanged(..) => {},
        Message::ApplyRegistration => {},
        Message::ClearRegistration => {},
        Message::KeyboardShortcut { .. } => {},
    }
}

impl FileCommander {
    /// Each panel's selection, when there is one, names one of its entries.
    pub open spec fn selections_in_range(&self) -> bool {
        self.left.selection_in_range() && self.right.selection_in_range()
    }
}

/// At start-up no selection points past the entries and at most one of
/// the side panels is shown.
pub proof fn lemma_boot_invariants(s: FileCommander, cwd: Seq<char>, strings: Strings)
    requires
        s.booted(cwd, strings),
    ensures
        s.selections_in_range(),
        !(s.show_config && s.show_about),
{
}

/// Every event keeps each panel's selection on one of its entries.
pub proof fn lemma_selection_stays_in_range(s: FileCommander, event: Message, new: FileCommander, acts: Seq<Action>)
    requires
        s.selections_in_range(),
        s.step(event, new, acts),
    ensures
        new.selections_in_range(),
{
    match event {
        Message::KeyboardShortcut { key, modifiers } => {
            if let Some(mapped) = shortcut_event(key, modifiers, s.active) {
                lemma_applies_keeps_selection_in_range(s, mapped, new, acts);
            }
        },
        _ => lemma_applies_keeps_selection_in_range(s, event, new, acts),
    }
}

/// One event other than a key press keeps the selections on entries.
#[verifier::spinoff_prover]
#[verifier::rlimit(40)]
proof fn lemma_applies_keeps_selection_in_range(
    s: FileCommander,
    event: Message,
    new: FileCommander,
    acts: Seq<Action>,
)
    requires
        s.selections_in_range(),
        s.applies(event, new, acts),
    ensures
        new.selections_in_range(),
{
    match event {
        Message::PanelLoaded { .. }
        | Message::PanelLoadFailed { .. }
        | Message::SearchChanged(..)
        | Message::PathChanged(..)
        | Message::PathSubmitted(..)
        | Message::DirectoryChecked { .. }
        | Message::SelectEntry(..)
        | Message::SelectParent(..) => lemma_panel_events_keep_selection(s, event, new, acts),
        Message::ToggleSort(..)
        | Message::Refresh(..)
        | Message::RefreshAll
        | Message::NavigateUp(..)
        | Message::FocusPanel(..)
        | Message::SwapPanels => lemma_listing_events_keep_selection(s, event, new, acts),
        Message::MoveSelection { .. } => lemma_cursor_move_keeps_selection(s, event, new, acts),
        Message::Copy(..)
        | Message::Move(..)
        | Message::Delete(..)
        | Message::NewFolderNameChanged(..)
        | Message::CreateFolder(..)
        | Message::QuickCreateFolder(..) => lemma_file_events_keep_selection(s, event, new, acts),
        Message::OperationFinished { .. } => lemma_finished_operation_keeps_selection(s, event, new, acts),
        Message::StartRename(..)
        | Message::RenameInputChanged(..)
        | Message::SubmitRename(..)
        | Message::CancelRename(..) => lemma_rename_events_keep_selection(s, event, new, acts),
        Message::ViewFile(..)
        | Message::ViewerLoaded { .. }
        | Message::CloseViewer
        | Message::EditFile(..)
        | Message::ExternalOpened { .. }
        | Message::Compress(..)
        | Message::ComputeHashes(..)
        | Message::HashesComputed { .. } => lemma_outside_events_keep_selection(s, event, new, acts),
        Message::ToggleTheme
        | Message::ToggleConfigPanel
        | Message::ToggleAboutPanel
        | Message::RegistrationCodeChanged(..)
        | Message::ApplyRegistration
        | Message::ClearRegistration
        | Message::KeyboardShortcut { .. } => lemma_settings_events_keep_selection(s, event, new, acts),
    }
}

/// A listing, a typed path or a click keeps the selections on entries.
#[verifier::spinoff_prover]
#[verifier::rlimit(40)]
proof fn lemma_panel_events_keep_selection(s: FileCommander, event: Message, new: FileCommander, acts: Seq<Action>)
    requires
        s.selections_in_range(),
        s.applies(event, new, acts),
        event is PanelLoaded || event is PanelLoadFailed || event is SearchChanged ||
            event is PathChanged || event is PathSubmitted || event is DirectoryChecked ||
            event is SelectEntry || event is SelectParent,
    ensures
        new.selections_in_range(),
{
    match event {
        Message::PanelLoaded { .. } => {},
        Message::PanelLoadFailed { .. } => {},
        Message::SearchChanged(..) => {},
        Message::PathChanged(..) => {},
        Message::PathSubmitted(..) => {},
        Message::DirectoryChecked { .. } => {},
        Message::SelectEntry(..) => {},
        Message::SelectParent(..) => {},
        _ => {},
    }
}

/// Sorting, reloading, moving and swapping keep the selections on entries.
#[verifier::spinoff_prover]
#[verifier::rlimit(40)]
proof fn lemma_listing_events_keep_selection(s: FileCommander, event: Message, new: FileCommander, acts: Seq<Action>)
    requires
        s.selections_in_range(),
        s.applies(event, new, acts),
        event is ToggleSort || event is Refresh || event is RefreshAll ||
            event is NavigateUp || event is FocusPanel ||
            event is SwapPanels,
    ensures
        new.selections_in_range(),
{
    match event {
        Message::ToggleSort(..) => {},
        Message::Refresh(..) => {},
        Message::RefreshAll => {},
        Message::NavigateUp(..) => {},
        Message::FocusPanel(..) => {},
        Message::SwapPanels => {},
        _ => {},
    }
}

/// Moving the cursor keeps the selections on entries.
#[verifier::spinoff_prover]
#[verifier::rlimit(40)]
proof fn lemma_cursor_move_keeps_selection(s: FileCommander, event: Message, new: FileCommander, acts: Seq<Action>)
    requires
        s.selections_in_range(),
        s.applies(event, new, acts),
        event is MoveSelection,
    ensures
        new.selections_in_range(),
{
    match event {
        Message::MoveSelection { side, delta } => {
            let p = s.panel_of(side);
            if p.entries@.len() < i32::MAX {
                let (visible, has_parent) = choose|visible: Seq<usize>, has_parent: bool|
                    #![trigger is_stable_sort(&p, p.filtered(), visible), moved_selection(p.selected, p.parent_selected, delta as int, visible, has_parent)]
                    is_stable_sort(&p, p.filtered(), visible) && row_above(p.path@, has_parent)
                        && new == s.with_active(side).with_panel(
                        side,
                        PanelState {
                            selected: moved_selection(
                                p.selected,
                                p.parent_selected,
                                delta as int,
                                visible,
                                has_parent,
                            ).0,
                            parent_selected: moved_selection(
                                p.selected,
                                p.parent_selected,
                                delta as int,
                                visible,
                                has_parent,
                            ).1,
                            ..p
                        },
                    );
                lemma_moved_selection_in_range(p, delta as int, visible, has_parent);
            }
        },
        _ => {},
    }
}

/// Starting a file operation keeps the selections on entries.
#[verifier::spinoff_prover]
#[verifier::rlimit(40)]
proof fn lemma_file_events_keep_selection(s: FileCommander, event: Message, new: FileCommander, acts: Seq<Action>)
    requires
        s.selections_in_range(),
        s.applies(event, new, acts),
        event is Copy || event is Move || event is Delete || event is NewFolderNameChanged ||
            event is CreateFolder || event is QuickCreateFolder,
    ensures
        new.selections_in_range(),
{
    match event {
        Message::Copy(..) => {},
        Message::Move(..) => {},
        Message::Delete(..) => {},
        Message::NewFolderNameChanged(..) => {},
        Message::CreateFolder(..) => {},
        Message::QuickCreateFolder(..) => {},
        _ => {},
    }
}

/// A finished operation keeps the selections on entries.
proof fn lemma_finished_operation_keeps_selection(s: FileCommander, event: Message, new: FileCommander, acts: Seq<Action>)
    requires
        s.selections_in_range(),
        s.applies(event, new, acts),
        event is OperationFinished,
    ensures
        new.selections_in_range(),
{
    match event {
        Message::OperationFinished { .. } => {},
        _ => {},
    }
}

/// Renaming keeps the selections on entries.
proof fn lemma_rename_events_keep_selection(s: FileCommander, event: Message, new: FileCommander, acts: Seq<Action>)
    requires
        s.selections_in_range(),
        s.applies(event, new, acts),
        event is StartRename || event is RenameInputChanged || event is SubmitRename ||
            event is CancelRename,
    ensures
        new.selections_in_range(),
{
    match event {
        Message::StartRename(..) => {},
        Message::RenameInputChanged(..) => {},
        Message::SubmitRename(..) => {},
        Message::CancelRename(..) => {},
        _ => {},
    }
}

/// Viewing, opening, packing and hashing keep the selections on entries.
proof fn lemma_outside_events_keep_selection(s: FileCommander, event: Message, new: FileCommander, acts: Seq<Action>)
    requires
        s.selections_in_range(),
        s.applies(event, new, acts),
        event is ViewFile || event is ViewerLoaded || event is CloseViewer ||
            event is EditFile || event is ExternalOpened || event is Compress ||
            event is ComputeHashes || event is HashesComputed,
    ensures
        new.selections_in_range(),
{
    match event {
        Message::ViewFile(..) => {},
        Message::ViewerLoaded { .. } => {},
        Message::CloseViewer => {},
        Message::EditFile(..) => {},
        Message::ExternalOpened { .. } => {},
        Message::Compress(..) => {},
        Message::ComputeHashes(..) => {},
        Message::HashesComputed { .. } => {},
        _ => {},
    }
}

/// Settings and registration keep the selections on entries.
proof fn lemma_settings_events_keep_selection(s: FileCommander, event: Message, new: FileCommander, acts: Seq<Action>)
    requires
        s.selections_in_range(),
        s.applies(event, new, acts),
        event is ToggleTheme || event is ToggleConfigPanel || event is ToggleAboutPanel ||
            event is RegistrationCodeChanged || event is ApplyRegistration ||
            event is ClearRegistration || event is KeyboardShortcut,
    ensures
        new.selections_in_range(),
{
    match event {
        Message::ToggleTheme => {},
        Message::ToggleConfigPanel => {},
        Message::ToggleAboutPanel => {},
        Message::RegistrationCodeChanged(..) => {},
        Message::ApplyRegistration => {},
        Message::ClearRegistration => {},
        Message::KeyboardShortcut { .. } => {},
        _ => {},
    }
}

/// Whether `event` is, or is a key press that stands for, a toggle of the
/// settings or the about panel.
pub open spec fn toggles_side_panel(s: FileCommander, event: Message) -> bool {
    let effective = match event {
        Message::KeyboardShortcut { key, modifiers } => shortcut_event(key, modifiers, s.active),
        _ => Some(event),
    };
    effective matches Some(m) && (m is ToggleConfigPanel || m is ToggleAboutPanel)
}

/// Every event other than the two side-panel toggles leaves the settings
/// and the about panels shown or hidden as they were.
pub proof fn lemma_side_panels_kept(s: FileCommander, event: Message, new: FileCommander, acts: Seq<Action>)
    requires
        s.step(event, new, acts),
        !toggles_side_panel(s, event),
    ensures
        new.show_config == s.show_config,
        new.show_about == s.show_about,
{
    match event {
        Message::KeyboardShortcut { key, modifiers } => {
            if let Some(mapped) = shortcut_event(key, modifiers, s.active) {
                lemma_applies_keeps_side_panels(s, mapped, new, acts);
            }
        },
        _ => lemma_applies_keeps_side_panels(s, event, new, acts),
    }
}

/// One event other than a key press or a side-panel toggle keeps both side
/// panels as they were.
#[verifier::spinoff_prover]
#[verifier::rlimit(40)]
proof fn lemma_applies_keeps_side_panels(s: FileCommander, event: Message, new: FileCommander, acts: Seq<Action>)
    requires
        s.applies(event, new, acts),
        !(event is ToggleConfigPanel || event is ToggleAboutPanel),
    ensures
        new.show_config == s.show_config,
        new.show_about == s.show_about,
{
    match event {
        Message::PanelLoaded { .. }
        | Message::PanelLoadFailed { .. }
        | Message::SearchChanged(..)
        | Message::PathChanged(..)
        | Message::PathSubmitted(..)
        | Message::DirectoryChecked { .. }
        | Message::SelectEntry(..)
        | Message::SelectParent(..) => lemma_panel_events_keep_side_panels(s, event, new, acts),
        Message::ToggleSort(..)
        | Message::Refresh(..)
        | Message::RefreshAll
        | Message::NavigateUp(..)
        | Message::MoveSelection { .. }
        | Message::FocusPanel(..)
        | Message::SwapPanels => lemma_listing_events_keep_side_panels(s, event, new, acts),
        Message::Copy(..)
        | Message::Move(..)
        | Message::Delete(..)
        | Message::NewFolderNameChanged(..)
        | Message::CreateFolder(..)
        | Message::QuickCreateFolder(..) => lemma_file_events_keep_side_panels(s, event, new, acts),
        Message::OperationFinished { .. } => lemma_finished_operation_keeps_side_panels(s, event, new, acts),
        Message::StartRename(..)
        | Message::RenameInputChanged(..)
        | Message::SubmitRename(..)
        | Message::CancelRename(..) => lemma_rename_events_keep_side_panels(s, event, new, acts),
        Message::ViewFile(..)
        | Message::ViewerLoaded { .. }
        | Message::CloseViewer
        | Message::EditFile(..)
        | Message::ExternalOpened { .. }
        | Message::Compress(..)
        | Message::ComputeHashes(..)
        | Message::HashesComputed { .. } => lemma_outside_events_keep_side_panels(s, event, new, acts),
        Message::ToggleTheme
        | Message::RegistrationCodeChanged(..)
        | Message::ApplyRegistration
        | Message::ClearRegistration
        | Message::KeyboardShortcut { .. } => lemma_settings_events_keep_side_panels(s, event, new, acts),
        _ => {},
    }
}

proof fn lemma_panel_events_keep_side_panels(s: FileCommander, event: Message, new: FileCommander, acts: Seq<Action>)
    requires
        s.applies(event, new, acts),
        event is PanelLoaded || event is PanelLoadFailed || event is SearchChanged ||
            event is PathChanged || event is PathSubmitted || event is DirectoryChecked ||
            event is SelectEntry || event is SelectParent,
    ensures
        new.show_config == s.show_config,
        new.show_about == s.show_about,
{
    match event {
        Message::PanelLoaded { .. } => {},
        Message::PanelLoadFailed { .. } => {},
        Message::SearchChanged(..) => {},
        Message::PathChanged(..) => {},
        Message::PathSubmitted(..) => {},
        Message::DirectoryChecked { .. } => {},
        Message::SelectEntry(..) => {},
        Message::SelectParent(..) => {},
        _ => {},
    }
}

proof fn lemma_listing_events_keep_side_panels(s: FileCommander, event: Message, new: FileCommander, acts: Seq<Action>)
    requires
        s.applies(event, new, acts),
        event is ToggleSort || event is Refresh || event is RefreshAll ||
            event is NavigateUp || event is MoveSelection || event is FocusPanel ||
            event is SwapPanels,
    ensures
        new.show_config == s.show_config,
        new.show_about == s.show_about,
{
    match event {
        Message::ToggleSort(..) => {},
        Message::Refresh(..) => {},
        Message::RefreshAll => {},
        Message::NavigateUp(..) => {},
        Message::MoveSelection { .. } => {},
        Message::FocusPanel(..) => {},
        Message::SwapPanels => {},
        _ => {},
    }
}

proof fn lemma_file_events_keep_side_panels(s: FileCommander, event: Message, new: FileCommander, acts: Seq<Action>)
    requires
        s.applies(event, new, acts),
        event is Copy || event is Move || event is Delete || event is NewFolderNameChanged ||
            event is CreateFolder || event is QuickCreateFolder,
    ensures
        new.show_config == s.show_config,
        new.show_about == s.show_about,
{
    match event {
        Message::Copy(..) => {},
        Message::Move(..) => {},
        Message::Delete(..) => {},
        Message::NewFolderNameChanged(..) => {},
        Message::CreateFolder(..) => {},
        Message::QuickCreateFolder(..) => {},
        _ => {},
    }
}

proof fn lemma_finished_operation_keeps_side_panels(s: FileCommander, event: Message, new: FileCommander, acts: Seq<Action>)
    requires
        s.applies(event, new, acts),
        event is OperationFinished,
    ensures
        new.show_config == s.show_config,
        new.show_about == s.show_about,
{
    match event {
        Message::OperationFinished { .. } => {},
        _ => {},
    }
}

proof fn lemma_rename_events_keep_side_panels(s: FileCommander, event: Message, new: FileCommander, acts: Seq<Action>)
    requires
        s.applies(event, new, acts),
        event is StartRename || event is RenameInputChanged || event is SubmitRename ||
            event is CancelRename,
    ensures
        new.show_config == s.show_config,
        new.show_about == s.show_about,
{
    match event {
        Message::StartRename(..) => {},
        Message::RenameInputChanged(..) => {},
        Message::SubmitRename(..) => {},
        Message::CancelRename(..) => {},
        _ => {},
    }
}

proof fn lemma_outside_events_keep_side_panels(s: FileCommander, event: Message, new: FileCommander, acts: Seq<Action>)
    requires
        s.applies(event, new, acts),
        event is ViewFile || event is ViewerLoaded || event is CloseViewer ||
            event is EditFile || event is ExternalOpened || event is Compress ||
            event is ComputeHashes || event is HashesComputed,
    ensures
        new.show_config == s.show_config,
        new.show_about == s.show_about,
{
    match event {
        Message::ViewFile(..) => {},
        Message::ViewerLoaded { .. } => {},
        Message::CloseViewer => {},
        Message::EditFile(..) => {},
        Message::ExternalOpened { .. } => {},
        Message::Compress(..) => {},
        Message::ComputeHashes(..) => {},
        Message::HashesComputed { .. } => {},
        _ => {},
    }
}

proof fn lemma_settings_events_keep_side_panels(s: FileCommander, event: Message, new: FileCommander, acts: Seq<Action>)
    requires
        s.applies(event, new, acts),
        event is ToggleTheme || event is RegistrationCodeChanged ||
            event is ApplyRegistration || event is ClearRegistration ||
            event is KeyboardShortcut,
    ensures
        new.show_config == s.show_config,
        new.show_about == s.show_about,
{
    match event {
        Message::ToggleTheme => {},
        Message::RegistrationCodeChanged(..) => {},
        Message::ApplyRegistration => {},
        Message::ClearRegistration => {},
        Message::KeyboardShortcut { .. } => {},
        _ => {},
    }
}

/// The function keys name the same events as the letter keys, on the
/// active panel and whatever modifiers are held: F3 views like `v`, F4
/// edits like `e`, F5 copies like `c`, F8 deletes like Delete, and F6 moves
/// (unlike F5, which leaves the entry in place).
pub proof fn lemma_function_keys_match_letters(m: KeyModifiers, side: Side, v: String, e: String, c: String)
    requires
        unicode_lowercase(v@) == seq!['v'],
        unicode_lowercase(e@) == seq!['e'],
        unicode_lowercase(c@) == seq!['c'],
    ensures
        shortcut_event(KeyInput::Named(NamedKey::F3), m, side) == shortcut_event(KeyInput::Character(v), m, side),
        shortcut_event(KeyInput::Named(NamedKey::F4), m, side) == shortcut_event(KeyInput::Character(e), m, side),
        shortcut_event(KeyInput::Named(NamedKey::F5), m, side) == shortcut_event(KeyInput::Character(c), m, side),
        shortcut_event(KeyInput::Named(NamedKey::F8), m, side) == shortcut_event(KeyInput::Named(NamedKey::Delete), m, side),
        shortcut_event(KeyInput::Named(NamedKey::F5), m, side) == Some(Message::Copy(side)),
        shortcut_event(KeyInput::Named(NamedKey::F6), m, side) == Some(Message::Move(side)),
{
    assert(unicode_lowercase(v@)[0] == 'v');
    assert(unicode_lowercase(e@)[0] == 'e');
    assert(unicode_lowercase(c@)[0] == 'c');
}

/// Pressing F5 does exactly what a Copy request on the active panel does,
/// and F6 what a Move request does.
pub proof fn lemma_copy_and_move_keys(s: FileCommander, m: KeyModifiers, new: FileCommander, acts: Seq<Action>)
    ensures
        s.step(Message::KeyboardShortcut { key: KeyInput::Named(NamedKey::F5), modifiers: m }, new, acts)
            == s.step(Message::Copy(s.active), new, acts),
        s.step(Message::KeyboardShortcut { key: KeyInput::Named(NamedKey::F6), modifiers: m }, new, acts)
            == s.step(Message::Move(s.active), new, acts),
{
}

/// Move and Copy send the selected entry to the directory of the other
/// panel, never to the entry's own: on one state both requests name that
/// destination, and nothing is asked when nothing is selected.
pub proof fn lemma_move_and_copy_reach_other_panel(
    s: FileCommander,
    side: Side,
    moved: FileCommander,
    move_acts: Seq<Action>,
    copied: FileCommander,
    copy_acts: Seq<Action>,
)
    requires
        s.step(Message::Move(side), moved, move_acts),
        s.step(Message::Copy(side), copied, copy_acts),
    ensures
        s.selection(side) is None ==> move_acts.len() == 0 && copy_acts.len() == 0,
        s.selection(side) is Some ==> {
            &&& move_acts.len() == 1 && copy_acts.len() == 1
            &&& move_acts[0] matches Action::MoveEntry { from, to, src, dest_dir } && from == side
                && to == side.opposite() && dest_dir == s.panel_of(side.opposite()).path
                && s.selected_path(side, src@)
            &&& copy_acts[0] matches Action::CopyEntry { from, to, src, dest_dir } && from == side
                && to == side.opposite() && dest_dir == s.panel_of(side.opposite()).path
                && s.selected_path(side, src@)
        },
{
}

/// The named keys, whatever modifiers are held: Escape closes the viewer,
/// Tab focuses the other panel, the arrows move the cursor of the active
/// panel one row up and down, F2 refreshes and F7 creates a folder there,
/// and Delete and F8 delete its selection.
pub proof fn lemma_named_keys(m: KeyModifiers, side: Side)
    ensures
        shortcut_event(KeyInput::Named(NamedKey::Escape), m, side) == Some(Message::CloseViewer),
        shortcut_event(KeyInput::Named(NamedKey::Tab), m, side) == Some(
            Message::FocusPanel(side.opposite()),
        ),
        shortcut_event(KeyInput::Named(NamedKey::ArrowUp), m, side) == Some(
            Message::MoveSelection { side, delta: -1i32 },
        ),
        shortcut_event(KeyInput::Named(NamedKey::ArrowDown), m, side) == Some(
            Message::MoveSelection { side, delta: 1i32 },
        ),
        shortcut_event(KeyInput::Named(NamedKey::F2), m, side) == Some(Message::Refresh(side)),
        shortcut_event(KeyInput::Named(NamedKey::F7), m, side) == Some(Message::CreateFolder(side)),
        shortcut_event(KeyInput::Named(NamedKey::Delete), m, side) == Some(Message::Delete(side)),
        shortcut_event(KeyInput::Named(NamedKey::Other), m, side) is None,
        shortcut_event(KeyInput::Unidentified, m, side) is None,
{
}

/// `r` renames the selection, with or without Control, unless Shift is
/// held with Control or Command, which refreshes both panels.
pub proof fn lemma_r_key(m: KeyModifiers, side: Side, r: String)
    requires
        unicode_lowercase(r@) == seq!['r'],
    ensures
        shortcut_event(KeyInput::Character(r), m, side) == if (m.control || m.command) && m.shift {
            Some(Message::RefreshAll)
        } else {
            Some(Message::StartRename(side))
        },
{
    assert(unicode_lowercase(r@)[0] == 'r');
}

} // verus!
