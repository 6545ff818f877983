use base64::engine::general_purpose::URL_SAFE_NO_PAD;
use base64::Engine;
use file_commander::commander::{
    resolve_path, resolve_with, shortcut_message, Action, Message, FileCommander, KeyInput, KeyModifiers,
    ListedEntry, NamedKey, OperationKind, UiPreferences,
};
use file_commander::hash::{bytes_to_hex, compute};
use file_commander::model::{
    BannerSeverity, PanelStatus, Side, SortColumn, SortOrder, Strings, ThemeMode, ViewerState,
};
use file_commander::registration::{proof_for, CODE_PREFIX};
use file_commander::Entry;

fn strings() -> Strings {
    Strings {
        dir_label: "<DIR>".to_string(),
        size_unit_kb: "KB".to_string(),
        status_items: "{total} items".to_string(),
        status_selected: "{total} items, selected: {name}".to_string(),
        status_loading: "Loading...".to_string(),
        status_error_prefix: "Error".to_string(),
        new_folder_suggestion: "New Folder".to_string(),
        title_base: "f".to_string(),
        badge_registered: "(registered)".to_string(),
        badge_open_source: "(open source)".to_string(),
    }
}

fn listed(name: &str, is_dir: bool) -> ListedEntry {
    ListedEntry {
        entry: Entry { name: name.to_string(), is_dir, size: Some(10), modified: None },
        readonly: false,
        hidden: false,
    }
}

fn no_mods() -> KeyModifiers {
    KeyModifiers { control: false, command: false, shift: false }
}

fn ctrl() -> KeyModifiers {
    KeyModifiers { control: true, command: false, shift: false }
}

/// A commander on `/home` (left) and `/tmp` (right) with listings loaded.
fn loaded() -> FileCommander {
    let (mut fc, _) = FileCommander::boot("/home".to_string(), strings());
    fc.right.path = "/tmp".to_string();
    fc.update(Message::PanelLoaded {
        side: Side::Left,
        path: "/home".to_string(),
        entries: vec![listed("notes.txt", false), listed("docs", true)],
    });
    fc.update(Message::PanelLoaded { side: Side::Right, path: "/tmp".to_string(), entries: vec![] });
    fc
}

fn banner(fc: &FileCommander) -> (BannerSeverity, String) {
    let b = fc.banner.as_ref().expect("a banner");
    (b.severity, b.text.clone())
}

#[test]
fn boot_loads_both_panels() {
    let (fc, acts) = FileCommander::boot("/work".to_string(), strings());
    assert_eq!(fc.left.path, "/work");
    assert_eq!(fc.right.path, "/work");
    assert_eq!(fc.right.path_input, "/work");
    assert!(matches!(fc.left.status, PanelStatus::Loading));
    assert_eq!(fc.active, Side::Left);
    assert_eq!(fc.theme, ThemeMode::Light);
    assert!(!fc.show_config && !fc.show_about);
    assert_eq!(acts.len(), 2);
    assert!(matches!(&acts[0], Action::LoadPanel { side: Side::Left, path } if path == "/work"));
    assert!(matches!(&acts[1], Action::LoadPanel { side: Side::Right, path } if path == "/work"));
    assert_eq!(fc.window_title(), "f (open source)");
}

#[test]
fn listings_fill_the_panel_and_stale_ones_are_ignored() {
    let mut fc = loaded();
    assert_eq!(fc.left.entries.len(), 2);
    assert!(matches!(fc.left.status, PanelStatus::Ready));
    assert_eq!(fc.left.entries[1].display_name(), "[docs]");
    let acts = fc.update(Message::PanelLoaded {
        side: Side::Left,
        path: "/elsewhere".to_string(),
        entries: vec![],
    });
    assert!(acts.is_empty());
    assert_eq!(fc.left.entries.len(), 2);
    fc.update(Message::PanelLoadFailed {
        side: Side::Right,
        path: "/tmp".to_string(),
        error: "denied".to_string(),
    });
    assert!(matches!(&fc.right.status, PanelStatus::Error(e) if e == "denied"));
    assert_eq!(banner(&fc), (BannerSeverity::Error, "Right load failed: denied".to_string()));
}

#[test]
fn copying_the_selection_to_the_other_panel() {
    let mut fc = loaded();
    assert!(fc.update(Message::Copy(Side::Left)).is_empty());
    fc.update(Message::SelectEntry(Side::Left, 0));
    assert_eq!(fc.left.selected, Some(0));
    let acts = fc.update(Message::Copy(Side::Left));
    assert_eq!(acts.len(), 1);
    match &acts[0] {
        Action::CopyEntry { from, to, src, dest_dir } => {
            assert_eq!(*from, Side::Left);
            assert_eq!(*to, Side::Right);
            assert_eq!(src, "/home/notes.txt");
            assert_eq!(dest_dir, "/tmp");
        },
        other => panic!("unexpected {other:?}"),
    }
    assert!(matches!(&fc.left.status, PanelStatus::Busy(t) if t == "Copying..."));
    let acts = fc.update(Message::OperationFinished {
        kind: OperationKind::Copy { from: Side::Left, to: Side::Right },
        result: Ok(()),
    });
    assert_eq!(acts.len(), 2);
    assert_eq!(banner(&fc), (BannerSeverity::Info, "Copy completed".to_string()));
    let acts = fc.update(Message::OperationFinished {
        kind: OperationKind::Delete { side: Side::Left },
        result: Err("busy".to_string()),
    });
    assert!(acts.is_empty());
    assert_eq!(banner(&fc), (BannerSeverity::Error, "busy".to_string()));
}

#[test]
fn shortcuts_act_on_the_active_panel() {
    let mut fc = loaded();
    fc.update(Message::SelectEntry(Side::Left, 0));
    let acts = fc.update(Message::KeyboardShortcut { key: KeyInput::Named(NamedKey::F8), modifiers: no_mods() });
    assert!(matches!(&acts[0], Action::DeleteEntry { side: Side::Left, target } if target == "/home/notes.txt"));
    assert!(matches!(
        shortcut_message(KeyInput::Named(NamedKey::Tab), no_mods(), Side::Left),
        Some(Message::FocusPanel(Side::Right))
    ));
    assert!(matches!(
        shortcut_message(KeyInput::Character("H".to_string()), ctrl(), Side::Right),
        Some(Message::ComputeHashes(Side::Right))
    ));
    assert!(matches!(
        shortcut_message(KeyInput::Character("r".to_string()), KeyModifiers { control: true, command: false, shift: true }, Side::Left),
        Some(Message::RefreshAll)
    ));
    assert!(matches!(
        shortcut_message(KeyInput::Character("r".to_string()), ctrl(), Side::Left),
        Some(Message::StartRename(Side::Left))
    ));
    assert!(matches!(
        shortcut_message(KeyInput::Character("c".to_string()), ctrl(), Side::Left),
        Some(Message::Copy(Side::Left))
    ));
    assert!(shortcut_message(KeyInput::Character("x".to_string()), no_mods(), Side::Left).is_none());
    assert!(shortcut_message(KeyInput::Unidentified, no_mods(), Side::Left).is_none());
    assert!(matches!(
        shortcut_message(KeyInput::Named(NamedKey::ArrowUp), no_mods(), Side::Right),
        Some(Message::MoveSelection { side: Side::Right, delta: -1 })
    ));
}

#[test]
fn entering_and_leaving_directories() {
    let mut fc = loaded();
    // entries are shown with the directory first; clicking twice enters it
    fc.update(Message::SelectEntry(Side::Left, 1));
    let acts = fc.update(Message::SelectEntry(Side::Left, 1));
    assert!(matches!(&acts[0], Action::LoadPanel { side: Side::Left, path } if path == "/home/docs"));
    assert_eq!(fc.left.path, "/home/docs");
    assert!(matches!(fc.left.status, PanelStatus::Loading));
    let acts = fc.update(Message::NavigateUp(Side::Left));
    assert!(matches!(&acts[0], Action::LoadPanel { side: Side::Left, path } if path == "/home"));
    assert_eq!(fc.left.path, "/home");
}

#[test]
fn typed_paths_are_checked_first() {
    let mut fc = loaded();
    fc.update(Message::PathChanged(Side::Right, "  sub ".to_string()));
    let acts = fc.update(Message::PathSubmitted(Side::Right));
    assert!(matches!(&acts[0], Action::CheckDirectory { side: Side::Right, path } if path == "/tmp/sub"));
    let acts = fc.update(Message::DirectoryChecked { side: Side::Right, path: "/tmp/sub".to_string(), is_dir: true });
    assert!(matches!(&acts[0], Action::LoadPanel { side: Side::Right, path } if path == "/tmp/sub"));
    fc.update(Message::PathChanged(Side::Right, "   ".to_string()));
    assert!(fc.update(Message::PathSubmitted(Side::Right)).is_empty());
    assert!(matches!(&fc.right.status, PanelStatus::Error(e) if e == "Invalid path"));
    assert_eq!(resolve_path("/a", "/b"), Some("/b".to_string()));
    assert_eq!(resolve_path("/a", " b "), Some("/a/b".to_string()));
    assert_eq!(resolve_path("/a", "  "), None);
}

#[test]
fn folders_and_renames() {
    let mut fc = loaded();
    assert!(fc.update(Message::CreateFolder(Side::Left)).is_empty());
    assert_eq!(banner(&fc), (BannerSeverity::Error, "Enter a folder name".to_string()));
    fc.update(Message::NewFolderNameChanged(Side::Left, " pics ".to_string()));
    let acts = fc.update(Message::CreateFolder(Side::Left));
    assert!(matches!(&acts[0], Action::CreateDirectory { side: Side::Left, target } if target == "/home/pics"));
    assert_eq!(fc.left.new_folder, "");
    let acts = fc.update(Message::QuickCreateFolder(Side::Right));
    assert!(matches!(&acts[0], Action::CreateDirectory { side: Side::Right, target } if target == "/tmp/New Folder"));

    fc.update(Message::SelectEntry(Side::Left, 0));
    fc.update(Message::StartRename(Side::Left));
    assert_eq!(fc.left.rename_target, Some(0));
    assert_eq!(fc.left.rename_input, "notes.txt");
    fc.update(Message::RenameInputChanged(Side::Left, "todo.txt".to_string()));
    let acts = fc.update(Message::SubmitRename(Side::Left));
    assert!(matches!(
        &acts[0],
        Action::RenamePath { side: Side::Left, src, new_name } if src == "/home/notes.txt" && new_name == "todo.txt"
    ));
    fc.update(Message::CancelRename(Side::Left));
    assert_eq!(fc.left.rename_target, None);
}

#[test]
fn viewing_hashing_and_compressing() {
    let mut fc = loaded();
    assert!(fc.update(Message::ViewFile(Side::Left)).is_empty());
    assert_eq!(banner(&fc), (BannerSeverity::Error, "Select a file to view".to_string()));
    fc.update(Message::SelectEntry(Side::Left, 1));
    assert!(fc.update(Message::ViewFile(Side::Left)).is_empty());
    assert_eq!(banner(&fc), (BannerSeverity::Error, "Cannot view a directory".to_string()));
    fc.update(Message::SelectEntry(Side::Left, 0));
    let acts = fc.update(Message::ViewFile(Side::Left));
    assert!(matches!(&acts[0], Action::ReadTextFile { path } if path == "/home/notes.txt"));
    fc.update(Message::ViewerLoaded { path: "/home/notes.txt".to_string(), result: Ok("hi".to_string()) });
    assert!(matches!(&fc.viewer, Some(ViewerState::Ready { content, .. }) if content == "hi"));
    fc.update(Message::CloseViewer);
    assert!(fc.viewer.is_none());

    let acts = fc.update(Message::ComputeHashes(Side::Left));
    assert!(matches!(&acts[0], Action::ComputeHashes { side: Side::Left, path } if path == "/home/notes.txt"));
    let h = compute(b"hi");
    let report = h.to_report("/home/notes.txt");
    fc.update(Message::HashesComputed { side: Side::Left, path: "/home/notes.txt".to_string(), result: Ok(h) });
    assert!(matches!(&fc.viewer, Some(ViewerState::Ready { content, .. }) if *content == report));
    assert_eq!(banner(&fc), (BannerSeverity::Info, "Hash calculation complete".to_string()));

    let acts = fc.update(Message::Compress(Side::Left));
    assert!(matches!(&acts[0], Action::CompressPath { side: Side::Left, src } if src == "/home/notes.txt"));
    fc.update(Message::OperationFinished {
        kind: OperationKind::Compress { side: Side::Left, dest: "/home/notes.zip".to_string() },
        result: Ok(()),
    });
    assert_eq!(banner(&fc), (BannerSeverity::Info, "Created archive /home/notes.zip".to_string()));

    let acts = fc.update(Message::EditFile(Side::Left));
    assert!(matches!(&acts[0], Action::OpenExternal { name, .. } if name == "notes.txt"));
    fc.update(Message::ExternalOpened { name: "notes.txt".to_string(), result: Ok(()) });
    assert_eq!(banner(&fc), (BannerSeverity::Info, "Opened notes.txt".to_string()));
}

#[test]
fn swapping_and_toggling_twice_restores() {
    let mut fc = loaded();
    fc.update(Message::SwapPanels);
    assert_eq!(fc.left.path, "/tmp");
    assert_eq!(fc.active, Side::Right);
    fc.update(Message::SwapPanels);
    assert_eq!(fc.left.path, "/home");
    assert_eq!(fc.active, Side::Left);
    fc.update(Message::ToggleTheme);
    assert_eq!(fc.theme, ThemeMode::Dark);
    fc.update(Message::ToggleTheme);
    assert_eq!(fc.theme, ThemeMode::Light);
    fc.update(Message::ToggleConfigPanel);
    assert!(fc.show_config && !fc.show_about);
    fc.update(Message::ToggleAboutPanel);
    assert!(fc.show_about && !fc.show_config);
    fc.update(Message::ToggleSort(Side::Right, SortColumn::Size));
    assert_eq!(fc.active, Side::Right);
    assert!(matches!(fc.right.sort_order, SortOrder::Ascending));
    fc.update(Message::ToggleSort(Side::Right, SortColumn::Size));
    assert!(matches!(fc.right.sort_order, SortOrder::Descending));
}

#[test]
fn moving_the_cursor_with_keys() {
    let mut fc = loaded();
    let down = || Message::KeyboardShortcut { key: KeyInput::Named(NamedKey::ArrowDown), modifiers: no_mods() };
    fc.update(down());
    assert!(fc.left.parent_selected);
    fc.update(down());
    assert_eq!(fc.left.selected, Some(1));
    fc.update(down());
    assert_eq!(fc.left.selected, Some(0));
}

#[test]
fn registering_with_a_code() {
    let mut fc = loaded();
    let name = "Ada";
    let body = format!("{name}|{}", bytes_to_hex(&proof_for(name)));
    let code = format!("{CODE_PREFIX}-{}", URL_SAFE_NO_PAD.encode(body));
    fc.update(Message::ApplyRegistration);
    assert_eq!(banner(&fc), (BannerSeverity::Error, "Enter a registration code".to_string()));
    fc.update(Message::RegistrationCodeChanged("FREG1-AAAA".to_string()));
    fc.update(Message::ApplyRegistration);
    assert_eq!(banner(&fc).0, BannerSeverity::Error);
    assert!(banner(&fc).1.starts_with("Registration failed: "));
    fc.update(Message::RegistrationCodeChanged(format!(" {code} ")));
    fc.update(Message::ApplyRegistration);
    assert_eq!(banner(&fc), (BannerSeverity::Info, "Registered to Ada".to_string()));
    assert_eq!(fc.ui_prefs.registration_name(), Some("Ada"));
    assert_eq!(fc.ui_prefs.registration_input(), "");
    assert_eq!(fc.window_title(), "f (registered)");
    fc.update(Message::ClearRegistration);
    assert!(!fc.ui_prefs.is_registered());
    assert_eq!(banner(&fc), (BannerSeverity::Info, "Registration cleared".to_string()));
}

#[test]
fn preferences_start_unregistered() {
    let mut p = UiPreferences::new();
    assert!(!p.is_registered());
    assert_eq!(p.registration_input(), "");
    p.set_registration_input("x".to_string());
    p.set_registration_name("Zed".to_string());
    assert_eq!(p.registration_name(), Some("Zed"));
    assert_eq!(p.registration_input(), "x");
    p.clear_registration();
    assert_eq!(p.registration_name(), None);
}

#[test]
fn a_new_listing_drops_the_selection() {
    let mut fc = loaded();
    fc.update(Message::SelectEntry(Side::Left, 1));
    assert_eq!(fc.left.selected, Some(1));
    fc.update(Message::PanelLoaded {
        side: Side::Left,
        path: "/home".to_string(),
        entries: vec![listed("only.txt", false)],
    });
    assert_eq!(fc.left.selected, None);
    assert!(fc.left.selected_entry().is_none());
    // a click past the entries changes nothing
    assert!(fc.update(Message::SelectEntry(Side::Left, 5)).is_empty());
    assert_eq!(fc.left.selected, None);
}

#[test]
fn typed_paths_given_whether_they_are_absolute() {
    assert_eq!(resolve_with("/home/u", "  docs ", false), Some("/home/u/docs".to_string()));
    assert_eq!(resolve_with("/home/u", " /etc ", true), Some("/etc".to_string()));
    assert_eq!(resolve_with("/home/u", "   ", true), None);
    assert_eq!(resolve_with("", "docs", false), Some("docs".to_string()));
    assert_eq!(resolve_with("/", "docs", false), Some("/docs".to_string()));
}

#[test]
fn only_the_toggles_change_the_side_panels() {
    let mut fc = loaded();
    fc.update(Message::ToggleConfigPanel);
    for event in [Message::ToggleTheme, Message::RefreshAll, Message::SwapPanels, Message::CloseViewer] {
        fc.update(event);
        assert!(fc.show_config && !fc.show_about);
    }
    fc.update(Message::KeyboardShortcut {
        key: KeyInput::Character(".".to_string()),
        modifiers: ctrl(),
    });
    assert!(!fc.show_config && fc.show_about);
}

#[test]
fn relative_paths_with_separators_are_joined_once() {
    assert_eq!(resolve_path("/home/u", " docs/sub "), Some("/home/u/docs/sub".to_string()));
    assert_eq!(resolve_with("/home/u", "a:b", false), Some("/home/u/a:b".to_string()));
    assert_eq!(resolve_with(".", "notes", false), Some("./notes".to_string()));
}

#[test]
fn going_up_from_a_path_with_a_trailing_slash() {
    let mut fc = loaded();
    fc.update(Message::PathChanged(Side::Left, "/home/docs/".to_string()));
    fc.update(Message::DirectoryChecked { side: Side::Left, path: "/home/docs/".to_string(), is_dir: true });
    assert_eq!(fc.left.path, "/home/docs/");
    assert!(fc.left.can_go_up());
    let acts = fc.update(Message::NavigateUp(Side::Left));
    assert!(matches!(&acts[0], Action::LoadPanel { side: Side::Left, path } if path == "/home"));
    assert_eq!(fc.left.path, "/home");
}

#[test]
fn a_panel_path_with_a_trailing_slash_gets_no_second_separator() {
    let (mut fc, _) = FileCommander::boot("/home/".to_string(), strings());
    fc.update(Message::PanelLoaded {
        side: Side::Left,
        path: "/home/".to_string(),
        entries: vec![listed("notes.txt", false)],
    });
    fc.update(Message::SelectEntry(Side::Left, 0));
    let acts = fc.update(Message::Delete(Side::Left));
    assert!(matches!(&acts[0], Action::DeleteEntry { side: Side::Left, target } if target == "/home/notes.txt"));
}

#[test]
fn listings_are_matched_as_paths() {
    let mut fc = loaded();
    fc.update(Message::PanelLoaded {
        side: Side::Right,
        path: "/tmp/".to_string(),
        entries: vec![listed("a.txt", false)],
    });
    assert_eq!(fc.right.entries.len(), 1);
    fc.update(Message::PanelLoaded {
        side: Side::Right,
        path: "/tmpx".to_string(),
        entries: vec![listed("b.txt", false), listed("c.txt", false)],
    });
    assert_eq!(fc.right.entries.len(), 1);
}

#[test]
fn rooted_typed_paths_replace_the_current_directory() {
    assert_eq!(resolve_with("/home/u", " /etc ", false), Some("/etc".to_string()));
    assert_eq!(resolve_path("/home/u", "/etc"), Some("/etc".to_string()));
    let mut fc = loaded();
    fc.update(Message::PathChanged(Side::Left, " /etc ".to_string()));
    let acts = fc.update(Message::PathSubmitted(Side::Left));
    assert!(matches!(&acts[0], Action::CheckDirectory { side: Side::Left, path } if path == "/etc"));
}
