use file_commander::model::{
    describe_attributes, human_size, is_hidden, kb_label, local_time_in_range, split_nanos, BannerMessage,
    BannerSeverity, DirEntryView, PanelState, PanelStatus, Side, SortColumn, SortOrder, Strings,
    ThemeMode,
};
use file_commander::Entry;

fn panel_strings() -> Strings {
    Strings {
        dir_label: "<DIR>".to_string(),
        size_unit_kb: "KB".to_string(),
        status_items: "{total} items".to_string(),
        status_selected: "{total} items, selected: {name}".to_string(),
        status_loading: "Loading...".to_string(),
        status_error_prefix: "Error".to_string(),
        new_folder_suggestion: "New Folder".to_string(),
        title_base: "f".to_string(),
        badge_registered: "(registered)".to_string(),
        badge_open_source: "(open source)".to_string(),
    }
}

fn view(name: &str, is_dir: bool, size: Option<u64>, modified: Option<i128>) -> DirEntryView {
    DirEntryView::from_entry(Entry { name: name.to_string(), is_dir, size, modified }, false, false)
}

fn panel(path: &str, entries: Vec<DirEntryView>) -> PanelState {
    let mut p = PanelState::new(path.to_string());
    p.entries = entries;
    p
}

fn visible_names(p: &PanelState) -> Vec<String> {
    p.visible_indexes().iter().map(|&i| p.entries[i].name.clone()).collect()
}

#[test]
fn side_toggles_and_themes() {
    assert_eq!(Side::Left.other(), Side::Right);
    assert_eq!(Side::Right.other().other(), Side::Right);
    assert!(matches!(SortOrder::Ascending.toggled(), SortOrder::Descending));
    assert!(matches!(SortOrder::Descending.toggled().toggled(), SortOrder::Descending));
    assert_eq!(ThemeMode::Light.toggle(), ThemeMode::Dark);
    assert_eq!(ThemeMode::Dark.toggle().toggle(), ThemeMode::Dark);
}

#[test]
fn banners_keep_their_text() {
    let i = BannerMessage::info("done".to_string());
    assert_eq!(i.severity, BannerSeverity::Info);
    assert_eq!(i.text, "done");
    let e = BannerMessage::error("failed".to_string());
    assert_eq!(e.severity, BannerSeverity::Error);
    assert_eq!(e.text, "failed");
}

#[test]
fn entry_labels() {
    let f = view("report.final.txt", false, Some(2048), None);
    assert_eq!(f.name_label(), "report.final");
    assert_eq!(f.extension_label(), "txt");
    assert_eq!(f.display_name(), "report.final");
    assert_eq!(f.attributes_label(), "-");
    let d = view("src", true, None, None);
    assert_eq!(d.display_name(), "[src]");
    assert_eq!(d.extension_label(), "");
    assert_eq!(d.attributes_label(), "D");
    let dot = view(".bashrc", false, Some(1), None);
    assert_eq!(dot.name_label(), ".bashrc");
    assert_eq!(dot.extension_label(), "");
}

#[test]
fn attribute_flags() {
    assert_eq!(describe_attributes(false, false, false), "-");
    assert_eq!(describe_attributes(true, false, false), "D");
    assert_eq!(describe_attributes(false, true, false), "R");
    assert_eq!(describe_attributes(false, false, true), "H");
    assert_eq!(describe_attributes(true, true, true), "DRH");
    assert!(is_hidden(".git"));
    assert!(!is_hidden("git"));
    let v = DirEntryView::from_entry(
        Entry { name: ".cache".to_string(), is_dir: true, size: None, modified: None },
        true,
        is_hidden(".cache"),
    );
    assert_eq!(v.attributes_label(), "DRH");
}

#[test]
fn size_in_kilobytes() {
    let s = panel_strings();
    assert_eq!(view("a", false, Some(1536), None).size_kb_label(&s), "1.5 KB");
    assert_eq!(view("a", false, Some(0), None).size_kb_label(&s), "0.0 KB");
    assert_eq!(view("a", false, Some(1000), None).size_kb_label(&s), "1.0 KB");
    assert_eq!(view("a", false, None, None).size_kb_label(&s), "-");
    assert_eq!(view("d", true, Some(10), None).size_kb_label(&s), "<DIR>");
}

#[test]
fn kilobytes_round_like_float_formatting() {
    // ties go to the even tenth, as `{:.1}` does
    assert_eq!(kb_label(256), "0.2");
    assert_eq!(kb_label(768), "0.8");
    assert_eq!(kb_label(u64::MAX), "18014398509481984.0");
    let mut samples: Vec<u64> = (0..5000u64).collect();
    samples.extend([
        (1u64 << 53) - 1,
        1u64 << 53,
        (1u64 << 53) + 1,
        (1u64 << 53) + 3,
        (1u64 << 60) + 12345,
        u64::MAX - 1,
        u64::MAX,
        1_000_000_007,
        123_456_789_012_345,
    ]);
    let mut x: u64 = 0x9E37_79B9_7F4A_7C15;
    for _ in 0..5000 {
        x ^= x << 13;
        x ^= x >> 7;
        x ^= x << 17;
        samples.push(x >> (x % 60));
    }
    for b in samples {
        assert_eq!(kb_label(b), format!("{:.1}", b as f64 / 1024.0), "bytes {b}");
    }
}

fn float_human_size(size: u64) -> String {
    let units = ["B", "KB", "MB", "GB", "TB"];
    let mut value = size as f64;
    let mut unit = 0;
    while value >= 1024.0 && unit < units.len() - 1 {
        value /= 1024.0;
        unit += 1;
    }
    if unit == 0 {
        format!("{value:.0} {}", units[unit])
    } else {
        format!("{value:.1} {}", units[unit])
    }
}

#[test]
fn human_sizes() {
    assert_eq!(human_size(0), "0 B");
    assert_eq!(human_size(1023), "1023 B");
    assert_eq!(human_size(1024), "1.0 KB");
    assert_eq!(human_size(1536), "1.5 KB");
    assert_eq!(human_size(5 * 1024 * 1024), "5.0 MB");
    assert_eq!(human_size(3 * (1u64 << 30) / 2), "1.5 GB");
    assert_eq!(human_size(1u64 << 40), "1.0 TB");
    assert_eq!(human_size(u64::MAX), "16777216.0 TB");
    let mut x: u64 = 0x2545_F491_4F6C_DD1D;
    for i in 0..20000u64 {
        x ^= x << 13;
        x ^= x >> 7;
        x ^= x << 17;
        let b = if i < 2000 { i * 517 } else { x >> (x % 64) };
        assert_eq!(human_size(b), float_human_size(b), "bytes {b}");
    }
    assert_eq!(view("d", true, Some(5), None).size_label(), "-");
    assert_eq!(view("f", false, None, None).size_label(), "-");
    assert_eq!(view("f", false, Some(2048), None).size_label(), "2.0 KB");
}

#[test]
fn utc_labels() {
    assert_eq!(view("f", false, None, None).rfc3339_label(), "-");
    assert_eq!(view("f", false, None, Some(0)).rfc3339_label(), "1970-01-01T00:00:00Z");
    assert_eq!(
        view("f", false, None, Some(1_518_568_087_000_000_000)).rfc3339_label(),
        "2018-02-14T00:28:07Z"
    );
    assert_eq!(
        view("f", false, None, Some(1_518_568_087_123_456_789)).rfc3339_label(),
        "2018-02-14T00:28:07.123456789Z"
    );
}

#[test]
fn local_time_labels() {
    assert_eq!(view("f", false, None, None).modified_label(), "-");
    let shown = view("f", false, None, Some(1_700_000_000_000_000_000)).modified_label();
    let expected = chrono::DateTime::from_timestamp(1_700_000_000, 0)
        .unwrap()
        .with_timezone(&chrono::Local)
        .format("%y-%m-%d %H:%M")
        .to_string();
    assert_eq!(shown, expected);
    // the local time lies less than a day from UTC ("23-11-14 22:13")
    assert!(shown.starts_with("23-11-1"));
    assert_eq!(shown.len(), "23-11-14 22:13".len());
    assert_eq!(split_nanos(-1), (-1, 999_999_999));
    // the seconds chrono can represent, and no more
    assert!(chrono::DateTime::from_timestamp(-8_334_601_228_800, 0).is_some());
    assert!(chrono::DateTime::from_timestamp(-8_334_601_228_801, 0).is_none());
    assert!(chrono::DateTime::from_timestamp(8_210_266_876_799, 999_999_999).is_some());
    assert!(chrono::DateTime::from_timestamp(8_210_266_876_800, 0).is_none());
    assert!(local_time_in_range(-8_334_601_228_800_000_000_000));
    assert!(!local_time_in_range(-8_334_601_228_800_000_000_001));
    assert!(local_time_in_range(8_210_266_876_799_999_999_999));
    assert!(!local_time_in_range(8_210_266_876_800_000_000_000));
    let early = view("f", false, None, Some(-8_334_601_228_800_000_000_000)).modified_label();
    assert_eq!(early.len(), 14);
    assert_eq!(split_nanos(1_500_000_000), (1, 500_000_000));
}

#[test]
fn new_panel_and_paths() {
    let mut p = PanelState::new("/home".to_string());
    assert_eq!(p.path, "/home");
    assert_eq!(p.path_input, "/home");
    assert!(matches!(p.status, PanelStatus::Ready));
    assert!(p.can_go_up());
    p.search = "x".to_string();
    p.selected = Some(1);
    p.set_path("/".to_string());
    assert_eq!(p.path, "/");
    assert_eq!(p.path_input, "/");
    assert_eq!(p.search, "");
    assert_eq!(p.selected, None);
    assert!(matches!(p.status, PanelStatus::Loading));
    assert!(!p.can_go_up());
}

#[test]
fn search_filters_case_insensitively() {
    let mut p = panel("/", vec![view("Alpha.txt", false, None, None), view("beta", false, None, None), view("ALPINE", true, None, None)]);
    assert_eq!(p.filtered_indexes(), vec![0, 1, 2]);
    p.search = "aLp".to_string();
    assert_eq!(p.filtered_indexes(), vec![0, 2]);
    assert_eq!(visible_names(&p), vec!["ALPINE", "Alpha.txt"]);
    // the search text is matched as typed, spaces included
    p.search = " alp".to_string();
    assert_eq!(p.filtered_indexes(), Vec::<usize>::new());
    p.search = "   ".to_string();
    assert_eq!(p.filtered_indexes(), vec![0, 1, 2]);
}

#[test]
fn sorting_by_columns() {
    let mut p = panel(
        "/",
        vec![
            view("b.txt", false, Some(300), Some(30)),
            view("a.log", false, Some(100), Some(10)),
            view("zdir", true, None, None),
            view("c.md", false, Some(200), None),
        ],
    );
    assert_eq!(visible_names(&p), vec!["zdir", "a.log", "b.txt", "c.md"]);
    p.toggle_sort(SortColumn::Name);
    assert!(matches!(p.sort_order, SortOrder::Descending));
    assert_eq!(visible_names(&p), vec!["zdir", "c.md", "b.txt", "a.log"]);
    p.toggle_sort(SortColumn::Size);
    assert!(matches!(p.sort_column, SortColumn::Size));
    assert!(matches!(p.sort_order, SortOrder::Ascending));
    assert_eq!(visible_names(&p), vec!["zdir", "a.log", "c.md", "b.txt"]);
    p.toggle_sort(SortColumn::Size);
    assert_eq!(visible_names(&p), vec!["zdir", "b.txt", "c.md", "a.log"]);
    p.toggle_sort(SortColumn::Date);
    assert_eq!(visible_names(&p), vec!["zdir", "c.md", "a.log", "b.txt"]);
}

#[test]
fn moving_the_cursor() {
    let mut p = panel("/home", vec![view("b", false, None, None), view("a", false, None, None)]);
    // rows: parent, a (1), b (0)
    p.move_selection(1);
    assert_eq!((p.selected, p.parent_selected), (None, true));
    p.move_selection(1);
    assert_eq!((p.selected, p.parent_selected), (Some(1), false));
    p.move_selection(5);
    assert_eq!((p.selected, p.parent_selected), (Some(0), false));
    p.move_selection(-1);
    assert_eq!((p.selected, p.parent_selected), (Some(1), false));
    p.move_selection(-10);
    assert_eq!((p.selected, p.parent_selected), (None, true));
    p.clear_selection();
    p.move_selection(-1);
    assert_eq!((p.selected, p.parent_selected), (Some(0), false));

    let mut root = panel("/", vec![]);
    root.move_selection(1);
    assert_eq!((root.selected, root.parent_selected), (None, false));
}

#[test]
fn status_lines() {
    let s = panel_strings();
    let mut p = panel("/", vec![view("a", false, None, None), view("b", false, None, None)]);
    assert_eq!(p.status_message(&s), "2 items");
    p.selected = Some(1);
    assert_eq!(p.status_message(&s), "2 items, selected: b");
    p.status = PanelStatus::Loading;
    assert_eq!(p.status_message(&s), "Loading...");
    p.status = PanelStatus::Busy("Copying...".to_string());
    assert_eq!(p.status_message(&s), "Copying...");
    p.status = PanelStatus::Error("denied".to_string());
    assert_eq!(p.status_message(&s), "Error: denied");
    let selected = p.selected_entry().map(|e| e.entry_name().to_string());
    assert_eq!(selected, Some("b".to_string()));
    p.selected = Some(7);
    assert!(p.selected_entry().is_none());
}

#[test]
fn folder_name_suggestions() {
    let p = panel("/", vec![view("New Folder", true, None, None), view("New Folder (2)", true, None, None)]);
    assert_eq!(p.suggest_new_folder_name("New Folder"), "New Folder (3)");
    assert_eq!(p.suggest_new_folder_name("Other"), "Other");
    let mut many = Vec::new();
    many.push(view("x", true, None, None));
    for i in 2..1000 {
        many.push(view(&format!("x ({i})"), true, None, None));
    }
    let full = panel("/", many);
    assert_eq!(full.suggest_new_folder_name("x"), "x (1000)");
}

#[test]
fn clearing_a_rename() {
    let mut p = panel("/", vec![view("a", false, None, None)]);
    p.rename_target = Some(0);
    p.rename_input = "b".to_string();
    p.clear_rename();
    assert_eq!(p.rename_target, None);
    assert_eq!(p.rename_input, "");
}

#[test]
fn a_trailing_slash_keeps_the_parent_row() {
    assert!(PanelState::new("/home/".to_string()).can_go_up());
    assert!(PanelState::new("docs/".to_string()).can_go_up());
    assert!(!PanelState::new("".to_string()).can_go_up());
}

#[test]
fn name_and_extension_columns_give_the_name_back() {
    let colon = view("notes:v2.txt", false, None, None);
    assert_eq!(colon.name_label(), "notes:v2");
    assert_eq!(colon.extension_label(), "txt");
    let trailing = view("draft.", false, None, None);
    assert_eq!(format!("{}.{}", trailing.name_label(), trailing.extension_label()), "draft.");
    let plain = view("README", false, None, None);
    assert_eq!(plain.name_label(), "README");
    assert_eq!(plain.extension_label(), "");
    let dir = view("archive.d", true, None, None);
    assert_eq!(dir.name_label(), "archive.d");
    assert_eq!(dir.extension_label(), "");
}
