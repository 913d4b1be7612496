use baelyks_shell::freedesktop::{
    icon_path_candidate, image_from_data, replace, same_app_id, tmp_png_path, tmp_png_path_for,
};
use baelyks_shell::launcher::{
    desktop_entry_matcher_column, desktop_entry_search_text, display_name, file_icon_name,
    icon_name_for_mime, is_hidden, join_spaced, launch_command, mime_icon_name, results_to_send,
    select_down, select_up, SearchWorker, MAX_RESULTS,
};
use baelyks_shell::logging::{LevelFilter, Logger, PACKAGE_NAME, PACKAGE_VERSION};
use baelyks_shell::selection::{select, KeyPress, Modifiers, NavKey, RowSelection};

fn press(key: NavKey, modifiers: Modifiers) -> Option<KeyPress> {
    Some(KeyPress { key, modifiers })
}

#[test]
fn selection_scrolls_down_to_show_the_selected_row() {
    let state = RowSelection { first: 0, last: 4, selected: 4 };
    let r = select(state, press(NavKey::ArrowDown, Modifiers::Empty), 10, 5, Some(4));
    assert_eq!(r, Some((RowSelection { first: 2, last: 7, selected: 5 }, Some(5))));
}

#[test]
fn selection_moves_up_and_stops_at_the_top() {
    let state = RowSelection { first: 0, last: 4, selected: 1 };
    let r = select(state, press(NavKey::ArrowUp, Modifiers::Empty), 10, 5, Some(4));
    assert_eq!(r, Some((RowSelection { first: 0, last: 4, selected: 0 }, Some(0))));
    let top = RowSelection { first: 0, last: 4, selected: 0 };
    let r = select(top, press(NavKey::Tab, Modifiers::ShiftOnly), 10, 5, Some(4));
    assert_eq!(r, Some((RowSelection { first: 0, last: 4, selected: 0 }, None)));
}

#[test]
fn selection_stays_within_the_list() {
    let state = RowSelection { first: 0, last: 2, selected: 2 };
    let r = select(state, press(NavKey::Tab, Modifiers::Empty), 3, 5, Some(2));
    assert_eq!(r, Some((RowSelection { first: 0, last: 2, selected: 2 }, None)));
    let r = select(state, press(NavKey::Tab, Modifiers::Other), 3, 5, Some(2));
    assert_eq!(r, Some((RowSelection { first: 0, last: 2, selected: 2 }, None)));
}

#[test]
fn selection_first_event_reports_the_top_row() {
    let r = select(RowSelection::default(), None, 4, 3, Some(2));
    assert_eq!(r, Some((RowSelection { first: 0, last: 2, selected: 0 }, Some(0))));
}

#[test]
fn selection_without_rows_laid_out_does_nothing() {
    let state = RowSelection { first: 0, last: 4, selected: 4 };
    assert_eq!(select(state, press(NavKey::ArrowDown, Modifiers::Empty), 10, 5, None), None);
}

#[test]
fn launcher_texts() {
    assert_eq!(desktop_entry_search_text("Firefox", "Browse", "Web Browser"), "Firefox Browse Web Browser");
    assert_eq!(
        desktop_entry_matcher_column("Firefox", "Browse", "Web Browser", "firefox %u"),
        "Firefox Browse Web Browser firefox %u"
    );
    assert_eq!(join_spaced(&vec![]), "");
    assert_eq!(join_spaced(&vec!["a"]), "a");
    assert_eq!(join_spaced(&vec!["a", "", "b"]), "a  b");
}

#[test]
fn launcher_icons_from_mime_types() {
    assert_eq!(mime_icon_name("image/png"), "image-png");
    assert_eq!(icon_name_for_mime(Some("text/plain")), "text-plain");
    assert_eq!(icon_name_for_mime(None), "application-blank");
    assert_eq!(file_icon_name("/home/user/picture.png"), "image-png");
    assert_eq!(file_icon_name("/home/user/no-extension"), "application-blank");
}

#[test]
fn launcher_hidden_files() {
    assert!(is_hidden(Some(".config")));
    assert!(!is_hidden(Some("config")));
    assert!(!is_hidden(Some("")));
    assert!(!is_hidden(None));
}

#[test]
fn launcher_commands_and_names() {
    assert_eq!(launch_command(true), ("wezterm", "-e"));
    assert_eq!(launch_command(false), ("sh", "-c"));
    assert_eq!(display_name(Some("Files".to_string()), Some("File Manager".to_string())), "Files");
    assert_eq!(display_name(None, Some("File Manager".to_string())), "File Manager");
    assert_eq!(display_name(None, None), "");
}

#[test]
fn launcher_result_navigation() {
    assert_eq!(select_up(0), 0);
    assert_eq!(select_up(3), 2);
    assert_eq!(select_down(0, 5), 1);
    assert_eq!(select_down(5, 5), 5);
    assert_eq!(results_to_send(3), 3);
    assert_eq!(results_to_send(500), MAX_RESULTS);
    assert_eq!(MAX_RESULTS, 20);
}

#[test]
fn launcher_search_worker_waits_for_a_pattern() {
    let mut worker = SearchWorker::new();
    assert!(!worker.on_notified());
    worker.on_pattern();
    assert!(worker.on_notified());
}

#[test]
fn logger_builder() {
    let logger = Logger::default();
    assert_eq!(logger.name, PACKAGE_NAME);
    assert_eq!(logger.version, PACKAGE_VERSION);
    assert_eq!(logger.level, LevelFilter::Info);
    assert!(logger.only_baelyks);
    let logger = Logger::with_name("notifications")
        .version("2.0.0")
        .level(LevelFilter::Trace)
        .only_baelyks(false);
    assert_eq!(logger.name, "notifications");
    assert_eq!(logger.version, "2.0.0");
    assert_eq!(logger.level, LevelFilter::Trace);
    assert!(!logger.only_baelyks);
    assert_eq!(logger.name("bar").name, "bar");
}

#[test]
fn logger_filters_dependency_records() {
    let own = Logger::default();
    assert!(own.accepts_target("baelyks_shell::notifications::dbus"));
    assert!(!own.accepts_target("zbus::connection"));
    assert_eq!(own.dependency_logs(), "off");
    let all = Logger::default().only_baelyks(false);
    assert!(all.accepts_target("zbus::connection"));
    assert_eq!(all.dependency_logs(), "on");
}

#[test]
fn icon_paths_from_file_urls() {
    assert_eq!(icon_path_candidate("file:///usr/share/icons/a.png"), "/usr/share/icons/a.png");
    assert_eq!(icon_path_candidate("firefox"), "firefox");
    assert_eq!(replace("aXbXc", "X", "--"), "a--b--c");
    assert_eq!(replace("aaa", "aa", "b"), "ba");
}

#[test]
fn desktop_entries_match_ignoring_case() {
    assert!(same_app_id("Firefox", "firefox"));
    assert!(same_app_id("org.gnome.Nautilus", "ORG.GNOME.NAUTILUS"));
    assert!(!same_app_id("firefox", "firefox-esr"));
}

#[test]
fn temporary_image_paths() {
    let a = tmp_png_path();
    let b = tmp_png_path();
    for path in [&a, &b] {
        assert_eq!(path.len(), "/tmp/".len() + 8 + ".png".len());
        assert!(path.starts_with("/tmp/") && path.ends_with(".png"));
        assert!(path[5..13].chars().all(|c| c.is_ascii_alphanumeric()));
    }
    assert_ne!(a, b);
}

#[test]
fn temporary_image_path_for_a_name() {
    assert_eq!(tmp_png_path_for("a1B2c3D4"), "/tmp/a1B2c3D4.png");
}

#[test]
fn images_from_raw_data() {
    let rgba = image_from_data(2, 3, true, vec![0; 24]).expect("enough bytes");
    assert_eq!((rgba.width(), rgba.height()), (2, 3));
    assert!(image_from_data(2, 3, true, vec![0; 23]).is_none());
    assert!(image_from_data(2, 3, false, vec![0; 18]).is_some());
    assert!(image_from_data(2, 3, false, vec![0; 17]).is_none());
    assert!(image_from_data(0, 0, false, vec![]).is_some());
    assert!(image_from_data(u32::MAX, u32::MAX, true, vec![0; 8]).is_none());
}
