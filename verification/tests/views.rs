use baelyks_shell::appearance::{
    charge_label, desktop_entry_comment, dir_entry_prefix, is_svg, notification_border,
    row_colors, rows_to_lay_out, volume_label, window_height, workspace_button_colors, ButtonColors,
    PaletteColor, RowColors,
};
use baelyks_shell::bar::{BarAction, BarMessage, BarState, TrayMessage, VolumeChange};
use baelyks_shell::battery::{BatteryInfo, BatteryMessage};
use baelyks_shell::clock::{clock_format, clock_text};
use baelyks_shell::launcher::{
    LauncherAction, LauncherMessage, LauncherState, SearchMessage, Searcher,
};
use baelyks_shell::notification::Urgency;
use baelyks_shell::sway::{InputInfo, SwayMessage, SwayMessenger, SwayTask, WorkspaceInfo};
use baelyks_shell::tray::{tray_title, TrayItem, TrayItems, TrayStatus};
use baelyks_shell::volume::VolumeInfo;

fn workspace(urgent: bool, focused: bool, visible: bool, nonempty: bool) -> WorkspaceInfo {
    WorkspaceInfo { num: 1, visible, focused, urgent, nonempty }
}

fn item(title: &str) -> TrayItem {
    TrayItem { title: title.to_string(), status: TrayStatus::Active, icon: "/icons/x.svg".to_string() }
}

#[test]
fn workspace_button_colours() {
    assert_eq!(
        workspace_button_colors(&workspace(true, true, true, true)),
        ButtonColors { background: Some(PaletteColor::Danger), border: PaletteColor::Danger }
    );
    assert_eq!(
        workspace_button_colors(&workspace(false, true, true, true)),
        ButtonColors { background: Some(PaletteColor::Primary), border: PaletteColor::Primary }
    );
    assert_eq!(
        workspace_button_colors(&workspace(false, false, true, true)),
        ButtonColors { background: Some(PaletteColor::Text), border: PaletteColor::Primary }
    );
    assert_eq!(
        workspace_button_colors(&workspace(false, false, false, false)),
        ButtonColors { background: None, border: PaletteColor::Text }
    );
}

#[test]
fn notification_borders() {
    assert_eq!(notification_border(Urgency::Critical), PaletteColor::Danger);
    assert_eq!(notification_border(Urgency::Normal), PaletteColor::Text);
    assert_eq!(notification_border(Urgency::Low), PaletteColor::Text);
}

#[test]
fn indicator_labels() {
    assert_eq!(charge_label(87), "87%");
    assert_eq!(charge_label(100), "100%");
    assert_eq!(volume_label(5), "  5%");
    assert_eq!(volume_label(45), " 45%");
    assert_eq!(volume_label(100), "100%");
    assert_eq!(volume_label(1234), "1234%");
    assert_eq!(volume_label(45), format!("{:>3}%", 45));
}

#[test]
fn vector_icons() {
    assert!(is_svg("/usr/share/icons/a.svg"));
    assert!(!is_svg("/usr/share/icons/a.png"));
    assert!(!is_svg("/usr/share/icons/svg"));
    assert!(!is_svg("/usr/share/icons/.svg"));
    assert!(!is_svg("/usr/share/icons/a.SVG"));
}

#[test]
fn launcher_row_texts() {
    assert_eq!(desktop_entry_comment(Some("Browse the web")), Some(" (Browse the web)".to_string()));
    assert_eq!(desktop_entry_comment(None), None);
    assert_eq!(dir_entry_prefix(Some("/home/user")), "/home/user/");
    assert_eq!(dir_entry_prefix(None), "/");
}

#[test]
fn launcher_rows_and_colours() {
    assert_eq!(rows_to_lay_out(10, 0), 10);
    assert_eq!(rows_to_lay_out(100, 0), 25);
    assert_eq!(rows_to_lay_out(100, 30), 55);
    assert_eq!(
        row_colors(3, 3),
        RowColors {
            text: Some(PaletteColor::Background),
            background: Some(PaletteColor::Text),
            icon: Some(PaletteColor::Background),
        }
    );
    assert_eq!(row_colors(2, 3), RowColors { text: None, background: None, icon: None });
}

#[test]
fn clock_formats() {
    assert_eq!(clock_format(true), "%c");
    assert_eq!(clock_format(false), "%H:%M");
    assert_eq!(clock_text(0, 0, false), "00:00");
    assert_eq!(clock_text(0, 0, true), "Thu Jan  1 00:00:00 1970");
    assert_eq!(clock_text(90 * 60 * 1_000_000_000, 3600, false), "02:30");
    assert_eq!(clock_text(0, -3600, true), "Wed Dec 31 23:00:00 1969");
    let text = clock_text(0, 0, false);
    assert_eq!(text.len(), "HH:MM".len());
    assert!(text.chars().enumerate().all(|(i, c)| if i == 2 { c == ':' } else { c.is_ascii_digit() }));
    let full: Vec<char> = clock_text(0, 0, true).chars().collect();
    assert_eq!(full.len(), "Sun Jul  8 00:34:60 2001".len());
    assert!(full[0..3].iter().all(|c| c.is_ascii_alphabetic()));
    assert!(full[4..7].iter().all(|c| c.is_ascii_alphabetic()));
    assert_eq!((full[3], full[7], full[10], full[13], full[16], full[19]), (' ', ' ', ' ', ':', ':', ' '));
    assert!(full[20..24].iter().all(|c| c.is_ascii_digit()));
}

#[test]
fn bar_answers_messages() {
    let mut bar = BarState::new();
    assert_eq!(bar.update(BarMessage::Tick), BarAction::Nothing);
    assert_eq!(bar.update(BarMessage::ClockHover(true)), BarAction::Nothing);
    assert!(bar.clock_hovered);
    bar.update(BarMessage::BatteryHover(true));
    assert!(bar.battery_hovered);
    bar.update(BarMessage::SystemHover(true));
    assert!(bar.system_hovered);

    let info = BatteryInfo { charge: 87, icon: "battery-080" };
    bar.update(BarMessage::Battery(BatteryMessage::Update(info)));
    assert_eq!(bar.battery, Some(info));

    let volume = VolumeInfo { volume: 45, icon: "audio-volume-medium" };
    bar.update(BarMessage::Volume(Some(volume)));
    assert_eq!(bar.volume, Some(volume));
    bar.update(BarMessage::Volume(None));
    assert_eq!(bar.volume, None);

    assert_eq!(bar.update(BarMessage::VolumeToggleMute), BarAction::ToggleMute);
    assert_eq!(
        bar.update(BarMessage::VolumeScroll(Some(VolumeChange::Increase))),
        BarAction::ChangeVolume(Some(VolumeChange::Increase))
    );
    assert_eq!(bar.update(BarMessage::VolumeScroll(None)), BarAction::ChangeVolume(None));

    let workspaces = vec![WorkspaceInfo { num: 1, visible: true, focused: true, urgent: false, nonempty: true }];
    bar.update(BarMessage::Sway(SwayMessage::Workspaces(workspaces.clone())));
    assert_eq!(bar.workspaces, workspaces);
    bar.update(BarMessage::Sway(SwayMessage::Input(InputInfo { icon: "indicator-keyboard-En" })));
    assert_eq!(bar.input.map(|i| i.icon), Some("indicator-keyboard-En"));
}

#[test]
fn bar_switches_workspaces_through_sway() {
    let mut bar = BarState::new();
    bar.update(BarMessage::SwitchWorkspace(3));
    let (sender, mut receiver) = futures::channel::mpsc::channel(4);
    bar.update(BarMessage::Sway(SwayMessage::Initialized(SwayMessenger(sender))));
    bar.update(BarMessage::SwitchWorkspace(4));
    match receiver.try_next().unwrap() {
        Some(SwayTask::SwitchWorkspace(num)) => assert_eq!(num, 4),
        None => panic!("no task"),
    }
}

#[test]
fn bar_keeps_tray_items() {
    let mut bar = BarState::new();
    bar.update(BarMessage::Tray(TrayMessage::Add("a".to_string(), item("A"))));
    assert!(bar.tray_items.is_none());
    bar.update(BarMessage::Tray(TrayMessage::Initialized(vec![
        ("a".to_string(), item("A")),
        ("b".to_string(), item("B")),
        ("a".to_string(), item("A2")),
    ])));
    let items = bar.tray_items.as_ref().unwrap();
    assert_eq!(items.get("a").unwrap().title, "A2");
    assert_eq!(items.get("b").unwrap().title, "B");
    bar.update(BarMessage::Tray(TrayMessage::Add("c".to_string(), item("C"))));
    bar.update(BarMessage::Tray(TrayMessage::Remove("b".to_string())));
    let items = bar.tray_items.as_ref().unwrap();
    assert!(items.get("b").is_none());
    assert_eq!(items.get("c").unwrap().title, "C");
}

#[test]
fn tray_items_replace_and_remove() {
    let mut items = TrayItems::new();
    assert!(items.get("x").is_none());
    items.insert("x".to_string(), item("one"));
    items.insert("x".to_string(), item("two"));
    assert_eq!(items.get("x").unwrap().title, "two");
    items.remove("y");
    assert_eq!(items.get("x").unwrap().title, "two");
    items.remove("x");
    assert!(items.get("x").is_none());
    assert_eq!(tray_title(Some("Title".to_string()), "id".to_string()), "Title");
    assert_eq!(tray_title(None, "id".to_string()), "id");
}

#[test]
fn launcher_answers_messages() {
    let mut launcher: LauncherState<&str> = LauncherState::new();
    assert_eq!(
        launcher.update(LauncherMessage::ContentChanged("fire".to_string())),
        LauncherAction::Nothing
    );
    assert_eq!(launcher.input, "fire");

    let (sender, mut receiver) = futures::channel::mpsc::channel(4);
    assert_eq!(
        launcher.update(LauncherMessage::SearcherStarted(Searcher(sender))),
        LauncherAction::InjectProviders
    );
    assert_eq!(
        launcher.update(LauncherMessage::ContentChanged("firefox".to_string())),
        LauncherAction::PatternSent(true)
    );
    match receiver.try_next().unwrap() {
        Some(SearchMessage::UpdatePattern(p)) => assert_eq!(p, "firefox"),
        None => panic!("no pattern"),
    }

    launcher.update(LauncherMessage::FoundResults(vec!["Firefox", "Firefox Developer"]));
    assert_eq!(launcher.entries, vec!["Firefox", "Firefox Developer"]);
    launcher.update(LauncherMessage::Select(1));
    assert_eq!(launcher.selected, 1);
    assert_eq!(launcher.update(LauncherMessage::OpenSelected), LauncherAction::Open(1));
    assert_eq!(launcher.update(LauncherMessage::RequestClose), LauncherAction::Exit);
}

#[test]
fn notification_window_heights() {
    assert_eq!(window_height(0), 1);
    assert_eq!(window_height(1), 1);
    assert_eq!(window_height(640), 640);
    assert_eq!(window_height(5000), 2000);
}
