use baelyks_shell::battery::{battery_icon, poll_update, BatteryInfo, BatteryMessage, BatteryState};
use baelyks_shell::sway::{
    handle_event, input_info, task_command, workspaces_info, SwayAction, SwayEvent, SwayTask,
    SwayWorkspace, WorkspaceInfo,
};
use baelyks_shell::volume::{icon, volume_info_from_output, VolumeInfo};

#[test]
fn volume_icon_thresholds() {
    assert_eq!(icon(0, false), "audio-volume-low");
    assert_eq!(icon(33, false), "audio-volume-low");
    assert_eq!(icon(34, false), "audio-volume-medium");
    assert_eq!(icon(66, false), "audio-volume-medium");
    assert_eq!(icon(67, false), "audio-volume-high");
    assert_eq!(icon(100, true), "audio-volume-muted");
}

#[test]
fn volume_from_wpctl_output() {
    assert_eq!(
        volume_info_from_output("Volume: 0.45\n"),
        Some(VolumeInfo { volume: 45, icon: "audio-volume-medium" })
    );
    assert_eq!(
        volume_info_from_output("Volume: 0.30 [MUTED]\n"),
        Some(VolumeInfo { volume: 30, icon: "audio-volume-muted" })
    );
    assert_eq!(
        volume_info_from_output("Volume: 1.00\n"),
        Some(VolumeInfo { volume: 100, icon: "audio-volume-high" })
    );
}

#[test]
fn volume_without_number_is_unknown() {
    assert_eq!(volume_info_from_output("wpctl: no such node"), None);
    assert_eq!(volume_info_from_output(""), None);
}

#[test]
fn volume_that_overflows_is_unknown() {
    assert_eq!(volume_info_from_output("Volume: 99999999999"), None);
    assert_eq!(
        volume_info_from_output("Volume: 4294967295"),
        Some(VolumeInfo { volume: 4294967295, icon: "audio-volume-high" })
    );
    assert_eq!(volume_info_from_output("Volume: 4294967296"), None);
}

#[test]
fn volume_with_non_ascii_numeral_is_unknown() {
    // U+0663 ARABIC-INDIC DIGIT THREE is numeric but not an ASCII digit
    assert_eq!(volume_info_from_output("Volume: 0.4\u{663}"), None);
}

#[test]
fn battery_icons_by_charge() {
    assert_eq!(battery_icon(0, BatteryState::Discharging), "battery-000");
    assert_eq!(battery_icon(9, BatteryState::Discharging), "battery-000");
    assert_eq!(battery_icon(10, BatteryState::Full), "battery-010");
    assert_eq!(battery_icon(55, BatteryState::Unknown), "battery-050");
    assert_eq!(battery_icon(100, BatteryState::Full), "battery-100");
    assert_eq!(battery_icon(109, BatteryState::Charging), "battery-100-charging");
    assert_eq!(battery_icon(42, BatteryState::Charging), "battery-040-charging");
}

#[test]
fn battery_reading_is_reported_once() {
    let reading = BatteryInfo::from_reading(80, BatteryState::Discharging);
    assert_eq!(reading, BatteryInfo { charge: 80, icon: "battery-080" });
    let (last, msg) = poll_update(None, reading);
    assert_eq!(last, Some(reading));
    assert!(matches!(msg, Some(BatteryMessage::Update(i)) if i == reading));
    let (last2, msg2) = poll_update(last, reading);
    assert_eq!(last2, last);
    assert!(msg2.is_none());
    let charging = BatteryInfo::from_reading(80, BatteryState::Charging);
    let (last3, msg3) = poll_update(last2, charging);
    assert_eq!(last3, Some(charging));
    assert!(msg3.is_some());
}

fn ws(num: i32, focused: bool) -> SwayWorkspace {
    SwayWorkspace { num, visible: focused, focused, urgent: false }
}

#[test]
fn workspaces_are_one_to_nine_then_zero() {
    let infos = workspaces_info(&vec![ws(3, true), ws(0, false), ws(12, false), ws(-1, false)]);
    let nums: Vec<i32> = infos.iter().map(|i| i.num).collect();
    assert_eq!(nums, vec![1, 2, 3, 4, 5, 6, 7, 8, 9, 0]);
    assert_eq!(
        infos[2],
        WorkspaceInfo { num: 3, visible: true, focused: true, urgent: false, nonempty: true }
    );
    assert_eq!(
        infos[9],
        WorkspaceInfo { num: 0, visible: false, focused: false, urgent: false, nonempty: true }
    );
    assert_eq!(infos[0], WorkspaceInfo::empty(1));
}

#[test]
fn later_workspace_report_wins() {
    let infos = workspaces_info(&vec![ws(5, false), ws(5, true)]);
    assert!(infos[4].focused);
}

#[test]
fn keyboard_layout_icons() {
    assert_eq!(input_info("English (US)").icon, "indicator-keyboard-En");
    assert_eq!(input_info("Spanish").icon, "indicator-keyboard-Es");
    assert_eq!(input_info("German").icon, "indicator-keyboard");
}

#[test]
fn switch_workspace_command() {
    assert_eq!(task_command(SwayTask::SwitchWorkspace(4)), "workspace number 4");
    assert_eq!(task_command(SwayTask::SwitchWorkspace(10)), "workspace number 10");
    assert_eq!(task_command(SwayTask::SwitchWorkspace(-7)), "workspace number -7");
    assert_eq!(
        task_command(SwayTask::SwitchWorkspace(i32::MIN)),
        "workspace number -2147483648"
    );
}

#[test]
fn sway_events_to_actions() {
    assert!(matches!(handle_event(&SwayEvent::Workspace), SwayAction::RefreshWorkspaces));
    assert!(matches!(handle_event(&SwayEvent::Other), SwayAction::Ignore));
    assert!(matches!(handle_event(&SwayEvent::Input(None)), SwayAction::Ignore));
    match handle_event(&SwayEvent::Input(Some("Spanish".to_string()))) {
        SwayAction::SendInput(info) => assert_eq!(info.icon, "indicator-keyboard-Es"),
        _ => panic!("expected an input update"),
    }
    match handle_event(&SwayEvent::Task(SwayTask::SwitchWorkspace(2))) {
        SwayAction::RunCommand(c) => assert_eq!(c, "workspace number 2"),
        _ => panic!("expected a command"),
    }
}
