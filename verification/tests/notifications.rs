use baelyks_shell::center::{CenterMessage, NotificationCenter, WindowAction, WIDTH};
use baelyks_shell::dbus::{
    capabilities, next_icon_step, notification_name, server_information, DbusMessage, DbusSignal,
    IconSource, IconStep, IdAllocator,
    NotificationClosedReason, NotificationSignaller,
};
use baelyks_shell::notification::{
    expire_after, notification_from, notification_time, notification_time_text, pair_actions,
    urgency_from_hint,
    Notification, NotifyRequest, TimeLabel, Urgency,
};

fn request(id: u32, summary: &str, expire_timeout: i32) -> NotifyRequest {
    NotifyRequest {
        id,
        time: 1_000_000_000,
        name: "App".to_string(),
        icon: "/icons/app.png".to_string(),
        summary: summary.to_string(),
        body: String::new(),
        actions: vec![],
        urgency: None,
        expire_timeout,
    }
}

fn note(id: u32, summary: &str) -> Notification {
    notification_from(request(id, summary, 0))
}

#[test]
fn close_reason_codes() {
    assert_eq!(NotificationClosedReason::Expired.code(), 1);
    assert_eq!(NotificationClosedReason::DismissedByUser.code(), 2);
    assert_eq!(NotificationClosedReason::ClosedByCloseNotification.code(), 3);
    assert_eq!(NotificationClosedReason::Undefined.code(), 4);
}

#[test]
fn ids_count_up_from_one() {
    let mut ids = IdAllocator::new();
    assert!(!ids.is_exhausted());
    assert_eq!(ids.get_next_id(), 1);
    assert_eq!(ids.get_next_id(), 2);
    assert_eq!(ids.id_for(7), 7);
    assert_eq!(ids.id_for(0), 3);
    assert_eq!(ids.get_next_id(), 4);
}

#[test]
fn replaced_ids_stay_in_use() {
    let mut ids = IdAllocator::new();
    assert_eq!(ids.id_for(1), 1);
    assert_eq!(ids.id_for(0), 2);
    assert_eq!(ids.id_for(3), 3);
    assert_eq!(ids.id_for(0), 4);
}

#[test]
fn new_ids_are_unique_over_a_run() {
    let mut ids = IdAllocator::new();
    let mut given = Vec::new();
    for replaces in [0, 0, 5, 0, 3, 0, 0, 6, 0] {
        let id = ids.id_for(replaces);
        if replaces == 0 {
            assert!(!given.contains(&id));
        }
        given.push(id);
    }
}

#[test]
fn announced_capabilities_and_information() {
    assert_eq!(
        capabilities(),
        vec!["actions", "body", "body-markup", "body-images", "persistence"]
    );
    let (name, vendor, version, spec_version) = server_information();
    assert_eq!(name, "Baelyk's Notification Server");
    assert_eq!(vendor, "Baelyk");
    assert_eq!(version, "0.1.0");
    assert_eq!(spec_version, "1.2");
}

#[test]
fn urgency_levels() {
    assert_eq!(urgency_from_hint(None), Urgency::Normal);
    assert_eq!(urgency_from_hint(Some(0)), Urgency::Low);
    assert_eq!(urgency_from_hint(Some(1)), Urgency::Normal);
    assert_eq!(urgency_from_hint(Some(2)), Urgency::Critical);
    assert_eq!(urgency_from_hint(Some(9)), Urgency::Normal);
}

#[test]
fn expiry_in_milliseconds() {
    assert_eq!(expire_after(Urgency::Normal, -1), Some(60_000));
    assert_eq!(expire_after(Urgency::Low, 5_000), Some(5_000));
    assert_eq!(expire_after(Urgency::Normal, 0), None);
    assert_eq!(expire_after(Urgency::Critical, 5_000), None);
    assert_eq!(expire_after(Urgency::Critical, -1), None);
}

#[test]
fn actions_come_in_pairs() {
    let actions = vec!["default".to_string(), "Open".to_string(), "odd".to_string()];
    assert_eq!(
        pair_actions(&actions),
        Some(vec![("default".to_string(), "Open".to_string())])
    );
    assert_eq!(pair_actions(&vec!["lonely".to_string()]), None);
    assert_eq!(pair_actions(&vec![]), None);
}

#[test]
fn notify_request_becomes_notification() {
    let mut r = request(5, "Hello", -1);
    r.body = "<b>hi</b>".to_string();
    r.actions = vec!["default".to_string(), "Open".to_string()];
    r.urgency = Some(0);
    let n = notification_from(r);
    assert_eq!(n.id, 5);
    assert_eq!(n.summary, "Hello");
    assert_eq!(n.name, "App");
    assert_eq!(n.icon, "/icons/app.png");
    assert_eq!(n.urgency, Urgency::Low);
    assert_eq!(n.time, 1_000_000_000);
    assert_eq!(n.expire_time, Some(61_000_000_000));
    assert_eq!(n.actions, Some(vec![("default".to_string(), "Open".to_string())]));
    assert!(n.body.is_some());

    let plain = notification_from(request(6, "Quiet", 0));
    assert!(plain.body.is_none());
    assert_eq!(plain.expire_time, None);
    assert_eq!(plain.actions, None);
}

#[test]
fn time_labels() {
    assert_eq!(notification_time(-5), TimeLabel::Now);
    assert_eq!(notification_time(29), TimeLabel::Now);
    assert_eq!(notification_time(30), TimeLabel::HalfMinuteAgo);
    assert_eq!(notification_time(125), TimeLabel::MinutesAgo(2));
    assert_eq!(notification_time(3 * 3600 + 10), TimeLabel::HoursAgo(3));
    assert_eq!(notification_time(5 * 3600), TimeLabel::TimeOfDay);
    assert_eq!(notification_time(2 * 86400), TimeLabel::WeekdayAndTime);
    assert_eq!(notification_time(8 * 86400), TimeLabel::WeekdayAndDate);
}

#[test]
fn time_label_texts() {
    assert_eq!(TimeLabel::Now.relative_text(), Some("now".to_string()));
    assert_eq!(TimeLabel::HalfMinuteAgo.relative_text(), Some("30s ago".to_string()));
    assert_eq!(TimeLabel::MinutesAgo(2).relative_text(), Some("2m ago".to_string()));
    assert_eq!(TimeLabel::HoursAgo(13).relative_text(), Some("13h ago".to_string()));
    assert_eq!(TimeLabel::TimeOfDay.relative_text(), None);
    assert_eq!(TimeLabel::TimeOfDay.absolute_format(), Some("%H:%S"));
    assert_eq!(TimeLabel::WeekdayAndTime.absolute_format(), Some("%a %H:%M"));
    assert_eq!(TimeLabel::WeekdayAndDate.absolute_format(), Some("%a %h %e"));
    assert_eq!(TimeLabel::Now.absolute_format(), None);
}

#[test]
fn time_labels_never_go_back() {
    let mut last = 0;
    for since in [0i64, 40, 61, 600, 3599, 3600, 14399, 14400, 86399, 86400, 604800] {
        let rank = match notification_time(since) {
            TimeLabel::Now => 0,
            TimeLabel::HalfMinuteAgo => 1,
            TimeLabel::MinutesAgo(_) => 2,
            TimeLabel::HoursAgo(_) => 3,
            TimeLabel::TimeOfDay => 4,
            TimeLabel::WeekdayAndTime => 5,
            TimeLabel::WeekdayAndDate => 6,
        };
        assert!(rank >= last);
        last = rank;
    }
}

#[test]
fn center_shows_replaces_and_dismisses() {
    let (sender, mut receiver) = futures::channel::mpsc::channel(16);
    let mut center = NotificationCenter::new();

    let e = center.update(CenterMessage::Dbus(DbusMessage::Initialized(NotificationSignaller(sender))), 0);
    assert_eq!(e.window, WindowAction::Nothing);
    assert!(e.signals.is_empty());

    let e = center.update(CenterMessage::Dbus(DbusMessage::Notify(note(1, "one"))), 0);
    assert_eq!(e.window, WindowAction::Open);
    let e = center.update(CenterMessage::Dbus(DbusMessage::Notify(note(2, "two"))), 0);
    assert_eq!(e.window, WindowAction::Nothing);
    assert_eq!(center.alerts(), &vec![1, 2]);

    let e = center.update(CenterMessage::Dbus(DbusMessage::Notify(note(1, "one again"))), 0);
    assert_eq!(e.window, WindowAction::Nothing);
    assert_eq!(center.alerts(), &vec![1, 2]);
    assert_eq!(center.notification(1).unwrap().summary, "one again");

    let e = center.update(CenterMessage::ContainerResized(120), 0);
    assert_eq!(e.window, WindowAction::Resize { width: WIDTH, height: 120 });
    assert_eq!(WIDTH, 500);

    let e = center.update(CenterMessage::UserDismissed(1), 0);
    assert_eq!(
        e.signals,
        vec![DbusSignal::NotificationClosed(1, NotificationClosedReason::DismissedByUser)]
    );
    assert!(e.queued);
    assert_eq!(center.alerts(), &vec![2]);
    assert!(center.notification(1).is_none());

    let e = center.update(CenterMessage::ActionInvoked(2, "default".to_string()), 0);
    assert_eq!(e.signals, vec![DbusSignal::ActionInvoked(2, "default".to_string())]);
    assert_eq!(e.window, WindowAction::Nothing);

    let e = center.update(CenterMessage::Dbus(DbusMessage::CloseNotification(2)), 0);
    assert_eq!(
        e.signals,
        vec![DbusSignal::NotificationClosed(2, NotificationClosedReason::ClosedByCloseNotification)]
    );
    assert_eq!(e.window, WindowAction::Remove);
    assert!(center.alerts().is_empty());

    assert_eq!(
        receiver.try_next().unwrap(),
        Some(DbusSignal::NotificationClosed(1, NotificationClosedReason::DismissedByUser))
    );
    assert_eq!(
        receiver.try_next().unwrap(),
        Some(DbusSignal::ActionInvoked(2, "default".to_string()))
    );
    assert_eq!(
        receiver.try_next().unwrap(),
        Some(DbusSignal::NotificationClosed(2, NotificationClosedReason::ClosedByCloseNotification))
    );
}

#[test]
fn center_expires_notifications() {
    let (sender, mut receiver) = futures::channel::mpsc::channel(16);
    let mut center = NotificationCenter::new();
    center.update(CenterMessage::Dbus(DbusMessage::Initialized(NotificationSignaller(sender))), 0);
    let mut brief = note(3, "brief");
    brief.expire_time = Some(100);
    center.update(CenterMessage::Dbus(DbusMessage::Notify(brief)), 0);
    center.update(CenterMessage::Dbus(DbusMessage::Notify(note(4, "stays"))), 0);

    let e = center.update(CenterMessage::Tick, 100);
    assert!(e.signals.is_empty());
    assert_eq!(center.alerts(), &vec![3, 4]);

    let e = center.update(CenterMessage::Tick, 101);
    assert_eq!(
        e.signals,
        vec![DbusSignal::NotificationClosed(3, NotificationClosedReason::Expired)]
    );
    assert_eq!(e.window, WindowAction::Nothing);
    assert_eq!(center.alerts(), &vec![4]);
    assert_eq!(
        receiver.try_next().unwrap(),
        Some(DbusSignal::NotificationClosed(3, NotificationClosedReason::Expired))
    );
}

#[test]
fn center_without_signaller_sends_nothing() {
    let mut center = NotificationCenter::new();
    center.update(CenterMessage::Dbus(DbusMessage::Notify(note(1, "one"))), 0);
    let e = center.update(CenterMessage::UserDismissed(1), 0);
    assert!(e.signals.is_empty());
    assert_eq!(e.window, WindowAction::Remove);
    let e = center.update(CenterMessage::WindowClosed, 0);
    assert_eq!(e.window, WindowAction::Nothing);
    let e = center.update(CenterMessage::ContainerResized(80), 0);
    assert_eq!(e.window, WindowAction::Nothing);
}

#[test]
fn time_text_of_a_notification() {
    let second: i64 = 1_000_000_000;
    assert_eq!(notification_time_text(0, 0, 0), "now");
    assert_eq!(notification_time_text(10 * second, 0, 0), "now");
    assert_eq!(notification_time_text(0, 45 * second, 0), "30s ago");
    assert_eq!(notification_time_text(0, 125 * second, 0), "2m ago");
    assert_eq!(notification_time_text(0, 3 * 3600 * second, 0), "3h ago");
    let arrival = notification_time_text(0, 5 * 3600 * second, 0);
    assert_eq!(arrival.len(), "HH:SS".len());
    assert!(arrival.chars().enumerate().all(|(i, c)| if i == 2 { c == ':' } else { c.is_ascii_digit() }));
    assert!(!notification_time_text(0, 30 * 86400 * second, 0).is_empty());
    let arrival = 10 * 3600 * second + 25 * second;
    assert_eq!(notification_time_text(arrival, arrival + 5 * 3600 * second, 0), "10:25");
    assert_eq!(notification_time_text(arrival, arrival + 5 * 3600 * second, 7200), "12:25");
    assert_eq!(notification_time_text(arrival, arrival + 2 * 86400 * second, 0), "Thu 10:00");
    assert_eq!(notification_time_text(arrival, arrival + 8 * 86400 * second, 0), "Thu Jan  1");
}

#[test]
fn notification_icon_and_name_fallbacks() {
    let default = "/icons/notifications.svg";
    assert_eq!(
        next_icon_step(IconSource::ImageData, Some("/tmp/a.png".to_string()), default),
        IconStep::Use("/tmp/a.png".to_string())
    );
    assert_eq!(next_icon_step(IconSource::ImageData, None, default), IconStep::Try(IconSource::ImagePath));
    assert_eq!(next_icon_step(IconSource::ImagePath, None, default), IconStep::Try(IconSource::AppIcon));
    assert_eq!(next_icon_step(IconSource::AppIcon, None, default), IconStep::Try(IconSource::IconData));
    assert_eq!(next_icon_step(IconSource::IconData, None, default), IconStep::Use(default.to_string()));
    assert_eq!(notification_name(Some("Firefox".to_string()), "firefox".to_string()), "Firefox");
    assert_eq!(notification_name(None, "firefox".to_string()), "firefox");
}
