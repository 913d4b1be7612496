//! Notifications as the daemon keeps them, and how a `Notify` request
//! becomes one.

use vstd::prelude::*;
use crate::markup::{markup, spec_markup, BodyElement, blocks_view};
use crate::clock::{format_at, formatted, valid_offset, written_as};
use crate::text::{push_signed_decimal, push_str, signed_decimal};

verus! {

/// How urgent a notification is; critical ones never expire.
#[derive(Copy, Clone, Debug, PartialEq, Eq, Structural)]
pub enum Urgency {
    Low,
    Normal,
    Critical,
}

/// A notification on screen.
#[derive(Clone, Debug)]
pub struct Notification {
    /// Unique ID for the notification
    pub id: u32,
    /// The resolved path of the icon or image to display
    pub icon: String,
    /// The display name of the application
    pub name: String,
    /// The summary the application gave
    pub summary: String,
    /// The body the application gave, if any
    pub body: Option<Vec<BodyElement>>,
    /// When it was received, in nanoseconds since the Unix epoch
    pub time: i64,
    /// When it expires, in nanoseconds since the Unix epoch, if it does
    pub expire_time: Option<i64>,
    /// The actions it offers, as (key, label) pairs
    pub actions: Option<Vec<(String, String)>>,
    /// The urgency the client asked for, `Normal` by default
    pub urgency: Urgency,
}

/// The urgency a client asks for with the `urgency` hint: 0 is low, 1 normal,
/// 2 critical; no hint, or any other level, is normal.
pub open spec fn spec_urgency(hint: Option<u8>) -> Urgency {
    match hint {
        Some(0) => Urgency::Low,
        Some(2) => Urgency::Critical,
        _ => Urgency::Normal,
    }
}

pub fn urgency_from_hint(hint: Option<u8>) -> (urgency: Urgency)
    ensures
        urgency == spec_urgency(hint),
{
    match hint {
        None => Urgency::Normal,
        Some(0) => Urgency::Low,
        Some(1) => Urgency::Normal,
        Some(2) => Urgency::Critical,
        Some(_) => Urgency::Normal,
    }
}

/// Nanoseconds in a millisecond.
pub const NANOS_PER_MILLI: i64 = 1_000_000;

/// How long after it arrives a notification expires, in milliseconds:
/// critical ones and those with a timeout of 0 never do; a timeout of -1
/// leaves the choice to the server, which gives them a minute; any other
/// timeout is taken as it is.
pub open spec fn spec_expire_after(urgency: Urgency, expire_timeout: i32) -> Option<i64> {
    if urgency == Urgency::Critical || expire_timeout == 0 {
        None
    } else if expire_timeout == -1 {
        Some(60_000)
    } else {
        Some(expire_timeout as i64)
    }
}

pub fn expire_after(urgency: Urgency, expire_timeout: i32) -> (ms: Option<i64>)
    ensures
        ms == spec_expire_after(urgency, expire_timeout),
{
    if urgency == Urgency::Critical || expire_timeout == 0 {
        None
    } else if expire_timeout == -1 {
        Some(60_000)
    } else {
        Some(expire_timeout as i64)
    }
}

/// The (key, label) pairs of an action list `[key, label, key, label, ...]`;
/// an odd last entry is dropped.
pub open spec fn spec_action_pairs(actions: Seq<Seq<char>>) -> Seq<(Seq<char>, Seq<char>)> {
    Seq::new(actions.len() / 2, |i: int| (actions[2 * i], actions[2 * i + 1]))
}

/// The actions a notification offers: the pairs, or none at all if there is
/// no complete pair.
pub fn pair_actions(actions: &Vec<String>) -> (pairs: Option<Vec<(String, String)>>)
    ensures
        match pairs {
            Some(p) => p@.len() > 0 && p@.map_values(|kv: (String, String)| (kv.0@, kv.1@))
                == spec_action_pairs(actions@.map_values(|a: String| a@)),
            None => spec_action_pairs(actions@.map_values(|a: String| a@)).len() == 0,
        },
{
    let ghost names = actions@.map_values(|a: String| a@);
    let mut pairs: Vec<(String, String)> = Vec::new();
    let mut i: usize = 0;
    while i + 1 < actions.len()
        invariant
            i % 2 == 0,
            i <= actions.len(),
            names == actions@.map_values(|a: String| a@),
            pairs@.len() == i / 2,
            forall|k: int|
                0 <= k < pairs@.len() ==> (#[trigger] pairs@[k]).0@ == names[2 * k] && pairs@[k].1@
                    == names[2 * k + 1],
        decreases actions.len() - i,
    {
        pairs.push((actions[i].clone(), actions[i + 1].clone()));
        i = i + 2;
    }
    let ghost expected = spec_action_pairs(names);
    assert(pairs@.map_values(|kv: (String, String)| (kv.0@, kv.1@)) =~= expected);
    if pairs.len() == 0 {
        None
    } else {
        Some(pairs)
    }
}

/// What a client asks to show: the values of a `Notify` call once the id,
/// the time of arrival, the display name and the icon are settled.
pub struct NotifyRequest {
    pub id: u32,
    pub time: i64,
    pub name: String,
    pub icon: String,
    pub summary: String,
    pub body: String,
    pub actions: Vec<String>,
    pub urgency: Option<u8>,
    pub expire_timeout: i32,
}

/// The notification that a `Notify` call shows: an empty body is no body,
/// and the expiry counts from the time of arrival.
pub fn notification_from(request: NotifyRequest) -> (n: Notification)
    requires
        i64::MIN + 2_147_483_648 * NANOS_PER_MILLI <= request.time <= i64::MAX - 2_147_483_648
            * NANOS_PER_MILLI,
    ensures
        n.id == request.id,
        n.time == request.time,
        n.name@ == request.name@,
        n.icon@ == request.icon@,
        n.summary@ == request.summary@,
        request.body@.len() == 0 ==> n.body is None,
        request.body@.len() > 0 ==> (n.body matches Some(b) && blocks_view(b@) == spec_markup(
            request.body@,
        )),
        n.urgency == spec_urgency(request.urgency),
        n.expire_time == match spec_expire_after(spec_urgency(request.urgency), request.expire_timeout) {
            Some(ms) => Some((request.time + ms * NANOS_PER_MILLI) as i64),
            None => None,
        },
        match n.actions {
            Some(p) => p@.len() > 0 && p@.map_values(|kv: (String, String)| (kv.0@, kv.1@))
                == spec_action_pairs(request.actions@.map_values(|a: String| a@)),
            None => spec_action_pairs(request.actions@.map_values(|a: String| a@)).len() == 0,
        },
{
    let NotifyRequest { id, time, name, icon, summary, body, actions, urgency, expire_timeout } =
        request;
    let body = if body.as_str().is_empty() {
        None
    } else {
        Some(markup(body))
    };
    let urgency = urgency_from_hint(urgency);
    let expire_time = match expire_after(urgency, expire_timeout) {
        Some(ms) => Some(time + ms * NANOS_PER_MILLI),
        None => None,
    };
    let actions = pair_actions(&actions);
    Notification { id, icon, name, summary, body, time, expire_time, actions, urgency }
}

/// How the age of a notification is shown.
#[derive(Copy, Clone, Debug, PartialEq, Eq)]
pub enum TimeLabel {
    /// "now", under half a minute
    Now,
    /// "30s ago", under a minute
    HalfMinuteAgo,
    /// "{m}m ago", under an hour
    MinutesAgo(i64),
    /// "{h}h ago", under four hours
    HoursAgo(i64),
    /// The time of arrival as `%H:%S`, under a day
    TimeOfDay,
    /// The weekday and time of arrival as `%a %H:%M`, under a week
    WeekdayAndTime,
    /// The weekday and date of arrival as `%a %h %e`, from a week on
    WeekdayAndDate,
}

/// How a notification that arrived `since` whole seconds ago shows its age:
/// minutes, hours, days and weeks are counted in whole units.
pub open spec fn spec_time_label(since: i64) -> TimeLabel {
    if since < 30 {
        TimeLabel::Now
    } else if since < 60 {
        TimeLabel::HalfMinuteAgo
    } else if since / 60 < 60 {
        TimeLabel::MinutesAgo((since / 60) as i64)
    } else if since / 3600 < 4 {
        TimeLabel::HoursAgo((since / 3600) as i64)
    } else if since / 86400 < 1 {
        TimeLabel::TimeOfDay
    } else if since / 86400 / 7 < 1 {
        TimeLabel::WeekdayAndTime
    } else {
        TimeLabel::WeekdayAndDate
    }
}

/// How a notification that arrived `since_seconds` whole seconds ago shows
/// its age.
pub fn notification_time(since_seconds: i64) -> (label: TimeLabel)
    ensures
        label == spec_time_label(since_seconds),
{
    if since_seconds < 30 {
        TimeLabel::Now
    } else if since_seconds < 60 {
        TimeLabel::HalfMinuteAgo
    } else if since_seconds / 60 < 60 {
        TimeLabel::MinutesAgo(since_seconds / 60)
    } else if since_seconds / 3600 < 4 {
        TimeLabel::HoursAgo(since_seconds / 3600)
    } else if since_seconds / 86400 < 1 {
        TimeLabel::TimeOfDay
    } else if since_seconds / 86400 / 7 < 1 {
        TimeLabel::WeekdayAndTime
    } else {
        TimeLabel::WeekdayAndDate
    }
}

/// The text of a label that counts from now, or none for the labels that
/// show the time of arrival.
pub open spec fn spec_relative_text(label: TimeLabel) -> Option<Seq<char>> {
    match label {
        TimeLabel::Now => Some("now"@),
        TimeLabel::HalfMinuteAgo => Some("30s ago"@),
        TimeLabel::MinutesAgo(m) => Some(signed_decimal(m as int) + "m ago"@),
        TimeLabel::HoursAgo(h) => Some(signed_decimal(h as int) + "h ago"@),
        _ => None,
    }
}

/// The `strftime` format of a label that shows the time of arrival.
pub open spec fn spec_absolute_format(label: TimeLabel) -> Option<Seq<char>> {
    match label {
        TimeLabel::TimeOfDay => Some("%H:%S"@),
        TimeLabel::WeekdayAndTime => Some("%a %H:%M"@),
        TimeLabel::WeekdayAndDate => Some("%a %h %e"@),
        _ => None,
    }
}

impl TimeLabel {
    /// The text of a label that counts from now.
    pub fn relative_text(&self) -> (text: Option<String>)
        ensures
            match (text, spec_relative_text(*self)) {
                (Some(t), Some(s)) => t@ == s,
                (None, None) => true,
                _ => false,
            },
    {
        match self {
            TimeLabel::Now => {
                let mut s = String::new();
                push_str(&mut s, "now");
                Some(s)
            },
            TimeLabel::HalfMinuteAgo => {
                let mut s = String::new();
                push_str(&mut s, "30s ago");
                Some(s)
            },
            TimeLabel::MinutesAgo(m) => {
                let mut s = String::new();
                push_signed_decimal(&mut s, *m);
                push_str(&mut s, "m ago");
                Some(s)
            },
            TimeLabel::HoursAgo(h) => {
                let mut s = String::new();
                push_signed_decimal(&mut s, *h);
                push_str(&mut s, "h ago");
                Some(s)
            },
            _ => None,
        }
    }

    /// The `strftime` format of a label that shows the time of arrival.
    pub fn absolute_format(&self) -> (format: Option<&'static str>)
        ensures
            match (format, spec_absolute_format(*self)) {
                (Some(f), Some(s)) => f@ == s,
                (None, None) => true,
                _ => false,
            },
    {
        match self {
            TimeLabel::TimeOfDay => Some("%H:%S"),
            TimeLabel::WeekdayAndTime => Some("%a %H:%M"),
            TimeLabel::WeekdayAndDate => Some("%a %h %e"),
            _ => None,
        }
    }
}

/// Whole seconds in `nanos` nanoseconds, rounded toward zero.
pub open spec fn whole_seconds(nanos: int) -> int {
    if nanos >= 0 {
        nanos / 1_000_000_000
    } else {
        -((-nanos) / 1_000_000_000)
    }
}

/// How the age of a notification that arrived at `time` is shown at `now`
/// (both in nanoseconds since the Unix epoch): counted from now while it is
/// under four hours old, and after that as the time of arrival in local
/// time, which at the arrival was `offset` seconds east of UTC.
pub fn notification_time_text(time: i64, now: i64, offset: i32) -> (text: String)
    requires
        i64::MIN < now - time <= i64::MAX,
        valid_offset(offset),
    ensures
        spec_relative_text(spec_time_label(whole_seconds(now - time) as i64)) matches Some(t)
            ==> text@ == t,
        spec_absolute_format(spec_time_label(whole_seconds(now - time) as i64)) matches Some(f)
            ==> text@ == formatted(time, offset, f) && written_as(text@, f),
{
    let nanos = now - time;
    let since = if nanos >= 0 {
        nanos / 1_000_000_000
    } else {
        -((-nanos) / 1_000_000_000)
    };
    let label = notification_time(since);
    match label.absolute_format() {
        Some(format) => format_at(time, offset, format),
        None => label.relative_text().unwrap(),
    }
}

/// The age labels follow one another as time goes on: a notification never
/// shows a label of a younger age later than one of an older age.
pub open spec fn label_rank(label: TimeLabel) -> int {
    match label {
        TimeLabel::Now => 0,
        TimeLabel::HalfMinuteAgo => 1,
        TimeLabel::MinutesAgo(_) => 2,
        TimeLabel::HoursAgo(_) => 3,
        TimeLabel::TimeOfDay => 4,
        TimeLabel::WeekdayAndTime => 5,
        TimeLabel::WeekdayAndDate => 6,
    }
}

/// As a notification grows older its label never goes back: the kind of
/// label only advances, and the minutes or hours shown only grow.
pub proof fn law_time_label_monotone(earlier: i64, later: i64)
    requires
        earlier <= later,
    ensures
        label_rank(spec_time_label(earlier)) <= label_rank(spec_time_label(later)),
        (spec_time_label(earlier), spec_time_label(later)) matches (
            TimeLabel::MinutesAgo(a),
            TimeLabel::MinutesAgo(b),
        ) ==> a <= b,
        (spec_time_label(earlier), spec_time_label(later)) matches (
            TimeLabel::HoursAgo(a),
            TimeLabel::HoursAgo(b),
        ) ==> a <= b,
{
    assert(earlier >= 0 ==> earlier / 60 <= later / 60) by (nonlinear_arith)
        requires
            earlier <= later,
    ;
    assert(earlier >= 0 ==> earlier / 3600 <= later / 3600) by (nonlinear_arith)
        requires
            earlier <= later,
    ;
    assert(earlier >= 0 ==> earlier / 86400 <= later / 86400) by (nonlinear_arith)
        requires
            earlier <= later,
    ;
    assert(earlier >= 0 ==> earlier / 86400 / 7 <= later / 86400 / 7) by (nonlinear_arith)
        requires
            earlier <= later,
    ;
}

/// A client's timeout counts: a notification that is not critical expires
/// after the timeout it asks for, in milliseconds, whatever its urgency; a
/// timeout of -1 leaves the choice to the server, which gives it a minute;
/// a timeout of 0, or critical urgency, means it never expires.
pub proof fn law_expiry_follows_timeout(urgency: Urgency, timeout: i32)
    ensures
        urgency != Urgency::Critical && timeout != 0 && timeout != -1 ==> spec_expire_after(
            urgency,
            timeout,
        ) == Some(timeout as i64),
        urgency != Urgency::Critical && timeout == -1 ==> spec_expire_after(urgency, timeout)
            == Some(60_000i64),
        urgency == Urgency::Critical || timeout == 0 ==> spec_expire_after(urgency, timeout)
            is None,
{
}

} // verus!
