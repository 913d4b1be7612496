//! The battery indicator of the bar.

use vstd::prelude::*;
use crate::text::str_eq;

verus! {

/// A message from the battery poller to the bar.
#[derive(Debug, Copy, Clone)]
pub enum BatteryMessage {
    Update(BatteryInfo),
}

/// The battery indicator: the charge in percent and the icon that shows it.
#[derive(Debug, Copy, Clone, PartialEq, Eq)]
pub struct BatteryInfo {
    pub charge: u32,
    pub icon: &'static str,
}

/// What the battery is doing.
#[derive(Debug, Copy, Clone, PartialEq, Eq)]
pub enum BatteryState {
    Unknown,
    Charging,
    Discharging,
    Empty,
    Full,
    /// Charging stopped at a charge limit.
    Paused,
}

/// The icons for charges `0..10`, `10..20`, ..., `100..110` percent.
pub open spec fn battery_icons(charging: bool) -> Seq<Seq<char>> {
    if charging {
        seq![
            "battery-000-charging"@, "battery-010-charging"@, "battery-020-charging"@,
            "battery-030-charging"@, "battery-040-charging"@, "battery-050-charging"@,
            "battery-060-charging"@, "battery-070-charging"@, "battery-080-charging"@,
            "battery-090-charging"@, "battery-100-charging"@,
        ]
    } else {
        seq![
            "battery-000"@, "battery-010"@, "battery-020"@, "battery-030"@, "battery-040"@,
            "battery-050"@, "battery-060"@, "battery-070"@, "battery-080"@, "battery-090"@,
            "battery-100"@,
        ]
    }
}

/// The icon for a charge: the charge rounded down to a multiple of ten, with
/// a plug while charging.
pub open spec fn spec_battery_icon(charge: u32, state: BatteryState) -> Seq<char> {
    battery_icons(state == BatteryState::Charging)[(charge / 10) as int]
}

/// The icon for a charge of at most 109 percent.
pub fn battery_icon(charge: u32, state: BatteryState) -> (name: &'static str)
    requires
        charge / 10 <= 10,
    ensures
        name@ == spec_battery_icon(charge, state),
{
    let index = (charge / 10) as usize;
    match state {
        BatteryState::Charging => {
            let names: [&'static str; 11] = [
                "battery-000-charging",
                "battery-010-charging",
                "battery-020-charging",
                "battery-030-charging",
                "battery-040-charging",
                "battery-050-charging",
                "battery-060-charging",
                "battery-070-charging",
                "battery-080-charging",
                "battery-090-charging",
                "battery-100-charging",
            ];
            names[index]
        },
        _ => {
            let names: [&'static str; 11] = [
                "battery-000",
                "battery-010",
                "battery-020",
                "battery-030",
                "battery-040",
                "battery-050",
                "battery-060",
                "battery-070",
                "battery-080",
                "battery-090",
                "battery-100",
            ];
            names[index]
        },
    }
}

impl BatteryInfo {
    /// The indicator for a battery with `charge` percent (at most 109) in
    /// `state`.
    pub fn from_reading(charge: u32, state: BatteryState) -> (info: BatteryInfo)
        requires
            charge / 10 <= 10,
        ensures
            info.charge == charge,
            info.icon@ == spec_battery_icon(charge, state),
    {
        BatteryInfo { charge, icon: battery_icon(charge, state) }
    }
}

/// Two indicators show the same.
pub open spec fn same_info(a: BatteryInfo, b: BatteryInfo) -> bool {
    a.charge == b.charge && a.icon@ == b.icon@
}

/// The poller reports a reading when it differs from the last one reported,
/// or when nothing has been reported yet; it then becomes the last one.
pub fn poll_update(last: Option<BatteryInfo>, reading: BatteryInfo) -> (r: (
    Option<BatteryInfo>,
    Option<BatteryMessage>,
))
    ensures
        match last {
            Some(l) if same_info(l, reading) => r.0 == last && r.1 is None,
            _ => r.0 == Some(reading) && r.1 == Some(BatteryMessage::Update(reading)),
        },
{
    match last {
        Some(l) => {
            if l.charge == reading.charge && str_eq(l.icon, reading.icon) {
                (last, None)
            } else {
                (Some(reading), Some(BatteryMessage::Update(reading)))
            }
        },
        None => (Some(reading), Some(BatteryMessage::Update(reading))),
    }
}

} // verus!
