//! The state of the status bar and how it answers its messages.

use vstd::prelude::*;
use crate::battery::{BatteryInfo, BatteryMessage};
use crate::channel::tasks_queued;
use crate::sway::{InputInfo, SwayMessage, SwayMessenger, SwayTask, WorkspaceInfo};
use crate::tray::{pairs_map, TrayItem, TrayItems};
use crate::volume::VolumeInfo;

verus! {

/// A change of the volume asked for by scrolling on the volume indicator.
#[derive(Debug, Clone, Copy, PartialEq, Eq, Structural)]
pub enum VolumeChange {
    Increase,
    Decrease,
}

/// A message from the system tray.
#[derive(Debug, Clone)]
pub enum TrayMessage {
    /// The items shown when the tray started, by application.
    Initialized(Vec<(String, TrayItem)>),
    /// An application shows an item.
    Add(String, TrayItem),
    /// An application no longer shows its item.
    Remove(String),
}

/// A message to the bar. CPU and memory use, which come as floats, are kept
/// by the program around the bar.
#[derive(Debug, Clone)]
pub enum BarMessage {
    /// A second went by.
    Tick,
    /// The pointer entered or left the clock.
    ClockHover(bool),
    Sway(SwayMessage),
    /// A workspace button was pressed.
    SwitchWorkspace(i32),
    Battery(BatteryMessage),
    /// The pointer entered or left the battery indicator.
    BatteryHover(bool),
    /// The volume was read, if it could be.
    Volume(Option<VolumeInfo>),
    /// The volume indicator was clicked.
    VolumeToggleMute,
    /// The volume indicator was scrolled, far enough to change the volume or
    /// not.
    VolumeScroll(Option<VolumeChange>),
    Tray(TrayMessage),
    /// The pointer entered or left the CPU indicator.
    SystemHover(bool),
}

/// What the bar asks of the outside after a message.
#[derive(Debug, Clone, Copy, PartialEq, Eq, Structural)]
pub enum BarAction {
    Nothing,
    /// Toggle the mute of the default sink.
    ToggleMute,
    /// Change the volume, if asked, and read it again.
    ChangeVolume(Option<VolumeChange>),
}

/// What the bar shows.
#[derive(Debug)]
pub struct BarState {
    pub clock_hovered: bool,
    pub workspaces: Vec<WorkspaceInfo>,
    pub sway_messenger: Option<SwayMessenger>,
    pub battery: Option<BatteryInfo>,
    pub battery_hovered: bool,
    pub volume: Option<VolumeInfo>,
    /// The tray items, once the tray has started.
    pub tray_items: Option<TrayItems>,
    pub system_hovered: bool,
    pub input: Option<InputInfo>,
}

/// The tray items by application, once the tray has started.
pub open spec fn tray_view(items: Option<TrayItems>) -> Option<Map<Seq<char>, TrayItem>> {
    match items {
        Some(t) => Some(t@),
        None => None,
    }
}

impl BarState {
    /// The tray items, if any, have one item per application.
    pub open spec fn wf(&self) -> bool {
        self.tray_items matches Some(t) ==> t.wf()
    }

    /// Nothing known yet, and no pointer on the bar.
    pub fn new() -> (s: BarState)
        ensures
            !s.clock_hovered,
            s.workspaces@ == Seq::<WorkspaceInfo>::empty(),
            s.sway_messenger is None,
            s.battery is None,
            !s.battery_hovered,
            s.volume is None,
            s.tray_items is None,
            !s.system_hovered,
            s.input is None,
    {
        BarState {
            clock_hovered: false,
            workspaces: Vec::new(),
            sway_messenger: None,
            battery: None,
            battery_hovered: false,
            volume: None,
            tray_items: None,
            system_hovered: false,
            input: None,
        }
    }

    /// Answers a message: it updates what the bar shows, asks sway to switch
    /// workspaces when it can, and says what else to do.
    pub fn update(&mut self, message: BarMessage) -> (action: BarAction)
        requires
            old(self).wf(),
        ensures
            final(self).wf(),
            tray_view(final(self).tray_items) == match message {
                BarMessage::Tray(TrayMessage::Initialized(pairs)) => Some(pairs_map(pairs@)),
                BarMessage::Tray(TrayMessage::Add(key, item)) => match tray_view(old(self).tray_items) {
                    Some(m) => Some(m.insert(key@, item)),
                    None => None,
                },
                BarMessage::Tray(TrayMessage::Remove(key)) => match tray_view(old(self).tray_items) {
                    Some(m) => Some(m.remove(key@)),
                    None => None,
                },
                _ => tray_view(old(self).tray_items),
            },
            match message {
                BarMessage::VolumeToggleMute => action == BarAction::ToggleMute,
                BarMessage::VolumeScroll(change) => action == BarAction::ChangeVolume(change),
                _ => action == BarAction::Nothing,
            },
            final(self).clock_hovered == match message {
                BarMessage::ClockHover(h) => h,
                _ => old(self).clock_hovered,
            },
            final(self).battery_hovered == match message {
                BarMessage::BatteryHover(h) => h,
                _ => old(self).battery_hovered,
            },
            final(self).system_hovered == match message {
                BarMessage::SystemHover(h) => h,
                _ => old(self).system_hovered,
            },
            final(self).workspaces@ == match message {
                BarMessage::Sway(SwayMessage::Workspaces(w)) => w@,
                _ => old(self).workspaces@,
            },
            final(self).battery == match message {
                BarMessage::Battery(BatteryMessage::Update(info)) => Some(info),
                _ => old(self).battery,
            },
            final(self).volume == match message {
                BarMessage::Volume(info) => info,
                _ => old(self).volume,
            },
            final(self).input == match message {
                BarMessage::Sway(SwayMessage::Input(info)) => Some(info),
                _ => old(self).input,
            },
            match message {
                BarMessage::Sway(SwayMessage::Initialized(m)) => final(self).sway_messenger == Some(m),
                BarMessage::SwitchWorkspace(num) => match old(self).sway_messenger {
                    Some(m) => final(self).sway_messenger matches Some(f) && (tasks_queued(f.0)
                        == tasks_queued(m.0).push(SwayTask::SwitchWorkspace(num)) || tasks_queued(
                        f.0,
                    ) == tasks_queued(m.0)),
                    None => final(self).sway_messenger is None,
                },
                _ => final(self).sway_messenger == old(self).sway_messenger,
            },
    {
        match message {
            BarMessage::Tick => BarAction::Nothing,
            BarMessage::ClockHover(hovered) => {
                self.clock_hovered = hovered;
                BarAction::Nothing
            },
            BarMessage::Sway(message) => {
                match message {
                    SwayMessage::Initialized(messenger) => {
                        self.sway_messenger = Some(messenger);
                    },
                    SwayMessage::Workspaces(workspaces) => {
                        self.workspaces = workspaces;
                    },
                    SwayMessage::Input(input) => {
                        self.input = Some(input);
                    },
                }
                BarAction::Nothing
            },
            BarMessage::SwitchWorkspace(num) => {
                match &mut self.sway_messenger {
                    Some(messenger) => messenger.switch_workspace(num),
                    None => {},
                }
                BarAction::Nothing
            },
            BarMessage::Battery(BatteryMessage::Update(info)) => {
                self.battery = Some(info);
                BarAction::Nothing
            },
            BarMessage::BatteryHover(hovered) => {
                self.battery_hovered = hovered;
                BarAction::Nothing
            },
            BarMessage::Volume(info) => {
                self.volume = info;
                BarAction::Nothing
            },
            BarMessage::VolumeToggleMute => BarAction::ToggleMute,
            BarMessage::VolumeScroll(change) => BarAction::ChangeVolume(change),
            BarMessage::Tray(message) => {
                match message {
                    TrayMessage::Initialized(pairs) => {
                        self.tray_items = Some(TrayItems::from_pairs(pairs));
                    },
                    TrayMessage::Add(key, item) => {
                        match &mut self.tray_items {
                            Some(items) => items.insert(key, item),
                            None => {},
                        }
                    },
                    TrayMessage::Remove(key) => {
                        match &mut self.tray_items {
                            Some(items) => items.remove(key.as_str()),
                            None => {},
                        }
                    },
                }
                BarAction::Nothing
            },
            BarMessage::SystemHover(hovered) => {
                self.system_hovered = hovered;
                BarAction::Nothing
            },
        }
    }
}

} // verus!
