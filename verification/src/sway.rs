//! Workspaces and keyboard layout as the bar shows them, from the sway
//! window manager's IPC.

use vstd::prelude::*;
use crate::channel::{clone_sender, tasks_queued, try_send_task};
use crate::text::{push_signed_decimal, push_str, signed_decimal, str_eq};

verus! {

/// A message from the sway connection to the bar.
#[derive(Debug, Clone)]
pub enum SwayMessage {
    Initialized(SwayMessenger),
    Workspaces(Vec<WorkspaceInfo>),
    Input(InputInfo),
}

/// One workspace button of the bar.
#[derive(Debug, Copy, Clone, PartialEq, Eq)]
pub struct WorkspaceInfo {
    pub num: i32,
    pub visible: bool,
    pub focused: bool,
    pub urgent: bool,
    pub nonempty: bool,
}

/// What the bar reads of a workspace that sway reports.
#[derive(Debug, Copy, Clone, PartialEq, Eq)]
pub struct SwayWorkspace {
    pub num: i32,
    pub visible: bool,
    pub focused: bool,
    pub urgent: bool,
}

impl WorkspaceInfo {
    pub open spec fn spec_empty(num: i32) -> WorkspaceInfo {
        WorkspaceInfo { num, visible: false, focused: false, urgent: false, nonempty: false }
    }

    pub open spec fn spec_from(w: SwayWorkspace) -> WorkspaceInfo {
        WorkspaceInfo {
            num: w.num,
            visible: w.visible,
            focused: w.focused,
            urgent: w.urgent,
            nonempty: true,
        }
    }

    /// A placeholder for a workspace that sway does not report: nothing is
    /// on it.
    pub fn empty(num: i32) -> (info: WorkspaceInfo)
        ensures
            info == WorkspaceInfo::spec_empty(num),
    {
        WorkspaceInfo { num, visible: false, focused: false, urgent: false, nonempty: false }
    }

    /// A workspace that sway reports; it exists, so it is not empty.
    pub fn from_workspace(workspace: &SwayWorkspace) -> (info: WorkspaceInfo)
        ensures
            info == WorkspaceInfo::spec_from(*workspace),
    {
        WorkspaceInfo {
            num: workspace.num,
            visible: workspace.visible,
            focused: workspace.focused,
            urgent: workspace.urgent,
            nonempty: true,
        }
    }
}

/// The number of workspace buttons of the bar.
pub const WORKSPACES: usize = 10;

/// The buttons for workspaces `0` to `9`, in that order, after taking the
/// reported workspaces in turn: each that is numbered `0` to `9` takes the
/// place of its placeholder.
pub open spec fn workspace_slots(reported: Seq<SwayWorkspace>) -> Seq<WorkspaceInfo>
    decreases reported.len(),
{
    if reported.len() == 0 {
        Seq::new(WORKSPACES as nat, |i: int| WorkspaceInfo::spec_empty(i as i32))
    } else {
        let slots = workspace_slots(reported.drop_last());
        let w = reported.last();
        if 0 <= w.num < WORKSPACES {
            slots.update(w.num as int, WorkspaceInfo::spec_from(w))
        } else {
            slots
        }
    }
}

/// The buttons as the bar shows them: workspaces `1` to `9`, then `0`.
pub open spec fn spec_workspaces_info(reported: Seq<SwayWorkspace>) -> Seq<WorkspaceInfo> {
    let slots = workspace_slots(reported);
    slots.subrange(1, WORKSPACES as int).push(slots[0])
}

proof fn lemma_slots_len(reported: Seq<SwayWorkspace>)
    ensures
        workspace_slots(reported).len() == WORKSPACES,
        forall|i: int| 0 <= i < WORKSPACES ==> #[trigger] workspace_slots(reported)[i].num == i,
    decreases reported.len(),
{
    if reported.len() > 0 {
        lemma_slots_len(reported.drop_last());
    }
}

/// The workspace buttons of the bar, from the workspaces that sway reports.
pub fn workspaces_info(reported: &Vec<SwayWorkspace>) -> (infos: Vec<WorkspaceInfo>)
    ensures
        infos@ == spec_workspaces_info(reported@),
{
    let mut slots: Vec<WorkspaceInfo> = Vec::new();
    let mut n: usize = 0;
    while n < WORKSPACES
        invariant
            n <= WORKSPACES,
            slots@ == Seq::new(n as nat, |i: int| WorkspaceInfo::spec_empty(i as i32)),
        decreases WORKSPACES - n,
    {
        slots.push(WorkspaceInfo::empty(n as i32));
        n = n + 1;
        assert(slots@ =~= Seq::new(n as nat, |i: int| WorkspaceInfo::spec_empty(i as i32)));
    }
    let mut k: usize = 0;
    while k < reported.len()
        invariant
            k <= reported.len(),
            slots@ == workspace_slots(reported@.take(k as int)),
        decreases reported.len() - k,
    {
        proof {
            lemma_slots_len(reported@.take(k as int));
            assert(reported@.take(k + 1).drop_last() =~= reported@.take(k as int));
        }
        let w = &reported[k];
        if w.num >= 0 && (w.num as usize) < WORKSPACES {
            slots.set(w.num as usize, WorkspaceInfo::from_workspace(w));
        }
        k = k + 1;
    }
    assert(reported@.take(reported.len() as int) =~= reported@);
    proof {
        lemma_slots_len(reported@);
    }
    let zero = slots.remove(0);
    slots.push(zero);
    assert(slots@ =~= spec_workspaces_info(reported@));
    slots
}

/// The bar always shows ten workspace buttons, numbered `1` to `9` and then
/// `0`, whatever sway reports.
pub proof fn law_workspace_buttons(reported: Seq<SwayWorkspace>)
    ensures
        spec_workspaces_info(reported).len() == WORKSPACES,
        forall|i: int|
            0 <= i < WORKSPACES ==> #[trigger] spec_workspaces_info(reported)[i].num == (i + 1) % 10,
{
    lemma_slots_len(reported);
}

/// The keyboard layout indicator of the bar.
#[derive(Debug, Copy, Clone)]
pub struct InputInfo {
    pub icon: &'static str,
}

/// The icon for a keyboard layout: a flag for the layouts the bar knows, a
/// plain keyboard otherwise.
pub open spec fn spec_layout_icon(layout: Seq<char>) -> Seq<char> {
    if layout == "English (US)"@ {
        "indicator-keyboard-En"@
    } else if layout == "Spanish"@ {
        "indicator-keyboard-Es"@
    } else {
        "indicator-keyboard"@
    }
}

/// The keyboard indicator for the active layout.
pub fn input_info(layout: &str) -> (info: InputInfo)
    ensures
        info.icon@ == spec_layout_icon(layout@),
{
    let icon = if str_eq(layout, "English (US)") {
        "indicator-keyboard-En"
    } else if str_eq(layout, "Spanish") {
        "indicator-keyboard-Es"
    } else {
        "indicator-keyboard"
    };
    InputInfo { icon }
}

/// A task for the sway connection.
#[derive(Debug, Copy, Clone)]
pub enum SwayTask {
    SwitchWorkspace(i32),
}

/// The sway command that carries out a task.
pub open spec fn spec_task_command(task: SwayTask) -> Seq<char> {
    match task {
        SwayTask::SwitchWorkspace(num) => "workspace number "@ + signed_decimal(num as int),
    }
}

/// The sway command that carries out a task.
pub fn task_command(task: SwayTask) -> (command: String)
    ensures
        command@ == spec_task_command(task),
{
    match task {
        SwayTask::SwitchWorkspace(num) => {
            let mut command = String::new();
            push_str(&mut command, "workspace number ");
            push_signed_decimal(&mut command, num as i64);
            command
        },
    }
}

/// The handle through which the bar asks the sway connection to do things.
#[derive(Debug)]
pub struct SwayMessenger(pub futures::channel::mpsc::Sender<SwayTask>);

impl Clone for SwayMessenger {
    fn clone(&self) -> Self {
        SwayMessenger(clone_sender(&self.0))
    }
}

impl SwayMessenger {
    /// Asks the sway connection to switch to workspace `num`, without
    /// waiting: the task is queued, or, when it cannot be, dropped and the
    /// channel left as it was.
    pub fn switch_workspace(&mut self, num: i32)
        ensures
            tasks_queued(final(self).0) == tasks_queued(old(self).0).push(
                SwayTask::SwitchWorkspace(num),
            ) || tasks_queued(final(self).0) == tasks_queued(old(self).0),
    {
        let _ = try_send_task(&mut self.0, SwayTask::SwitchWorkspace(num));
    }
}

/// What the sway connection receives: an event from sway, or a task from the
/// bar.
pub enum SwayEvent {
    /// Something about the workspaces changed.
    Workspace,
    /// The keyboard input changed; the active layout, if sway names one.
    Input(Option<String>),
    /// Another event sway was subscribed to.
    Other,
    /// A task from the bar.
    Task(SwayTask),
}

/// What the sway connection does about an event.
pub enum SwayAction {
    /// Fetch the workspaces again and send them to the bar.
    RefreshWorkspaces,
    /// Send the new keyboard indicator to the bar.
    SendInput(InputInfo),
    /// Run a command in sway.
    RunCommand(String),
    /// Nothing.
    Ignore,
}

/// What the sway connection does about an event.
pub fn handle_event(event: &SwayEvent) -> (action: SwayAction)
    ensures
        match (event, action) {
            (SwayEvent::Workspace, SwayAction::RefreshWorkspaces) => true,
            (SwayEvent::Input(Some(layout)), SwayAction::SendInput(info)) => info.icon@
                == spec_layout_icon(layout@),
            (SwayEvent::Input(None), SwayAction::Ignore) => true,
            (SwayEvent::Other, SwayAction::Ignore) => true,
            (SwayEvent::Task(task), SwayAction::RunCommand(command)) => command@ == spec_task_command(*task),
            _ => false,
        },
{
    match event {
        SwayEvent::Workspace => SwayAction::RefreshWorkspaces,
        SwayEvent::Input(Some(layout)) => SwayAction::SendInput(input_info(layout.as_str())),
        SwayEvent::Input(None) => SwayAction::Ignore,
        SwayEvent::Other => SwayAction::Ignore,
        SwayEvent::Task(task) => SwayAction::RunCommand(task_command(*task)),
    }
}

/// Where the button of workspace `num` is: workspaces `1` to `9` first, then
/// `0`.
pub open spec fn button_of(num: int) -> int {
    if num == 0 {
        9
    } else {
        num - 1
    }
}

proof fn lemma_slot_of_report(reported: Seq<SwayWorkspace>, k: int)
    requires
        0 <= k < reported.len(),
        0 <= reported[k].num < 10,
        forall|j: int| k < j < reported.len() ==> #[trigger] reported[j].num != reported[k].num,
    ensures
        workspace_slots(reported)[reported[k].num as int] == (WorkspaceInfo {
            num: reported[k].num,
            visible: reported[k].visible,
            focused: reported[k].focused,
            urgent: reported[k].urgent,
            nonempty: true,
        }),
    decreases reported.len(),
{
    let p = reported.drop_last();
    lemma_slots_len(p);
    if k < reported.len() - 1 {
        assert(reported[reported.len() - 1].num != reported[k].num);
        assert forall|j: int| k < j < p.len() implies #[trigger] p[j].num != p[k].num by {
            assert(reported[j].num != reported[k].num);
        }
        lemma_slot_of_report(p, k);
    }
}

proof fn lemma_slot_unreported(reported: Seq<SwayWorkspace>, num: int)
    requires
        0 <= num < 10,
        forall|j: int| 0 <= j < reported.len() ==> #[trigger] reported[j].num != num,
    ensures
        workspace_slots(reported)[num] == (WorkspaceInfo {
            num: num as i32,
            visible: false,
            focused: false,
            urgent: false,
            nonempty: false,
        }),
    decreases reported.len(),
{
    if reported.len() > 0 {
        let p = reported.drop_last();
        lemma_slots_len(p);
        assert(reported[reported.len() - 1].num != num);
        assert forall|j: int| 0 <= j < p.len() implies #[trigger] p[j].num != num by {
            assert(reported[j].num != num);
        }
        lemma_slot_unreported(p, num);
    }
}

/// Each button shows what sway last reported of its workspace: a workspace
/// numbered `0` to `9` that sway reports has its button visible, focused
/// and urgent exactly as the last report of it says, and marked as having
/// windows; a workspace that sway does not report has a plain empty button.
pub proof fn law_buttons_show_reports(reported: Seq<SwayWorkspace>, k: int, num: int)
    ensures
        0 <= k < reported.len() && 0 <= reported[k].num < 10 && (forall|j: int|
            k < j < reported.len() ==> #[trigger] reported[j].num != reported[k].num)
            ==> spec_workspaces_info(reported)[button_of(reported[k].num as int)] == (WorkspaceInfo {
            num: reported[k].num,
            visible: reported[k].visible,
            focused: reported[k].focused,
            urgent: reported[k].urgent,
            nonempty: true,
        }),
        0 <= num < 10 && (forall|j: int| 0 <= j < reported.len() ==> #[trigger] reported[j].num != num)
            ==> spec_workspaces_info(reported)[button_of(num)] == (WorkspaceInfo {
            num: num as i32,
            visible: false,
            focused: false,
            urgent: false,
            nonempty: false,
        }),
{
    lemma_slots_len(reported);
    if 0 <= k < reported.len() && 0 <= reported[k].num < 10 && (forall|j: int|
        k < j < reported.len() ==> #[trigger] reported[j].num != reported[k].num) {
        lemma_slot_of_report(reported, k);
    }
    if 0 <= num < 10 && (forall|j: int| 0 <= j < reported.len() ==> #[trigger] reported[j].num != num) {
        lemma_slot_unreported(reported, num);
    }
}

} // verus!
