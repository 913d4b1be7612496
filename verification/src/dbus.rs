//! The notification server's side of the `org.freedesktop.Notifications`
//! D-Bus interface: notification ids, the signals sent back to clients, and
//! the values the interface answers with.

use vstd::prelude::*;
use crate::channel::{clone_sender, signals_queued, try_send_signal};
use crate::notification::Notification;

verus! {

broadcast use vstd::std_specs::hash::group_hash_axioms;

/// The handle through which the GUI asks the D-Bus task to send signals.
#[derive(Debug)]
pub struct NotificationSignaller(pub futures::channel::mpsc::Sender<DbusSignal>);

impl Clone for NotificationSignaller {
    fn clone(&self) -> Self {
        NotificationSignaller(clone_sender(&self.0))
    }
}

impl NotificationSignaller {
    /// Asks for the `NotificationClosed` signal of notification `id`, closed
    /// for `reason`; whether the request could be queued. A request that is
    /// not queued leaves the channel as it was.
    pub fn close_notification(&mut self, id: u32, reason: NotificationClosedReason) -> (queued: bool)
        ensures
            queued ==> signals_queued(final(self).0) == signals_queued(old(self).0).push(
                DbusSignal::NotificationClosed(id, reason),
            ),
            !queued ==> signals_queued(final(self).0) == signals_queued(old(self).0),
    {
        try_send_signal(&mut self.0, DbusSignal::NotificationClosed(id, reason))
    }

    /// Asks for the `ActionInvoked` signal for action `key` of notification
    /// `id`; whether the request could be queued. A request that is not
    /// queued leaves the channel as it was.
    pub fn action_invoked(&mut self, id: u32, key: String) -> (queued: bool)
        ensures
            queued ==> signals_queued(final(self).0) == signals_queued(old(self).0).push(
                DbusSignal::ActionInvoked(id, key),
            ),
            !queued ==> signals_queued(final(self).0) == signals_queued(old(self).0),
    {
        try_send_signal(&mut self.0, DbusSignal::ActionInvoked(id, key))
    }
}

/// A message from the D-Bus task to the GUI.
#[derive(Debug, Clone)]
pub enum DbusMessage {
    Initialized(NotificationSignaller),
    Notify(Notification),
    CloseNotification(u32),
}

/// A signal to clients of the notification server.
#[derive(Debug, Clone, PartialEq, Eq)]
pub enum DbusSignal {
    NotificationClosed(u32, NotificationClosedReason),
    ActionInvoked(u32, String),
}

/// Why a notification was closed.
#[derive(Debug, Clone, Copy, PartialEq, Eq)]
pub enum NotificationClosedReason {
    Expired,
    DismissedByUser,
    ClosedByCloseNotification,
    Undefined,
}

/// The code of a close reason in the `NotificationClosed` signal.
pub open spec fn spec_reason_code(reason: NotificationClosedReason) -> u32 {
    match reason {
        NotificationClosedReason::Expired => 1,
        NotificationClosedReason::DismissedByUser => 2,
        NotificationClosedReason::ClosedByCloseNotification => 3,
        NotificationClosedReason::Undefined => 4,
    }
}

impl NotificationClosedReason {
    /// The code of the reason in the `NotificationClosed` signal.
    pub fn code(self) -> (code: u32)
        ensures
            code == spec_reason_code(self),
    {
        match self {
            NotificationClosedReason::Expired => 1,
            NotificationClosedReason::DismissedByUser => 2,
            NotificationClosedReason::ClosedByCloseNotification => 3,
            NotificationClosedReason::Undefined => 4,
        }
    }
}

/// Raw image data that a client sends with a notification.
#[derive(Debug, Clone, PartialEq, Eq)]
pub struct ImageData {
    pub width: i32,
    pub height: i32,
    pub rowstride: i32,
    pub has_alpha: bool,
    pub bits_per_sample: i32,
    pub channels: i32,
    pub data: Vec<u8>,
}

/// The ids of notifications: handed out in increasing order from 1, skipping
/// those still in use and wrapping round after `u32::MAX`; 0 is never used.
pub struct IdAllocator {
    next_id: u32,
    used_ids: std::collections::HashSet<u32>,
}

impl IdAllocator {
    /// The search starts at an id, every id handed out is one, and finitely
    /// many were handed out.
    pub closed spec fn wf(self) -> bool {
        &&& self.next_id >= 1
        &&& self.used_ids@.finite()
        &&& forall|id: u32| #[trigger] self.used_ids@.contains(id) ==> id >= 1
    }

    /// The id the next search starts from.
    pub closed spec fn next(self) -> u32 {
        self.next_id
    }

    /// The ids handed out so far.
    pub closed spec fn used(self) -> Set<u32> {
        self.used_ids@
    }

    /// A fresh allocator: no ids used, the first one handed out will be 1.
    pub fn new() -> (a: IdAllocator)
        ensures
            a.wf(),
            a.next() == 1,
            a.used() == Set::<u32>::empty(),
    {
        IdAllocator { next_id: 1, used_ids: std::collections::HashSet::new() }
    }

    /// Whether every id has been handed out, so that none is left.
    pub fn is_exhausted(&self) -> (b: bool)
        requires
            self.wf(),
        ensures
            b == (self.used().len() >= u32::MAX),
    {
        self.used_ids.len() >= 4294967295usize
    }

    /// Hands out the first id that is not in use, searching from where the
    /// last search stopped and wrapping round after `u32::MAX` to 1.
    pub fn get_next_id(&mut self) -> (id: u32)
        requires
            old(self).wf(),
            old(self).used().len() < u32::MAX,
        ensures
            final(self).wf(),
            next_id_step(*old(self), *final(self), id),
    {
        proof {
            lemma_free_id_exists(self.used_ids@);
        }
        let ghost start = self.next_id;
        let ghost used = self.used_ids@;
        let ghost free = choose|id: u32| 1 <= id && !used.contains(id);
        while self.used_ids.contains(&self.next_id)
            invariant
                old(self).wf(),
                used == old(self).used_ids@,
                start == old(self).next_id,
                used == self.used_ids@,
                1 <= self.next_id,
                1 <= free,
                !used.contains(free),
                forall|x: u32| in_cyclic_range(start, self.next_id, x) ==> used.contains(x),
            decreases (if self.next_id <= free {
                free - self.next_id
            } else {
                u32::MAX - self.next_id + free
            }),
        {
            let ghost n = self.next_id;
            if self.next_id == u32::MAX {
                self.next_id = 1;
            } else {
                self.next_id = self.next_id + 1;
            }
            proof {
                assert forall|x: u32| in_cyclic_range(start, self.next_id, x) implies used.contains(x) by {
                    if x != n {
                        assert(in_cyclic_range(start, n, x));
                    }
                }
            }
        }
        let id = self.next_id;
        self.used_ids.insert(id);
        id
    }

    /// The id a notification gets: the one it replaces, which is in use from
    /// then on, or a fresh one when it replaces none (`replaces_id` is 0).
    pub fn id_for(&mut self, replaces_id: u32) -> (id: u32)
        requires
            old(self).wf(),
            replaces_id == 0 ==> old(self).used().len() < u32::MAX,
        ensures
            final(self).wf(),
            replaces_id != 0 ==> {
                &&& id == replaces_id
                &&& final(self).used() == old(self).used().insert(replaces_id)
                &&& final(self).next() == old(self).next()
            },
            replaces_id == 0 ==> next_id_step(*old(self), *final(self), id),
            id_for_step(*old(self), *final(self), replaces_id, id),
    {
        if replaces_id == 0 {
            self.get_next_id()
        } else {
            self.used_ids.insert(replaces_id);
            replaces_id
        }
    }
}

/// `x` lies in the cyclic interval of ids from `from` up to, but not
/// including, `to`, wrapping round after `u32::MAX` to 1.
pub open spec fn in_cyclic_range(from: u32, to: u32, x: u32) -> bool {
    if from <= to {
        from <= x < to
    } else {
        x >= from || (1 <= x < to)
    }
}

/// `after` is `before` once it has handed out `id`: the first id at or after
/// where the search starts, cyclically, that was not in use.
pub open spec fn next_id_step(before: IdAllocator, after: IdAllocator, id: u32) -> bool {
    &&& id >= 1
    &&& !before.used().contains(id)
    &&& forall|x: u32| in_cyclic_range(before.next(), id, x) ==> #[trigger] before.used().contains(x)
    &&& after.used() == before.used().insert(id)
    &&& after.next() == id
}

proof fn lemma_free_id_exists(used: Set<u32>)
    requires
        used.finite(),
        used.len() < u32::MAX,
    ensures
        exists|id: u32| 1 <= id && !used.contains(id),
{
    if forall|id: u32| 1 <= id ==> used.contains(id) {
        let f = |x: u32| x as int;
        let m = used.map(f);
        assert(vstd::relations::injective_on(f, used)) by {
            assert forall|a: u32, b: u32| used.contains(a) && used.contains(b) && f(a) == f(b) implies a == b by {}
        }
        vstd::set_lib::lemma_map_size(used, m, f);
        vstd::set_lib::lemma_int_range(1, u32::MAX + 1);
        let range = vstd::set_lib::set_int_range(1, u32::MAX + 1);
        assert(range.subset_of(m)) by {
            assert forall|i: int| range.contains(i) implies m.contains(i) by {
                let x = i as u32;
                assert(used.contains(x));
                assert(f(x) == i);
            }
        }
        vstd::set_lib::lemma_len_subset(range, m);
    }
}

/// Ids are never handed out twice: an id handed out is in use afterwards, and
/// the next one handed out is another.
pub proof fn law_fresh_ids_differ(a0: IdAllocator, a1: IdAllocator, a2: IdAllocator, id1: u32, id2: u32)
    requires
        next_id_step(a0, a1, id1),
        next_id_step(a1, a2, id2),
    ensures
        id1 != id2,
        a2.used().contains(id1),
        a2.used().contains(id2),
{
}

/// What one call of [`IdAllocator::id_for`] does: a replacing notification
/// keeps the id it replaces, which is in use from then on; a new one gets a
/// fresh id.
pub open spec fn id_for_step(before: IdAllocator, after: IdAllocator, replaces_id: u32, id: u32) -> bool {
    if replaces_id != 0 {
        &&& id == replaces_id
        &&& after.used() == before.used().insert(replaces_id)
        &&& after.next() == before.next()
    } else {
        next_id_step(before, after, id)
    }
}

proof fn lemma_ids_stay_used(states: Seq<IdAllocator>, replaces: Seq<u32>, ids: Seq<u32>, n: int)
    requires
        states.len() == ids.len() + 1,
        replaces.len() == ids.len(),
        forall|i: int|
            0 <= i < ids.len() ==> id_for_step(
                #[trigger] states[i],
                states[i + 1],
                replaces[i],
                ids[i],
            ),
        0 <= n <= ids.len(),
    ensures
        forall|j: int| 0 <= j < n ==> states[n].used().contains(#[trigger] ids[j]),
    decreases n,
{
    if n > 0 {
        lemma_ids_stay_used(states, replaces, ids, n - 1);
        assert(id_for_step(states[n - 1], states[n], replaces[n - 1], ids[n - 1]));
        assert(states[n].used() == states[n - 1].used().insert(ids[n - 1]));
    }
}

/// Ids are unique over the whole life of an allocator: in any run of calls
/// of `id_for`, a new notification (one that replaces none) gets an id that
/// no earlier notification was given or replaced.
pub proof fn law_new_ids_unique(states: Seq<IdAllocator>, replaces: Seq<u32>, ids: Seq<u32>)
    requires
        states.len() == ids.len() + 1,
        replaces.len() == ids.len(),
        forall|i: int|
            0 <= i < ids.len() ==> id_for_step(
                #[trigger] states[i],
                states[i + 1],
                replaces[i],
                ids[i],
            ),
    ensures
        forall|i: int, j: int|
            0 <= j < i < ids.len() && replaces[i] == 0 ==> #[trigger] ids[i] != #[trigger] ids[j],
{
    assert forall|i: int, j: int|
        0 <= j < i < ids.len() && replaces[i] == 0 implies #[trigger] ids[i] != #[trigger] ids[j] by {
        lemma_ids_stay_used(states, replaces, ids, i);
        assert(id_for_step(states[i], states[i + 1], replaces[i], ids[i]));
        assert(states[i].used().contains(ids[j]));
    }
}

/// An id that a notification replaces stays in use: no later new
/// notification is given it.
pub proof fn law_replaced_id_stays_used(
    a0: IdAllocator,
    a1: IdAllocator,
    a2: IdAllocator,
    replaced: u32,
    id: u32,
)
    requires
        a1.used() == a0.used().insert(replaced),
        next_id_step(a1, a2, id),
    ensures
        id != replaced,
{
}

/// The places the icon of a notification is looked for, in this order: the
/// image data it sends, the image path it names, the icon of its
/// application, and its icon data.
#[derive(Debug, Clone, Copy, PartialEq, Eq, Structural)]
pub enum IconSource {
    ImageData,
    ImagePath,
    AppIcon,
    IconData,
}

/// The place to look after `source`, if any.
pub open spec fn next_icon_source(source: IconSource) -> Option<IconSource> {
    match source {
        IconSource::ImageData => Some(IconSource::ImagePath),
        IconSource::ImagePath => Some(IconSource::AppIcon),
        IconSource::AppIcon => Some(IconSource::IconData),
        IconSource::IconData => None,
    }
}

/// What to do once a place has been looked in.
#[derive(Debug, Clone, PartialEq, Eq)]
pub enum IconStep {
    /// Show this icon.
    Use(String),
    /// Look in this place next.
    Try(IconSource),
}

/// The step after looking for a notification's icon in `source`, where
/// `found` is what was found there: the icon found, else the next place to
/// look, and after the last place the default icon.
pub fn next_icon_step(source: IconSource, found: Option<String>, default_icon: &str) -> (step: IconStep)
    ensures
        match found {
            Some(p) => step matches IconStep::Use(q) && q@ == p@,
            None => match next_icon_source(source) {
                Some(n) => step == IconStep::Try(n),
                None => step matches IconStep::Use(q) && q@ == default_icon@,
            },
        },
{
    match found {
        Some(p) => IconStep::Use(p),
        None => match source {
            IconSource::ImageData => IconStep::Try(IconSource::ImagePath),
            IconSource::ImagePath => IconStep::Try(IconSource::AppIcon),
            IconSource::AppIcon => IconStep::Try(IconSource::IconData),
            IconSource::IconData => IconStep::Use(String::from_str(default_icon)),
        },
    }
}

/// The name a notification shows: that of the desktop entry it names, if
/// one was found, else the application name it sent.
pub fn notification_name(found: Option<String>, app_name: String) -> (name: String)
    ensures
        name@ == match found {
            Some(n) => n@,
            None => app_name@,
        },
{
    match found {
        Some(n) => n,
        None => app_name,
    }
}

/// The capabilities the server announces.
pub open spec fn spec_capabilities() -> Seq<Seq<char>> {
    seq!["actions"@, "body"@, "body-markup"@, "body-images"@, "persistence"@]
}

/// The capabilities the server announces: actions, bodies with markup and
/// images, and notifications that stay until dismissed.
pub fn capabilities() -> (caps: Vec<String>)
    ensures
        caps@.map_values(|c: String| c@) == spec_capabilities(),
{
    let caps = vec![
        String::from_str("actions"),
        String::from_str("body"),
        String::from_str("body-markup"),
        String::from_str("body-images"),
        String::from_str("persistence"),
    ];
    assert(caps@.map_values(|c: String| c@) =~= spec_capabilities());
    caps
}

/// The name, vendor, version and specification version the server reports.
pub fn server_information() -> (info: (String, String, String, String))
    ensures
        info.0@ == "Baelyk's Notification Server"@,
        info.1@ == "Baelyk"@,
        info.2@ == crate::logging::PACKAGE_VERSION@,
        info.3@ == "1.2"@,
{
    (
        String::from_str("Baelyk's Notification Server"),
        String::from_str("Baelyk"),
        String::from_str(crate::logging::PACKAGE_VERSION),
        String::from_str("1.2"),
    )
}

} // verus!
