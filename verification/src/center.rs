//! The notifications on screen and the decisions of the notification window:
//! which notifications it shows, in which order, when they go, which signals
//! go back to their clients, and when the window opens, resizes and closes.

use vstd::prelude::*;
use crate::channel::signals_queued;
use crate::dbus::{DbusMessage, DbusSignal, NotificationClosedReason, NotificationSignaller};
use crate::notification::Notification;

verus! {

broadcast use vstd::std_specs::hash::group_hash_axioms;

/// The width of the notification window.
pub const WIDTH: u32 = 500;

/// A message to the notification window.
#[derive(Debug, Clone)]
pub enum CenterMessage {
    /// The user chose an action of a notification.
    ActionInvoked(u32, String),
    /// The notifications need this height.
    ContainerResized(u32),
    Dbus(DbusMessage),
    /// A second went by.
    Tick,
    /// The user dismissed a notification.
    UserDismissed(u32),
    /// The window was closed.
    WindowClosed,
}

/// What happens to the window.
#[derive(Debug, Clone, Copy, PartialEq, Eq)]
pub enum WindowAction {
    Nothing,
    /// Open the window.
    Open,
    /// Give the window this size.
    Resize { width: u32, height: u32 },
    /// Close the window.
    Remove,
}

/// What an update asks of the outside: a window action and the signals for
/// clients, and whether all the signals could be queued.
#[derive(Debug)]
pub struct Effects {
    pub window: WindowAction,
    pub signals: Vec<DbusSignal>,
    pub queued: bool,
}

/// The state of the notification window.
pub struct NotificationCenter {
    notifications: std::collections::HashMap<u32, Notification>,
    alerts: Vec<u32>,
    signaller: Option<NotificationSignaller>,
    window_open: bool,
}

/// The mathematical value of a [`NotificationCenter`].
pub struct CenterView {
    /// The notifications by id.
    pub notifications: Map<u32, Notification>,
    /// The ids of the notifications on screen, top to bottom.
    pub alerts: Seq<u32>,
    /// Whether signals to clients can be sent.
    pub signaller_ready: bool,
    /// Whether the window is open.
    pub window_open: bool,
}

impl View for NotificationCenter {
    type V = CenterView;

    closed spec fn view(&self) -> CenterView {
        CenterView {
            notifications: self.notifications@,
            alerts: self.alerts@,
            signaller_ready: self.signaller is Some,
            window_open: self.window_open,
        }
    }
}

/// Each notification is on screen once, and each on screen is known.
pub open spec fn center_wf(c: CenterView) -> bool {
    &&& c.alerts.no_duplicates()
    &&& forall|id: u32| c.notifications.contains_key(id) <==> #[trigger] c.alerts.contains(id)
}

/// `s` without `id`, in order.
pub open spec fn without(s: Seq<u32>, id: u32) -> Seq<u32>
    decreases s.len(),
{
    if s.len() == 0 {
        s
    } else if s.last() == id {
        without(s.drop_last(), id)
    } else {
        without(s.drop_last(), id).push(s.last())
    }
}

/// The notification `id` is gone.
pub open spec fn spec_remove(c: CenterView, id: u32) -> CenterView {
    CenterView {
        notifications: c.notifications.remove(id),
        alerts: without(c.alerts, id),
        ..c
    }
}

/// The notification has expired at `now`.
pub open spec fn is_expired(n: Notification, now: i64) -> bool {
    n.expire_time matches Some(t) && now > t
}

/// The ids of the notifications on screen that have expired at `now`, top to
/// bottom.
pub open spec fn expired_ids(alerts: Seq<u32>, notifications: Map<u32, Notification>, now: i64) -> Seq<u32>
    decreases alerts.len(),
{
    if alerts.len() == 0 {
        alerts
    } else if is_expired(notifications[alerts.last()], now) {
        expired_ids(alerts.drop_last(), notifications, now).push(alerts.last())
    } else {
        expired_ids(alerts.drop_last(), notifications, now)
    }
}

/// The notifications `ids` are gone, removed in order.
pub open spec fn remove_all(c: CenterView, ids: Seq<u32>) -> CenterView
    decreases ids.len(),
{
    if ids.len() == 0 {
        c
    } else {
        spec_remove(remove_all(c, ids.drop_last()), ids.last())
    }
}

/// The signals that say the notifications `ids` were closed for `reason`.
pub open spec fn closed_signals(ids: Seq<u32>, reason: NotificationClosedReason) -> Seq<DbusSignal> {
    ids.map_values(|id: u32| DbusSignal::NotificationClosed(id, reason))
}

/// The signals that go out, if signals can be sent at all.
pub open spec fn sent(c: CenterView, signals: Seq<DbusSignal>) -> Seq<DbusSignal> {
    if c.signaller_ready {
        signals
    } else {
        Seq::empty()
    }
}

/// The state after the expired notifications are gone, and the signals that
/// say so.
pub open spec fn spec_prune(c: CenterView, now: i64) -> (CenterView, Seq<DbusSignal>) {
    let ids = expired_ids(c.alerts, c.notifications, now);
    (remove_all(c, ids), sent(c, closed_signals(ids, NotificationClosedReason::Expired)))
}

proof fn lemma_without_absent(s: Seq<u32>, id: u32)
    requires
        !s.contains(id),
    ensures
        without(s, id) == s,
    decreases s.len(),
{
    if s.len() > 0 {
        assert(!s.drop_last().contains(id)) by {
            if s.drop_last().contains(id) {
                let k = choose|k: int| 0 <= k < s.drop_last().len() && s.drop_last()[k] == id;
                assert(s[k] == id);
            }
        }
        lemma_without_absent(s.drop_last(), id);
        assert(s.drop_last().push(s.last()) =~= s);
    }
}

proof fn lemma_without_remove(s: Seq<u32>, i: int, id: u32)
    requires
        s.no_duplicates(),
        0 <= i < s.len(),
        s[i] == id,
    ensures
        without(s, id) == s.remove(i),
    decreases s.len(),
{
    if i == s.len() - 1 {
        assert(!s.drop_last().contains(id)) by {
            if s.drop_last().contains(id) {
                let k = choose|k: int| 0 <= k < s.drop_last().len() && s.drop_last()[k] == id;
                assert(s[k] == s[i]);
            }
        }
        lemma_without_absent(s.drop_last(), id);
        assert(s.remove(i) =~= s.drop_last());
    } else {
        lemma_without_remove(s.drop_last(), i, id);
        assert(s.last() != id);
        assert(s.remove(i) =~= s.drop_last().remove(i).push(s.last()));
    }
}

proof fn lemma_without_contains(s: Seq<u32>, id: u32)
    ensures
        forall|x: u32| #[trigger] without(s, id).contains(x) <==> (s.contains(x) && x != id),
        s.no_duplicates() ==> without(s, id).no_duplicates(),
    decreases s.len(),
{
    if s.len() > 0 {
        let p = s.drop_last();
        lemma_without_contains(p, id);
        assert forall|x: u32| #[trigger] s.contains(x) <==> (p.contains(x) || x == s.last()) by {
            if s.contains(x) {
                let k = choose|k: int| 0 <= k < s.len() && s[k] == x;
                if k < s.len() - 1 {
                    assert(p[k] == x);
                }
            }
            if p.contains(x) {
                let k = choose|k: int| 0 <= k < p.len() && p[k] == x;
                assert(s[k] == x);
            }
            if x == s.last() {
                assert(s[s.len() - 1] == x);
            }
        }
        if s.last() != id {
            let w = without(p, id);
            assert forall|x: u32| #[trigger] w.push(s.last()).contains(x) <==> (w.contains(x) || x
                == s.last()) by {
                if w.push(s.last()).contains(x) {
                    let k = choose|k: int| 0 <= k < w.push(s.last()).len() && w.push(s.last())[k] == x;
                    if k < w.len() {
                        assert(w[k] == x);
                    }
                }
                if w.contains(x) {
                    let k = choose|k: int| 0 <= k < w.len() && w[k] == x;
                    assert(w.push(s.last())[k] == x);
                }
                if x == s.last() {
                    assert(w.push(s.last())[w.len() as int] == x);
                }
            }
            if s.no_duplicates() {
                assert(!p.contains(s.last())) by {
                    if p.contains(s.last()) {
                        let k = choose|k: int| 0 <= k < p.len() && p[k] == s.last();
                        assert(s[k] == s[s.len() - 1]);
                    }
                }
                assert(p.no_duplicates()) by {
                    assert forall|a: int, b: int| 0 <= a < p.len() && 0 <= b < p.len() && a != b implies p[a] != p[b] by {
                        assert(s[a] == p[a] && s[b] == p[b]);
                    }
                }
                assert(w.push(s.last()).no_duplicates()) by {
                    assert forall|a: int, b: int|
                        0 <= a < w.push(s.last()).len() && 0 <= b < w.push(s.last()).len() && a != b implies w.push(
                        s.last(),
                    )[a] != w.push(s.last())[b] by {
                        if a < w.len() && b < w.len() {
                        } else if a < w.len() {
                            assert(w.contains(w[a]));
                        } else if b < w.len() {
                            assert(w.contains(w[b]));
                        }
                    }
                }
            }
        } else if s.no_duplicates() {
            assert(p.no_duplicates()) by {
                assert forall|a: int, b: int| 0 <= a < p.len() && 0 <= b < p.len() && a != b implies p[a] != p[b] by {
                    assert(s[a] == p[a] && s[b] == p[b]);
                }
            }
        }
    }
}

proof fn lemma_remove_wf(c: CenterView, id: u32)
    requires
        center_wf(c),
    ensures
        center_wf(spec_remove(c, id)),
{
    lemma_without_contains(c.alerts, id);
}

/// The outcome of an update: the new state, what happens to the window, and
/// the signals that go out.
pub struct Outcome {
    pub state: CenterView,
    pub window: WindowAction,
    pub signals: Seq<DbusSignal>,
}

/// The state once `n` is shown: a new notification goes to the bottom, one
/// that replaces another takes its place.
pub open spec fn spec_show(c: CenterView, n: Notification) -> CenterView {
    CenterView {
        notifications: c.notifications.insert(n.id, n),
        alerts: if c.notifications.contains_key(n.id) {
            c.alerts
        } else {
            c.alerts.push(n.id)
        },
        ..c
    }
}

/// What the window does about a message, once the expired notifications are
/// gone; the window closes whenever nothing is left on it.
pub open spec fn spec_update(c: CenterView, message: CenterMessage, now: i64) -> Outcome {
    let p = spec_prune(c, now).0;
    let expired = spec_prune(c, now).1;
    let o = match message {
        CenterMessage::ContainerResized(height) => Outcome {
            state: p,
            window: if p.window_open {
                WindowAction::Resize { width: WIDTH, height }
            } else {
                WindowAction::Nothing
            },
            signals: expired,
        },
        CenterMessage::ActionInvoked(id, key) => Outcome {
            state: p,
            window: WindowAction::Nothing,
            signals: expired + sent(p, seq![DbusSignal::ActionInvoked(id, key)]),
        },
        CenterMessage::Dbus(DbusMessage::Initialized(_)) => Outcome {
            state: CenterView { signaller_ready: true, ..p },
            window: WindowAction::Nothing,
            signals: expired,
        },
        CenterMessage::Dbus(DbusMessage::Notify(n)) => Outcome {
            state: CenterView { window_open: true, ..spec_show(p, n) },
            window: if p.window_open {
                WindowAction::Nothing
            } else {
                WindowAction::Open
            },
            signals: expired,
        },
        CenterMessage::Dbus(DbusMessage::CloseNotification(id)) => Outcome {
            state: spec_remove(p, id),
            window: WindowAction::Nothing,
            signals: expired + sent(
                p,
                seq![DbusSignal::NotificationClosed(id, NotificationClosedReason::ClosedByCloseNotification)],
            ),
        },
        CenterMessage::Tick => Outcome { state: p, window: WindowAction::Nothing, signals: expired },
        CenterMessage::UserDismissed(id) => Outcome {
            state: spec_remove(p, id),
            window: WindowAction::Nothing,
            signals: expired + sent(
                p,
                seq![DbusSignal::NotificationClosed(id, NotificationClosedReason::DismissedByUser)],
            ),
        },
        CenterMessage::WindowClosed => Outcome {
            state: CenterView { window_open: false, ..p },
            window: WindowAction::Nothing,
            signals: expired,
        },
    };
    if o.state.alerts.len() == 0 && o.state.window_open {
        Outcome { window: WindowAction::Remove, ..o }
    } else {
        o
    }
}

proof fn lemma_remove_all_wf(c: CenterView, ids: Seq<u32>)
    requires
        center_wf(c),
    ensures
        center_wf(remove_all(c, ids)),
        remove_all(c, ids).signaller_ready == c.signaller_ready,
        remove_all(c, ids).window_open == c.window_open,
    decreases ids.len(),
{
    if ids.len() > 0 {
        lemma_remove_all_wf(c, ids.drop_last());
        lemma_remove_wf(remove_all(c, ids.drop_last()), ids.last());
    }
}

proof fn lemma_show_wf(c: CenterView, n: Notification)
    requires
        center_wf(c),
    ensures
        center_wf(spec_show(c, n)),
{
    let s = spec_show(c, n);
    if !c.notifications.contains_key(n.id) {
        assert(!c.alerts.contains(n.id));
        assert forall|id: u32| s.notifications.contains_key(id) <==> #[trigger] s.alerts.contains(id) by {
            if s.alerts.contains(id) && id != n.id {
                let k = choose|k: int| 0 <= k < s.alerts.len() && s.alerts[k] == id;
                assert(c.alerts[k] == id);
            }
            if c.alerts.contains(id) {
                let k = choose|k: int| 0 <= k < c.alerts.len() && c.alerts[k] == id;
                assert(s.alerts[k] == id);
            }
            if id == n.id {
                assert(s.alerts[c.alerts.len() as int] == id);
            }
        }
        assert(s.alerts.no_duplicates()) by {
            assert forall|a: int, b: int| 0 <= a < s.alerts.len() && 0 <= b < s.alerts.len() && a != b implies s.alerts[a] != s.alerts[b] by {
                if a < c.alerts.len() && b < c.alerts.len() {
                } else if a < c.alerts.len() {
                    assert(c.alerts.contains(c.alerts[a]));
                } else if b < c.alerts.len() {
                    assert(c.alerts.contains(c.alerts[b]));
                }
            }
        }
    }
}


/// `s` is `t` with some of its items left out and the others kept in order.
pub open spec fn is_subsequence<T>(s: Seq<T>, t: Seq<T>) -> bool
    decreases t.len(),
{
    if t.len() == 0 {
        s.len() == 0
    } else {
        ||| is_subsequence(s, t.drop_last())
        ||| s.len() > 0 && s.last() == t.last() && is_subsequence(s.drop_last(), t.drop_last())
    }
}

/// The record `after` is `before` followed by some of the signals `asked`,
/// in order: those whose requests could be queued.
pub open spec fn grew_by(before: Seq<DbusSignal>, after: Seq<DbusSignal>, asked: Seq<DbusSignal>) -> bool {
    &&& after.len() >= before.len()
    &&& after.take(before.len() as int) == before
    &&& is_subsequence(after.skip(before.len() as int), asked)
}

proof fn lemma_subsequence_len<T>(s: Seq<T>, t: Seq<T>)
    requires
        is_subsequence(s, t),
    ensures
        s.len() <= t.len(),
        s.len() == t.len() ==> s == t,
    decreases t.len(),
{
    if t.len() > 0 {
        if is_subsequence(s, t.drop_last()) {
            lemma_subsequence_len(s, t.drop_last());
        } else {
            lemma_subsequence_len(s.drop_last(), t.drop_last());
            if s.len() == t.len() {
                assert(s =~= s.drop_last().push(s.last()));
                assert(t =~= t.drop_last().push(t.last()));
            }
        }
    }
}

proof fn lemma_subsequence_empty<T>(t: Seq<T>)
    ensures
        is_subsequence(Seq::<T>::empty(), t),
    decreases t.len(),
{
    if t.len() > 0 {
        lemma_subsequence_empty(t.drop_last());
    }
}

proof fn lemma_subsequence_refl<T>(t: Seq<T>)
    ensures
        is_subsequence(t, t),
    decreases t.len(),
{
    if t.len() > 0 {
        lemma_subsequence_refl(t.drop_last());
    }
}

proof fn lemma_subsequence_concat<T>(x: Seq<T>, s1: Seq<T>, y: Seq<T>, s2: Seq<T>)
    requires
        is_subsequence(x, s1),
        is_subsequence(y, s2),
    ensures
        is_subsequence(x + y, s1 + s2),
    decreases s2.len(),
{
    if s2.len() == 0 {
        assert(y.len() == 0);
        assert(x + y =~= x);
        assert(s1 + s2 =~= s1);
    } else {
        assert((s1 + s2).drop_last() =~= s1 + s2.drop_last());
        assert((s1 + s2).last() == s2.last());
        if is_subsequence(y, s2.drop_last()) {
            lemma_subsequence_concat(x, s1, y, s2.drop_last());
        } else {
            lemma_subsequence_concat(x, s1, y.drop_last(), s2.drop_last());
            assert((x + y).drop_last() =~= x + y.drop_last());
            assert((x + y).last() == y.last());
        }
    }
}

proof fn lemma_subsequence_trans<T>(a: Seq<T>, b: Seq<T>, c: Seq<T>)
    requires
        is_subsequence(a, b),
        is_subsequence(b, c),
    ensures
        is_subsequence(a, c),
    decreases c.len(),
{
    if c.len() == 0 {
        assert(b.len() == 0);
        lemma_subsequence_len(a, b);
    } else if is_subsequence(b, c.drop_last()) {
        lemma_subsequence_trans(a, b, c.drop_last());
    } else {
        assert(b.len() > 0);
        if is_subsequence(a, b.drop_last()) {
            lemma_subsequence_trans(a, b.drop_last(), c.drop_last());
        } else {
            lemma_subsequence_trans(a.drop_last(), b.drop_last(), c.drop_last());
        }
    }
}

/// One request, queued or not.
proof fn lemma_grew_by_one(before: Seq<DbusSignal>, after: Seq<DbusSignal>, signal: DbusSignal)
    requires
        after == before.push(signal) || after == before,
    ensures
        grew_by(before, after, seq![signal]),
{
    let one = seq![signal];
    assert(one.drop_last() =~= Seq::<DbusSignal>::empty());
    if after == before {
        assert(after.take(before.len() as int) =~= before);
        assert(after.skip(before.len() as int) =~= Seq::<DbusSignal>::empty());
        lemma_subsequence_empty(one);
    } else {
        assert(after.take(before.len() as int) =~= before);
        assert(after.skip(before.len() as int) =~= one);
        lemma_subsequence_refl(one);
    }
}

/// Two rounds of requests, one after the other, are one round of all of
/// them; and all were queued exactly when each round's were.
proof fn lemma_grew_by_trans(
    a: Seq<DbusSignal>,
    b: Seq<DbusSignal>,
    c: Seq<DbusSignal>,
    s1: Seq<DbusSignal>,
    s2: Seq<DbusSignal>,
)
    requires
        grew_by(a, b, s1),
        grew_by(b, c, s2),
    ensures
        grew_by(a, c, s1 + s2),
        (c == a + (s1 + s2)) == (b == a + s1 && c == b + s2),
{
    let x = b.skip(a.len() as int);
    let y = c.skip(b.len() as int);
    assert(b =~= a + x);
    assert(c =~= b + y);
    assert(c.skip(a.len() as int) =~= x + y);
    assert(c.take(a.len() as int) =~= a);
    lemma_subsequence_concat(x, s1, y, s2);
    lemma_subsequence_len(x, s1);
    lemma_subsequence_len(y, s2);
    if c == a + (s1 + s2) {
        assert(c.skip(a.len() as int) =~= s1 + s2);
        assert(x.len() == s1.len());
        assert(x =~= (x + y).take(x.len() as int));
        assert(s1 =~= (s1 + s2).take(s1.len() as int));
        assert(y =~= (x + y).skip(x.len() as int));
        assert(s2 =~= (s1 + s2).skip(s1.len() as int));
    }
    if b == a + s1 && c == b + s2 {
        assert(c =~= a + (s1 + s2));
    }
}

impl NotificationCenter {
    /// The signal requests that the D-Bus task's signaller has queued, oldest
    /// first; none while there is no signaller.
    pub closed spec fn signal_log(&self) -> Seq<DbusSignal> {
        match self.signaller {
            Some(s) => signals_queued(s.0),
            None => Seq::empty(),
        }
    }

    /// No notifications, no way to send signals yet, no window.
    pub fn new() -> (c: NotificationCenter)
        ensures
            center_wf(c@),
            c@.notifications == Map::<u32, Notification>::empty(),
            c@.alerts == Seq::<u32>::empty(),
            !c@.signaller_ready,
            !c@.window_open,
    {
        NotificationCenter {
            notifications: std::collections::HashMap::new(),
            alerts: Vec::new(),
            signaller: None,
            window_open: false,
        }
    }

    /// The notifications on screen, top to bottom.
    pub fn alerts(&self) -> (ids: &Vec<u32>)
        ensures
            ids@ == self@.alerts,
    {
        &self.alerts
    }

    /// The notification `id`, if it is known.
    pub fn notification(&self, id: u32) -> (n: Option<&Notification>)
        ensures
            match n {
                Some(n) => self@.notifications.contains_key(id) && *n == self@.notifications[id],
                None => !self@.notifications.contains_key(id),
            },
    {
        self.notifications.get(&id)
    }

    /// Takes the notification `id` off the screen and forgets it.
    pub fn remove_notification(&mut self, id: u32)
        requires
            center_wf(old(self)@),
        ensures
            final(self)@ == spec_remove(old(self)@, id),
            center_wf(final(self)@),
            final(self).signal_log() == old(self).signal_log(),
    {
        let mut i: usize = 0;
        while i < self.alerts.len() && self.alerts[i] != id
            invariant
                i <= self.alerts.len(),
                self@ == old(self)@,
                forall|k: int| 0 <= k < i ==> self.alerts@[k] != id,
            decreases self.alerts.len() - i,
        {
            i = i + 1;
        }
        proof {
            lemma_remove_wf(old(self)@, id);
        }
        if i < self.alerts.len() && self.alerts[i] == id {
            proof {
                lemma_without_remove(self.alerts@, i as int, id);
            }
            self.alerts.remove(i);
        } else {
            proof {
                lemma_without_absent(self.alerts@, id);
            }
        }
        self.notifications.remove(&id);
        assert(self@.notifications =~= old(self)@.notifications.remove(id));
    }

    /// The ids of the notifications on screen that have expired at `now`.
    fn expired_now(&self, now: i64) -> (ids: Vec<u32>)
        requires
            center_wf(self@),
        ensures
            ids@ == expired_ids(self@.alerts, self@.notifications, now),
    {
        let mut ids: Vec<u32> = Vec::new();
        let mut i: usize = 0;
        while i < self.alerts.len()
            invariant
                i <= self.alerts.len(),
                center_wf(self@),
                ids@ == expired_ids(self@.alerts.take(i as int), self@.notifications, now),
            decreases self.alerts.len() - i,
        {
            let id = self.alerts[i];
            proof {
                assert(self@.alerts.take(i + 1).drop_last() =~= self@.alerts.take(i as int));
                assert(self@.alerts.take(i + 1).last() == id);
                assert(self@.alerts.contains(id));
            }
            match self.notifications.get(&id) {
                Some(n) => {
                    match n.expire_time {
                        Some(t) => {
                            if now > t {
                                ids.push(id);
                            }
                        },
                        None => {},
                    }
                },
                None => {},
            }
            i = i + 1;
        }
        assert(self@.alerts.take(self.alerts.len() as int) =~= self@.alerts);
        ids
    }

    /// Asks for `signal` if signals can be sent; the signals asked for so far
    /// and whether all could be queued are kept in `signals` and `queued`.
    fn send_signal(&mut self, signal: DbusSignal, signals: &mut Vec<DbusSignal>, queued: &mut bool)
        ensures
            final(self)@ == old(self)@,
            final(signals)@ == old(signals)@ + sent(old(self)@, seq![signal]),
            grew_by(old(self).signal_log(), final(self).signal_log(), sent(old(self)@, seq![signal])),
            *final(queued) == (*old(queued) && final(self).signal_log() == old(self).signal_log()
                + sent(old(self)@, seq![signal])),
    {
        let ghost log = self.signal_log();
        match &mut self.signaller {
            Some(signaller) => {
                let ok = match &signal {
                    DbusSignal::NotificationClosed(id, reason) => signaller.close_notification(
                        *id,
                        *reason,
                    ),
                    DbusSignal::ActionInvoked(id, key) => signaller.action_invoked(*id, key.clone()),
                };
                proof {
                    lemma_grew_by_one(log, signals_queued(signaller.0), signal);
                }
                *queued = *queued && ok;
                signals.push(signal);
            },
            None => {
                proof {
                    lemma_subsequence_empty(Seq::<DbusSignal>::empty());
                }
            },
        }
        assert(final(signals)@ =~= old(signals)@ + sent(old(self)@, seq![signal]));
        assert(log + seq![signal] =~= log.push(signal));
        assert(log + Seq::<DbusSignal>::empty() =~= log);
        assert(log.take(log.len() as int) =~= log);
        assert(log.skip(log.len() as int) =~= Seq::<DbusSignal>::empty());
    }

    /// Takes the notifications that have expired at `now` off the screen, and
    /// asks for the signals that say so to their clients; the signals asked
    /// for so far and whether all could be queued are kept in `signals` and
    /// `queued`.
    pub fn remove_expired(&mut self, now: i64, signals: &mut Vec<DbusSignal>, queued: &mut bool)
        requires
            center_wf(old(self)@),
        ensures
            final(self)@ == spec_prune(old(self)@, now).0,
            final(signals)@ == old(signals)@ + spec_prune(old(self)@, now).1,
            center_wf(final(self)@),
            grew_by(old(self).signal_log(), final(self).signal_log(), spec_prune(old(self)@, now).1),
            *final(queued) == (*old(queued) && final(self).signal_log() == old(self).signal_log()
                + spec_prune(old(self)@, now).1),
    {
        let ids = self.expired_now(now);
        let ghost c0 = self@;
        let ghost s0 = signals@;
        let ghost l0 = self.signal_log();
        let ghost q0 = *queued;
        proof {
            lemma_subsequence_empty(Seq::<DbusSignal>::empty());
            assert(l0.take(l0.len() as int) =~= l0);
            assert(l0.skip(l0.len() as int) =~= Seq::<DbusSignal>::empty());
            assert(ids@.take(0) =~= Seq::<u32>::empty());
            assert(closed_signals(Seq::<u32>::empty(), NotificationClosedReason::Expired)
                =~= Seq::<DbusSignal>::empty());
            assert(l0 + Seq::<DbusSignal>::empty() =~= l0);
            assert(s0 + Seq::<DbusSignal>::empty() =~= s0);
        }
        let mut k: usize = 0;
        while k < ids.len()
            invariant
                k <= ids.len(),
                ids@ == expired_ids(c0.alerts, c0.notifications, now),
                center_wf(c0),
                self@ == remove_all(c0, ids@.take(k as int)),
                signals@ == s0 + sent(
                    c0,
                    closed_signals(ids@.take(k as int), NotificationClosedReason::Expired),
                ),
                grew_by(
                    l0,
                    self.signal_log(),
                    sent(c0, closed_signals(ids@.take(k as int), NotificationClosedReason::Expired)),
                ),
                *queued == (q0 && self.signal_log() == l0 + sent(
                    c0,
                    closed_signals(ids@.take(k as int), NotificationClosedReason::Expired),
                )),
            decreases ids.len() - k,
        {
            let id = ids[k];
            let ghost l1 = self.signal_log();
            let ghost before = sent(
                c0,
                closed_signals(ids@.take(k as int), NotificationClosedReason::Expired),
            );
            proof {
                lemma_remove_all_wf(c0, ids@.take(k as int));
                assert(ids@.take(k + 1).drop_last() =~= ids@.take(k as int));
            }
            let signal = DbusSignal::NotificationClosed(id, NotificationClosedReason::Expired);
            let ghost one = sent(self@, seq![signal]);
            self.send_signal(signal, signals, queued);
            let ghost l2 = self.signal_log();
            self.remove_notification(id);
            k = k + 1;
            proof {
                assert(closed_signals(ids@.take(k as int), NotificationClosedReason::Expired)
                    =~= closed_signals(ids@.take(k - 1), NotificationClosedReason::Expired) + seq![
                    signal,
                ]);
                assert(sent(c0, closed_signals(ids@.take(k as int), NotificationClosedReason::Expired))
                    =~= before + one);
                lemma_grew_by_trans(l0, l1, l2, before, one);
                assert(signals@ =~= s0 + sent(
                    c0,
                    closed_signals(ids@.take(k as int), NotificationClosedReason::Expired),
                ));
            }
        }
        assert(ids@.take(ids.len() as int) =~= ids@);
        proof {
            lemma_remove_all_wf(c0, ids@);
        }
    }

    /// Handles a message at time `now`: first the expired notifications go,
    /// then the message is acted on, and the window closes if nothing is left
    /// on it. The signals asked for are queued on the signaller, as far as
    /// its channel takes them, and `queued` says whether it took them all; a
    /// new signaller takes the place of the old one.
    pub fn update(&mut self, message: CenterMessage, now: i64) -> (effects: Effects)
        requires
            center_wf(old(self)@),
        ensures
            center_wf(final(self)@),
            final(self)@ == spec_update(old(self)@, message, now).state,
            effects.window == spec_update(old(self)@, message, now).window,
            effects.signals@ == spec_update(old(self)@, message, now).signals,
            !(message matches CenterMessage::Dbus(DbusMessage::Initialized(_))) ==> {
                &&& grew_by(old(self).signal_log(), final(self).signal_log(), effects.signals@)
                &&& effects.queued == (final(self).signal_log() == old(self).signal_log()
                    + effects.signals@)
            },
            message matches CenterMessage::Dbus(DbusMessage::Initialized(s))
                ==> final(self).signal_log() == signals_queued(s.0),
    {
        let mut signals: Vec<DbusSignal> = Vec::new();
        let mut queued = true;
        let ghost l0 = self.signal_log();
        self.remove_expired(now, &mut signals, &mut queued);
        let ghost p = self@;
        let ghost l1 = self.signal_log();
        let ghost s1 = signals@;
        assert(signals@ =~= spec_prune(old(self)@, now).1);
        let window = match message {
            CenterMessage::ContainerResized(height) => {
                if self.window_open {
                    WindowAction::Resize { width: WIDTH, height }
                } else {
                    WindowAction::Nothing
                }
            },
            CenterMessage::ActionInvoked(id, key) => {
                let signal = DbusSignal::ActionInvoked(id, key);
                let ghost one = sent(self@, seq![signal]);
                self.send_signal(signal, &mut signals, &mut queued);
                proof {
                    lemma_grew_by_trans(l0, l1, self.signal_log(), s1, one);
                    assert(s1 + one =~= signals@);
                }
                WindowAction::Nothing
            },
            CenterMessage::Dbus(DbusMessage::Initialized(signaller)) => {
                self.signaller = Some(signaller);
                WindowAction::Nothing
            },
            CenterMessage::Dbus(DbusMessage::Notify(notification)) => {
                let id = notification.id;
                proof {
                    lemma_show_wf(self@, notification);
                }
                let fresh = self.notifications.insert(id, notification).is_none();
                if fresh {
                    self.alerts.push(id);
                }
                if !self.window_open {
                    self.window_open = true;
                    WindowAction::Open
                } else {
                    WindowAction::Nothing
                }
            },
            CenterMessage::Dbus(DbusMessage::CloseNotification(id)) => {
                self.remove_notification(id);
                let signal = DbusSignal::NotificationClosed(
                    id,
                    NotificationClosedReason::ClosedByCloseNotification,
                );
                let ghost one = sent(self@, seq![signal]);
                self.send_signal(signal, &mut signals, &mut queued);
                proof {
                    lemma_grew_by_trans(l0, l1, self.signal_log(), s1, one);
                    assert(s1 + one =~= signals@);
                }
                WindowAction::Nothing
            },
            CenterMessage::Tick => WindowAction::Nothing,
            CenterMessage::UserDismissed(id) => {
                self.remove_notification(id);
                let signal = DbusSignal::NotificationClosed(
                    id,
                    NotificationClosedReason::DismissedByUser,
                );
                let ghost one = sent(self@, seq![signal]);
                self.send_signal(signal, &mut signals, &mut queued);
                proof {
                    lemma_grew_by_trans(l0, l1, self.signal_log(), s1, one);
                    assert(s1 + one =~= signals@);
                }
                WindowAction::Nothing
            },
            CenterMessage::WindowClosed => {
                self.window_open = false;
                WindowAction::Nothing
            },
        };
        let window = if self.alerts.len() == 0 && self.window_open {
            WindowAction::Remove
        } else {
            window
        };
        Effects { window, signals, queued }
    }
}

proof fn lemma_push_contains(s: Seq<u32>, v: u32, x: u32)
    ensures
        s.push(v).contains(x) <==> (s.contains(x) || x == v),
{
    if s.push(v).contains(x) {
        let k = choose|k: int| 0 <= k < s.push(v).len() && s.push(v)[k] == x;
        if k < s.len() {
            assert(s[k] == x);
        }
    }
    if s.contains(x) {
        let k = choose|k: int| 0 <= k < s.len() && s[k] == x;
        assert(s.push(v)[k] == x);
    }
    if x == v {
        assert(s.push(v)[s.len() as int] == x);
    }
}

proof fn lemma_expired_ids_contains(alerts: Seq<u32>, notifications: Map<u32, Notification>, now: i64, x: u32)
    ensures
        expired_ids(alerts, notifications, now).contains(x) <==> (alerts.contains(x) && is_expired(
            notifications[x],
            now,
        )),
    decreases alerts.len(),
{
    if alerts.len() > 0 {
        let p = alerts.drop_last();
        lemma_expired_ids_contains(p, notifications, now, x);
        lemma_push_contains(p, alerts.last(), x);
        assert(p.push(alerts.last()) =~= alerts);
        lemma_push_contains(expired_ids(p, notifications, now), alerts.last(), x);
    }
}

proof fn lemma_remove_all_contents(c: CenterView, ids: Seq<u32>, x: u32)
    ensures
        remove_all(c, ids).alerts.contains(x) <==> (c.alerts.contains(x) && !ids.contains(x)),
        remove_all(c, ids).notifications.contains_key(x) <==> (c.notifications.contains_key(x)
            && !ids.contains(x)),
        remove_all(c, ids).notifications.contains_key(x) ==> remove_all(c, ids).notifications[x]
            == c.notifications[x],
    decreases ids.len(),
{
    if ids.len() > 0 {
        let p = ids.drop_last();
        lemma_remove_all_contents(c, p, x);
        lemma_without_contains(remove_all(c, p).alerts, ids.last());
        lemma_push_contains(p, ids.last(), x);
        assert(p.push(ids.last()) =~= ids);
    }
}

/// Pruning takes off the screen exactly the notifications that have expired,
/// and leaves the others, with their contents, where they were.
pub proof fn law_prune_removes_exactly_expired(c: CenterView, now: i64)
    requires
        center_wf(c),
    ensures
        forall|id: u32| #[trigger] spec_prune(c, now).0.alerts.contains(id) <==> (c.alerts.contains(id)
            && !is_expired(c.notifications[id], now)),
        forall|id: u32| #[trigger] spec_prune(c, now).0.notifications.contains_key(id)
            ==> spec_prune(c, now).0.notifications[id] == c.notifications[id],
        center_wf(spec_prune(c, now).0),
{
    let ids = expired_ids(c.alerts, c.notifications, now);
    assert forall|id: u32| #[trigger] spec_prune(c, now).0.alerts.contains(id) <==> (c.alerts.contains(id)
        && !is_expired(c.notifications[id], now)) by {
        lemma_remove_all_contents(c, ids, id);
        lemma_expired_ids_contains(c.alerts, c.notifications, now, id);
    }
    assert forall|id: u32| #[trigger] spec_prune(c, now).0.notifications.contains_key(id)
        implies spec_prune(c, now).0.notifications[id] == c.notifications[id] by {
        lemma_remove_all_contents(c, ids, id);
    }
    lemma_remove_all_wf(c, ids);
}

/// After an update the window is open exactly when something was shown and
/// it has not been closed since, and the window is asked to close as soon as
/// nothing is left on it.
pub proof fn law_empty_window_closes(c: CenterView, message: CenterMessage, now: i64)
    requires
        center_wf(c),
    ensures
        ({
            let o = spec_update(c, message, now);
            o.state.alerts.len() == 0 && o.state.window_open ==> o.window == WindowAction::Remove
        }),
        ({
            let o = spec_update(c, message, now);
            o.window == WindowAction::Remove ==> o.state.alerts.len() == 0
        }),
{
}

/// A notification that replaces one on screen keeps its place; a new one
/// goes to the bottom.
pub proof fn law_notify_placement(c: CenterView, n: Notification, now: i64)
    requires
        center_wf(c),
    ensures
        ({
            let p = spec_prune(c, now).0;
            let o = spec_update(c, CenterMessage::Dbus(DbusMessage::Notify(n)), now);
            &&& o.state.notifications[n.id] == n
            &&& p.alerts.contains(n.id) ==> o.state.alerts == p.alerts
            &&& !p.alerts.contains(n.id) ==> o.state.alerts == p.alerts.push(n.id)
            &&& o.state.window_open
        }),
{
    let ids = expired_ids(c.alerts, c.notifications, now);
    lemma_remove_all_wf(c, ids);
}

/// A notification that the user dismisses, or that its client closes, is
/// gone afterwards while the others keep their order; when signals can be
/// sent, its client is told why after the expired ones are announced, and
/// otherwise no signal goes out at all.
pub proof fn law_closed_notification_is_gone(c: CenterView, id: u32, by_user: bool, now: i64)
    requires
        center_wf(c),
    ensures
        ({
            let message = if by_user {
                CenterMessage::UserDismissed(id)
            } else {
                CenterMessage::Dbus(DbusMessage::CloseNotification(id))
            };
            let reason = if by_user {
                NotificationClosedReason::DismissedByUser
            } else {
                NotificationClosedReason::ClosedByCloseNotification
            };
            let p = spec_prune(c, now);
            let o = spec_update(c, message, now);
            &&& !o.state.alerts.contains(id)
            &&& !o.state.notifications.contains_key(id)
            &&& o.state.alerts == without(p.0.alerts, id)
            &&& c.signaller_ready ==> o.signals == p.1.push(DbusSignal::NotificationClosed(id, reason))
            &&& !c.signaller_ready ==> o.signals.len() == 0
        }),
{
    let ids = expired_ids(c.alerts, c.notifications, now);
    lemma_remove_all_wf(c, ids);
    lemma_without_contains(spec_prune(c, now).0.alerts, id);
    let reason = if by_user {
        NotificationClosedReason::DismissedByUser
    } else {
        NotificationClosedReason::ClosedByCloseNotification
    };
    assert(spec_prune(c, now).1 + seq![DbusSignal::NotificationClosed(id, reason)]
        =~= spec_prune(c, now).1.push(DbusSignal::NotificationClosed(id, reason)));
}

proof fn lemma_without_subsequence(s: Seq<u32>, id: u32)
    ensures
        is_subsequence(without(s, id), s),
    decreases s.len(),
{
    if s.len() > 0 {
        lemma_without_subsequence(s.drop_last(), id);
        if s.last() != id {
            let w = without(s.drop_last(), id);
            assert(w.push(s.last()).drop_last() =~= w);
        }
    }
}

proof fn lemma_remove_all_subsequence(c: CenterView, ids: Seq<u32>)
    ensures
        is_subsequence(remove_all(c, ids).alerts, c.alerts),
    decreases ids.len(),
{
    if ids.len() == 0 {
        lemma_subsequence_refl(c.alerts);
    } else {
        lemma_remove_all_subsequence(c, ids.drop_last());
        let r = remove_all(c, ids.drop_last());
        lemma_without_subsequence(r.alerts, ids.last());
        lemma_subsequence_trans(without(r.alerts, ids.last()), r.alerts, c.alerts);
    }
}

/// Notifications keep their order on screen: after an update, the ids on
/// screen are those that were there before, some left out and the others
/// in the order they had, and only a new notification adds one id, at the
/// bottom.
pub proof fn law_alerts_keep_order(c: CenterView, message: CenterMessage, now: i64)
    requires
        center_wf(c),
    ensures
        ({
            let o = spec_update(c, message, now);
            ||| is_subsequence(o.state.alerts, c.alerts)
            ||| message is Dbus && o.state.alerts.len() > 0 && is_subsequence(
                o.state.alerts.drop_last(),
                c.alerts,
            )
        }),
{
    let ids = expired_ids(c.alerts, c.notifications, now);
    let p = spec_prune(c, now).0;
    lemma_remove_all_subsequence(c, ids);
    lemma_remove_all_wf(c, ids);
    match message {
        CenterMessage::Dbus(DbusMessage::CloseNotification(id)) => {
            lemma_without_subsequence(p.alerts, id);
            lemma_subsequence_trans(without(p.alerts, id), p.alerts, c.alerts);
        },
        CenterMessage::UserDismissed(id) => {
            lemma_without_subsequence(p.alerts, id);
            lemma_subsequence_trans(without(p.alerts, id), p.alerts, c.alerts);
        },
        CenterMessage::Dbus(DbusMessage::Notify(n)) => {
            if !p.notifications.contains_key(n.id) {
                assert(p.alerts.push(n.id).drop_last() =~= p.alerts);
            }
        },
        _ => {},
    }
}

/// Whether a notification has expired depends on its expiry time and the
/// time alone, whatever its urgency: pruning at `now` takes off the screen
/// exactly the notifications whose expiry time has passed, and, when
/// signals can be sent, says of each that it expired.
pub proof fn law_expiry_by_time_alone(c: CenterView, now: i64, id: u32)
    requires
        center_wf(c),
    ensures
        spec_prune(c, now).0.alerts.contains(id) <==> (c.alerts.contains(id) && !(
        c.notifications[id].expire_time is Some && now > c.notifications[id].expire_time->0)),
        c.alerts.contains(id) && c.notifications[id].expire_time is Some && now
            > c.notifications[id].expire_time->0 ==> !spec_prune(c, now).0.notifications.contains_key(id),
        c.signaller_ready && c.alerts.contains(id) && c.notifications[id].expire_time is Some && now
            > c.notifications[id].expire_time->0 ==> spec_prune(c, now).1.contains(
            DbusSignal::NotificationClosed(id, NotificationClosedReason::Expired),
        ),
{
    law_prune_removes_exactly_expired(c, now);
    let ids = expired_ids(c.alerts, c.notifications, now);
    lemma_expired_ids_contains(c.alerts, c.notifications, now, id);
    lemma_remove_all_contents(c, ids, id);
    if c.alerts.contains(id) && is_expired(c.notifications[id], now) {
        let k = choose|k: int| 0 <= k < ids.len() && ids[k] == id;
        let sig = closed_signals(ids, NotificationClosedReason::Expired);
        assert(sig[k] == DbusSignal::NotificationClosed(id, NotificationClosedReason::Expired));
    }
}

} // verus!
