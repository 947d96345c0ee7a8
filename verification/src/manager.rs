//! The list of notifications on screen: adding, replacing and dismissing them, the
//! selection that keys move through, the window of visible notifications, inhibition,
//! and the expiry timers that all of these start and stop.
//!
//! The event loop runs the timers: each operation returns the `TimerAction`s to perform,
//! in order, and a timer that fires is answered by dismissing its notification.
use crate::config::{timeout_spec, Queue, TimeoutPolicy};
use crate::notification::{NotificationData, NotificationId, Urgency};
use vstd::arithmetic::div_mod::{lemma_mod_add_multiples_vanish, lemma_mod_self_0, lemma_small_mod};
use vstd::prelude::*;

verus! {

/// A change to the expiry timers: start timer `key`, which dismisses notification `id`
/// after `ms` milliseconds, or stop timer `key`.
#[derive(PartialEq, Eq, Structural, Debug, Clone, Copy)]
pub enum TimerAction {
    Start { key: u64, id: NotificationId, ms: u64 },
    Cancel { key: u64 },
}

/// A notification on screen: its data, how long it stays (`None`: until dismissed),
/// whether it is hovered (selected), and the key of its running expiry timer.
#[derive(Debug)]
pub struct Notification {
    pub data: NotificationData,
    pub timeout: Option<u64>,
    pub hovered: bool,
    pub timer: Option<u64>,
}

/// A notification as it first appears.
pub open spec fn fresh(data: NotificationData, policy: TimeoutPolicy) -> Notification {
    Notification {
        data,
        timeout: timeout_spec(policy, data.app_name@, data.hints.urgency, data.timeout),
        hovered: false,
        timer: None,
    }
}

impl Notification {
    /// A notification for `data`, which stays as long as `policy` says.
    pub fn new(data: NotificationData, policy: &TimeoutPolicy) -> (n: Notification)
        ensures
            n == fresh(data, *policy),
    {
        let timeout = policy.timeout(&data.app_name, data.hints.urgency, data.timeout);
        Notification { data, timeout, hovered: false, timer: None }
    }

    /// Its identifier.
    pub fn id(&self) -> (id: NotificationId)
        ensures
            id == self.data.id,
    {
        self.data.id
    }

    /// Whether it is hovered.
    pub fn hovered(&self) -> (b: bool)
        ensures
            b == self.hovered,
    {
        self.hovered
    }

    /// Its urgency.
    pub fn urgency(&self) -> (u: Urgency)
        ensures
            u == self.data.hints.urgency,
    {
        self.data.hints.urgency
    }

    /// How long it stays, in milliseconds.
    pub fn timeout(&self) -> (t: Option<u64>)
        ensures
            t == self.timeout,
    {
        self.timeout
    }
}

/// The manager as the contracts see it: the notifications in order, the selected
/// identifier, the number of notifications that arrived while inhibited, whether
/// notifications are inhibited, the first visible index and how many are visible, the
/// queue discipline, the expiry settings, and the key that the next timer gets.
pub struct ManagerView {
    pub entries: Seq<Notification>,
    pub selected: Option<NotificationId>,
    pub waiting: u32,
    pub inhibited: bool,
    pub first_visible: nat,
    pub max_visible: nat,
    pub queue: Queue,
    pub policy: TimeoutPolicy,
    pub next_timer: u64,
}

/// The notifications on screen.
pub struct NotificationManager {
    notifications: Vec<Notification>,
    selected: Option<NotificationId>,
    waiting: u32,
    inhibited: bool,
    first_visible: usize,
    max_visible: usize,
    queue: Queue,
    policy: TimeoutPolicy,
    next_timer: u64,
}

impl View for NotificationManager {
    type V = ManagerView;

    closed spec fn view(&self) -> ManagerView {
        ManagerView {
            entries: self.notifications@,
            selected: self.selected,
            waiting: self.waiting,
            inhibited: self.inhibited,
            first_visible: self.first_visible as nat,
            max_visible: self.max_visible as nat,
            queue: self.queue,
            policy: self.policy,
            next_timer: self.next_timer,
        }
    }
}

// ----- the model ------------------------------------------------------------------------
/// Index of the first notification with identifier `id` at or after `j`; the length if
/// there is none.
pub open spec fn pos_from(e: Seq<Notification>, id: NotificationId, j: int) -> int
    decreases e.len() - j,
{
    if j < 0 || j >= e.len() {
        e.len() as int
    } else if e[j].data.id == id {
        j
    } else {
        pos_from(e, id, j + 1)
    }
}

/// Index of the first notification with identifier `id`; the length if there is none.
pub open spec fn pos(e: Seq<Notification>, id: NotificationId) -> int {
    pos_from(e, id, 0)
}

/// The key after `k`.
pub open spec fn key_after(k: u64) -> u64 {
    if k == u64::MAX {
        0
    } else {
        (k + 1) as u64
    }
}

/// Whether the expiry timer of the notification at `i` runs in this queue discipline.
pub open spec fn runs_timer(q: Queue, i: int) -> bool {
    q == Queue::Unordered || i == 0
}

/// `deselect`: the selected notification is unhovered and, where its queue position
/// lets it, gets a new expiry timer.
pub open spec fn deselect_spec(v: ManagerView) -> (ManagerView, Seq<TimerAction>) {
    match v.selected {
        None => (v, Seq::empty()),
        Some(old) => {
            let i = pos(v.entries, old);
            let v0 = ManagerView { selected: None, ..v };
            if i >= v.entries.len() {
                (v0, Seq::empty())
            } else {
                let n = v.entries[i];
                let unhovered = Notification { hovered: false, ..n };
                if runs_timer(v.queue, i) && n.timeout is Some {
                    let k = v.next_timer;
                    (
                        ManagerView {
                            entries: v.entries.update(
                                i,
                                Notification { timer: Some(k), ..unhovered },
                            ),
                            next_timer: key_after(k),
                            ..v0
                        },
                        seq![TimerAction::Start { key: k, id: old, ms: n.timeout->0 }],
                    )
                } else {
                    (ManagerView { entries: v.entries.update(i, unhovered), ..v0 }, Seq::empty())
                }
            }
        },
    }
}

/// `select`: after `deselect`, the notification `id` (the first with it), if any, is
/// hovered, becomes the selection, and its expiry timer stops.
pub open spec fn select_spec(v: ManagerView, id: NotificationId) -> (ManagerView, Seq<TimerAction>) {
    let (v1, a1) = deselect_spec(v);
    let i = pos(v1.entries, id);
    if i >= v1.entries.len() {
        (v1, a1)
    } else {
        let n = v1.entries[i];
        let stop = match n.timer {
            Some(k) => seq![TimerAction::Cancel { key: k }],
            None => Seq::empty(),
        };
        (
            ManagerView {
                entries: v1.entries.update(i, Notification { hovered: true, timer: None, ..n }),
                selected: Some(id),
                ..v1
            },
            a1 + stop,
        )
    }
}


/// Index that `next` moves the selection to: the one after the selected notification,
/// wrapping to the first; the first where nothing (present) is selected.
pub open spec fn next_index(v: ManagerView) -> int {
    match v.selected {
        Some(id) => {
            let p = pos(v.entries, id);
            if p + 1 < v.entries.len() {
                p + 1
            } else {
                0
            }
        },
        None => 0,
    }
}

/// Index that `prev` moves the selection to: the one before the selected notification,
/// wrapping to the last; the last where nothing (present) is selected.
pub open spec fn prev_index(v: ManagerView) -> int {
    let last = if v.entries.len() > 0 {
        v.entries.len() - 1
    } else {
        0
    };
    match v.selected {
        Some(id) => {
            let p = pos(v.entries, id);
            if p < v.entries.len() && p > 0 {
                p - 1
            } else {
                last
            }
        },
        None => last,
    }
}

/// First visible index after moving forward to `idx`: back to the top for the first,
/// else scrolled just enough to show `idx` at the bottom.
pub open spec fn window_after_next(start: nat, mv: nat, idx: int) -> nat {
    if idx == 0 {
        0
    } else if idx >= start + mv {
        (idx + 1 - mv) as nat
    } else {
        start
    }
}

/// First visible index after moving back to `idx` of `count`: the last page for the
/// last, else scrolled just enough to show `idx` at the top.
pub open spec fn window_after_prev(start: nat, mv: nat, idx: int, count: nat) -> nat {
    if idx + 1 == count {
        if count > mv {
            (count - mv) as nat
        } else {
            0
        }
    } else if idx < start {
        idx as nat
    } else {
        start
    }
}

/// `next`: selects the notification at `next_index` and scrolls to it.
pub open spec fn next_spec(v: ManagerView) -> (ManagerView, Seq<TimerAction>) {
    let idx = next_index(v);
    if idx < v.entries.len() {
        let (v1, a) = select_spec(v, v.entries[idx].data.id);
        (
            ManagerView {
                first_visible: window_after_next(v.first_visible, v.max_visible, idx),
                ..v1
            },
            a,
        )
    } else {
        (v, Seq::empty())
    }
}

/// `prev`: selects the notification at `prev_index` and scrolls to it.
pub open spec fn prev_spec(v: ManagerView) -> (ManagerView, Seq<TimerAction>) {
    let idx = prev_index(v);
    if idx < v.entries.len() {
        let (v1, a) = select_spec(v, v.entries[idx].data.id);
        (
            ManagerView {
                first_visible: window_after_prev(
                    v.first_visible,
                    v.max_visible,
                    idx,
                    v.entries.len(),
                ),
                ..v1
            },
            a,
        )
    } else {
        (v, Seq::empty())
    }
}

/// `pos_from` lies between `j` and the length.
pub proof fn lemma_pos_range(e: Seq<Notification>, j: int, id: NotificationId)
    requires
        0 <= j,
    ensures
        pos_from(e, id, j) <= e.len(),
        j <= e.len() ==> j <= pos_from(e, id, j),
        pos_from(e, id, j) < e.len() ==> e[pos_from(e, id, j)].data.id == id,
    decreases e.len() - j,
{
    if j < e.len() && e[j].data.id != id {
        lemma_pos_range(e, j + 1, id);
    }
}

/// `add`: while inhibited, the notification is only counted. Otherwise it replaces the
/// first notification with its identifier, or else comes last; its expiry timer starts
/// where the queue discipline lets it run (for an ordered queue, only into an empty
/// list), the timer of a replaced notification stops, and a selection is selected anew.
pub open spec fn add_spec(v: ManagerView, data: NotificationData) -> (ManagerView, Seq<TimerAction>) {
    if v.inhibited {
        (ManagerView { waiting: (v.waiting + 1) as u32, ..v }, Seq::empty())
    } else {
        let id = data.id;
        let p = pos(v.entries, id);
        let n0 = fresh(data, v.policy);
        let arm = n0.timeout is Some && (v.queue == Queue::Unordered || v.entries.len() == 0);
        let k = v.next_timer;
        let n1 = if arm {
            Notification { timer: Some(k), ..n0 }
        } else {
            n0
        };
        let a1 = if arm {
            seq![TimerAction::Start { key: k, id, ms: n0.timeout->0 }]
        } else {
            Seq::empty()
        };
        let nt = if arm {
            key_after(k)
        } else {
            k
        };
        let entries = if p < v.entries.len() {
            v.entries.update(p, n1)
        } else {
            v.entries.push(n1)
        };
        let a2 = if p < v.entries.len() && v.entries[p].timer is Some {
            seq![TimerAction::Cancel { key: v.entries[p].timer->0 }]
        } else {
            Seq::empty()
        };
        let v1 = ManagerView { entries, next_timer: nt, ..v };
        match v1.selected {
            Some(s) => {
                let (v2, a3) = select_spec(v1, s);
                (v2, a1 + a2 + a3)
            },
            None => (v1, a1 + a2),
        }
    }
}

/// `add_many`: the notifications come last, in order, with no timers.
pub open spec fn add_many_spec(v: ManagerView, ds: Seq<NotificationData>) -> ManagerView {
    ManagerView { entries: v.entries + ds.map_values(|d: NotificationData| fresh(d, v.policy)), ..v }
}

/// The first part of `dismiss`: the first notification with identifier `id` leaves and
/// its timer stops; where it was selected, the one after it is selected.
pub open spec fn remove_spec(v: ManagerView, id: NotificationId) -> (ManagerView, Seq<TimerAction>) {
    let p = pos(v.entries, id);
    if p >= v.entries.len() {
        (v, Seq::<TimerAction>::empty())
    } else {
        let e1 = v.entries.remove(p);
        let stop = match v.entries[p].timer {
            Some(k) => seq![TimerAction::Cancel { key: k }],
            None => Seq::empty(),
        };
        let w = ManagerView { entries: e1, ..v };
        if p < e1.len() && v.selected == Some(id) {
            let (w2, a) = select_spec(w, e1[p].data.id);
            (w2, stop + a)
        } else {
            (w, stop)
        }
    }
}

/// The window moves up to the last notification where it starts past the end.
pub open spec fn clamp_window_spec(v: ManagerView) -> ManagerView {
    let len = v.entries.len();
    if v.first_visible >= len {
        ManagerView {
            first_visible: if len > 0 {
                (len - 1) as nat
            } else {
                0
            },
            ..v
        }
    } else {
        v
    }
}

/// For an ordered queue, the expiry timer of the first notification starts unless it is
/// hovered.
pub open spec fn restart_first_spec(v: ManagerView) -> (ManagerView, Seq<TimerAction>) {
    if v.queue == Queue::Ordered && v.entries.len() > 0 && !v.entries[0].hovered
        && v.entries[0].timeout is Some {
        let k = v.next_timer;
        let f = v.entries[0];
        (
            ManagerView {
                entries: v.entries.update(0, Notification { timer: Some(k), ..f }),
                next_timer: key_after(k),
                ..v
            },
            seq![TimerAction::Start { key: k, id: f.data.id, ms: f.timeout->0 }],
        )
    } else {
        (v, Seq::empty())
    }
}

/// `dismiss`: `remove_spec`, then `clamp_window_spec`; where `id` is still selected the
/// selection clears; then `restart_first_spec`.
pub open spec fn dismiss_spec(v: ManagerView, id: NotificationId) -> (ManagerView, Seq<TimerAction>) {
    let (v1, a1) = remove_spec(v, id);
    let v2 = clamp_window_spec(v1);
    let (v3, a3) = if v2.selected == Some(id) {
        deselect_spec(v2)
    } else {
        (v2, Seq::<TimerAction>::empty())
    };
    let (v4, a4) = restart_first_spec(v3);
    (v4, a1 + a3 + a4)
}

// ----- the manager ----------------------------------------------------------------------
impl NotificationManager {
    /// An empty manager with this queue discipline, number of visible notifications and
    /// expiry settings.
    pub fn new(queue: Queue, max_visible: u32, policy: TimeoutPolicy) -> (m: NotificationManager)
        ensures
            m@.entries.len() == 0,
            m@.selected is None,
            m@.waiting == 0,
            !m@.inhibited,
            m@.first_visible == 0,
            m@.max_visible == max_visible,
            m@.queue == queue,
            m@.policy == policy,
            m@.next_timer == 0,
    {
        NotificationManager {
            notifications: Vec::new(),
            selected: None,
            waiting: 0,
            inhibited: false,
            first_visible: 0,
            max_visible: max_visible as usize,
            queue,
            policy,
            next_timer: 0,
        }
    }

    /// Index of the first notification with identifier `id`, or the number of them.
    pub fn position(&self, id: NotificationId) -> (i: usize)
        ensures
            i == pos(self@.entries, id),
    {
        let mut j: usize = 0;
        while j < self.notifications.len()
            invariant
                j <= self.notifications.len(),
                pos(self@.entries, id) == pos_from(self@.entries, id, j as int),
            decreases self.notifications.len() - j,
        {
            if self.notifications[j].data.id == id {
                return j;
            }
            j = j + 1;
        }
        j
    }

    /// A fresh timer key.
    fn take_key(&mut self) -> (k: u64)
        ensures
            k == old(self).next_timer,
            final(self)@ == (ManagerView { next_timer: key_after(old(self).next_timer), ..old(self)@ }),
    {
        let k = self.next_timer;
        self.next_timer = if k == u64::MAX {
            0
        } else {
            k + 1
        };
        k
    }

    /// Clears the selection: the selected notification is unhovered and its expiry timer
    /// starts again where the queue discipline lets it run.
    pub fn deselect(&mut self) -> (acts: Vec<TimerAction>)
        ensures
            final(self)@ == deselect_spec(old(self)@).0,
            acts@ == deselect_spec(old(self)@).1,
    {
        let mut acts: Vec<TimerAction> = Vec::new();
        match self.selected {
            None => {},
            Some(old_id) => {
                self.selected = None;
                let i = self.position(old_id);
                if i < self.notifications.len() {
                    self.notifications[i].hovered = false;
                    let runs = match self.queue {
                        Queue::Unordered => true,
                        Queue::Ordered => i == 0,
                    };
                    if runs {
                        match self.notifications[i].timeout {
                            Some(ms) => {
                                let k = self.take_key();
                                self.notifications[i].timer = Some(k);
                                acts.push(TimerAction::Start { key: k, id: old_id, ms });
                            },
                            None => {},
                        }
                    }
                }
            },
        }
        proof {
            let sp = deselect_spec(old(self)@);
            assert(self@.entries =~= sp.0.entries);
            assert(acts@ =~= sp.1);
        }
        acts
    }

    /// Selects the notification `id` (after clearing the selection): it is hovered and
    /// its expiry timer stops. Where there is none, the selection stays clear.
    pub fn select(&mut self, id: NotificationId) -> (acts: Vec<TimerAction>)
        ensures
            final(self)@ == select_spec(old(self)@, id).0,
            acts@ == select_spec(old(self)@, id).1,
    {
        let mut acts = self.deselect();
        let i = self.position(id);
        if i < self.notifications.len() {
            self.notifications[i].hovered = true;
            self.selected = Some(id);
            match self.notifications[i].timer {
                Some(k) => {
                    self.notifications[i].timer = None;
                    acts.push(TimerAction::Cancel { key: k });
                },
                None => {},
            }
        }
        proof {
            let sp = select_spec(old(self)@, id);
            assert(self@.entries =~= sp.0.entries);
            assert(acts@ =~= sp.1);
        }
        acts
    }

    /// Selects the next notification (wrapping to the first) and scrolls to it.
    pub fn next(&mut self) -> (acts: Vec<TimerAction>)
        ensures
            final(self)@ == next_spec(old(self)@).0,
            acts@ == next_spec(old(self)@).1,
    {
        let len = self.notifications.len();
        let idx: usize = match self.selected {
            Some(id) => {
                let p = self.position(id);
                if p < len && p + 1 < len {
                    p + 1
                } else {
                    0
                }
            },
            None => 0,
        };
        if idx < len {
            let id = self.notifications[idx].data.id;
            let acts = self.select(id);
            let start = self.first_visible;
            let mv = self.max_visible;
            self.first_visible = if idx == 0 {
                0
            } else if idx >= start && idx - start >= mv {
                idx + 1 - mv
            } else {
                start
            };
            acts
        } else {
            Vec::new()
        }
    }

    /// Selects the previous notification (wrapping to the last) and scrolls to it.
    pub fn prev(&mut self) -> (acts: Vec<TimerAction>)
        ensures
            final(self)@ == prev_spec(old(self)@).0,
            acts@ == prev_spec(old(self)@).1,
    {
        let len = self.notifications.len();
        let last: usize = if len > 0 {
            len - 1
        } else {
            0
        };
        let idx: usize = match self.selected {
            Some(id) => {
                let p = self.position(id);
                if p < len && p > 0 {
                    p - 1
                } else {
                    last
                }
            },
            None => last,
        };
        if idx < len {
            let id = self.notifications[idx].data.id;
            let acts = self.select(id);
            let start = self.first_visible;
            let mv = self.max_visible;
            self.first_visible = if idx + 1 == len {
                if len > mv {
                    len - mv
                } else {
                    0
                }
            } else if idx < start {
                idx
            } else {
                start
            };
            acts
        } else {
            Vec::new()
        }
    }

    /// Shows a notification, or counts it while inhibited (see `add_spec`).
    pub fn add(&mut self, data: NotificationData) -> (acts: Vec<TimerAction>)
        requires
            old(self)@.inhibited ==> old(self)@.waiting < u32::MAX,
        ensures
            final(self)@ == add_spec(old(self)@, data).0,
            acts@ == add_spec(old(self)@, data).1,
    {
        if self.inhibited {
            self.waiting = self.waiting + 1;
            return Vec::new();
        }
        let ghost v = self@;
        let id = data.id;
        let p = self.position(id);
        let mut n = Notification::new(data, &self.policy);
        let mut acts: Vec<TimerAction> = Vec::new();
        let arm = match n.timeout {
            Some(_) => match self.queue {
                Queue::Unordered => true,
                Queue::Ordered => self.notifications.len() == 0,
            },
            None => false,
        };
        if arm {
            let k = self.take_key();
            match n.timeout {
                Some(ms) => {
                    acts.push(TimerAction::Start { key: k, id, ms });
                },
                None => {},
            }
            n.timer = Some(k);
        }
        if p < self.notifications.len() {
            match self.notifications[p].timer {
                Some(old_key) => {
                    acts.push(TimerAction::Cancel { key: old_key });
                },
                None => {},
            }
            self.notifications[p] = n;
        } else {
            self.notifications.push(n);
        }
        proof {
            let sp = add_spec(v, data);
            assert(acts@ =~= (if arm {
                seq![TimerAction::Start { key: v.next_timer, id, ms: fresh(data, v.policy).timeout->0 }]
            } else {
                Seq::<TimerAction>::empty()
            }) + (if p < v.entries.len() && v.entries[p as int].timer is Some {
                seq![TimerAction::Cancel { key: v.entries[p as int].timer->0 }]
            } else {
                Seq::<TimerAction>::empty()
            }));
        }
        match self.selected {
            Some(s) => {
                let mut more = self.select(s);
                acts.append(&mut more);
            },
            None => {},
        }
        acts
    }

    /// Shows notifications last, in order, with no expiry timers (past notifications).
    pub fn add_many(&mut self, data: Vec<NotificationData>)
        ensures
            final(self)@ == add_many_spec(old(self)@, data@),
    {
        let ghost v = self@;
        let mut rest = data;
        let ghost all = rest@;
        let total = rest.len();
        let mut k: usize = 0;
        while rest.len() > 0
            invariant
                k <= all.len(),
                k + rest@.len() == all.len(),
                all.len() == total,
                rest@ == all.skip(k as int),
                self@ == add_many_spec(v, all.take(k as int)),
                self@.policy == v.policy,
            decreases rest.len(),
        {
            let d = rest.remove(0);
            let n = Notification::new(d, &self.policy);
            self.notifications.push(n);
            proof {
                assert(all.take(k + 1) =~= all.take(k as int).push(d));
                assert(all.take(k + 1).map_values(|d: NotificationData| fresh(d, v.policy))
                    =~= all.take(k as int).map_values(|d: NotificationData| fresh(d, v.policy)).push(
                    fresh(d, v.policy),
                ));
                assert(self@.entries =~= add_many_spec(v, all.take(k + 1)).entries);
                assert(rest@ =~= all.skip(k + 1));
            }
            k = k + 1;
        }
        assert(all.take(k as int) =~= all);
    }

    /// Removes every notification at once; timers are left running.
    pub fn clear(&mut self)
        ensures
            final(self)@ == (ManagerView { entries: Seq::empty(), ..old(self)@ }),
    {
        self.notifications.clear();
    }

    /// The first part of `dismiss` (see `remove_spec`).
    fn remove_entry(&mut self, id: NotificationId) -> (acts: Vec<TimerAction>)
        ensures
            final(self)@ == remove_spec(old(self)@, id).0,
            acts@ == remove_spec(old(self)@, id).1,
    {
        let ghost v = self@;
        let mut acts: Vec<TimerAction> = Vec::new();
        let p = self.position(id);
        if p < self.notifications.len() {
            let removed = self.notifications.remove(p);
            match removed.timer {
                Some(k) => {
                    acts.push(TimerAction::Cancel { key: k });
                },
                None => {},
            }
            if p < self.notifications.len() && self.selected == Some(id) {
                let next_id = self.notifications[p].data.id;
                let mut more = self.select(next_id);
                acts.append(&mut more);
            }
        }
        proof {
            let sp = remove_spec(v, id);
            assert(self@.entries =~= sp.0.entries);
            assert(acts@ =~= sp.1);
        }
        acts
    }

    /// See `clamp_window_spec`.
    fn clamp_window(&mut self)
        ensures
            final(self)@ == clamp_window_spec(old(self)@),
    {
        let len = self.notifications.len();
        if self.first_visible >= len {
            self.first_visible = if len > 0 {
                len - 1
            } else {
                0
            };
        }
    }

    /// See `restart_first_spec`.
    fn restart_first(&mut self) -> (acts: Vec<TimerAction>)
        ensures
            final(self)@ == restart_first_spec(old(self)@).0,
            acts@ == restart_first_spec(old(self)@).1,
    {
        let ghost v = self@;
        let mut acts: Vec<TimerAction> = Vec::new();
        if self.queue == Queue::Ordered && self.notifications.len() > 0
            && !self.notifications[0].hovered {
            match self.notifications[0].timeout {
                Some(ms) => {
                    let first = self.notifications[0].data.id;
                    let k = self.take_key();
                    self.notifications[0].timer = Some(k);
                    acts.push(TimerAction::Start { key: k, id: first, ms });
                },
                None => {},
            }
        }
        proof {
            let sp = restart_first_spec(v);
            assert(self@.entries =~= sp.0.entries);
            assert(acts@ =~= sp.1);
        }
        acts
    }

    /// Dismisses the notification `id` (see `dismiss_spec`).
    pub fn dismiss(&mut self, id: NotificationId) -> (acts: Vec<TimerAction>)
        ensures
            final(self)@ == dismiss_spec(old(self)@, id).0,
            acts@ == dismiss_spec(old(self)@, id).1,
    {
        let mut acts = self.remove_entry(id);
        self.clamp_window();
        if self.selected == Some(id) {
            let mut more = self.deselect();
            acts.append(&mut more);
        }
        let mut more = self.restart_first();
        acts.append(&mut more);
        acts
    }

    /// The first visible index.
    pub fn first_visible(&self) -> (i: usize)
        ensures
            i == self@.first_visible,
    {
        self.first_visible
    }

    /// Whether the notification at index `i` is in the visible window.
    pub fn is_visible(&self, i: usize) -> (b: bool)
        ensures
            b == (self@.first_visible <= i < self@.first_visible + self@.max_visible),
    {
        i >= self.first_visible && i - self.first_visible < self.max_visible
    }

    /// How many notifications are scrolled away above the window.
    pub fn hidden_above(&self) -> (n: usize)
        ensures
            n == self@.first_visible,
    {
        self.first_visible
    }

    /// How many notifications are below the window.
    pub fn hidden_below(&self) -> (n: usize)
        ensures
            n == (if self@.entries.len() > self@.first_visible + self@.max_visible {
                self@.entries.len() - (self@.first_visible + self@.max_visible)
            } else {
                0
            }),
    {
        let len = self.notifications.len();
        if len > self.first_visible && len - self.first_visible > self.max_visible {
            len - self.first_visible - self.max_visible
        } else {
            0
        }
    }

    /// Makes `id` the selection as it is, without hovering it or stopping its timer.
    pub fn set_selected(&mut self, id: NotificationId)
        ensures
            final(self)@ == (ManagerView { selected: Some(id), ..old(self)@ }),
    {
        self.selected = Some(id);
    }

    /// The selected notification, if it is on screen.
    pub fn selected_notification(&self) -> (n: Option<&Notification>)
        ensures
            self@.selected is Some && pos(self@.entries, self@.selected->0) < self@.entries.len()
                ==> n == Some(&self@.entries[pos(self@.entries, self@.selected->0)]),
            !(self@.selected is Some && pos(self@.entries, self@.selected->0) < self@.entries.len())
                ==> n is None,
    {
        match self.selected {
            Some(id) => {
                let i = self.position(id);
                if i < self.notifications.len() {
                    Some(&self.notifications[i])
                } else {
                    None
                }
            },
            None => None,
        }
    }

    /// The selected identifier.
    pub fn selected_id(&self) -> (s: Option<NotificationId>)
        ensures
            s == self@.selected,
    {
        self.selected
    }

    /// The notifications, in order.
    pub fn notifications(&self) -> (n: &[Notification])
        ensures
            n@ == self@.entries,
    {
        self.notifications.as_slice()
    }

    /// Stops new notifications from showing; they are counted instead.
    pub fn inhibit(&mut self)
        ensures
            final(self)@ == (ManagerView { inhibited: true, ..old(self)@ }),
    {
        self.inhibited = true;
    }

    /// Shows new notifications again and forgets how many waited.
    pub fn uninhibit(&mut self)
        ensures
            final(self)@ == (ManagerView { inhibited: false, waiting: 0, ..old(self)@ }),
    {
        self.waiting = 0;
        self.inhibited = false;
    }

    /// Sets whether new notifications are inhibited, leaving the count of waiting ones.
    pub fn set_inhibited(&mut self, inhibited: bool)
        ensures
            final(self)@ == (ManagerView { inhibited, ..old(self)@ }),
    {
        self.inhibited = inhibited;
    }

    /// Whether new notifications are inhibited.
    pub fn inhibited(&self) -> (b: bool)
        ensures
            b == self@.inhibited,
    {
        self.inhibited
    }

    /// How many notifications arrived while inhibited.
    pub fn waiting(&self) -> (n: u32)
        ensures
            n == self@.waiting,
    {
        self.waiting
    }
}


// ----- laws -----------------------------------------------------------------------------
/// The same notifications (data and order), whatever their hover and timer state.
pub open spec fn same_items(a: Seq<Notification>, b: Seq<Notification>) -> bool {
    a.len() == b.len() && forall|i: int| 0 <= i < a.len() ==> #[trigger] a[i].data == b[i].data
}

/// No two notifications share an identifier.
pub open spec fn unique_ids(e: Seq<Notification>) -> bool {
    forall|i: int, j: int| 0 <= i < j < e.len() ==> e[i].data.id != e[j].data.id
}

/// The selection, where it names a notification on screen, is in the visible window.
pub open spec fn selection_visible(v: ManagerView) -> bool {
    match v.selected {
        Some(id) => pos(v.entries, id) < v.entries.len() ==> v.first_visible <= pos(v.entries, id)
            < v.first_visible + v.max_visible,
        None => true,
    }
}

/// The settings and counters that selecting leaves alone.
pub open spec fn same_settings(a: ManagerView, b: ManagerView) -> bool {
    &&& a.waiting == b.waiting
    &&& a.inhibited == b.inhibited
    &&& a.first_visible == b.first_visible
    &&& a.max_visible == b.max_visible
    &&& a.queue == b.queue
    &&& a.policy == b.policy
}

pub proof fn lemma_pos_same_items(a: Seq<Notification>, b: Seq<Notification>, id: NotificationId, j: int)
    requires
        same_items(a, b),
        0 <= j,
    ensures
        pos_from(a, id, j) == pos_from(b, id, j),
    decreases a.len() - j,
{
    if j < a.len() {
        assert(a[j].data == b[j].data);
        lemma_pos_same_items(a, b, id, j + 1);
    }
}

pub proof fn lemma_pos_unique(e: Seq<Notification>, i: int, j: int)
    requires
        unique_ids(e),
        0 <= j <= i < e.len(),
    ensures
        pos_from(e, e[i].data.id, j) == i,
    decreases i - j,
{
    if j < i {
        lemma_pos_unique(e, i, j + 1);
    }
}

proof fn lemma_pos_absent(e: Seq<Notification>, id: NotificationId, j: int)
    requires
        0 <= j,
        forall|k: int| j <= k < e.len() ==> e[k].data.id != id,
    ensures
        pos_from(e, id, j) == e.len(),
    decreases e.len() - j,
{
    if j < e.len() {
        lemma_pos_absent(e, id, j + 1);
    }
}

pub proof fn lemma_deselect_frame(v: ManagerView)
    ensures
        same_items(v.entries, deselect_spec(v).0.entries),
        same_settings(v, deselect_spec(v).0),
        deselect_spec(v).0.selected is None,
{
    if let Some(old) = v.selected {
        lemma_pos_range(v.entries, 0, old);
    }
}

pub proof fn lemma_select_frame(v: ManagerView, id: NotificationId)
    ensures
        same_items(v.entries, select_spec(v, id).0.entries),
        same_settings(v, select_spec(v, id).0),
        pos(v.entries, id) < v.entries.len() ==> select_spec(v, id).0.selected == Some(id),
        pos(v.entries, id) >= v.entries.len() ==> select_spec(v, id).0.selected is None,
{
    lemma_deselect_frame(v);
    let v1 = deselect_spec(v).0;
    lemma_pos_same_items(v.entries, v1.entries, id, 0);
    lemma_pos_range(v1.entries, 0, id);
}

/// Selecting a notification on screen makes it the selection, hovers it and stops its
/// expiry timer; the notifications themselves stay as they were.
pub proof fn law_select_pauses(v: ManagerView, id: NotificationId)
    requires
        pos(v.entries, id) < v.entries.len(),
    ensures
        select_spec(v, id).0.selected == Some(id),
        select_spec(v, id).0.entries[pos(v.entries, id)].hovered,
        select_spec(v, id).0.entries[pos(v.entries, id)].timer is None,
        same_items(v.entries, select_spec(v, id).0.entries),
{
    lemma_select_frame(v, id);
    lemma_deselect_frame(v);
    let v1 = deselect_spec(v).0;
    lemma_pos_same_items(v.entries, v1.entries, id, 0);
    lemma_pos_range(v.entries, 0, id);
}

/// After `deselect` nothing is selected, and the notifications stay as they were.
pub proof fn law_deselect_clears(v: ManagerView)
    ensures
        deselect_spec(v).0.selected is None,
        same_items(v.entries, deselect_spec(v).0.entries),
{
    lemma_deselect_frame(v);
}

/// While inhibited, a new notification is only counted: what is on screen and the
/// selection stay as they were.
pub proof fn law_inhibited_add_waits(v: ManagerView, data: NotificationData)
    requires
        v.inhibited,
        v.waiting < u32::MAX,
    ensures
        add_spec(v, data).0.entries == v.entries,
        add_spec(v, data).0.selected == v.selected,
        add_spec(v, data).0.waiting == v.waiting + 1,
        add_spec(v, data).1.len() == 0,
{
}

/// Adding a notification that is not inhibited shows it: it takes the place of the
/// first notification with its identifier, or else comes last, so the count grows by
/// one only for a new identifier; the others stay as they were.
pub proof fn law_add_shows(v: ManagerView, data: NotificationData)
    requires
        !v.inhibited,
    ensures
        pos(v.entries, data.id) < v.entries.len() ==> add_spec(v, data).0.entries.len()
            == v.entries.len() && add_spec(v, data).0.entries[pos(v.entries, data.id)].data == data,
        pos(v.entries, data.id) >= v.entries.len() ==> add_spec(v, data).0.entries.len()
            == v.entries.len() + 1 && add_spec(v, data).0.entries[v.entries.len() as int].data
            == data,
        forall|i: int|
            0 <= i < v.entries.len() && i != pos(v.entries, data.id) ==> #[trigger] add_spec(
                v,
                data,
            ).0.entries[i].data == v.entries[i].data,
        pos(add_spec(v, data).0.entries, data.id) < add_spec(v, data).0.entries.len(),
{
    let e = v.entries;
    let p = pos(e, data.id);
    lemma_pos_range(e, 0, data.id);
    lemma_pos_before(e, data.id, 0);
    let sp = add_spec(v, data);
    let n0 = fresh(data, v.policy);
    let arm = n0.timeout is Some && (v.queue == Queue::Unordered || v.entries.len() == 0);
    let n1 = if arm {
        Notification { timer: Some(v.next_timer), ..n0 }
    } else {
        n0
    };
    let e1 = if p < e.len() {
        e.update(p, n1)
    } else {
        e.push(n1)
    };
    let v1 = ManagerView {
        entries: e1,
        next_timer: if arm {
            key_after(v.next_timer)
        } else {
            v.next_timer
        },
        ..v
    };
    if let Some(s) = v1.selected {
        lemma_select_frame(v1, s);
        assert(sp.0 == select_spec(v1, s).0);
    } else {
        assert(sp.0 == v1);
    }
    assert(same_items(e1, sp.0.entries));
    if p < e.len() {
        lemma_pos_at(e1, data.id, p);
        assert(e1[p].data == data);
        assert(sp.0.entries[p].data == e1[p].data);
    } else {
        lemma_pos_at(e1, data.id, e.len() as int);
        assert(e1[e.len() as int].data == data);
        assert(sp.0.entries[e.len() as int].data == e1[e.len() as int].data);
    }
    lemma_pos_same_items(e1, sp.0.entries, data.id, 0);
    assert forall|i: int| 0 <= i < e.len() && i != p implies #[trigger] sp.0.entries[i].data
        == e[i].data by {
        assert(e1[i].data == sp.0.entries[i].data);
    }
}

/// Every notification before `pos_from(e, id, j)` (from `j` on) has another identifier.
pub proof fn lemma_pos_before(e: Seq<Notification>, id: NotificationId, j: int)
    requires
        0 <= j,
    ensures
        forall|k: int| j <= k < pos_from(e, id, j) && k < e.len() ==> e[k].data.id != id,
    decreases e.len() - j,
{
    if j < e.len() && e[j].data.id != id {
        lemma_pos_before(e, id, j + 1);
    }
}

/// A notification at `p` with identifier `id`, and none before it with it, is where
/// `pos` finds `id`.
proof fn lemma_pos_at(e: Seq<Notification>, id: NotificationId, p: int)
    requires
        0 <= p < e.len(),
        e[p].data.id == id,
        forall|k: int| 0 <= k < p ==> e[k].data.id != id,
    ensures
        pos(e, id) == p,
{
    lemma_pos_at_from(e, id, p, 0);
}

proof fn lemma_pos_at_from(e: Seq<Notification>, id: NotificationId, p: int, j: int)
    requires
        0 <= j <= p < e.len(),
        e[p].data.id == id,
        forall|k: int| 0 <= k < p ==> e[k].data.id != id,
    ensures
        pos_from(e, id, j) == p,
    decreases p - j,
{
    if j < p {
        lemma_pos_at_from(e, id, p, j + 1);
    }
}


pub proof fn lemma_same_items_unique(a: Seq<Notification>, b: Seq<Notification>)
    requires
        same_items(a, b),
        unique_ids(a),
    ensures
        unique_ids(b),
{
    assert forall|i: int, j: int| 0 <= i < j < b.len() implies b[i].data.id != b[j].data.id by {
        assert(a[i].data == b[i].data);
        assert(a[j].data == b[j].data);
    }
}

proof fn lemma_same_items_trans(a: Seq<Notification>, b: Seq<Notification>, c: Seq<Notification>)
    requires
        same_items(a, b),
        same_items(b, c),
    ensures
        same_items(a, c),
{
    assert forall|i: int| 0 <= i < a.len() implies #[trigger] a[i].data == c[i].data by {
        assert(a[i].data == b[i].data);
    }
}

pub proof fn lemma_next_frame(v: ManagerView)
    ensures
        same_items(v.entries, next_spec(v).0.entries),
        0 <= next_index(v),
        v.entries.len() > 0 ==> next_index(v) < v.entries.len(),
{
    if let Some(id) = v.selected {
        lemma_pos_range(v.entries, 0, id);
    }
    let idx = next_index(v);
    if idx < v.entries.len() {
        lemma_select_frame(v, v.entries[idx].data.id);
    }
}

pub proof fn lemma_prev_frame(v: ManagerView)
    ensures
        same_items(v.entries, prev_spec(v).0.entries),
        0 <= prev_index(v),
        v.entries.len() > 0 ==> prev_index(v) < v.entries.len(),
{
    if let Some(id) = v.selected {
        lemma_pos_range(v.entries, 0, id);
    }
    let idx = prev_index(v);
    if idx < v.entries.len() {
        lemma_select_frame(v, v.entries[idx].data.id);
    }
}

/// With distinct identifiers, `next` selects the notification after the selected one,
/// wrapping from the last to the first, or the first where none (on screen) is
/// selected; the notifications stay as they were.
pub proof fn law_next_moves(v: ManagerView)
    requires
        unique_ids(v.entries),
        v.entries.len() > 0,
    ensures
        next_spec(v).0.selected == Some(v.entries[next_index(v)].data.id),
        v.selected is Some && pos(v.entries, v.selected->0) < v.entries.len() ==> next_index(v)
            == (pos(v.entries, v.selected->0) + 1) % (v.entries.len() as int),
        !(v.selected is Some && pos(v.entries, v.selected->0) < v.entries.len()) ==> next_index(v)
            == 0,
        same_items(v.entries, next_spec(v).0.entries),
{
    lemma_next_frame(v);
    if let Some(id) = v.selected {
        lemma_pos_range(v.entries, 0, id);
    }
    let idx = next_index(v);
    let id = v.entries[idx].data.id;
    lemma_pos_unique(v.entries, idx, 0);
    lemma_select_frame(v, id);
    if v.selected is Some && pos(v.entries, v.selected->0) < v.entries.len() {
        let p = pos(v.entries, v.selected->0);
        let n = v.entries.len() as int;
        if p + 1 < n {
            lemma_small_mod((p + 1) as nat, n as nat);
        } else {
            lemma_mod_self_0(n);
        }
    }
}

/// With distinct identifiers, `prev` selects the notification before the selected one,
/// wrapping from the first to the last, or the last where none (on screen) is
/// selected; the notifications stay as they were.
pub proof fn law_prev_moves(v: ManagerView)
    requires
        unique_ids(v.entries),
        v.entries.len() > 0,
    ensures
        prev_spec(v).0.selected == Some(v.entries[prev_index(v)].data.id),
        v.selected is Some && pos(v.entries, v.selected->0) < v.entries.len() ==> prev_index(v)
            == (pos(v.entries, v.selected->0) + v.entries.len() - 1) % (v.entries.len() as int),
        !(v.selected is Some && pos(v.entries, v.selected->0) < v.entries.len()) ==> prev_index(v)
            == v.entries.len() - 1,
        same_items(v.entries, prev_spec(v).0.entries),
{
    lemma_prev_frame(v);
    if let Some(id) = v.selected {
        lemma_pos_range(v.entries, 0, id);
    }
    let idx = prev_index(v);
    let id = v.entries[idx].data.id;
    lemma_pos_unique(v.entries, idx, 0);
    lemma_select_frame(v, id);
    if v.selected is Some && pos(v.entries, v.selected->0) < v.entries.len() {
        let p = pos(v.entries, v.selected->0);
        let n = v.entries.len() as int;
        if p > 0 {
            lemma_mod_add_multiples_vanish(p - 1, n);
            lemma_small_mod((p - 1) as nat, n as nat);
        } else {
            lemma_small_mod((n - 1) as nat, n as nat);
        }
    }
}

/// With distinct identifiers, `prev` takes the selection back to where it was before
/// `next`.
pub proof fn law_prev_undoes_next(v: ManagerView)
    requires
        unique_ids(v.entries),
        v.selected is Some,
        pos(v.entries, v.selected->0) < v.entries.len(),
    ensures
        prev_spec(next_spec(v).0).0.selected == v.selected,
{
    let e = v.entries;
    let n = e.len() as int;
    let id = v.selected->0;
    let p = pos(e, id);
    lemma_pos_range(e, 0, id);
    law_next_moves(v);
    let w = next_spec(v).0;
    lemma_same_items_unique(e, w.entries);
    let j = next_index(v);
    assert(w.entries[j].data == e[j].data);
    lemma_pos_unique(w.entries, j, 0);
    law_prev_moves(w);
    let q = prev_index(w);
    if p + 1 < n {
        lemma_small_mod((p + 1) as nat, n as nat);
    } else {
        lemma_mod_self_0(n);
    }
    assert(w.entries[q].data == e[q].data);
}

/// With distinct identifiers, `next` takes the selection back to where it was before
/// `prev`.
pub proof fn law_next_undoes_prev(v: ManagerView)
    requires
        unique_ids(v.entries),
        v.selected is Some,
        pos(v.entries, v.selected->0) < v.entries.len(),
    ensures
        next_spec(prev_spec(v).0).0.selected == v.selected,
{
    let e = v.entries;
    let n = e.len() as int;
    let id = v.selected->0;
    let p = pos(e, id);
    lemma_pos_range(e, 0, id);
    law_prev_moves(v);
    let w = prev_spec(v).0;
    lemma_same_items_unique(e, w.entries);
    let j = prev_index(v);
    assert(w.entries[j].data == e[j].data);
    lemma_pos_unique(w.entries, j, 0);
    law_next_moves(w);
    let q = next_index(w);
    if p > 0 {
        lemma_mod_add_multiples_vanish(p - 1, n);
        lemma_small_mod((p - 1) as nat, n as nat);
    } else {
        lemma_small_mod((n - 1) as nat, n as nat);
    }
    assert(w.entries[q].data == e[q].data);
}

/// With distinct identifiers and at least one visible row, `next` keeps the selection
/// in the visible window.
pub proof fn law_next_keeps_selection_visible(v: ManagerView)
    requires
        unique_ids(v.entries),
        v.entries.len() > 0,
        v.max_visible > 0,
        selection_visible(v),
    ensures
        selection_visible(next_spec(v).0),
        next_spec(v).0.selected is Some,
{
    law_next_moves(v);
    let w = next_spec(v).0;
    let idx = next_index(v);
    lemma_select_frame(v, v.entries[idx].data.id);
    lemma_same_items_unique(v.entries, w.entries);
    assert(w.entries[idx].data == v.entries[idx].data);
    lemma_pos_unique(w.entries, idx, 0);
}

/// With distinct identifiers and at least one visible row, `prev` keeps the selection
/// in the visible window.
pub proof fn law_prev_keeps_selection_visible(v: ManagerView)
    requires
        unique_ids(v.entries),
        v.entries.len() > 0,
        v.max_visible > 0,
        selection_visible(v),
    ensures
        selection_visible(prev_spec(v).0),
        prev_spec(v).0.selected is Some,
{
    law_prev_moves(v);
    let w = prev_spec(v).0;
    let idx = prev_index(v);
    lemma_select_frame(v, v.entries[idx].data.id);
    lemma_same_items_unique(v.entries, w.entries);
    assert(w.entries[idx].data == v.entries[idx].data);
    lemma_pos_unique(w.entries, idx, 0);
}


/// Adding a notification that is not inhibited keeps identifiers distinct.
pub proof fn law_add_keeps_ids_distinct(v: ManagerView, data: NotificationData)
    requires
        !v.inhibited,
        unique_ids(v.entries),
    ensures
        unique_ids(add_spec(v, data).0.entries),
{
    law_add_shows(v, data);
    let e = v.entries;
    let e2 = add_spec(v, data).0.entries;
    let p = pos(e, data.id);
    lemma_pos_range(e, 0, data.id);
    lemma_pos_before(e, data.id, 0);
    assert forall|i: int, j: int| 0 <= i < j < e2.len() implies e2[i].data.id != e2[j].data.id by {
        if j < e.len() {
            if i != p {
                assert(e2[i].data == e[i].data);
            }
            if j != p {
                assert(e2[j].data == e[j].data);
            }
        } else {
            assert(e2[i].data == e[i].data);
        }
    }
}

proof fn lemma_remove_frame(v: ManagerView, id: NotificationId)
    ensures
        pos(v.entries, id) < v.entries.len() ==> same_items(
            v.entries.remove(pos(v.entries, id)),
            remove_spec(v, id).0.entries,
        ),
        pos(v.entries, id) >= v.entries.len() ==> remove_spec(v, id).0.entries == v.entries,
{
    let p = pos(v.entries, id);
    lemma_pos_range(v.entries, 0, id);
    if p < v.entries.len() {
        let e1 = v.entries.remove(p);
        let w = ManagerView { entries: e1, ..v };
        if p < e1.len() && v.selected == Some(id) {
            lemma_select_frame(w, e1[p].data.id);
        }
    }
}

proof fn lemma_restart_frame(v: ManagerView)
    ensures
        same_items(v.entries, restart_first_spec(v).0.entries),
{
}

/// With distinct identifiers, dismissing a notification takes exactly it away: the
/// others stay, in order, and identifiers stay distinct.
pub proof fn law_dismiss_removes(v: ManagerView, id: NotificationId)
    requires
        unique_ids(v.entries),
    ensures
        pos(v.entries, id) < v.entries.len() ==> same_items(
            v.entries.remove(pos(v.entries, id)),
            dismiss_spec(v, id).0.entries,
        ),
        pos(v.entries, id) >= v.entries.len() ==> same_items(v.entries, dismiss_spec(v, id).0.entries),
        pos(dismiss_spec(v, id).0.entries, id) == dismiss_spec(v, id).0.entries.len(),
        unique_ids(dismiss_spec(v, id).0.entries),
{
    let e = v.entries;
    let p = pos(e, id);
    lemma_pos_range(e, 0, id);
    lemma_pos_before(e, id, 0);
    lemma_remove_frame(v, id);
    let v1 = remove_spec(v, id).0;
    let v2 = clamp_window_spec(v1);
    let v3 = if v2.selected == Some(id) {
        deselect_spec(v2).0
    } else {
        v2
    };
    if v2.selected == Some(id) {
        lemma_deselect_frame(v2);
    }
    lemma_restart_frame(v3);
    let e4 = dismiss_spec(v, id).0.entries;
    assert(e4 == restart_first_spec(v3).0.entries);
    // what is left holds `id` nowhere
    let base = if p < e.len() {
        e.remove(p)
    } else {
        e
    };
    if p < e.len() {
        e.remove_ensures(p);
        assert forall|k: int| 0 <= k < base.len() implies #[trigger] base[k].data.id != id by {
            if k < p {
            } else {
                assert(base[k] == e[k + 1]);
                assert(e[p].data.id == id);
            }
        }
        assert forall|i: int, j: int| 0 <= i < j < base.len() implies base[i].data.id
            != base[j].data.id by {
            if j < p {
            } else if i < p {
                assert(base[j] == e[j + 1]);
            } else {
                assert(base[i] == e[i + 1]);
                assert(base[j] == e[j + 1]);
            }
        }
    }
    assert(same_items(base, v1.entries));
    assert(same_items(base, v3.entries));
    lemma_same_items_trans(base, v3.entries, e4);
    lemma_same_items_unique(base, e4);
    assert forall|k: int| 0 <= k < e4.len() implies #[trigger] e4[k].data.id != id by {
        assert(base[k].data == e4[k].data);
    }
    lemma_pos_absent(e4, id, 0);
}


// ----- moving to the ends -----------------------------------------------------------------
/// The identifier of the first notification.
pub open spec fn first_id(v: ManagerView) -> Option<NotificationId> {
    if v.entries.len() > 0 {
        Some(v.entries[0].data.id)
    } else {
        None
    }
}

/// The identifier of the last notification.
pub open spec fn last_id(v: ManagerView) -> Option<NotificationId> {
    if v.entries.len() > 0 {
        Some(v.entries[v.entries.len() - 1].data.id)
    } else {
        None
    }
}

/// `prev` repeated until the first notification is selected, at most `fuel` times.
pub open spec fn rewind(v: ManagerView, fuel: nat) -> (ManagerView, Seq<TimerAction>)
    decreases fuel,
{
    if fuel == 0 || v.selected == first_id(v) {
        (v, Seq::empty())
    } else {
        let (v1, a) = prev_spec(v);
        let (v2, b) = rewind(v1, (fuel - 1) as nat);
        (v2, a + b)
    }
}

/// `next` repeated until the last notification is selected, at most `fuel` times.
pub open spec fn fast_forward(v: ManagerView, fuel: nat) -> (ManagerView, Seq<TimerAction>)
    decreases fuel,
{
    if fuel == 0 || v.selected == last_id(v) {
        (v, Seq::empty())
    } else {
        let (v1, a) = next_spec(v);
        let (v2, b) = fast_forward(v1, (fuel - 1) as nat);
        (v2, a + b)
    }
}

/// How far the selection is from the first notification (the count where it is not on
/// screen).
pub open spec fn distance_to_first(v: ManagerView) -> nat {
    if v.selected is Some && pos(v.entries, v.selected->0) < v.entries.len() {
        pos(v.entries, v.selected->0) as nat
    } else {
        v.entries.len()
    }
}

/// How far the selection is from the last notification (the count where it is not on
/// screen).
pub open spec fn distance_to_last(v: ManagerView) -> nat {
    if v.selected is Some && pos(v.entries, v.selected->0) < v.entries.len() {
        (v.entries.len() - 1 - pos(v.entries, v.selected->0)) as nat
    } else {
        v.entries.len()
    }
}

/// Enough steps of `prev` select the first notification.
pub proof fn lemma_rewind_first(v: ManagerView, fuel: nat)
    requires
        fuel > distance_to_first(v),
        v.entries.len() > 0 || v.selected is None,
    ensures
        rewind(v, fuel).0.selected == first_id(v),
    decreases fuel,
{
    if v.selected != first_id(v) {
        lemma_prev_approaches_first(v);
        lemma_prev_frame(v);
        let w = prev_spec(v).0;
        assert(w.entries[0].data == v.entries[0].data);
        lemma_rewind_first(w, (fuel - 1) as nat);
    }
}

proof fn lemma_prev_approaches_first(v: ManagerView)
    requires
        v.entries.len() > 0,
        v.selected != first_id(v),
    ensures
        distance_to_first(prev_spec(v).0) < distance_to_first(v),
        prev_spec(v).0.entries.len() == v.entries.len(),
{
    let e = v.entries;
    lemma_prev_frame(v);
    if let Some(id) = v.selected {
        lemma_pos_range(e, 0, id);
    }
    let idx = prev_index(v);
    let id = e[idx].data.id;
    lemma_select_frame(v, id);
    let w = prev_spec(v).0;
    lemma_pos_same_items(e, w.entries, id, 0);
    lemma_pos_range(e, 0, id);
    lemma_pos_before(e, id, 0);
    assert(pos(e, id) <= idx);
}

proof fn lemma_next_approaches_last(v: ManagerView)
    requires
        v.entries.len() > 0,
        unique_ids(v.entries),
        v.selected != last_id(v),
    ensures
        distance_to_last(next_spec(v).0) < distance_to_last(v),
        next_spec(v).0.entries.len() == v.entries.len(),
        unique_ids(next_spec(v).0.entries),
{
    let e = v.entries;
    lemma_next_frame(v);
    if let Some(id) = v.selected {
        lemma_pos_range(e, 0, id);
    }
    let idx = next_index(v);
    let id = e[idx].data.id;
    lemma_select_frame(v, id);
    let w = next_spec(v).0;
    lemma_pos_same_items(e, w.entries, id, 0);
    lemma_pos_unique(e, idx, 0);
    lemma_same_items_unique(e, w.entries);
}

impl NotificationManager {
    /// Whether no two notifications share an identifier.
    pub fn ids_distinct(&self) -> (b: bool)
        ensures
            b == unique_ids(self@.entries),
    {
        let n = self.notifications.len();
        let mut i: usize = 0;
        while i < n
            invariant
                n == self@.entries.len(),
                i <= n,
                forall|a: int, b: int| 0 <= a < b < n && a < i ==> self@.entries[a].data.id
                    != self@.entries[b].data.id,
            decreases n - i,
        {
            let mut j: usize = i + 1;
            while j < n
                invariant
                    n == self@.entries.len(),
                    i < n,
                    i + 1 <= j <= n,
                    forall|a: int, b: int| 0 <= a < b < n && a < i ==> self@.entries[a].data.id
                        != self@.entries[b].data.id,
                    forall|b: int| i < b < j ==> self@.entries[i as int].data.id
                        != self@.entries[b].data.id,
                decreases n - j,
            {
                if self.notifications[i].data.id == self.notifications[j].data.id {
                    return false;
                }
                j = j + 1;
            }
            i = i + 1;
        }
        true
    }

    /// Moves the selection back until the first notification is selected (the first key).
    pub fn select_first(&mut self) -> (acts: Vec<TimerAction>)
        requires
            old(self)@.entries.len() > 0 || old(self)@.selected is None,
        ensures
            final(self)@ == rewind(old(self)@, (old(self)@.entries.len() + 1) as nat).0,
            acts@ == rewind(old(self)@, (old(self)@.entries.len() + 1) as nat).1,
            final(self)@.selected == first_id(old(self)@),
    {
        let ghost v0 = self@;
        let ghost fuel0 = (v0.entries.len() + 1) as nat;
        proof {
            if let Some(id) = v0.selected {
                lemma_pos_range(v0.entries, 0, id);
            }
        }
        let ghost mut fuel = fuel0;
        let mut acts: Vec<TimerAction> = Vec::new();
        loop
            invariant
                self@.entries.len() == v0.entries.len(),
                v0.entries.len() > 0 || v0.selected is None,
                v0.entries.len() == 0 ==> self@ == v0,
                fuel > distance_to_first(self@),
                rewind(v0, fuel0) == (rewind(self@, fuel).0, acts@ + rewind(self@, fuel).1),
                first_id(self@) == first_id(v0),
            ensures
                rewind(v0, fuel0) == (self@, acts@),
                self@.selected == first_id(v0),
            decreases distance_to_first(self@),
        {
            let first = if self.notifications.len() > 0 {
                Some(self.notifications[0].data.id)
            } else {
                None
            };
            if self.selected == first {
                proof {
                    assert(acts@ + Seq::<TimerAction>::empty() =~= acts@);
                }
                break;
            }
            let ghost before = self@;
            proof {
                lemma_prev_approaches_first(before);
                lemma_prev_frame(before);
            }
            let mut more = self.prev();
            proof {
                let r = rewind(self@, (fuel - 1) as nat);
                assert(rewind(before, fuel) == (r.0, more@ + r.1));
                assert(acts@ + (more@ + r.1) =~= (acts@ + more@) + r.1);
                assert(self@.entries[0].data == before.entries[0].data);
                fuel = (fuel - 1) as nat;
            }
            acts.append(&mut more);
        }
        acts
    }

    /// Moves the selection forward until the last notification is selected (the last
    /// key); identifiers must be distinct, else this would not end.
    pub fn select_last(&mut self) -> (acts: Vec<TimerAction>)
        requires
            old(self)@.entries.len() > 0 || old(self)@.selected is None,
            unique_ids(old(self)@.entries),
        ensures
            final(self)@ == fast_forward(old(self)@, (old(self)@.entries.len() + 1) as nat).0,
            acts@ == fast_forward(old(self)@, (old(self)@.entries.len() + 1) as nat).1,
            final(self)@.selected == last_id(old(self)@),
    {
        let ghost v0 = self@;
        let ghost fuel0 = (v0.entries.len() + 1) as nat;
        proof {
            if let Some(id) = v0.selected {
                lemma_pos_range(v0.entries, 0, id);
            }
        }
        let ghost mut fuel = fuel0;
        let mut acts: Vec<TimerAction> = Vec::new();
        loop
            invariant
                self@.entries.len() == v0.entries.len(),
                v0.entries.len() > 0 || v0.selected is None,
                v0.entries.len() == 0 ==> self@ == v0,
                unique_ids(self@.entries),
                fuel > distance_to_last(self@),
                fast_forward(v0, fuel0) == (fast_forward(self@, fuel).0, acts@ + fast_forward(
                    self@,
                    fuel,
                ).1),
                last_id(self@) == last_id(v0),
            ensures
                fast_forward(v0, fuel0) == (self@, acts@),
                self@.selected == last_id(v0),
            decreases distance_to_last(self@),
        {
            let n = self.notifications.len();
            let last = if n > 0 {
                Some(self.notifications[n - 1].data.id)
            } else {
                None
            };
            if self.selected == last {
                proof {
                    assert(acts@ + Seq::<TimerAction>::empty() =~= acts@);
                }
                break;
            }
            let ghost before = self@;
            proof {
                lemma_next_approaches_last(before);
                lemma_next_frame(before);
            }
            let mut more = self.next();
            proof {
                let r = fast_forward(self@, (fuel - 1) as nat);
                assert(fast_forward(before, fuel) == (r.0, more@ + r.1));
                assert(acts@ + (more@ + r.1) =~= (acts@ + more@) + r.1);
                assert(self@.entries[n - 1].data == before.entries[n - 1].data);
                fuel = (fuel - 1) as nat;
            }
            acts.append(&mut more);
        }
        acts
    }
}

} // verus!
