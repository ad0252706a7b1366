//! The watch source: what the store's notifications mean downstream, and
//! when the store is to be listed in full.
//!
//! The source never reports a broken stream as an error. It goes back to
//! listing, and a listing shows downstream as one `Resynced` event for every
//! object that exists. A listing is also due a fixed period after the last
//! one, so that an object without changes is looked at again all the same.

use vstd::prelude::*;
use crate::key::{event_views, key_views, ChangeEvent, ChangeKind, EventView, KeyView, ObjectKey};

verus! {

/// What the store tells the watch.
#[derive(Debug, PartialEq, Eq)]
pub enum StoreNotice {
    Added(ObjectKey),
    Modified(ObjectKey),
    Deleted(ObjectKey),
    /// A full listing: the keys of all objects that exist.
    Listed(Vec<ObjectKey>),
    /// The stream broke.
    Disconnected,
}

/// Mathematical value of a [`StoreNotice`].
pub enum NoticeView {
    Added(KeyView),
    Modified(KeyView),
    Deleted(KeyView),
    Listed(Seq<KeyView>),
    Disconnected,
}

impl View for StoreNotice {
    type V = NoticeView;

    open spec fn view(&self) -> NoticeView {
        match *self {
            StoreNotice::Added(key) => NoticeView::Added(key@),
            StoreNotice::Modified(key) => NoticeView::Modified(key@),
            StoreNotice::Deleted(key) => NoticeView::Deleted(key@),
            StoreNotice::Listed(keys) => NoticeView::Listed(key_views(keys@)),
            StoreNotice::Disconnected => NoticeView::Disconnected,
        }
    }
}

/// What the watch is to do next.
#[derive(Clone, Copy, Debug, PartialEq, Eq)]
pub enum WatchStep {
    /// List the store in full now.
    Relist,
    /// The stream is up: follow it, and list again at `until`.
    Follow { until: u64 },
    /// The stream is down: stay away until `until`, then list.
    Wait { until: u64 },
}

/// The periods of a watch source.
#[derive(Clone, Copy, Debug, PartialEq, Eq, Structural)]
pub struct WatchSettings {
    /// Time between two full listings while the stream is up.
    pub resync_period_ms: u64,
    /// Time to stay away from the store after the stream broke.
    pub retry_ms: u64,
}

/// The watch source as contracts see it.
pub struct WatchView {
    pub settings: WatchSettings,
    /// Whether the stream is up: a listing went through and no break was seen
    /// since.
    pub connected: bool,
    /// When the next full listing is due.
    pub list_at: u64,
}

/// The events that a notification stands for downstream: one event of its
/// kind for a change, one `Resynced` event per listed key and in the order
/// of the listing, nothing for a broken stream.
pub open spec fn emitted(notice: NoticeView) -> Seq<EventView> {
    match notice {
        NoticeView::Added(key) => seq![EventView { key, kind: ChangeKind::Added }],
        NoticeView::Modified(key) => seq![EventView { key, kind: ChangeKind::Modified }],
        NoticeView::Deleted(key) => seq![EventView { key, kind: ChangeKind::Deleted }],
        NoticeView::Listed(keys) => Seq::new(
            keys.len(),
            |i: int| EventView { key: keys[i], kind: ChangeKind::Resynced },
        ),
        NoticeView::Disconnected => Seq::empty(),
    }
}

/// The watch source after a notification at `now`: a listing brings the
/// stream up and sets the next listing one period ahead; a break brings it
/// down and sets the next listing one retry ahead; a change leaves it as it
/// is.
pub open spec fn absorbed(w: WatchView, notice: NoticeView, now: u64) -> WatchView {
    match notice {
        NoticeView::Listed(_) => WatchView {
            connected: true,
            list_at: (now + w.settings.resync_period_ms) as u64,
            ..w
        },
        NoticeView::Disconnected => WatchView {
            connected: false,
            list_at: (now + w.settings.retry_ms) as u64,
            ..w
        },
        _ => w,
    }
}

/// What the watch is to do at `now`.
pub open spec fn step_at(w: WatchView, now: u64) -> WatchStep {
    if w.list_at <= now {
        WatchStep::Relist
    } else if w.connected {
        WatchStep::Follow { until: w.list_at }
    } else {
        WatchStep::Wait { until: w.list_at }
    }
}

/// The watch source: when to list, and whether the stream is up.
pub struct WatchSource {
    settings: WatchSettings,
    connected: bool,
    list_at: u64,
}

impl View for WatchSource {
    type V = WatchView;

    closed spec fn view(&self) -> WatchView {
        WatchView { settings: self.settings, connected: self.connected, list_at: self.list_at }
    }
}

impl WatchSource {
    /// A source that has not listed yet: its first listing is due at once.
    pub fn new(settings: WatchSettings, now: u64) -> (w: WatchSource)
        ensures
            w@ == (WatchView { settings, connected: false, list_at: now }),
    {
        WatchSource { settings, connected: false, list_at: now }
    }

    /// What to do at `now`: list where a listing is due, else follow the
    /// stream or wait, until the listing is due.
    pub fn step(&self, now: u64) -> (step: WatchStep)
        ensures
            step == step_at(self@, now),
    {
        if self.list_at <= now {
            WatchStep::Relist
        } else if self.connected {
            WatchStep::Follow { until: self.list_at }
        } else {
            WatchStep::Wait { until: self.list_at }
        }
    }

    /// Takes one notification of the store at `now` and returns the events
    /// it stands for downstream.
    pub fn absorb(&mut self, notice: StoreNotice, now: u64) -> (events: Vec<ChangeEvent>)
        requires
            now + old(self)@.settings.resync_period_ms <= u64::MAX,
            now + old(self)@.settings.retry_ms <= u64::MAX,
        ensures
            final(self)@ == absorbed(old(self)@, notice@, now),
            event_views(events@) == emitted(notice@),
    {
        let mut events: Vec<ChangeEvent> = Vec::new();
        match notice {
            StoreNotice::Added(key) => {
                events.push(ChangeEvent { key, kind: ChangeKind::Added });
            },
            StoreNotice::Modified(key) => {
                events.push(ChangeEvent { key, kind: ChangeKind::Modified });
            },
            StoreNotice::Deleted(key) => {
                events.push(ChangeEvent { key, kind: ChangeKind::Deleted });
            },
            StoreNotice::Listed(keys) => {
                let mut i: usize = 0;
                while i < keys.len()
                    invariant
                        i <= keys.len(),
                        events@.len() == i,
                        forall|j: int|
                            0 <= j < i ==> (#[trigger] events@[j])@ == (EventView {
                                key: keys@[j]@,
                                kind: ChangeKind::Resynced,
                            }),
                    decreases keys.len() - i,
                {
                    events.push(ChangeEvent { key: keys[i].clone(), kind: ChangeKind::Resynced });
                    i += 1;
                }
                self.connected = true;
                self.list_at = now + self.settings.resync_period_ms;
            },
            StoreNotice::Disconnected => {
                self.connected = false;
                self.list_at = now + self.settings.retry_ms;
            },
        }
        assert(event_views(events@) =~= emitted(notice@));
        events
    }
}

/// No object is left unseen for longer than a period. After a listing at
/// `now` every listed key has its `Resynced` event, and as long as nothing
/// breaks the next listing is due exactly one period later.
pub proof fn lemma_resync_is_periodic(w: WatchView, keys: Seq<KeyView>, now: u64, later: u64)
    requires
        now + w.settings.resync_period_ms <= u64::MAX,
    ensures
        emitted(NoticeView::Listed(keys)).len() == keys.len(),
        forall|i: int|
            0 <= i < keys.len() ==> #[trigger] emitted(NoticeView::Listed(keys))[i] == (EventView {
                key: keys[i],
                kind: ChangeKind::Resynced,
            }),
        step_at(absorbed(w, NoticeView::Listed(keys), now), later) == WatchStep::Relist <==> now
            + w.settings.resync_period_ms <= later,
{
}

} // verus!
