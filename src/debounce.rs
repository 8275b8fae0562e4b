//! A coalescing stage between a stream of events and its consumer: an event
//! is handed on only once no newer one has come for a whole window, so of a
//! burst only the last is seen.

use vstd::prelude::*;

verus! {

/// The stage as a value: its window, the event held back, and when it came.
pub struct DebounceView<T> {
    pub window: nat,
    pub pending: Option<T>,
    pub since: nat,
}

/// The stage after `x` comes at `now`: `x` replaces whatever was held back.
pub open spec fn push_next<T>(d: DebounceView<T>, now: nat, x: T) -> DebounceView<T> {
    DebounceView { window: d.window, pending: Some(x), since: now }
}

/// Whether the held-back event is due at `now`.
pub open spec fn is_due<T>(d: DebounceView<T>, now: nat) -> bool {
    d.pending is Some && now >= d.since + d.window
}

/// The stage after a poll at `now`, and what the poll hands on.
pub open spec fn poll_next<T>(d: DebounceView<T>, now: nat) -> (DebounceView<T>, Option<T>) {
    if is_due(d, now) {
        (DebounceView { window: d.window, pending: None, since: d.since }, d.pending)
    } else {
        (d, None)
    }
}

/// Events, as arrival time and event, fed in order, with a poll at each
/// arrival time just before the event is taken: the final stage and what was
/// handed on.
pub open spec fn feed<T>(d: DebounceView<T>, evs: Seq<(nat, T)>) -> (DebounceView<T>, Seq<T>)
    decreases evs.len(),
{
    if evs.len() == 0 {
        (d, Seq::empty())
    } else {
        let before = feed(d, evs.drop_last());
        let polled = poll_next(before.0, evs.last().0);
        (
            push_next(polled.0, evs.last().0, evs.last().1),
            match polled.1 {
                Some(y) => before.1.push(y),
                None => before.1,
            },
        )
    }
}

/// Arrival times that never go back, each less than `window` after the one
/// before it.
pub open spec fn is_burst<T>(evs: Seq<(nat, T)>, window: nat) -> bool {
    forall|i: int|
        0 < i < evs.len() ==> evs[i - 1].0 <= #[trigger] evs[i].0 && evs[i].0 < evs[i - 1].0
            + window
}

/// A burst fed into an empty stage hands nothing on while it lasts; the
/// stage then holds its last event, and a poll a window after that event
/// hands on exactly that one.
pub proof fn lemma_burst_coalesces<T>(d: DebounceView<T>, evs: Seq<(nat, T)>, later: nat)
    requires
        d.pending is None,
        evs.len() > 0,
        is_burst(evs, d.window),
        later >= evs.last().0 + d.window,
    ensures
        feed(d, evs).1 == Seq::<T>::empty(),
        feed(d, evs).0.pending == Some(evs.last().1),
        feed(d, evs).0.since == evs.last().0,
        poll_next(feed(d, evs).0, later).1 == Some(evs.last().1),
    decreases evs.len(),
{
    let pre = evs.drop_last();
    if pre.len() > 0 {
        assert forall|i: int| 0 < i < pre.len() implies pre[i - 1].0 <= #[trigger] pre[i].0
            && pre[i].0 < pre[i - 1].0 + d.window by {
            assert(pre[i] == evs[i] && pre[i - 1] == evs[i - 1]);
        }
        lemma_burst_coalesces(d, pre, pre.last().0 + d.window);
        lemma_feed_keeps_window(d, pre);
        let n = evs.len() - 1;
        assert(evs[n] == evs.last());
        assert(pre.last() == evs[n - 1]);
        assert(evs[n].0 < evs[n - 1].0 + d.window);
        assert(!is_due(feed(d, pre).0, evs.last().0));
    } else {
        assert(feed(d, pre) == (d, Seq::<T>::empty()));
    }
    lemma_feed_keeps_window(d, evs);
}

/// Feeding events never changes the window.
pub proof fn lemma_feed_keeps_window<T>(d: DebounceView<T>, evs: Seq<(nat, T)>)
    ensures
        feed(d, evs).0.window == d.window,
    decreases evs.len(),
{
    if evs.len() > 0 {
        lemma_feed_keeps_window(d, evs.drop_last());
    }
}

/// The coalescing stage, with times in milliseconds.
pub struct Debounce<T> {
    window: u64,
    pending: Option<T>,
    since: u64,
}

impl<T> View for Debounce<T> {
    type V = DebounceView<T>;

    closed spec fn view(&self) -> DebounceView<T> {
        DebounceView { window: self.window as nat, pending: self.pending, since: self.since as nat }
    }
}

impl<T> Debounce<T> {
    /// An empty stage with the given window.
    pub fn new(window: u64) -> (r: Debounce<T>)
        ensures
            r@.window == window,
            r@.pending is None,
    {
        Debounce { window, pending: None, since: 0 }
    }

    /// Takes `x`, come at `now`, in place of any event held back.
    pub fn push(&mut self, now: u64, x: T)
        ensures
            final(self)@ == push_next(old(self)@, now as nat, x),
    {
        self.pending = Some(x);
        self.since = now;
    }

    /// Hands on the held-back event if a whole window has passed since it came.
    pub fn poll(&mut self, now: u64) -> (r: Option<T>)
        ensures
            (final(self)@, r) == poll_next(old(self)@, now as nat),
    {
        if self.pending.is_some() && now >= self.since && now - self.since >= self.window {
            self.pending.take()
        } else {
            None
        }
    }

    /// When the held-back event falls due, if one is held (the largest time
    /// when that lies beyond it).
    pub fn due_at(&self) -> (r: Option<u64>)
        ensures
            r == (if self@.pending is Some {
                Some(
                    (if self@.since + self@.window > u64::MAX {
                        u64::MAX as nat
                    } else {
                        self@.since + self@.window
                    }) as u64,
                )
            } else {
                None
            }),
    {
        if self.pending.is_some() {
            Some(self.since.saturating_add(self.window))
        } else {
            None
        }
    }

    /// Hands on the held-back event at once, as when the source has ended.
    pub fn flush(&mut self) -> (r: Option<T>)
        ensures
            r == old(self)@.pending,
            final(self)@ == (DebounceView { pending: None, ..old(self)@ }),
    {
        self.pending.take()
    }
}

} // verus!
