//! The loop that feeds the queue's commands to the catalogue.
//!
//! The loop takes the next command off the queue, waits until the throttle grants
//! a permit, starts serving the command without waiting for it to finish, and goes
//! back for the next command. Receiving, waiting for the permit and starting are
//! done by the surroundings; the loop's decisions are stated here as a function from
//! its state and what happened to its next state and what to do.

use vstd::prelude::*;

verus! {

/// The throttle counts its permits over windows of this many seconds: with a rate
/// limit of `n` it grants `n` permits in each.
pub const PERMIT_WINDOW_SECONDS: u64 = 1;

/// The state of the loop. `T` is what travels through the queue.
#[derive(Debug, PartialEq, Eq)]
pub enum Consumer<T> {
    /// Waiting for the next item.
    Idle,
    /// Holding an item until the throttle grants a permit.
    Holding(T),
    /// The queue is closed and empty: the loop has ended.
    Stopped,
}

/// What happened outside the loop.
#[derive(Debug, PartialEq, Eq)]
pub enum Event<T> {
    /// The queue handed out its next item.
    Arrived(T),
    /// The queue is closed and empty.
    Closed,
    /// The throttle granted a permit.
    Permit,
}

/// What the surroundings are to do next.
#[derive(Debug, PartialEq, Eq)]
pub enum Action<T> {
    /// Wait for the queue's next item.
    Receive,
    /// Wait for a permit of the throttle.
    Acquire,
    /// Start serving the item as a task of its own, then wait for the queue's next
    /// item.
    Start(T),
    /// End the loop.
    Stop,
}

impl<T> Consumer<T> {
    /// Whether the loop, in this state, waits for `event`.
    pub open spec fn awaits(self, event: Event<T>) -> bool {
        match self {
            Consumer::Idle => event is Arrived || event is Closed,
            Consumer::Holding(_) => event is Permit,
            Consumer::Stopped => false,
        }
    }

    /// The state after `event`, and what to do.
    pub open spec fn reacts(self, event: Event<T>) -> (Consumer<T>, Action<T>)
        recommends
            self.awaits(event),
    {
        match (self, event) {
            (Consumer::Idle, Event::Arrived(item)) => (Consumer::Holding(item), Action::Acquire),
            (Consumer::Idle, Event::Closed) => (Consumer::Stopped, Action::Stop),
            (Consumer::Holding(item), Event::Permit) => (Consumer::Idle, Action::Start(item)),
            _ => (self, Action::Stop),
        }
    }

    /// The loop before it has received anything; the first thing to do is to
    /// receive.
    pub fn new() -> (start: (Consumer<T>, Action<T>))
        ensures
            start == (Consumer::<T>::Idle, Action::<T>::Receive),
    {
        (Consumer::Idle, Action::Receive)
    }

    /// Whether the loop, in this state, waits for `event`.
    pub fn expects(&self, event: &Event<T>) -> (awaited: bool)
        ensures
            awaited == self.awaits(*event),
    {
        match self {
            Consumer::Idle => match event {
                Event::Arrived(_) => true,
                Event::Closed => true,
                Event::Permit => false,
            },
            Consumer::Holding(_) => match event {
                Event::Permit => true,
                _ => false,
            },
            Consumer::Stopped => false,
        }
    }

    /// Takes the loop one step on.
    pub fn on(self, event: Event<T>) -> (next: (Consumer<T>, Action<T>))
        requires
            self.awaits(event),
        ensures
            next == self.reacts(event),
    {
        match self {
            Consumer::Idle => match event {
                Event::Arrived(item) => (Consumer::Holding(item), Action::Acquire),
                _ => (Consumer::Stopped, Action::Stop),
            },
            Consumer::Holding(item) => (Consumer::Idle, Action::Start(item)),
            Consumer::Stopped => (Consumer::Stopped, Action::Stop),
        }
    }
}

/// The items that the loop starts, in order, when it goes from `state` through
/// `events`. The loop takes no event that it does not wait for.
pub open spec fn started<T>(state: Consumer<T>, events: Seq<Event<T>>) -> Seq<T>
    decreases events.len(),
{
    if events.len() == 0 || !state.awaits(events[0]) {
        Seq::empty()
    } else {
        let (next, action) = state.reacts(events[0]);
        let later = started(next, events.drop_first());
        match action {
            Action::Start(item) => seq![item] + later,
            _ => later,
        }
    }
}

/// The items that arrive in `events`, in order.
pub open spec fn arrivals<T>(events: Seq<Event<T>>) -> Seq<T>
    decreases events.len(),
{
    if events.len() == 0 {
        Seq::empty()
    } else {
        match events[0] {
            Event::Arrived(item) => seq![item] + arrivals(events.drop_first()),
            _ => arrivals(events.drop_first()),
        }
    }
}

/// The number of permits granted in `events`.
pub open spec fn permits<T>(events: Seq<Event<T>>) -> nat
    decreases events.len(),
{
    if events.len() == 0 {
        0
    } else if events[0] is Permit {
        1 + permits(events.drop_first())
    } else {
        permits(events.drop_first())
    }
}

/// The rate of starting is bounded by the rate of the permits: over any stretch of
/// events, from whatever state the loop is in when the stretch begins, it starts at
/// most as many items as permits are granted in that stretch. Where the throttle
/// grants no more than `n` permits in any one window of time, no more than `n` items
/// are started in any one window.
pub proof fn lemma_starts_within_permits<T>(state: Consumer<T>, events: Seq<Event<T>>)
    ensures
        started(state, events).len() <= permits(events),
{
    lemma_started_from(state, events);
}

/// Nothing is started that did not arrive, nothing is started twice, and nothing
/// overtakes: what the loop has started is a first part of what arrived, in the
/// order of arrival.
pub proof fn lemma_started_in_order<T>(events: Seq<Event<T>>)
    ensures
        started(Consumer::Idle, events).len() <= arrivals(events).len(),
        started(Consumer::Idle, events) == arrivals(events).take(
            started(Consumer::Idle, events).len() as int,
        ),
{
    lemma_started_from(Consumer::Idle, events);
    let held = Seq::<T>::empty();
    assert(held + arrivals(events) == arrivals(events));
}

/// What the loop holds when it is in `state`.
pub open spec fn held<T>(state: Consumer<T>) -> Seq<T> {
    match state {
        Consumer::Holding(item) => seq![item],
        _ => Seq::empty(),
    }
}

proof fn lemma_started_from<T>(state: Consumer<T>, events: Seq<Event<T>>)
    ensures
        started(state, events).len() <= permits(events),
        started(state, events).len() <= (held(state) + arrivals(events)).len(),
        started(state, events) == (held(state) + arrivals(events)).take(
            started(state, events).len() as int,
        ),
    decreases events.len(),
{
    if events.len() > 0 && state.awaits(events[0]) {
        let (next, action) = state.reacts(events[0]);
        let rest = events.drop_first();
        lemma_started_from(next, rest);
        let queue = held(state) + arrivals(events);
        let later = started(next, rest);
        match (state, events[0]) {
            (Consumer::Idle, Event::Arrived(item)) => {
                assert(queue == held(next) + arrivals(rest));
            },
            (Consumer::Idle, Event::Closed) => {
                assert(later == Seq::<T>::empty());
            },
            (Consumer::Holding(item), Event::Permit) => {
                assert(queue == seq![item] + arrivals(rest));
                assert(held(next) + arrivals(rest) == arrivals(rest));
                assert(started(state, events) == seq![item] + later);
                assert((seq![item] + arrivals(rest)).take(1 + later.len() as int) == seq![item]
                    + arrivals(rest).take(later.len() as int));
            },
            _ => {},
        }
    } else {
        assert(started(state, events) == Seq::<T>::empty());
        assert((held(state) + arrivals(events)).take(0) == Seq::<T>::empty());
    }
}

} // verus!
