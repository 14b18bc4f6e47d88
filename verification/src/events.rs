//! What a selected wallet reports, and the bounded bus that carries it to
//! the page.

use crate::account::{WalletAccount, WalletAccountView};
use crate::channel::{
    channel_bounded, channel_capacity, channel_close, channel_closed, channel_is_closed,
    channel_joined, channel_len, channel_pending, channel_try_recv, channel_try_send,
};
use crate::error::{WalletError, WalletErrorView, WalletResult};
use crate::registry::same_digest;
use vstd::prelude::*;
use vstd::string::StringExecFns;

verus! {

/// What a wallet reports through its `standard:events` feature, ready for
/// the page to act on without asking the wallet again.
#[derive(Debug, PartialEq, Eq, PartialOrd, Ord, Hash)]
pub enum WalletEvent {
    /// An account was connected.
    Connected(WalletAccount),
    /// An account was connected again.
    Reconnected(WalletAccount),
    /// The account was disconnected.
    Disconnected,
    /// The connected account was replaced by another.
    AccountChanged(WalletAccount),
    /// A task in the background failed.
    BackgroundTaskError(WalletError),
    /// A report from a wallet that is not the selected one; it changes
    /// nothing.
    Skip,
}

/// Mathematical model of a [`WalletEvent`].
pub enum WalletEventView {
    Connected(WalletAccountView),
    Reconnected(WalletAccountView),
    Disconnected,
    AccountChanged(WalletAccountView),
    BackgroundTaskError(WalletErrorView),
    Skip,
}

impl View for WalletEvent {
    type V = WalletEventView;

    open spec fn view(&self) -> WalletEventView {
        match self {
            WalletEvent::Connected(account) => WalletEventView::Connected(account@),
            WalletEvent::Reconnected(account) => WalletEventView::Reconnected(account@),
            WalletEvent::Disconnected => WalletEventView::Disconnected,
            WalletEvent::AccountChanged(account) => WalletEventView::AccountChanged(account@),
            WalletEvent::BackgroundTaskError(error) => WalletEventView::BackgroundTaskError(error@),
            WalletEvent::Skip => WalletEventView::Skip,
        }
    }
}

impl WalletEventView {
    /// The text shown for the event. A failed task is shown with its error
    /// as `Debug` writes it.
    pub open spec fn text(self) -> Seq<char> {
        match self {
            WalletEventView::Connected(_) => "Connected"@,
            WalletEventView::Reconnected(_) => "Reconnected"@,
            WalletEventView::Disconnected => "Disconnected"@,
            WalletEventView::AccountChanged(_) => "Account Changed"@,
            WalletEventView::BackgroundTaskError(error) => "Task error: "@ + error.debug_form(),
            WalletEventView::Skip => "Skipped"@,
        }
    }

    /// What a producer puts on the bus for `event` from the wallet with the
    /// key `source`, when the wallet with the key `selected` is the one the
    /// page follows: the event itself from that wallet, `Skip` from any
    /// other.
    pub open spec fn from_source(
        self,
        selected: Option<Seq<u8>>,
        source: Seq<u8>,
    ) -> WalletEventView {
        if selected == Some(source) {
            self
        } else {
            WalletEventView::Skip
        }
    }
}

impl Clone for WalletEvent {
    fn clone(&self) -> (copy: Self)
        ensures
            copy@ == self@,
    {
        self.duplicate()
    }
}

impl Default for WalletEvent {
    fn default() -> (event: WalletEvent)
        ensures
            event@ is Skip,
    {
        WalletEvent::Skip
    }
}

impl WalletEvent {
    /// The text shown for the event.
    pub fn to_text(&self) -> (text: String)
        ensures
            text@ == self@.text(),
    {
        match self {
            WalletEvent::Connected(_) => String::from_str("Connected"),
            WalletEvent::Reconnected(_) => String::from_str("Reconnected"),
            WalletEvent::Disconnected => String::from_str("Disconnected"),
            WalletEvent::AccountChanged(_) => String::from_str("Account Changed"),
            WalletEvent::BackgroundTaskError(error) => {
                let mut text = String::from_str("Task error: ");
                text.append(error.debug_text().as_str());
                text
            },
            WalletEvent::Skip => String::from_str("Skipped"),
        }
    }

    /// Whether the event is the one that changes nothing.
    pub fn is_skip(&self) -> (skip: bool)
        ensures
            skip == (self@ is Skip),
    {
        match self {
            WalletEvent::Skip => true,
            _ => false,
        }
    }

    /// A copy of the event.
    pub fn duplicate(&self) -> (copy: WalletEvent)
        ensures
            copy@ == self@,
    {
        match self {
            WalletEvent::Connected(account) => WalletEvent::Connected(account.duplicate()),
            WalletEvent::Reconnected(account) => WalletEvent::Reconnected(account.duplicate()),
            WalletEvent::Disconnected => WalletEvent::Disconnected,
            WalletEvent::AccountChanged(account) => WalletEvent::AccountChanged(
                account.duplicate(),
            ),
            WalletEvent::BackgroundTaskError(error) => WalletEvent::BackgroundTaskError(
                error.duplicate(),
            ),
            WalletEvent::Skip => WalletEvent::Skip,
        }
    }

    /// What a producer puts on the bus for this event from the wallet with
    /// the key `source`: the event itself where that wallet is the selected
    /// one, `Skip` otherwise.
    pub fn from_source(self, selected: Option<&[u8; 32]>, source: &[u8; 32]) -> (event: WalletEvent)
        ensures
            event@ == self@.from_source(
                match selected {
                    Some(key) => Some(key@),
                    None => None,
                },
                source@,
            ),
    {
        match selected {
            Some(key) => {
                if same_digest(key, source) {
                    self
                } else {
                    WalletEvent::Skip
                }
            },
            None => WalletEvent::Skip,
        }
    }
}

/// What became of an event handed to the bus.
#[derive(Debug, PartialEq, Eq)]
pub enum SendOutcome {
    /// The event is on the bus.
    Sent,
    /// The bus is full: the producer has to wait for the consumer and offer
    /// the event, which is handed back, again.
    Full(WalletEvent),
    /// The bus is shut down: the producer has to stop. The event is handed
    /// back.
    Closed(WalletEvent),
}

/// What the bus has for its consumer.
#[derive(Debug, PartialEq, Eq)]
pub enum RecvOutcome {
    /// The oldest event on the bus.
    Event(WalletEvent),
    /// Nothing yet: the consumer has to wait for a producer.
    Empty,
    /// Nothing, and nothing will come: the bus is shut down and drained.
    Closed,
}

/// Mathematical model of an [`EventBus`]: the events on it, oldest first,
/// its capacity, and whether it is shut down.
pub struct EventBusView {
    pub pending: Seq<WalletEventView>,
    pub capacity: nat,
    pub closed: bool,
}

/// The models of `events`, one by one.
pub open spec fn event_views(events: Seq<WalletEvent>) -> Seq<WalletEventView> {
    Seq::new(events.len(), |i: int| events[i]@)
}

impl EventBusView {
    /// Whether a send is taken.
    pub open spec fn accepts(self) -> bool {
        !self.closed && self.pending.len() < self.capacity
    }

    /// The bus after `event` was offered to it.
    pub open spec fn after_send(self, event: WalletEventView) -> EventBusView {
        if self.accepts() {
            EventBusView { pending: self.pending.push(event), ..self }
        } else {
            self
        }
    }

    /// The bus after its consumer asked it for an event.
    pub open spec fn after_recv(self) -> EventBusView {
        if self.pending.len() > 0 {
            EventBusView { pending: self.pending.drop_first(), ..self }
        } else {
            self
        }
    }

    /// The bus after `events` were offered to it one after the other.
    pub open spec fn after_sends(self, events: Seq<WalletEventView>) -> EventBusView
        decreases events.len(),
    {
        if events.len() == 0 {
            self
        } else {
            self.after_sends(events.drop_last()).after_send(events.last())
        }
    }

    /// The bus after its consumer asked it `count` times.
    pub open spec fn after_recvs(self, count: nat) -> EventBusView
        decreases count,
    {
        if count == 0 {
            self
        } else {
            self.after_recvs((count - 1) as nat).after_recv()
        }
    }
}

/// Events that an open bus has room for go onto it in the order in which
/// they were sent, behind what was on it.
pub proof fn lemma_sends_keep_order(bus: EventBusView, events: Seq<WalletEventView>)
    requires
        !bus.closed,
        bus.pending.len() + events.len() <= bus.capacity,
    ensures
        bus.after_sends(events).pending == bus.pending + events,
        bus.after_sends(events).capacity == bus.capacity,
        bus.after_sends(events).closed == bus.closed,
    decreases events.len(),
{
    if events.len() > 0 {
        lemma_sends_keep_order(bus, events.drop_last());
        assert(bus.pending + events =~= (bus.pending + events.drop_last()).push(events.last()));
    } else {
        assert(bus.pending + events =~= bus.pending);
    }
}

/// The consumer is handed the events in the order in which they went onto
/// the bus: asking `count` times takes the `count` oldest away and leaves
/// the rest in their order.
pub proof fn lemma_recvs_keep_order(bus: EventBusView, count: nat)
    requires
        count <= bus.pending.len(),
    ensures
        bus.after_recvs(count).pending == bus.pending.skip(count as int),
        count < bus.pending.len() ==> bus.after_recvs(count).pending.first() == bus.pending[count as int],
    decreases count,
{
    if count > 0 {
        lemma_recvs_keep_order(bus, (count - 1) as nat);
        assert(bus.pending.skip(count as int) =~= bus.pending.skip(count - 1).drop_first());
    } else {
        assert(bus.pending.skip(0) =~= bus.pending);
    }
}

/// A send onto a full bus changes nothing until the consumer has taken an
/// event; then it is taken, and goes behind the events that were there.
pub proof fn lemma_full_bus_waits(bus: EventBusView, event: WalletEventView)
    requires
        !bus.closed,
        bus.capacity > 0,
        bus.pending.len() == bus.capacity,
    ensures
        bus.after_send(event) == bus,
        bus.after_recv().after_send(event).pending == bus.pending.drop_first().push(event),
{
}

/// A bounded channel of events between the producers, one for each
/// wallet's subscription, and the page as the one consumer. A full bus
/// refuses events until the consumer has taken one, so that a stalled page
/// slows the producers down in place of growing the queue.
#[derive(Debug)]
pub struct EventBus {
    pub(crate) sender: async_channel::Sender<WalletEvent>,
    pub(crate) receiver: async_channel::Receiver<WalletEvent>,
    pub(crate) capacity: usize,
}

impl View for EventBus {
    type V = EventBusView;

    closed spec fn view(&self) -> EventBusView {
        EventBusView {
            pending: channel_pending(self.sender, self.receiver),
            capacity: channel_capacity(self.sender, self.receiver),
            closed: channel_closed(self.sender, self.receiver),
        }
    }
}

impl EventBus {
    #[verifier::type_invariant]
    spec fn well_formed(self) -> bool {
        &&& channel_joined(self.sender, self.receiver)
        &&& self.capacity == channel_capacity(self.sender, self.receiver)
        &&& 0 < self.capacity
        &&& channel_pending(self.sender, self.receiver).len() <= self.capacity
    }

    /// An open, empty bus for at most `capacity` events. A capacity of zero
    /// is refused.
    pub fn new(capacity: usize) -> (bus: WalletResult<EventBus>)
        ensures
            capacity > 0 ==> bus is Ok && bus->Ok_0@ == (EventBusView {
                pending: Seq::empty(),
                capacity: capacity as nat,
                closed: false,
            }),
            capacity == 0 ==> bus is Err && bus->Err_0@ == WalletErrorView::InternalError(
                "an event bus needs a capacity of at least one"@,
            ),
    {
        if capacity == 0 {
            return Err(
                WalletError::InternalError(
                    String::from_str("an event bus needs a capacity of at least one"),
                ),
            );
        }
        let (sender, receiver) = channel_bounded(capacity);
        Ok(EventBus { sender, receiver, capacity })
    }

    /// Offers `event` to the bus. It is taken where the bus is open and has
    /// room, and handed back otherwise; a bus that is shut down says so
    /// whether or not it is full.
    pub fn send(&mut self, event: WalletEvent) -> (outcome: SendOutcome)
        ensures
            final(self)@ == old(self)@.after_send(event@),
            old(self)@.accepts() ==> outcome is Sent,
            old(self)@.closed ==> (outcome matches SendOutcome::Closed(back) && back@ == event@),
            !old(self)@.closed && !old(self)@.accepts() ==> (outcome matches SendOutcome::Full(
                back,
            ) && back@ == event@),
    {
        proof {
            use_type_invariant(&*self);
        }
        channel_try_send(self, event)
    }

    /// Asks the bus for its oldest event. Events that were on the bus when
    /// it was shut down are still handed out.
    pub fn recv(&mut self) -> (outcome: RecvOutcome)
        ensures
            final(self)@ == old(self)@.after_recv(),
            old(self)@.pending.len() > 0 ==> (outcome matches RecvOutcome::Event(event) && event@
                == old(self)@.pending.first()),
            old(self)@.pending.len() == 0 && old(self)@.closed ==> outcome is Closed,
            old(self)@.pending.len() == 0 && !old(self)@.closed ==> outcome is Empty,
    {
        proof {
            use_type_invariant(&*self);
        }
        channel_try_recv(self)
    }

    /// Shuts the bus down and tells whether this call did so. No event is
    /// dropped; every later send fails.
    pub fn close(&mut self) -> (closed_now: bool)
        ensures
            final(self)@ == (EventBusView { closed: true, ..old(self)@ }),
            closed_now == !old(self)@.closed,
    {
        proof {
            use_type_invariant(&*self);
        }
        channel_close(self)
    }

    /// Whether the bus is shut down.
    pub fn is_closed(&self) -> (closed: bool)
        ensures
            closed == self@.closed,
    {
        proof {
            use_type_invariant(self);
        }
        channel_is_closed(self)
    }

    /// The number of events on the bus.
    pub fn len(&self) -> (count: usize)
        ensures
            count == self@.pending.len(),
            count <= self@.capacity,
    {
        proof {
            use_type_invariant(self);
        }
        channel_len(self)
    }

    /// Whether no event is on the bus.
    pub fn is_empty(&self) -> (empty: bool)
        ensures
            empty == (self@.pending.len() == 0),
    {
        self.len() == 0
    }

    /// Whether the bus holds as many events as it can.
    pub fn is_full(&self) -> (full: bool)
        ensures
            full == (self@.pending.len() == self@.capacity),
    {
        proof {
            use_type_invariant(self);
        }
        self.len() >= self.capacity
    }

    /// The number of events the bus can hold.
    pub fn capacity(&self) -> (capacity: usize)
        ensures
            capacity == self@.capacity,
            capacity > 0,
    {
        proof {
            use_type_invariant(self);
        }
        self.capacity
    }

    /// Takes the bus apart into the two ends of its channel, for an
    /// embedder that waits on them. What was on the bus stays on the
    /// channel.
    pub fn into_parts(self) -> (ends: (
        async_channel::Sender<WalletEvent>,
        async_channel::Receiver<WalletEvent>,
    ))
        ensures
            channel_pending(ends.0, ends.1) == self@.pending,
            channel_capacity(ends.0, ends.1) == self@.capacity,
            channel_closed(ends.0, ends.1) == self@.closed,
    {
        (self.sender, self.receiver)
    }
}

} // verus!
