//! The bounded channel of `async-channel` that carries the events, as far
//! as the core uses it: made once, and then offered to, asked, and shut
//! down through its two ends.

use crate::events::{EventBus, RecvOutcome, SendOutcome, WalletEvent, WalletEventView};
use vstd::prelude::*;

verus! {

/// The sending end of a channel.
#[verifier::external_type_specification]
#[verifier::external_body]
#[verifier::reject_recursive_types(T)]
pub struct ExSender<T>(async_channel::Sender<T>);

/// The receiving end of a channel.
#[verifier::external_type_specification]
#[verifier::external_body]
#[verifier::reject_recursive_types(T)]
pub struct ExReceiver<T>(async_channel::Receiver<T>);

/// Whether the two ends are the ends of one channel, and the only ones.
pub uninterp spec fn channel_joined(
    sender: async_channel::Sender<WalletEvent>,
    receiver: async_channel::Receiver<WalletEvent>,
) -> bool;

/// The events that the channel of the two ends holds, oldest first.
pub uninterp spec fn channel_pending(
    sender: async_channel::Sender<WalletEvent>,
    receiver: async_channel::Receiver<WalletEvent>,
) -> Seq<WalletEventView>;

/// The number of events that the channel of the two ends was made for.
pub uninterp spec fn channel_capacity(
    sender: async_channel::Sender<WalletEvent>,
    receiver: async_channel::Receiver<WalletEvent>,
) -> nat;

/// Whether the channel of the two ends is closed.
pub uninterp spec fn channel_closed(
    sender: async_channel::Sender<WalletEvent>,
    receiver: async_channel::Receiver<WalletEvent>,
) -> bool;

/// Calls `async_channel::bounded`, which panics on a capacity of zero.
///
/// Trusted: the two ends are those of one new channel, which is open,
/// empty, and made for `capacity` events.
#[verifier::external_body]
pub(crate) fn channel_bounded(capacity: usize) -> (ends: (
    async_channel::Sender<WalletEvent>,
    async_channel::Receiver<WalletEvent>,
))
    requires
        capacity > 0,
    ensures
        channel_joined(ends.0, ends.1),
        channel_pending(ends.0, ends.1) == Seq::<WalletEventView>::empty(),
        channel_capacity(ends.0, ends.1) == capacity,
        !channel_closed(ends.0, ends.1),
{
    async_channel::bounded(capacity)
}

/// Calls `Sender::try_send`.
///
/// Trusted: a closed channel hands the event back as closed, whether or
/// not it is full; an open channel that holds as many events as it was made
/// for hands it back as full; any other channel takes it behind the events
/// it holds. Nothing else about the channel changes.
#[verifier::external_body]
pub(crate) fn channel_try_send(bus: &mut EventBus, event: WalletEvent) -> (outcome: SendOutcome)
    requires
        channel_joined(old(bus).sender, old(bus).receiver),
    ensures
        channel_joined(final(bus).sender, final(bus).receiver),
        final(bus).capacity == old(bus).capacity,
        channel_capacity(final(bus).sender, final(bus).receiver) == channel_capacity(
            old(bus).sender,
            old(bus).receiver,
        ),
        channel_closed(final(bus).sender, final(bus).receiver) == channel_closed(
            old(bus).sender,
            old(bus).receiver,
        ),
        channel_closed(old(bus).sender, old(bus).receiver) ==> (outcome matches SendOutcome::Closed(
            back,
        ) && back@ == event@) && channel_pending(final(bus).sender, final(bus).receiver)
            == channel_pending(old(bus).sender, old(bus).receiver),
        !channel_closed(old(bus).sender, old(bus).receiver) && channel_pending(
            old(bus).sender,
            old(bus).receiver,
        ).len() >= channel_capacity(old(bus).sender, old(bus).receiver) ==> (
        outcome matches SendOutcome::Full(back) && back@ == event@) && channel_pending(
            final(bus).sender,
            final(bus).receiver,
        ) == channel_pending(old(bus).sender, old(bus).receiver),
        !channel_closed(old(bus).sender, old(bus).receiver) && channel_pending(
            old(bus).sender,
            old(bus).receiver,
        ).len() < channel_capacity(old(bus).sender, old(bus).receiver) ==> outcome is Sent
            && channel_pending(final(bus).sender, final(bus).receiver) == channel_pending(
            old(bus).sender,
            old(bus).receiver,
        ).push(event@),
{
    match bus.sender.try_send(event) {
        Ok(()) => SendOutcome::Sent,
        Err(async_channel::TrySendError::Full(back)) => SendOutcome::Full(back),
        Err(async_channel::TrySendError::Closed(back)) => SendOutcome::Closed(back),
    }
}

/// Calls `Receiver::try_recv`.
///
/// Trusted: a channel that holds events hands out the oldest and keeps the
/// rest in their order, closed or not; an empty channel says that it is
/// closed where it is, and that it is empty where it is open. Nothing else
/// about the channel changes.
#[verifier::external_body]
pub(crate) fn channel_try_recv(bus: &mut EventBus) -> (outcome: RecvOutcome)
    requires
        channel_joined(old(bus).sender, old(bus).receiver),
    ensures
        channel_joined(final(bus).sender, final(bus).receiver),
        final(bus).capacity == old(bus).capacity,
        channel_capacity(final(bus).sender, final(bus).receiver) == channel_capacity(
            old(bus).sender,
            old(bus).receiver,
        ),
        channel_closed(final(bus).sender, final(bus).receiver) == channel_closed(
            old(bus).sender,
            old(bus).receiver,
        ),
        channel_pending(old(bus).sender, old(bus).receiver).len() > 0 ==> (
        outcome matches RecvOutcome::Event(event) && event@ == channel_pending(
            old(bus).sender,
            old(bus).receiver,
        ).first()) && channel_pending(final(bus).sender, final(bus).receiver) == channel_pending(
            old(bus).sender,
            old(bus).receiver,
        ).drop_first(),
        channel_pending(old(bus).sender, old(bus).receiver).len() == 0 ==> channel_pending(
            final(bus).sender,
            final(bus).receiver,
        ) == channel_pending(old(bus).sender, old(bus).receiver) && (if channel_closed(
            old(bus).sender,
            old(bus).receiver,
        ) {
            outcome is Closed
        } else {
            outcome is Empty
        }),
{
    match bus.receiver.try_recv() {
        Ok(event) => RecvOutcome::Event(event),
        Err(async_channel::TryRecvError::Empty) => RecvOutcome::Empty,
        Err(async_channel::TryRecvError::Closed) => RecvOutcome::Closed,
    }
}

/// Calls `Sender::close`.
///
/// Trusted: the channel is closed afterwards and holds what it held; the
/// answer is whether this call closed it.
#[verifier::external_body]
pub(crate) fn channel_close(bus: &mut EventBus) -> (closed_now: bool)
    requires
        channel_joined(old(bus).sender, old(bus).receiver),
    ensures
        channel_joined(final(bus).sender, final(bus).receiver),
        final(bus).capacity == old(bus).capacity,
        channel_capacity(final(bus).sender, final(bus).receiver) == channel_capacity(
            old(bus).sender,
            old(bus).receiver,
        ),
        channel_closed(final(bus).sender, final(bus).receiver),
        channel_pending(final(bus).sender, final(bus).receiver) == channel_pending(
            old(bus).sender,
            old(bus).receiver,
        ),
        closed_now == !channel_closed(old(bus).sender, old(bus).receiver),
{
    bus.sender.close()
}

/// Calls `Receiver::len`.
///
/// Trusted: the answer is the number of events that the channel holds.
#[verifier::external_body]
pub(crate) fn channel_len(bus: &EventBus) -> (count: usize)
    requires
        channel_joined(bus.sender, bus.receiver),
    ensures
        count == channel_pending(bus.sender, bus.receiver).len(),
{
    bus.receiver.len()
}

/// Calls `Receiver::is_closed`.
///
/// Trusted: the answer is whether the channel is closed.
#[verifier::external_body]
pub(crate) fn channel_is_closed(bus: &EventBus) -> (closed: bool)
    requires
        channel_joined(bus.sender, bus.receiver),
    ensures
        closed == channel_closed(bus.sender, bus.receiver),
{
    bus.receiver.is_closed()
}

} // verus!
