//! The event bus: a typed fan-out channel from the pipeline to any
//! front-end. Sends on a closed bus are discarded without error.

use vstd::prelude::*;

use crate::events::Event;

verus! {

#[verifier::external_type_specification]
#[verifier::external_body]
#[verifier::reject_recursive_types(T)]
pub struct ExSender<T>(crossbeam_channel::Sender<T>);

#[verifier::external_type_specification]
#[verifier::external_body]
#[verifier::reject_recursive_types(T)]
pub struct ExReceiver<T>(crossbeam_channel::Receiver<T>);

/// Sends events from the pipeline. A thin wrapper around the
/// channel's sending half; it can be cloned and sent across threads.
pub struct EventSender {
    /// The sending half of the channel.
    pub inner: crossbeam_channel::Sender<Event>,
}

/// Receives events; used by front-ends to follow progress.
pub struct EventReceiver {
    /// The receiving half of the channel.
    pub inner: crossbeam_channel::Receiver<Event>,
}

impl EventSender {
    /// Create an event sender from the channel's sending half.
    pub fn new(sender: crossbeam_channel::Sender<Event>) -> EventSender {
        EventSender { inner: sender }
    }

    /// Send an event. If the receiver is gone the event is silently
    /// discarded: progress reporting is advisory and a dropped event
    /// never corrupts the run.
    /// Relies on crossbeam_channel::Sender::send, which delivers the
    /// message or returns it in an error when the channel is
    /// disconnected; no outcome is promised here.
    #[verifier::external_body]
    pub fn send(&self, event: Event) {
        let _ = self.inner.send(event);
    }

    /// A second handle to the same channel.
    /// Relies on crossbeam_channel::Sender::clone: the clone sends
    /// into the same channel.
    #[verifier::external_body]
    pub fn clone_sender(&self) -> (r: EventSender) {
        EventSender { inner: self.inner.clone() }
    }
}

impl EventReceiver {
    /// Block until the next event; `None` once every sender is gone.
    /// Relies on crossbeam_channel::Receiver::recv, which blocks for
    /// a message and errs when the channel is empty and disconnected;
    /// no outcome is promised here.
    #[verifier::external_body]
    pub fn recv(&self) -> (r: Option<Event>) {
        self.inner.recv().ok()
    }

    /// The next event if one is ready, without blocking.
    /// Relies on crossbeam_channel::Receiver::try_recv, which returns
    /// a queued message or errs when none is ready; no outcome is
    /// promised here.
    #[verifier::external_body]
    pub fn try_recv(&self) -> (r: Option<Event>) {
        self.inner.try_recv().ok()
    }
}

/// Constructor for the event channel's two halves.
pub struct EventChannel {}

impl EventChannel {
    /// Create an unbounded event channel.
    /// Relies on crossbeam_channel::unbounded: a connected
    /// sender/receiver pair of unlimited capacity.
    #[verifier::external_body]
    pub fn new() -> (r: (EventSender, EventReceiver)) {
        let (sender, receiver) = crossbeam_channel::unbounded();
        (EventSender { inner: sender }, EventReceiver { inner: receiver })
    }

    /// Create a bounded event channel with the given capacity, for
    /// hosts that need backpressure.
    /// Relies on crossbeam_channel::bounded: a connected
    /// sender/receiver pair holding at most `capacity` messages.
    #[verifier::external_body]
    pub fn bounded(capacity: usize) -> (r: (EventSender, EventReceiver)) {
        let (sender, receiver) = crossbeam_channel::bounded(capacity);
        (EventSender { inner: sender }, EventReceiver { inner: receiver })
    }
}

/// An event sender with no receiver: every send is discarded.
pub fn null_sender() -> (r: EventSender) {
    let pair = EventChannel::new();
    pair.0
}

} // verus!
