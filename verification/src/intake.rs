//! The producers' end of the bounded queue.
//!
//! The queue is a `tokio` channel. Producers offer records to it and are
//! never made to wait: a record that finds the queue full, or its consumer
//! gone, is dropped.

use vstd::prelude::*;

verus! {

/// The number of records the queue holds unless another is asked for.
pub const DEFAULT_CAPACITY: usize = 100;

/// The largest capacity a queue can be made with.
pub const MAX_CAPACITY: usize = usize::MAX / 8;

/// `tokio::sync::mpsc::Sender`, the sending end of a bounded channel. What
/// the channel holds changes under every handle to it, so nothing of it is
/// visible here.
#[verifier::external_type_specification]
#[verifier::external_body]
#[verifier::reject_recursive_types(T)]
pub struct ExSender<T>(tokio::sync::mpsc::Sender<T>);

/// `tokio::sync::mpsc::Receiver`, the receiving end of a bounded channel,
/// handed on to the consumer unread.
#[verifier::external_type_specification]
#[verifier::external_body]
#[verifier::reject_recursive_types(T)]
pub struct ExReceiver<T>(tokio::sync::mpsc::Receiver<T>);

/// What became of a record handed to the channel.
#[derive(Clone, Copy, Debug, PartialEq, Eq, Structural)]
pub enum SendOutcome {
    /// The record is in the queue.
    Sent,
    /// The queue had no room.
    Full,
    /// The consumer has closed the queue or is gone.
    Closed,
}

/// What a producer learns of the record it offered.
#[derive(Clone, Copy, Debug, PartialEq, Eq, Structural)]
pub enum Offer {
    Accepted,
    Dropped,
}

/// `tokio::sync::mpsc::channel`: a bounded channel that holds up to `capacity`
/// records. The outside function panics on a capacity of zero or above the
/// largest number of permits of its semaphore, which `requires` leaves out.
/// Nothing is claimed of the two ends.
#[verifier::external_body]
fn open_channel<T>(capacity: usize) -> (ends: (
    tokio::sync::mpsc::Sender<T>,
    tokio::sync::mpsc::Receiver<T>,
))
    requires
        0 < capacity <= MAX_CAPACITY,
{
    tokio::sync::mpsc::channel(capacity)
}

/// `tokio::sync::mpsc::Sender::try_send`: puts the record into the queue if
/// there is room and returns at once either way. Which outcome comes depends
/// on what other threads have done to the queue, so nothing is claimed of it.
#[verifier::external_body]
fn try_send<T>(sender: &tokio::sync::mpsc::Sender<T>, record: T) -> (outcome: SendOutcome)
{
    match sender.try_send(record) {
        Ok(()) => SendOutcome::Sent,
        Err(tokio::sync::mpsc::error::TrySendError::Full(_)) => SendOutcome::Full,
        Err(tokio::sync::mpsc::error::TrySendError::Closed(_)) => SendOutcome::Closed,
    }
}

/// What the producer is told for each outcome of the channel: a record that
/// was not sent is dropped, whatever the reason.
pub open spec fn offer_of(outcome: SendOutcome) -> Offer {
    match outcome {
        SendOutcome::Sent => Offer::Accepted,
        SendOutcome::Full => Offer::Dropped,
        SendOutcome::Closed => Offer::Dropped,
    }
}

/// Tells the producer what became of its record.
pub fn offer_for(outcome: SendOutcome) -> (offer: Offer)
    ensures
        offer == offer_of(outcome),
{
    match outcome {
        SendOutcome::Sent => Offer::Accepted,
        SendOutcome::Full => Offer::Dropped,
        SendOutcome::Closed => Offer::Dropped,
    }
}

/// The producers' end of the queue.
#[verifier::reject_recursive_types(T)]
pub struct Intake<T> {
    sender: tokio::sync::mpsc::Sender<T>,
}

impl<T> Intake<T> {
    /// An intake over the sending end of a channel: the records offered to
    /// it go to `sender`.
    pub fn new(sender: tokio::sync::mpsc::Sender<T>) -> (intake: Intake<T>)
        ensures
            intake.sender_of() == sender,
    {
        Intake { sender }
    }

    /// A queue of the given capacity: its intake, and the end that the
    /// dispatcher reads.
    pub fn channel(capacity: usize) -> (ends: (Intake<T>, tokio::sync::mpsc::Receiver<T>))
        requires
            0 < capacity <= MAX_CAPACITY,
    {
        let (sender, receiver) = open_channel(capacity);
        (Intake { sender }, receiver)
    }

    /// Offers a record to the queue without waiting. The record is accepted
    /// if the channel took it and dropped otherwise.
    pub fn offer(&self, record: T) -> (offer: Offer) {
        offer_for(try_send(&self.sender, record))
    }

    /// The sending end that the intake offers its records to.
    pub closed spec fn sender_of(&self) -> tokio::sync::mpsc::Sender<T> {
        self.sender
    }
}

} // verus!
