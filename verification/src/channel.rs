//! Channels between threads.
use vstd::prelude::*;

verus! {

/// The sending half of a channel, `crossbeam_channel::Sender`.
#[verifier::external_type_specification]
#[verifier::external_body]
#[verifier::reject_recursive_types(T)]
pub struct ExSender<T>(crossbeam_channel::Sender<T>);

/// The receiving half of a channel, `crossbeam_channel::Receiver`.
#[verifier::external_type_specification]
#[verifier::external_body]
#[verifier::reject_recursive_types(T)]
pub struct ExReceiver<T>(crossbeam_channel::Receiver<T>);

/// What became of an item offered to a channel without waiting.
#[derive(Debug)]
pub enum Offer<T> {
    /// The channel took it.
    Sent,
    /// The channel is full; the item came back.
    Full(T),
    /// Nobody receives any more; the item came back.
    Closed(T),
}

/// What became of an item handed to a channel.
pub ghost enum Fate {
    /// The channel took it.
    Taken,
    /// The channel was full.
    Full,
    /// Nobody received any more.
    Closed,
}

/// The sending half of a channel, with a record of what was handed to it.
#[verifier::reject_recursive_types(T)]
pub struct Outbox<T> {
    tx: crossbeam_channel::Sender<T>,
    log: Ghost<Seq<(T, Fate)>>,
    capacity: Ghost<Option<usize>>,
}

/// The receiving half of a channel, with a record of what came out of it.
#[verifier::reject_recursive_types(T)]
pub struct Inbox<T> {
    rx: crossbeam_channel::Receiver<T>,
    log: Ghost<Seq<T>>,
    capacity: Ghost<Option<usize>>,
}

impl<T> Outbox<T> {
    /// Everything handed over through this half, in order, and what became of
    /// it.
    pub closed spec fn log(self) -> Seq<(T, Fate)> {
        self.log@
    }

    /// How many items the channel was made to hold, where it was made here.
    pub closed spec fn capacity(self) -> Option<usize> {
        self.capacity@
    }

    /// A sending half that nothing was handed to yet.
    pub fn new(tx: crossbeam_channel::Sender<T>) -> (r: Self)
        ensures
            r.log() == Seq::<(T, Fate)>::empty(),
            r.capacity() is None,
    {
        Outbox { tx, log: Ghost(Seq::empty()), capacity: Ghost(None) }
    }
}

impl<T> Inbox<T> {
    /// Everything taken out through this half, in order.
    pub closed spec fn log(self) -> Seq<T> {
        self.log@
    }

    /// How many items the channel was made to hold, where it was made here.
    pub closed spec fn capacity(self) -> Option<usize> {
        self.capacity@
    }

    /// The bare receiving half.
    pub closed spec fn receiver(self) -> crossbeam_channel::Receiver<T> {
        self.rx
    }

    /// The bare receiving half, for whoever waits on it.
    pub fn into_receiver(self) -> (r: crossbeam_channel::Receiver<T>)
        ensures
            r == self.receiver(),
    {
        self.rx
    }
}

/// `crossbeam_channel::Sender::send`: hands exactly this item to the channel,
/// waits for room, and gives the item back unchanged where every receiver is
/// gone. Which of the two happens is up to the receiving threads and left
/// unsaid; the record says which it was.
#[verifier::external_body]
pub(crate) fn channel_send<T>(out: &mut Outbox<T>, item: T) -> (r: Result<(), T>)
    ensures
        final(out).capacity() == old(out).capacity(),
        match r {
            Ok(()) => final(out).log() == old(out).log().push((item, Fate::Taken)),
            Err(back) => back == item && final(out).log() == old(out).log().push(
                (item, Fate::Closed),
            ),
        },
{
    out.tx.send(item).map_err(|e| e.0)
}

/// `crossbeam_channel::Sender::try_send`: hands exactly this item to the
/// channel, never waits, and gives the item back unchanged where the channel
/// is full or every receiver is gone. Which of the three happens is up to the
/// receiving threads and left unsaid; the record says which it was.
#[verifier::external_body]
pub(crate) fn channel_offer<T>(out: &mut Outbox<T>, item: T) -> (r: Offer<T>)
    ensures
        final(out).capacity() == old(out).capacity(),
        match r {
            Offer::Sent => final(out).log() == old(out).log().push((item, Fate::Taken)),
            Offer::Full(back) => back == item && final(out).log() == old(out).log().push(
                (item, Fate::Full),
            ),
            Offer::Closed(back) => back == item && final(out).log() == old(out).log().push(
                (item, Fate::Closed),
            ),
        },
{
    match out.tx.try_send(item) {
        Ok(()) => Offer::Sent,
        Err(crossbeam_channel::TrySendError::Full(back)) => Offer::Full(back),
        Err(crossbeam_channel::TrySendError::Disconnected(back)) => Offer::Closed(back),
    }
}

/// `crossbeam_channel::Receiver::try_recv`: takes the next item out, or none
/// where the channel holds none or is closed. Which item comes is up to the
/// sending threads and left unsaid.
#[verifier::external_body]
pub(crate) fn channel_poll<T>(from: &mut Inbox<T>) -> (r: Option<T>)
    ensures
        final(from).capacity() == old(from).capacity(),
        match r {
            Some(item) => final(from).log() == old(from).log().push(item),
            None => final(from).log() == old(from).log(),
        },
{
    from.rx.try_recv().ok()
}

/// `crossbeam_channel::bounded`: the two halves of a new channel, made to hold
/// up to `capacity` items, that nothing has passed through.
#[verifier::external_body]
pub(crate) fn channel_pair<T>(capacity: usize) -> (r: (Outbox<T>, Inbox<T>))
    ensures
        r.0.log() == Seq::<(T, Fate)>::empty(),
        r.0.capacity() == Some(capacity),
        r.1.log() == Seq::<T>::empty(),
        r.1.capacity() == Some(capacity),
{
    let (tx, rx) = crossbeam_channel::bounded(capacity);
    let out = Outbox { tx, log: Ghost(Seq::empty()), capacity: Ghost(Some(capacity)) };
    (out, Inbox { rx, log: Ghost(Seq::empty()), capacity: Ghost(Some(capacity)) })
}

} // verus!
