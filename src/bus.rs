//! Broadcast buses: every value published reaches each subscriber that was
//! subscribed at the time, in publication order. A subscriber that falls more
//! than the bus's capacity behind is told how many values it missed and goes
//! on from there; publishers never wait.
use vstd::prelude::*;

use tokio::sync::broadcast::Sender;

use crate::message::{Event, Keystroke};

verus! {

/// tokio's `broadcast::Sender`, the sending half of a broadcast channel,
/// carried as an opaque value.
#[verifier::external_type_specification]
#[verifier::external_body]
#[verifier::reject_recursive_types(T)]
pub struct ExSender<T>(Sender<T>);

/// How far behind a subscriber may fall, at the least, before it misses
/// values; the channel may round it up.
pub const BUS_CAPACITY: usize = 10_000;

/// Relies on `tokio::sync::broadcast::Sender::new`: a channel on which a
/// subscriber may fall `capacity` values behind (rounded up to a power of
/// two) and on which nothing was sent yet. It panics on a capacity of zero or
/// above `usize::MAX / 2`.
#[verifier::external_body]
fn new_bus<T>(capacity: usize) -> (r: Bus<T>)
    requires
        0 < capacity <= usize::MAX / 2,
    ensures
        r@ == Seq::<T>::empty(),
        r.capacity() == capacity,
{
    Bus { tx: Sender::new(capacity), sent: Ghost(Seq::empty()), capacity: Ghost(capacity) }
}

/// Relies on `tokio::sync::broadcast::Sender::send`: it hands `value` to every
/// current subscriber and returns how many there are, or fails when there are
/// none. How many there are is up to other tasks, so nothing is promised of
/// the count.
#[verifier::external_body]
fn send_to_subscribers<T>(bus: &mut Bus<T>, value: T) -> (r: usize)
    ensures
        final(bus)@ == old(bus)@.push(value),
        final(bus).capacity() == old(bus).capacity(),
{
    match bus.tx.send(value) {
        Ok(n) => n,
        Err(_) => 0,
    }
}

/// A multi-producer, multi-subscriber broadcast bus.
///
/// Its view is the sequence of every value handed to the channel, in order.
#[verifier::reject_recursive_types(T)]
pub struct Bus<T> {
    tx: Sender<T>,
    sent: Ghost<Seq<T>>,
    capacity: Ghost<usize>,
}

/// The bus that carries chat events.
pub type EventBus = Bus<Event>;

/// The bus that carries keystrokes.
pub type KeyBus = Bus<Keystroke>;

impl<T> View for Bus<T> {
    type V = Seq<T>;

    closed spec fn view(&self) -> Seq<T> {
        self.sent@
    }
}

impl<T> Bus<T> {
    /// How far behind a subscriber may fall, at the least, before it misses
    /// values.
    pub closed spec fn capacity(&self) -> usize {
        self.capacity@
    }

    /// A bus on which a subscriber may fall at least `capacity` values behind.
    pub fn new(capacity: usize) -> (r: Bus<T>)
        requires
            0 < capacity <= usize::MAX / 2,
        ensures
            r@ == Seq::<T>::empty(),
            r.capacity() == capacity,
    {
        new_bus(capacity)
    }

    /// Publishes `value` to every current subscriber, without waiting, and
    /// returns how many subscribers there were. Having none is not an error:
    /// the value is then dropped.
    pub fn publish(&mut self, value: T) -> (r: usize)
        ensures
            final(self)@ == old(self)@.push(value),
            final(self).capacity() == old(self).capacity(),
    {
        send_to_subscribers(self, value)
    }

    /// The sending half, through which new subscribers are made.
    pub fn sender(&self) -> (r: &Sender<T>) {
        &self.tx
    }
}

} // verus!
