//! The cancellation filter: it ends a sequence as soon as the shared
//! shutdown signal is seen to have fired, whatever the wrapped sequence has
//! ready.

use tokio::sync::broadcast::error::TryRecvError;
use tokio::sync::broadcast::{Receiver, Sender};
use vstd::prelude::*;

verus! {

/// The receiving half of a broadcast channel.
#[verifier::external_type_specification]
#[verifier::external_body]
#[verifier::reject_recursive_types(T)]
pub struct ExReceiver<T>(tokio::sync::broadcast::Receiver<T>);

/// The sending half of a broadcast channel.
#[verifier::external_type_specification]
#[verifier::external_body]
#[verifier::reject_recursive_types(T)]
pub struct ExSender<T>(tokio::sync::broadcast::Sender<T>);

/// What a look at the shutdown signal finds, without waiting.
#[derive(Clone, Copy, Debug, PartialEq, Eq, Structural)]
pub enum Signal {
    /// A shutdown message was received.
    Fired,
    /// No message is there, and one may still come.
    Empty,
    /// No message is there, and every sender is gone.
    Closed,
    /// Messages were sent and overwritten before they were read.
    Lagged,
}

/// Subscribes to the shutdown signal with
/// `tokio::sync::broadcast::Sender::subscribe`. The receiver that comes
/// back sees the messages sent from then on; nothing is claimed of it.
#[verifier::external_body]
fn subscribe(exit: &Sender<()>) -> (receiver: Receiver<()>) {
    exit.subscribe()
}

/// Looks at the shutdown signal with
/// `tokio::sync::broadcast::Receiver::try_recv`, which does not wait. What
/// it finds depends on what the senders have done, so nothing is claimed of
/// the result.
#[verifier::external_body]
fn try_recv(exit: &mut Receiver<()>) -> (signal: Signal) {
    match exit.try_recv() {
        Ok(()) => Signal::Fired,
        Err(TryRecvError::Empty) => Signal::Empty,
        Err(TryRecvError::Closed) => Signal::Closed,
        Err(TryRecvError::Lagged(_)) => Signal::Lagged,
    }
}

/// Whether the sequence is over, given whether the signal was seen to have
/// fired before and what a look at it finds now. A message that was
/// received and messages that were missed both mean that the signal has
/// fired; and once it has, it has for good.
pub open spec fn has_fired(fired: bool, signal: Signal) -> bool {
    fired || signal == Signal::Fired || signal == Signal::Lagged
}

/// A signal that was received or missed ends the sequence at that very
/// look, whatever was seen before; and a sequence that is over stays over,
/// whatever a later look finds.
pub proof fn lemma_fired_signal_ends_sequence(fired: bool, signal: Signal)
    ensures
        signal == Signal::Fired || signal == Signal::Lagged ==> has_fired(fired, signal),
        fired ==> has_fired(fired, signal),
        !fired && (signal == Signal::Empty || signal == Signal::Closed) ==> !has_fired(
            fired,
            signal,
        ),
{
}

/// A sequence that ends when the shutdown signal fires.
pub struct ExitFilter<S> {
    exit: Receiver<()>,
    input: S,
    fired: bool,
}

impl<S> ExitFilter<S> {
    /// Whether the signal has been seen to have fired.
    pub closed spec fn fired(&self) -> bool {
        self.fired
    }

    /// The wrapped sequence.
    pub closed spec fn input(&self) -> S {
        self.input
    }

    /// Wraps `input` and subscribes to the signal that `exit` sends.
    pub fn new(exit: Sender<()>, input: S) -> (filter: ExitFilter<S>)
        ensures
            !filter.fired(),
            filter.input() == input,
    {
        ExitFilter { exit: subscribe(&exit), input, fired: false }
    }

    /// Takes note of what a look at the signal found. Returns whether the
    /// sequence is over.
    pub fn observe(&mut self, signal: Signal) -> (over: bool)
        ensures
            over == has_fired(old(self).fired(), signal),
            final(self).fired() == over,
            final(self).input() == old(self).input(),
    {
        if signal == Signal::Fired || signal == Signal::Lagged {
            self.fired = true;
        }
        self.fired
    }

    /// Looks at the signal, without waiting, before a pull. Returns whether
    /// the sequence is over: if so the pull is not made, whatever the wrapped
    /// sequence has ready; if not, the pull goes to the wrapped sequence
    /// unchanged. A sequence that is over stays over.
    pub fn poll_exit(&mut self) -> (over: bool)
        ensures
            old(self).fired() ==> over,
            final(self).fired() == over,
            final(self).input() == old(self).input(),
    {
        if self.fired {
            return true;
        }
        let signal = try_recv(&mut self.exit);
        self.observe(signal)
    }

    /// The wrapped sequence, to make the pull on.
    pub fn input_mut(&mut self) -> (input: &mut S)
        ensures
            *input == old(self).input(),
            final(self).input() == *final(input),
            final(self).fired() == old(self).fired(),
    {
        &mut self.input
    }

    /// Gives the wrapped sequence back.
    pub fn into_input(self) -> (input: S)
        ensures
            input == self.input(),
    {
        self.input
    }
}

} // verus!
