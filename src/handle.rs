//! The part of a connection handle that the application sees: its identity,
//! the sender of its outbound queue, the receiver of its inbound queue, which
//! only one consumer can take, and its stop trigger, which fires at most once.

use vstd::prelude::*;

verus! {

pub struct Handle<S, R, K> {
    id: usize,
    sender: S,
    receiver: Option<R>,
    stop: Option<K>,
}

impl<S, R, K> Handle<S, R, K> {
    pub closed spec fn spec_id(&self) -> usize {
        self.id
    }

    pub closed spec fn spec_sender(&self) -> S {
        self.sender
    }

    /// The inbound receiver, while nobody has taken it.
    pub closed spec fn spec_receiver(&self) -> Option<R> {
        self.receiver
    }

    /// The stop trigger, while it has not fired.
    pub closed spec fn spec_stop(&self) -> Option<K> {
        self.stop
    }

    pub fn new(id: usize, sender: S, receiver: R, stop: K) -> (r: Self)
        ensures
            r.spec_id() == id,
            r.spec_sender() == sender,
            r.spec_receiver() == Some(receiver),
            r.spec_stop() == Some(stop),
    {
        Handle { id, sender, receiver: Some(receiver), stop: Some(stop) }
    }

    #[verifier::when_used_as_spec(spec_id)]
    pub fn id(&self) -> (r: usize)
        ensures
            r == self.spec_id(),
    {
        self.id
    }

    /// The sender of the outbound queue, to be cloned by each producer.
    pub fn tx_sender(&self) -> (r: &S)
        ensures
            *r == self.spec_sender(),
    {
        &self.sender
    }

    /// The inbound receiver for the one consumer that asks first; `None`
    /// for every later caller.
    pub fn take_receiver(&mut self) -> (r: Option<R>)
        ensures
            r == old(self).spec_receiver(),
            final(self).spec_receiver() is None,
            final(self).spec_id() == old(self).spec_id(),
            final(self).spec_sender() == old(self).spec_sender(),
            final(self).spec_stop() == old(self).spec_stop(),
    {
        self.receiver.take()
    }

    /// The stop trigger, to be fired by the caller, the first time only;
    /// `None` once it has been taken, so that a second request does nothing.
    pub fn take_stop(&mut self) -> (r: Option<K>)
        ensures
            r == old(self).spec_stop(),
            final(self).spec_stop() is None,
            final(self).spec_id() == old(self).spec_id(),
            final(self).spec_sender() == old(self).spec_sender(),
            final(self).spec_receiver() == old(self).spec_receiver(),
    {
        self.stop.take()
    }
}

} // verus!
