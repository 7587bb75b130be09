//! The server's control decisions: which accepted connections are admitted,
//! which terminations are reported to the application, and the order of the
//! drain (stop accepting, cancel every live connection, stop reaping).

use vstd::prelude::*;
use crate::registry::{adds, removes, ClientManager};

verus! {

/// `std::io::Error`, carried to the caller when the listener cannot start.
#[verifier::external_type_specification]
#[verifier::external_body]
pub struct ExIoError(std::io::Error);

/// Why the server could not run.
#[derive(Debug)]
pub enum ServerError {
    /// Binding the listening socket failed.
    IOError(std::io::Error),
}

impl From<std::io::Error> for ServerError {
    fn from(err: std::io::Error) -> (r: Self) {
        ServerError::IOError(err)
    }
}

impl vstd::std_specs::convert::FromSpecImpl<std::io::Error> for ServerError {
    open spec fn obeys_from_spec() -> bool {
        true
    }

    open spec fn from_spec(v: std::io::Error) -> ServerError {
        ServerError::IOError(v)
    }
}

/// Where the server stands in its life.
#[derive(PartialEq, Eq, Structural, Clone, Copy, Debug)]
pub enum Phase {
    Running,
    Draining,
    Stopped,
}

/// The registry together with the server's phase.
pub struct ServerCore<H> {
    clients: ClientManager<H>,
    phase: Phase,
    accepting: bool,
}

impl<H> ServerCore<H> {
    /// The live connections.
    pub closed spec fn registry(&self) -> ClientManager<H> {
        self.clients
    }

    pub closed spec fn phase(&self) -> Phase {
        self.phase
    }

    /// Whether the listener still admits connections.
    pub closed spec fn accepting(&self) -> bool {
        self.accepting
    }

    /// The registry is well formed; the listener admits connections while
    /// running, and a stopped server admits none.
    pub open spec fn wf(&self) -> bool {
        &&& self.registry().wf()
        &&& (self.phase() == Phase::Running ==> self.accepting())
        &&& (self.phase() == Phase::Stopped ==> !self.accepting())
    }

    /// A running server with no connections.
    pub fn new() -> (r: Self)
        ensures
            r.wf(),
            r.phase() == Phase::Running,
            r.accepting(),
            r.registry().entries().len() == 0,
    {
        ServerCore { clients: ClientManager::new(), phase: Phase::Running, accepting: true }
    }

    pub fn current_phase(&self) -> (r: Phase)
        ensures
            r == self.phase(),
    {
        self.phase
    }

    pub fn is_accepting(&self) -> (r: bool)
        ensures
            r == self.accepting(),
    {
        self.accepting
    }

    /// The live connections.
    pub fn clients(&self) -> (r: &ClientManager<H>)
        ensures
            *r == self.registry(),
    {
        &self.clients
    }

    /// The identity that the next admitted connection will receive.
    pub fn peek_id(&self) -> (r: Option<usize>)
        ensures
            r == (if self.registry().upcoming() < usize::MAX {
                Some(self.registry().upcoming())
            } else {
                None::<usize>
            }),
    {
        self.clients.peek_id()
    }

    /// Registers a connection that the listener accepted, while it admits
    /// any; the identity it received, or `None` with nothing changed.
    pub fn accept_client(&mut self, handle: H) -> (r: Option<usize>)
        requires
            old(self).wf(),
        ensures
            accepted(*old(self), *final(self), handle, r),
    {
        if !self.accepting {
            return None;
        }
        self.clients.add_client(handle)
    }

    /// Reports the termination of the connection under `id`: removes it, and
    /// whether the application is to be told, which is exactly when it was
    /// still registered.
    pub fn reap(&mut self, id: usize) -> (r: bool)
        requires
            old(self).wf(),
        ensures
            final(self).wf(),
            removes(old(self).registry(), final(self).registry(), id, r),
            !final(self).registry().contains(id),
            final(self).phase() == old(self).phase(),
            final(self).accepting() == old(self).accepting(),
    {
        self.clients.remove_client(id)
    }

    /// Asks the server to stop: a running server starts draining; a second
    /// request changes nothing. Whether this call started the drain.
    pub fn begin_stop(&mut self) -> (r: bool)
        requires
            old(self).wf(),
        ensures
            final(self).wf(),
            r == (old(self).phase() == Phase::Running),
            final(self).phase() == (if r { Phase::Draining } else { old(self).phase() }),
            final(self).accepting() == old(self).accepting(),
            final(self).registry() == old(self).registry(),
    {
        match self.phase {
            Phase::Running => {
                self.phase = Phase::Draining;
                true
            },
            _ => false,
        }
    }

    /// The listener has ended: from now on no connection is admitted. Every
    /// connection registered at this point is then to be cancelled.
    pub fn close_listener(&mut self)
        requires
            old(self).wf(),
            old(self).phase() != Phase::Running,
        ensures
            closes(*old(self), *final(self)),
    {
        self.accepting = false;
    }

    /// The drain is over: the server has stopped.
    pub fn finish(&mut self)
        requires
            old(self).wf(),
            old(self).phase() == Phase::Draining,
            !old(self).accepting(),
        ensures
            final(self).wf(),
            final(self).phase() == Phase::Stopped,
            final(self).registry() == old(self).registry(),
    {
        self.phase = Phase::Stopped;
    }
}

/// `after` is `before` with `handle` registered under `r` where the listener
/// still admits connections, and `before` unchanged otherwise.
pub open spec fn accepted<H>(before: ServerCore<H>, after: ServerCore<H>, handle: H, r: Option<usize>) -> bool {
    &&& after.wf()
    &&& after.phase() == before.phase()
    &&& after.accepting() == before.accepting()
    &&& (before.accepting() ==> adds(before.registry(), after.registry(), handle, r))
    &&& (!before.accepting() ==> r is None && after.registry() == before.registry())
}

/// `after` is `before` with its listener closed.
pub open spec fn closes<H>(before: ServerCore<H>, after: ServerCore<H>) -> bool {
    &&& after.wf()
    &&& !after.accepting()
    &&& after.phase() == before.phase()
    &&& after.registry() == before.registry()
}

/// Once the drain has closed the listener, no connection is admitted any
/// more, whatever is offered, and the registry does not change by it.
pub proof fn lemma_no_admission_after_drain<H>(
    c0: ServerCore<H>,
    c1: ServerCore<H>,
    c2: ServerCore<H>,
    handle: H,
    r: Option<usize>,
)
    requires
        c0.wf(),
        closes(c0, c1),
        accepted(c1, c2, handle, r),
    ensures
        r is None,
        c2.registry() == c1.registry(),
{
}

/// The application hears of a connection's end at most once: of two reports
/// of the same identity, only the first can lead to a notification, and it
/// does exactly when the connection was registered.
pub proof fn lemma_notified_once<H>(
    c0: ServerCore<H>,
    c1: ServerCore<H>,
    c2: ServerCore<H>,
    id: usize,
    r1: bool,
    r2: bool,
)
    requires
        c0.wf(),
        removes(c0.registry(), c1.registry(), id, r1),
        removes(c1.registry(), c2.registry(), id, r2),
    ensures
        !r2,
        r1 == c0.registry().contains(id),
{
    crate::registry::lemma_removed_once(c0.registry(), c1.registry(), c2.registry(), id, r1, r2);
}

} // verus!
