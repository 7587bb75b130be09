//! The registry of live connections. Each one is known by an identity that a
//! counter issues and that is never issued twice.

use vstd::prelude::*;

verus! {

/// A live connection under its identity.
pub struct Registered<H> {
    pub id: usize,
    pub handle: H,
}

/// The live connections, in the order in which they were added.
pub struct ClientManager<H> {
    clients: Vec<Registered<H>>,
    next_id: usize,
}

impl<H> ClientManager<H> {
    /// The registered connections, in the order in which they were added.
    pub closed spec fn entries(&self) -> Seq<Registered<H>> {
        self.clients@
    }

    /// The identity that the next registration receives.
    pub closed spec fn upcoming(&self) -> usize {
        self.next_id
    }

    /// Whether a connection is registered under `id`.
    pub open spec fn contains(&self, id: usize) -> bool {
        exists|i: int| 0 <= i < self.entries().len() && #[trigger] self.entries()[i].id == id
    }

    /// Identities are distinct, and all lie below the one issued next.
    pub open spec fn wf(&self) -> bool {
        &&& forall|i: int, j: int|
            0 <= i < j < self.entries().len() ==> #[trigger] self.entries()[i].id != #[trigger] self.entries()[j].id
        &&& forall|i: int| 0 <= i < self.entries().len() ==> #[trigger] self.entries()[i].id < self.upcoming()
    }

    /// An empty registry.
    pub fn new() -> (r: Self)
        ensures
            r.wf(),
            r.entries() == Seq::<Registered<H>>::empty(),
            r.upcoming() == 0,
    {
        ClientManager { clients: Vec::new(), next_id: 0 }
    }

    /// The identity that the next registration will receive, if any is left.
    pub fn peek_id(&self) -> (r: Option<usize>)
        ensures
            r == (if self.upcoming() < usize::MAX { Some(self.upcoming()) } else { None::<usize> }),
    {
        if self.next_id < usize::MAX {
            Some(self.next_id)
        } else {
            None
        }
    }

    /// Registers a connection under a fresh identity and returns it; `None`,
    /// with nothing changed, once the identities are used up.
    pub fn add_client(&mut self, handle: H) -> (r: Option<usize>)
        requires
            old(self).wf(),
        ensures
            adds(*old(self), *final(self), handle, r),
    {
        if self.next_id == usize::MAX {
            return None;
        }
        let id = self.next_id;
        let ghost h = handle;
        self.clients.push(Registered { id, handle });
        self.next_id = id + 1;
        proof { lemma_registration_fresh(*old(self), *self, h, Some(id)); }
        Some(id)
    }

    /// Removes the connection registered under `id`; whether there was one.
    pub fn remove_client(&mut self, id: usize) -> (r: bool)
        requires
            old(self).wf(),
        ensures
            removes(*old(self), *final(self), id, r),
            final(self).wf(),
            !final(self).contains(id),
    {
        let mut i: usize = 0;
        while i < self.clients.len()
            invariant
                self.wf(),
                *self == *old(self),
                0 <= i <= self.clients@.len(),
                forall|j: int| 0 <= j < i ==> #[trigger] self.clients@[j].id != id,
            decreases self.clients@.len() - i,
        {
            if self.clients[i].id == id {
                let ghost before = *self;
                self.clients.remove(i);
                proof { lemma_removal_forgets(before, *self, id, i as int); }
                return true;
            }
            i = i + 1;
        }
        false
    }

    /// Whether a connection is registered under `id`.
    pub fn contains_client(&self, id: usize) -> (r: bool)
        ensures
            r == self.contains(id),
    {
        let mut i: usize = 0;
        while i < self.clients.len()
            invariant
                0 <= i <= self.clients@.len(),
                forall|j: int| 0 <= j < i ==> #[trigger] self.clients@[j].id != id,
            decreases self.clients@.len() - i,
        {
            if self.clients[i].id == id {
                assert(self.entries()[i as int].id == id);
                return true;
            }
            i = i + 1;
        }
        false
    }

    /// The number of registered connections.
    pub fn len(&self) -> (r: usize)
        ensures
            r == self.entries().len(),
    {
        self.clients.len()
    }

    /// Calls `f` on every registered connection, in registration order.
    pub fn for_each_client<F: Fn(&H)>(&self, f: F)
        requires
            forall|i: int| 0 <= i < self.entries().len() ==> f.requires((&#[trigger] self.entries()[i].handle,)),
        ensures
            forall|i: int| 0 <= i < self.entries().len() ==> f.ensures((&#[trigger] self.entries()[i].handle,), ()),
    {
        let mut i: usize = 0;
        while i < self.clients.len()
            invariant
                0 <= i <= self.clients@.len(),
                forall|j: int| 0 <= j < self.entries().len() ==> f.requires((&#[trigger] self.entries()[j].handle,)),
                forall|j: int| 0 <= j < i ==> f.ensures((&#[trigger] self.entries()[j].handle,), ()),
            decreases self.clients@.len() - i,
        {
            let entry = &self.clients[i];
            assert(f.requires((&self.entries()[i as int].handle,)));
            f(&entry.handle);
            assert(f.ensures((&self.entries()[i as int].handle,), ()));
            i = i + 1;
        }
    }

    /// The registered connections, for a pass over all of them.
    pub fn clients(&self) -> (r: &[Registered<H>])
        ensures
            r@ == self.entries(),
    {
        self.clients.as_slice()
    }
}

/// `after` is `before` with `handle` registered under the result, or
/// unchanged where `r` is `None` because the identities are used up.
pub open spec fn adds<H>(before: ClientManager<H>, after: ClientManager<H>, handle: H, r: Option<usize>) -> bool {
    &&& after.wf()
    &&& (r is Some <==> before.upcoming() < usize::MAX)
    &&& (r matches Some(id) ==> {
        &&& id == before.upcoming()
        &&& !before.contains(id)
        &&& after.entries() == before.entries().push(Registered { id, handle })
        &&& after.upcoming() == id + 1
    })
    &&& (r is None ==> after == before)
}

/// `after` is `before` less the connection registered under `id`, and `r`
/// tells whether there was one.
pub open spec fn removes<H>(before: ClientManager<H>, after: ClientManager<H>, id: usize, r: bool) -> bool {
    &&& r == before.contains(id)
    &&& (r ==> exists|i: int|
        0 <= i < before.entries().len() && #[trigger] before.entries()[i].id == id
            && after.entries() == before.entries().remove(i) && after.upcoming() == before.upcoming())
    &&& (!r ==> after == before)
}

/// A registration takes an identity that no live connection holds, and the
/// registry stays well formed.
pub proof fn lemma_registration_fresh<H>(before: ClientManager<H>, after: ClientManager<H>, handle: H, r: Option<usize>)
    requires
        before.wf(),
        r matches Some(id) ==> {
            &&& id == before.upcoming()
            &&& id < usize::MAX
            &&& after.entries() == before.entries().push(Registered { id, handle })
            &&& after.upcoming() == id + 1
        },
        r is None ==> after == before && before.upcoming() == usize::MAX,
    ensures
        adds(before, after, handle, r),
{
    if let Some(id) = r {
        assert(!before.contains(id));
        assert forall|i: int, j: int| 0 <= i < j < after.entries().len() implies
            #[trigger] after.entries()[i].id != #[trigger] after.entries()[j].id by {
            if j == before.entries().len() {
                assert(before.entries()[i].id < id);
            } else {
                assert(after.entries()[i] == before.entries()[i]);
                assert(after.entries()[j] == before.entries()[j]);
            }
        }
        assert forall|i: int| 0 <= i < after.entries().len() implies
            #[trigger] after.entries()[i].id < after.upcoming() by {
            if i < before.entries().len() {
                assert(after.entries()[i] == before.entries()[i]);
            }
        }
    }
}

/// Removing the entry at `i`, which holds `id`, leaves a well-formed registry
/// with no connection under `id`.
pub proof fn lemma_removal_forgets<H>(before: ClientManager<H>, after: ClientManager<H>, id: usize, i: int)
    requires
        before.wf(),
        0 <= i < before.entries().len(),
        before.entries()[i].id == id,
        after.entries() == before.entries().remove(i),
        after.upcoming() == before.upcoming(),
    ensures
        after.wf(),
        !after.contains(id),
        removes(before, after, id, true),
{
    let b = before.entries();
    let a = after.entries();
    assert forall|k: int| 0 <= k < a.len() implies #[trigger] a[k] == (if k < i { b[k] } else { b[k + 1] }) by {}
    assert forall|k: int| 0 <= k < a.len() implies #[trigger] a[k].id != id by {
        if k < i {
            assert(b[k].id != b[i].id);
        } else {
            assert(b[i].id != b[k + 1].id);
        }
    }
    assert forall|x: int, y: int| 0 <= x < y < a.len() implies #[trigger] a[x].id != #[trigger] a[y].id by {
        let bx = if x < i { x } else { x + 1 };
        let by_ = if y < i { y } else { y + 1 };
        assert(bx < by_);
        assert(a[x] == b[bx] && a[y] == b[by_]);
    }
    assert forall|k: int| 0 <= k < a.len() implies #[trigger] a[k].id < after.upcoming() by {
        let bk = if k < i { k } else { k + 1 };
        assert(a[k] == b[bk]);
    }
    assert(before.contains(id)) by {
        assert(b[i].id == id);
    }
}

/// Registering several connections gives each its own identity: in a
/// well-formed registry no two entries share one, and each registration adds
/// exactly one entry.
pub proof fn lemma_distinct_identities<H>(m: ClientManager<H>, after: ClientManager<H>, handle: H, r: Option<usize>)
    requires
        m.wf(),
        adds(m, after, handle, r),
    ensures
        forall|i: int, j: int|
            0 <= i < after.entries().len() && 0 <= j < after.entries().len() && i != j
                ==> after.entries()[i].id != after.entries()[j].id,
        r is Some ==> after.entries().len() == m.entries().len() + 1,
{
    assert forall|i: int, j: int|
        0 <= i < after.entries().len() && 0 <= j < after.entries().len() && i != j
            implies after.entries()[i].id != after.entries()[j].id by {
        if i < j {
            assert(after.entries()[i].id != after.entries()[j].id);
        } else {
            assert(after.entries()[j].id != after.entries()[i].id);
        }
    }
}

/// Removal finds a connection at most once: of two removals of the same
/// identity, the second reports "not found", and one of the two reports
/// success exactly when the connection was registered.
pub proof fn lemma_removed_once<H>(
    m0: ClientManager<H>,
    m1: ClientManager<H>,
    m2: ClientManager<H>,
    id: usize,
    r1: bool,
    r2: bool,
)
    requires
        m0.wf(),
        removes(m0, m1, id, r1),
        removes(m1, m2, id, r2),
    ensures
        !r2,
        r1 == m0.contains(id),
{
    if r1 {
        let i = choose|i: int|
            0 <= i < m0.entries().len() && #[trigger] m0.entries()[i].id == id
                && m1.entries() == m0.entries().remove(i) && m1.upcoming() == m0.upcoming();
        lemma_removal_forgets(m0, m1, id, i);
    }
}

} // verus!
