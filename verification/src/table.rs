//! Bounded connection table with id reuse.
//!
//! Connections live in a `slab::Slab` keyed by small integer ids; the slab
//! reuses an id only after its prior occupant was removed. The table enforces
//! the admission policy: once `capacity` connections are live, a further
//! admission is refused and existing connections are untouched. The slab's
//! behaviour enters the proofs only through the trusted wrappers below, whose
//! contracts speak over [`slab_entries`] and [`slab_next`].

use vstd::prelude::*;
use crate::connection::Connection;
use crate::connection::fresh_conn;
use slab::Slab;

verus! {

#[verifier::external_type_specification]
#[verifier::external_body]
#[verifier::reject_recursive_types(T)]
pub struct ExSlab<T>(slab::Slab<T>);

/// The entries a slab holds: each occupied key mapped to its value.
pub uninterp spec fn slab_entries(s: slab::Slab<Connection>) -> Map<int, Connection>;

/// The key the slab's next insertion will use.
pub uninterp spec fn slab_next(s: slab::Slab<Connection>) -> int;

/// A slab with no occupied entries at all.
pub open spec fn no_entries(m: Map<int, Connection>) -> bool {
    m == Map::<int, Connection>::empty()
}

/// Relies on slab::Slab::with_capacity: a freshly built slab holds no entries.
#[verifier::external_body]
fn slab_new(capacity: usize) -> (fresh: Slab<Connection>)
    ensures
        no_entries(slab_entries(fresh)),
{
    slab::Slab::with_capacity(capacity)
}

/// Relies on slab::Slab::len: it counts the occupied entries.
#[verifier::external_body]
fn slab_len(s: &slab::Slab<Connection>) -> (n: usize)
    ensures
        n as int == slab_entries(*s).dom().len(),
{
    s.len()
}

/// Relies on slab::Slab::vacant_key: it returns the key the next insertion
/// will use, and that key is vacant.
#[verifier::external_body]
fn slab_vacant_key(s: &slab::Slab<Connection>) -> (k: usize)
    ensures
        k as int == slab_next(*s),
        !slab_entries(*s).dom().contains(k as int),
{
    s.vacant_key()
}

/// Relies on slab::Slab::insert: it stores the value under the vacant key
/// that vacant_key reports, and touches no other entry.
#[verifier::external_body]
fn slab_insert(s: &mut slab::Slab<Connection>, v: Connection) -> (k: usize)
    ensures
        k as int == slab_next(*old(s)),
        !slab_entries(*old(s)).dom().contains(k as int),
        slab_entries(*final(s)) == slab_entries(*old(s)).insert(k as int, v),
{
    s.insert(v)
}

/// Relies on slab::Slab::get: it returns the value under an occupied key and
/// None for a vacant one.
#[verifier::external_body]
fn slab_get<'a>(s: &'a slab::Slab<Connection>, k: usize) -> (r: Option<&'a Connection>)
    ensures
        match r {
            Some(c) => slab_entries(*s).dom().contains(k as int) && *c == slab_entries(*s)[
                k as int
            ],
            None => !slab_entries(*s).dom().contains(k as int),
        },
{
    s.get(k)
}

/// Relies on slab::Slab's IndexMut: assigning through it replaces the value
/// under an occupied key and touches no other entry; it panics on a vacant
/// key, which the precondition rules out.
#[verifier::external_body]
fn slab_set(s: &mut slab::Slab<Connection>, k: usize, v: Connection)
    requires
        slab_entries(*old(s)).dom().contains(k as int),
    ensures
        slab_entries(*final(s)) == slab_entries(*old(s)).insert(k as int, v),
{
    s[k] = v;
}

/// Relies on slab::Slab::try_remove: it removes and returns the value under
/// an occupied key, returns None and changes nothing for a vacant one.
#[verifier::external_body]
fn slab_try_remove(s: &mut slab::Slab<Connection>, k: usize) -> (r: Option<Connection>)
    ensures
        match r {
            Some(c) => slab_entries(*old(s)).dom().contains(k as int) && c == slab_entries(
                *old(s),
            )[k as int] && slab_entries(*final(s)) == slab_entries(*old(s)).remove(k as int),
            None => !slab_entries(*old(s)).dom().contains(k as int) && slab_entries(
                *final(s),
            ) == slab_entries(*old(s)),
        },
{
    s.try_remove(k)
}

/// The connection table: live connections keyed by id, at most `capacity` of
/// them at a time.
pub struct ConnTable {
    slab: slab::Slab<Connection>,
    capacity: usize,
}

impl ConnTable {
    /// The live connections, keyed by id.
    pub closed spec fn conns(self) -> Map<int, Connection> {
        slab_entries(self.slab)
    }

    /// The admission bound.
    pub closed spec fn cap(self) -> int {
        self.capacity as int
    }

    /// Table invariant: finitely many live connections, never more than the
    /// bound, and each one carries the id it is keyed under.
    pub open spec fn wf(self) -> bool {
        &&& self.conns().dom().finite()
        &&& self.conns().dom().len() <= self.cap()
        &&& forall|k: int|
            self.conns().dom().contains(k) ==> (#[trigger] self.conns()[k]).spec_id() == k
    }

    /// An empty table that will accept at most `capacity` connections.
    pub fn new(capacity: usize) -> (t: ConnTable)
        ensures
            t.wf(),
            t.conns() == Map::<int, Connection>::empty(),
            t.cap() == capacity as int,
    {
        ConnTable { slab: slab_new(capacity), capacity }
    }

    /// How many connections are live.
    pub fn len(&self) -> (n: usize)
        ensures
            n as int == self.conns().dom().len(),
    {
        slab_len(&self.slab)
    }

    /// The admission bound.
    pub fn capacity(&self) -> (n: usize)
        ensures
            n as int == self.cap(),
    {
        self.capacity
    }

    /// Admission policy: a new connection gets a fresh id and a fresh state
    /// exactly when the table is below capacity; at capacity the attempt is
    /// refused and every existing connection is left untouched.
    pub fn accept(&mut self) -> (r: Option<usize>)
        requires
            old(self).wf(),
        ensures
            final(self).wf(),
            final(self).cap() == old(self).cap(),
            match r {
                Some(id) => {
                    &&& old(self).conns().dom().len() < old(self).cap()
                    &&& !old(self).conns().dom().contains(id as int)
                    &&& fresh_conn(final(self).conns()[id as int], id as int)
                    &&& final(self).conns() == old(self).conns().insert(
                        id as int,
                        final(self).conns()[id as int],
                    )
                },
                None => {
                    &&& old(self).conns().dom().len() == old(self).cap()
                    &&& final(self).conns() == old(self).conns()
                },
            },
    {
        let n = slab_len(&self.slab);
        if n >= self.capacity {
            proof {
                assert(old(self).conns().dom().len() == old(self).cap());
            }
            None
        } else {
            let id = slab_vacant_key(&self.slab);
            let c = Connection::new(id);
            let k = slab_insert(&mut self.slab, c);
            proof {
                assert(self.conns().dom() =~= old(self).conns().dom().insert(id as int));
                vstd::set::axiom_set_insert_len(old(self).conns().dom(), id as int);
            }
            Some(id)
        }
    }

    /// Look up a live connection by id.
    pub fn get(&self, id: usize) -> (r: Option<&Connection>)
        ensures
            match r {
                Some(c) => self.conns().dom().contains(id as int) && *c == self.conns()[id as int],
                None => !self.conns().dom().contains(id as int),
            },
    {
        slab_get(&self.slab, id)
    }

    /// Store the updated state of a live connection back under its id.
    pub fn update(&mut self, id: usize, c: Connection)
        requires
            old(self).wf(),
            old(self).conns().dom().contains(id as int),
            c.spec_id() == id as int,
        ensures
            final(self).wf(),
            final(self).cap() == old(self).cap(),
            final(self).conns() == old(self).conns().insert(id as int, c),
    {
        slab_set(&mut self.slab, id, c);
        proof {
            assert(self.conns().dom() =~= old(self).conns().dom());
        }
    }

    /// Remove a connection, freeing its id for reuse. Removing an id that is
    /// not live is a no-op, not an error: the call reports whether anything
    /// was removed.
    pub fn remove(&mut self, id: usize) -> (removed: bool)
        requires
            old(self).wf(),
        ensures
            final(self).wf(),
            final(self).cap() == old(self).cap(),
            removed == old(self).conns().dom().contains(id as int),
            final(self).conns() == old(self).conns().remove(id as int),
    {
        let r = slab_try_remove(&mut self.slab, id);
        proof {
            vstd::set::axiom_set_remove_len(old(self).conns().dom(), id as int);
            if !old(self).conns().dom().contains(id as int) {
                assert(self.conns() =~= old(self).conns().remove(id as int));
            }
            assert(self.conns().dom() =~= old(self).conns().dom().remove(id as int));
        }
        r.is_some()
    }
}

/// Single-removal law: removing an id leaves nothing of it behind, so
/// repeating the removal changes nothing — a no-op, never an error.
pub proof fn lemma_remove_idempotent(m: Map<int, Connection>, id: int)
    ensures
        !m.remove(id).dom().contains(id),
        m.remove(id).remove(id) == m.remove(id),
{
    assert(m.remove(id).remove(id) =~= m.remove(id));
}

} // verus!

