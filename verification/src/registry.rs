//! The table of open connections, keyed by a small reusable identifier.
use crate::transport::Framed;
use slab::Slab;
use vstd::prelude::*;

verus! {

/// The identifier under which the registry holds a connection.
#[derive(Debug, Clone, Copy, PartialEq, Eq, Structural)]
pub struct Token(pub usize);

/// The largest table that can be asked for. All slots of a table are set
/// aside when it is made, so its size has to stay within what memory holds.
pub const MAX_CAPACITY: usize = 65536;

/// `slab::Slab`, the slot table of the `slab` crate.
#[verifier::external_type_specification]
#[verifier::external_body]
#[verifier::reject_recursive_types(T)]
#[verifier::reject_recursive_types(I)]
pub struct ExSlab<T, I>(Slab<T, I>);

/// The occupied slots of a slab: index to value.
pub uninterp spec fn slab_entries(slab: Slab<Framed, usize>) -> Map<usize, Framed>;

/// The number of slots that a slab was made with.
pub uninterp spec fn slab_capacity(slab: Slab<Framed, usize>) -> nat;

/// `Slab::with_capacity`: a table of `capacity` slots, all of them vacant.
#[verifier::external_body]
fn slab_with_capacity(capacity: usize) -> (slab: Slab<Framed, usize>)
    requires
        capacity <= MAX_CAPACITY,
    ensures
        slab_entries(slab).dom() == Set::<usize>::empty(),
        slab_capacity(slab) == capacity,
{
    Slab::with_capacity(capacity)
}

/// `Slab::capacity`: the number of slots, occupied or not.
#[verifier::external_body]
fn slab_room(slab: &Slab<Framed, usize>) -> (n: usize)
    ensures
        n == slab_capacity(*slab),
{
    slab.capacity()
}

/// `Slab::len`: the number of occupied slots.
#[verifier::external_body]
fn slab_len(slab: &Slab<Framed, usize>) -> (n: usize)
    ensures
        n == slab_entries(*slab).len(),
{
    slab.len()
}

/// `Slab::insert`: puts the value into a vacant slot and returns the slot's
/// index, or hands the value back when every slot is occupied. Which vacant
/// slot is taken is not stated here.
#[verifier::external_body]
fn slab_insert(slab: &mut Slab<Framed, usize>, conn: Framed) -> (r: Result<usize, Framed>)
    ensures
        slab_capacity(*final(slab)) == slab_capacity(*old(slab)),
        match r {
            Ok(idx) => {
                &&& slab_entries(*old(slab)).len() < slab_capacity(*old(slab))
                &&& idx < slab_capacity(*old(slab))
                &&& !slab_entries(*old(slab)).contains_key(idx)
                &&& slab_entries(*final(slab)) == slab_entries(*old(slab)).insert(idx, conn)
            },
            Err(back) => {
                &&& slab_entries(*old(slab)).len() >= slab_capacity(*old(slab))
                &&& back == conn
                &&& slab_entries(*final(slab)) == slab_entries(*old(slab))
            },
        },
{
    slab.insert(conn)
}

/// `Slab::get`: the value in the slot, if the slot is occupied.
#[verifier::external_body]
fn slab_get(slab: &Slab<Framed, usize>, idx: usize) -> (r: Option<&Framed>)
    ensures
        match r {
            Some(conn) => slab_entries(*slab).contains_key(idx) && *conn == slab_entries(
                *slab,
            )[idx],
            None => !slab_entries(*slab).contains_key(idx),
        },
{
    slab.get(idx)
}

/// `Slab::get_mut`: the value in the slot, for change in place, if the slot
/// is occupied. No other slot is touched.
#[verifier::external_body]
fn slab_get_mut(slab: &mut Slab<Framed, usize>, idx: usize) -> (r: Option<&mut Framed>)
    ensures
        slab_capacity(*final(slab)) == slab_capacity(*old(slab)),
        match r {
            Some(conn) => {
                &&& slab_entries(*old(slab)).contains_key(idx)
                &&& *conn == slab_entries(*old(slab))[idx]
                &&& slab_entries(*final(slab)) == slab_entries(*old(slab)).insert(
                    idx,
                    *final(conn),
                )
            },
            None => {
                &&& !slab_entries(*old(slab)).contains_key(idx)
                &&& slab_entries(*final(slab)) == slab_entries(*old(slab))
            },
        },
{
    slab.get_mut(idx)
}

/// `Slab::remove`: empties the slot and returns what it held, if it was
/// occupied. No other slot is touched.
#[verifier::external_body]
fn slab_remove(slab: &mut Slab<Framed, usize>, idx: usize) -> (r: Option<Framed>)
    ensures
        slab_capacity(*final(slab)) == slab_capacity(*old(slab)),
        slab_entries(*final(slab)) == slab_entries(*old(slab)).remove(idx),
        match r {
            Some(conn) => slab_entries(*old(slab)).contains_key(idx) && conn == slab_entries(
                *old(slab),
            )[idx],
            None => !slab_entries(*old(slab)).contains_key(idx),
        },
{
    slab.remove(idx)
}

/// The open connections, each under the identifier it was given when it was
/// put in. At most `capacity` connections are held at a time; the identifier
/// of a connection that was taken out can be given out again.
pub struct Registry {
    slab: Slab<Framed, usize>,
}

impl View for Registry {
    type V = Map<usize, Framed>;

    /// The connections held, by the number inside their `Token`.
    closed spec fn view(&self) -> Map<usize, Framed> {
        slab_entries(self.slab)
    }
}

impl Registry {
    /// The number of connections that the registry has room for.
    pub closed spec fn capacity(&self) -> nat {
        slab_capacity(self.slab)
    }

    /// The registry is in order: it holds finitely many connections, each
    /// under an identifier below the capacity.
    pub open spec fn wf(&self) -> bool {
        &&& self@.dom().finite()
        &&& self.capacity() <= MAX_CAPACITY
        &&& forall|k: usize| self@.contains_key(k) ==> k < self.capacity()
    }

    /// An empty registry with room for `capacity` connections.
    pub fn with_capacity(capacity: usize) -> (registry: Registry)
        requires
            capacity <= MAX_CAPACITY,
        ensures
            registry.wf(),
            registry@ == Map::<usize, Framed>::empty(),
            registry.capacity() == capacity,
    {
        let registry = Registry { slab: slab_with_capacity(capacity) };
        assert(registry@ =~= Map::<usize, Framed>::empty());
        registry
    }

    /// The number of connections that the registry has room for.
    pub fn room(&self) -> (n: usize)
        requires
            self.wf(),
        ensures
            n == self.capacity(),
    {
        slab_room(&self.slab)
    }

    /// The number of connections held.
    pub fn len(&self) -> (n: usize)
        requires
            self.wf(),
        ensures
            n == self@.len(),
            n <= self.capacity(),
    {
        proof {
            self.lemma_len_bound();
        }
        slab_len(&self.slab)
    }

    /// Whether no connection is held.
    pub fn is_empty(&self) -> (empty: bool)
        requires
            self.wf(),
        ensures
            empty == (self@.len() == 0),
    {
        slab_len(&self.slab) == 0
    }

    /// Puts a connection in and returns the identifier it can be found under
    /// from now on: one that no connection held at that moment has. No other
    /// entry changes. When the registry is full the connection comes back
    /// and nothing changes.
    pub fn insert(&mut self, conn: Framed) -> (r: Result<Token, Framed>)
        requires
            old(self).wf(),
        ensures
            final(self).wf(),
            final(self).capacity() == old(self).capacity(),
            old(self)@.len() < old(self).capacity() ==> r is Ok,
            match r {
                Ok(token) => {
                    &&& old(self)@.len() < old(self).capacity()
                    &&& !old(self)@.contains_key(token.0)
                    &&& final(self)@ == old(self)@.insert(token.0, conn)
                },
                Err(back) => {
                    &&& old(self)@.len() == old(self).capacity()
                    &&& back == conn
                    &&& final(self)@ == old(self)@
                },
            },
    {
        proof {
            self.lemma_len_bound();
        }
        match slab_insert(&mut self.slab, conn) {
            Ok(idx) => Ok(Token(idx)),
            Err(back) => Err(back),
        }
    }

    /// The connection under `token`, or `None` when none is held under it:
    /// because none ever was, or because it has been taken out.
    pub fn get(&self, token: Token) -> (r: Option<&Framed>)
        ensures
            match r {
                Some(conn) => self@.contains_key(token.0) && *conn == self@[token.0],
                None => !self@.contains_key(token.0),
            },
    {
        slab_get(&self.slab, token.0)
    }

    /// The connection under `token`, to be changed in place. What the caller
    /// leaves there is what the registry holds under `token` afterwards; no
    /// other entry changes.
    pub fn get_mut(&mut self, token: Token) -> (r: Option<&mut Framed>)
        requires
            old(self).wf(),
        ensures
            final(self).wf(),
            final(self).capacity() == old(self).capacity(),
            match r {
                Some(conn) => {
                    &&& old(self)@.contains_key(token.0)
                    &&& *conn == old(self)@[token.0]
                    &&& final(self)@ == old(self)@.insert(token.0, *final(conn))
                },
                None => !old(self)@.contains_key(token.0) && final(self)@ == old(self)@,
            },
    {
        slab_get_mut(&mut self.slab, token.0)
    }

    /// Whether a connection is held under `token`.
    pub fn contains(&self, token: Token) -> (held: bool)
        ensures
            held == self@.contains_key(token.0),
    {
        slab_get(&self.slab, token.0).is_some()
    }

    /// Takes the connection under `token` out and returns it, or returns
    /// `None` when none is held under it. Afterwards nothing is held under
    /// `token`, and every other entry is as it was.
    pub fn remove(&mut self, token: Token) -> (r: Option<Framed>)
        requires
            old(self).wf(),
        ensures
            final(self).wf(),
            final(self).capacity() == old(self).capacity(),
            final(self)@ == old(self)@.remove(token.0),
            match r {
                Some(conn) => old(self)@.contains_key(token.0) && conn == old(self)@[token.0],
                None => !old(self)@.contains_key(token.0),
            },
    {
        slab_remove(&mut self.slab, token.0)
    }

    /// A registry in order holds no more connections than it has room for.
    pub proof fn lemma_len_bound(&self)
        requires
            self.wf(),
        ensures
            self@.len() <= self.capacity(),
    {
        let below = Set::new(|k: usize| k < self.capacity());
        let ints = vstd::set_lib::set_int_range(0, self.capacity() as int);
        vstd::set_lib::lemma_int_range(0, self.capacity() as int);
        let narrow = |i: int| i as usize;
        assert(below =~= ints.map(narrow)) by {
            assert forall|k: usize| below.contains(k) implies ints.map(narrow).contains(k) by {
                assert(ints.contains(k as int));
            }
        }
        vstd::set_lib::lemma_map_size_bound(ints, below, narrow);
        vstd::set_lib::lemma_len_subset(self@.dom(), below);
    }
}

} // verus!
