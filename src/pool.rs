use vstd::prelude::*;

verus! {

/// What one place of a pool holds.
pub enum Slot<C> {
    /// No connection: a new one may be opened here.
    Vacant,
    /// A new connection is being opened for a borrower.
    Opening,
    /// A connection waits in the pool for its next borrower.
    Idle(C),
    /// The connection of this place is with a borrower.
    InUse,
}

/// Why a pool could not be built or could not hand out a connection.
#[derive(Debug, PartialEq, Eq, Structural)]
pub enum PoolError {
    /// A pool must allow at least one connection.
    InvalidMaxSize,
    /// Every connection stayed in use for the whole wait.
    Exhausted,
}

impl PoolError {
    /// A short diagnostic for the error.
    pub fn message(&self) -> (r: &'static str)
        ensures
            *self == PoolError::InvalidMaxSize ==> r@ == "pool size must be at least one"@,
            *self == PoolError::Exhausted ==> r@ == "no database connection became free in time"@,
    {
        match self {
            PoolError::InvalidMaxSize => "pool size must be at least one",
            PoolError::Exhausted => "no database connection became free in time",
        }
    }
}

/// A connection checked out of a pool. It can only be had from the pool and
/// goes back to it through `Pool::checkin`.
pub struct Lease<C> {
    slot: usize,
    conn: C,
}

/// The right to open a new connection in a reserved place of a pool.
pub struct Reservation {
    slot: usize,
}

/// What a checkout attempt produced.
pub enum Checkout<C> {
    /// An idle connection, now with the caller.
    Ready(Lease<C>),
    /// A place reserved for a new connection: open it and hand it to `Pool::fulfil`.
    Open(Reservation),
    /// Every place is taken: try again after a connection comes back.
    Wait,
}

impl<C> Lease<C> {
    /// Place of the pool that the connection belongs to.
    pub closed spec fn slot_index(&self) -> int {
        self.slot as int
    }

    /// The leased connection.
    pub closed spec fn conn_spec(&self) -> C {
        self.conn
    }

    /// Borrows the leased connection.
    pub fn connection(&self) -> (r: &C)
        ensures
            *r == self.conn_spec(),
    {
        &self.conn
    }

    /// Place of the pool that the connection belongs to.
    pub fn slot(&self) -> (r: usize)
        ensures
            r as int == self.slot_index(),
    {
        self.slot
    }
}

impl Reservation {
    /// Reserved place.
    pub closed spec fn slot_index(&self) -> int {
        self.slot as int
    }

    /// Reserved place.
    pub fn slot(&self) -> (r: usize)
        ensures
            r as int == self.slot_index(),
    {
        self.slot
    }
}

/// Some place holds an idle connection.
pub open spec fn has_idle<C>(v: Seq<Slot<C>>) -> bool {
    exists|i: int| 0 <= i < v.len() && #[trigger] v[i] is Idle
}

/// Some place holds no connection.
pub open spec fn has_vacant<C>(v: Seq<Slot<C>>) -> bool {
    exists|i: int| 0 <= i < v.len() && #[trigger] v[i] is Vacant
}

/// The places whose connections are with borrowers.
pub open spec fn in_use<C>(v: Seq<Slot<C>>) -> Set<int> {
    Set::new(|i: int| 0 <= i < v.len() && v[i] is InUse)
}

/// The places after `conn`, leased from place `slot`, comes back. A healthy
/// connection waits there again; a broken one is dropped and the place freed.
/// A place that is not in use is left as it is.
pub open spec fn after_checkin<C>(v: Seq<Slot<C>>, slot: int, conn: C, healthy: bool) -> Seq<
    Slot<C>,
> {
    if 0 <= slot < v.len() && v[slot] is InUse {
        v.update(slot, if healthy { Slot::Idle(conn) } else { Slot::Vacant })
    } else {
        v
    }
}

/// The idle connections among the places, in place order.
pub open spec fn idle_conns<C>(v: Seq<Slot<C>>) -> Seq<C>
    decreases v.len(),
{
    if v.len() == 0 {
        Seq::empty()
    } else {
        let earlier = idle_conns(v.drop_last());
        match v.last() {
            Slot::Idle(c) => earlier.push(c),
            _ => earlier,
        }
    }
}

/// A place after its idle connection, if any, is taken away.
pub open spec fn drained<C>(s: Slot<C>) -> Slot<C> {
    if s is Idle {
        Slot::Vacant
    } else {
        s
    }
}

/// A bounded pool of connections of type `C`, one place per connection that
/// may be live at once. The pool does not open connections itself: it tells
/// the caller when one may be opened.
pub struct Pool<C> {
    slots: Vec<Slot<C>>,
    timeout_ms: u64,
}

impl<C> Pool<C> {
    /// The places of the pool, in order.
    pub closed spec fn slots(&self) -> Seq<Slot<C>> {
        self.slots@
    }

    /// How long a borrower may wait for a connection, in milliseconds.
    pub closed spec fn timeout_spec(&self) -> u64 {
        self.timeout_ms
    }

    /// Largest number of live connections.
    pub open spec fn max_size_spec(&self) -> nat {
        self.slots().len()
    }

    /// Well-formed: at least one place.
    pub open spec fn wf(&self) -> bool {
        self.max_size_spec() >= 1
    }

    /// Builds a pool of `max_size` places whose first place holds `first`, a
    /// connection the caller opened to show that the database is reachable.
    pub fn build(max_size: usize, timeout_ms: u64, first: C) -> (r: Result<Pool<C>, PoolError>)
        ensures
            max_size == 0 <==> r is Err,
            r matches Err(e) ==> e == PoolError::InvalidMaxSize,
            r matches Ok(p) ==> {
                &&& p.wf()
                &&& p.max_size_spec() == max_size
                &&& p.timeout_spec() == timeout_ms
                &&& p.slots()[0] == Slot::Idle(first)
                &&& forall|i: int| 1 <= i < max_size ==> #[trigger] p.slots()[i] is Vacant
            },
    {
        if max_size == 0 {
            return Err(PoolError::InvalidMaxSize);
        }
        let mut slots: Vec<Slot<C>> = Vec::new();
        slots.push(Slot::Idle(first));
        let mut n: usize = 1;
        while n < max_size
            invariant
                1 <= n <= max_size,
                slots@.len() == n,
                slots@[0] == Slot::Idle(first),
                forall|i: int| 1 <= i < n ==> #[trigger] slots@[i] is Vacant,
            decreases max_size - n,
        {
            slots.push(Slot::Vacant);
            n = n + 1;
        }
        Ok(Pool { slots, timeout_ms })
    }

    /// Tries to hand out a connection to a borrower who has waited
    /// `waited_ms` so far. The first idle connection goes out; failing that,
    /// the first vacant place is reserved for a new one; failing that, the
    /// borrower waits until the timeout, after which the pool is exhausted.
    pub fn checkout(&mut self, waited_ms: u64) -> (r: Result<Checkout<C>, PoolError>)
        requires
            old(self).wf(),
        ensures
            final(self).wf(),
            final(self).timeout_spec() == old(self).timeout_spec(),
            match r {
                Ok(Checkout::Ready(l)) => {
                    let i = l.slot_index();
                    &&& 0 <= i < old(self).slots().len()
                    &&& old(self).slots()[i] == Slot::Idle(l.conn_spec())
                    &&& forall|j: int| 0 <= j < i ==> !(#[trigger] old(self).slots()[j] is Idle)
                    &&& final(self).slots() == old(self).slots().update(i, Slot::InUse)
                },
                Ok(Checkout::Open(res)) => {
                    let i = res.slot_index();
                    &&& !has_idle(old(self).slots())
                    &&& 0 <= i < old(self).slots().len()
                    &&& old(self).slots()[i] is Vacant
                    &&& forall|j: int| 0 <= j < i ==> !(#[trigger] old(self).slots()[j] is Vacant)
                    &&& final(self).slots() == old(self).slots().update(i, Slot::Opening)
                },
                Ok(Checkout::Wait) => {
                    &&& !has_idle(old(self).slots())
                    &&& !has_vacant(old(self).slots())
                    &&& waited_ms < old(self).timeout_spec()
                    &&& final(self).slots() == old(self).slots()
                },
                Err(e) => {
                    &&& e == PoolError::Exhausted
                    &&& !has_idle(old(self).slots())
                    &&& !has_vacant(old(self).slots())
                    &&& waited_ms >= old(self).timeout_spec()
                    &&& final(self).slots() == old(self).slots()
                },
            },
    {
        let n = self.slots.len();
        let mut i: usize = 0;
        while i < n
            invariant
                n == old(self).slots().len(),
                0 <= i <= n,
                self.slots@ == old(self).slots(),
                self.timeout_ms == old(self).timeout_spec(),
                forall|j: int| 0 <= j < i ==> !(#[trigger] old(self).slots()[j] is Idle),
            decreases n - i,
        {
            let s = self.slots.remove(i);
            match s {
                Slot::Idle(conn) => {
                    self.slots.insert(i, Slot::InUse);
                    assert(self.slots@ =~= old(self).slots().update(i as int, Slot::InUse));
                    return Ok(Checkout::Ready(Lease { slot: i, conn }));
                },
                other => {
                    self.slots.insert(i, other);
                    assert(self.slots@ =~= old(self).slots());
                },
            }
            i = i + 1;
        }
        let mut k: usize = 0;
        while k < n
            invariant
                n == old(self).slots().len(),
                0 <= k <= n,
                self.slots@ == old(self).slots(),
                self.timeout_ms == old(self).timeout_spec(),
                !has_idle(old(self).slots()),
                forall|j: int| 0 <= j < k ==> !(#[trigger] old(self).slots()[j] is Vacant),
            decreases n - k,
        {
            if matches!(self.slots[k], Slot::Vacant) {
                self.slots.set(k, Slot::Opening);
                return Ok(Checkout::Open(Reservation { slot: k }));
            }
            k = k + 1;
        }
        if waited_ms < self.timeout_ms {
            Ok(Checkout::Wait)
        } else {
            Err(PoolError::Exhausted)
        }
    }

    /// Gives a leased connection back. A healthy one waits for the next
    /// borrower; a broken one is dropped and its place freed for a new one.
    /// A lease whose place is not in use changes nothing and is refused.
    pub fn checkin(&mut self, lease: Lease<C>, healthy: bool) -> (accepted: bool)
        requires
            old(self).wf(),
        ensures
            final(self).wf(),
            final(self).timeout_spec() == old(self).timeout_spec(),
            accepted == (0 <= lease.slot_index() < old(self).slots().len()
                && old(self).slots()[lease.slot_index()] is InUse),
            final(self).slots() == after_checkin(
                old(self).slots(),
                lease.slot_index(),
                lease.conn_spec(),
                healthy,
            ),
    {
        let Lease { slot, conn } = lease;
        if slot < self.slots.len() && matches!(self.slots[slot], Slot::InUse) {
            if healthy {
                self.slots.set(slot, Slot::Idle(conn));
            } else {
                self.slots.set(slot, Slot::Vacant);
            }
            true
        } else {
            false
        }
    }

    /// Puts the connection opened for a reservation into its place and leases
    /// it to the caller. Where the place is not being opened, the connection
    /// is handed back unchanged.
    pub fn fulfil(&mut self, res: Reservation, conn: C) -> (r: Result<Lease<C>, C>)
        requires
            old(self).wf(),
        ensures
            final(self).wf(),
            final(self).timeout_spec() == old(self).timeout_spec(),
            ({
                let i = res.slot_index();
                if 0 <= i < old(self).slots().len() && old(self).slots()[i] is Opening {
                    &&& r matches Ok(l) && l.slot_index() == i && l.conn_spec() == conn
                    &&& final(self).slots() == old(self).slots().update(i, Slot::InUse)
                } else {
                    &&& r == Err::<Lease<C>, C>(conn)
                    &&& final(self).slots() == old(self).slots()
                }
            }),
    {
        let slot = res.slot;
        if slot < self.slots.len() && matches!(self.slots[slot], Slot::Opening) {
            self.slots.set(slot, Slot::InUse);
            Ok(Lease { slot, conn })
        } else {
            Err(conn)
        }
    }

    /// Frees a reserved place whose connection could not be opened.
    pub fn cancel(&mut self, res: Reservation) -> (freed: bool)
        requires
            old(self).wf(),
        ensures
            final(self).wf(),
            final(self).timeout_spec() == old(self).timeout_spec(),
            ({
                let i = res.slot_index();
                &&& freed == (0 <= i < old(self).slots().len() && old(self).slots()[i] is Opening)
                &&& freed ==> final(self).slots() == old(self).slots().update(i, Slot::Vacant)
                &&& !freed ==> final(self).slots() == old(self).slots()
            }),
    {
        let slot = res.slot;
        if slot < self.slots.len() && matches!(self.slots[slot], Slot::Opening) {
            self.slots.set(slot, Slot::Vacant);
            true
        } else {
            false
        }
    }

    /// Takes every idle connection out of the pool, in place order, so that
    /// the caller can close them; their places become vacant. Connections
    /// with borrowers and places being opened are left as they are.
    pub fn drain(&mut self) -> (r: Vec<C>)
        requires
            old(self).wf(),
        ensures
            final(self).wf(),
            final(self).timeout_spec() == old(self).timeout_spec(),
            r@ == idle_conns(old(self).slots()),
            final(self).slots().len() == old(self).slots().len(),
            forall|i: int|
                0 <= i < old(self).slots().len() ==> #[trigger] final(self).slots()[i] == drained(
                    old(self).slots()[i],
                ),
    {
        let n = self.slots.len();
        let mut out: Vec<C> = Vec::new();
        let mut i: usize = 0;
        while i < n
            invariant
                n == old(self).slots().len(),
                0 <= i <= n,
                self.slots@.len() == n,
                self.timeout_ms == old(self).timeout_spec(),
                out@ == idle_conns(old(self).slots().subrange(0, i as int)),
                forall|j: int| 0 <= j < i ==> #[trigger] self.slots@[j] == drained(old(self).slots()[j]),
                forall|j: int| i <= j < n ==> #[trigger] self.slots@[j] == old(self).slots()[j],
            decreases n - i,
        {
            let ghost before = self.slots@;
            let ghost done = old(self).slots().subrange(0, i as int);
            assert(old(self).slots().subrange(0, i + 1 as int).drop_last() =~= done);
            let s = self.slots.remove(i);
            match s {
                Slot::Idle(conn) => {
                    self.slots.insert(i, Slot::Vacant);
                    assert(self.slots@ =~= before.update(i as int, Slot::Vacant));
                    out.push(conn);
                },
                other => {
                    self.slots.insert(i, other);
                    assert(self.slots@ =~= before);
                },
            }
            i = i + 1;
        }
        assert(old(self).slots().subrange(0, n as int) =~= old(self).slots());
        out
    }

    /// Largest number of live connections.
    pub fn max_size(&self) -> (r: usize)
        ensures
            r == self.max_size_spec(),
    {
        self.slots.len()
    }

    /// How long a borrower may wait for a connection, in milliseconds.
    pub fn timeout_ms(&self) -> (r: u64)
        ensures
            r == self.timeout_spec(),
    {
        self.timeout_ms
    }
}

/// However checkouts and checkins follow one another, no more connections
/// are with borrowers at once than the pool has places.
pub proof fn lemma_in_use_within_max<C>(p: &Pool<C>)
    ensures
        in_use(p.slots()).finite(),
        in_use(p.slots()).len() <= p.max_size_spec(),
{
    let v = p.slots();
    let all = vstd::set_lib::set_int_range(0, v.len() as int);
    assert(in_use(v).subset_of(all));
    vstd::set_lib::lemma_int_range(0, v.len() as int);
    vstd::set_lib::lemma_len_subset(in_use(v), all);
}

/// A healthy connection that comes back can be checked out again: after its
/// checkin its place holds it idle, so the next checkout hands out an idle
/// connection.
pub proof fn lemma_checkin_then_checkout<C>(v: Seq<Slot<C>>, slot: int, conn: C)
    requires
        0 <= slot < v.len(),
        v[slot] is InUse,
    ensures
        after_checkin(v, slot, conn, true)[slot] == Slot::Idle(conn),
        has_idle(after_checkin(v, slot, conn, true)),
{
    let w = after_checkin(v, slot, conn, true);
    assert(w[slot] is Idle);
}

} // verus!
