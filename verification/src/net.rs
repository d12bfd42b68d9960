//! Bookkeeping for the collection of multicast sockets, one per IPv4
//! interface.
//!
//! Binding to `0.0.0.0` lets the operating system pick a single route, so
//! there is a socket for every interface.  The sockets themselves belong to
//! the caller; here is which interfaces have one, which were given up on,
//! how often sending failed on each, and which socket has to go.
//!
//! An interface is named by its IPv4 address as a `u32`, first octet in
//! the highest byte.

use std::collections::{HashMap, HashSet};
use vstd::prelude::*;

verus! {

broadcast use vstd::std_specs::hash::group_hash_axioms;

/// How many times in a row opening a socket may fail before the interface
/// is rejected.
pub const MAX_TRIES: u32 = 5;

/// How many send failures in a row a socket survives: the next failure in
/// the row removes it.
pub const MAX_SEND_FAILURES: u32 = 5;

/// UDP port of the group protocol.
pub const MULTICAST_PORT: u16 = 20810;

/// The multicast group `224.76.78.75`.
pub const MULTICAST_GROUP: u32 = 0xE04C_4E4B;

/// Seconds between two attempts to bind interfaces that have no socket.
pub const REBIND_SECONDS: u64 = 5;

/// Read timeout of a socket, in milliseconds.
pub const READ_TIMEOUT_MILLIS: u64 = 100;

/// Errors of the transport.
#[derive(Debug, Clone, Copy, PartialEq, Eq)]
pub enum NetError {
    /// Not one interface could be bound: there is no network to
    /// synchronise over.
    NoInterface,
}

/// How the socket of one interface is set up.
#[derive(Debug, Clone, Copy, PartialEq, Eq)]
pub struct SocketPlan {
    /// Interface that outgoing multicast leaves through.
    pub interface: u32,
    /// The socket does not block.
    pub nonblocking: bool,
    /// Several sockets may share the address.
    pub reuse_address: bool,
    /// Several sockets may share the port, where the system knows the option.
    pub reuse_port: bool,
    /// Read timeout in milliseconds.
    pub read_timeout_millis: u64,
    /// Whether our own packets come back to us.
    pub multicast_loop: bool,
    /// Multicast group to join on the interface.
    pub group: u32,
    /// Local address to bind, the unspecified one.
    pub bind_address: u32,
    /// Local port to bind.
    pub bind_port: u16,
}

/// What became of one attempt to bind an interface.
#[derive(Debug, Clone, Copy, PartialEq, Eq)]
pub enum BindStep {
    /// The interface has a socket now.
    Bound,
    /// Try to open the socket again.
    Retry,
    /// The interface is given up until the next rebind; `first_time` says
    /// whether that is news worth a warning.
    Rejected { first_time: bool },
}

/// Collection of the interfaces that have sockets.
#[derive(Debug, PartialEq, Eq)]
pub struct Connection {
    /// Interfaces with a working socket, in the order the sockets were bound.
    pub sockets: Vec<u32>,
    /// Interfaces for which there is a working socket: those of `sockets`.
    pub established: HashSet<u32>,
    /// Interfaces for which no socket could be made.
    pub rejected: HashSet<u32>,
    /// Send failures in a row, by interface.
    pub failures: HashMap<u32, u32>,
}

/// Nothing occurs twice.
pub open spec fn distinct(s: Seq<u32>) -> bool {
    forall|i: int, j: int| 0 <= i < j < s.len() ==> s[i] != s[j]
}

/// `127.0.0.0/8`.
pub open spec fn loopback(addr: u32) -> bool {
    addr >> 24 == 127
}

/// The failures recorded for `addr`, none if there is no record.
pub open spec fn recorded(failures: Map<u32, u32>, addr: u32) -> Option<u32> {
    if failures.contains_key(addr) {
        Some(failures[addr])
    } else {
        None
    }
}

/// One more failure.
pub open spec fn bumped(count: Option<u32>) -> u32 {
    match count {
        Some(n) => if n == u32::MAX {
            n
        } else {
            (n + 1) as u32
        },
        None => 1,
    }
}

/// The record for `addr` once the results of the first `n` sockets of a
/// broadcast are in: a success forgets the failures, a failure adds one.
pub open spec fn recorded_at(
    failures: Map<u32, u32>,
    sockets: Seq<u32>,
    results: Seq<bool>,
    n: int,
    addr: u32,
) -> Option<u32>
    decreases n,
{
    if n <= 0 {
        recorded(failures, addr)
    } else if sockets[n - 1] != addr {
        recorded_at(failures, sockets, results, n - 1, addr)
    } else if results[n - 1] {
        None
    } else {
        Some(bumped(recorded_at(failures, sockets, results, n - 1, addr)))
    }
}

/// The send on the socket in slot `i` failed and made more than
/// [`MAX_SEND_FAILURES`] failures in a row on its interface: the sixth
/// failure since the last success evicts.
pub open spec fn evicts(failures: Map<u32, u32>, sockets: Seq<u32>, results: Seq<bool>, i: int) -> bool {
    !results[i] && bumped(recorded_at(failures, sockets, results, i, sockets[i]))
        > MAX_SEND_FAILURES
}

/// The slots among the first `n` whose sockets have to go, ascending.
pub open spec fn evicted(failures: Map<u32, u32>, sockets: Seq<u32>, results: Seq<bool>, n: int) -> Seq<
    usize,
>
    decreases n,
{
    if n <= 0 {
        Seq::empty()
    } else if evicts(failures, sockets, results, n - 1) {
        evicted(failures, sockets, results, n - 1).push((n - 1) as usize)
    } else {
        evicted(failures, sockets, results, n - 1)
    }
}

/// The sockets of the first `n` slots that are not named in `ids`, in order.
pub open spec fn kept_slots(sockets: Seq<u32>, ids: Seq<usize>, n: int) -> Seq<u32>
    decreases n,
{
    if n <= 0 {
        Seq::empty()
    } else if ids.contains((n - 1) as usize) {
        kept_slots(sockets, ids, n - 1)
    } else {
        kept_slots(sockets, ids, n - 1).push(sockets[n - 1])
    }
}

/// The sockets of the first `n` slots that are named in `ids`, in order.
pub open spec fn removed_slots(sockets: Seq<u32>, ids: Seq<usize>, n: int) -> Seq<u32>
    decreases n,
{
    if n <= 0 {
        Seq::empty()
    } else if ids.contains((n - 1) as usize) {
        removed_slots(sockets, ids, n - 1).push(sockets[n - 1])
    } else {
        removed_slots(sockets, ids, n - 1)
    }
}

/// The multicast address of the group protocol: `224.76.78.75:20810`.
pub fn multicast() -> (target: (u32, u16))
    ensures
        target == (MULTICAST_GROUP, MULTICAST_PORT),
{
    (MULTICAST_GROUP, MULTICAST_PORT)
}

/// The set-up of the multicast socket for `interface`.  Our own packets
/// loop back only on loopback interfaces.
pub fn open_multicast(interface: u32) -> (plan: SocketPlan)
    ensures
        plan == (SocketPlan {
            interface,
            nonblocking: true,
            reuse_address: true,
            reuse_port: true,
            read_timeout_millis: READ_TIMEOUT_MILLIS,
            multicast_loop: loopback(interface),
            group: MULTICAST_GROUP,
            bind_address: 0,
            bind_port: MULTICAST_PORT,
        }),
{
    SocketPlan {
        interface,
        nonblocking: true,
        reuse_address: true,
        reuse_port: true,
        read_timeout_millis: READ_TIMEOUT_MILLIS,
        multicast_loop: interface >> 24 == 127,
        group: MULTICAST_GROUP,
        bind_address: 0,
        bind_port: MULTICAST_PORT,
    }
}

/// Whether `ids` names slot `slot`.
fn names(ids: &Vec<usize>, slot: usize) -> (found: bool)
    ensures
        found == ids@.contains(slot),
{
    let mut i: usize = 0;
    while i < ids.len()
        invariant
            i <= ids@.len(),
            forall|k: int| 0 <= k < i ==> ids@[k] != slot,
        decreases ids@.len() - i,
    {
        if ids[i] == slot {
            return true;
        }
        i += 1;
    }
    false
}

impl Connection {
    /// No interface has two sockets, and the established interfaces are
    /// those that have one.
    pub open spec fn wf(self) -> bool {
        &&& distinct(self.sockets@)
        &&& forall|addr: u32|
            #[trigger] self.established@.contains(addr) <==> self.sockets@.contains(addr)
    }

    /// A connection without sockets.
    pub fn new() -> (connection: Self)
        ensures
            connection.wf(),
            connection.sockets@.len() == 0,
            connection.established@ == Set::<u32>::empty(),
            connection.rejected@ == Set::<u32>::empty(),
            connection.failures@ == Map::<u32, u32>::empty(),
    {
        Connection {
            sockets: Vec::new(),
            established: HashSet::new(),
            rejected: HashSet::new(),
            failures: HashMap::new(),
        }
    }

    /// Whether `addr` has a working socket, so that binding skips it.
    pub fn is_established(&self, addr: u32) -> (found: bool)
        ensures
            found == self.established@.contains(addr),
    {
        self.established.contains(&addr)
    }

    /// Without a single socket the player cannot run.  This is checked once,
    /// after the first round of binding; losing every socket later is not
    /// fatal, the next rebind recovers.
    pub fn check_usable(&self) -> (r: Result<(), NetError>)
        ensures
            r is Ok <==> self.sockets@.len() > 0,
            r is Err ==> r->Err_0 == NetError::NoInterface,
    {
        if self.sockets.len() == 0 {
            Err(NetError::NoInterface)
        } else {
            Ok(())
        }
    }

    /// Record one attempt to open the socket of `addr`, an interface
    /// without a socket.  `opened` says whether the attempt succeeded,
    /// `failed_before` how many attempts on it failed in this round.  The
    /// interface is rejected with its [`MAX_TRIES`]-th failure in a row.
    pub fn bind(&mut self, addr: u32, opened: bool, failed_before: u32) -> (step: BindStep)
        requires
            old(self).wf(),
            !old(self).established@.contains(addr),
        ensures
            final(self).wf(),
            final(self).failures == old(self).failures,
            opened ==> step == BindStep::Bound && final(self).sockets@ == old(self).sockets@.push(
                addr,
            ) && final(self).established@ == old(self).established@.insert(addr) && final(self).rejected == old(self).rejected,
            !opened ==> final(self).sockets == old(self).sockets && final(self).established
                == old(self).established,
            !opened && failed_before + 1 < MAX_TRIES ==> step == BindStep::Retry && final(self).rejected == old(self).rejected,
            !opened && failed_before + 1 >= MAX_TRIES ==> step == (BindStep::Rejected {
                first_time: !old(self).rejected@.contains(addr),
            }) && final(self).rejected@ == old(self).rejected@.insert(addr),
    {
        if opened {
            proof {
                lemma_push_contains(self.sockets@, addr);
            }
            self.sockets.push(addr);
            self.established.insert(addr);
            return BindStep::Bound;
        }
        if failed_before < MAX_TRIES - 1 {
            return BindStep::Retry;
        }
        let first_time = self.rejected.insert(addr);
        BindStep::Rejected { first_time }
    }

    /// Record the results of sending one frame on every socket:
    /// `results[i]` says whether sending on `sockets[i]` succeeded.  Returns
    /// the slots of the sockets that have to be removed.
    pub fn record_broadcast(&mut self, results: &Vec<bool>) -> (failed: Vec<usize>)
        requires
            results@.len() == old(self).sockets@.len(),
        ensures
            final(self).sockets == old(self).sockets,
            final(self).established == old(self).established,
            final(self).rejected == old(self).rejected,
            forall|addr: u32|
                recorded(final(self).failures@, addr) == recorded_at(
                    old(self).failures@,
                    old(self).sockets@,
                    results@,
                    results@.len() as int,
                    addr,
                ),
            failed@ == evicted(
                old(self).failures@,
                old(self).sockets@,
                results@,
                results@.len() as int,
            ),
    {
        let ghost before = self.failures@;
        let mut failed: Vec<usize> = Vec::new();
        let mut i: usize = 0;
        while i < self.sockets.len()
            invariant
                i <= self.sockets@.len(),
                results@.len() == self.sockets@.len(),
                self.sockets == old(self).sockets,
                self.established == old(self).established,
                self.rejected == old(self).rejected,
                before == old(self).failures@,
                forall|addr: u32|
                    recorded(self.failures@, addr) == recorded_at(
                        before,
                        self.sockets@,
                        results@,
                        i as int,
                        addr,
                    ),
                failed@ == evicted(before, self.sockets@, results@, i as int),
            decreases self.sockets@.len() - i,
        {
            let addr = self.sockets[i];
            let ghost current = self.failures@;
            if results[i] {
                self.failures.remove(&addr);
            } else {
                let seen: Option<u32> = match self.failures.get(&addr) {
                    Some(n) => Some(*n),
                    None => None,
                };
                assert(seen == recorded(current, addr));
                let next: u32 = match seen {
                    Some(n) => if n == u32::MAX {
                        n
                    } else {
                        n + 1
                    },
                    None => 1,
                };
                if next > MAX_SEND_FAILURES {
                    failed.push(i);
                }
                self.failures.insert(addr, next);
            }
            assert forall|a: u32|
                recorded(self.failures@, a) == recorded_at(
                    before,
                    self.sockets@,
                    results@,
                    i + 1,
                    a,
                ) by {
                assert(recorded(current, a) == recorded_at(
                    before,
                    self.sockets@,
                    results@,
                    i as int,
                    a,
                ));
            }
            i += 1;
        }
        failed
    }

    /// Remove the sockets in the slots `ids` and return their interfaces,
    /// which are no longer established.  Useful when some connections
    /// repeatedly fail to work.
    pub fn remove(&mut self, ids: &Vec<usize>) -> (gone: Vec<u32>)
        requires
            old(self).wf(),
            ids@.len() > 0,
            forall|i: int, j: int| 0 <= i <= j < ids@.len() ==> ids@[i] <= ids@[j],
            forall|i: int| 0 <= i < ids@.len() ==> ids@[i] < old(self).sockets@.len(),
        ensures
            final(self).wf(),
            final(self).rejected == old(self).rejected,
            final(self).failures == old(self).failures,
            final(self).sockets@ == kept_slots(
                old(self).sockets@,
                ids@,
                old(self).sockets@.len() as int,
            ),
            gone@ == removed_slots(old(self).sockets@, ids@, old(self).sockets@.len() as int),
            forall|addr: u32|
                #[trigger] final(self).established@.contains(addr) <==> old(self).established@.contains(addr) && !gone@.contains(addr),
            forall|addr: u32|
                #[trigger] final(self).sockets@.contains(addr) <==> old(self).sockets@.contains(
                    addr,
                ) && !gone@.contains(addr),
            forall|addr: u32| #[trigger] gone@.contains(addr) ==> old(self).sockets@.contains(addr),
    {
        let mut kept: Vec<u32> = Vec::new();
        let mut gone: Vec<u32> = Vec::new();
        let mut i: usize = 0;
        while i < self.sockets.len()
            invariant
                i <= self.sockets@.len(),
                self.sockets == old(self).sockets,
                self.rejected == old(self).rejected,
                self.failures == old(self).failures,
                kept@ == kept_slots(self.sockets@, ids@, i as int),
                gone@ == removed_slots(self.sockets@, ids@, i as int),
                forall|addr: u32|
                    #[trigger] self.established@.contains(addr) <==> old(self).established@.contains(addr) && !gone@.contains(addr),
            decreases self.sockets@.len() - i,
        {
            let addr = self.sockets[i];
            if names(ids, i) {
                proof {
                    lemma_push_contains(gone@, addr);
                }
                gone.push(addr);
                self.established.remove(&addr);
            } else {
                kept.push(addr);
            }
            i += 1;
        }
        proof {
            lemma_slots_partition(self.sockets@, ids@, self.sockets@.len() as int);
            assert forall|addr: u32| #[trigger]
                kept@.contains(addr) <==> self.sockets@.contains(addr) && !gone@.contains(
                    addr,
                ) by {
                if self.sockets@.contains(addr) {
                    let k = choose|k: int| 0 <= k < self.sockets@.len() && self.sockets@[k] == addr;
                    assert(kept@.contains(self.sockets@[k]) != gone@.contains(self.sockets@[k]));
                }
                if kept@.contains(addr) {
                    let k = choose|k: int|
                        0 <= k < self.sockets@.len() && self.sockets@[k] == addr && !ids@.contains(
                            k as usize,
                        );
                    assert(self.sockets@[k] == addr);
                }
            }
            assert forall|addr: u32| #[trigger] gone@.contains(addr) implies self.sockets@.contains(
                addr,
            ) by {
                let k = choose|k: int|
                    0 <= k < self.sockets@.len() && self.sockets@[k] == addr && ids@.contains(
                        k as usize,
                    );
                assert(self.sockets@[k] == addr);
            }
        }
        self.sockets = kept;
        gone
    }

    /// Account for one broadcast: record the result of sending on every
    /// socket, remove the sockets that failed too often, and return their
    /// interfaces.
    pub fn after_broadcast(&mut self, results: &Vec<bool>) -> (gone: Vec<u32>)
        requires
            old(self).wf(),
            results@.len() == old(self).sockets@.len(),
        ensures
            final(self).wf(),
            final(self).rejected == old(self).rejected,
            forall|addr: u32|
                #[trigger] final(self).established@.contains(addr) <==> old(self).established@.contains(addr) && !gone@.contains(addr),
            forall|addr: u32|
                recorded(final(self).failures@, addr) == recorded_at(
                    old(self).failures@,
                    old(self).sockets@,
                    results@,
                    results@.len() as int,
                    addr,
                ),
            final(self).sockets@ == kept_slots(
                old(self).sockets@,
                evicted(old(self).failures@, old(self).sockets@, results@, results@.len() as int),
                results@.len() as int,
            ),
            gone@ == removed_slots(
                old(self).sockets@,
                evicted(old(self).failures@, old(self).sockets@, results@, results@.len() as int),
                results@.len() as int,
            ),
    {
        let total = results.len();
        let failed = self.record_broadcast(results);
        if failed.len() == 0 {
            proof {
                lemma_no_slots(self.sockets@, failed@, self.sockets@.len() as int);
            }
            Vec::new()
        } else {
            proof {
                lemma_evicted_slots(
                    old(self).failures@,
                    old(self).sockets@,
                    results@,
                    total as int,
                );
            }
            self.remove(&failed)
        }
    }
}

impl Default for Connection {
    /// A connection without sockets.
    fn default() -> (connection: Self)
        ensures
            connection.wf(),
            connection.sockets@.len() == 0,
            connection.established@ == Set::<u32>::empty(),
            connection.rejected@ == Set::<u32>::empty(),
            connection.failures@ == Map::<u32, u32>::empty(),
    {
        Connection::new()
    }
}

/// Splitting distinct sockets by slot gives two distinct lists that share
/// nothing: every socket is in exactly one of them, by its slot.
pub proof fn lemma_slots_partition(sockets: Seq<u32>, ids: Seq<usize>, n: int)
    requires
        distinct(sockets),
        0 <= n <= sockets.len(),
    ensures
        distinct(kept_slots(sockets, ids, n)),
        forall|addr: u32|
            kept_slots(sockets, ids, n).contains(addr) <==> exists|k: int|
                0 <= k < n && #[trigger] sockets[k] == addr && !ids.contains(k as usize),
        forall|addr: u32|
            removed_slots(sockets, ids, n).contains(addr) <==> exists|k: int|
                0 <= k < n && #[trigger] sockets[k] == addr && ids.contains(k as usize),
        forall|k: int|
            0 <= k < n ==> kept_slots(sockets, ids, n).contains(#[trigger] sockets[k])
                != removed_slots(sockets, ids, n).contains(sockets[k]),
    decreases n,
{
    if n > 0 {
        lemma_slots_partition(sockets, ids, n - 1);
        let kept_before = kept_slots(sockets, ids, n - 1);
        let gone_before = removed_slots(sockets, ids, n - 1);
        let kept = kept_slots(sockets, ids, n);
        let gone = removed_slots(sockets, ids, n);
        let last = sockets[n - 1];
        assert(!kept_before.contains(last));
        assert(!gone_before.contains(last));
        if ids.contains((n - 1) as usize) {
            lemma_push_contains(gone_before, last);
        } else {
            lemma_push_contains(kept_before, last);
        }
        assert forall|addr: u32| kept.contains(addr) <==> exists|k: int|
                0 <= k < n && #[trigger] sockets[k] == addr && !ids.contains(k as usize) by {
            if kept.contains(addr) {
                if kept_before.contains(addr) {
                    let k = choose|k: int|
                        0 <= k < n - 1 && #[trigger] sockets[k] == addr && !ids.contains(
                            k as usize,
                        );
                    assert(0 <= k < n && sockets[k] == addr);
                } else {
                    assert(sockets[n - 1] == addr);
                }
            }
            if exists|k: int|
                0 <= k < n && #[trigger] sockets[k] == addr && !ids.contains(k as usize) {
                let k = choose|k: int|
                    0 <= k < n && #[trigger] sockets[k] == addr && !ids.contains(k as usize);
                if k < n - 1 {
                    assert(kept_before.contains(addr));
                }
            }
        }
        assert forall|addr: u32| gone.contains(addr) <==> exists|k: int|
                0 <= k < n && #[trigger] sockets[k] == addr && ids.contains(k as usize) by {
            if gone.contains(addr) {
                if gone_before.contains(addr) {
                    let k = choose|k: int|
                        0 <= k < n - 1 && #[trigger] sockets[k] == addr && ids.contains(
                            k as usize,
                        );
                    assert(0 <= k < n && sockets[k] == addr);
                } else {
                    assert(sockets[n - 1] == addr);
                }
            }
            if exists|k: int|
                0 <= k < n && #[trigger] sockets[k] == addr && ids.contains(k as usize) {
                let k = choose|k: int|
                    0 <= k < n && #[trigger] sockets[k] == addr && ids.contains(k as usize);
                if k < n - 1 {
                    assert(gone_before.contains(addr));
                }
            }
        }
        assert forall|k: int| 0 <= k < n implies kept.contains(#[trigger] sockets[k])
            != gone.contains(sockets[k]) by {
            if k < n - 1 {
                assert(kept_before.contains(sockets[k]) != gone_before.contains(sockets[k]));
                assert(sockets[k] != last);
            }
        }
        assert(distinct(kept)) by {
            assert forall|i: int, j: int| 0 <= i < j < kept.len() implies kept[i] != kept[j] by {
                if j == kept_before.len() {
                    assert(kept_before.contains(kept[i]));
                }
            }
        }
    } else {
        assert(kept_slots(sockets, ids, n) =~= Seq::<u32>::empty());
        assert(removed_slots(sockets, ids, n) =~= Seq::<u32>::empty());
    }
}

/// Where every interface has one socket, a broadcast touches the record of
/// each socket's interface once: a success forgets its failures, a failure
/// adds one to them.  The records of other interfaces stay.
pub proof fn lemma_recorded_once(
    failures: Map<u32, u32>,
    sockets: Seq<u32>,
    results: Seq<bool>,
    n: int,
    addr: u32,
)
    requires
        distinct(sockets),
        0 <= n <= sockets.len(),
    ensures
        (forall|i: int| 0 <= i < n ==> sockets[i] != addr) ==> recorded_at(
            failures,
            sockets,
            results,
            n,
            addr,
        ) == recorded(failures, addr),
        forall|i: int|
            0 <= i < n && sockets[i] == addr ==> recorded_at(failures, sockets, results, n, addr)
                == (if results[i] {
                None
            } else {
                Some(bumped(recorded(failures, addr)))
            }),
    decreases n,
{
    if n > 0 {
        lemma_recorded_once(failures, sockets, results, n - 1, addr);
        if sockets[n - 1] == addr {
            assert(forall|i: int| 0 <= i < n - 1 ==> sockets[i] != addr);
        }
    }
}

/// Where every interface has one socket, a socket is evicted exactly when
/// sending on it failed and that makes more than [`MAX_SEND_FAILURES`]
/// failures in a row on record for its interface.
pub proof fn lemma_evicts_after_five(
    failures: Map<u32, u32>,
    sockets: Seq<u32>,
    results: Seq<bool>,
    i: int,
)
    requires
        distinct(sockets),
        0 <= i < sockets.len(),
    ensures
        evicts(failures, sockets, results, i) == (!results[i] && bumped(
            recorded(failures, sockets[i]),
        ) > MAX_SEND_FAILURES),
{
    lemma_recorded_once(failures, sockets, results, i, sockets[i]);
}

/// The slots to evict are named in ascending order, each once, and each is
/// a slot of the broadcast.
pub proof fn lemma_evicted_slots(
    failures: Map<u32, u32>,
    sockets: Seq<u32>,
    results: Seq<bool>,
    n: int,
)
    requires
        0 <= n <= usize::MAX,
    ensures
        forall|k: int|
            0 <= k < evicted(failures, sockets, results, n).len() ==> evicted(
                failures,
                sockets,
                results,
                n,
            )[k] < n,
        forall|i: int, j: int|
            0 <= i < j < evicted(failures, sockets, results, n).len() ==> evicted(
                failures,
                sockets,
                results,
                n,
            )[i] < evicted(failures, sockets, results, n)[j],
    decreases n,
{
    if n > 0 {
        lemma_evicted_slots(failures, sockets, results, n - 1);
        let before = evicted(failures, sockets, results, n - 1);
        let all = evicted(failures, sockets, results, n);
        if evicts(failures, sockets, results, n - 1) {
            assert(all == before.push((n - 1) as usize));
            assert forall|k: int| 0 <= k < all.len() implies all[k] < n by {
                if k < before.len() {
                    assert(all[k] == before[k]);
                }
            }
            assert forall|i: int, j: int| 0 <= i < j < all.len() implies all[i] < all[j] by {
                assert(all[i] == before[i]);
                if j < before.len() {
                    assert(all[j] == before[j]);
                }
            }
        } else {
            assert(all == before);
        }
    }
}

/// Naming no slot removes nothing.
pub proof fn lemma_no_slots(sockets: Seq<u32>, ids: Seq<usize>, n: int)
    requires
        ids.len() == 0,
        0 <= n <= sockets.len(),
    ensures
        kept_slots(sockets, ids, n) == sockets.subrange(0, n),
        removed_slots(sockets, ids, n) == Seq::<u32>::empty(),
    decreases n,
{
    if n > 0 {
        lemma_no_slots(sockets, ids, n - 1);
        assert(kept_slots(sockets, ids, n) =~= sockets.subrange(0, n));
    } else {
        assert(kept_slots(sockets, ids, n) =~= sockets.subrange(0, n));
    }
}

/// What a list holds once `x` is pushed.
proof fn lemma_push_contains(s: Seq<u32>, x: u32)
    ensures
        forall|y: u32| s.push(x).contains(y) <==> s.contains(y) || y == x,
{
    assert forall|y: u32| s.push(x).contains(y) <==> s.contains(y) || y == x by {
        if s.push(x).contains(y) {
            let i = choose|i: int| 0 <= i < s.push(x).len() && s.push(x)[i] == y;
            if i < s.len() {
                assert(s[i] == y);
            }
        }
        if s.contains(y) {
            let i = choose|i: int| 0 <= i < s.len() && s[i] == y;
            assert(s.push(x)[i] == y);
        }
        if y == x {
            assert(s.push(x)[s.len() as int] == y);
        }
    }
}

} // verus!
