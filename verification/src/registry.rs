//! The server's connection registry.
//!
//! One list of entries backs both collections of the design — the set of
//! active usernames and the map from username to connection — so the two can
//! never disagree: a username is registered exactly when an entry carries it,
//! and that entry also names its connection.  Join and leave therefore insert
//! and remove a member atomically.  A connection is identified by a number
//! chosen by the listener, distinct per accepted connection; the socket
//! itself stays with the unverified shell.

use vstd::prelude::*;

use crate::protocol::bytes_eq;

verus! {

/// One registered member: a username and the identity of its connection.
pub struct Entry {
    pub name: Vec<u8>,
    pub conn: u64,
}

/// Why a join was refused.
#[derive(Clone, Copy, Debug, PartialEq, Eq, Structural)]
pub enum JoinError {
    /// Another live connection is already registered under this username.
    AlreadyTaken,
}

/// The shared registry of active members.
pub struct Registry {
    pub entries: Vec<Entry>,
}

impl Registry {
    /// Some entry carries this username.
    pub open spec fn has_name(self, name: Seq<u8>) -> bool {
        exists|i: int| 0 <= i < self.entries@.len() && self.entries@[i].name@ == name
    }

    /// Some entry carries this connection.
    pub open spec fn has_conn(self, conn: u64) -> bool {
        exists|i: int| 0 <= i < self.entries@.len() && self.entries@[i].conn == conn
    }

    /// Usernames are pairwise distinct, and so are connections: each
    /// username is registered at most once, and each connection serves at
    /// most one member.
    pub open spec fn wf(self) -> bool {
        &&& forall|i: int, j: int|
            0 <= i < j < self.entries@.len() ==> self.entries@[i].name@ != self.entries@[j].name@
        &&& forall|i: int, j: int|
            0 <= i < j < self.entries@.len() ==> self.entries@[i].conn != self.entries@[j].conn
    }

    /// An empty registry.
    pub fn new() -> (r: Registry)
        ensures
            r.wf(),
            r.entries@.len() == 0,
    {
        Registry { entries: Vec::new() }
    }

    /// How many members are registered.
    pub fn member_count(&self) -> (n: usize)
        ensures
            n == self.entries@.len(),
    {
        self.entries.len()
    }

    /// Is this username registered right now?
    pub fn contains_name(&self, name: &Vec<u8>) -> (r: bool)
        ensures
            r == self.has_name(name@),
    {
        let mut i: usize = 0;
        while i < self.entries.len()
            invariant
                i <= self.entries@.len(),
                forall|k: int| 0 <= k < i ==> self.entries@[k].name@ != name@,
            decreases self.entries@.len() - i,
        {
            if bytes_eq(&self.entries[i].name, name) {
                return true;
            }
            i = i + 1;
        }
        false
    }

    /// Is this connection registered right now?
    pub fn contains_conn(&self, conn: u64) -> (r: bool)
        ensures
            r == self.has_conn(conn),
    {
        let mut i: usize = 0;
        while i < self.entries.len()
            invariant
                i <= self.entries@.len(),
                forall|k: int| 0 <= k < i ==> self.entries@[k].conn != conn,
            decreases self.entries@.len() - i,
        {
            if self.entries[i].conn == conn {
                return true;
            }
            i = i + 1;
        }
        false
    }

    /// The connection registered under a username, if any.
    pub fn conn_of(&self, name: &Vec<u8>) -> (r: Option<u64>)
        ensures
            r is Some <==> self.has_name(name@),
            r matches Some(c) ==> exists|i: int|
                0 <= i < self.entries@.len() && self.entries@[i].name@ == name@
                    && self.entries@[i].conn == c,
    {
        let mut i: usize = 0;
        while i < self.entries.len()
            invariant
                i <= self.entries@.len(),
                forall|k: int| 0 <= k < i ==> self.entries@[k].name@ != name@,
            decreases self.entries@.len() - i,
        {
            if bytes_eq(&self.entries[i].name, name) {
                return Some(self.entries[i].conn);
            }
            i = i + 1;
        }
        None
    }

    /// Register a member: fails exactly when the username is already taken,
    /// and otherwise appends the new entry — username set and connection map
    /// change together or not at all.
    pub fn join(&mut self, name: Vec<u8>, conn: u64) -> (r: Result<(), JoinError>)
        requires
            old(self).wf(),
            !old(self).has_conn(conn),
        ensures
            final(self).wf(),
            r is Ok <==> !old(self).has_name(name@),
            r is Ok ==> final(self).entries@ == old(self).entries@.push((Entry { name, conn })),
            r is Err ==> final(self).entries@ == old(self).entries@,
    {
        if self.contains_name(&name) {
            return Err(JoinError::AlreadyTaken);
        }
        let ghost oe = self.entries@;
        let ghost gname = name@;
        self.entries.push(Entry { name, conn });
        proof {
            let ne = self.entries@;
            assert forall|i: int, j: int| 0 <= i < j < ne.len() implies ne[i].name@ != ne[j].name@
                && ne[i].conn != ne[j].conn by {
                if j < oe.len() {
                    assert(ne[i] == oe[i] && ne[j] == oe[j]);
                } else {
                    assert(ne[i] == oe[i]);
                    assert(ne[j].name@ == gname);
                    assert(oe[i].name@ != gname);
                }
            }
        }
        Ok(())
    }

    /// Remove a member if present; absent usernames are left alone, so the
    /// call is idempotent.  Afterwards the username is registered no more,
    /// and every other member is exactly as it was.
    pub fn leave(&mut self, name: &Vec<u8>)
        requires
            old(self).wf(),
        ensures
            final(self).wf(),
            !final(self).has_name(name@),
            old(self).has_name(name@) ==> exists|i: int|
                0 <= i < old(self).entries@.len() && old(self).entries@[i].name@ == name@
                    && final(self).entries@ == old(self).entries@.remove(i),
            !old(self).has_name(name@) ==> final(self).entries@ == old(self).entries@,
            forall|n: Seq<u8>|
                n != name@ ==> (#[trigger] final(self).has_name(n) <==> old(self).has_name(n)),
    {
        let ghost oe = self.entries@;
        let mut i: usize = 0;
        while i < self.entries.len()
            invariant
                i <= self.entries@.len(),
                self.entries@ == oe,
                old(self).entries@ == oe,
                old(self).wf(),
                forall|k: int| 0 <= k < i ==> self.entries@[k].name@ != name@,
            decreases self.entries@.len() - i,
        {
            if bytes_eq(&self.entries[i].name, name) {
                self.entries.remove(i);
                proof {
                    let ne = self.entries@;
                    let ii = i as int;
                    assert(ne == oe.remove(ii));
                    assert(oe[ii].name@ == name@);
                    assert forall|p: int, q: int| 0 <= p < q < ne.len() implies ne[p].name@
                        != ne[q].name@ && ne[p].conn != ne[q].conn by {
                        let p0: int = if p < ii {
                            p
                        } else {
                            p + 1
                        };
                        let q0: int = if q < ii {
                            q
                        } else {
                            q + 1
                        };
                        assert(ne[p] == oe[p0]);
                        assert(ne[q] == oe[q0]);
                    }
                    assert forall|k: int| 0 <= k < ne.len() implies ne[k].name@ != name@ by {
                        let k0: int = if k < ii {
                            k
                        } else {
                            k + 1
                        };
                        assert(ne[k] == oe[k0]);
                        if k0 < ii {
                            assert(oe[k0].name@ != oe[ii].name@);
                        } else {
                            assert(oe[ii].name@ != oe[k0].name@);
                        }
                    }
                    assert forall|n: Seq<u8>|
                        n != name@ implies (#[trigger] self.has_name(n) <==> old(self).has_name(
                        n,
                    )) by {
                        if self.has_name(n) {
                            let k = choose|k: int|
                                0 <= k < ne.len() && ne[k].name@ == n;
                            let k0: int = if k < ii {
                                k
                            } else {
                                k + 1
                            };
                            assert(ne[k] == oe[k0]);
                            assert(old(self).has_name(n));
                        }
                        if old(self).has_name(n) {
                            let m = choose|m: int|
                                0 <= m < oe.len() && oe[m].name@ == n;
                            let m1: int = if m < ii {
                                m
                            } else {
                                m - 1
                            };
                            assert(ne[m1] == oe[m]);
                            assert(self.has_name(n));
                        }
                    }
                }
                return ;
            }
            i = i + 1;
        }
    }
}

/// The connections a broadcast from `sender` is delivered to: those of every
/// entry whose username is not `sender`, in registration order.
pub open spec fn targets_spec(s: Seq<Entry>, sender: Seq<u8>) -> Seq<u64>
    decreases s.len(),
{
    if s.len() == 0 {
        Seq::empty()
    } else if s.last().name@ != sender {
        targets_spec(s.drop_last(), sender).push(s.last().conn)
    } else {
        targets_spec(s.drop_last(), sender)
    }
}

impl Registry {
    /// The snapshot of connections a broadcast from `sender` goes to.
    pub fn broadcast_targets(&self, sender: &Vec<u8>) -> (r: Vec<u64>)
        ensures
            r@ == targets_spec(self.entries@, sender@),
    {
        let mut r: Vec<u64> = Vec::new();
        let mut i: usize = 0;
        proof {
            assert(self.entries@.take(0) =~= Seq::<Entry>::empty());
        }
        while i < self.entries.len()
            invariant
                i <= self.entries@.len(),
                r@ == targets_spec(self.entries@.take(i as int), sender@),
            decreases self.entries@.len() - i,
        {
            proof {
                let s = self.entries@;
                assert(s.take(i + 1).last() == s[i as int]);
                assert(s.take(i + 1).drop_last() =~= s.take(i as int));
            }
            if !bytes_eq(&self.entries[i].name, sender) {
                r.push(self.entries[i].conn);
            }
            i = i + 1;
        }
        proof {
            assert(self.entries@.take(self.entries@.len() as int) =~= self.entries@);
        }
        r
    }
}

/// A connection is a broadcast target exactly when some entry carries it
/// under a username other than the sender's.
pub proof fn lemma_targets_characterization(s: Seq<Entry>, sender: Seq<u8>, c: u64)
    ensures
        targets_spec(s, sender).contains(c) <==> exists|i: int|
            0 <= i < s.len() && s[i].name@ != sender && s[i].conn == c,
    decreases s.len(),
{
    if s.len() > 0 {
        lemma_targets_characterization(s.drop_last(), sender, c);
        let t = targets_spec(s, sender);
        let t0 = targets_spec(s.drop_last(), sender);
        if t0.contains(c) {
            let j = choose|j: int| 0 <= j < t0.len() && t0[j] == c;
            if s.last().name@ != sender {
                assert(t[j] == c);
            }
            assert(t.contains(c));
        }
        if exists|i: int| 0 <= i < s.drop_last().len() && s.drop_last()[i].name@ != sender
            && s.drop_last()[i].conn == c {
            let i = choose|i: int|
                0 <= i < s.drop_last().len() && s.drop_last()[i].name@ != sender
                    && s.drop_last()[i].conn == c;
            assert(s[i].name@ != sender && s[i].conn == c);
        }
        if t.contains(c) {
            let j = choose|j: int| 0 <= j < t.len() && t[j] == c;
            if s.last().name@ != sender {
                if j < t0.len() {
                    assert(t0[j] == c);
                    assert(t0.contains(c));
                } else {
                    assert(s.last() == s[s.len() - 1]);
                    assert(s[s.len() - 1].name@ != sender && s[s.len() - 1].conn == c);
                }
            } else {
                assert(t0[j] == c);
                assert(t0.contains(c));
            }
        }
        if exists|i: int| 0 <= i < s.len() && s[i].name@ != sender && s[i].conn == c {
            let i = choose|i: int| 0 <= i < s.len() && s[i].name@ != sender && s[i].conn == c;
            if i < s.len() - 1 {
                assert(s.drop_last()[i].name@ != sender && s.drop_last()[i].conn == c);
            } else {
                assert(s.last().conn == c);
                assert(targets_spec(s, sender).last() == c);
            }
            assert(t.contains(c));
        }
    }
}

/// Uniqueness of registration: in a well-formed registry, at most one
/// connection is registered under any given username — two entries carrying
/// the same username are one and the same.  Since every operation keeps the
/// registry well-formed, this holds at every instant of any sequence of join
/// and leave calls.
pub proof fn lemma_unique_registration(r: Registry, name: Seq<u8>, i: int, j: int)
    requires
        r.wf(),
        0 <= i < r.entries@.len(),
        0 <= j < r.entries@.len(),
        r.entries@[i].name@ == name,
        r.entries@[j].name@ == name,
    ensures
        i == j,
{
    if i < j {
        assert(r.entries@[i].name@ != r.entries@[j].name@);
    } else if j < i {
        assert(r.entries@[j].name@ != r.entries@[i].name@);
    }
}

/// Broadcast exclusion: a message broadcast by the member at entry `k` is
/// never delivered to that member's own connection, and is delivered to the
/// connection of every other registered member.
pub proof fn lemma_broadcast_exclusion(r: Registry, k: int)
    requires
        r.wf(),
        0 <= k < r.entries@.len(),
    ensures
        !targets_spec(r.entries@, r.entries@[k].name@).contains(r.entries@[k].conn),
        forall|i: int|
            0 <= i < r.entries@.len() && i != k ==> targets_spec(
                r.entries@,
                r.entries@[k].name@,
            ).contains(#[trigger] r.entries@[i].conn),
{
    let s = r.entries@;
    let sender = s[k].name@;
    lemma_targets_characterization(s, sender, s[k].conn);
    if targets_spec(s, sender).contains(s[k].conn) {
        let i = choose|i: int| 0 <= i < s.len() && s[i].name@ != sender && s[i].conn == s[k].conn;
        if i < k {
            assert(s[i].conn != s[k].conn);
        } else if k < i {
            assert(s[k].conn != s[i].conn);
        }
    }
    assert forall|i: int|
        0 <= i < s.len() && i != k implies targets_spec(s, sender).contains(
        #[trigger] s[i].conn,
    ) by {
        lemma_targets_characterization(s, sender, s[i].conn);
        if i < k {
            assert(s[i].name@ != s[k].name@);
        } else {
            assert(s[k].name@ != s[i].name@);
        }
        assert(s[i].name@ != sender && s[i].conn == s[i].conn);
    }
}

/// A fan-out in progress: the snapshot of target connections and how many of
/// them have been attempted so far.
pub struct BroadcastPlan {
    pub targets: Vec<u64>,
    pub attempted: usize,
}

impl BroadcastPlan {
    /// Not past the end of the snapshot.
    pub open spec fn wf(self) -> bool {
        self.attempted <= self.targets@.len()
    }

    /// Snapshot the members a broadcast from `sender` goes to.
    pub fn begin(reg: &Registry, sender: &Vec<u8>) -> (p: BroadcastPlan)
        ensures
            p.wf(),
            p.targets@ == targets_spec(reg.entries@, sender@),
            p.attempted == 0,
    {
        BroadcastPlan { targets: reg.broadcast_targets(sender), attempted: 0 }
    }
}

/// How one step of the fan-out relates the plan before and after, and the
/// connection it hands out: the next not-yet-attempted target, if one is
/// left.
pub open spec fn broadcast_step_post(pre: BroadcastPlan, post: BroadcastPlan, r: Option<u64>)
    -> bool {
    &&& post.targets == pre.targets
    &&& if pre.attempted < pre.targets@.len() {
        r == Some(pre.targets@[pre.attempted as int]) && post.attempted == pre.attempted + 1
    } else {
        r is None && post.attempted == pre.attempted
    }
}

/// Hand out the next target of the fan-out.  Delivery is best-effort per
/// peer: whether the previous peer write failed or succeeded, the step does
/// exactly the same thing — the two ensures clauses state one relation — so
/// one bad peer can never cut the remaining peers out of a broadcast.
#[allow(unused_variables)]
pub fn broadcast_step(plan: &mut BroadcastPlan, prev_write_failed: bool) -> (r: Option<u64>)
    requires
        old(plan).wf(),
    ensures
        final(plan).wf(),
        prev_write_failed ==> broadcast_step_post(*old(plan), *final(plan), r),
        !prev_write_failed ==> broadcast_step_post(*old(plan), *final(plan), r),
{
    if plan.attempted < plan.targets.len() {
        let c = plan.targets[plan.attempted];
        plan.attempted = plan.attempted + 1;
        Some(c)
    } else {
        None
    }
}

} // verus!
