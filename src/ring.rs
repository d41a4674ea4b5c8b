//! The DHT ring: clockwise geometry over identifiers, the local node's
//! pointers, and the decisions of lookup and stabilization.
use vstd::prelude::*;
use vstd::arithmetic::power2::*;

use crate::Did;

verus! {

/// Number of points on the ring.
pub open spec fn ring_size() -> int {
    0x1_0000_0000_0000_0000
}

/// Clockwise distance from `a` to `b`, in `[0, ring_size())`.
pub open spec fn cw(a: Did, b: Did) -> int {
    if a <= b {
        b - a
    } else {
        b - a + ring_size()
    }
}

/// The point right after `d`, clockwise.
pub open spec fn next_point(d: Did) -> Did {
    if d == u64::MAX {
        0
    } else {
        (d + 1) as u64
    }
}

/// The point right before `d`, clockwise.
pub open spec fn prev_point(d: Did) -> Did {
    if d == 0 {
        u64::MAX
    } else {
        (d - 1) as u64
    }
}

/// `x` lies in the clockwise interval `(a, b]`; when `a == b` this is the whole ring.
pub open spec fn in_half_open(a: Did, x: Did, b: Did) -> bool {
    a == b || (0 < cw(a, x) && cw(a, x) <= cw(a, b))
}

/// `x` lies strictly between `a` and `b` clockwise; when `a == b` this is
/// every point but `a`.
pub open spec fn in_open(a: Did, x: Did, b: Did) -> bool {
    0 < cw(a, x) && (a == b || cw(a, x) < cw(a, b))
}

/// `m` is the node of `ids` that owns `t`: the first node at or after `t`
/// clockwise.
pub open spec fn is_owner(ids: Set<Did>, t: Did, m: Did) -> bool {
    &&& ids.contains(m)
    &&& forall|x: Did| ids.contains(x) ==> cw(t, m) <= cw(t, x)
}

/// `s` is the ring successor of `n` among `ids`: the first node after `n`.
/// A lone node is its own successor.
pub open spec fn is_successor(ids: Set<Did>, n: Did, s: Did) -> bool {
    is_owner(ids, next_point(n), s)
}

/// `p` is the ring predecessor of `n` among `ids`: the last node before `n`.
/// A lone node is its own predecessor.
pub open spec fn is_predecessor(ids: Set<Did>, n: Did, p: Did) -> bool {
    &&& ids.contains(p)
    &&& forall|x: Did| ids.contains(x) ==> cw(p, prev_point(n)) <= cw(x, prev_point(n))
}

/// Clockwise distance from `a` to `b`.
pub fn clockwise(a: Did, b: Did) -> (r: u64)
    ensures
        r == cw(a, b),
{
    if a <= b {
        b - a
    } else {
        b + (u64::MAX - a) + 1
    }
}

/// `x` is in `(a, b]` clockwise (the whole ring when `a == b`).
pub fn between_half_open(a: Did, x: Did, b: Did) -> (r: bool)
    ensures
        r == in_half_open(a, x, b),
{
    if a == b {
        true
    } else {
        let dx = clockwise(a, x);
        0 < dx && dx <= clockwise(a, b)
    }
}

/// `x` is strictly between `a` and `b` clockwise (every point but `a` when `a == b`).
pub fn between_open(a: Did, x: Did, b: Did) -> (r: bool)
    ensures
        r == in_open(a, x, b),
{
    let dx = clockwise(a, x);
    0 < dx && (a == b || dx < clockwise(a, b))
}

/// What a node answers to a lookup of a target identifier.
pub enum Lookup {
    /// The owner of the target is known.
    Found(Did),
    /// Ask this node next.
    Forward(Did),
}

/// The local node's view of the ring.
pub struct PeerRing {
    pub did: Did,
    pub successor: Option<Did>,
    pub predecessor: Option<Did>,
    /// `finger[i]` is the first known node at or after `did + 2^i`.
    pub finger: Vec<Option<Did>>,
}

/// `x` is a node that `r` knows of through its successor or its fingers.
pub open spec fn known_by(r: PeerRing, x: Did) -> bool {
    r.successor == Some(x) || exists|i: int| 0 <= i < r.finger@.len() && r.finger@[i] == Some(x)
}

/// Position of the node named `d`, if any.
pub fn index_of(nodes: &Vec<PeerRing>, d: Did) -> (r: Option<usize>)
    ensures
        r matches Some(i) ==> i < nodes@.len() && nodes@[i as int].did == d,
        r is None ==> !ids_of(nodes@).contains(d),
{
    let mut i: usize = 0;
    while i < nodes.len()
        invariant
            i <= nodes@.len(),
            forall|j: int| 0 <= j < i ==> nodes@[j].did != d,
        decreases nodes@.len() - i,
    {
        if nodes[i].did == d {
            return Some(i);
        }
        i = i + 1;
    }
    None
}

/// Resolve `target` by asking the nodes of `nodes` in turn, starting at
/// `start`. Each hop moves strictly closer to `target`, so the walk ends.
/// When a node names a peer that is not among `nodes`, that peer is the best
/// answer at hand and is returned: the answer is always a node of `nodes`
/// or a peer that one of them knows of. On a ring whose successors are settled
/// the answer is the owner of `target`.
pub fn lookup(nodes: &Vec<PeerRing>, start: usize, target: Did) -> (r: Did)
    requires
        start < nodes@.len(),
    ensures
        successors_settled(nodes@) ==> is_owner(ids_of(nodes@), target, r),
        ids_of(nodes@).contains(r) || exists|i: int| 0 <= i < nodes@.len() && known_by(nodes@[i], r),
{
    let mut cur = start;
    loop
        invariant
            cur < nodes@.len(),
        decreases cw(nodes@[cur as int].did, target),
    {
        let node = &nodes[cur];
        match node.find_successor(target) {
            Lookup::Found(d) => {
                proof {
                    if successors_settled(nodes@) {
                        assert(ids_of(nodes@).contains(node.did));
                        if target != node.did {
                            lemma_successor_owns_interval(ids_of(nodes@), node.did, d, target);
                        }
                    }
                    if d == node.did {
                        assert(ids_of(nodes@).contains(d));
                    } else {
                        assert(known_by(nodes@[cur as int], d));
                    }
                }
                return d;
            },
            Lookup::Forward(d) => {
                proof {
                    if successors_settled(nodes@) {
                        if node.successor != Some(d) {
                            let k = choose|k: int|
                                0 <= k < node.finger@.len() && node.finger@[k] == Some(d);
                            assert(node.finger@[k] is Some);
                        }
                        assert(ids_of(nodes@).contains(d));
                    }
                }
                assert(cw(d, target) < cw(node.did, target));
                match index_of(nodes, d) {
                    Some(j) => {
                        cur = j;
                    },
                    None => {
                        assert(known_by(nodes@[cur as int], d));
                        return d;
                    },
                }
            },
        }
    }
}

/// The converged ring over identifiers sorted increasingly: each node points
/// to the next identifier as successor and to the one before as predecessor,
/// wrapping around, which are its ring successor and predecessor.
pub fn settled_ring(ids: &Vec<Did>, k: usize) -> (r: Vec<PeerRing>)
    requires
        forall|a: int, b: int| 0 <= a < b < ids@.len() ==> ids@[a] < ids@[b],
        k <= 64,
    ensures
        r@.len() == ids@.len(),
        ids_of(r@) == ids@.to_set(),
        forall|i: int|
            0 <= i < r@.len() ==> {
                &&& #[trigger] r@[i].did == ids@[i]
                &&& r@[i].successor == Some(ids@[next_index(i, ids@.len() as int)])
                &&& r@[i].predecessor == Some(ids@[prev_index(i, ids@.len() as int)])
                &&& is_successor(ids@.to_set(), ids@[i], r@[i].successor->0)
                &&& is_predecessor(ids@.to_set(), ids@[i], r@[i].predecessor->0)
                &&& r@[i].finger@.len() == k
            },
        successors_settled(r@),
{
    let n = ids.len();
    let mut r: Vec<PeerRing> = Vec::new();
    let mut i: usize = 0;
    while i < n
        invariant
            n == ids@.len(),
            i <= n,
            r@.len() == i,
            forall|a: int, b: int| 0 <= a < b < ids@.len() ==> ids@[a] < ids@[b],
            k <= 64,
            forall|j: int|
                0 <= j < i ==> {
                    let x = #[trigger] r@[j];
                    &&& x.did == ids@[j]
                    &&& x.successor == Some(ids@[next_index(j, n as int)])
                    &&& x.predecessor == Some(ids@[prev_index(j, n as int)])
                    &&& x.finger@ == Seq::new(k as nat, |_i: int| None::<Did>)
                },
        decreases n - i,
    {
        let next = if i + 1 == n { 0 } else { i + 1 };
        let prev = if i == 0 { n - 1 } else { i - 1 };
        let mut node = PeerRing::new(ids[i], k);
        node.successor = Some(ids[next]);
        node.predecessor = Some(ids[prev]);
        r.push(node);
        i = i + 1;
    }
    assert forall|j: int| 0 <= j < r@.len() implies is_successor(
        ids@.to_set(),
        ids@[j],
        r@[j].successor->0,
    ) && is_predecessor(ids@.to_set(), ids@[j], r@[j].predecessor->0) by {
        lemma_sorted_neighbours(ids@, j);
    }
    assert(ids_of(r@) =~= ids@.to_set()) by {
        assert forall|d: Did| ids@.to_set().contains(d) implies ids_of(r@).contains(d) by {
            let j = choose|j: int| 0 <= j < ids@.len() && ids@[j] == d;
            assert(r@[j].did == d);
        }
        assert forall|d: Did| ids_of(r@).contains(d) implies ids@.to_set().contains(d) by {
            let j = choose|j: int| 0 <= j < r@.len() && r@[j].did == d;
            assert(r@[j].did == ids@[j]);
            assert(ids@.contains(d));
        }
    }
    assert forall|j: int| 0 <= j < r@.len() implies (#[trigger] r@[j]).successor matches Some(s)
        && is_successor(ids_of(r@), r@[j].did, s) && forall|f: int|
        0 <= f < r@[j].finger@.len() ==> r@[j].finger@[f] is None by {
        assert(r@[j].finger@ == Seq::new(k as nat, |_i: int| None::<Did>));
    }
    r
}

impl PeerRing {
    /// A node that knows no other node yet, with a finger table of `k` entries.
    pub fn new(did: Did, k: usize) -> (r: PeerRing)
        requires
            k <= 64,
        ensures
            r.did == did,
            r.successor is None,
            r.predecessor is None,
            r.finger@ == Seq::new(k as nat, |_i: int| None::<Did>),
    {
        let mut finger: Vec<Option<Did>> = Vec::new();
        let mut i: usize = 0;
        while i < k
            invariant
                i <= k,
                finger@ == Seq::new(i as nat, |_i: int| None::<Did>),
            decreases k - i,
        {
            finger.push(None);
            i = i + 1;
            assert(finger@ =~= Seq::new(i as nat, |_i: int| None::<Did>));
        }
        PeerRing { did, successor: None, predecessor: None, finger }
    }

    /// The known node closest before `target`, starting from the successor
    /// `succ` and improving on it with any finger strictly between this node
    /// and `target`.
    pub fn closest_preceding(&self, target: Did, succ: Did) -> (r: Did)
        requires
            self.successor == Some(succ),
            in_open(self.did, succ, target),
        ensures
            r == best_preceding(*self, target, self.finger@.len()),
            known_by(*self, r),
            in_open(self.did, r, target),
            forall|i: int|
                0 <= i < self.finger@.len() && self.finger@[i] is Some && in_open(
                    self.did,
                    self.finger@[i]->0,
                    target,
                ) ==> cw(self.did, self.finger@[i]->0) <= cw(self.did, r),
            cw(self.did, succ) <= cw(self.did, r),
    {
        let mut best = succ;
        let mut i: usize = 0;
        while i < self.finger.len()
            invariant
                i <= self.finger@.len(),
                best == best_preceding(*self, target, i as nat),
                known_by(*self, best),
                in_open(self.did, best, target),
                cw(self.did, succ) <= cw(self.did, best),
                forall|j: int|
                    0 <= j < i && self.finger@[j] is Some && in_open(
                        self.did,
                        self.finger@[j]->0,
                        target,
                    ) ==> cw(self.did, self.finger@[j]->0) <= cw(self.did, best),
            decreases self.finger@.len() - i,
        {
            if let Some(x) = self.finger[i] {
                if between_open(self.did, x, target) && clockwise(self.did, x) > clockwise(
                    self.did,
                    best,
                ) {
                    best = x;
                }
            }
            i = i + 1;
        }
        best
    }

    /// One step of a lookup of `target` at this node: the successor when
    /// `target` lies in `(did, successor]`, else the closest known node
    /// preceding `target` to ask next. A node owns its own identifier, and a
    /// node without a successor owns everything it is asked about.
    pub fn find_successor(&self, target: Did) -> (r: Lookup)
        ensures
            r == lookup_step(*self, target),
            (target == self.did || self.successor is None) ==> r == Lookup::Found(self.did),
            target != self.did && self.successor is Some && in_half_open(
                self.did,
                target,
                self.successor->0,
            ) ==> r == Lookup::Found(self.successor->0),
            target != self.did && self.successor is Some && !in_half_open(
                self.did,
                target,
                self.successor->0,
            ) ==> {
                &&& r is Forward
                &&& known_by(*self, r->Forward_0)
                &&& in_open(self.did, r->Forward_0, target)
                &&& forall|i: int|
                    0 <= i < self.finger@.len() && self.finger@[i] is Some && in_open(
                        self.did,
                        self.finger@[i]->0,
                        target,
                    ) ==> cw(self.did, self.finger@[i]->0) <= cw(self.did, r->Forward_0)
                &&& cw(self.did, self.successor->0) <= cw(self.did, r->Forward_0)
            },
    {
        if target == self.did {
            return Lookup::Found(self.did);
        }
        match self.successor {
            None => Lookup::Found(self.did),
            Some(s) => {
                if between_half_open(self.did, target, s) {
                    Lookup::Found(s)
                } else {
                    Lookup::Forward(self.closest_preceding(target, s))
                }
            },
        }
    }

    /// Point `i` of the finger table: `did + 2^i` on the ring.
    pub fn finger_start(&self, i: usize) -> (r: Did)
        requires
            i < 64,
        ensures
            r == finger_point(self.did, i as nat),
    {
        let mut step: u64 = 1;
        let mut j: usize = 0;
        proof {
            lemma2_to64();
        }
        while j < i
            invariant
                j <= i < 64,
                step == pow2(j as nat),
            decreases i - j,
        {
            proof {
                lemma_pow2_unfold((j + 1) as nat);
                lemma_pow2_strictly_increases((j + 1) as nat, 64);
                lemma2_to64();
                lemma2_to64_rest();
            }
            step = step * 2;
            j = j + 1;
        }
        proof {
            lemma_pow2_strictly_increases(i as nat, 64);
            lemma2_to64_rest();
        }
        if step <= u64::MAX - self.did {
            self.did + step
        } else {
            step - (u64::MAX - self.did) - 1
        }
    }

    /// Take the answer of a known peer to "who is my successor": the node
    /// points to it and forgets its predecessor. Other nodes learn of it
    /// through stabilization.
    pub fn join(&mut self, successor: Did)
        ensures
            final(self).did == old(self).did,
            final(self).successor == Some(successor),
            final(self).predecessor is None,
            final(self).finger@ == old(self).finger@,
    {
        self.successor = Some(successor);
        self.predecessor = None;
    }

    /// One round of stabilization, given the predecessor that the current
    /// successor reports: adopt it as successor when it lies between this
    /// node and the successor. Returns the successor to notify.
    pub fn stabilize(&mut self, succ_pred: Option<Did>) -> (r: Option<Did>)
        ensures
            final(self).successor == stabilized_successor(*old(self), succ_pred),
            final(self).did == old(self).did,
            final(self).predecessor == old(self).predecessor,
            final(self).finger@ == old(self).finger@,
            r == final(self).successor,
    {
        if let (Some(s), Some(x)) = (self.successor, succ_pred) {
            if between_open(self.did, x, s) {
                self.successor = Some(x);
            }
        }
        self.successor
    }

    /// A node that believes it precedes this one says so. It becomes the
    /// predecessor when it lies between the current predecessor and this
    /// node; a node without a successor also takes it as successor.
    pub fn notify(&mut self, candidate: Did)
        ensures
            final(self).predecessor == notified_predecessor(*old(self), candidate),
            final(self).successor == notified_successor(*old(self), candidate),
            final(self).did == old(self).did,
            final(self).finger@ == old(self).finger@,
    {
        if candidate != self.did {
            match self.predecessor {
                None => {
                    self.predecessor = Some(candidate);
                },
                Some(p) => {
                    if between_open(p, candidate, self.did) {
                        self.predecessor = Some(candidate);
                    }
                },
            }
            if self.successor.is_none() {
                self.successor = Some(candidate);
            }
        }
    }

    /// Record the answer to a lookup of `finger_start(i)`.
    pub fn fix_finger(&mut self, i: usize, found: Did)
        requires
            i < old(self).finger@.len(),
        ensures
            final(self).finger@ == old(self).finger@.update(i as int, Some(found)),
            final(self).did == old(self).did,
            final(self).successor == old(self).successor,
            final(self).predecessor == old(self).predecessor,
    {
        self.finger.set(i, Some(found));
    }

    /// Forget a peer that cannot be reached: it leaves the fingers and the
    /// predecessor, and when it was the successor the first finger that
    /// names another node takes its place.
    pub fn remove_peer(&mut self, peer: Did)
        ensures
            final(self).did == old(self).did,
            final(self).finger@.len() == old(self).finger@.len(),
            forall|i: int|
                0 <= i < old(self).finger@.len() ==> final(self).finger@[i] == if old(
                    self,
                ).finger@[i] == Some(peer) {
                    None
                } else {
                    old(self).finger@[i]
                },
            final(self).predecessor == if old(self).predecessor == Some(peer) {
                None
            } else {
                old(self).predecessor
            },
            old(self).successor != Some(peer) ==> final(self).successor == old(self).successor,
            old(self).successor == Some(peer) ==> match final(self).successor {
                None => forall|i: int|
                    0 <= i < final(self).finger@.len() ==> final(self).finger@[i] is None,
                Some(s) => exists|i: int|
                    0 <= i < final(self).finger@.len() && final(self).finger@[i] == Some(s) && (
                    forall|j: int| 0 <= j < i ==> final(self).finger@[j] is None),
            },
    {
        let ghost old_finger = self.finger@;
        let mut i: usize = 0;
        while i < self.finger.len()
            invariant
                i <= self.finger@.len() == old_finger.len(),
                forall|j: int|
                    0 <= j < i ==> self.finger@[j] == if old_finger[j] == Some(peer) {
                        None
                    } else {
                        old_finger[j]
                    },
                forall|j: int| i <= j < old_finger.len() ==> self.finger@[j] == old_finger[j],
                self.did == old(self).did,
                self.successor == old(self).successor,
                self.predecessor == old(self).predecessor,
            decreases old_finger.len() - i,
        {
            if self.finger[i] == Some(peer) {
                self.finger.set(i, None);
            }
            i = i + 1;
        }
        if self.predecessor == Some(peer) {
            self.predecessor = None;
        }
        if self.successor == Some(peer) {
            let mut next: Option<Did> = None;
            let mut k: usize = 0;
            while k < self.finger.len()
                invariant
                    k <= self.finger@.len(),
                    self.did == old(self).did,
                    self.predecessor == if old(self).predecessor == Some(peer) {
                        None
                    } else {
                        old(self).predecessor
                    },
                    forall|j: int|
                        0 <= j < old(self).finger@.len() ==> self.finger@[j] == if old(
                            self,
                        ).finger@[j] == Some(peer) {
                            None
                        } else {
                            old(self).finger@[j]
                        },
                    self.finger@.len() == old(self).finger@.len(),
                    next is None ==> forall|j: int| 0 <= j < k ==> self.finger@[j] is None,
                    next matches Some(s) ==> exists|j: int|
                        0 <= j < k && self.finger@[j] == Some(s) && (forall|l: int|
                            0 <= l < j ==> self.finger@[l] is None),
                decreases self.finger@.len() - k,
            {
                if next.is_none() {
                    next = self.finger[k];
                }
                k = k + 1;
            }
            self.successor = next;
        }
    }
}

/// The successor that `stabilize` leaves when the successor's predecessor
/// is `succ_pred`.
pub open spec fn stabilized_successor(r: PeerRing, succ_pred: Option<Did>) -> Option<Did> {
    match (r.successor, succ_pred) {
        (Some(s), Some(x)) => if in_open(r.did, x, s) {
            Some(x)
        } else {
            Some(s)
        },
        _ => r.successor,
    }
}

/// The predecessor that `notify` leaves after hearing from `candidate`.
pub open spec fn notified_predecessor(r: PeerRing, candidate: Did) -> Option<Did> {
    if candidate == r.did {
        r.predecessor
    } else {
        match r.predecessor {
            None => Some(candidate),
            Some(p) => if in_open(p, candidate, r.did) {
                Some(candidate)
            } else {
                Some(p)
            },
        }
    }
}

/// The successor that `notify` leaves after hearing from `candidate`.
pub open spec fn notified_successor(r: PeerRing, candidate: Did) -> Option<Did> {
    if candidate != r.did && r.successor is None {
        Some(candidate)
    } else {
        r.successor
    }
}

/// The closest node before `target` that `r` knows of through its successor
/// and its first `upto` fingers: the one farthest from `r` clockwise among
/// those strictly between `r` and `target`, the successor when no finger is
/// farther.
pub open spec fn best_preceding(r: PeerRing, target: Did, upto: nat) -> Did
    decreases upto,
{
    if upto == 0 {
        r.successor->0
    } else {
        let b = best_preceding(r, target, (upto - 1) as nat);
        match r.finger@[upto - 1] {
            Some(x) => if in_open(r.did, x, target) && cw(r.did, x) > cw(r.did, b) {
                x
            } else {
                b
            },
            None => b,
        }
    }
}

/// What node `r` answers to a lookup of `target`.
pub open spec fn lookup_step(r: PeerRing, target: Did) -> Lookup {
    if target == r.did || r.successor is None {
        Lookup::Found(r.did)
    } else if in_half_open(r.did, target, r.successor->0) {
        Lookup::Found(r.successor->0)
    } else {
        Lookup::Forward(best_preceding(r, target, r.finger@.len()))
    }
}

/// The identifiers of a set of nodes.
pub open spec fn ids_of(nodes: Seq<PeerRing>) -> Set<Did> {
    Set::new(|d: Did| exists|i: int| 0 <= i < nodes.len() && nodes[i].did == d)
}

/// Every node's successor is its ring successor, and every finger names a
/// node of the ring.
pub open spec fn successors_settled(nodes: Seq<PeerRing>) -> bool {
    forall|i: int|
        0 <= i < nodes.len() ==> {
            &&& #[trigger] nodes[i].successor matches Some(s) && is_successor(ids_of(nodes), nodes[i].did, s)
            &&& forall|j: int|
                0 <= j < nodes[i].finger@.len() && nodes[i].finger@[j] is Some ==> ids_of(
                    nodes,
                ).contains(nodes[i].finger@[j]->0)
        }
}

/// A node that has a successor in `(n, t]` which is its ring successor hands
/// out the owner of `t`.
pub proof fn lemma_successor_owns_interval(ids: Set<Did>, n: Did, s: Did, t: Did)
    requires
        ids.contains(n),
        is_successor(ids, n, s),
        in_half_open(n, t, s),
    ensures
        is_owner(ids, t, s),
{
    assert forall|x: Did| ids.contains(x) implies cw(t, s) <= cw(t, x) by {
        assert(cw(next_point(n), s) <= cw(next_point(n), x));
        assert(cw(next_point(n), s) <= cw(next_point(n), n));
    }
}

/// Ring pointers that are already right are left as they are by
/// stabilization and by notification from any node of the ring.
pub proof fn lemma_settled_pointers_are_fixed(ids: Set<Did>, r: PeerRing, x: Did)
    requires
        ids.contains(r.did),
        ids.contains(x),
        r.successor matches Some(s) && is_successor(ids, r.did, s),
        r.predecessor matches Some(p) && is_predecessor(ids, r.did, p),
    ensures
        stabilized_successor(r, Some(x)) == r.successor,
        notified_predecessor(r, x) == r.predecessor,
        notified_successor(r, x) == r.successor,
{
    let s = r.successor->0;
    let p = r.predecessor->0;
    let n = r.did;
    assert(cw(next_point(n), s) <= cw(next_point(n), x));
    assert(cw(next_point(n), s) <= cw(next_point(n), n));
    assert(cw(p, prev_point(n)) <= cw(x, prev_point(n)));
    assert(cw(p, prev_point(n)) <= cw(n, prev_point(n)));
}

/// A round of stabilization on pointers to nodes of the ring moves the
/// successor toward the ring successor `t` and never past it: the new
/// successor is a node of the ring, no farther than the old one and no
/// nearer than `t`.
pub proof fn lemma_stabilize_approaches_successor(ids: Set<Did>, r: PeerRing, x: Did, t: Did)
    requires
        ids.contains(r.did),
        r.successor matches Some(s) && ids.contains(s),
        ids.contains(x),
        is_successor(ids, r.did, t),
    ensures
        stabilized_successor(r, Some(x)) matches Some(s2) && {
            &&& ids.contains(s2)
            &&& cw(next_point(r.did), t) <= cw(next_point(r.did), s2)
            &&& cw(next_point(r.did), s2) <= cw(next_point(r.did), r.successor->0)
        },
{
}

/// The index after `i` among `len`, wrapping around.
pub open spec fn next_index(i: int, len: int) -> int {
    if i + 1 == len {
        0
    } else {
        i + 1
    }
}

/// The index before `i` among `len`, wrapping around.
pub open spec fn prev_index(i: int, len: int) -> int {
    if i == 0 {
        len - 1
    } else {
        i - 1
    }
}

/// In identifiers sorted increasingly, the ring successor of each is the
/// next one and its ring predecessor the one before, wrapping around.
pub proof fn lemma_sorted_neighbours(ids: Seq<Did>, i: int)
    requires
        forall|a: int, b: int| 0 <= a < b < ids.len() ==> ids[a] < ids[b],
        0 <= i < ids.len(),
    ensures
        is_successor(ids.to_set(), ids[i], ids[next_index(i, ids.len() as int)]),
        is_predecessor(ids.to_set(), ids[i], ids[prev_index(i, ids.len() as int)]),
{
    let len = ids.len() as int;
    let si = next_index(i, len);
    let pi = prev_index(i, len);
    assert(ids.to_set().contains(ids[si]));
    assert(ids.to_set().contains(ids[pi]));
    assert forall|x: Did| ids.to_set().contains(x) implies cw(next_point(ids[i]), ids[si]) <= cw(
        next_point(ids[i]),
        x,
    ) && cw(ids[pi], prev_point(ids[i])) <= cw(x, prev_point(ids[i])) by {
        let k = choose|k: int| 0 <= k < len && ids[k] == x;
        if k < i {
            assert(ids[k] < ids[i]);
        } else if k > i {
            assert(ids[k] > ids[i]);
        }
        if i + 1 < len {
            assert(ids[i] < ids[i + 1]);
            if k > i + 1 {
                assert(ids[i + 1] < ids[k]);
            }
        } else {
            if k > 0 {
                assert(ids[0] < ids[k]);
            }
        }
        if i > 0 {
            assert(ids[i - 1] < ids[i]);
            if k < i - 1 {
                assert(ids[k] < ids[i - 1]);
            }
        } else {
            if k < len - 1 {
                assert(ids[k] < ids[len - 1]);
            }
        }
    }
}

/// `d + 2^i` on the ring.
pub open spec fn finger_point(d: Did, i: nat) -> Did {
    ((d + pow2(i)) % ring_size()) as u64
}

} // verus!
