//! The per-node state and the three operations of one push-pull round: a
//! node elects to initiate an exchange, picks a peer to contact, the
//! contacted peer answers, and both sides rewire their views.

use vstd::prelude::*;

use crate::policy::ParticipationPolicy;
use crate::rng::random_below;

verus! {

/// A node identifier: an opaque unsigned 64-bit value, unique per node in a
/// deployment.
pub type NodeId = u64;

/// The target degree: the desired steady-state size of a node's view,
/// shared by all nodes. It governs the participation probability.
pub const DEGREE: usize = 4;

/// A push-pull request, emitted by the initiating node `from` toward its
/// chosen target `to`.
#[derive(Debug, Clone, PartialEq, Eq)]
pub struct PushPullRequest {
    pub from: NodeId,
    pub to: NodeId,
}

/// The reply to a push-pull request. `selected == None` means the responder
/// declined to participate and left its own view untouched.
#[derive(Debug, Clone, PartialEq, Eq)]
pub struct PushPullResponse {
    pub from: NodeId,
    pub to: NodeId,
    pub selected: Option<NodeId>,
}

/// A node: its immutable identifier and its view, the set of peers it
/// currently knows. The backing vector holds each peer at most once.
#[derive(Debug, Clone, PartialEq, Eq)]
pub struct Node {
    id: NodeId,
    conns: Vec<NodeId>,
}

impl View for Node {
    type V = Set<NodeId>;

    /// The view as a mathematical set of peer identifiers.
    closed spec fn view(&self) -> Set<NodeId> {
        self.conns@.to_set()
    }
}

/// What a response does to the requester's view: nothing when the responder
/// declined; otherwise the responder is removed and the selected peer
/// inserted, in that order.
pub open spec fn apply_response(peers: Set<NodeId>, response: PushPullResponse) -> Set<NodeId> {
    match response.selected {
        None => peers,
        Some(v3) => peers.remove(response.from).insert(v3),
    }
}

/// Appending one element to a duplicate-free sequence that lacks it keeps it
/// duplicate-free, and inserts the element into the set it represents.
proof fn lemma_push_to_set(s: Seq<NodeId>, x: NodeId)
    ensures
        s.push(x).to_set() == s.to_set().insert(x),
        s.no_duplicates() && !s.contains(x) ==> s.push(x).no_duplicates(),
{
    assert forall|a: NodeId|
        s.push(x).to_set().contains(a) <==> s.to_set().insert(x).contains(a) by {
        if s.push(x).contains(a) {
            let i = choose|i: int| 0 <= i < s.push(x).len() && s.push(x)[i] == a;
            if i < s.len() {
                assert(s[i] == a);
            } else {
                assert(a == x);
            }
        }
        if s.contains(a) {
            let i = choose|i: int| 0 <= i < s.len() && s[i] == a;
            assert(s.push(x)[i] == a);
        }
        if a == x {
            assert(s.push(x)[s.len() as int] == a);
        }
    }
    assert(s.push(x).to_set() =~= s.to_set().insert(x));
    if s.no_duplicates() && !s.contains(x) {
        assert forall|i: int, j: int|
            0 <= i < s.push(x).len() && 0 <= j < s.push(x).len() && i != j implies s.push(x)[i]
            != s.push(x)[j] by {
            if i < s.len() && j < s.len() {
                assert(s.push(x)[i] == s[i] && s.push(x)[j] == s[j]);
            } else if i < s.len() {
                assert(s.push(x)[j] == x && s.push(x)[i] == s[i]);
                assert(s[i] != x);
            } else {
                assert(s.push(x)[i] == x && s.push(x)[j] == s[j]);
                assert(s[j] != x);
            }
        }
    }
}

/// Removing the element at one index of a duplicate-free sequence keeps it
/// duplicate-free, and removes exactly that element from the set it
/// represents.
proof fn lemma_remove_to_set(s: Seq<NodeId>, i: int)
    requires
        s.no_duplicates(),
        0 <= i < s.len(),
    ensures
        s.remove(i).no_duplicates(),
        s.remove(i).to_set() == s.to_set().remove(s[i]),
{
    s.remove_ensures(i);
    let r = s.remove(i);
    assert forall|p: int, q: int|
        0 <= p < r.len() && 0 <= q < r.len() && p != q implies r[p] != r[q] by {
        let p0: int = if p < i {
            p
        } else {
            p + 1
        };
        let q0: int = if q < i {
            q
        } else {
            q + 1
        };
        assert(r[p] == s[p0] && r[q] == s[q0] && p0 != q0);
    }
    assert forall|a: NodeId|
        r.to_set().contains(a) <==> s.to_set().remove(s[i]).contains(a) by {
        if r.contains(a) {
            let j = choose|j: int| 0 <= j < r.len() && r[j] == a;
            if j < i {
                assert(s[j] == a && j != i);
            } else {
                assert(s[j + 1] == a && j + 1 != i);
            }
        }
        if s.contains(a) && a != s[i] {
            let j = choose|j: int| 0 <= j < s.len() && s[j] == a;
            if j < i {
                assert(r[j] == a);
            } else {
                assert(j != i);
                assert(r[j - 1] == s[j]);
            }
        }
    }
    assert(r.to_set() =~= s.to_set().remove(s[i]));
}

impl Node {
    /// The node's identifier.
    pub closed spec fn spec_id(&self) -> NodeId {
        self.id
    }

    /// Well-formed: the backing vector represents a set, holding each peer
    /// at most once.
    pub closed spec fn wf(self) -> bool {
        self.conns@.no_duplicates()
    }

    /// The identifiers this node may pick as an exchange target: any peer of
    /// its view, or the node itself when the view is empty.
    pub open spec fn valid_target(self, t: NodeId) -> bool {
        if self@.len() == 0 {
            t == self.spec_id()
        } else {
            self@.contains(t)
        }
    }

    /// The node's identifier.
    #[verifier::when_used_as_spec(spec_id)]
    pub fn id(&self) -> (r: NodeId)
        ensures
            r == self.spec_id(),
    {
        self.id
    }

    /// Creates a node with the given identifier and an empty view.
    pub fn new(id: NodeId) -> (n: Node)
        ensures
            n.wf(),
            n.spec_id() == id,
            n@ == Set::<NodeId>::empty(),
    {
        let n = Node { id, conns: Vec::new() };
        proof {
            assert(n.conns@.to_set() =~= Set::<NodeId>::empty());
        }
        n
    }

    /// The number of peers in the view.
    pub fn view_len(&self) -> (n: usize)
        requires
            self.wf(),
        ensures
            n == self@.len(),
    {
        proof {
            self.conns@.unique_seq_to_set();
        }
        self.conns.len()
    }

    /// The index of `peer` in the backing vector, if present.
    fn find_peer(&self, peer: NodeId) -> (r: Option<usize>)
        ensures
            r matches Some(i) ==> i < self.conns@.len() && self.conns@[i as int] == peer
                && self@.contains(peer),
            r is None ==> !self@.contains(peer),
    {
        let mut i: usize = 0;
        while i < self.conns.len()
            invariant
                i <= self.conns@.len(),
                forall|j: int| 0 <= j < i ==> self.conns@[j] != peer,
            decreases self.conns@.len() - i,
        {
            if self.conns[i] == peer {
                proof {
                    assert(self.conns@.contains(peer));
                }
                return Some(i);
            }
            i = i + 1;
        }
        proof {
            assert(!self.conns@.contains(peer));
        }
        None
    }

    /// Whether `peer` is in the view.
    pub fn contains_peer(&self, peer: NodeId) -> (present: bool)
        ensures
            present == self@.contains(peer),
    {
        self.find_peer(peer).is_some()
    }

    /// Adds `peer` to the view. Returns `true` exactly when the peer was not
    /// already present, so the view changed; a second call with the same
    /// peer returns `false` and changes nothing. An id equal to the node's
    /// own id is accepted like any other.
    pub fn add_conn(&mut self, other: NodeId) -> (added: bool)
        requires
            old(self).wf(),
        ensures
            final(self).wf(),
            final(self).spec_id() == old(self).spec_id(),
            final(self)@ == old(self)@.insert(other),
            added == !old(self)@.contains(other),
    {
        if self.contains_peer(other) {
            proof {
                assert(self@.insert(other) =~= self@);
            }
            false
        } else {
            proof {
                lemma_push_to_set(self.conns@, other);
            }
            self.conns.push(other);
            true
        }
    }

    /// Removes `peer` from the view; without it, leaves the view unchanged.
    fn remove_peer(&mut self, peer: NodeId)
        requires
            old(self).wf(),
        ensures
            final(self).wf(),
            final(self).spec_id() == old(self).spec_id(),
            final(self)@ == old(self)@.remove(peer),
    {
        match self.find_peer(peer) {
            Some(i) => {
                proof {
                    lemma_remove_to_set(self.conns@, i as int);
                }
                self.conns.remove(i);
            },
            None => {
                proof {
                    assert(self@.remove(peer) =~= self@);
                }
            },
        }
    }

    /// Picks an exchange target: a uniformly random peer of the view, or the
    /// node's own id when the view is empty (the documented fallback, not an
    /// error).
    fn select_peer(&self) -> (t: NodeId)
        requires
            self.wf(),
        ensures
            self.valid_target(t),
    {
        proof {
            self.conns@.unique_seq_to_set();
        }
        if self.conns.len() == 0 {
            self.id
        } else {
            let i = random_below(self.conns.len());
            let t = self.conns[i];
            proof {
                assert(self.conns@.contains(t));
            }
            t
        }
    }

    /// One protocol step of the initiator: consults the participation gate;
    /// when active, picks a target uniformly from the view (the node itself
    /// when the view is empty) and emits the request to send. An inactive
    /// node emits nothing. Either way the view stays as it was. The request
    /// exists precisely in the rounds the policy takes part in, so a policy
    /// that allows a single decision pins the result.
    pub fn start_push_pull<P: ParticipationPolicy>(&mut self, policy: &P) -> (r: Option<
        PushPullRequest,
    >)
        requires
            old(self).wf(),
        ensures
            final(self).wf(),
            final(self).spec_id() == old(self).spec_id(),
            final(self)@ == old(self)@,
            r is Some ==> policy.admits(old(self)@.len(), DEGREE as nat, true),
            r is None ==> policy.admits(old(self)@.len(), DEGREE as nat, false),
            r matches Some(req) ==> req.from == old(self).spec_id() && old(self).valid_target(
                req.to,
            ),
    {
        proof {
            self.conns@.unique_seq_to_set();
        }
        if policy.participate(self.conns.len(), DEGREE) {
            let to = self.select_peer();
            Some(PushPullRequest { from: self.id, to })
        } else {
            None
        }
    }

    /// One protocol step of the responder: consults the participation gate.
    /// When active, picks `v3` uniformly from the view as it stands (the
    /// node itself when the view is empty), removes `v3`, inserts the
    /// requester, and reports `Some(v3)`; selection and removal both happen
    /// before the insertion, so the requester cannot be re-selected in the
    /// same call. When inactive, leaves the view alone and reports `None`.
    /// A request is processed only by the node it addresses. A peer is
    /// selected precisely in the rounds the policy takes part in, so a
    /// policy that allows a single decision pins the result.
    pub fn handle_push_pull_request<P: ParticipationPolicy>(
        &mut self,
        request: PushPullRequest,
        policy: &P,
    ) -> (resp: PushPullResponse)
        requires
            old(self).wf(),
            request.to == old(self).spec_id(),
        ensures
            final(self).wf(),
            final(self).spec_id() == old(self).spec_id(),
            resp.from == old(self).spec_id(),
            resp.to == request.from,
            resp.selected is Some ==> policy.admits(old(self)@.len(), DEGREE as nat, true),
            resp.selected is None ==> policy.admits(old(self)@.len(), DEGREE as nat, false),
            resp.selected is None ==> final(self)@ == old(self)@,
            resp.selected matches Some(v3) ==> old(self).valid_target(v3) && final(self)@ == old(
                self,
            )@.remove(v3).insert(request.from),
    {
        proof {
            self.conns@.unique_seq_to_set();
        }
        let selected: Option<NodeId> = if policy.participate(self.conns.len(), DEGREE) {
            let v3: NodeId = if self.conns.len() == 0 {
                proof {
                    assert(self@.remove(self.spec_id()) =~= self@);
                }
                self.id
            } else {
                let i = random_below(self.conns.len());
                proof {
                    lemma_remove_to_set(self.conns@, i as int);
                    assert(self.conns@.contains(self.conns@[i as int]));
                }
                self.conns.remove(i)
            };
            let _changed = self.add_conn(request.from);
            Some(v3)
        } else {
            None
        };
        PushPullResponse { from: self.id, to: request.from, selected }
    }

    /// One protocol step back at the initiator: when the responder selected
    /// a peer, the responder is removed from the view and the selected peer
    /// inserted; when the responder declined, the view stays exactly as it
    /// was. The selected peer may equal the responder or this node's own id;
    /// plain set semantics apply either way.
    pub fn handle_push_pull_response(&mut self, response: PushPullResponse)
        requires
            old(self).wf(),
        ensures
            final(self).wf(),
            final(self).spec_id() == old(self).spec_id(),
            final(self)@ == apply_response(old(self)@, response),
    {
        if let Some(selected) = response.selected {
            self.remove_peer(response.from);
            let _changed = self.add_conn(selected);
        }
    }
}

/// A node's view is always a finite set: it is backed by a vector of
/// peers. This lets a caller carry cardinality bounds across operations.
pub proof fn lemma_view_finite(n: Node)
    ensures
        n@.finite(),
{
    broadcast use vstd::seq_lib::seq_to_set_is_finite;

}

/// Law: adding a peer is idempotent. Inserting `p` twice yields the same
/// view as inserting it once, and after the first insertion the view
/// contains `p`, so a second `add_conn(p)` reports that nothing changed.
pub proof fn lemma_add_conn_idempotent(peers: Set<NodeId>, p: NodeId)
    ensures
        peers.insert(p).insert(p) == peers.insert(p),
        peers.insert(p).contains(p),
{
    assert(peers.insert(p).insert(p) =~= peers.insert(p));
}

/// Law: a declined exchange is a no-op for the requester. A response whose
/// `selected` is absent leaves the view exactly as it was, so the original
/// target is still in it.
pub proof fn lemma_decline_is_noop(peers: Set<NodeId>, response: PushPullResponse, target: NodeId)
    requires
        response.selected is None,
        peers.contains(target),
    ensures
        apply_response(peers, response) == peers,
        apply_response(peers, response).contains(target),
{
}

} // verus!
