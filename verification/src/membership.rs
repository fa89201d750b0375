//! The membership view: the peers that this node believes reachable.
//!
//! A peer enters the view when a connection to it is established or when it
//! is observed through gossip or discovery. It leaves at once when it is
//! judged unreachable; nothing is kept of a peer that has left.

use vstd::prelude::*;
use vstd::slice::slice_to_vec;

verus! {

/// Whether two byte strings hold the same bytes.
pub fn bytes_equal(a: &[u8], b: &[u8]) -> (same: bool)
    ensures
        same == (a@ == b@),
{
    if a.len() != b.len() {
        return false;
    }
    let mut i: usize = 0;
    while i < a.len()
        invariant
            a.len() == b.len(),
            i <= a.len(),
            forall|k: int| 0 <= k < i ==> a@[k] == b@[k],
        decreases a.len() - i,
    {
        if a[i] != b[i] {
            return false;
        }
        i = i + 1;
    }
    assert(a@ =~= b@);
    true
}

/// The identity of a peer: the bytes of its identifier, compared as bytes.
#[derive(Debug, Clone, PartialEq, Eq)]
pub struct PeerId {
    bytes: Vec<u8>,
}

impl View for PeerId {
    type V = Seq<u8>;

    closed spec fn view(&self) -> Seq<u8> {
        self.bytes@
    }
}

impl PeerId {
    /// The peer with the given identifier bytes.
    pub fn from_bytes(bytes: Vec<u8>) -> (peer: PeerId)
        ensures
            peer@ == bytes@,
    {
        PeerId { bytes }
    }

    /// The identifier bytes.
    pub fn as_bytes(&self) -> (bytes: &[u8])
        ensures
            bytes@ == self@,
    {
        self.bytes.as_slice()
    }

    /// A second handle on the same peer.
    pub fn duplicate(&self) -> (peer: PeerId)
        ensures
            peer@ == self@,
    {
        PeerId { bytes: slice_to_vec(self.bytes.as_slice()) }
    }

    /// Whether both are the same peer.
    pub fn same_as(&self, other: &PeerId) -> (same: bool)
        ensures
            same == (self@ == other@),
    {
        bytes_equal(self.bytes.as_slice(), other.bytes.as_slice())
    }
}

/// Whether `peer` is among `peers`.
pub open spec fn listed(peers: Seq<PeerId>, peer: Seq<u8>) -> bool {
    exists|i: int| 0 <= i < peers.len() && #[trigger] peers[i]@ == peer
}

/// The identifiers of a list of peers, in order.
pub open spec fn identifiers(peers: Seq<PeerId>) -> Seq<Seq<u8>> {
    Seq::new(peers.len(), |i: int| peers[i]@)
}

/// The identifiers of a list but `peer`, in order.
pub open spec fn without(entries: Seq<Seq<u8>>, peer: Seq<u8>) -> Seq<Seq<u8>>
    decreases entries.len(),
{
    if entries.len() == 0 {
        entries
    } else if entries[0] == peer {
        without(entries.skip(1), peer)
    } else {
        seq![entries[0]] + without(entries.skip(1), peer)
    }
}

/// A list that does not hold `peer` is itself without `peer`.
pub proof fn lemma_without_absent(entries: Seq<Seq<u8>>, peer: Seq<u8>)
    requires
        !entries.contains(peer),
    ensures
        without(entries, peer) == entries,
    decreases entries.len(),
{
    if entries.len() > 0 {
        let tail = entries.skip(1);
        assert(entries[0] != peer);
        assert forall|i: int| 0 <= i < tail.len() implies tail[i] != peer by {
            assert(tail[i] == entries[i + 1]);
        }
        lemma_without_absent(tail, peer);
        assert(seq![entries[0]] + tail =~= entries);
    }
}

/// Taking out the first entry of `peer` leaves the list without `peer` as it
/// was.
proof fn lemma_without_after_remove(entries: Seq<Seq<u8>>, peer: Seq<u8>, at: int)
    requires
        0 <= at < entries.len(),
        entries[at] == peer,
        forall|k: int| 0 <= k < at ==> entries[k] != peer,
    ensures
        without(entries.remove(at), peer) == without(entries, peer),
    decreases at,
{
    let rest = entries.remove(at);
    if at == 0 {
        assert(rest =~= entries.skip(1));
    } else {
        let tail = entries.skip(1);
        assert(rest.skip(1) =~= tail.remove(at - 1));
        assert(rest[0] == entries[0]);
        assert forall|k: int| 0 <= k < at - 1 implies tail[k] != peer by {
            assert(tail[k] == entries[k + 1]);
        }
        lemma_without_after_remove(tail, peer, at - 1);
    }
}

/// Taking the entry at `at` out of a list keeps every other peer listed.
proof fn lemma_listed_after_remove(peers: Seq<PeerId>, at: int)
    requires
        0 <= at < peers.len(),
    ensures
        forall|q: Seq<u8>|
            q != peers[at]@ ==> (listed(peers.remove(at), q) <==> listed(peers, q)),
{
    let rest = peers.remove(at);
    assert forall|q: Seq<u8>| q != peers[at]@ implies (listed(rest, q) <==> listed(peers, q)) by {
        if listed(rest, q) {
            let j = choose|j: int| 0 <= j < rest.len() && #[trigger] rest[j]@ == q;
            let k = if j < at {
                j
            } else {
                j + 1
            };
            assert(peers[k]@ == q);
        }
        if listed(peers, q) {
            let k = choose|k: int| 0 <= k < peers.len() && #[trigger] peers[k]@ == q;
            let j = if k < at {
                k
            } else {
                k - 1
            };
            assert(rest[j]@ == q);
        }
    }
}

/// Adding a peer at the end lists it and keeps all others.
proof fn lemma_listed_after_push(peers: Seq<PeerId>, peer: PeerId)
    ensures
        forall|q: Seq<u8>| listed(peers.push(peer), q) <==> (q == peer@ || listed(peers, q)),
{
    let more = peers.push(peer);
    assert forall|q: Seq<u8>| listed(more, q) <==> (q == peer@ || listed(peers, q)) by {
        if listed(more, q) {
            let j = choose|j: int| 0 <= j < more.len() && #[trigger] more[j]@ == q;
            if j < peers.len() {
                assert(peers[j]@ == q);
            }
        }
        if q == peer@ {
            assert(more[peers.len() as int]@ == q);
        }
        if listed(peers, q) {
            let k = choose|k: int| 0 <= k < peers.len() && #[trigger] peers[k]@ == q;
            assert(more[k]@ == q);
        }
    }
}

/// The peers believed reachable. Its view is the set of their identifiers.
pub struct MembershipView {
    peers: Vec<PeerId>,
}

impl View for MembershipView {
    type V = Set<Seq<u8>>;

    closed spec fn view(&self) -> Set<Seq<u8>> {
        Set::new(|p: Seq<u8>| listed(self.peers@, p))
    }
}

impl MembershipView {
    /// The identifiers of the peers in the view, in the order in which they
    /// entered.
    pub closed spec fn entries(&self) -> Seq<Seq<u8>> {
        identifiers(self.peers@)
    }

    /// The view that holds no peer.
    pub fn new() -> (view: MembershipView)
        ensures
            view@ == Set::<Seq<u8>>::empty(),
            view.entries() == Seq::<Seq<u8>>::empty(),
    {
        let view = MembershipView { peers: Vec::new() };
        view
    }

    /// Where `peer` stands in the list, if it is listed.
    fn position(&self, peer: &PeerId) -> (at: Option<usize>)
        ensures
            match at {
                Some(i) => i < self.peers@.len() && self.peers@[i as int]@ == peer@
                    && forall|k: int| 0 <= k < i ==> self.peers@[k]@ != peer@,
                None => !listed(self.peers@, peer@),
            },
    {
        let mut i: usize = 0;
        while i < self.peers.len()
            invariant
                i <= self.peers@.len(),
                forall|k: int| 0 <= k < i ==> self.peers@[k]@ != peer@,
            decreases self.peers@.len() - i,
        {
            if self.peers[i].same_as(peer) {
                return Some(i);
            }
            i = i + 1;
        }
        None
    }

    /// Whether `peer` is in the view.
    pub fn contains(&self, peer: &PeerId) -> (found: bool)
        ensures
            found == self@.contains(peer@),
    {
        self.position(peer).is_some()
    }

    /// Whether the view holds no peer.
    pub fn is_empty(&self) -> (empty: bool)
        ensures
            empty == (self@ == Set::<Seq<u8>>::empty()),
    {
        let n = self.peers.len();
        proof {
            if n == 0 {
                assert(self@ =~= Set::<Seq<u8>>::empty());
            } else {
                assert(self@.contains(self.peers@[0]@));
            }
        }
        n == 0
    }

    /// Puts `peer` into the view. Returns whether it was new. A new peer
    /// enters after all that are there.
    pub fn observe(&mut self, peer: PeerId) -> (added: bool)
        ensures
            final(self)@ == old(self)@.insert(peer@),
            added == !old(self)@.contains(peer@),
            final(self).entries() == if added {
                old(self).entries().push(peer@)
            } else {
                old(self).entries()
            },
    {
        match self.position(&peer) {
            Some(_) => false,
            None => {
                proof {
                    lemma_listed_after_push(self.peers@, peer);
                    assert(identifiers(self.peers@.push(peer)) =~= identifiers(self.peers@).push(
                        peer@,
                    ));
                }
                self.peers.push(peer);
                true
            },
        }
    }

    /// Takes `peer` out of the view. Returns whether it was there. Where it
    /// was not, nothing changes. The other peers keep their order.
    pub fn remove(&mut self, peer: &PeerId) -> (removed: bool)
        ensures
            final(self)@ == old(self)@.remove(peer@),
            removed == old(self)@.contains(peer@),
            !removed ==> final(self)@ == old(self)@,
            final(self).entries() == without(old(self).entries(), peer@),
    {
        let mut removed = false;
        loop
            invariant
                forall|q: Seq<u8>| q != peer@ ==> (listed(self.peers@, q) <==> listed(old(self).peers@, q)),
                removed ==> listed(old(self).peers@, peer@),
                !removed ==> self.peers@ == old(self).peers@,
                without(identifiers(self.peers@), peer@) == without(
                    identifiers(old(self).peers@),
                    peer@,
                ),
            decreases self.peers@.len(),
        {
            match self.position(peer) {
                Some(at) => {
                    proof {
                        lemma_listed_after_remove(self.peers@, at as int);
                        lemma_without_after_remove(identifiers(self.peers@), peer@, at as int);
                        assert(identifiers(self.peers@.remove(at as int)) =~= identifiers(
                            self.peers@,
                        ).remove(at as int));
                    }
                    self.peers.remove(at);
                    removed = true;
                },
                None => {
                    proof {
                        let entries = identifiers(self.peers@);
                        assert forall|i: int| 0 <= i < entries.len() implies entries[i]
                            != peer@ by {
                            assert(self.peers@[i]@ == entries[i]);
                        }
                        lemma_without_absent(entries, peer@);
                    }
                    return removed;
                },
            }
        }
    }

    /// The peers in the view, in the order in which they entered.
    pub fn peers(&self) -> (list: Vec<PeerId>)
        ensures
            identifiers(list@) == self.entries(),
            forall|p: Seq<u8>| self@.contains(p) <==> listed(list@, p),
    {
        let mut list: Vec<PeerId> = Vec::new();
        let mut i: usize = 0;
        while i < self.peers.len()
            invariant
                i <= self.peers@.len(),
                list@.len() == i,
                forall|k: int| 0 <= k < i ==> list@[k]@ == self.peers@[k]@,
            decreases self.peers@.len() - i,
        {
            list.push(self.peers[i].duplicate());
            i = i + 1;
        }
        proof {
            assert forall|p: Seq<u8>| self@.contains(p) <==> listed(list@, p) by {
                if self@.contains(p) {
                    let k = choose|k: int| 0 <= k < self.peers@.len() && #[trigger] self.peers@[k]@
                        == p;
                    assert(list@[k]@ == p);
                }
                if listed(list@, p) {
                    let k = choose|k: int| 0 <= k < list@.len() && #[trigger] list@[k]@ == p;
                    assert(self.peers@[k]@ == p);
                }
            }
        }
        list
    }
}

/// The view is the set of its entries.
pub proof fn lemma_view_holds_its_entries(view: MembershipView)
    ensures
        forall|p: Seq<u8>| view@.contains(p) <==> view.entries().contains(p),
{
    let entries = view.entries();
    assert forall|p: Seq<u8>| view@.contains(p) <==> entries.contains(p) by {
        if view@.contains(p) {
            let i = choose|i: int| 0 <= i < view.peers@.len() && #[trigger] view.peers@[i]@ == p;
            assert(entries[i] == p);
        }
        if entries.contains(p) {
            let i = choose|i: int| 0 <= i < entries.len() && entries[i] == p;
            assert(view.peers@[i]@ == p);
        }
    }
}

/// Taking out a peer that is not in the view changes nothing, and taking a
/// peer out twice is taking it out once.
pub proof fn lemma_remove_is_idempotent(view: Set<Seq<u8>>, peer: Seq<u8>)
    ensures
        !view.contains(peer) ==> view.remove(peer) == view,
        view.remove(peer).remove(peer) == view.remove(peer),
        !view.remove(peer).contains(peer),
{
}

} // verus!
