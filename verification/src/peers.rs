//! The libre-relay nodes that are known, and for how long they are remembered.

use vstd::prelude::*;

use crate::address::{peer_addresses, NetworkAddress, PeerAddress};

verus! {

/// How long nodes are remembered, in nanoseconds: five minutes.
pub const NODE_CACHE_DURATION_NS: u128 = 300_000_000_000;

/// A set of nodes.
#[derive(Debug)]
pub struct PeerSet {
    items: Vec<NetworkAddress>,
}

impl View for PeerSet {
    type V = Set<PeerAddress>;

    open spec fn view(&self) -> Set<PeerAddress> {
        self.listed().to_set()
    }
}

impl PeerSet {
    /// The nodes in the order in which they came in.
    pub closed spec fn listed(self) -> Seq<PeerAddress> {
        peer_addresses(self.items@)
    }

    /// No node is listed twice.
    #[verifier::type_invariant]
    pub open spec fn well_formed(self) -> bool {
        self.listed().no_duplicates()
    }

    /// A set without nodes.
    pub fn new() -> (r: PeerSet)
        ensures
            r.listed() == Seq::<PeerAddress>::empty(),
            r@ == Set::<PeerAddress>::empty(),
    {
        let items: Vec<NetworkAddress> = Vec::new();
        assert(peer_addresses(items@) =~= Seq::<PeerAddress>::empty());
        let r = PeerSet { items };
        assert(r@ =~= Set::<PeerAddress>::empty());
        r
    }

    /// The number of nodes.
    pub fn len(&self) -> (n: usize)
        ensures
            n == self@.len(),
            n == self.listed().len(),
    {
        proof {
            use_type_invariant(self);
            self.listed().unique_seq_to_set();
        }
        self.items.len()
    }

    /// Tests whether there is no node.
    pub fn is_empty(&self) -> (r: bool)
        ensures
            r == (self@ == Set::<PeerAddress>::empty()),
            r == (self.listed().len() == 0),
    {
        let r = self.items.len() == 0;
        proof {
            if r {
                assert(self@ =~= Set::<PeerAddress>::empty());
            } else {
                assert(self@.contains(self.listed()[0]));
            }
        }
        r
    }

    /// Tests whether a node is in the set.
    pub fn contains(&self, a: &NetworkAddress) -> (r: bool)
        ensures
            r == self@.contains(a@),
    {
        let mut i: usize = 0;
        while i < self.items.len()
            invariant
                i <= self.items.len(),
                forall|k: int| 0 <= k < i ==> #[trigger] self.listed()[k] != a@,
            decreases self.items.len() - i,
        {
            assert(self.listed()[i as int] == self.items@[i as int]@);
            if self.items[i].same(a) {
                return true;
            }
            i = i + 1;
        }
        false
    }

    /// Adds a node.
    pub fn insert(&mut self, a: NetworkAddress)
        ensures
            final(self)@ == old(self)@.insert(a@),
    {
        if self.contains(&a) {
            assert(self@.insert(a@) =~= self@);
            return;
        }
        proof {
            use_type_invariant(&*self);
        }
        let ghost before = self.listed();
        let mut items: Vec<NetworkAddress> = Vec::new();
        assert(peer_addresses(items@) =~= Seq::<PeerAddress>::empty());
        std::mem::swap(&mut items, &mut self.items);
        assert(peer_addresses(items@) == before);
        items.push(a);
        assert(peer_addresses(items@) =~= before.push(a@));
        self.items = items;
        assert(self@ =~= before.to_set().insert(a@)) by {
            assert(self.listed() == before.push(a@));
            assert forall|p: PeerAddress| self@.contains(p) <==> before.to_set().insert(
                a@,
            ).contains(p) by {
                if before.contains(p) {
                    let k = choose|k: int| 0 <= k < before.len() && before[k] == p;
                    assert(before.push(a@)[k] == p);
                }
                assert(before.push(a@)[before.len() as int] == a@);
            }
        }
    }

    /// Adds all nodes of a list.
    pub fn extend(&mut self, list: Vec<NetworkAddress>)
        ensures
            final(self)@ == old(self)@.union(peer_addresses(list@).to_set()),
    {
        let mut i: usize = 0;
        let ghost before = self@;
        let ghost all = peer_addresses(list@);
        assert(self@ =~= before.union(all.take(0).to_set()));
        while i < list.len()
            invariant
                i <= list.len(),
                all == peer_addresses(list@),
                self@ == before.union(all.take(i as int).to_set()),
            decreases list.len() - i,
        {
            let ghost prev = self@;
            self.insert(list[i].clone());
            proof {
                let a = all[i as int];
                assert(all.take(i + 1) =~= all.take(i as int).push(a));
                assert forall|p: PeerAddress|
                    all.take(i + 1).to_set().contains(p) <==> all.take(i as int).to_set().insert(
                        a,
                    ).contains(p) by {
                    if all.take(i as int).contains(p) {
                        let k = choose|k: int|
                            0 <= k < all.take(i as int).len() && all.take(i as int)[k] == p;
                        assert(all.take(i + 1)[k] == p);
                    }
                    assert(all.take(i + 1)[i as int] == a);
                }
                assert(self@ =~= before.union(all.take(i + 1).to_set()));
            }
            i = i + 1;
        }
        assert(all.take(i as int) =~= all);
    }

    /// The nodes, each once.
    pub fn addresses(&self) -> (list: &Vec<NetworkAddress>)
        ensures
            peer_addresses(list@) == self.listed(),
            peer_addresses(list@).no_duplicates(),
            peer_addresses(list@).to_set() == self@,
    {
        proof {
            use_type_invariant(self);
        }
        &self.items
    }
}

/// A list with copies of the nodes of another.
fn copy_list(list: &Vec<NetworkAddress>) -> (r: Vec<NetworkAddress>)
    ensures
        peer_addresses(r@) == peer_addresses(list@),
{
    let mut r: Vec<NetworkAddress> = Vec::new();
    let mut i: usize = 0;
    while i < list.len()
        invariant
            i <= list.len(),
            r.len() == i,
            forall|k: int| 0 <= k < i ==> (#[trigger] r@[k])@ == list@[k]@,
        decreases list.len() - i,
    {
        r.push(list[i].clone());
        i = i + 1;
    }
    assert(peer_addresses(r@) =~= peer_addresses(list@));
    r
}

impl Clone for PeerSet {
    fn clone(&self) -> (r: Self)
        ensures
            r.listed() == self.listed(),
            r@ == self@,
    {
        proof {
            use_type_invariant(self);
        }
        PeerSet { items: copy_list(&self.items) }
    }
}

/// The nodes that a number of crawls found, without those of crawls that failed.
pub open spec fn found_by(crawls: Seq<Option<Vec<NetworkAddress>>>) -> Set<PeerAddress>
    decreases crawls.len(),
{
    if crawls.len() == 0 {
        Set::empty()
    } else {
        let others = found_by(crawls.drop_last());
        match crawls.last() {
            Some(list) => others.union(peer_addresses(list@).to_set()),
            None => others,
        }
    }
}

/// Puts together what crawls found, each node once. A crawl that failed has found nothing.
pub fn discover_libre_peers(crawls: Vec<Option<Vec<NetworkAddress>>>) -> (r: PeerSet)
    ensures
        r@ == found_by(crawls@),
{
    let mut peers = PeerSet::new();
    let mut i: usize = 0;
    assert(crawls@.take(0) =~= Seq::<Option<Vec<NetworkAddress>>>::empty());
    while i < crawls.len()
        invariant
            i <= crawls.len(),
            peers@ == found_by(crawls@.take(i as int)),
        decreases crawls.len() - i,
    {
        assert(crawls@.take(i + 1).drop_last() =~= crawls@.take(i as int));
        if let Some(list) = &crawls[i] {
            peers.extend(copy_list(list));
        }
        i = i + 1;
    }
    assert(crawls@.take(i as int) =~= crawls@);
    peers
}

/// Nodes and the time at which they were found, in nanoseconds.
#[derive(Debug)]
pub struct CachedPeers {
    pub peers: PeerSet,
    pub last_updated_ns: u128,
}

/// Whether more than five minutes lie between two times.
pub open spec fn expired(last_updated_ns: u128, now_ns: u128) -> bool {
    now_ns - last_updated_ns > NODE_CACHE_DURATION_NS
}

impl CachedPeers {
    /// Nodes that were found now.
    pub fn new(peers: PeerSet, now_ns: u128) -> (r: CachedPeers)
        ensures
            r.peers == peers,
            r.last_updated_ns == now_ns,
    {
        CachedPeers { peers, last_updated_ns: now_ns }
    }

    /// Tests whether the nodes were found too long ago to be used.
    pub fn is_expired(&self, now_ns: u128) -> (r: bool)
        ensures
            r == expired(self.last_updated_ns, now_ns),
    {
        now_ns.saturating_sub(self.last_updated_ns) > NODE_CACHE_DURATION_NS
    }
}

/// What is remembered of the nodes that were found last.
#[derive(Debug)]
pub struct PeerCache {
    pub entry: Option<CachedPeers>,
}

impl PeerCache {
    /// The nodes that can be used at the time `now_ns` without looking for nodes again.
    pub open spec fn usable(self, now_ns: u128) -> Option<Set<PeerAddress>> {
        match self.entry {
            Some(cached) => if expired(cached.last_updated_ns, now_ns) {
                None
            } else {
                Some(cached.peers@)
            },
            None => None,
        }
    }

    /// A cache that remembers nothing.
    pub fn new() -> (r: PeerCache)
        ensures
            forall|now_ns: u128| r.usable(now_ns) is None,
    {
        PeerCache { entry: None }
    }

    /// The remembered nodes, unless there are none or they are too old: then nodes have to be
    /// looked for.
    pub fn get_or_discover_libre_peers(&self, now_ns: u128) -> (r: Option<PeerSet>)
        ensures
            match r {
                Some(peers) => self.usable(now_ns) == Some(peers@),
                None => self.usable(now_ns) is None,
            },
    {
        match &self.entry {
            Some(cached) => if cached.is_expired(now_ns) {
                None
            } else {
                Some(cached.peers.clone())
            },
            None => None,
        }
    }

    /// Remembers nodes that were found now, in place of what was remembered.
    pub fn remember(&mut self, peers: &PeerSet, now_ns: u128)
        ensures
            forall|later_ns: u128| #[trigger]
                final(self).usable(later_ns) == if expired(now_ns, later_ns) {
                    None
                } else {
                    Some(peers@)
                },
    {
        self.entry = Some(CachedPeers::new(peers.clone(), now_ns));
    }

    /// Puts together what crawls found now, and remembers it in place of what was remembered.
    pub fn discovered(&mut self, crawls: Vec<Option<Vec<NetworkAddress>>>, now_ns: u128) -> (r:
        PeerSet)
        ensures
            r@ == found_by(crawls@),
            forall|later_ns: u128| #[trigger]
                final(self).usable(later_ns) == if expired(now_ns, later_ns) {
                    None
                } else {
                    Some(found_by(crawls@))
                },
    {
        let peers = discover_libre_peers(crawls);
        self.remember(&peers, now_ns);
        peers
    }

    /// Forgets what is remembered.
    pub fn clear(&mut self)
        ensures
            forall|now_ns: u128| final(self).usable(now_ns) is None,
    {
        self.entry = None;
    }
}

/// A node is discovered exactly where some crawl that did not fail found it.
pub proof fn discovered_means_found_by_a_crawl(
    crawls: Seq<Option<Vec<NetworkAddress>>>,
    a: PeerAddress,
)
    ensures
        found_by(crawls).contains(a) <==> exists|i: int|
            0 <= i < crawls.len() && (#[trigger] crawls[i] matches Some(list) && peer_addresses(
                list@,
            ).contains(a)),
    decreases crawls.len(),
{
    if crawls.len() > 0 {
        let init = crawls.drop_last();
        discovered_means_found_by_a_crawl(init, a);
        if found_by(init).contains(a) {
            let i = choose|i: int|
                0 <= i < init.len() && (#[trigger] init[i] matches Some(list) && peer_addresses(
                    list@,
                ).contains(a));
            assert(crawls[i] == init[i]);
        }
        if exists|i: int|
            0 <= i < crawls.len() && (#[trigger] crawls[i] matches Some(list) && peer_addresses(
                list@,
            ).contains(a)) {
            let i = choose|i: int|
                0 <= i < crawls.len() && (#[trigger] crawls[i] matches Some(list)
                    && peer_addresses(list@).contains(a));
            if i < init.len() {
                assert(init[i] == crawls[i]);
            }
        }
        assert(crawls.last() == crawls[crawls.len() - 1]);
    }
}

/// Where nothing can be used from memory, nothing can be used from it later either.
pub proof fn what_is_not_usable_stays_so(cache: PeerCache, t1: u128, t2: u128)
    requires
        t1 <= t2,
        cache.usable(t1) is None,
    ensures
        cache.usable(t2) is None,
{
}

/// Nodes that are remembered, any number of them and none too, can be used until five minutes
/// after they were found, and not later. Where nothing is remembered, nothing can be used.
pub proof fn nodes_are_remembered_for_five_minutes(cached: CachedPeers, now_ns: u128)
    ensures
        now_ns <= cached.last_updated_ns + 300_000_000_000 ==> (PeerCache {
            entry: Some(cached),
        }).usable(now_ns) == Some(cached.peers@),
        now_ns > cached.last_updated_ns + 300_000_000_000 ==> (PeerCache {
            entry: Some(cached),
        }).usable(now_ns) is None,
        (PeerCache { entry: None }).usable(now_ns) is None,
{
}

/// A set holds exactly the nodes that are listed in it.
pub proof fn a_set_holds_what_is_listed(peers: PeerSet, a: PeerAddress)
    ensures
        peers@.contains(a) <==> exists|i: int|
            0 <= i < peers.listed().len() && #[trigger] peers.listed()[i] == a,
{
}

/// Crawls add up: what two lots of crawls found is what they found together, and a crawl that
/// failed adds nothing to it.
pub proof fn crawls_add_up(
    crawls1: Seq<Option<Vec<NetworkAddress>>>,
    crawls2: Seq<Option<Vec<NetworkAddress>>>,
)
    ensures
        found_by(crawls1 + crawls2) == found_by(crawls1).union(found_by(crawls2)),
        found_by(crawls1.push(None)) == found_by(crawls1),
    decreases crawls2.len(),
{
    assert(crawls1.push(None).drop_last() =~= crawls1);
    if crawls2.len() == 0 {
        assert(crawls1 + crawls2 =~= crawls1);
    } else {
        crawls_add_up(crawls1, crawls2.drop_last());
        assert((crawls1 + crawls2).drop_last() =~= crawls1 + crawls2.drop_last());
        assert((crawls1 + crawls2).last() == crawls2.last());
    }
    assert(found_by(crawls1 + crawls2) =~= found_by(crawls1).union(found_by(crawls2)));
}

} // verus!
