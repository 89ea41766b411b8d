//! The first nodes to ask, which are found by name.

use vstd::prelude::*;

use crate::address::Endpoint;
use crate::shuffle::shuffle;

verus! {

/// How long to wait for the answer to a name.
pub const SEED_LOOKUP_TIMEOUT_MS: u64 = 2_000;

/// The names under which addresses of nodes are published.
pub open spec fn dns_seeds() -> Seq<Seq<char>> {
    seq![
        "dnsseed.bluematt.me"@,
        "dnsseed.bitcoin.dashjr-list-of-p2p-nodes.us"@,
        "seed.bitcoinstats.com"@,
        "seed.btc.petertodd.net"@,
        "seed.bitcoin.sprovoost.nl"@,
        "dnsseed.emzy.de"@,
        "seed.bitcoin.wiz.biz"@,
        "seed.bitcoin.sipa.be"@,
        "seed.bitcoin.jonasschnelli.ch"@,
        "seed.mainnet.achownodes.xyz"@,
    ]
}

/// What is looked up for a name: the name with the port of nodes.
pub open spec fn lookup_target(host: Seq<char>) -> Seq<char> {
    host + ":8333"@
}

/// A name with the port of nodes.
fn with_port(host: &str) -> (s: String)
    ensures
        s@ == lookup_target(host@),
{
    let mut s = host.to_owned();
    s.append(":8333");
    s
}

/// What to look up in order to find the first nodes.
pub fn seed_lookups() -> (r: Vec<String>)
    ensures
        r@.map_values(|s: String| s@) == dns_seeds().map_values(|host: Seq<char>| lookup_target(host)),
{
    let mut r: Vec<String> = Vec::new();
    r.push(with_port("dnsseed.bluematt.me"));
    r.push(with_port("dnsseed.bitcoin.dashjr-list-of-p2p-nodes.us"));
    r.push(with_port("seed.bitcoinstats.com"));
    r.push(with_port("seed.btc.petertodd.net"));
    r.push(with_port("seed.bitcoin.sprovoost.nl"));
    r.push(with_port("dnsseed.emzy.de"));
    r.push(with_port("seed.bitcoin.wiz.biz"));
    r.push(with_port("seed.bitcoin.sipa.be"));
    r.push(with_port("seed.bitcoin.jonasschnelli.ch"));
    r.push(with_port("seed.mainnet.achownodes.xyz"));
    assert(r@.map_values(|s: String| s@) =~= dns_seeds().map_values(
        |host: Seq<char>| lookup_target(host),
    ));
    r
}

/// The addresses that a number of lookups gave, one lookup after the other, without those of
/// lookups that failed.
pub open spec fn looked_up(lookups: Seq<Option<Vec<Endpoint>>>) -> Seq<Endpoint>
    decreases lookups.len(),
{
    if lookups.len() == 0 {
        Seq::empty()
    } else {
        let others = looked_up(lookups.drop_last());
        match lookups.last() {
            Some(list) => others + list@,
            None => others,
        }
    }
}

/// Puts together what lookups gave.
pub fn gather_seed_addresses(lookups: &Vec<Option<Vec<Endpoint>>>) -> (r: Vec<Endpoint>)
    ensures
        r@ == looked_up(lookups@),
{
    let mut r: Vec<Endpoint> = Vec::new();
    let mut i: usize = 0;
    assert(lookups@.take(0) =~= Seq::<Option<Vec<Endpoint>>>::empty());
    while i < lookups.len()
        invariant
            i <= lookups.len(),
            r@ == looked_up(lookups@.take(i as int)),
        decreases lookups.len() - i,
    {
        assert(lookups@.take(i + 1).drop_last() =~= lookups@.take(i as int));
        if let Some(list) = &lookups[i] {
            let ghost before = r@;
            r.extend_from_slice(list.as_slice());
            assert(r@ =~= before + list@);
        }
        i = i + 1;
    }
    assert(lookups@.take(i as int) =~= lookups@);
    r
}

/// Puts together what lookups gave, in an order of chance.
pub fn discover_seed_addresses(lookups: &Vec<Option<Vec<Endpoint>>>) -> (r: Vec<Endpoint>)
    ensures
        r@.to_multiset() == looked_up(lookups@).to_multiset(),
{
    let mut r = gather_seed_addresses(lookups);
    shuffle(&mut r);
    r
}

/// Ten names are looked up, each with the port of nodes behind it.
pub proof fn every_name_is_looked_up_with_the_port(host: Seq<char>, i: int)
    ensures
        dns_seeds().len() == 10,
        lookup_target(host) == host + seq![':', '8', '3', '3', '3'],
        0 <= i < 10 ==> dns_seeds()[i] == if i == 0 {
            "dnsseed.bluematt.me"@
        } else if i == 1 {
            "dnsseed.bitcoin.dashjr-list-of-p2p-nodes.us"@
        } else if i == 2 {
            "seed.bitcoinstats.com"@
        } else if i == 3 {
            "seed.btc.petertodd.net"@
        } else if i == 4 {
            "seed.bitcoin.sprovoost.nl"@
        } else if i == 5 {
            "dnsseed.emzy.de"@
        } else if i == 6 {
            "seed.bitcoin.wiz.biz"@
        } else if i == 7 {
            "seed.bitcoin.sipa.be"@
        } else if i == 8 {
            "seed.bitcoin.jonasschnelli.ch"@
        } else {
            "seed.mainnet.achownodes.xyz"@
        },
{
    reveal_strlit(":8333");
    assert(":8333"@ =~= seq![':', '8', '3', '3', '3']);
}

/// Lookups add up: what two lots of lookups gave is what they gave together, one after the other;
/// a single lookup gives all of its addresses, and one that failed gives none.
pub proof fn lookups_add_up(
    lookups1: Seq<Option<Vec<Endpoint>>>,
    lookups2: Seq<Option<Vec<Endpoint>>>,
    list: Vec<Endpoint>,
)
    ensures
        looked_up(lookups1 + lookups2) == looked_up(lookups1) + looked_up(lookups2),
        looked_up(seq![Some(list)]) == list@,
        looked_up(seq![None]) == Seq::<Endpoint>::empty(),
    decreases lookups2.len(),
{
    reveal_with_fuel(looked_up, 2);
    assert(seq![Some(list)].drop_last() =~= Seq::<Option<Vec<Endpoint>>>::empty());
    assert(looked_up(seq![Some(list)]) =~= list@);
    let none: Seq<Option<Vec<Endpoint>>> = seq![None];
    assert(none.drop_last() =~= Seq::<Option<Vec<Endpoint>>>::empty());
    if lookups2.len() == 0 {
        assert(lookups1 + lookups2 =~= lookups1);
    } else {
        lookups_add_up(lookups1, lookups2.drop_last(), list);
        assert((lookups1 + lookups2).drop_last() =~= lookups1 + lookups2.drop_last());
        assert((lookups1 + lookups2).last() == lookups2.last());
    }
    assert(looked_up(lookups1 + lookups2) =~= looked_up(lookups1) + looked_up(lookups2));
}

} // verus!
