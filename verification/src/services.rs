//! The service bits that nodes announce.

use vstd::prelude::*;

verus! {

/// The node can serve the whole block chain.
pub const NODE_NETWORK: u64 = 0x1;

/// The node can serve witness data.
pub const NODE_WITNESS: u64 = 0x8;

/// The node relays what others filter.
pub const NODE_LIBRE_RELAY: u64 = 0x2000_0000;

/// Whether every bit of `flags` is among `services`.
pub open spec fn has_flags(services: u64, flags: u64) -> bool {
    services | flags == services
}

/// Whether the libre-relay bit is among `services`.
pub open spec fn announces_libre_relay(services: u64) -> bool {
    services & NODE_LIBRE_RELAY != 0
}

/// `bitcoin::p2p::ServiceFlags::has`: the bits of `flags` are all set in `services`.
#[verifier::external_body]
fn service_flags_have(services: u64, flags: u64) -> (r: bool)
    ensures
        r == has_flags(services, flags),
{
    bitcoin::p2p::ServiceFlags::from(services).has(bitcoin::p2p::ServiceFlags::from(flags))
}

/// Tests for the libre-relay bit.
pub fn is_libre_relay(services: u64) -> (r: bool)
    ensures
        r == announces_libre_relay(services),
{
    assert((services | 0x2000_0000u64 == services) == (services & 0x2000_0000u64 != 0))
        by (bit_vector);
    service_flags_have(services, NODE_LIBRE_RELAY)
}

/// A node announces itself as a libre-relay node by bit 29 of its services alone: it does so
/// exactly where that bit is set, and it goes on doing so whatever other services it adds.
pub proof fn libre_relay_is_told_by_one_bit(services: u64, others: u64)
    ensures
        announces_libre_relay(services) <==> (services / 0x2000_0000) % 2 == 1,
        announces_libre_relay(services | others) <==> announces_libre_relay(services)
            || announces_libre_relay(others),
        has_flags(services, 0x2000_0000) <==> (services / 0x2000_0000) % 2 == 1,
{
    assert((services & 0x2000_0000u64 != 0) == ((services / 0x2000_0000) % 2 == 1))
        by (bit_vector);
    assert(((services | others) & 0x2000_0000u64 != 0) == ((services & 0x2000_0000u64 != 0) || (
    others & 0x2000_0000u64 != 0))) by (bit_vector);
    assert((services | 0x2000_0000u64 == services) == ((services / 0x2000_0000) % 2 == 1))
        by (bit_vector);
}

} // verus!
