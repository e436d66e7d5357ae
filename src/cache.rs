//! The addresses last pushed to the DNS authority.
use vstd::prelude::*;

verus! {

/// An IPv4 address, as its 32 bits in network order.
#[derive(Clone, Copy, Debug, PartialEq, Eq, Structural)]
pub struct Ipv4Address {
    pub bits: u32,
}

/// An IPv6 address, as its 128 bits in network order.
#[derive(Clone, Copy, Debug, PartialEq, Eq, Structural)]
pub struct Ipv6Address {
    pub bits: u128,
}

/// The last address of each family for which the authority confirmed an update.
#[derive(Clone, Copy, Debug, PartialEq, Eq, Structural)]
pub struct Cache {
    pub v4: Option<Ipv4Address>,
    pub v6: Option<Ipv6Address>,
}

impl Cache {
    /// A cache that knows of no published address.
    pub fn empty() -> (r: Cache)
        ensures
            r.v4 is None,
            r.v6 is None,
    {
        Cache { v4: None, v6: None }
    }
}

impl Default for Cache {
    fn default() -> (r: Cache)
        ensures
            r.v4 is None,
            r.v6 is None,
    {
        Cache::empty()
    }
}

} // verus!
