//! Where the address of an outbound connection comes from.

use crate::pool::{Ipv6Pool, PoolTask};
use crate::subnet::{random_ipv6, Subnet};
use vstd::prelude::*;

verus! {

/// Either any address of a network, or one that a pool has bound.
pub enum Source {
    RandomCidr { subnet: Subnet },
    Dynamic(Ipv6Pool),
}

impl Source {
    /// The network's prefix fits an address.
    pub open spec fn well_formed(self) -> bool {
        match self {
            Source::RandomCidr { subnet } => subnet.prefix_len <= 128,
            Source::Dynamic(pool) => pool.config.subnet.prefix_len <= 128,
        }
    }

    /// An address for a connection. A network always has one; a pool may have
    /// none left.
    pub fn lease(&mut self) -> (ip: Option<u128>)
        requires
            old(self).well_formed(),
        ensures
            final(self).well_formed(),
            match *old(self) {
                Source::RandomCidr { subnet } => {
                    &&& *final(self) == *old(self)
                    &&& exists|host: u128| #[trigger]
                        crate::subnet::random_gave(host) && ip == Some(
                            crate::subnet::spliced(
                                subnet.address,
                                subnet.prefix_len,
                                host,
                            ) as u128,
                        )
                    &&& ip matches Some(drawn) && subnet.contains(drawn)
                },
                Source::Dynamic(before) => {
                    &&& *final(self) matches Source::Dynamic(pool) && pool.config == before.config
                        && pool.state@ == before.state@.take_last()
                    &&& ip == before.state@.last()
                },
            },
    {
        match self {
            Source::RandomCidr { subnet } => Some(random_ipv6(subnet.address, subnet.prefix_len)),
            Source::Dynamic(pool) => pool.lease(),
        }
    }

    /// The work that follows the end of a connection: an address of a pool is
    /// recycled, any other needs nothing.
    pub fn release(&self, ip: u128) -> (task: Option<PoolTask>)
        ensures
            task == (match self {
                Source::RandomCidr { subnet: _ } => None,
                Source::Dynamic(_) => Some(PoolTask::Cooling { ip }),
            }),
    {
        match self {
            Source::RandomCidr { subnet: _ } => None,
            Source::Dynamic(pool) => Some(pool.release(ip)),
        }
    }
}

} // verus!
