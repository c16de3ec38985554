//! Which addresses are on the interface in the course of a pool's life.

use crate::pool::PoolEvent;
use crate::pool_laws::{Operation, System};
use crate::subnet::Subnet;
use vstd::prelude::*;

verus! {

/// The operation is no deletion that failed.
pub open spec fn deletes_cleanly(system: System, operation: Operation) -> bool {
    operation matches Operation::Step { index, event } ==> !(system.tasks[index] is Deleting
        && event == PoolEvent::CommandDone { success: false })
}

/// As long as no deletion fails, the interface has exactly the active
/// addresses of the pool, apart from those it had of its own, whatever else
/// happens.
pub proof fn law_interface_has_the_active_pool(
    system: System,
    subnet: Subnet,
    operations: Seq<Operation>,
)
    requires
        system.bound == system.pool.active,
        forall|k: int|
            0 <= k < operations.len() ==> deletes_cleanly(
                crate::pool_laws::after_all(system, subnet, #[trigger] operations.take(k)),
                operations[k],
            ),
    ensures
        crate::pool_laws::after_all(system, subnet, operations).bound
            == crate::pool_laws::after_all(system, subnet, operations).pool.active,
{
    lemma_bound_is_active(system, subnet, operations, operations.len() as int);
    assert(operations.take(operations.len() as int) =~= operations);
}

proof fn lemma_bound_is_active(system: System, subnet: Subnet, operations: Seq<Operation>, m: int)
    requires
        system.bound == system.pool.active,
        forall|k: int|
            0 <= k < operations.len() ==> deletes_cleanly(
                crate::pool_laws::after_all(system, subnet, #[trigger] operations.take(k)),
                operations[k],
            ),
        0 <= m <= operations.len(),
    ensures
        crate::pool_laws::after_all(system, subnet, operations.take(m)).bound
            == crate::pool_laws::after_all(system, subnet, operations.take(m)).pool.active,
    decreases m,
{
    if m > 0 {
        lemma_bound_is_active(system, subnet, operations, m - 1);
        assert(operations.take(m).drop_last() =~= operations.take(m - 1));
        let before = crate::pool_laws::after_all(system, subnet, operations.take(m - 1));
        let next = crate::pool_laws::after_all(system, subnet, operations.take(m));
        assert(deletes_cleanly(before, operations[m - 1]));
        assert(next.bound =~= next.pool.active);
    }
}

/// A new pool for an interface that has addresses of its own.
pub open spec fn new_on(own: Set<u128>, count: nat) -> System {
    System { bound: own, ..crate::pool_laws::new_system(count) }
}

/// The interface takes an address only if it does not have it.
pub open spec fn adds_what_is_missing(system: System, operation: Operation) -> bool {
    crate::pool_laws::binds(system, operation) matches Some(ip) ==> !system.bound.contains(ip)
}

/// The operation is what a pool, its clients and its interface do when all
/// goes well: clients release what they hold, each address once; the
/// interface takes only addresses that it does not have; and no deletion
/// fails. Candidates may fail to be bound, and two tasks may have the same
/// candidate.
pub open spec fn proper(system: System, operation: Operation) -> bool {
    &&& crate::pool_laws::in_range(system, operation)
    &&& crate::pool_laws::releases_held(system, operation)
    &&& adds_what_is_missing(system, operation)
    &&& deletes_cleanly(system, operation)
}

/// The addresses that were leased and not released since.
pub open spec fn in_use(system: System, subnet: Subnet, operations: Seq<Operation>) -> Set<u128>
    decreases operations.len(),
{
    if operations.len() == 0 {
        Set::empty()
    } else {
        let earlier = operations.drop_last();
        let leased = in_use(system, subnet, earlier);
        match operations.last() {
            Operation::Lease => match crate::pool_laws::after_all(
                system,
                subnet,
                earlier,
            ).pool.last() {
                Some(ip) => leased.insert(ip),
                None => leased,
            },
            Operation::Release { ip } => leased.remove(ip),
            Operation::Step { index: _, event: _ } => leased,
        }
    }
}

/// A task is recycling the address.
pub open spec fn being_recycled(system: System, ip: u128) -> bool {
    exists|i: int|
        0 <= i < system.tasks.len() && crate::pool_laws::recycled(#[trigger] system.tasks[i])
            == Some(ip)
}

/// No address is being recycled.
pub open spec fn idle(system: System) -> bool {
    forall|i: int|
        0 <= i < system.tasks.len() ==> crate::pool_laws::recycled(#[trigger] system.tasks[i])
            is None
}

/// What holds in the course of proper operations.
pub open spec fn settled(system: System, own: Set<u128>, leased: Set<u128>) -> bool {
    &&& crate::pool_laws::consistent(system)
    &&& system.bound == own.union(system.pool.active)
    &&& own.disjoint(system.pool.active)
    &&& forall|ip: u128| #[trigger]
        leased.contains(ip) ==> system.pool.leased(ip) && !being_recycled(system, ip)
    &&& forall|ip: u128| #[trigger]
        system.pool.leased(ip) ==> leased.contains(ip) || being_recycled(system, ip)
}

proof fn lemma_settled_after(
    system: System,
    subnet: Subnet,
    operation: Operation,
    own: Set<u128>,
    leased: Set<u128>,
)
    requires
        settled(system, own, leased),
        proper(system, operation),
    ensures
        settled(
            crate::pool_laws::after(system, subnet, operation),
            own,
            match operation {
                Operation::Lease => match system.pool.last() {
                    Some(ip) => leased.insert(ip),
                    None => leased,
                },
                Operation::Release { ip } => leased.remove(ip),
                Operation::Step { index: _, event: _ } => leased,
            },
        ),
{
    let next = crate::pool_laws::after(system, subnet, operation);
    let available = system.pool.available;
    crate::pool_laws::law_orderly_operations_keep_consistency(system, subnet, operation);
    assert(next.bound =~= own.union(next.pool.active)) by {
        if let Operation::Step { index, event } = operation {
            assert(crate::pool_laws::recycled(system.tasks[index]) matches Some(ip)
                ==> system.pool.leased(ip));
        }
    }
    assert(forall|ip: u128| #[trigger] next.pool.available.contains(ip) ==> available.contains(ip)
        || crate::pool_laws::binds(system, operation) == Some(ip)) by {
        assert forall|ip: u128| #[trigger]
            next.pool.available.contains(ip) && crate::pool_laws::binds(system, operation) != Some(
                ip,
            ) implies available.contains(ip) by {
            let i = next.pool.available.index_of(ip);
            assert(available[i] == ip);
        }
    }
    match operation {
        Operation::Lease => {
            assert forall|ip: u128|
                being_recycled(next, ip) == #[trigger] being_recycled(system, ip) by {}
            if available.len() > 0 {
                let last = available[available.len() - 1];
                assert(available.contains(last));
                assert(!system.pool.leased(last));
                assert(!being_recycled(system, last));
                assert(!next.pool.available.contains(last)) by {
                    if next.pool.available.contains(last) {
                        let i = next.pool.available.index_of(last);
                        assert(available[i] == last);
                    }
                }
                assert forall|ip: u128| available.contains(ip) && ip != last implies #[trigger]
                next.pool.available.contains(ip) by {
                    let i = available.index_of(ip);
                    assert(next.pool.available[i] == ip);
                }
                assert forall|ip: u128| #[trigger] next.pool.leased(ip) && ip
                    != last implies leased.contains(ip) || being_recycled(next, ip) by {
                    assert(system.pool.leased(ip));
                }
            }
        },
        Operation::Release { ip: released } => {
            assert forall|ip: u128| #[trigger]
                being_recycled(next, ip) == (being_recycled(system, ip) || ip == released) by {
                if being_recycled(system, ip) {
                    let i = choose|i: int|
                        0 <= i < system.tasks.len() && crate::pool_laws::recycled(
                            #[trigger] system.tasks[i],
                        ) == Some(ip);
                    assert(next.tasks[i] == system.tasks[i]);
                }
                if being_recycled(next, ip) {
                    let i = choose|i: int|
                        0 <= i < next.tasks.len() && crate::pool_laws::recycled(
                            #[trigger] next.tasks[i],
                        ) == Some(ip);
                    if i < system.tasks.len() {
                        assert(next.tasks[i] == system.tasks[i]);
                    }
                }
                assert(next.tasks[system.tasks.len() as int] is Cooling);
            }
            assert forall|ip: u128| #[trigger] next.pool.leased(ip) implies system.pool.leased(
                ip,
            ) by {}
        },
        Operation::Step { index, event } => {
            let task = system.tasks[index];
            let gone = crate::pool_laws::recycled(task);
            assert(next.tasks[index] == crate::pool::step(task, system.pool, subnet, event).0);
            assert forall|ip: u128| #[trigger] being_recycled(next, ip) implies being_recycled(
                system,
                ip,
            ) by {
                let i = choose|i: int|
                    0 <= i < next.tasks.len() && crate::pool_laws::recycled(
                        #[trigger] next.tasks[i],
                    ) == Some(ip);
                assert(crate::pool_laws::recycled(system.tasks[i]) == Some(ip));
            }
            assert forall|ip: u128|
                being_recycled(system, ip) && next.pool.active.contains(
                    ip,
                ) implies #[trigger] being_recycled(next, ip) by {
                let i = choose|i: int|
                    0 <= i < system.tasks.len() && crate::pool_laws::recycled(
                        #[trigger] system.tasks[i],
                    ) == Some(ip);
                assert(system.pool.leased(ip));
                assert(crate::pool_laws::recycled(next.tasks[i]) == Some(ip));
            }
            assert forall|ip: u128| available.contains(ip) implies #[trigger]
            next.pool.available.contains(ip) by {
                let i = available.index_of(ip);
                assert(next.pool.available[i] == ip);
            }
            if let Some(ip) = crate::pool_laws::binds(system, operation) {
                assert(next.pool.available[available.len() as int] == ip);
            }
            assert forall|ip: u128| #[trigger] next.pool.leased(ip) implies leased.contains(ip)
                || being_recycled(next, ip) by {
                assert(system.pool.leased(ip));
            }
            assert forall|ip: u128| #[trigger] leased.contains(ip) implies next.pool.leased(ip)
                && !being_recycled(next, ip) by {
                assert(system.pool.leased(ip) && !being_recycled(system, ip));
                assert(gone != Some(ip));
            }
        },
    }
}

proof fn lemma_settled(
    own: Set<u128>,
    subnet: Subnet,
    count: nat,
    operations: Seq<Operation>,
    m: int,
)
    requires
        forall|k: int|
            0 <= k < operations.len() ==> proper(
                crate::pool_laws::after_all(
                    new_on(own, count),
                    subnet,
                    #[trigger] operations.take(k),
                ),
                operations[k],
            ),
        0 <= m <= operations.len(),
    ensures
        settled(
            crate::pool_laws::after_all(new_on(own, count), subnet, operations.take(m)),
            own,
            in_use(new_on(own, count), subnet, operations.take(m)),
        ),
    decreases m,
{
    let start = new_on(own, count);
    if m == 0 {
        assert(start.bound =~= own.union(start.pool.active));
    } else {
        lemma_settled(own, subnet, count, operations, m - 1);
        assert(operations.take(m).drop_last() =~= operations.take(m - 1));
        lemma_settled_after(
            crate::pool_laws::after_all(start, subnet, operations.take(m - 1)),
            subnet,
            operations[m - 1],
            own,
            in_use(start, subnet, operations.take(m - 1)),
        );
    }
}

/// The interface has the addresses that it had before, those of the pool that
/// can be leased, and those that are in use or being recycled, and no others.
/// While nothing is being recycled these last are the ones that were leased
/// and not yet released. The pool's addresses are apart from those that the
/// interface had of its own.
pub proof fn law_interface_has_what_is_leasable_and_leased(
    own: Set<u128>,
    subnet: Subnet,
    count: nat,
    operations: Seq<Operation>,
)
    requires
        forall|k: int|
            0 <= k < operations.len() ==> proper(
                crate::pool_laws::after_all(
                    new_on(own, count),
                    subnet,
                    #[trigger] operations.take(k),
                ),
                operations[k],
            ),
    ensures
        ({
            let end = crate::pool_laws::after_all(new_on(own, count), subnet, operations);
            let leasable = end.pool.available.to_set();
            let leased = in_use(new_on(own, count), subnet, operations);
            &&& end.bound == own.union(end.pool.active)
            &&& end.pool.active == leasable.union(crate::pool_laws::held(end.pool))
            &&& own.disjoint(end.pool.active)
            &&& end.pool.available.no_duplicates()
            &&& leased.subset_of(crate::pool_laws::held(end.pool))
            &&& idle(end) ==> crate::pool_laws::held(end.pool) == leased && end.bound == own.union(
                leasable,
            ).union(leased)
        }),
{
    lemma_settled(own, subnet, count, operations, operations.len() as int);
    assert(operations.take(operations.len() as int) =~= operations);
    let end = crate::pool_laws::after_all(new_on(own, count), subnet, operations);
    let leasable = end.pool.available.to_set();
    let leased = in_use(new_on(own, count), subnet, operations);
    let held = crate::pool_laws::held(end.pool);
    assert forall|ip: u128| #[trigger] held.contains(ip) == end.pool.leased(ip) by {}
    assert forall|ip: u128| leasable.contains(ip) implies end.pool.active.contains(ip) by {
        let i = end.pool.available.index_of(ip);
        assert(end.pool.active.contains(end.pool.available[i]));
    }
    assert(end.pool.active =~= leasable.union(held));
    if idle(end) {
        assert(forall|ip: u128| !being_recycled(end, ip));
        assert(held =~= leased);
        assert(end.bound =~= own.union(leasable).union(leased));
    }
}

proof fn lemma_released_is_removed(
    system: System,
    subnet: Subnet,
    operations: Seq<Operation>,
    k: int,
    ip: u128,
    m: int,
)
    requires
        forall|j: int|
            0 <= j < operations.len() ==> {
                let before = crate::pool_laws::after_all(
                    system,
                    subnet,
                    #[trigger] operations.take(j),
                );
                &&& crate::pool_laws::in_range(before, operations[j])
                &&& deletes_cleanly(before, operations[j])
                &&& k < j ==> crate::pool_laws::binds(before, operations[j]) != Some(ip)
            },
        0 <= k < m <= operations.len(),
        operations[k] == (Operation::Release { ip }),
    ensures
        ({
            let end = crate::pool_laws::after_all(system, subnet, operations.take(m));
            being_recycled(end, ip) || !end.bound.contains(ip)
        }),
    decreases m,
{
    assert(operations.take(m).drop_last() =~= operations.take(m - 1));
    let before = crate::pool_laws::after_all(system, subnet, operations.take(m - 1));
    let end = crate::pool_laws::after_all(system, subnet, operations.take(m));
    if k + 1 == m {
        assert(crate::pool_laws::recycled(end.tasks[before.tasks.len() as int]) == Some(ip));
    } else {
        lemma_released_is_removed(system, subnet, operations, k, ip, m - 1);
        assert(crate::pool_laws::in_range(before, operations[m - 1]));
        assert(deletes_cleanly(before, operations[m - 1]));
        if being_recycled(before, ip) {
            let i = choose|i: int|
                0 <= i < before.tasks.len() && crate::pool_laws::recycled(
                    #[trigger] before.tasks[i],
                ) == Some(ip);
            if crate::pool_laws::recycled(end.tasks[i]) != Some(ip) {
                assert(!end.bound.contains(ip));
            }
        }
    }
}

/// A released address leaves the interface: once nothing is being recycled it
/// is not there, unless it was bound again since.
pub proof fn law_released_address_leaves_the_interface(
    system: System,
    subnet: Subnet,
    operations: Seq<Operation>,
    k: int,
    ip: u128,
)
    requires
        forall|j: int|
            0 <= j < operations.len() ==> {
                let before = crate::pool_laws::after_all(
                    system,
                    subnet,
                    #[trigger] operations.take(j),
                );
                &&& crate::pool_laws::in_range(before, operations[j])
                &&& deletes_cleanly(before, operations[j])
                &&& k < j ==> crate::pool_laws::binds(before, operations[j]) != Some(ip)
            },
        0 <= k < operations.len(),
        operations[k] == (Operation::Release { ip }),
        idle(crate::pool_laws::after_all(system, subnet, operations)),
    ensures
        !crate::pool_laws::after_all(system, subnet, operations).bound.contains(ip),
{
    lemma_released_is_removed(system, subnet, operations, k, ip, operations.len() as int);
    assert(operations.take(operations.len() as int) =~= operations);
}

proof fn lemma_ever_bound_grows(
    system: System,
    subnet: Subnet,
    operations: Seq<Operation>,
    k: int,
    m: int,
)
    requires
        0 <= k <= m <= operations.len(),
    ensures
        crate::lease_laws::ever_bound(system, subnet, operations.take(k)).subset_of(
            crate::lease_laws::ever_bound(system, subnet, operations.take(m)),
        ),
    decreases m,
{
    if k < m {
        lemma_ever_bound_grows(system, subnet, operations, k, m - 1);
        assert(operations.take(m).drop_last() =~= operations.take(m - 1));
    }
}

/// No released address remains on the interface once nothing is being
/// recycled, as long as no deletion fails and no task draws the address that
/// another one is about to bind.
pub proof fn law_no_released_address_remains(
    own: Set<u128>,
    subnet: Subnet,
    count: nat,
    operations: Seq<Operation>,
    k: int,
    ip: u128,
)
    requires
        forall|j: int|
            0 <= j < operations.len() ==> {
                let before = crate::pool_laws::after_all(
                    new_on(own, count),
                    subnet,
                    #[trigger] operations.take(j),
                );
                &&& crate::pool_laws::in_range(before, operations[j])
                &&& crate::pool_laws::releases_held(before, operations[j])
                &&& crate::lease_laws::draws_apart(before, subnet, operations[j])
                &&& deletes_cleanly(before, operations[j])
            },
        0 <= k < operations.len(),
        operations[k] == (Operation::Release { ip }),
        idle(crate::pool_laws::after_all(new_on(own, count), subnet, operations)),
    ensures
        !crate::pool_laws::after_all(new_on(own, count), subnet, operations).bound.contains(ip),
{
    let start = new_on(own, count);
    crate::lease_laws::lemma_candidates(start, subnet, operations, k);
    let there = crate::pool_laws::after_all(start, subnet, operations.take(k));
    assert(there.pool.active.contains(ip));
    assert forall|j: int| 0 <= j < operations.len() implies ({
        let before = crate::pool_laws::after_all(start, subnet, #[trigger] operations.take(j));
        &&& crate::pool_laws::in_range(before, operations[j])
        &&& deletes_cleanly(before, operations[j])
        &&& k < j ==> crate::pool_laws::binds(before, operations[j]) != Some(ip)
    }) by {
        if k < j {
            crate::lease_laws::law_no_address_is_bound_twice(start, subnet, operations, j);
            lemma_ever_bound_grows(start, subnet, operations, k, j);
        }
    }
    law_released_address_leaves_the_interface(start, subnet, operations, k, ip);
}

} // verus!
