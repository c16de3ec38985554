//! That no address of a pool is leased twice.

use crate::pool::PoolEvent;
use crate::pool_laws::{Operation, System};
use crate::subnet::Subnet;
use vstd::prelude::*;

verus! {

/// The addresses that were bound at some time.
pub open spec fn ever_bound(
    system: System,
    subnet: Subnet,
    operations: Seq<Operation>,
) -> Set<u128>
    decreases operations.len(),
{
    if operations.len() == 0 {
        system.pool.active.union(system.pool.used)
    } else {
        let earlier = operations.drop_last();
        let bound = ever_bound(system, subnet, earlier);
        match crate::pool_laws::binds(
            crate::pool_laws::after_all(system, subnet, earlier),
            operations.last(),
        ) {
            Some(ip) => bound.insert(ip),
            None => bound,
        }
    }
}

/// The operation at this place binds no address that was bound before.
pub open spec fn binds_anew(
    system: System,
    subnet: Subnet,
    operations: Seq<Operation>,
    k: int,
) -> bool {
    crate::pool_laws::binds(
        crate::pool_laws::after_all(system, subnet, operations.take(k)),
        operations[k],
    ) matches Some(ip) ==> !ever_bound(system, subnet, operations.take(k)).contains(ip)
}

proof fn lemma_listed_once(system: System, subnet: Subnet, operations: Seq<Operation>, m: int)
    requires
        crate::pool_laws::in_order(system.pool),
        forall|k: int|
            0 <= k < operations.len() ==> #[trigger] binds_anew(system, subnet, operations, k),
        0 <= m <= operations.len(),
    ensures
        ({
            let pool = crate::pool_laws::after_all(system, subnet, operations.take(m)).pool;
            &&& pool.available.no_duplicates()
            &&& forall|i: int|
                0 <= i < pool.available.len() ==> ever_bound(
                    system,
                    subnet,
                    operations.take(m),
                ).contains(#[trigger] pool.available[i])
        }),
    decreases m,
{
    if m > 0 {
        lemma_listed_once(system, subnet, operations, m - 1);
        assert(operations.take(m).drop_last() =~= operations.take(m - 1));
        assert(binds_anew(system, subnet, operations, m - 1));
        let before = crate::pool_laws::after_all(system, subnet, operations.take(m - 1));
        let next = crate::pool_laws::after_all(system, subnet, operations.take(m));
        assert forall|i: int|
            0 <= i < next.pool.available.len() && i
                < before.pool.available.len() implies #[trigger] next.pool.available[i]
            == before.pool.available[i] by {}
    }
}

proof fn lemma_leased_is_gone(
    system: System,
    subnet: Subnet,
    operations: Seq<Operation>,
    k: int,
    m: int,
)
    requires
        crate::pool_laws::in_order(system.pool),
        forall|j: int|
            0 <= j < operations.len() ==> #[trigger] binds_anew(system, subnet, operations, j),
        0 <= k < m <= operations.len(),
        crate::pool_laws::leased_at(system, subnet, operations, k) is Some,
    ensures
        ({
            let ip = crate::pool_laws::leased_at(system, subnet, operations, k)->0;
            let pool = crate::pool_laws::after_all(system, subnet, operations.take(m)).pool;
            &&& ever_bound(system, subnet, operations.take(m)).contains(ip)
            &&& !pool.available.contains(ip)
        }),
    decreases m,
{
    let ip = crate::pool_laws::leased_at(system, subnet, operations, k)->0;
    let available = crate::pool_laws::after_all(
        system,
        subnet,
        operations.take(m - 1),
    ).pool.available;
    let next = crate::pool_laws::after_all(system, subnet, operations.take(m)).pool.available;
    assert(operations.take(m).drop_last() =~= operations.take(m - 1));
    lemma_listed_once(system, subnet, operations, m - 1);
    if k + 1 == m {
        assert(available[available.len() - 1] == ip);
        if next.contains(ip) {
            let i = next.index_of(ip);
            assert(available[i] == available[available.len() - 1]);
        }
    } else {
        lemma_leased_is_gone(system, subnet, operations, k, m - 1);
        assert(binds_anew(system, subnet, operations, m - 1));
        if next.contains(ip) {
            let i = next.index_of(ip);
            if i < available.len() {
                assert(available[i] == ip);
            }
        }
    }
}

/// An address is handed out twice only if it was bound twice: where no
/// operation binds an address that was bound before, two leases of one pool
/// give different addresses, however far apart they are and whatever is
/// released in between.
pub proof fn law_leased_twice_only_if_bound_twice(
    system: System,
    subnet: Subnet,
    operations: Seq<Operation>,
    k: int,
    m: int,
)
    requires
        crate::pool_laws::in_order(system.pool),
        forall|j: int|
            0 <= j < operations.len() ==> #[trigger] binds_anew(system, subnet, operations, j),
        0 <= k < m < operations.len(),
        crate::pool_laws::leased_at(system, subnet, operations, k) is Some,
    ensures
        crate::pool_laws::leased_at(system, subnet, operations, m) != crate::pool_laws::leased_at(
            system,
            subnet,
            operations,
            k,
        ),
{
    lemma_leased_is_gone(system, subnet, operations, k, m);
    let available = crate::pool_laws::after_all(system, subnet, operations.take(m)).pool.available;
    if available.len() > 0 {
        assert(available.contains(available[available.len() - 1]));
    }
}

/// What the tasks are about to bind was never bound, and no two of them are
/// about to bind the same address.
pub open spec fn candidates_apart(system: System) -> bool {
    &&& forall|i: int|
        0 <= i < system.tasks.len() ==> (crate::pool_laws::pending(
            #[trigger] system.tasks[i],
        ) matches Some(ip) ==> system.pool.fresh(ip))
    &&& forall|i: int, j: int|
        #![trigger system.tasks[i], system.tasks[j]]
        0 <= i < system.tasks.len() && 0 <= j < system.tasks.len() && i != j
            && crate::pool_laws::pending(system.tasks[i]) is Some ==> crate::pool_laws::pending(
            system.tasks[i],
        ) != crate::pool_laws::pending(system.tasks[j])
}

/// No task draws the address that another one is about to bind. While no
/// task is binding, any draw will do.
pub open spec fn draws_apart(system: System, subnet: Subnet, operation: Operation) -> bool {
    operation matches Operation::Step { index, event: PoolEvent::Drawn { random } } ==> (
    system.tasks[index] is Choosing ==> forall|j: int|
        0 <= j < system.tasks.len() ==> crate::pool_laws::pending(#[trigger] system.tasks[j])
            != Some(crate::pool::candidate(subnet, random)))
}

pub(crate) proof fn lemma_candidates(system: System, subnet: Subnet, operations: Seq<Operation>, m: int)
    requires
        candidates_apart(system),
        forall|k: int|
            0 <= k < operations.len() ==> {
                let before = crate::pool_laws::after_all(
                    system,
                    subnet,
                    #[trigger] operations.take(k),
                );
                crate::pool_laws::in_range(before, operations[k]) && draws_apart(
                    before,
                    subnet,
                    operations[k],
                )
            },
        0 <= m <= operations.len(),
    ensures
        ({
            let end = crate::pool_laws::after_all(system, subnet, operations.take(m));
            let bound = ever_bound(system, subnet, operations.take(m));
            &&& forall|ip: u128| #[trigger] bound.contains(ip) ==> !end.pool.fresh(ip)
            &&& forall|ip: u128| #[trigger] end.pool.active.contains(ip) ==> bound.contains(ip)
            &&& forall|i: int|
                0 <= i < end.tasks.len() ==> (crate::pool_laws::pending(
                    #[trigger] end.tasks[i],
                ) matches Some(ip) ==> !bound.contains(ip))
            &&& forall|i: int, j: int|
                #![trigger end.tasks[i], end.tasks[j]]
                0 <= i < end.tasks.len() && 0 <= j < end.tasks.len() && i != j
                    && crate::pool_laws::pending(end.tasks[i]) is Some ==> crate::pool_laws::pending(
                    end.tasks[i],
                ) != crate::pool_laws::pending(end.tasks[j])
        }),
    decreases m,
{
    if m > 0 {
        lemma_candidates(system, subnet, operations, m - 1);
        assert(operations.take(m).drop_last() =~= operations.take(m - 1));
        let before = crate::pool_laws::after_all(system, subnet, operations.take(m - 1));
        let next = crate::pool_laws::after_all(system, subnet, operations.take(m));
        let bound = ever_bound(system, subnet, operations.take(m - 1));
        match operations[m - 1] {
            Operation::Step { index, event } => {
                let task = before.tasks[index];
                assert(crate::pool_laws::in_range(before, operations[m - 1]));
                assert(draws_apart(before, subnet, operations[m - 1]));
                assert(forall|i: int|
                    0 <= i < next.tasks.len() && i != index ==> #[trigger] next.tasks[i]
                        == before.tasks[i]);
            },
            _ => {
                assert(forall|i: int|
                    0 <= i < before.tasks.len() ==> #[trigger] next.tasks[i] == before.tasks[i]);
            },
        }
    }
}

/// No address is bound twice, whatever is released, as long as no task draws
/// the address that another one is about to bind.
pub proof fn law_no_address_is_bound_twice(
    system: System,
    subnet: Subnet,
    operations: Seq<Operation>,
    k: int,
)
    requires
        candidates_apart(system),
        forall|j: int|
            0 <= j < operations.len() ==> {
                let before = crate::pool_laws::after_all(
                    system,
                    subnet,
                    #[trigger] operations.take(j),
                );
                crate::pool_laws::in_range(before, operations[j]) && draws_apart(
                    before,
                    subnet,
                    operations[j],
                )
            },
        0 <= k < operations.len(),
    ensures
        binds_anew(system, subnet, operations, k),
{
    lemma_candidates(system, subnet, operations, k);
    let before = crate::pool_laws::after_all(system, subnet, operations.take(k));
    assert(crate::pool_laws::in_range(before, operations[k]));
}

/// No address is handed out twice: two leases of one pool, however far apart
/// and whatever is released in between, give different addresses. All that
/// is asked for is that no task draws the address that another one is about
/// to bind, which the bookkeeping by itself does not rule out.
pub proof fn law_no_address_is_leased_twice(
    system: System,
    subnet: Subnet,
    operations: Seq<Operation>,
    k: int,
    m: int,
)
    requires
        crate::pool_laws::in_order(system.pool),
        candidates_apart(system),
        forall|j: int|
            0 <= j < operations.len() ==> {
                let before = crate::pool_laws::after_all(
                    system,
                    subnet,
                    #[trigger] operations.take(j),
                );
                crate::pool_laws::in_range(before, operations[j]) && draws_apart(
                    before,
                    subnet,
                    operations[j],
                )
            },
        0 <= k < m < operations.len(),
        crate::pool_laws::leased_at(system, subnet, operations, k) is Some,
    ensures
        crate::pool_laws::leased_at(system, subnet, operations, m) != crate::pool_laws::leased_at(
            system,
            subnet,
            operations,
            k,
        ),
{
    assert forall|j: int| 0 <= j < operations.len() implies #[trigger] binds_anew(
        system,
        subnet,
        operations,
        j,
    ) by {
        law_no_address_is_bound_twice(system, subnet, operations, j);
    }
    law_leased_twice_only_if_bound_twice(system, subnet, operations, k, m);
}

/// A new pool meets what the laws on leases ask for at the start.
pub proof fn law_new_pool_has_no_candidates(count: nat)
    ensures
        crate::pool_laws::in_order(crate::pool_laws::new_system(count).pool),
        candidates_apart(crate::pool_laws::new_system(count)),
{
}

proof fn lemma_distinct_candidates(
    system: System,
    subnet: Subnet,
    operations: Seq<Operation>,
    m: int,
)
    requires
        subnet.prefix_len <= 128,
        crate::pool_laws::sound(system, subnet),
        candidates_apart(system),
        forall|k: int|
            0 <= k < operations.len() ==> {
                let before = crate::pool_laws::after_all(
                    system,
                    subnet,
                    #[trigger] operations.take(k),
                );
                &&& crate::pool_laws::in_range(before, operations[k])
                &&& crate::pool_laws::releases_held(before, operations[k])
                &&& draws_apart(before, subnet, operations[k])
            },
        0 <= m <= operations.len(),
    ensures
        ({
            let end = crate::pool_laws::after_all(system, subnet, operations.take(m));
            &&& crate::pool_laws::sound(end, subnet)
            &&& candidates_apart(end)
            &&& m < operations.len() ==> crate::pool_laws::possible(end, operations[m])
        }),
    decreases m,
{
    if m > 0 {
        lemma_distinct_candidates(system, subnet, operations, m - 1);
        assert(operations.take(m).drop_last() =~= operations.take(m - 1));
        let before = crate::pool_laws::after_all(system, subnet, operations.take(m - 1));
        let next = crate::pool_laws::after_all(system, subnet, operations.take(m));
        let operation = operations[m - 1];
        crate::pool_laws::law_operations_keep_soundness(before, subnet, operation);
        lemma_candidates(system, subnet, operations, m);
        assert forall|i: int|
            0 <= i < next.tasks.len() implies (crate::pool_laws::pending(
            #[trigger] next.tasks[i],
        ) matches Some(ip) ==> next.pool.fresh(ip)) by {
            if let Some(ip) = crate::pool_laws::pending(next.tasks[i]) {
                if i < before.tasks.len() && next.tasks[i] == before.tasks[i] {
                    assert(before.pool.fresh(ip));
                    if crate::pool_laws::binds(before, operation) != Some(ip) {
                        crate::pool_laws::law_candidate_stays_fresh(before, subnet, operation, ip);
                    }
                }
            }
        }
    }
    let end = crate::pool_laws::after_all(system, subnet, operations.take(m));
    if m < operations.len() {
        assert(crate::pool_laws::in_range(end, operations[m]));
    }
}

/// Where only held addresses are released, and no task draws the address that
/// another one is about to bind, every operation is possible: whatever is
/// bound is still fresh.
pub proof fn law_distinct_candidates_are_fresh_when_bound(
    system: System,
    subnet: Subnet,
    operations: Seq<Operation>,
)
    requires
        subnet.prefix_len <= 128,
        crate::pool_laws::sound(system, subnet),
        candidates_apart(system),
        forall|k: int|
            0 <= k < operations.len() ==> {
                let before = crate::pool_laws::after_all(
                    system,
                    subnet,
                    #[trigger] operations.take(k),
                );
                &&& crate::pool_laws::in_range(before, operations[k])
                &&& crate::pool_laws::releases_held(before, operations[k])
                &&& draws_apart(before, subnet, operations[k])
            },
    ensures
        crate::pool_laws::all_possible(system, subnet, operations),
{
    assert forall|k: int| 0 <= k < operations.len() implies crate::pool_laws::possible(
        crate::pool_laws::after_all(system, subnet, #[trigger] operations.take(k)),
        operations[k],
    ) by {
        lemma_distinct_candidates(system, subnet, operations, k);
    }
}

} // verus!
