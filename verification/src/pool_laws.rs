//! What holds of a pool on which several tasks and clients work.

use crate::pool::{PoolEvent, PoolTask, PoolView, MAX_ATTEMPTS};
use crate::subnet::Subnet;
use vstd::prelude::*;

verus! {

/// A pool, the tasks that work on it, and the addresses of the pool that are
/// on the interface.
pub struct System {
    pub pool: PoolView,
    pub tasks: Seq<PoolTask>,
    pub bound: Set<u128>,
}

/// What can happen to a system.
pub enum Operation {
    /// A client asks for an address.
    Lease,
    /// A client is done with an address.
    Release { ip: u128 },
    /// A task takes in what came of its action.
    Step { index: int, event: PoolEvent },
}

/// The address that a task is recycling.
pub open spec fn recycled(task: PoolTask) -> Option<u128> {
    match task {
        PoolTask::Cooling { ip } => Some(ip),
        PoolTask::Deleting { ip } => Some(ip),
        _ => None,
    }
}

/// The address that a task is binding.
pub open spec fn pending(task: PoolTask) -> Option<u128> {
    match task {
        PoolTask::Adding { ip, failed: _, more: _ } => Some(ip),
        _ => None,
    }
}

/// The addresses on the interface after a task's command.
pub open spec fn bound_after(task: PoolTask, event: PoolEvent, bound: Set<u128>) -> Set<u128> {
    match (task, event) {
        (
            PoolTask::Adding { ip, failed: _, more: _ },
            PoolEvent::CommandDone { success: true },
        ) => bound.insert(ip),
        (PoolTask::Deleting { ip }, PoolEvent::CommandDone { success: true }) => bound.remove(ip),
        _ => bound,
    }
}

/// The address that an operation adds to the pool.
pub open spec fn binds(system: System, operation: Operation) -> Option<u128> {
    match operation {
        Operation::Step { index, event: PoolEvent::CommandDone { success: true } } => pending(
            system.tasks[index],
        ),
        _ => None,
    }
}

/// The system after an operation.
pub open spec fn after(system: System, subnet: Subnet, operation: Operation) -> System {
    match operation {
        Operation::Lease => System { pool: system.pool.take_last(), ..system },
        Operation::Release { ip } => System {
            tasks: system.tasks.push(PoolTask::Cooling { ip }),
            ..system
        },
        Operation::Step { index, event } => {
            let (task, pool) = crate::pool::step(system.tasks[index], system.pool, subnet, event);
            System {
                pool,
                tasks: system.tasks.update(index, task),
                bound: bound_after(system.tasks[index], event, system.bound),
            }
        },
    }
}

/// The operation is no step of a task that there is not.
pub open spec fn in_range(system: System, operation: Operation) -> bool {
    operation matches Operation::Step { index, event } ==> 0 <= index < system.tasks.len()
}

/// Only an address that is held is released, and only once.
pub open spec fn releases_held(system: System, operation: Operation) -> bool {
    operation matches Operation::Release { ip } ==> {
        &&& system.pool.leased(ip)
        &&& forall|i: int|
            0 <= i < system.tasks.len() ==> recycled(#[trigger] system.tasks[i]) != Some(ip)
    }
}

/// The operation can happen: only an address that is held is released, and
/// only once; and an address is bound only if it was not bound since it was
/// drawn.
pub open spec fn possible(system: System, operation: Operation) -> bool {
    &&& in_range(system, operation)
    &&& releases_held(system, operation)
    &&& binds(system, operation) matches Some(ip) ==> system.pool.fresh(ip)
}

/// The operation leaves the bookkeeping in order: only an address that is
/// held is released, and only once; and no address is bound that is bound
/// already. It may have been bound before and given up since.
pub open spec fn orderly(system: System, operation: Operation) -> bool {
    &&& in_range(system, operation)
    &&& releases_held(system, operation)
    &&& binds(system, operation) matches Some(ip) ==> !system.pool.active.contains(ip)
}

/// No address can be leased twice, and every address that can be leased is
/// bound.
pub open spec fn in_order(pool: PoolView) -> bool {
    &&& pool.active.finite()
    &&& pool.available.no_duplicates()
    &&& forall|i: int|
        0 <= i < pool.available.len() ==> pool.active.contains(#[trigger] pool.available[i])
}

/// The bookkeeping is in order, and an address that is being recycled is held
/// by no one else, not by another task either.
pub open spec fn consistent(system: System) -> bool {
    &&& in_order(system.pool)
    &&& forall|i: int|
        0 <= i < system.tasks.len() ==> (recycled(#[trigger] system.tasks[i]) matches Some(ip)
            ==> system.pool.leased(ip))
    &&& forall|i: int, j: int|
        #![trigger system.tasks[i], system.tasks[j]]
        0 <= i < j < system.tasks.len() && recycled(system.tasks[i]) is Some ==> recycled(
            system.tasks[i],
        ) != recycled(system.tasks[j])
}

/// What holds at all times: the bookkeeping is sound; every bound address
/// lies in the network, and so does one that is being bound; an address that
/// is being recycled is held by no one else, not by another task either; the
/// interface has the active addresses and, besides them, at most addresses
/// that were given up.
pub open spec fn sound(system: System, subnet: Subnet) -> bool {
    &&& system.pool.well_formed()
    &&& forall|ip: u128| #[trigger]
        system.pool.active.contains(ip) ==> subnet.contains(ip) && system.bound.contains(ip)
    &&& forall|ip: u128| #[trigger]
        system.bound.contains(ip) ==> !system.pool.fresh(ip)
    &&& forall|i: int|
        #![trigger system.tasks[i]]
        0 <= i < system.tasks.len() ==> {
            &&& recycled(system.tasks[i]) matches Some(ip) ==> system.pool.leased(ip)
            &&& pending(system.tasks[i]) matches Some(ip) ==> subnet.contains(ip)
        }
    &&& forall|i: int, j: int|
        #![trigger system.tasks[i], system.tasks[j]]
        0 <= i < j < system.tasks.len() && recycled(system.tasks[i]) is Some ==> recycled(
            system.tasks[i],
        ) != recycled(system.tasks[j])
}

/// An empty pool with the task that fills it.
pub open spec fn new_system(count: nat) -> System {
    System {
        pool: PoolView::empty(),
        tasks: seq![crate::pool::filling(count)],
        bound: Set::empty(),
    }
}

/// An empty pool with the task that fills it is sound.
pub proof fn law_new_pool_is_sound(subnet: Subnet, count: nat)
    ensures
        sound(new_system(count), subnet),
{
}

/// Every possible operation keeps a system sound.
pub proof fn law_operations_keep_soundness(system: System, subnet: Subnet, operation: Operation)
    requires
        subnet.prefix_len <= 128,
        sound(system, subnet),
        possible(system, operation),
    ensures
        sound(after(system, subnet, operation), subnet),
{
    let next = after(system, subnet, operation);
    match operation {
        Operation::Lease => {
            if system.pool.available.len() > 0 {
                let available = system.pool.available;
                assert forall|i: int| 0 <= i < next.pool.available.len() implies next.pool.active.contains(
                    #[trigger] next.pool.available[i],
                ) by {
                    assert(next.pool.available[i] == available[i]);
                }
                assert forall|ip: u128| system.pool.leased(ip) implies #[trigger] next.pool.leased(
                    ip,
                ) by {
                    if next.pool.available.contains(ip) {
                        let i = next.pool.available.index_of(ip);
                        assert(available[i] == ip);
                    }
                }
            }
        },
        Operation::Release { ip } => {},
        Operation::Step { index, event } => {
            let task = system.tasks[index];
            match (task, event) {
                (PoolTask::Deleting { ip }, PoolEvent::CommandDone { success: _ }) => {
                    assert(recycled(task) == Some(ip));
                    assert forall|i: int|
                        0 <= i < next.pool.available.len() implies next.pool.active.contains(
                        #[trigger] next.pool.available[i],
                    ) by {
                        assert(system.pool.available.contains(system.pool.available[i]));
                    }
                },
                (PoolTask::Choosing { failed: _, more: _ }, PoolEvent::Drawn { random }) => {
                    crate::subnet::law_spliced_address_stays_in_network(
                        subnet.address,
                        subnet.prefix_len,
                        random,
                    );
                },
                (
                    PoolTask::Adding { ip, failed: _, more: _ },
                    PoolEvent::CommandDone { success: true },
                ) => {
                    assert(pending(task) == Some(ip));
                    assert(!system.pool.available.contains(ip));
                    assert forall|other: u128| system.pool.leased(other) implies #[trigger] next.pool.leased(
                        other,
                    ) by {
                        if next.pool.available.contains(other) {
                            let i = next.pool.available.index_of(other);
                            if i < system.pool.available.len() {
                                assert(system.pool.available[i] == other);
                            }
                        }
                    }
                },
                _ => {},
            }
        },
    }
}

/// The system after a sequence of operations.
pub open spec fn after_all(system: System, subnet: Subnet, operations: Seq<Operation>) -> System
    decreases operations.len(),
{
    if operations.len() == 0 {
        system
    } else {
        after(after_all(system, subnet, operations.drop_last()), subnet, operations.last())
    }
}

/// Each operation of the sequence can happen when its turn comes.
pub open spec fn all_possible(system: System, subnet: Subnet, operations: Seq<Operation>) -> bool {
    forall|k: int|
        0 <= k < operations.len() ==> possible(
            after_all(system, subnet, #[trigger] operations.take(k)),
            operations[k],
        )
}

/// The address that the operation at this place of the sequence hands out.
pub open spec fn leased_at(
    system: System,
    subnet: Subnet,
    operations: Seq<Operation>,
    k: int,
) -> Option<u128> {
    if operations[k] is Lease {
        after_all(system, subnet, operations.take(k)).pool.last()
    } else {
        None
    }
}

proof fn lemma_all_possible_before(
    system: System,
    subnet: Subnet,
    operations: Seq<Operation>,
    n: int,
)
    requires
        all_possible(system, subnet, operations),
        0 <= n <= operations.len(),
    ensures
        all_possible(system, subnet, operations.take(n)),
{
    assert forall|k: int| 0 <= k < n implies possible(
        after_all(system, subnet, #[trigger] operations.take(n).take(k)),
        operations.take(n)[k],
    ) by {
        assert(operations.take(n).take(k) =~= operations.take(k));
    }
}

/// A sound system stays sound in the course of possible operations.
pub proof fn law_soundness_lasts(system: System, subnet: Subnet, operations: Seq<Operation>)
    requires
        subnet.prefix_len <= 128,
        sound(system, subnet),
        all_possible(system, subnet, operations),
    ensures
        sound(after_all(system, subnet, operations), subnet),
    decreases operations.len(),
{
    if operations.len() > 0 {
        let n = operations.len() - 1;
        assert(operations.take(n) =~= operations.drop_last());
        lemma_all_possible_before(system, subnet, operations, n);
        law_soundness_lasts(system, subnet, operations.drop_last());
        law_operations_keep_soundness(
            after_all(system, subnet, operations.drop_last()),
            subnet,
            operations.last(),
        );
    }
}

/// A candidate stays fresh until it is bound, so a binding meets an address
/// that was bound before only if two tasks drew the same one.
pub proof fn law_candidate_stays_fresh(
    system: System,
    subnet: Subnet,
    operation: Operation,
    ip: u128,
)
    requires
        sound(system, subnet),
        possible(system, operation),
        system.pool.fresh(ip),
        binds(system, operation) != Some(ip),
    ensures
        after(system, subnet, operation).pool.fresh(ip),
{
    if let Operation::Step { index, event } = operation {
        assert(recycled(system.tasks[index]) != Some(ip));
    }
}

/// Orderly operations keep a system consistent.
pub proof fn law_orderly_operations_keep_consistency(
    system: System,
    subnet: Subnet,
    operation: Operation,
)
    requires
        consistent(system),
        orderly(system, operation),
    ensures
        consistent(after(system, subnet, operation)),
{
    let next = after(system, subnet, operation);
    let available = system.pool.available;
    assert forall|i: int| 0 <= i < next.pool.available.len() implies next.pool.active.contains(
        #[trigger] next.pool.available[i],
    ) by {
        if i < available.len() {
            assert(next.pool.available[i] == available[i]);
            assert(available.contains(available[i]));
            if let Operation::Step { index, event } = operation {
                assert(recycled(system.tasks[index]) matches Some(ip) ==> system.pool.leased(ip));
            }
        }
    }
    assert(binds(system, operation) matches Some(ip) ==> !available.contains(ip));
    assert forall|ip: u128|
        system.pool.leased(ip) && next.pool.active.contains(ip) implies #[trigger] next.pool.leased(
        ip,
    ) by {
        if next.pool.available.contains(ip) {
            let i = next.pool.available.index_of(ip);
            if i < available.len() {
                assert(available[i] == ip);
            }
        }
    }
    match operation {
        Operation::Step { index, event } => {
            assert(forall|i: int|
                0 <= i < next.tasks.len() && i != index ==> #[trigger] next.tasks[i]
                    == system.tasks[i]);
            assert(recycled(next.tasks[index]) matches Some(ip) ==> recycled(system.tasks[index])
                == Some(ip));
        },
        _ => {},
    }
}

/// A consistent system stays so in the course of orderly operations.
pub proof fn law_consistency_lasts(
    system: System,
    subnet: Subnet,
    operations: Seq<Operation>,
    m: int,
)
    requires
        consistent(system),
        forall|k: int|
            0 <= k < operations.len() ==> orderly(
                after_all(system, subnet, #[trigger] operations.take(k)),
                operations[k],
            ),
        0 <= m <= operations.len(),
    ensures
        consistent(after_all(system, subnet, operations.take(m))),
    decreases m,
{
    if m > 0 {
        law_consistency_lasts(system, subnet, operations, m - 1);
        assert(operations.take(m).drop_last() =~= operations.take(m - 1));
        law_orderly_operations_keep_consistency(
            after_all(system, subnet, operations.take(m - 1)),
            subnet,
            operations[m - 1],
        );
    }
}

proof fn lemma_active_is_bound(system: System, subnet: Subnet, operations: Seq<Operation>, m: int)
    requires
        subnet.prefix_len <= 128,
        sound(system, subnet),
        forall|k: int|
            0 <= k < operations.len() ==> in_range(
                after_all(system, subnet, #[trigger] operations.take(k)),
                operations[k],
            ),
        0 <= m <= operations.len(),
    ensures
        ({
            let end = after_all(system, subnet, operations.take(m));
            &&& forall|ip: u128| #[trigger]
                end.pool.active.contains(ip) ==> subnet.contains(ip) && end.bound.contains(ip)
            &&& forall|i: int|
                0 <= i < end.tasks.len() ==> (pending(#[trigger] end.tasks[i]) matches Some(ip)
                    ==> subnet.contains(ip))
        }),
    decreases m,
{
    if m > 0 {
        lemma_active_is_bound(system, subnet, operations, m - 1);
        assert(operations.take(m).drop_last() =~= operations.take(m - 1));
        let before = after_all(system, subnet, operations.take(m - 1));
        assert(in_range(before, operations[m - 1]));
        if let Operation::Step { index, event } = operations[m - 1] {
            if let PoolEvent::Drawn { random } = event {
                crate::subnet::law_spliced_address_stays_in_network(
                    subnet.address,
                    subnet.prefix_len,
                    random,
                );
            }
            assert(pending(before.tasks[index]) matches Some(ip) ==> subnet.contains(ip));
        }
    }
}

/// Every address that is handed out lies in the network and is on the
/// interface.
pub proof fn law_leased_address_is_bound(
    system: System,
    subnet: Subnet,
    operations: Seq<Operation>,
    k: int,
)
    requires
        subnet.prefix_len <= 128,
        sound(system, subnet),
        forall|j: int|
            0 <= j < operations.len() ==> orderly(
                after_all(system, subnet, #[trigger] operations.take(j)),
                operations[j],
            ),
        0 <= k < operations.len(),
    ensures
        leased_at(system, subnet, operations, k) matches Some(ip) ==> subnet.contains(ip)
            && after_all(system, subnet, operations.take(k)).bound.contains(ip),
{
    law_consistency_lasts(system, subnet, operations, k);
    lemma_active_is_bound(system, subnet, operations, k);
    let before = after_all(system, subnet, operations.take(k)).pool;
    if before.available.len() > 0 {
        assert(before.active.contains(before.available[before.available.len() - 1]));
    }
}

/// How many addresses a task still has to bind.
pub open spec fn owed(task: PoolTask) -> nat {
    match task {
        PoolTask::Choosing { failed: _, more } => 1 + more as nat,
        PoolTask::Adding { ip: _, failed: _, more } => 1 + more as nat,
        _ => 0,
    }
}

/// A step that does not give up brings in one address for each one that it
/// takes out or was asked for.
proof fn lemma_size_is_kept(task: PoolTask, pool: PoolView, subnet: Subnet, event: PoolEvent)
    requires
        pool.active.finite(),
        recycled(task) matches Some(ip) ==> pool.active.contains(ip),
        event == (PoolEvent::CommandDone { success: true }) ==> (pending(task) matches Some(ip)
            ==> !pool.active.contains(ip)),
        crate::pool::step(task, pool, subnet, event).0 !is GaveUp,
    ensures
        ({
            let (next, after) = crate::pool::step(task, pool, subnet, event);
            after.active.len() + owed(next) == pool.active.len() + owed(task)
        }),
{
}

/// How many addresses the tasks still have to bind.
pub open spec fn all_owed(tasks: Seq<PoolTask>) -> nat
    decreases tasks.len(),
{
    if tasks.len() == 0 {
        0
    } else {
        all_owed(tasks.drop_last()) + owed(tasks.last())
    }
}

proof fn lemma_all_owed_update(tasks: Seq<PoolTask>, index: int, task: PoolTask)
    requires
        0 <= index < tasks.len(),
    ensures
        all_owed(tasks.update(index, task)) + owed(tasks[index]) == all_owed(tasks) + owed(task),
    decreases tasks.len(),
{
    let changed = tasks.update(index, task);
    if index == tasks.len() - 1 {
        assert(changed.drop_last() =~= tasks.drop_last());
    } else {
        lemma_all_owed_update(tasks.drop_last(), index, task);
        assert(changed.drop_last() =~= tasks.drop_last().update(index, task));
    }
}

/// The operation does not make a task give up.
pub open spec fn goes_on(system: System, subnet: Subnet, operation: Operation) -> bool {
    operation matches Operation::Step { index, event } ==> crate::pool::step(
        system.tasks[index],
        system.pool,
        subnet,
        event,
    ).0 !is GaveUp
}

proof fn lemma_pool_keeps_its_size(
    system: System,
    subnet: Subnet,
    operations: Seq<Operation>,
    m: int,
)
    requires
        consistent(system),
        forall|k: int|
            0 <= k < operations.len() ==> {
                let before = after_all(system, subnet, #[trigger] operations.take(k));
                orderly(before, operations[k]) && goes_on(before, subnet, operations[k])
            },
        0 <= m <= operations.len(),
    ensures
        ({
            let end = after_all(system, subnet, operations.take(m));
            end.pool.active.len() + all_owed(end.tasks) == system.pool.active.len() + all_owed(
                system.tasks,
            )
        }),
    decreases m,
{
    if m > 0 {
        lemma_pool_keeps_its_size(system, subnet, operations, m - 1);
        law_consistency_lasts(system, subnet, operations, m - 1);
        assert(operations.take(m).drop_last() =~= operations.take(m - 1));
        let before = after_all(system, subnet, operations.take(m - 1));
        match operations[m - 1] {
            Operation::Lease => {},
            Operation::Release { ip } => {
                let tasks = before.tasks.push(PoolTask::Cooling { ip });
                assert(tasks.drop_last() =~= before.tasks);
            },
            Operation::Step { index, event } => {
                let task = before.tasks[index];
                let (next, _) = crate::pool::step(task, before.pool, subnet, event);
                lemma_all_owed_update(before.tasks, index, next);
                lemma_size_is_kept(task, before.pool, subnet, event);
            },
        }
    }
}

/// As long as no task gives up, the bound addresses and those that are still
/// to be bound are as many as at the beginning.
pub proof fn law_pool_keeps_its_size(system: System, subnet: Subnet, operations: Seq<Operation>)
    requires
        consistent(system),
        forall|k: int|
            0 <= k < operations.len() ==> {
                let before = after_all(system, subnet, #[trigger] operations.take(k));
                orderly(before, operations[k]) && goes_on(before, subnet, operations[k])
            },
    ensures
        ({
            let end = after_all(system, subnet, operations);
            end.pool.active.len() + all_owed(end.tasks) == system.pool.active.len() + all_owed(
                system.tasks,
            )
        }),
{
    lemma_pool_keeps_its_size(system, subnet, operations, operations.len() as int);
    assert(operations.take(operations.len() as int) =~= operations);
}

/// A step makes a task give up only if a command failed.
pub proof fn law_success_never_gives_up(
    task: PoolTask,
    pool: PoolView,
    subnet: Subnet,
    event: PoolEvent,
)
    requires
        task !is GaveUp,
        event != (PoolEvent::CommandDone { success: false }),
    ensures
        crate::pool::step(task, pool, subnet, event).0 !is GaveUp,
{
}

/// The bound addresses that cannot be leased: they are in the hands of a
/// client or of their release.
pub open spec fn held(pool: PoolView) -> Set<u128> {
    pool.active.difference(pool.available.to_set())
}

/// How many of the operations handed out an address.
pub open spec fn handed_out(system: System, subnet: Subnet, operations: Seq<Operation>) -> nat
    decreases operations.len(),
{
    if operations.len() == 0 {
        0
    } else {
        let earlier = operations.drop_last();
        let before = after_all(system, subnet, earlier);
        handed_out(system, subnet, earlier) + if operations.last() is Lease
            && before.pool.last() is Some {
            1nat
        } else {
            0
        }
    }
}

/// The operation gives up an address that was handed out.
pub open spec fn gives_up(system: System, operation: Operation) -> bool {
    operation matches Operation::Step { index, event } && system.tasks[index] is Deleting
        && event is CommandDone
}

/// How many of the operations gave up an address.
pub open spec fn given_up(system: System, subnet: Subnet, operations: Seq<Operation>) -> nat
    decreases operations.len(),
{
    if operations.len() == 0 {
        0
    } else {
        let earlier = operations.drop_last();
        let before = after_all(system, subnet, earlier);
        given_up(system, subnet, earlier) + if gives_up(before, operations.last()) {
            1nat
        } else {
            0
        }
    }
}

/// The bound addresses are those for lease and those that are held.
proof fn lemma_leasable_or_held(pool: PoolView)
    requires
        in_order(pool),
    ensures
        pool.active == pool.available.to_set().union(held(pool)),
        held(pool).finite(),
        pool.active.len() == pool.available.len() + held(pool).len(),
{
    let leasable = pool.available.to_set();
    vstd::seq_lib::seq_to_set_is_finite(pool.available);
    pool.available.unique_seq_to_set();
    assert forall|ip: u128| leasable.contains(ip) implies pool.active.contains(ip) by {
        let i = pool.available.index_of(ip);
        assert(pool.active.contains(pool.available[i]));
    }
    assert(pool.active.intersect(leasable) =~= leasable);
    vstd::set_lib::lemma_set_difference_len(pool.active, leasable);
}

/// What can be leased and what is held make up the active pool, and no
/// address is in it twice.
pub proof fn law_leasable_and_held_make_up_the_active_pool(
    system: System,
    subnet: Subnet,
    operations: Seq<Operation>,
)
    requires
        consistent(system),
        forall|k: int|
            0 <= k < operations.len() ==> orderly(
                after_all(system, subnet, #[trigger] operations.take(k)),
                operations[k],
            ),
    ensures
        ({
            let pool = after_all(system, subnet, operations).pool;
            &&& pool.active == pool.available.to_set().union(held(pool))
            &&& pool.active.len() == pool.available.len() + held(pool).len()
            &&& pool.available.no_duplicates()
        }),
{
    law_consistency_lasts(system, subnet, operations, operations.len() as int);
    assert(operations.take(operations.len() as int) =~= operations);
    lemma_leasable_or_held(after_all(system, subnet, operations).pool);
}

/// One operation changes what is held by what it hands out and gives up.
proof fn lemma_held_after(system: System, subnet: Subnet, operation: Operation)
    requires
        consistent(system),
        orderly(system, operation),
    ensures
        ({
            let next = after(system, subnet, operation);
            let more: nat = if operation is Lease && system.pool.last() is Some {
                1
            } else {
                0
            };
            let less: nat = if gives_up(system, operation) {
                1
            } else {
                0
            };
            held(next.pool).len() + less == held(system.pool).len() + more
        }),
{
    let next = after(system, subnet, operation);
    law_orderly_operations_keep_consistency(system, subnet, operation);
    lemma_leasable_or_held(system.pool);
    lemma_leasable_or_held(next.pool);
    if let Operation::Step { index, event } = operation {
        let task = system.tasks[index];
        assert(recycled(task) matches Some(ip) ==> system.pool.leased(ip));
    }
}

proof fn lemma_held(system: System, subnet: Subnet, operations: Seq<Operation>, m: int)
    requires
        consistent(system),
        forall|k: int|
            0 <= k < operations.len() ==> orderly(
                after_all(system, subnet, #[trigger] operations.take(k)),
                operations[k],
            ),
        0 <= m <= operations.len(),
    ensures
        held(after_all(system, subnet, operations.take(m)).pool).len() + given_up(
            system,
            subnet,
            operations.take(m),
        ) == held(system.pool).len() + handed_out(system, subnet, operations.take(m)),
    decreases m,
{
    if m > 0 {
        lemma_held(system, subnet, operations, m - 1);
        law_consistency_lasts(system, subnet, operations, m - 1);
        assert(operations.take(m).drop_last() =~= operations.take(m - 1));
        let before = after_all(system, subnet, operations.take(m - 1));
        lemma_held_after(before, subnet, operations[m - 1]);
    }
}

/// The addresses of a pool that are held are as many as were handed out and
/// not given up since.
pub proof fn law_held_addresses_were_handed_out(
    subnet: Subnet,
    count: usize,
    operations: Seq<Operation>,
)
    requires
        forall|k: int|
            0 <= k < operations.len() ==> orderly(
                after_all(new_system(count as nat), subnet, #[trigger] operations.take(k)),
                operations[k],
            ),
    ensures
        ({
            let start = new_system(count as nat);
            held(after_all(start, subnet, operations).pool).len() == handed_out(
                start,
                subnet,
                operations,
            ) - given_up(start, subnet, operations)
        }),
{
    let start = new_system(count as nat);
    lemma_held(start, subnet, operations, operations.len() as int);
    assert(operations.take(operations.len() as int) =~= operations);
    lemma_leasable_or_held(start.pool);
}

proof fn lemma_leasable_size(subnet: Subnet, count: usize, operations: Seq<Operation>, m: int)
    requires
        forall|k: int|
            0 <= k < operations.len() ==> {
                let before = after_all(
                    new_system(count as nat),
                    subnet,
                    #[trigger] operations.take(k),
                );
                in_range(before, operations[k]) && goes_on(before, subnet, operations[k])
            },
        0 <= m <= operations.len(),
    ensures
        ({
            let start = new_system(count as nat);
            let end = after_all(start, subnet, operations.take(m));
            end.pool.available.len() + handed_out(start, subnet, operations.take(m)) - given_up(
                start,
                subnet,
                operations.take(m),
            ) + all_owed(end.tasks) == count
        }),
    decreases m,
{
    let start = new_system(count as nat);
    if m == 0 {
        reveal_with_fuel(all_owed, 2);
        assert(start.tasks.drop_last() =~= Seq::<PoolTask>::empty());
    } else {
        lemma_leasable_size(subnet, count, operations, m - 1);
        assert(operations.take(m).drop_last() =~= operations.take(m - 1));
        let before = after_all(start, subnet, operations.take(m - 1));
        match operations[m - 1] {
            Operation::Lease => {},
            Operation::Release { ip } => {
                let tasks = before.tasks.push(PoolTask::Cooling { ip });
                assert(tasks.drop_last() =~= before.tasks);
            },
            Operation::Step { index, event } => {
                let (next, _) = crate::pool::step(before.tasks[index], before.pool, subnet, event);
                lemma_all_owed_update(before.tasks, index, next);
            },
        }
    }
}

/// As long as no task gives up, and none does while its commands succeed, the
/// addresses of a pool that can be leased, those that were handed out and not
/// given up since, and those that are still to be bound are together as many
/// as the pool was made for, whatever is released.
pub proof fn law_leasable_addresses_make_up_the_size(
    subnet: Subnet,
    count: usize,
    operations: Seq<Operation>,
)
    requires
        forall|k: int|
            0 <= k < operations.len() ==> {
                let before = after_all(
                    new_system(count as nat),
                    subnet,
                    #[trigger] operations.take(k),
                );
                in_range(before, operations[k]) && goes_on(before, subnet, operations[k])
            },
    ensures
        ({
            let start = new_system(count as nat);
            let end = after_all(start, subnet, operations);
            end.pool.available.len() + handed_out(start, subnet, operations) - given_up(
                start,
                subnet,
                operations,
            ) + all_owed(end.tasks) == count
        }),
{
    lemma_leasable_size(subnet, count, operations, operations.len() as int);
    assert(operations.take(operations.len() as int) =~= operations);
}

/// The task and the pool after a sequence of events.
pub open spec fn after_events(
    task: PoolTask,
    pool: PoolView,
    subnet: Subnet,
    events: Seq<PoolEvent>,
) -> (PoolTask, PoolView)
    decreases events.len(),
{
    if events.len() == 0 {
        (task, pool)
    } else {
        let (before, there) = after_events(task, pool, subnet, events.drop_last());
        crate::pool::step(before, there, subnet, events.last())
    }
}

/// A task that has filled a pool leaves in it as many addresses as it was
/// asked for, no two alike, all in the network and all for lease. It has bound
/// these and no others, each by one command that succeeded, and given up none.
pub proof fn law_filled_pool_has_its_size(subnet: Subnet, count: usize, events: Seq<PoolEvent>)
    requires
        subnet.prefix_len <= 128,
    ensures
        ({
            let (task, pool) = after_events(
                crate::pool::filling(count as nat),
                PoolView::empty(),
                subnet,
                events,
            );
            task is Finished ==> {
                &&& pool.available.len() == count
                &&& pool.active.len() == count
                &&& pool.active == pool.available.to_set()
                &&& pool.used == Set::<u128>::empty()
                &&& bindings(
                    crate::pool::filling(count as nat),
                    PoolView::empty(),
                    subnet,
                    events,
                    true,
                ) == count
                &&& pool.available.no_duplicates()
                &&& forall|i: int|
                    0 <= i < pool.available.len() ==> subnet.contains(#[trigger] pool.available[i])
            }
        }),
{
    lemma_filling(subnet, count, events);
    let (task, pool) = after_events(
        crate::pool::filling(count as nat),
        PoolView::empty(),
        subnet,
        events,
    );
    if task is Finished {
        assert forall|i: int| 0 <= i < pool.available.len() implies subnet.contains(
            #[trigger] pool.available[i],
        ) by {
            assert(pool.active.contains(pool.available[i]));
        }
    }
}

proof fn lemma_filling(subnet: Subnet, count: usize, events: Seq<PoolEvent>)
    requires
        subnet.prefix_len <= 128,
    ensures
        ({
            let (task, pool) = after_events(
                crate::pool::filling(count as nat),
                PoolView::empty(),
                subnet,
                events,
            );
            &&& recycled(task) is None
            &&& pending(task) matches Some(ip) ==> pool.fresh(ip) && subnet.contains(ip)
            &&& pool.well_formed()
            &&& forall|ip: u128| #[trigger] pool.active.contains(ip) ==> subnet.contains(ip)
            &&& pool.available.len() == pool.active.len()
            &&& pool.active =~= pool.available.to_set()
            &&& pool.used == Set::<u128>::empty()
            &&& bindings(
                crate::pool::filling(count as nat),
                PoolView::empty(),
                subnet,
                events,
                true,
            ) == pool.available.len()
            &&& task !is GaveUp ==> pool.active.len() + owed(task) == count
        }),
    decreases events.len(),
{
    if events.len() > 0 {
        let earlier = events.drop_last();
        lemma_filling(subnet, count, earlier);
        let (task, pool) = after_events(
            crate::pool::filling(count as nat),
            PoolView::empty(),
            subnet,
            earlier,
        );
        let (next, there) = crate::pool::step(task, pool, subnet, events.last());
        if next !is GaveUp {
            lemma_size_is_kept(task, pool, subnet, events.last());
        }
        if let Some(ip) = pending(task) {
            pool.available.lemma_push_to_set_commute(ip);
        }
        match events.last() {
            PoolEvent::Drawn { random } => {
                crate::subnet::law_spliced_address_stays_in_network(
                    subnet.address,
                    subnet.prefix_len,
                    random,
                );
            },
            _ => {
                if let Some(ip) = pending(task) {
                    assert(!pool.available.contains(ip));
                }
            },
        }
    }
}

/// How many of the events are commands that ended in this way while the task
/// was binding an address.
pub open spec fn bindings(
    task: PoolTask,
    pool: PoolView,
    subnet: Subnet,
    events: Seq<PoolEvent>,
    success: bool,
) -> nat
    decreases events.len(),
{
    if events.len() == 0 {
        0
    } else {
        let earlier = events.drop_last();
        let (before, _) = after_events(task, pool, subnet, earlier);
        bindings(task, pool, subnet, earlier, success) + if before is Adding && events.last()
            == (PoolEvent::CommandDone { success }) {
            1nat
        } else {
            0
        }
    }
}

/// A replacement is given up when, and only when, a thousand candidates have
/// failed to be bound.
pub proof fn law_gives_up_after_all_attempts(
    pool: PoolView,
    subnet: Subnet,
    more: usize,
    events: Seq<PoolEvent>,
)
    requires
        bindings(PoolTask::Choosing { failed: 0, more }, pool, subnet, events, true) == 0,
    ensures
        ({
            let start = PoolTask::Choosing { failed: 0, more };
            let (task, there) = after_events(start, pool, subnet, events);
            let failures = bindings(start, pool, subnet, events, false);
            &&& there == pool
            &&& failures <= MAX_ATTEMPTS
            &&& task is GaveUp <==> failures == MAX_ATTEMPTS
            &&& failures < MAX_ATTEMPTS ==> {
                ||| task == (PoolTask::Choosing { failed: failures as u32, more })
                ||| task matches PoolTask::Adding { ip, failed, more: rest } && failed == failures
                    && rest == more
            }
        }),
    decreases events.len(),
{
    if events.len() > 0 {
        law_gives_up_after_all_attempts(pool, subnet, more, events.drop_last());
    }
}

/// A released address cools down, leaves the interface and is replaced: what
/// was leased is given up, whether or not it could be deleted, and a fresh
/// address of the network can be leased in its place.
pub proof fn law_recycling_replaces_the_address(
    pool: PoolView,
    subnet: Subnet,
    ip: u128,
    deleted: bool,
    random: u128,
)
    requires
        pool.retire(ip).fresh(crate::pool::candidate(subnet, random)),
    ensures
        after_events(
            PoolTask::Cooling { ip },
            pool,
            subnet,
            seq![
                PoolEvent::Slept,
                PoolEvent::CommandDone { success: deleted },
                PoolEvent::Drawn { random },
                PoolEvent::CommandDone { success: true },
            ],
        ) == (
            PoolTask::Finished,
            pool.retire(ip).enlist(crate::pool::candidate(subnet, random)),
        ),
{
    let slept = PoolEvent::Slept;
    let deletion = PoolEvent::CommandDone { success: deleted };
    let drawn = PoolEvent::Drawn { random };
    let addition = PoolEvent::CommandDone { success: true };
    reveal_with_fuel(after_events, 5);
    assert(seq![slept, deletion, drawn, addition].drop_last() =~= seq![slept, deletion, drawn]);
    assert(seq![slept, deletion, drawn].drop_last() =~= seq![slept, deletion]);
    assert(seq![slept, deletion].drop_last() =~= seq![slept]);
    assert(seq![slept].drop_last() =~= Seq::<PoolEvent>::empty());
}

/// A task that is over stays as it is and changes nothing.
pub proof fn law_finished_task_rests(
    task: PoolTask,
    pool: PoolView,
    subnet: Subnet,
    event: PoolEvent,
)
    requires
        task is Finished || task is GaveUp,
    ensures
        crate::pool::step(task, pool, subnet, event) == (task, pool),
{
}

} // verus!
