//! What the work on a pool asks for at each point, and what it does to the
//! pool.
//!
//! Each law speaks of calls: of what the functions of a pool, of its state
//! and of its tasks give back, and of what the pool holds before and after.

use crate::pool::{
    command_result, failure_text, ip_addr_args, list_arguments, Command, Ipv6Pool, PoolAction,
    PoolConfig, PoolEvent, PoolState, PoolTask,
};
use crate::source::Source;
use crate::subnet::splice_address;
use vstd::prelude::*;

verus! {

/// A task that cools an address down asks for a sleep of exactly the seconds
/// that the pool is configured with; then the address is to be deleted, and
/// no other; a candidate is to be drawn, and one that was drawn is to be
/// added; and when all is done, nothing is asked for.
pub proof fn law_each_task_asks_for_its_work(
    task: PoolTask,
    config: &PoolConfig,
    action: PoolAction,
)
    requires
        call_ensures(PoolTask::action, (task, config), action),
    ensures
        task is Cooling ==> (action matches PoolAction::Sleep { secs } && secs
            == config.cooldown_secs),
        task matches PoolTask::Deleting { ip } ==> (action matches PoolAction::Run {
            command,
            ip: gone,
        } && command is Del && gone == ip),
        task is Choosing ==> action is Draw,
        task matches PoolTask::Adding { ip, failed: _, more: _ } ==> (
        action matches PoolAction::Run { command, ip: new } && command is Add && new == ip),
        task is Finished || task is GaveUp ==> action is Stop,
{
}

/// Two pools with the same cooldown let an address rest for the same time,
/// and one with a longer cooldown for as much longer, whatever else they are
/// configured with.
pub proof fn law_rest_grows_with_the_cooldown(
    one: PoolTask,
    other: PoolTask,
    shorter: &PoolConfig,
    longer: &PoolConfig,
    first: PoolAction,
    second: PoolAction,
)
    requires
        one is Cooling,
        other is Cooling,
        call_ensures(PoolTask::action, (one, shorter), first),
        call_ensures(PoolTask::action, (other, longer), second),
    ensures
        first matches PoolAction::Sleep { secs: brief } && second matches PoolAction::Sleep {
            secs: long,
        } && long - brief == longer.cooldown_secs - shorter.cooldown_secs && (
        shorter.cooldown_secs == 0 ==> brief == 0),
{
}

/// The pool holds the same as before.
pub open spec fn untouched(before: Ipv6Pool, after: Ipv6Pool) -> bool {
    after.state@ == before.state@ && after.config == before.config
}

/// A released address rests first, and nothing happens to the pool. Then it
/// is to be deleted.
pub proof fn law_released_address_rests_and_is_deleted(
    pool: &mut Ipv6Pool,
    ip: u128,
    resting: PoolTask,
    rest: PoolAction,
    rested: PoolTask,
    deletion: PoolAction,
)
    requires
        call_ensures(Ipv6Pool::release, (&*old(pool), ip), resting),
        call_ensures(PoolTask::action, (resting, &old(pool).config), rest),
        call_ensures(PoolTask::handle, (resting, pool, PoolEvent::Slept), rested),
        call_ensures(PoolTask::action, (rested, &final(pool).config), deletion),
    ensures
        rest == (PoolAction::Sleep { secs: old(pool).config.cooldown_secs }),
        untouched(*old(pool), *final(pool)),
        deletion == (PoolAction::Run { command: Command::Del, ip }),
{
}

/// A deleted address is given up, whether or not its deletion succeeded: it
/// is no longer active and counts as used. What can be leased stays as it is,
/// and so does every other address. One replacement is to be found.
pub proof fn law_deleted_address_is_given_up(
    pool: &mut Ipv6Pool,
    ip: u128,
    success: bool,
    next: PoolTask,
)
    requires
        call_ensures(
            PoolTask::handle,
            (PoolTask::Deleting { ip }, pool, PoolEvent::CommandDone { success }),
            next,
        ),
    ensures
        next == (PoolTask::Choosing { failed: 0, more: 0 }),
        final(pool).config == old(pool).config,
        final(pool).state@.available == old(pool).state@.available,
        forall|other: u128| #[trigger]
            final(pool).state@.active.contains(other) <==> other != ip
                && old(pool).state@.active.contains(other),
        forall|other: u128| #[trigger]
            final(pool).state@.used.contains(other) <==> other == ip
                || old(pool).state@.used.contains(other),
{
}

/// A candidate is the number that was drawn, spliced into the network. It is
/// to be added if it is neither active nor used; otherwise another one is to
/// be drawn, and that does not count as a failure. The pool stays as it is.
pub proof fn law_candidate_is_fresh(
    pool: &mut Ipv6Pool,
    failed: u32,
    more: usize,
    random: u128,
    ip: u128,
    next: PoolTask,
)
    requires
        old(pool).config.subnet.prefix_len <= 128,
        call_ensures(
            splice_address,
            (old(pool).config.subnet.address, old(pool).config.subnet.prefix_len, random),
            ip,
        ),
        call_ensures(
            PoolTask::handle,
            (PoolTask::Choosing { failed, more }, pool, PoolEvent::Drawn { random }),
            next,
        ),
    ensures
        untouched(*old(pool), *final(pool)),
        !old(pool).state@.active.contains(ip) && !old(pool).state@.used.contains(ip) ==> next == (
        PoolTask::Adding { ip, failed, more }),
        old(pool).state@.active.contains(ip) || old(pool).state@.used.contains(ip) ==> next == (
        PoolTask::Choosing { failed, more }),
{
}

/// A candidate that was added is active and can be leased next, before all
/// that were there. If more are due, the next one is to be drawn, with no
/// failures counted against it; otherwise the work is done.
pub proof fn law_added_candidate_can_be_leased(
    pool: &mut Ipv6Pool,
    ip: u128,
    failed: u32,
    more: usize,
    next: PoolTask,
)
    requires
        call_ensures(
            PoolTask::handle,
            (PoolTask::Adding { ip, failed, more }, pool, PoolEvent::CommandDone { success: true }),
            next,
        ),
    ensures
        final(pool).config == old(pool).config,
        final(pool).state@.available == old(pool).state@.available + seq![ip],
        forall|other: u128| #[trigger]
            final(pool).state@.active.contains(other) <==> other == ip
                || old(pool).state@.active.contains(other),
        final(pool).state@.used == old(pool).state@.used,
        more == 0 ==> next is Finished,
        more > 0 ==> next == (PoolTask::Choosing { failed: 0, more: (more - 1) as usize }),
{
    assert(final(pool).state@.available =~= old(pool).state@.available + seq![ip]);
}

/// A candidate that could not be added leaves the pool as it is. Another one
/// is to be drawn, up to a thousand for one replacement.
pub proof fn law_failed_candidate_is_replaced_up_to_a_thousand_times(
    pool: &mut Ipv6Pool,
    ip: u128,
    failed: u32,
    more: usize,
    next: PoolTask,
)
    requires
        call_ensures(
            PoolTask::handle,
            (PoolTask::Adding { ip, failed, more }, pool, PoolEvent::CommandDone { success: false }),
            next,
        ),
    ensures
        untouched(*old(pool), *final(pool)),
        failed < 999 ==> next == (PoolTask::Choosing { failed: (failed + 1) as u32, more }),
        failed >= 999 ==> next is GaveUp,
{
}

/// The event is what can come of the action.
pub open spec fn answers(action: PoolAction, event: PoolEvent) -> bool {
    match event {
        PoolEvent::Slept => action is Sleep,
        PoolEvent::CommandDone { success: _ } => action is Run,
        PoolEvent::Drawn { random: _ } => action is Draw,
    }
}

/// An event that does not answer what the task asked for changes nothing.
pub proof fn law_unasked_events_change_nothing(
    pool: &mut Ipv6Pool,
    task: PoolTask,
    asked: PoolAction,
    event: PoolEvent,
    next: PoolTask,
)
    requires
        call_ensures(PoolTask::action, (task, &old(pool).config), asked),
        call_ensures(PoolTask::handle, (task, pool, event), next),
        !answers(asked, event),
    ensures
        next == task,
        untouched(*old(pool), *final(pool)),
{
}

/// A candidate is drawn at random: the task goes on with the very number that
/// the random source gave, as it would with any other.
pub proof fn law_candidate_is_what_was_drawn(pool: &mut Ipv6Pool, task: PoolTask, next: PoolTask)
    requires
        old(pool).config.subnet.prefix_len <= 128,
        task is Choosing,
        call_ensures(Ipv6Pool::next_candidate, (pool, task), next),
    ensures
        untouched(*old(pool), *final(pool)),
        exists|random: u128| #[trigger]
            crate::subnet::random_gave(random) && forall|ip: u128| #[trigger]
                call_ensures(
                    splice_address,
                    (old(pool).config.subnet.address, old(pool).config.subnet.prefix_len, random),
                    ip,
                ) ==> if old(pool).state@.active.contains(ip) || old(pool).state@.used.contains(
                    ip,
                ) {
                    next == task
                } else {
                    next matches PoolTask::Adding { ip: new, failed, more } && new == ip && task == (
                    PoolTask::Choosing { failed, more })
                },
{
    let random = choose|random: u128| #[trigger]
        crate::subnet::random_gave(random) && (next, final(pool).state@) == crate::pool::step(
            task,
            old(pool).state@,
            old(pool).config.subnet,
            PoolEvent::Drawn { random },
        );
    assert(crate::subnet::random_gave(random));
}

/// A task that asked for nothing gets nothing drawn.
pub proof fn law_nothing_is_drawn_for_other_tasks(
    pool: &mut Ipv6Pool,
    task: PoolTask,
    next: PoolTask,
)
    requires
        task !is Choosing,
        call_ensures(Ipv6Pool::next_candidate, (pool, task), next),
    ensures
        next == task,
        untouched(*old(pool), *final(pool)),
{
}

/// A new pool is configured as asked for, has no addresses, and has as many
/// to find as its size says.
pub proof fn law_new_pool_has_all_to_find(config: PoolConfig, made: (Ipv6Pool, PoolTask))
    requires
        call_ensures(Ipv6Pool::new, (config,), made),
    ensures
        made.0.config == config,
        made.0.state@.available.len() == 0,
        forall|ip: u128|
            !(#[trigger] made.0.state@.active.contains(ip)) && !made.0.state@.used.contains(ip),
        config.pool_size == 0 ==> made.1 is Finished,
        config.pool_size > 0 ==> made.1 == (PoolTask::Choosing {
            failed: 0,
            more: (config.pool_size - 1) as usize,
        }),
{
}

/// As many addresses are to be found as were asked for.
pub proof fn law_filling_finds_as_many_as_asked_for(count: usize, task: PoolTask)
    requires
        call_ensures(PoolTask::fill, (count,), task),
    ensures
        count == 0 ==> task is Finished,
        count > 0 ==> (task matches PoolTask::Choosing { failed, more } && failed == 0 && more + 1
            == count),
{
}

/// A task is over when it has done its work, or has given up after a thousand
/// attempts, and only then.
pub proof fn law_outcome_tells_whether_the_work_was_done(
    task: PoolTask,
    outcome: Option<Result<(), &'static str>>,
)
    requires
        call_ensures(PoolTask::outcome, (task,), outcome),
    ensures
        task is Finished ==> outcome matches Some(Ok(_)),
        task is GaveUp ==> (outcome matches Some(Err(report)) && report@
            == "could not add a replacement IPv6 after 1000 attempts"@),
        task !is Finished && task !is GaveUp ==> outcome is None,
{
}

/// A lease hands out the address that was added last, takes it from those
/// that can be leased, and changes nothing else. There is one as long as one
/// can be leased.
pub proof fn law_lease_takes_the_last_address(pool: &mut Ipv6Pool, ip: Option<u128>)
    requires
        call_ensures(Ipv6Pool::lease, (pool,), ip),
    ensures
        final(pool).config == old(pool).config,
        final(pool).state@.active == old(pool).state@.active,
        final(pool).state@.used == old(pool).state@.used,
        ip is None <==> old(pool).state@.available.len() == 0,
        match ip {
            Some(taken) => old(pool).state@.available == final(pool).state@.available + seq![taken],
            None => final(pool).state@.available == old(pool).state@.available,
        },
{
    if ip is Some {
        assert(old(pool).state@.available =~= final(pool).state@.available + seq![ip->0]);
    }
}

/// What is added to a pool's books and leased at once comes back, and the
/// books are as if it had been active and never listed.
pub proof fn law_listed_address_is_leased_next(
    listing: &mut PoolState,
    leasing: &mut PoolState,
    ip: u128,
    leased: Option<u128>,
)
    requires
        call_ensures(PoolState::enlist, (listing, ip), ()),
        old(leasing)@ == final(listing)@,
        call_ensures(PoolState::lease, (leasing,), leased),
    ensures
        leased == Some(ip),
        final(leasing)@.available == old(listing)@.available,
        forall|other: u128| #[trigger]
            final(leasing)@.active.contains(other) <==> other == ip
                || old(listing)@.active.contains(other),
        final(leasing)@.used == old(listing)@.used,
{
    assert(final(leasing)@.available =~= old(listing)@.available);
}

/// An address that was given up is not fresh, and neither is one that is
/// active; every other one is.
pub proof fn law_books_know_what_is_fresh(
    state: &mut PoolState,
    ip: u128,
    other: u128,
    fresh: bool,
)
    requires
        call_ensures(PoolState::retire, (state, ip), ()),
        call_ensures(PoolState::is_fresh, (&*final(state), other), fresh),
    ensures
        fresh <==> other != ip && !old(state)@.active.contains(other) && !old(state)@.used.contains(
            other,
        ),
        final(state)@.available == old(state)@.available,
        forall|any: u128| #[trigger]
            final(state)@.active.contains(any) <==> any != ip && old(state)@.active.contains(any),
        forall|any: u128| #[trigger]
            final(state)@.used.contains(any) <==> any == ip || old(state)@.used.contains(any),
{
}

/// New books are empty.
pub proof fn law_new_books_are_empty(state: PoolState, ip: u128, fresh: bool)
    requires
        call_ensures(PoolState::new, (), state),
        call_ensures(PoolState::is_fresh, (&state, ip), fresh),
    ensures
        fresh,
        state@.available.len() == 0,
{
}

/// The whole course of a used address: it rests for the configured time, is
/// deleted and given up, and a fresh address of the network, which was drawn
/// and added, can be leased in its place. All else stays as it was.
pub proof fn law_used_address_is_recycled(
    resting: &mut Ipv6Pool,
    deleting: &mut Ipv6Pool,
    choosing: &mut Ipv6Pool,
    adding: &mut Ipv6Pool,
    ip: u128,
    deleted: bool,
    random: u128,
    new: u128,
    first: PoolTask,
    rest: PoolAction,
    second: PoolTask,
    third: PoolTask,
    fourth: PoolTask,
    addition: PoolAction,
    last: PoolTask,
)
    requires
        old(resting).config.subnet.prefix_len <= 128,
        untouched(*final(resting), *old(deleting)),
        untouched(*final(deleting), *old(choosing)),
        untouched(*final(choosing), *old(adding)),
        call_ensures(Ipv6Pool::release, (&*old(resting), ip), first),
        call_ensures(PoolTask::action, (first, &old(resting).config), rest),
        call_ensures(PoolTask::handle, (first, resting, PoolEvent::Slept), second),
        call_ensures(
            PoolTask::handle,
            (second, deleting, PoolEvent::CommandDone { success: deleted }),
            third,
        ),
        call_ensures(PoolTask::handle, (third, choosing, PoolEvent::Drawn { random }), fourth),
        call_ensures(
            splice_address,
            (old(resting).config.subnet.address, old(resting).config.subnet.prefix_len, random),
            new,
        ),
        new != ip,
        !old(resting).state@.active.contains(new),
        !old(resting).state@.used.contains(new),
        call_ensures(PoolTask::action, (fourth, &final(choosing).config), addition),
        call_ensures(
            PoolTask::handle,
            (fourth, adding, PoolEvent::CommandDone { success: true }),
            last,
        ),
    ensures
        rest == (PoolAction::Sleep { secs: old(resting).config.cooldown_secs }),
        addition == (PoolAction::Run { command: Command::Add, ip: new }),
        last is Finished,
        final(adding).config == old(resting).config,
        final(adding).state@.available == old(resting).state@.available + seq![new],
        forall|other: u128| #[trigger]
            final(adding).state@.active.contains(other) <==> other == new || (other != ip && old(
                resting,
            ).state@.active.contains(other)),
        forall|other: u128| #[trigger]
            final(adding).state@.used.contains(other) <==> other == ip || old(
                resting,
            ).state@.used.contains(other),
{
    assert(final(adding).state@.available =~= old(resting).state@.available + seq![new]);
}

/// The words of the command that changes an address of an interface, in
/// their order.
pub open spec fn command_words(command: Command, host: Seq<char>, iface: Seq<char>) -> Seq<
    Seq<char>,
> {
    seq![
        "-6"@,
        "addr"@,
        if command is Add {
            "add"@
        } else {
            "del"@
        },
        host + "/128"@,
        "dev"@,
        iface,
    ]
}

/// `ip` is told to add or to delete that one address on that interface.
pub proof fn law_commands_change_one_address(
    command: Command,
    ip: u128,
    iface: &str,
    args: Vec<String>,
)
    requires
        call_ensures(ip_addr_args, (command, ip, iface), args),
    ensures
        args@.len() == 6,
        forall|i: int|
            0 <= i < 6 ==> (#[trigger] args@[i])@ == command_words(
                command,
                crate::address::ipv6_notation(ip),
                iface@,
            )[i],
{
    let words = crate::pool::contents(args@);
    assert(words.len() == args@.len());
    assert(forall|i: int| 0 <= i < args@.len() ==> words[i] == (#[trigger] args@[i])@);
}

/// The same of an address that is written like this.
pub proof fn law_arguments_name_the_host(
    command: Command,
    host: &str,
    iface: &str,
    args: Vec<String>,
)
    requires
        call_ensures(list_arguments, (command, host, iface), args),
    ensures
        args@.len() == 6,
        forall|i: int|
            0 <= i < 6 ==> (#[trigger] args@[i])@ == command_words(command, host@, iface@)[i],
{
    let words = crate::pool::contents(args@);
    assert(words.len() == args@.len());
    assert(forall|i: int| 0 <= i < args@.len() ==> words[i] == (#[trigger] args@[i])@);
}

/// What is reported of a command that failed: the command as it was given,
/// and its complaint.
pub proof fn law_failed_command_is_reported_as_given(
    command: Command,
    host: &str,
    iface: &str,
    complaint: &str,
    text: String,
)
    requires
        call_ensures(failure_text, (command, host, iface, complaint), text),
    ensures
        ({
            let words = command_words(command, host@, iface@);
            text@ == "ip -6 addr "@ + words[2] + " "@ + words[3] + " dev "@ + iface@ + ": "@
                + complaint@
        }),
{
}

/// A command succeeds when its process does. Otherwise what it wrote to its
/// error stream is reported.
pub proof fn law_command_succeeds_when_its_process_does(
    command: Command,
    ip: u128,
    iface: &str,
    success: bool,
    stderr: &[u8],
    result: Result<(), String>,
)
    requires
        call_ensures(command_result, (command, ip, iface, success, stderr), result),
    ensures
        success <==> result is Ok,
        result matches Err(report) ==> ({
            let words = command_words(command, crate::address::ipv6_notation(ip), iface@);
            let start = "ip -6 addr "@ + words[2] + " "@ + words[3] + " dev "@ + iface@ + ": "@;
            &&& report@ == start + crate::pool::lossy_decoding(stderr@)
            &&& vstd::utf8::valid_utf8(stderr@) ==> report@ == start + vstd::utf8::decode_utf8(
                stderr@,
            )
        }),
{
}

/// The words that `ip addr` knows the commands by.
pub proof fn law_commands_have_their_verbs(command: Command, word: &'static str)
    requires
        call_ensures(Command::verb, (command,), word),
    ensures
        command is Add ==> word@ == "add"@,
        command is Del ==> word@ == "del"@,
{
}

/// A network always has an address to connect from: one whose bits behind the
/// prefix are those that were drawn. A pool has the one that was added last,
/// as long as one can be leased.
pub proof fn law_source_hands_out_addresses(source: &mut Source, ip: Option<u128>)
    requires
        old(source).well_formed(),
        call_ensures(Source::lease, (source,), ip),
    ensures
        match *old(source) {
            Source::RandomCidr { subnet } => {
                &&& *final(source) == *old(source)
                &&& ip is Some
                &&& exists|random: u128| #[trigger]
                    crate::subnet::random_gave(random) && forall|place: u8|
                        place < 128 ==> #[trigger] crate::subnet::bit_at(ip->0, place)
                            == crate::subnet::bit_at(
                            if place < subnet.prefix_len {
                                subnet.address
                            } else {
                                random
                            },
                            place,
                        )
            },
            Source::Dynamic(before) => {
                &&& *final(source) matches Source::Dynamic(after) && {
                    &&& after.config == before.config
                    &&& after.state@.active == before.state@.active
                    &&& after.state@.used == before.state@.used
                    &&& ip is None <==> before.state@.available.len() == 0
                    &&& ip is None ==> after.state@.available == before.state@.available
                    &&& ip matches Some(taken) ==> before.state@.available
                        == after.state@.available + seq![taken]
                }
            },
        },
{
    match *old(source) {
        Source::RandomCidr { subnet } => {
            let random = choose|random: u128| #[trigger]
                crate::subnet::random_gave(random) && ip == Some(
                    crate::subnet::spliced(subnet.address, subnet.prefix_len, random) as u128,
                );
            assert forall|place: u8| place < 128 implies #[trigger] crate::subnet::bit_at(
                ip->0,
                place,
            ) == crate::subnet::bit_at(
                if place < subnet.prefix_len {
                    subnet.address
                } else {
                    random
                },
                place,
            ) by {
                crate::subnet::lemma_bit_of_spliced(
                    subnet.address,
                    subnet.prefix_len,
                    random,
                    place,
                );
            }
        },
        Source::Dynamic(before) => {
            if before.state@.available.len() > 0 {
                let available = before.state@.available;
                assert(available =~= available.drop_last() + seq![available.last()]);
            }
        },
    }
}

/// An address of a pool is recycled when its use has ended: it rests first.
/// An address of a network needs nothing.
pub proof fn law_source_takes_addresses_back(source: &Source, ip: u128, task: Option<PoolTask>)
    requires
        call_ensures(Source::release, (source, ip), task),
    ensures
        *source is RandomCidr ==> task is None,
        *source is Dynamic ==> task == Some(PoolTask::Cooling { ip }),
{
}

} // verus!
