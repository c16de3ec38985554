//! A pool of addresses that are bound to a network interface ahead of use.
//!
//! An address is leased once. When it is released it cools down, leaves the
//! interface, and a fresh address takes its place. The waiting and the
//! commands that change the interface are done by the caller: a [`PoolTask`]
//! says what to do next and takes in what came of it.

use crate::address::ipv6_text;
use crate::subnet::{draw, splice_address, Subnet};
use std::collections::HashSet;
use vstd::prelude::*;
use vstd::string::StringExecFns;

verus! {

/// How many candidates are tried for one replacement.
pub const MAX_ATTEMPTS: u32 = 1000;

/// Where the addresses of a pool come from and how they are recycled.
#[derive(Debug)]
pub struct PoolConfig {
    pub iface: String,
    pub subnet: Subnet,
    pub pool_size: usize,
    pub cooldown_secs: u64,
}

/// What a pool holds: the addresses that can be leased, those that are bound
/// to the interface, and those that were bound once.
pub struct PoolView {
    pub available: Seq<u128>,
    pub active: Set<u128>,
    pub used: Set<u128>,
}

impl PoolView {
    pub open spec fn empty() -> PoolView {
        PoolView { available: Seq::empty(), active: Set::empty(), used: Set::empty() }
    }

    /// The address was never bound.
    pub open spec fn fresh(self, ip: u128) -> bool {
        !self.active.contains(ip) && !self.used.contains(ip)
    }

    /// The address is bound and in the hands of a client or of its release.
    pub open spec fn leased(self, ip: u128) -> bool {
        self.active.contains(ip) && !self.available.contains(ip)
    }

    /// The pool after the address was bound.
    pub open spec fn enlist(self, ip: u128) -> PoolView {
        PoolView {
            available: self.available.push(ip),
            active: self.active.insert(ip),
            used: self.used,
        }
    }

    /// The pool after the address was given up.
    pub open spec fn retire(self, ip: u128) -> PoolView {
        PoolView {
            available: self.available,
            active: self.active.remove(ip),
            used: self.used.insert(ip),
        }
    }

    /// The pool after a lease.
    pub open spec fn take_last(self) -> PoolView {
        if self.available.len() == 0 {
            self
        } else {
            PoolView {
                available: self.available.drop_last(),
                active: self.active,
                used: self.used,
            }
        }
    }

    /// What a lease hands out.
    pub open spec fn last(self) -> Option<u128> {
        if self.available.len() == 0 {
            None
        } else {
            Some(self.available.last())
        }
    }

    /// No address can be leased twice, every address that can be leased is
    /// bound, and no bound address was given up before.
    pub open spec fn well_formed(self) -> bool {
        &&& self.active.finite()
        &&& self.available.no_duplicates()
        &&& forall|i: int|
            0 <= i < self.available.len() ==> self.active.contains(#[trigger] self.available[i])
        &&& self.active.disjoint(self.used)
    }
}

/// The bookkeeping of a pool.
pub struct PoolState {
    available: Vec<u128>,
    active: HashSet<u128>,
    used: HashSet<u128>,
}

impl View for PoolState {
    type V = PoolView;

    closed spec fn view(&self) -> PoolView {
        PoolView { available: self.available@, active: self.active@, used: self.used@ }
    }
}

impl PoolState {
    pub fn new() -> (state: PoolState)
        ensures
            state@ == PoolView::empty(),
            state@.well_formed(),
    {
        PoolState { available: Vec::new(), active: HashSet::new(), used: HashSet::new() }
    }

    /// Whether the address was never bound.
    pub fn is_fresh(&self, ip: u128) -> (fresh: bool)
        ensures
            fresh == self@.fresh(ip),
    {
        broadcast use vstd::std_specs::hash::group_hash_axioms;

        !self.active.contains(&ip) && !self.used.contains(&ip)
    }

    /// Takes the address that was added last.
    pub fn lease(&mut self) -> (ip: Option<u128>)
        ensures
            ip == old(self)@.last(),
            final(self)@ == old(self)@.take_last(),
            old(self)@.well_formed() ==> final(self)@.well_formed(),
            old(self)@.well_formed() ==> (ip matches Some(taken) ==> final(self)@.leased(taken)),
    {
        proof {
            if self@.well_formed() && self@.available.len() > 0 {
                lemma_take_last(self@);
            }
        }
        self.available.pop()
    }

    /// Records that the address was bound to the interface.
    pub fn enlist(&mut self, ip: u128)
        ensures
            final(self)@ == old(self)@.enlist(ip),
            old(self)@.well_formed() && old(self)@.fresh(ip) ==> final(self)@.well_formed(),
    {
        broadcast use vstd::std_specs::hash::group_hash_axioms;

        proof {
            if self@.well_formed() && self@.fresh(ip) {
                assert(!self@.available.contains(ip));
            }
        }

        self.active.insert(ip);
        self.available.push(ip);
    }

    /// Records that the address was given up.
    pub fn retire(&mut self, ip: u128)
        ensures
            final(self)@ == old(self)@.retire(ip),
            old(self)@.well_formed() && old(self)@.leased(ip) ==> final(self)@.well_formed(),
    {
        broadcast use vstd::std_specs::hash::group_hash_axioms;

        proof {
            if self@.well_formed() && self@.leased(ip) {
                assert forall|i: int| 0 <= i < self@.available.len() implies self@.retire(
                    ip,
                ).active.contains(#[trigger] self@.available[i]) by {
                    assert(self@.available.contains(self@.available[i]));
                }
            }
        }

        self.active.remove(&ip);
        self.used.insert(ip);
    }
}

/// The address that a lease takes is bound, and nobody else can get it.
proof fn lemma_take_last(pool: PoolView)
    requires
        pool.well_formed(),
        pool.available.len() > 0,
    ensures
        pool.take_last().well_formed(),
        pool.take_last().leased(pool.available.last()),
{
    let rest = pool.available.drop_last();
    let taken = pool.available.last();
    assert(pool.active.contains(pool.available[pool.available.len() - 1]));
    assert forall|i: int| 0 <= i < rest.len() implies pool.active.contains(#[trigger] rest[i])
        && rest[i] != taken by {
        assert(rest[i] == pool.available[i]);
    }
}

/// What is done to an address on the interface.
#[derive(Clone, Copy, Debug, PartialEq, Eq, Structural)]
pub enum Command {
    Add,
    Del,
}

impl Command {
    pub open spec fn spec_verb(self) -> Seq<char> {
        match self {
            Command::Add => "add"@,
            Command::Del => "del"@,
        }
    }

    /// The word that `ip addr` knows the command by.
    pub fn verb(self) -> (word: &'static str)
        ensures
            word@ == self.spec_verb(),
    {
        match self {
            Command::Add => "add",
            Command::Del => "del",
        }
    }
}

/// What each of the texts holds.
pub open spec fn contents(texts: Seq<String>) -> Seq<Seq<char>> {
    texts.map_values(|text: String| text@)
}

/// The arguments of `ip` that change the address that is written as `host`.
pub open spec fn arguments_for(command: Command, host: Seq<char>, iface: Seq<char>) -> Seq<
    Seq<char>,
> {
    seq!["-6"@, "addr"@, command.spec_verb(), host + "/128"@, "dev"@, iface]
}

/// The arguments of `ip` that change one address of an interface.
pub open spec fn ip_arguments(command: Command, ip: u128, iface: Seq<char>) -> Seq<Seq<char>> {
    arguments_for(command, crate::address::ipv6_notation(ip), iface)
}

/// Lists the arguments of `ip` that change the address that is written as
/// `host`.
pub fn list_arguments(command: Command, host: &str, iface: &str) -> (args: Vec<String>)
    ensures
        contents(args@) == arguments_for(command, host@, iface@),
{
    let mut network = host.to_owned();
    network.append("/128");
    let mut args: Vec<String> = Vec::new();
    args.push("-6".to_owned());
    args.push("addr".to_owned());
    args.push(command.verb().to_owned());
    args.push(network);
    args.push("dev".to_owned());
    args.push(iface.to_owned());
    assert(contents(args@) =~= arguments_for(command, host@, iface@));
    args
}

/// Lists the arguments of `ip` that change one address of an interface.
pub fn ip_addr_args(command: Command, ip: u128, iface: &str) -> (args: Vec<String>)
    ensures
        contents(args@) == ip_arguments(command, ip, iface@),
{
    let host = ipv6_text(ip);
    list_arguments(command, host.as_str(), iface)
}

/// The text that `String::from_utf8_lossy` makes of bytes.
pub uninterp spec fn lossy_decoding(bytes: Seq<u8>) -> Seq<char>;

/// Calls `String::from_utf8_lossy`.
///
/// Trusted: the text depends on the bytes alone, and is what they encode
/// where they are valid UTF-8. How invalid parts are replaced is not stated.
#[verifier::external_body]
fn lossy_text(bytes: &[u8]) -> (text: String)
    ensures
        text@ == lossy_decoding(bytes@),
        vstd::utf8::valid_utf8(bytes@) ==> text@ == vstd::utf8::decode_utf8(bytes@),
{
    String::from_utf8_lossy(bytes).into_owned()
}

/// What is reported of a command on the address that is written as `host`
/// where it failed with this complaint.
pub open spec fn failure_report(
    command: Command,
    host: Seq<char>,
    iface: Seq<char>,
    complaint: Seq<char>,
) -> Seq<char> {
    "ip -6 addr "@ + command.spec_verb() + " "@ + (host + "/128"@) + " dev "@ + iface + ": "@
        + complaint
}

/// Reports a command on the address that is written as `host` where it
/// failed with this complaint.
pub fn failure_text(command: Command, host: &str, iface: &str, complaint: &str) -> (text: String)
    ensures
        text@ == failure_report(command, host@, iface@, complaint@),
{
    let mut network = host.to_owned();
    network.append("/128");
    let mut text = "ip -6 addr ".to_owned();
    text.append(command.verb());
    text.append(" ");
    text.append(network.as_str());
    text.append(" dev ");
    text.append(iface);
    text.append(": ");
    text.append(complaint);
    text
}

/// What a finished `ip` command means: success, or the report of its failure
/// with what it wrote to its error stream.
pub fn command_result(
    command: Command,
    ip: u128,
    iface: &str,
    success: bool,
    stderr: &[u8],
) -> (result: Result<(), String>)
    ensures
        match result {
            Ok(_) => success,
            Err(report) => !success && report@ == failure_report(
                command,
                crate::address::ipv6_notation(ip),
                iface@,
                lossy_decoding(stderr@),
            ),
        },
        vstd::utf8::valid_utf8(stderr@) ==> (result matches Err(report) ==> report@
            == failure_report(
            command,
            crate::address::ipv6_notation(ip),
            iface@,
            vstd::utf8::decode_utf8(stderr@),
        )),
{
    if success {
        Ok(())
    } else {
        let host = ipv6_text(ip);
        let complaint = lossy_text(stderr);
        Err(failure_text(command, host.as_str(), iface, complaint.as_str()))
    }
}

/// A pool of addresses and where they come from.
pub struct Ipv6Pool {
    pub config: PoolConfig,
    pub state: PoolState,
}

/// Work on a pool that takes several steps: filling it, or recycling an
/// address. `failed` counts the candidates of the current replacement that
/// could not be bound, `more` the replacements that are due after it.
#[derive(Clone, Copy, Debug, PartialEq, Eq, Structural)]
pub enum PoolTask {
    Cooling { ip: u128 },
    Deleting { ip: u128 },
    Choosing { failed: u32, more: usize },
    Adding { ip: u128, failed: u32, more: usize },
    Finished,
    GaveUp,
}

/// What came of the action that a task asked for.
#[derive(Clone, Copy, Debug, PartialEq, Eq, Structural)]
pub enum PoolEvent {
    Slept,
    CommandDone { success: bool },
    Drawn { random: u128 },
}

/// What a task asks for.
#[derive(Clone, Copy, Debug, PartialEq, Eq, Structural)]
pub enum PoolAction {
    Sleep { secs: u64 },
    Run { command: Command, ip: u128 },
    Draw,
    Stop,
}

/// The candidate that a random number stands for.
pub open spec fn candidate(subnet: Subnet, random: u128) -> u128 {
    crate::subnet::spliced(subnet.address, subnet.prefix_len, random) as u128
}

/// The work of filling a pool with `count` addresses.
pub open spec fn filling(count: nat) -> PoolTask {
    if count == 0 {
        PoolTask::Finished
    } else {
        PoolTask::Choosing { failed: 0, more: (count - 1) as usize }
    }
}

/// The task and the pool after an event.
///
/// A command that deletes an address counts as done even where it failed. An
/// event that the task did not ask for changes nothing.
pub open spec fn step(task: PoolTask, pool: PoolView, subnet: Subnet, event: PoolEvent) -> (
    PoolTask,
    PoolView,
) {
    match (task, event) {
        (PoolTask::Cooling { ip }, PoolEvent::Slept) => (PoolTask::Deleting { ip }, pool),
        (PoolTask::Deleting { ip }, PoolEvent::CommandDone { success: _ }) => (
            PoolTask::Choosing { failed: 0, more: 0 },
            pool.retire(ip),
        ),
        (PoolTask::Choosing { failed, more }, PoolEvent::Drawn { random }) => {
            let ip = candidate(subnet, random);
            if pool.fresh(ip) {
                (PoolTask::Adding { ip, failed, more }, pool)
            } else {
                (task, pool)
            }
        },
        (PoolTask::Adding { ip, failed, more }, PoolEvent::CommandDone { success }) => {
            if success {
                (filling(more as nat), pool.enlist(ip))
            } else if failed + 1 >= MAX_ATTEMPTS {
                (PoolTask::GaveUp, pool)
            } else {
                (PoolTask::Choosing { failed: (failed + 1) as u32, more }, pool)
            }
        },
        _ => (task, pool),
    }
}

impl PoolTask {
    /// What the task asks for.
    pub open spec fn spec_action(self, cooldown_secs: u64) -> PoolAction {
        match self {
            PoolTask::Cooling { ip: _ } => PoolAction::Sleep { secs: cooldown_secs },
            PoolTask::Deleting { ip } => PoolAction::Run { command: Command::Del, ip },
            PoolTask::Choosing { failed: _, more: _ } => PoolAction::Draw,
            PoolTask::Adding { ip, failed: _, more: _ } => PoolAction::Run {
                command: Command::Add,
                ip,
            },
            PoolTask::Finished => PoolAction::Stop,
            PoolTask::GaveUp => PoolAction::Stop,
        }
    }

    /// The work of filling a pool with `count` addresses.
    pub fn fill(count: usize) -> (task: PoolTask)
        ensures
            task == filling(count as nat),
    {
        if count == 0 {
            PoolTask::Finished
        } else {
            PoolTask::Choosing { failed: 0, more: count - 1 }
        }
    }

    /// Says what to do next.
    pub fn action(self, config: &PoolConfig) -> (action: PoolAction)
        ensures
            action == self.spec_action(config.cooldown_secs),
    {
        match self {
            PoolTask::Cooling { ip: _ } => PoolAction::Sleep { secs: config.cooldown_secs },
            PoolTask::Deleting { ip } => PoolAction::Run { command: Command::Del, ip },
            PoolTask::Choosing { failed: _, more: _ } => PoolAction::Draw,
            PoolTask::Adding { ip, failed: _, more: _ } => PoolAction::Run {
                command: Command::Add,
                ip,
            },
            PoolTask::Finished => PoolAction::Stop,
            PoolTask::GaveUp => PoolAction::Stop,
        }
    }

    /// Takes in what came of the action.
    pub fn handle(self, pool: &mut Ipv6Pool, event: PoolEvent) -> (next: PoolTask)
        requires
            old(pool).config.subnet.prefix_len <= 128,
        ensures
            (next, final(pool).state@) == step(
                self,
                old(pool).state@,
                old(pool).config.subnet,
                event,
            ),
            final(pool).config == old(pool).config,
    {
        match (self, event) {
            (PoolTask::Cooling { ip }, PoolEvent::Slept) => PoolTask::Deleting { ip },
            (PoolTask::Deleting { ip }, PoolEvent::CommandDone { success: _ }) => {
                pool.state.retire(ip);
                PoolTask::Choosing { failed: 0, more: 0 }
            },
            (PoolTask::Choosing { failed, more }, PoolEvent::Drawn { random }) => {
                let ip: u128 = splice_address(
                    pool.config.subnet.address,
                    pool.config.subnet.prefix_len,
                    random,
                );
                if pool.state.is_fresh(ip) {
                    PoolTask::Adding { ip, failed, more }
                } else {
                    self
                }
            },
            (PoolTask::Adding { ip, failed, more }, PoolEvent::CommandDone { success }) => {
                if success {
                    pool.state.enlist(ip);
                    PoolTask::fill(more)
                } else if failed >= MAX_ATTEMPTS - 1 {
                    PoolTask::GaveUp
                } else {
                    PoolTask::Choosing { failed: failed + 1, more }
                }
            },
            _ => self,
        }
    }
}

impl Ipv6Pool {
    /// An empty pool and the work of filling it.
    pub fn new(config: PoolConfig) -> (made: (Ipv6Pool, PoolTask))
        ensures
            made.0.config == config,
            made.0.state@ == PoolView::empty(),
            made.0.state@.well_formed(),
            made.1 == filling(config.pool_size as nat),
    {
        let task = PoolTask::fill(config.pool_size);
        (Ipv6Pool { config, state: PoolState::new() }, task)
    }

    /// Hands out an address that no one else holds, if one is left.
    pub fn lease(&mut self) -> (ip: Option<u128>)
        ensures
            ip == old(self).state@.last(),
            final(self).state@ == old(self).state@.take_last(),
            final(self).config == old(self).config,
            old(self).state@.well_formed() ==> final(self).state@.well_formed() && (
            ip matches Some(taken) ==> final(self).state@.leased(taken)),
    {
        self.state.lease()
    }

    /// The work of recycling an address whose use has ended.
    pub fn release(&self, ip: u128) -> (task: PoolTask)
        ensures
            task == (PoolTask::Cooling { ip }),
    {
        PoolTask::Cooling { ip }
    }

    /// Draws a candidate at random for a task that asked for one. The task
    /// goes on with it if it was never bound, and asks again if it was.
    pub fn next_candidate(&mut self, task: PoolTask) -> (next: PoolTask)
        requires
            old(self).config.subnet.prefix_len <= 128,
        ensures
            exists|random: u128| #[trigger]
                crate::subnet::random_gave(random) && (next, final(self).state@) == step(
                    task,
                    old(self).state@,
                    old(self).config.subnet,
                    PoolEvent::Drawn { random },
                ),
            final(self).state@ == old(self).state@,
            final(self).config == old(self).config,
            task is Choosing ==> {
                ||| next == task
                ||| next matches PoolTask::Adding { ip, failed, more } && old(self).state@.fresh(ip)
                    && old(self).config.subnet.contains(ip) && task == (PoolTask::Choosing {
                    failed,
                    more,
                })
            },
            task !is Choosing ==> next == task,
    {
        let random: u128 = draw();
        proof {
            crate::subnet::law_spliced_address_stays_in_network(
                self.config.subnet.address,
                self.config.subnet.prefix_len,
                random,
            );
        }
        task.handle(self, PoolEvent::Drawn { random })
    }
}

impl PoolTask {
    /// Whether the task is over, and if so whether it did its work or ran out
    /// of attempts.
    pub fn outcome(self) -> (outcome: Option<Result<(), &'static str>>)
        ensures
            outcome is Some <==> self is Finished || self is GaveUp,
            outcome matches Some(result) ==> {
                &&& result is Ok <==> self is Finished
                &&& result matches Err(report) ==> report@
                    == "could not add a replacement IPv6 after 1000 attempts"@
            },
    {
        match self {
            PoolTask::Finished => Some(Ok(())),
            PoolTask::GaveUp => Some(Err("could not add a replacement IPv6 after 1000 attempts")),
            _ => None,
        }
    }
}

} // verus!
