//! What a request to the HTTP proxy asks for at each point of its course.
//!
//! Each law speaks of calls: of the exchange that [`Exchange::handle`] gives
//! back, and of what [`Exchange::action`] says of it.

use crate::proxy::{Answer, Exchange, ExchangeAction, ExchangeEvent, Outcome};
use vstd::prelude::*;

verus! {

/// The event takes the exchange to `next`, which asks for this.
pub open spec fn leads(
    before: Exchange,
    event: ExchangeEvent,
    next: Exchange,
    action: ExchangeAction,
) -> bool {
    &&& call_ensures(Exchange::handle, (before, event), next)
    &&& call_ensures(Exchange::action, (next,), action)
}

/// The address that an exchange has leased and has to give back.
pub open spec fn holds(exchange: Exchange) -> Option<u128> {
    match exchange {
        Exchange::Sending { ip } => Some(ip),
        Exchange::Collecting { ip } => Some(ip),
        Exchange::Accepting { ip } => Some(ip),
        Exchange::Upgrading { ip } => Some(ip),
        Exchange::Resolving { ip } => Some(ip),
        Exchange::Dialing { ip, next: _, count: _ } => Some(ip),
        Exchange::Relaying { ip } => Some(ip),
        Exchange::Releasing { ip, outcome: _ } => Some(ip),
        _ => None,
    }
}

/// The exchange gives back what it holds and ends in this way.
pub open spec fn ends(next: Exchange, action: ExchangeAction, held: Option<u128>, outcome: Outcome) -> bool {
    match held {
        Some(ip) => next == (Exchange::Releasing { ip, outcome }) && action == (
        ExchangeAction::Release { ip }),
        None => next == (Exchange::Done { outcome }) && action == (ExchangeAction::Finish {
            outcome,
        }),
    }
}

/// A request starts with the lease of an address to connect from. Only a
/// `CONNECT` that names no target needs none: it is answered as a tunnel
/// would be, and that is all.
pub proof fn law_request_starts_with_a_lease(
    method: &str,
    has_authority: bool,
    exchange: Exchange,
    action: ExchangeAction,
)
    requires
        call_ensures(Exchange::start, (method, has_authority), exchange),
        call_ensures(Exchange::action, (exchange,), action),
    ensures
        holds(exchange) is None,
        method@ != "CONNECT"@ || has_authority ==> action is Lease,
        method@ == "CONNECT"@ && !has_authority ==> {
            &&& action == (ExchangeAction::Respond { answer: Answer::Established })
            &&& forall|next: Exchange, after: ExchangeAction| #[trigger]
                leads(exchange, ExchangeEvent::Responded, next, after) ==> ends(
                    next,
                    after,
                    None,
                    Outcome::Served,
                )
        },
{
}

/// The event is what can come of the action. What fails ends the exchange,
/// except that an address is given back whatever happens.
pub open spec fn answers(action: ExchangeAction, event: ExchangeEvent) -> bool {
    match event {
        ExchangeEvent::Leased { ip: _ } => action is Lease,
        ExchangeEvent::Responded => action is Respond,
        ExchangeEvent::Sent => action is Send,
        ExchangeEvent::Collected => action is Collect,
        ExchangeEvent::Upgraded => action is Upgrade,
        ExchangeEvent::UpgradeFailed => action is Upgrade,
        ExchangeEvent::Resolved { count: _ } => action is Resolve,
        ExchangeEvent::ResolveFailed => action is Resolve,
        ExchangeEvent::Connected => action is Connect,
        ExchangeEvent::Unreached => action is Connect,
        ExchangeEvent::Relayed => action is Relay,
        ExchangeEvent::Released => action is Release,
        ExchangeEvent::Failed => action !is Release && action !is Finish,
    }
}

/// An event that does not answer what the exchange asked for changes nothing.
pub proof fn law_unasked_events_change_nothing(
    before: Exchange,
    asked: ExchangeAction,
    event: ExchangeEvent,
    next: Exchange,
)
    requires
        call_ensures(Exchange::action, (before,), asked),
        call_ensures(Exchange::handle, (before, event), next),
        !answers(asked, event),
    ensures
        next == before,
{
}

/// Where an action fails, what is held is given back, and the exchange ends
/// with that failure.
pub proof fn law_failed_action_ends_the_exchange(
    before: Exchange,
    asked: ExchangeAction,
    next: Exchange,
    action: ExchangeAction,
)
    requires
        call_ensures(Exchange::action, (before,), asked),
        asked !is Release && asked !is Finish,
        leads(before, ExchangeEvent::Failed, next, action),
    ensures
        ends(next, action, holds(before), Outcome::Failed),
{
}

/// What was given back ends the exchange in the way that was due.
pub proof fn law_released_address_ends_the_exchange(
    ip: u128,
    outcome: Outcome,
    next: Exchange,
    action: ExchangeAction,
)
    requires
        leads(Exchange::Releasing { ip, outcome }, ExchangeEvent::Released, next, action),
    ensures
        ends(next, action, None, outcome),
{
}

/// Where no address can be had, the client is told so, whatever it asked for,
/// and nothing else happens.
pub proof fn law_client_is_told_that_there_is_no_address(
    method: &str,
    has_authority: bool,
    exchange: Exchange,
    declining: Exchange,
    response: ExchangeAction,
    end: Exchange,
    finish: ExchangeAction,
)
    requires
        method@ != "CONNECT"@ || has_authority,
        call_ensures(Exchange::start, (method, has_authority), exchange),
        leads(exchange, ExchangeEvent::Leased { ip: None }, declining, response),
        leads(declining, ExchangeEvent::Responded, end, finish),
    ensures
        response == (ExchangeAction::Respond { answer: Answer::Unavailable }),
        ends(end, finish, None, Outcome::Served),
{
}

/// A tunnel is answered with success and an empty body, the want of an
/// address with `503` and the reason.
pub proof fn law_answers_have_their_status(answer: Answer, status: u16, body: &'static str)
    requires
        call_ensures(Answer::status, (answer,), status),
        call_ensures(Answer::body, (answer,), body),
    ensures
        answer is Established ==> status == 200 && body@ == ""@,
        answer is Unavailable ==> status == 503 && body@ == "dynamic IPv6 pool exhausted"@,
{
}

/// A request that is not `CONNECT` is sent from the leased address; then its
/// response is collected, then the address is given back, and the exchange
/// ends well.
pub proof fn law_request_is_sent_and_its_response_collected(
    method: &str,
    has_authority: bool,
    ip: u128,
    exchange: Exchange,
    sending: Exchange,
    send: ExchangeAction,
    collecting: Exchange,
    collect: ExchangeAction,
    releasing: Exchange,
    release: ExchangeAction,
    end: Exchange,
    finish: ExchangeAction,
)
    requires
        method@ != "CONNECT"@,
        call_ensures(Exchange::start, (method, has_authority), exchange),
        leads(exchange, ExchangeEvent::Leased { ip: Some(ip) }, sending, send),
        leads(sending, ExchangeEvent::Sent, collecting, collect),
        leads(collecting, ExchangeEvent::Collected, releasing, release),
        leads(releasing, ExchangeEvent::Released, end, finish),
    ensures
        send == (ExchangeAction::Send { ip }),
        holds(sending) == Some(ip),
        collect is Collect,
        holds(collecting) == Some(ip),
        release == (ExchangeAction::Release { ip }),
        ends(end, finish, None, Outcome::Served),
{
}

/// A tunnel is accepted, taken over and its target looked up, all with the
/// leased address held. A connection that cannot be taken over, and a target
/// that is not found, give the address back with nothing to report.
pub proof fn law_tunnel_is_accepted_and_its_target_looked_up(
    method: &str,
    ip: u128,
    exchange: Exchange,
    accepting: Exchange,
    response: ExchangeAction,
    upgrading: Exchange,
    upgrade: ExchangeAction,
    resolving: Exchange,
    resolve: ExchangeAction,
)
    requires
        method@ == "CONNECT"@,
        call_ensures(Exchange::start, (method, true), exchange),
        leads(exchange, ExchangeEvent::Leased { ip: Some(ip) }, accepting, response),
        leads(accepting, ExchangeEvent::Responded, upgrading, upgrade),
        leads(upgrading, ExchangeEvent::Upgraded, resolving, resolve),
    ensures
        response == (ExchangeAction::Respond { answer: Answer::Established }),
        holds(accepting) == Some(ip),
        upgrade is Upgrade,
        holds(upgrading) == Some(ip),
        resolve is Resolve,
        holds(resolving) == Some(ip),
        forall|next: Exchange, action: ExchangeAction| #[trigger]
            leads(upgrading, ExchangeEvent::UpgradeFailed, next, action) ==> ends(
                next,
                action,
                Some(ip),
                Outcome::Served,
            ),
        forall|next: Exchange, action: ExchangeAction| #[trigger]
            leads(resolving, ExchangeEvent::ResolveFailed, next, action) ==> ends(
                next,
                action,
                Some(ip),
                Outcome::Served,
            ),
{
}

/// These are the standings of an exchange that was told of this many
/// addresses and could reach none of those tried so far.
pub open spec fn tried(
    resolving: Exchange,
    count: usize,
    standings: Seq<Exchange>,
    actions: Seq<ExchangeAction>,
) -> bool {
    &&& standings.len() == actions.len()
    &&& standings.len() > 0
    &&& leads(resolving, ExchangeEvent::Resolved { count }, standings[0], actions[0])
    &&& forall|k: int|
        0 < k < standings.len() ==> #[trigger] leads(
            standings[k - 1],
            ExchangeEvent::Unreached,
            standings[k],
            actions[k],
        )
}

proof fn lemma_tried(
    resolving: Exchange,
    ip: u128,
    count: usize,
    standings: Seq<Exchange>,
    actions: Seq<ExchangeAction>,
    k: int,
)
    requires
        call_ensures(Exchange::action, (resolving,), ExchangeAction::Resolve),
        holds(resolving) == Some(ip),
        tried(resolving, count, standings, actions),
        0 <= k < standings.len(),
        k <= count,
    ensures
        k < count ==> standings[k] == (Exchange::Dialing { ip, next: k as usize, count }),
        k == count ==> standings[k] == (Exchange::Releasing { ip, outcome: Outcome::Served }),
    decreases k,
{
    if k > 0 {
        lemma_tried(resolving, ip, count, standings, actions, k - 1);
        assert(leads(standings[k - 1], ExchangeEvent::Unreached, standings[k], actions[k]));
    }
}

/// The addresses of a tunnel's target are tried one after the other in their
/// order, each from the leased address; when all have been tried in vain, the
/// leased address is given back with nothing to report.
pub proof fn law_target_addresses_are_tried_in_turn(
    resolving: Exchange,
    ip: u128,
    count: usize,
    standings: Seq<Exchange>,
    actions: Seq<ExchangeAction>,
    k: int,
)
    requires
        call_ensures(Exchange::action, (resolving,), ExchangeAction::Resolve),
        holds(resolving) == Some(ip),
        tried(resolving, count, standings, actions),
        0 <= k < standings.len(),
        k <= count,
    ensures
        k < count ==> actions[k] == (ExchangeAction::Connect { index: k as usize, ip }),
        k == count ==> ends(standings[k], actions[k], Some(ip), Outcome::Served),
{
    lemma_tried(resolving, ip, count, standings, actions, k);
    if k > 0 {
        assert(leads(standings[k - 1], ExchangeEvent::Unreached, standings[k], actions[k]));
    }
}

/// Whichever address of the target answers, be it the first or a later one,
/// data is passed on through the tunnel, with the leased address held. Only
/// when that has ended is the address given back, and the exchange ends well.
pub proof fn law_connected_tunnel_relays(
    resolving: Exchange,
    ip: u128,
    count: usize,
    standings: Seq<Exchange>,
    actions: Seq<ExchangeAction>,
    k: int,
    relaying: Exchange,
    relay: ExchangeAction,
    releasing: Exchange,
    release: ExchangeAction,
    end: Exchange,
    finish: ExchangeAction,
)
    requires
        call_ensures(Exchange::action, (resolving,), ExchangeAction::Resolve),
        holds(resolving) == Some(ip),
        tried(resolving, count, standings, actions),
        0 <= k < standings.len(),
        k < count,
        leads(standings[k], ExchangeEvent::Connected, relaying, relay),
        leads(relaying, ExchangeEvent::Relayed, releasing, release),
        leads(releasing, ExchangeEvent::Released, end, finish),
    ensures
        relay is Relay,
        holds(relaying) == Some(ip),
        release == (ExchangeAction::Release { ip }),
        ends(end, finish, None, Outcome::Served),
{
    lemma_tried(resolving, ip, count, standings, actions, k);
}

/// A connection at any place of the list makes the exchange pass data on, and
/// nothing else does.
pub proof fn law_relay_follows_a_connection(
    before: Exchange,
    asked: ExchangeAction,
    event: ExchangeEvent,
    next: Exchange,
    action: ExchangeAction,
)
    requires
        call_ensures(Exchange::action, (before,), asked),
        leads(before, event, next, action),
    ensures
        asked is Connect && event is Connected ==> action is Relay && holds(next) == holds(before),
        action is Relay ==> asked is Relay && next == before || asked is Connect
            && event is Connected,
        asked is Relay && next != before ==> event is Relayed || event is Failed,
{
}

/// An address is given back only when the work with it is over: the response
/// was collected, the data was passed on, the tunnel could not be opened, no
/// address of the target answered, or an action failed.
pub proof fn law_address_is_kept_while_it_is_needed(
    before: Exchange,
    asked: ExchangeAction,
    event: ExchangeEvent,
    next: Exchange,
    action: ExchangeAction,
)
    requires
        call_ensures(Exchange::action, (before,), asked),
        leads(before, event, next, action),
        asked !is Release,
        action is Release,
    ensures
        event is Failed || event is Collected || event is Relayed || event is UpgradeFailed
            || event is ResolveFailed || event == (ExchangeEvent::Resolved { count: 0 }) || (
        before matches Exchange::Dialing { ip: _, next: place, count } && event is Unreached && place
            + 1 >= count),
        action == (ExchangeAction::Release { ip: holds(before)->0 }),
{
}

/// What each standing of an exchange asks for.
pub proof fn law_each_standing_asks_for_its_thing(exchange: Exchange, action: ExchangeAction)
    requires
        call_ensures(Exchange::action, (exchange,), action),
    ensures
        match exchange {
            Exchange::Leasing { tunnel: _ } => action is Lease,
            Exchange::Declining => action == (ExchangeAction::Respond {
                answer: Answer::Unavailable,
            }),
            Exchange::Dismissing => action == (ExchangeAction::Respond {
                answer: Answer::Established,
            }),
            Exchange::Sending { ip } => action == (ExchangeAction::Send { ip }),
            Exchange::Collecting { ip: _ } => action is Collect,
            Exchange::Accepting { ip: _ } => action == (ExchangeAction::Respond {
                answer: Answer::Established,
            }),
            Exchange::Upgrading { ip: _ } => action is Upgrade,
            Exchange::Resolving { ip: _ } => action is Resolve,
            Exchange::Dialing { ip, next, count: _ } => action == (ExchangeAction::Connect {
                index: next,
                ip,
            }),
            Exchange::Relaying { ip: _ } => action is Relay,
            Exchange::Releasing { ip, outcome: _ } => action == (ExchangeAction::Release { ip }),
            Exchange::Done { outcome } => action == (ExchangeAction::Finish { outcome }),
        },
{
}

} // verus!
