//! What holds of a request to the HTTP proxy from its start to its end.

use crate::proxy::{Answer, Exchange, ExchangeAction, ExchangeEvent, Outcome};
use vstd::prelude::*;

verus! {

/// Where an exchange stands after a sequence of events.
pub open spec fn after_events(start: Exchange, events: Seq<ExchangeEvent>) -> Exchange
    decreases events.len(),
{
    if events.len() == 0 {
        start
    } else {
        after_events(start, events.drop_last()).after(events.last())
    }
}

/// The event hands this address to the exchange.
pub open spec fn leases(exchange: Exchange, event: ExchangeEvent, ip: u128) -> bool {
    exchange is Leasing && event == (ExchangeEvent::Leased { ip: Some(ip) })
}

/// The event tells the exchange that this address was given back.
pub open spec fn releases(exchange: Exchange, event: ExchangeEvent, ip: u128) -> bool {
    exchange matches Exchange::Releasing { ip: held, outcome: _ } && held == ip && event is Released
}

/// How often an address was leased in the course of the events.
pub open spec fn lease_count(start: Exchange, events: Seq<ExchangeEvent>, ip: u128) -> nat
    decreases events.len(),
{
    if events.len() == 0 {
        0
    } else {
        let earlier = events.drop_last();
        lease_count(start, earlier, ip) + if leases(
            after_events(start, earlier),
            events.last(),
            ip,
        ) {
            1nat
        } else {
            0
        }
    }
}

/// How often an address was given back in the course of the events.
pub open spec fn release_count(start: Exchange, events: Seq<ExchangeEvent>, ip: u128) -> nat
    decreases events.len(),
{
    if events.len() == 0 {
        0
    } else {
        let earlier = events.drop_last();
        release_count(start, earlier, ip) + if releases(
            after_events(start, earlier),
            events.last(),
            ip,
        ) {
            1nat
        } else {
            0
        }
    }
}

/// An address is held from its lease until it is given back, whatever happens
/// in between.
pub proof fn law_address_is_held_until_released(
    exchange: Exchange,
    event: ExchangeEvent,
    ip: u128,
)
    ensures
        exchange.after(event).held() == Some(ip) <==> leases(exchange, event, ip) || (
        exchange.held() == Some(ip) && !releases(exchange, event, ip)),
{
}

/// Every address that is leased for a request is given back exactly once by
/// the end of the exchange, and none is given back that was not leased.
pub proof fn law_every_lease_is_released_once(
    method: Seq<char>,
    has_authority: bool,
    events: Seq<ExchangeEvent>,
    ip: u128,
)
    ensures
        ({
            let start = Exchange::started(method, has_authority);
            let end = after_events(start, events);
            &&& lease_count(start, events, ip) == release_count(start, events, ip)
                + if end.held() == Some(ip) {
                1nat
            } else {
                0
            }
            &&& end is Done ==> lease_count(start, events, ip) == release_count(start, events, ip)
        }),
    decreases events.len(),
{
    if events.len() > 0 {
        let start = Exchange::started(method, has_authority);
        law_every_lease_is_released_once(method, has_authority, events.drop_last(), ip);
        law_address_is_held_until_released(
            after_events(start, events.drop_last()),
            events.last(),
            ip,
        );
    }
}

/// The exchange will not ask for an address any more.
pub open spec fn past_lease(exchange: Exchange) -> bool {
    exchange.held() is Some || exchange is Declining || exchange is Done
}

/// A request leases at most one address, at most once.
pub proof fn law_one_lease_per_request(
    method: Seq<char>,
    has_authority: bool,
    events: Seq<ExchangeEvent>,
    one: u128,
    other: u128,
)
    ensures
        ({
            let start = Exchange::started(method, has_authority);
            let ones = lease_count(start, events, one);
            let others = lease_count(start, events, other);
            &&& ones <= 1
            &&& one != other ==> ones + others <= 1
            &&& ones + others > 0 ==> past_lease(after_events(start, events))
        }),
    decreases events.len(),
{
    if events.len() > 0 {
        law_one_lease_per_request(method, has_authority, events.drop_last(), one, other);
    }
}

/// Where no address can be had, the client is told that the service is
/// unavailable, be it for a request or for a tunnel, and nothing is sent.
pub proof fn law_no_address_means_service_unavailable(method: Seq<char>, has_authority: bool)
    requires
        method != "CONNECT"@ || has_authority,
    ensures
        ({
            let start = Exchange::started(method, has_authority);
            let declined = start.after(ExchangeEvent::Leased { ip: None });
            &&& start.spec_action() is Lease
            &&& declined.spec_action() == (ExchangeAction::Respond { answer: Answer::Unavailable })
            &&& Answer::Unavailable.spec_status() == 503
            &&& declined.after(ExchangeEvent::Responded) == (Exchange::Done {
                outcome: Outcome::Served,
            })
        }),
{
}

/// A request that is not `CONNECT` is sent from the leased address, its
/// response is collected, and the address is given back before the exchange
/// ends.
pub proof fn law_request_is_passed_on(method: Seq<char>, has_authority: bool, ip: u128)
    requires
        method != "CONNECT"@,
    ensures
        ({
            let start = Exchange::started(method, has_authority);
            let sending = start.after(ExchangeEvent::Leased { ip: Some(ip) });
            let collecting = sending.after(ExchangeEvent::Sent);
            let releasing = collecting.after(ExchangeEvent::Collected);
            &&& sending.spec_action() == (ExchangeAction::Send { ip })
            &&& collecting.spec_action() is Collect
            &&& releasing.spec_action() == (ExchangeAction::Release { ip })
            &&& releasing.after(ExchangeEvent::Released) == (Exchange::Done {
                outcome: Outcome::Served,
            })
        }),
{
}

/// Where an exchange stands after so many attempts to connect came to
/// nothing.
pub open spec fn after_attempts(exchange: Exchange, attempts: nat) -> Exchange
    decreases attempts,
{
    if attempts == 0 {
        exchange
    } else {
        after_attempts(exchange, (attempts - 1) as nat).after(ExchangeEvent::Unreached)
    }
}

/// The addresses of a tunnel's target are tried one after the other, from
/// the first to the last; when none answers, the leased address is given back
/// and there is nothing to report.
pub proof fn law_addresses_are_tried_in_order(ip: u128, count: usize, attempts: nat)
    requires
        attempts <= count,
    ensures
        ({
            let resolved = (Exchange::Resolving { ip }).after(ExchangeEvent::Resolved { count });
            let now = after_attempts(resolved, attempts);
            if attempts < count {
                now.spec_action() == (ExchangeAction::Connect { index: attempts as usize, ip })
                    && now == (Exchange::Dialing { ip, next: attempts as usize, count })
            } else {
                now == (Exchange::Releasing { ip, outcome: Outcome::Served })
            }
        }),
    decreases attempts,
{
    if attempts > 0 {
        law_addresses_are_tried_in_order(ip, count, (attempts - 1) as nat);
    }
}

/// Whatever is sent or connected leaves from the leased address.
pub proof fn law_connections_leave_from_the_leased_address(exchange: Exchange)
    ensures
        exchange.spec_action() matches ExchangeAction::Send { ip } ==> exchange.held() == Some(ip),
        exchange.spec_action() matches ExchangeAction::Connect { index: _, ip } ==> exchange.held()
            == Some(ip),
        exchange.spec_action() matches ExchangeAction::Release { ip } ==> exchange.held() == Some(
            ip,
        ),
{
}

/// An exchange that is done stays as it is.
pub proof fn law_done_is_final(exchange: Exchange, event: ExchangeEvent)
    requires
        exchange is Done,
    ensures
        exchange.after(event) == exchange,
{
}

} // verus!
