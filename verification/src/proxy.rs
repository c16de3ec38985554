//! The course of one request to the HTTP proxy.
//!
//! A request is either passed on, or, where its method is `CONNECT`, turned
//! into a tunnel. Both lease an address to connect from and give it back
//! when they end. An [`Exchange`] says what to do next and takes in what came
//! of it.

use crate::text::same_text;
use vstd::prelude::*;

verus! {

/// A response that the proxy gives of its own.
#[derive(Clone, Copy, Debug, PartialEq, Eq, Structural)]
pub enum Answer {
    /// The tunnel is open.
    Established,
    /// There is no address to connect from.
    Unavailable,
}

impl Answer {
    pub open spec fn spec_status(self) -> u16 {
        match self {
            Answer::Established => 200,
            Answer::Unavailable => 503,
        }
    }

    pub open spec fn spec_body(self) -> Seq<char> {
        match self {
            Answer::Established => ""@,
            Answer::Unavailable => "dynamic IPv6 pool exhausted"@,
        }
    }

    /// The status code of the response.
    pub fn status(self) -> (status: u16)
        ensures
            status == self.spec_status(),
    {
        match self {
            Answer::Established => 200,
            Answer::Unavailable => 503,
        }
    }

    /// The body of the response.
    pub fn body(self) -> (text: &'static str)
        ensures
            text@ == self.spec_body(),
    {
        match self {
            Answer::Established => "",
            Answer::Unavailable => "dynamic IPv6 pool exhausted",
        }
    }
}

/// How an exchange ended.
#[derive(Clone, Copy, Debug, PartialEq, Eq, Structural)]
pub enum Outcome {
    /// There is nothing to report.
    Served,
    /// The action before failed, and its error is to be reported.
    Failed,
}

/// Where an exchange stands.
#[derive(Clone, Copy, Debug, PartialEq, Eq, Structural)]
pub enum Exchange {
    /// Asking for an address to connect from.
    Leasing { tunnel: bool },
    /// Telling the client that there is none.
    Declining,
    /// Opening a tunnel that has no target.
    Dismissing,
    /// Passing the request on.
    Sending { ip: u128 },
    /// Collecting the body of the response.
    Collecting { ip: u128 },
    /// Telling the client that the tunnel is open.
    Accepting { ip: u128 },
    /// Taking over the connection to the client.
    Upgrading { ip: u128 },
    /// Looking up the target of the tunnel.
    Resolving { ip: u128 },
    /// Connecting to the target at one of its `count` addresses.
    Dialing { ip: u128, next: usize, count: usize },
    /// Passing data on.
    Relaying { ip: u128 },
    /// Giving the address back.
    Releasing { ip: u128, outcome: Outcome },
    /// Done.
    Done { outcome: Outcome },
}

/// What came of the action that an exchange asked for.
#[derive(Clone, Copy, Debug, PartialEq, Eq, Structural)]
pub enum ExchangeEvent {
    Leased { ip: Option<u128> },
    Responded,
    Sent,
    Collected,
    Upgraded,
    UpgradeFailed,
    Resolved { count: usize },
    ResolveFailed,
    Connected,
    /// The socket could not be bound to the address, or not be connected.
    Unreached,
    Relayed,
    Released,
    /// The action failed in a way that ends the exchange.
    Failed,
}

/// What an exchange asks for.
#[derive(Clone, Copy, Debug, PartialEq, Eq, Structural)]
pub enum ExchangeAction {
    Lease,
    Respond { answer: Answer },
    Send { ip: u128 },
    Collect,
    Upgrade,
    Resolve,
    Connect { index: usize, ip: u128 },
    Relay,
    Release { ip: u128 },
    Finish { outcome: Outcome },
}

/// Where an exchange stands that goes on dialing at this place.
pub open spec fn dialing_from(ip: u128, next: nat, count: usize) -> Exchange {
    if next < count {
        Exchange::Dialing { ip, next: next as usize, count }
    } else {
        Exchange::Releasing { ip, outcome: Outcome::Served }
    }
}

impl Exchange {
    /// The start of an exchange.
    pub open spec fn started(method: Seq<char>, has_authority: bool) -> Exchange {
        if method != "CONNECT"@ {
            Exchange::Leasing { tunnel: false }
        } else if has_authority {
            Exchange::Leasing { tunnel: true }
        } else {
            Exchange::Dismissing
        }
    }

    /// The address that the exchange has leased and not given back.
    pub open spec fn held(self) -> Option<u128> {
        match self {
            Exchange::Sending { ip } => Some(ip),
            Exchange::Collecting { ip } => Some(ip),
            Exchange::Accepting { ip } => Some(ip),
            Exchange::Upgrading { ip } => Some(ip),
            Exchange::Resolving { ip } => Some(ip),
            Exchange::Dialing { ip, next: _, count: _ } => Some(ip),
            Exchange::Relaying { ip } => Some(ip),
            Exchange::Releasing { ip, outcome: _ } => Some(ip),
            _ => None,
        }
    }

    /// Where an exchange stands when its action failed.
    pub open spec fn broken(self) -> Exchange {
        match self {
            Exchange::Releasing { ip: _, outcome: _ } => self,
            Exchange::Done { outcome: _ } => self,
            _ => match self.held() {
                Some(ip) => Exchange::Releasing { ip, outcome: Outcome::Failed },
                None => Exchange::Done { outcome: Outcome::Failed },
            },
        }
    }

    /// Where an exchange stands after an event. One that it did not ask for
    /// changes nothing.
    pub open spec fn after(self, event: ExchangeEvent) -> Exchange {
        match (self, event) {
            (_, ExchangeEvent::Failed) => self.broken(),
            (Exchange::Leasing { tunnel }, ExchangeEvent::Leased { ip }) => match ip {
                Some(ip) => if tunnel {
                    Exchange::Accepting { ip }
                } else {
                    Exchange::Sending { ip }
                },
                None => Exchange::Declining,
            },
            (Exchange::Declining, ExchangeEvent::Responded) => Exchange::Done {
                outcome: Outcome::Served,
            },
            (Exchange::Dismissing, ExchangeEvent::Responded) => Exchange::Done {
                outcome: Outcome::Served,
            },
            (Exchange::Sending { ip }, ExchangeEvent::Sent) => Exchange::Collecting { ip },
            (Exchange::Collecting { ip }, ExchangeEvent::Collected) => Exchange::Releasing {
                ip,
                outcome: Outcome::Served,
            },
            (Exchange::Accepting { ip }, ExchangeEvent::Responded) => Exchange::Upgrading { ip },
            (Exchange::Upgrading { ip }, ExchangeEvent::Upgraded) => Exchange::Resolving { ip },
            (Exchange::Upgrading { ip }, ExchangeEvent::UpgradeFailed) => Exchange::Releasing {
                ip,
                outcome: Outcome::Served,
            },
            (Exchange::Resolving { ip }, ExchangeEvent::Resolved { count }) => dialing_from(
                ip,
                0,
                count,
            ),
            (Exchange::Resolving { ip }, ExchangeEvent::ResolveFailed) => Exchange::Releasing {
                ip,
                outcome: Outcome::Served,
            },
            (Exchange::Dialing { ip, next: _, count: _ }, ExchangeEvent::Connected) =>
                Exchange::Relaying { ip },
            (Exchange::Dialing { ip, next, count }, ExchangeEvent::Unreached) => dialing_from(
                ip,
                (next + 1) as nat,
                count,
            ),
            (Exchange::Relaying { ip }, ExchangeEvent::Relayed) => Exchange::Releasing {
                ip,
                outcome: Outcome::Served,
            },
            (Exchange::Releasing { ip: _, outcome }, ExchangeEvent::Released) => Exchange::Done {
                outcome,
            },
            _ => self,
        }
    }

    /// What the exchange asks for.
    pub open spec fn spec_action(self) -> ExchangeAction {
        match self {
            Exchange::Leasing { tunnel: _ } => ExchangeAction::Lease,
            Exchange::Declining => ExchangeAction::Respond { answer: Answer::Unavailable },
            Exchange::Dismissing => ExchangeAction::Respond { answer: Answer::Established },
            Exchange::Sending { ip } => ExchangeAction::Send { ip },
            Exchange::Collecting { ip: _ } => ExchangeAction::Collect,
            Exchange::Accepting { ip: _ } => ExchangeAction::Respond {
                answer: Answer::Established,
            },
            Exchange::Upgrading { ip: _ } => ExchangeAction::Upgrade,
            Exchange::Resolving { ip: _ } => ExchangeAction::Resolve,
            Exchange::Dialing { ip, next, count: _ } => ExchangeAction::Connect { index: next, ip },
            Exchange::Relaying { ip: _ } => ExchangeAction::Relay,
            Exchange::Releasing { ip, outcome: _ } => ExchangeAction::Release { ip },
            Exchange::Done { outcome } => ExchangeAction::Finish { outcome },
        }
    }

    /// Takes up a request with this method; `has_authority` says whether it
    /// names a target to open a tunnel to.
    pub fn start(method: &str, has_authority: bool) -> (exchange: Exchange)
        ensures
            exchange == Exchange::started(method@, has_authority),
    {
        if !same_text(method, "CONNECT") {
            Exchange::Leasing { tunnel: false }
        } else if has_authority {
            Exchange::Leasing { tunnel: true }
        } else {
            Exchange::Dismissing
        }
    }

    /// Says what to do next.
    pub fn action(self) -> (action: ExchangeAction)
        ensures
            action == self.spec_action(),
    {
        match self {
            Exchange::Leasing { tunnel: _ } => ExchangeAction::Lease,
            Exchange::Declining => ExchangeAction::Respond { answer: Answer::Unavailable },
            Exchange::Dismissing => ExchangeAction::Respond { answer: Answer::Established },
            Exchange::Sending { ip } => ExchangeAction::Send { ip },
            Exchange::Collecting { ip: _ } => ExchangeAction::Collect,
            Exchange::Accepting { ip: _ } => ExchangeAction::Respond {
                answer: Answer::Established,
            },
            Exchange::Upgrading { ip: _ } => ExchangeAction::Upgrade,
            Exchange::Resolving { ip: _ } => ExchangeAction::Resolve,
            Exchange::Dialing { ip, next, count: _ } => ExchangeAction::Connect { index: next, ip },
            Exchange::Relaying { ip: _ } => ExchangeAction::Relay,
            Exchange::Releasing { ip, outcome: _ } => ExchangeAction::Release { ip },
            Exchange::Done { outcome } => ExchangeAction::Finish { outcome },
        }
    }

    fn dial_from(ip: u128, next: usize, count: usize) -> (exchange: Exchange)
        ensures
            exchange == dialing_from(ip, next as nat, count),
    {
        if next < count {
            Exchange::Dialing { ip, next, count }
        } else {
            Exchange::Releasing { ip, outcome: Outcome::Served }
        }
    }

    fn break_off(self) -> (exchange: Exchange)
        ensures
            exchange == self.broken(),
    {
        let outcome = Outcome::Failed;
        match self {
            Exchange::Sending { ip } => Exchange::Releasing { ip, outcome },
            Exchange::Collecting { ip } => Exchange::Releasing { ip, outcome },
            Exchange::Accepting { ip } => Exchange::Releasing { ip, outcome },
            Exchange::Upgrading { ip } => Exchange::Releasing { ip, outcome },
            Exchange::Resolving { ip } => Exchange::Releasing { ip, outcome },
            Exchange::Dialing { ip, next: _, count: _ } => Exchange::Releasing { ip, outcome },
            Exchange::Relaying { ip } => Exchange::Releasing { ip, outcome },
            Exchange::Releasing { ip: _, outcome: _ } => self,
            Exchange::Done { outcome: _ } => self,
            _ => Exchange::Done { outcome },
        }
    }

    /// Takes in what came of the action.
    pub fn handle(self, event: ExchangeEvent) -> (next: Exchange)
        ensures
            next == self.after(event),
    {
        match (self, event) {
            (_, ExchangeEvent::Failed) => self.break_off(),
            (Exchange::Leasing { tunnel }, ExchangeEvent::Leased { ip }) => match ip {
                Some(ip) => if tunnel {
                    Exchange::Accepting { ip }
                } else {
                    Exchange::Sending { ip }
                },
                None => Exchange::Declining,
            },
            (Exchange::Declining, ExchangeEvent::Responded) => Exchange::Done {
                outcome: Outcome::Served,
            },
            (Exchange::Dismissing, ExchangeEvent::Responded) => Exchange::Done {
                outcome: Outcome::Served,
            },
            (Exchange::Sending { ip }, ExchangeEvent::Sent) => Exchange::Collecting { ip },
            (Exchange::Collecting { ip }, ExchangeEvent::Collected) => Exchange::Releasing {
                ip,
                outcome: Outcome::Served,
            },
            (Exchange::Accepting { ip }, ExchangeEvent::Responded) => Exchange::Upgrading { ip },
            (Exchange::Upgrading { ip }, ExchangeEvent::Upgraded) => Exchange::Resolving { ip },
            (Exchange::Upgrading { ip }, ExchangeEvent::UpgradeFailed) => Exchange::Releasing {
                ip,
                outcome: Outcome::Served,
            },
            (Exchange::Resolving { ip }, ExchangeEvent::Resolved { count }) => Exchange::dial_from(
                ip,
                0,
                count,
            ),
            (Exchange::Resolving { ip }, ExchangeEvent::ResolveFailed) => Exchange::Releasing {
                ip,
                outcome: Outcome::Served,
            },
            (Exchange::Dialing { ip, next: _, count: _ }, ExchangeEvent::Connected) =>
                Exchange::Relaying { ip },
            (Exchange::Dialing { ip, next, count }, ExchangeEvent::Unreached) => {
                if next < count {
                    Exchange::dial_from(ip, next + 1, count)
                } else {
                    Exchange::Releasing { ip, outcome: Outcome::Served }
                }
            },
            (Exchange::Relaying { ip }, ExchangeEvent::Relayed) => Exchange::Releasing {
                ip,
                outcome: Outcome::Served,
            },
            (Exchange::Releasing { ip: _, outcome }, ExchangeEvent::Released) => Exchange::Done {
                outcome,
            },
            _ => self,
        }
    }
}

} // verus!
