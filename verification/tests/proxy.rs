use ipv6_pool_proxy::proxy::{Answer, Exchange, ExchangeAction, ExchangeEvent, Outcome};

fn tunnel() -> Exchange {
    Exchange::start("CONNECT", true)
        .handle(ExchangeEvent::Leased { ip: Some(7) })
        .handle(ExchangeEvent::Responded)
        .handle(ExchangeEvent::Upgraded)
}

fn end(exchange: Exchange) -> ExchangeAction {
    assert_eq!(exchange.action(), ExchangeAction::Release { ip: 7 });
    exchange.handle(ExchangeEvent::Released).action()
}

const SERVED: ExchangeAction = ExchangeAction::Finish { outcome: Outcome::Served };
const FAILED: ExchangeAction = ExchangeAction::Finish { outcome: Outcome::Failed };

#[test]
fn request_is_passed_on_from_the_leased_address() {
    for method in ["GET", "POST", "connect", "CONNECT ", ""] {
        let exchange = Exchange::start(method, true);
        assert_eq!(exchange, Exchange::Leasing { tunnel: false });
        assert_eq!(exchange.action(), ExchangeAction::Lease);
    }
    let exchange = Exchange::start("GET", false).handle(ExchangeEvent::Leased { ip: Some(7) });
    assert_eq!(exchange.action(), ExchangeAction::Send { ip: 7 });
    let exchange = exchange.handle(ExchangeEvent::Sent);
    assert_eq!(exchange.action(), ExchangeAction::Collect);
    assert_eq!(end(exchange.handle(ExchangeEvent::Collected)), SERVED);
}

#[test]
fn failed_request_gives_the_address_back() {
    let sending = Exchange::start("GET", true).handle(ExchangeEvent::Leased { ip: Some(7) });
    assert_eq!(end(sending.handle(ExchangeEvent::Failed)), FAILED);
    let collecting = sending.handle(ExchangeEvent::Sent);
    assert_eq!(end(collecting.handle(ExchangeEvent::Failed)), FAILED);
}

#[test]
fn service_is_unavailable_without_an_address() {
    for (method, has_authority) in [("GET", true), ("GET", false), ("CONNECT", true)] {
        let exchange = Exchange::start(method, has_authority);
        let exchange = exchange.handle(ExchangeEvent::Leased { ip: None });
        assert_eq!(
            exchange.action(),
            ExchangeAction::Respond { answer: Answer::Unavailable }
        );
        assert_eq!(exchange.handle(ExchangeEvent::Responded).action(), SERVED);
    }
    assert_eq!(Answer::Unavailable.status(), 503);
    assert_eq!(Answer::Unavailable.body(), "dynamic IPv6 pool exhausted");
}

#[test]
fn tunnel_is_opened_and_relayed() {
    let exchange = Exchange::start("CONNECT", true);
    let exchange = exchange.handle(ExchangeEvent::Leased { ip: Some(7) });
    assert_eq!(
        exchange.action(),
        ExchangeAction::Respond { answer: Answer::Established }
    );
    assert_eq!(Answer::Established.status(), 200);
    assert_eq!(Answer::Established.body(), "");
    let exchange = exchange.handle(ExchangeEvent::Responded);
    assert_eq!(exchange.action(), ExchangeAction::Upgrade);
    let exchange = exchange.handle(ExchangeEvent::Upgraded);
    assert_eq!(exchange.action(), ExchangeAction::Resolve);
    let exchange = exchange.handle(ExchangeEvent::Resolved { count: 3 });
    assert_eq!(exchange.action(), ExchangeAction::Connect { index: 0, ip: 7 });
    let exchange = exchange.handle(ExchangeEvent::Unreached);
    assert_eq!(exchange.action(), ExchangeAction::Connect { index: 1, ip: 7 });
    let exchange = exchange.handle(ExchangeEvent::Connected);
    assert_eq!(exchange.action(), ExchangeAction::Relay);
    assert_eq!(end(exchange.handle(ExchangeEvent::Relayed)), SERVED);
    assert_eq!(end(exchange.handle(ExchangeEvent::Failed)), FAILED);
}

#[test]
fn tunnel_without_a_target_leases_nothing() {
    let exchange = Exchange::start("CONNECT", false);
    assert_eq!(
        exchange.action(),
        ExchangeAction::Respond { answer: Answer::Established }
    );
    assert_eq!(exchange.handle(ExchangeEvent::Responded).action(), SERVED);
}

#[test]
fn tunnel_that_reaches_nothing_ends_quietly() {
    assert_eq!(end(tunnel().handle(ExchangeEvent::ResolveFailed)), SERVED);
    assert_eq!(end(tunnel().handle(ExchangeEvent::Resolved { count: 0 })), SERVED);
    let dialing = tunnel().handle(ExchangeEvent::Resolved { count: 2 });
    let last = dialing.handle(ExchangeEvent::Unreached);
    assert_eq!(end(last.handle(ExchangeEvent::Unreached)), SERVED);
    assert_eq!(end(last.handle(ExchangeEvent::Failed)), FAILED);
}

#[test]
fn tunnel_that_is_not_taken_over_gives_the_address_back() {
    let accepting = Exchange::start("CONNECT", true).handle(ExchangeEvent::Leased { ip: Some(7) });
    let upgrading = accepting.handle(ExchangeEvent::Responded);
    assert_eq!(end(upgrading.handle(ExchangeEvent::UpgradeFailed)), SERVED);
}

#[test]
fn finished_exchange_takes_no_more_events() {
    let done = Exchange::Done { outcome: Outcome::Served };
    assert_eq!(done.handle(ExchangeEvent::Failed), done);
    assert_eq!(done.handle(ExchangeEvent::Leased { ip: Some(1) }), done);
}
