use ipv6_pool_proxy::pool::{
    command_result, failure_text, ip_addr_args, list_arguments, Command, Ipv6Pool, PoolAction,
    PoolConfig, PoolEvent, PoolTask, MAX_ATTEMPTS,
};
use ipv6_pool_proxy::source::Source;
use ipv6_pool_proxy::subnet::Subnet;

const NETWORK: u128 = 0x2001_0db8_0000_0000_0000_0000_0000_0000;

fn config(pool_size: usize) -> PoolConfig {
    PoolConfig {
        iface: String::from("eth0"),
        subnet: Subnet { address: NETWORK, prefix_len: 64 },
        pool_size,
        cooldown_secs: 10,
    }
}

fn filled(pool_size: usize) -> Ipv6Pool {
    let (mut pool, mut task) = Ipv6Pool::new(config(pool_size));
    let mut random: u128 = 0;
    while task.outcome().is_none() {
        random += 1;
        task = task.handle(&mut pool, PoolEvent::Drawn { random });
        task = task.handle(&mut pool, PoolEvent::CommandDone { success: true });
    }
    assert_eq!(task, PoolTask::Finished);
    pool
}

#[test]
fn ip_arguments_name_the_address_as_a_network_of_one() {
    assert_eq!(
        ip_addr_args(Command::Add, NETWORK | 0x42, "eth0"),
        vec!["-6", "addr", "add", "2001:db8::42/128", "dev", "eth0"]
    );
    assert_eq!(
        ip_addr_args(Command::Del, 1, "ens3"),
        vec!["-6", "addr", "del", "::1/128", "dev", "ens3"]
    );
    assert_eq!(
        ip_addr_args(Command::Del, 0xffff_c000_020a, "e"),
        vec!["-6", "addr", "del", "::ffff:192.0.2.10/128", "dev", "e"]
    );
    assert_eq!(
        list_arguments(Command::Add, "fe80::2", "lo"),
        vec!["-6", "addr", "add", "fe80::2/128", "dev", "lo"]
    );
}

#[test]
fn failed_command_is_reported_with_its_complaint() {
    assert_eq!(command_result(Command::Add, 1, "eth0", true, b"ignored"), Ok(()));
    assert_eq!(
        command_result(Command::Add, 1, "eth0", false, b"RTNETLINK answers: File exists\n"),
        Err(String::from(
            "ip -6 addr add ::1/128 dev eth0: RTNETLINK answers: File exists\n"
        ))
    );
    assert_eq!(
        command_result(Command::Del, 1, "eth0", false, &[0x61, 0xff, 0x62]),
        Err(String::from("ip -6 addr del ::1/128 dev eth0: a\u{fffd}b"))
    );
    assert_eq!(
        failure_text(Command::Del, "::2", "lo", "no"),
        "ip -6 addr del ::2/128 dev lo: no"
    );
}

#[test]
fn filling_binds_as_many_addresses_as_asked_for() {
    let mut pool = filled(3);
    assert_eq!(pool.lease(), Some(NETWORK | 3));
    assert_eq!(pool.lease(), Some(NETWORK | 2));
    assert_eq!(pool.lease(), Some(NETWORK | 1));
    assert_eq!(pool.lease(), None);
}

#[test]
fn pool_of_no_addresses_is_filled_at_once() {
    let (mut pool, task) = Ipv6Pool::new(config(0));
    assert_eq!(task, PoolTask::Finished);
    assert_eq!(task.outcome(), Some(Ok(())));
    assert_eq!(pool.lease(), None);
}

#[test]
fn candidate_that_was_bound_before_is_drawn_again() {
    let mut pool = filled(1);
    let task = PoolTask::Choosing { failed: 4, more: 2 };
    assert_eq!(task.handle(&mut pool, PoolEvent::Drawn { random: 1 }), task);
    assert_eq!(
        task.handle(&mut pool, PoolEvent::Drawn { random: 9 }),
        PoolTask::Adding { ip: NETWORK | 9, failed: 4, more: 2 }
    );
}

#[test]
fn released_address_is_recycled() {
    let mut pool = filled(1);
    let ip = NETWORK | 1;
    assert_eq!(pool.lease(), Some(ip));
    let task = pool.release(ip);
    assert_eq!(task.action(&pool.config), PoolAction::Sleep { secs: 10 });
    let task = task.handle(&mut pool, PoolEvent::Slept);
    assert_eq!(task.action(&pool.config), PoolAction::Run { command: Command::Del, ip });
    let task = task.handle(&mut pool, PoolEvent::CommandDone { success: false });
    assert_eq!(task.action(&pool.config), PoolAction::Draw);
    let task = task.handle(&mut pool, PoolEvent::Drawn { random: 1 });
    assert_eq!(task.action(&pool.config), PoolAction::Draw);
    let task = task.handle(&mut pool, PoolEvent::Drawn { random: 2 });
    assert_eq!(
        task.action(&pool.config),
        PoolAction::Run { command: Command::Add, ip: NETWORK | 2 }
    );
    assert_eq!(pool.lease(), None);
    let task = task.handle(&mut pool, PoolEvent::CommandDone { success: true });
    assert_eq!(task.action(&pool.config), PoolAction::Stop);
    assert_eq!(task.outcome(), Some(Ok(())));
    assert_eq!(pool.lease(), Some(NETWORK | 2));
}

#[test]
fn no_address_is_leased_twice() {
    let mut pool = filled(2);
    let mut seen: Vec<u128> = Vec::new();
    for round in 0..50u128 {
        let ip = pool.lease().unwrap();
        assert!(!seen.contains(&ip));
        seen.push(ip);
        let mut task = pool.release(ip);
        task = task.handle(&mut pool, PoolEvent::Slept);
        task = task.handle(&mut pool, PoolEvent::CommandDone { success: true });
        task = task.handle(&mut pool, PoolEvent::Drawn { random: 100 + round / 2 });
        task = task.handle(&mut pool, PoolEvent::Drawn { random: 1000 + round });
        task = task.handle(&mut pool, PoolEvent::CommandDone { success: true });
        assert_eq!(task, PoolTask::Finished);
    }
}

#[test]
fn replacement_is_given_up_after_a_thousand_attempts() {
    assert_eq!(MAX_ATTEMPTS, 1000);
    let (mut pool, mut task) = Ipv6Pool::new(config(5));
    for attempt in 0..1000u128 {
        assert_eq!(task.outcome(), None);
        task = task.handle(&mut pool, PoolEvent::Drawn { random: attempt });
        task = task.handle(&mut pool, PoolEvent::CommandDone { success: false });
    }
    assert_eq!(task, PoolTask::GaveUp);
    assert_eq!(
        task.outcome(),
        Some(Err("could not add a replacement IPv6 after 1000 attempts"))
    );
    assert_eq!(pool.lease(), None);
    assert_eq!(task.handle(&mut pool, PoolEvent::Drawn { random: 1 }), task);
}

#[test]
fn success_starts_the_count_of_attempts_anew() {
    let (mut pool, _) = Ipv6Pool::new(config(2));
    let task = PoolTask::Adding { ip: NETWORK | 1, failed: 999, more: 1 };
    assert_eq!(
        task.handle(&mut pool, PoolEvent::CommandDone { success: false }),
        PoolTask::GaveUp
    );
    assert_eq!(
        task.handle(&mut pool, PoolEvent::CommandDone { success: true }),
        PoolTask::Choosing { failed: 0, more: 0 }
    );
}

#[test]
fn candidates_are_drawn_at_random_from_the_network() {
    let (mut pool, task) = Ipv6Pool::new(config(1));
    match pool.next_candidate(task) {
        PoolTask::Adding { ip, failed: 0, more: 0 } => {
            assert_eq!(ip >> 64, NETWORK >> 64);
            assert_ne!(pool.next_candidate(task), PoolTask::Adding { ip, failed: 0, more: 0 });
        }
        other => panic!("{other:?}"),
    }
    assert_eq!(pool.next_candidate(PoolTask::Finished), PoolTask::Finished);
}

#[test]
fn event_that_was_not_asked_for_changes_nothing() {
    let mut pool = filled(1);
    let task = PoolTask::Cooling { ip: NETWORK | 1 };
    assert_eq!(task.handle(&mut pool, PoolEvent::CommandDone { success: true }), task);
    assert_eq!(task.handle(&mut pool, PoolEvent::Drawn { random: 5 }), task);
    assert_eq!(pool.lease(), Some(NETWORK | 1));
}

#[test]
fn sources_lease_and_release() {
    let subnet = Subnet { address: NETWORK, prefix_len: 64 };
    let mut random = Source::RandomCidr { subnet };
    let ip = random.lease().unwrap();
    assert_eq!(ip >> 64, NETWORK >> 64);
    assert_ne!(random.lease(), Some(ip));
    assert_eq!(random.release(ip), None);

    let mut dynamic = Source::Dynamic(filled(1));
    assert_eq!(dynamic.lease(), Some(NETWORK | 1));
    assert_eq!(dynamic.lease(), None);
    assert_eq!(
        dynamic.release(NETWORK | 1),
        Some(PoolTask::Cooling { ip: NETWORK | 1 })
    );
}

#[test]
fn leased_addresses_are_made_up_for() {
    let mut pool = filled(3);
    let first = pool.lease().unwrap();
    let second = pool.lease().unwrap();
    let task = pool.release(first);
    let task = task.handle(&mut pool, PoolEvent::Slept);
    let task = task.handle(&mut pool, PoolEvent::CommandDone { success: true });
    let task = task.handle(&mut pool, PoolEvent::Drawn { random: 100 });
    let task = task.handle(&mut pool, PoolEvent::CommandDone { success: true });
    assert_eq!(task, PoolTask::Finished);
    // One address is still held, so two of the three can be leased.
    let mut leased = vec![first, second];
    while let Some(ip) = pool.lease() {
        assert!(!leased.contains(&ip));
        leased.push(ip);
    }
    assert_eq!(leased.len(), 4);
}

#[test]
fn interface_has_what_is_leasable_and_leased() {
    let own = NETWORK | 0xffff;
    let (mut pool, task) = Ipv6Pool::new(config(3));
    let mut interface = vec![own];
    let mut random: u128 = 0;
    // Runs a task against an interface that refuses what it already has.
    let mut run = |pool: &mut Ipv6Pool, interface: &mut Vec<u128>, mut task: PoolTask| {
        while task.outcome().is_none() {
            let event = match task.action(&pool.config) {
                PoolAction::Sleep { .. } => PoolEvent::Slept,
                PoolAction::Draw => {
                    random += 1;
                    PoolEvent::Drawn { random: if random == 2 { 0xffff } else { random } }
                }
                PoolAction::Run { command: Command::Add, ip } => {
                    let success = !interface.contains(&ip);
                    if success {
                        interface.push(ip);
                    }
                    PoolEvent::CommandDone { success }
                }
                PoolAction::Run { command: Command::Del, ip } => {
                    interface.retain(|other| *other != ip);
                    PoolEvent::CommandDone { success: true }
                }
                PoolAction::Stop => panic!("over"),
            };
            task = task.handle(pool, event);
        }
    };
    run(&mut pool, &mut interface, task);
    let first = pool.lease().unwrap();
    let second = pool.lease().unwrap();
    let task = pool.release(first);
    run(&mut pool, &mut interface, task);
    assert!(!interface.contains(&first));

    let mut expected = vec![own, second];
    while let Some(ip) = pool.lease() {
        expected.push(ip);
    }
    expected.sort();
    interface.sort();
    assert_eq!(interface, expected);
    assert_eq!(interface.len(), 4);
}

#[test]
fn releases_of_addresses_that_are_not_held_do_not_bring_one_back() {
    let mut pool = filled(2);
    let waiting = NETWORK | 1;
    let mut task = pool.release(waiting);
    for event in [
        PoolEvent::Slept,
        PoolEvent::CommandDone { success: true },
        PoolEvent::Drawn { random: 1 },
        PoolEvent::Drawn { random: 9 },
        PoolEvent::CommandDone { success: true },
    ] {
        task = task.handle(&mut pool, event);
    }
    let mut leased = Vec::new();
    while let Some(ip) = pool.lease() {
        assert!(!leased.contains(&ip));
        leased.push(ip);
    }
    assert_eq!(leased, vec![NETWORK | 9, NETWORK | 2, NETWORK | 1]);
}
