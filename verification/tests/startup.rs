use ipv6_pool_proxy::pool::{PoolAction, PoolEvent, PoolTask};
use ipv6_pool_proxy::source::Source;
use ipv6_pool_proxy::startup::{
    pool_config, resolve_options, socks5_credentials, source_for, start, Credentials, OptionError,
    Options, RawOptions, Stage, StageAction, StageEvent,
};
use ipv6_pool_proxy::subnet::{parse_subnet, InvalidSubnet, Subnet};

fn raw() -> RawOptions {
    RawOptions {
        bind: None,
        ipv6_subnet: None,
        dynamic_pool: false,
        iface: None,
        pool_size: None,
        cooldown_secs: None,
        socks5_bind: None,
        socks5_user: None,
        socks5_pass: None,
    }
}

fn some(text: &str) -> Option<String> {
    Some(String::from(text))
}

fn options(raw: RawOptions) -> Options {
    resolve_options(raw).unwrap()
}

const SUBNET: Result<Subnet, InvalidSubnet> = Ok(Subnet { address: 0, prefix_len: 64 });

fn stopped(stage: Stage) -> (i32, String) {
    match stage {
        Stage::Stopped { code, message } => (code, message),
        other => panic!("{other:?}"),
    }
}

#[test]
fn options_have_defaults() {
    let options = options(raw());
    assert_eq!(options.bind, "0.0.0.0:51080");
    assert_eq!(options.ipv6_subnet, "2001:19f0:6001:48e4::/64");
    assert!(!options.dynamic_pool);
    assert_eq!(options.iface, "eth0");
    assert_eq!(options.pool_size, 1000);
    assert_eq!(options.cooldown_secs, 60);
    assert_eq!(options.socks5_bind, None);
    assert!(parse_subnet(&options.ipv6_subnet).is_ok());
}

#[test]
fn options_are_taken_as_given() {
    let options = options(RawOptions {
        bind: some("127.0.0.1:51080"),
        ipv6_subnet: some("2602:f66f:70:d968::/64"),
        dynamic_pool: true,
        iface: some("ens3"),
        pool_size: some("20"),
        cooldown_secs: some("10"),
        socks5_bind: some("127.0.0.1:1080"),
        socks5_user: some("me"),
        socks5_pass: some("key"),
    });
    assert_eq!(options.bind, "127.0.0.1:51080");
    assert!(options.dynamic_pool);
    assert_eq!(options.socks5_bind, some("127.0.0.1:1080"));
    assert_eq!(options.socks5_user, some("me"));
    assert_eq!(options.socks5_pass, some("key"));
    let subnet = parse_subnet(&options.ipv6_subnet).unwrap();
    assert_eq!(subnet.address, 0x2602_f66f_0070_d968u128 << 64);
    let config = pool_config(&options, subnet);
    assert_eq!(config.iface, "ens3");
    assert_eq!(config.subnet, subnet);
    assert_eq!(config.pool_size, 20);
    assert_eq!(config.cooldown_secs, 10);
}

#[test]
fn numbers_have_to_be_numbers() {
    let sized = RawOptions { pool_size: some("many"), cooldown_secs: some("-1"), ..raw() };
    assert_eq!(resolve_options(sized).unwrap_err(), OptionError::PoolSize);
    let timed = RawOptions { cooldown_secs: some("-1"), ..raw() };
    assert_eq!(resolve_options(timed).unwrap_err(), OptionError::CooldownSecs);
    let largest = RawOptions { pool_size: some("18446744073709551616"), ..raw() };
    assert_eq!(resolve_options(largest).unwrap_err(), OptionError::PoolSize);
}

#[test]
fn errors_of_options_are_explained() {
    assert_eq!(OptionError::PoolSize.message(), "pool size not valid");
    assert_eq!(OptionError::CooldownSecs.message(), "cooldown seconds not valid");
    assert_eq!(OptionError::Subnet.message(), "invalid IPv6 subnet");
    assert_eq!(
        OptionError::MissingSocks5User.message(),
        "socks5 username is required when --socks5-bind is set"
    );
    assert_eq!(
        OptionError::MissingSocks5Pass.message(),
        "socks5 password is required when --socks5-bind is set"
    );
}

#[test]
fn improper_network_stops_the_start() {
    assert_eq!(
        stopped(Stage::begin(&Err(InvalidSubnet))),
        (1, String::from("invalid IPv6 subnet"))
    );
}

#[test]
fn improper_bind_address_stops_the_start() {
    let event = StageEvent::AddressInvalid { text: String::from("odd") };
    let stage = Stage::begin(&SUBNET).handle(event, &options(raw()));
    assert_eq!(stopped(stage), (0, String::from("bind address not valid: odd")));
}

#[test]
fn start_without_pool_and_socks5_serves_at_once() {
    let stage = Stage::begin(&SUBNET).handle(StageEvent::AddressRead, &options(raw()));
    assert!(matches!(stage, Stage::Serving));
}

#[test]
fn pool_is_filled_before_anything_is_served() {
    let options = options(RawOptions { dynamic_pool: true, ..raw() });
    let stage = Stage::begin(&SUBNET).handle(StageEvent::AddressRead, &options);
    assert!(matches!(stage, Stage::Pool));
    let failed = StageEvent::PoolFailed { text: String::from("no") };
    assert_eq!(
        stopped(stage.handle(failed, &options)),
        (0, String::from("failed to initialize dynamic IPv6 pool: no"))
    );
    assert!(matches!(Stage::Pool.handle(StageEvent::PoolFilled, &options), Stage::Serving));
}

#[test]
fn socks5_needs_a_name_and_a_password() {
    let bare = options(RawOptions { socks5_bind: some("[::]:1080"), ..raw() });
    let stage = Stage::begin(&SUBNET).handle(StageEvent::AddressRead, &bare);
    assert_eq!(
        stopped(stage),
        (1, String::from("socks5 username is required when --socks5-bind is set"))
    );
    let named = options(RawOptions {
        socks5_bind: some("[::]:1080"),
        socks5_user: some("me"),
        ..raw()
    });
    let stage = Stage::begin(&SUBNET).handle(StageEvent::AddressRead, &named);
    assert_eq!(
        stopped(stage),
        (1, String::from("socks5 password is required when --socks5-bind is set"))
    );
}

#[test]
fn socks5_address_is_read_last() {
    let full = options(RawOptions {
        socks5_bind: some("[::]:1080"),
        socks5_user: some("me"),
        socks5_pass: some(""),
        ..raw()
    });
    let stage = Stage::begin(&SUBNET).handle(StageEvent::AddressRead, &full);
    assert!(matches!(stage, Stage::Socks5Address));
    let invalid = StageEvent::AddressInvalid { text: String::from("odd") };
    assert_eq!(
        stopped(Stage::Socks5Address.handle(invalid, &full)),
        (0, String::from("socks5 bind address not valid: odd"))
    );
    assert!(matches!(stage.handle(StageEvent::AddressRead, &full), Stage::Serving));
}

fn read_text(stage: &Stage, options: &Options) -> String {
    match stage.action(options) {
        StageAction::ReadAddress { text } => text,
        other => panic!("{other:?}"),
    }
}

fn served(stage: &Stage, options: &Options) -> Option<Credentials> {
    match stage.action(options) {
        StageAction::Serve { socks5 } => socks5,
        other => panic!("{other:?}"),
    }
}

fn pooled() -> Options {
    options(RawOptions {
        bind: some("127.0.0.1:51080"),
        ipv6_subnet: some("2602:f66f:70:d968::/64"),
        dynamic_pool: true,
        iface: some("eth0"),
        pool_size: some("20"),
        cooldown_secs: some("10"),
        ..raw()
    })
}

#[test]
fn pool_that_was_asked_for_is_filled_and_served() {
    let options = pooled();
    let parsed = parse_subnet(&options.ipv6_subnet);
    let stage = Stage::begin(&parsed);
    assert_eq!(read_text(&stage, &options), "127.0.0.1:51080");
    let stage = stage.handle(StageEvent::AddressRead, &options);
    assert!(matches!(stage.action(&options), StageAction::FillPool));

    let subnet = parsed.unwrap();
    let (source, mut task) = source_for(&options, subnet);
    let mut pool = match source {
        Source::Dynamic(pool) => pool,
        _ => panic!("no pool"),
    };
    assert_eq!(pool.config.iface, "eth0");
    assert_eq!(pool.config.subnet, subnet);
    assert_eq!(pool.config.subnet.address, 0x2602_f66f_0070_d968u128 << 64);
    assert_eq!(pool.config.pool_size, 20);
    assert_eq!(pool.config.cooldown_secs, 10);
    assert_eq!(pool.lease(), None);
    let mut added = 0;
    while StageEvent::of_task(task).is_none() {
        task = match task.action(&pool.config) {
            PoolAction::Draw => task.handle(&mut pool, PoolEvent::Drawn { random: added }),
            PoolAction::Run { .. } => {
                added += 1;
                task.handle(&mut pool, PoolEvent::CommandDone { success: true })
            }
            other => panic!("{other:?}"),
        };
    }
    assert_eq!(added, 20);

    let stage = stage.handle(StageEvent::of_task(task).unwrap(), &options);
    assert!(served(&stage, &options).is_none());
    let mut leased = Vec::new();
    let mut source = Source::Dynamic(pool);
    while let Some(ip) = source.lease() {
        leased.push(ip);
    }
    assert_eq!(leased.len(), 20);
}

#[test]
fn pool_that_was_not_filled_is_not_served() {
    let options = pooled();
    let event = StageEvent::of_task(PoolTask::GaveUp).unwrap();
    assert_eq!(
        stopped(Stage::Pool.handle(event, &options)),
        (
            0,
            String::from(
                "failed to initialize dynamic IPv6 pool: \
                 could not add a replacement IPv6 after 1000 attempts"
            )
        )
    );
    assert!(StageEvent::of_task(PoolTask::fill(1)).is_none());
}

#[test]
fn network_is_served_from_without_a_pool() {
    let options = options(RawOptions {
        socks5_user: some("u"),
        socks5_pass: some("p"),
        ..raw()
    });
    let parsed = parse_subnet(&options.ipv6_subnet);
    let stage = Stage::begin(&parsed);
    assert_eq!(read_text(&stage, &options), "0.0.0.0:51080");
    let stage = stage.handle(StageEvent::AddressRead, &options);
    assert!(served(&stage, &options).is_none());

    let (source, task) = source_for(&options, parsed.unwrap());
    assert_eq!(task, PoolTask::Finished);
    match source {
        Source::RandomCidr { subnet } => {
            assert_eq!(subnet.address, 0x2001_19f0_6001_48e4u128 << 64);
            assert_eq!(subnet.prefix_len, 64);
        }
        _ => panic!("a pool"),
    }
}

#[test]
fn socks5_is_served_with_the_given_credentials() {
    let full = options(RawOptions {
        socks5_bind: some("[::]:1080"),
        socks5_user: some("me"),
        socks5_pass: some("key"),
        ..raw()
    });
    let stage = Stage::begin(&SUBNET).handle(StageEvent::AddressRead, &full);
    assert_eq!(read_text(&stage, &full), "[::]:1080");
    let credentials = served(&stage.handle(StageEvent::AddressRead, &full), &full).unwrap();
    assert_eq!(credentials.username, "me");
    assert_eq!(credentials.password, "key");
    assert!(socks5_credentials(&options(raw())).is_none());
}

#[test]
fn stopped_start_asks_for_its_end() {
    let stage = Stage::begin(&Err(InvalidSubnet));
    match stage.action(&options(raw())) {
        StageAction::Exit { code, message } => {
            assert_eq!((code, message.as_str()), (1, "invalid IPv6 subnet"));
        }
        other => panic!("{other:?}"),
    }
}

#[test]
fn source_is_made_of_the_network_in_the_options() {
    let (stage, made) = start(&options(RawOptions {
        ipv6_subnet: some("2602:f66f:70:d968::/60"),
        ..raw()
    }));
    // The bits behind the prefix have to be zero.
    assert_eq!(stopped(stage), (1, String::from("invalid IPv6 subnet")));
    assert!(made.is_none());

    let (stage, made) = start(&options(raw()));
    assert!(matches!(stage, Stage::BindAddress));
    let (source, task) = made.unwrap();
    assert_eq!(task, PoolTask::Finished);
    match source {
        Source::RandomCidr { subnet } => {
            assert_eq!(subnet.address, 0x2001_19f0_6001_48e4u128 << 64);
            assert_eq!(subnet.prefix_len, 64);
        }
        _ => panic!("a pool"),
    }

    let (stage, made) = start(&pooled());
    assert!(matches!(stage, Stage::BindAddress));
    let (source, task) = made.unwrap();
    assert_eq!(task, PoolTask::fill(20));
    match source {
        Source::Dynamic(pool) => {
            assert_eq!(pool.config.subnet.address, 0x2602_f66f_0070_d968u128 << 64);
            assert_eq!(pool.config.subnet.prefix_len, 64);
        }
        _ => panic!("no pool"),
    }
}
