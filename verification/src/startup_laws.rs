//! What the options on the command line come to.
//!
//! Each law speaks of calls: of the options that [`resolve_options`] gives
//! back, of what is made of them, and of what a [`Stage`] asks for.

use crate::pool::{PoolConfig, PoolTask};
use crate::source::Source;
use crate::startup::{
    pool_config, resolve_options, socks5_credentials, source_for, start, Credentials, OptionError,
    Options, RawOptions, Stage, StageAction, StageEvent,
};
use crate::subnet::{parse_subnet, InvalidSubnet, Subnet};
use crate::text::parse_decimal;
use vstd::prelude::*;

verus! {

/// The text is the one that was given, or the default where none was.
pub open spec fn given_or(given: Option<String>, default: Seq<char>, text: Seq<char>) -> bool {
    match given {
        Some(given) => text == given@,
        None => text == default,
    }
}

/// The text is the one that was given, and there is none where none was.
pub open spec fn as_given(given: Option<String>, kept: Option<String>) -> bool {
    match given {
        Some(text) => kept matches Some(same) && same@ == text@,
        None => kept is None,
    }
}

/// Each option that is given stands as it was given, whatever the others are,
/// and only one that is not given has its default.
pub proof fn law_options_stand_as_given(raw: RawOptions, options: Options)
    requires
        call_ensures(resolve_options, (raw,), Ok::<Options, OptionError>(options)),
    ensures
        raw.bind matches Some(text) ==> options.bind@ == text@,
        raw.bind is None ==> options.bind@ == "0.0.0.0:51080"@,
        raw.ipv6_subnet matches Some(text) ==> options.ipv6_subnet@ == text@,
        raw.ipv6_subnet is None ==> options.ipv6_subnet@ == "2001:19f0:6001:48e4::/64"@,
        raw.iface matches Some(text) ==> options.iface@ == text@,
        raw.iface is None ==> options.iface@ == "eth0"@,
        options.dynamic_pool == raw.dynamic_pool,
        as_given(raw.socks5_bind, options.socks5_bind),
        as_given(raw.socks5_user, options.socks5_user),
        as_given(raw.socks5_pass, options.socks5_pass),
{
}

/// The size of the pool and the cooldown are the numbers that are written in
/// the options, or a thousand and sixty where none is. Options with proper
/// numbers are accepted, and others are refused for the first number that is
/// none.
pub proof fn law_numbers_are_read_from_the_options(
    raw: RawOptions,
    resolved: Result<Options, OptionError>,
    size_text: &str,
    secs_text: &str,
    size: Option<u64>,
    secs: Option<u64>,
)
    requires
        call_ensures(resolve_options, (raw,), resolved),
        given_or(raw.pool_size, "1000"@, size_text@),
        given_or(raw.cooldown_secs, "60"@, secs_text@),
        call_ensures(parse_decimal, (size_text, usize::MAX as u64), size),
        call_ensures(parse_decimal, (secs_text, u64::MAX), secs),
    ensures
        size is None ==> resolved == Err::<Options, OptionError>(OptionError::PoolSize),
        size is Some && secs is None ==> resolved == Err::<Options, OptionError>(
            OptionError::CooldownSecs,
        ),
        size is Some && secs is Some ==> (resolved matches Ok(options) && options.pool_size
            == size->0 && options.cooldown_secs == secs->0),
{
}

/// Without numbers on the command line the pool has a thousand addresses and
/// an address rests for sixty seconds; the options are then accepted whatever
/// the others are.
pub proof fn law_default_numbers(raw: RawOptions, resolved: Result<Options, OptionError>)
    requires
        call_ensures(resolve_options, (raw,), resolved),
    ensures
        raw.pool_size is None ==> (resolved matches Ok(options) ==> options.pool_size == 1000),
        raw.cooldown_secs is None ==> (resolved matches Ok(options) ==> options.cooldown_secs
            == 60),
        raw.pool_size is None && raw.cooldown_secs is None ==> resolved is Ok,
{
    reveal_strlit("1000");
    reveal_strlit("60");
    lemma_spelled_by("1000"@, 1000);
    lemma_spelled_by("60"@, 60);
}

proof fn lemma_spelled_by(text: Seq<char>, number: nat)
    requires
        number == 1000 && text =~= seq!['1', '0', '0', '0'] || number == 60 && text =~= seq![
            '6',
            '0',
        ],
    ensures
        forall|max: nat|
            max >= number ==> #[trigger] crate::text::number_in(text, max) == Some(number),
{
    reveal_with_fuel(crate::text::digits_value, 5);
    assert(crate::text::digits_value(text) == number) by {
        if number == 1000 {
            assert(text.drop_last() =~= seq!['1', '0', '0']);
            assert(text.drop_last().drop_last() =~= seq!['1', '0']);
            assert(text.drop_last().drop_last().drop_last() =~= seq!['1']);
        } else {
            assert(text.drop_last() =~= seq!['6']);
        }
    }
    assert(crate::text::magnitude(text) == text);
    assert(crate::text::is_digits(text));
}

/// What the user is told of an option without a proper value.
pub proof fn law_improper_options_are_explained(error: OptionError, text: &'static str)
    requires
        call_ensures(OptionError::message, (error,), text),
    ensures
        text@ == match error {
            OptionError::PoolSize => "pool size not valid"@,
            OptionError::CooldownSecs => "cooldown seconds not valid"@,
            OptionError::Subnet => "invalid IPv6 subnet"@,
            OptionError::MissingSocks5User => {
                "socks5 username is required when --socks5-bind is set"@
            },
            OptionError::MissingSocks5Pass => {
                "socks5 password is required when --socks5-bind is set"@
            },
        },
{
}

/// The pool is configured as the options say.
pub open spec fn configured(options: Options, subnet: Subnet, config: PoolConfig) -> bool {
    &&& config.iface@ == options.iface@
    &&& config.subnet == subnet
    &&& config.pool_size == options.pool_size
    &&& config.cooldown_secs == options.cooldown_secs
}

/// A pool is configured with the interface, the size and the cooldown of the
/// options, over the given network.
pub proof fn law_pool_is_configured_by_the_options(
    options: &Options,
    subnet: Subnet,
    config: PoolConfig,
)
    requires
        call_ensures(pool_config, (options, subnet), config),
    ensures
        configured(*options, subnet, config),
{
}

/// The source is what the options ask for: with `--dynamic-pool` an empty
/// pool over the network with all of its addresses to find, without it the
/// network itself with nothing to do.
pub open spec fn source_of(options: Options, subnet: Subnet, made: (Source, PoolTask)) -> bool {
    if options.dynamic_pool {
        &&& made.0 matches Source::Dynamic(pool) && {
            &&& configured(options, subnet, pool.config)
            &&& pool.state@.available.len() == 0
            &&& forall|ip: u128|
                !(#[trigger] pool.state@.active.contains(ip)) && !pool.state@.used.contains(ip)
        }
        &&& options.pool_size == 0 ==> made.1 is Finished
        &&& options.pool_size > 0 ==> made.1 == (PoolTask::Choosing {
            failed: 0,
            more: (options.pool_size - 1) as usize,
        })
    } else {
        &&& made.0 matches Source::RandomCidr { subnet: network } && network == subnet
        &&& made.1 is Finished
    }
}

/// The source that is made is what the options ask for.
pub proof fn law_source_is_what_the_options_ask_for(
    options: &Options,
    subnet: Subnet,
    made: (Source, PoolTask),
)
    requires
        call_ensures(source_for, (options, subnet), made),
    ensures
        source_of(*options, subnet, made),
{
}

/// A start reads the network in the options, and no other. Where it is one,
/// the source is made of it and the address to listen on is read next; where
/// it is none, the program ends with a failure and there is no source.
pub proof fn law_start_reads_the_network_in_the_options(
    options: &Options,
    text: &str,
    parsed: Result<Subnet, InvalidSubnet>,
    made: (Stage, Option<(Source, PoolTask)>),
    action: StageAction,
)
    requires
        text@ == options.ipv6_subnet@,
        call_ensures(parse_subnet, (text,), parsed),
        call_ensures(start, (options,), made),
        call_ensures(Stage::action, (&made.0, options), action),
    ensures
        match parsed {
            Ok(subnet) => {
                &&& made.0 is BindAddress
                &&& made.1 matches Some(source) && source_of(*options, subnet, source)
                &&& action matches StageAction::ReadAddress { text: bind } && bind@ == options.bind@
            },
            Err(_) => {
                &&& made.1 is None
                &&& exits(action, 1, "invalid IPv6 subnet"@)
            },
        },
{
}

/// The program is to end with this exit code and message.
pub open spec fn exits(action: StageAction, code: i32, message: Seq<char>) -> bool {
    action matches StageAction::Exit { code: number, message: text } && number == code && text@
        == message
}

/// An address is to be read in this text.
pub open spec fn reads(action: StageAction, text: Seq<char>) -> bool {
    action matches StageAction::ReadAddress { text: asked } && asked@ == text
}

/// The event takes the start to `next`, which asks for this.
pub open spec fn leads(
    before: Stage,
    event: StageEvent,
    options: &Options,
    next: Stage,
    action: StageAction,
) -> bool {
    &&& call_ensures(Stage::handle, (before, event, options), next)
    &&& call_ensures(Stage::action, (&next, options), action)
}

/// What is due once there are addresses to connect from. Without an address
/// for the SOCKS5 proxy the HTTP proxy is run alone, whatever name and
/// password are given. With one, the name and the password have to be given
/// too, and then that address is read.
pub open spec fn goes_on(options: Options, next: Stage, action: StageAction) -> bool {
    match options.socks5_bind {
        None => next is Serving && (action matches StageAction::Serve { socks5 } && socks5 is None),
        Some(bind) => {
            if options.socks5_user is None {
                exits(action, 1, "socks5 username is required when --socks5-bind is set"@)
            } else if options.socks5_pass is None {
                exits(action, 1, "socks5 password is required when --socks5-bind is set"@)
            } else {
                next is Socks5Address && reads(action, bind@)
            }
        },
    }
}

/// A start begins with the address of the HTTP proxy, if there is a network.
pub proof fn law_start_begins_with_the_bind_address(
    subnet: Result<Subnet, InvalidSubnet>,
    options: &Options,
    stage: Stage,
    action: StageAction,
)
    requires
        call_ensures(Stage::begin, (&subnet,), stage),
        call_ensures(Stage::action, (&stage, options), action),
    ensures
        subnet is Ok ==> stage is BindAddress && reads(action, options.bind@),
        subnet is Err ==> exits(action, 1, "invalid IPv6 subnet"@),
{
}

/// When the address of the HTTP proxy has been read, the pool is filled if
/// one is asked for; otherwise the start goes on at once.
pub proof fn law_pool_is_filled_if_it_is_asked_for(
    options: &Options,
    next: Stage,
    action: StageAction,
)
    requires
        leads(Stage::BindAddress, StageEvent::AddressRead, options, next, action),
    ensures
        options.dynamic_pool ==> next is Pool && action is FillPool,
        !options.dynamic_pool ==> goes_on(*options, next, action),
{
}

/// When the pool is filled, the start goes on.
pub proof fn law_start_goes_on_with_a_filled_pool(
    options: &Options,
    next: Stage,
    action: StageAction,
)
    requires
        leads(Stage::Pool, StageEvent::PoolFilled, options, next, action),
    ensures
        goes_on(*options, next, action),
{
}

/// When the address of the SOCKS5 proxy has been read, both proxies are run,
/// the SOCKS5 proxy with the name and the password of the options.
pub proof fn law_both_proxies_are_run(
    options: &Options,
    bind: String,
    username: String,
    password: String,
    next: Stage,
    action: StageAction,
)
    requires
        options.socks5_bind == Some(bind),
        options.socks5_user == Some(username),
        options.socks5_pass == Some(password),
        leads(Stage::Socks5Address, StageEvent::AddressRead, options, next, action),
    ensures
        next is Serving,
        action matches StageAction::Serve { socks5 } && socks5 matches Some(credentials)
            && credentials.username@ == username@ && credentials.password@ == password@,
{
}

/// An address that cannot be read, and a pool that cannot be filled, end the
/// program without a failure code, and the user is told which it was and why.
pub proof fn law_what_goes_wrong_is_reported(
    text: String,
    options: &Options,
    next: Stage,
    action: StageAction,
)
    ensures
        leads(Stage::BindAddress, StageEvent::AddressInvalid { text }, options, next, action)
            ==> exits(action, 0, "bind address not valid: "@ + text@),
        leads(Stage::Pool, StageEvent::PoolFailed { text }, options, next, action) ==> exits(
            action,
            0,
            "failed to initialize dynamic IPv6 pool: "@ + text@,
        ),
        leads(Stage::Socks5Address, StageEvent::AddressInvalid { text }, options, next, action)
            ==> exits(action, 0, "socks5 bind address not valid: "@ + text@),
{
}

/// The event is what can come of what is due.
pub open spec fn answers(action: StageAction, event: StageEvent) -> bool {
    match event {
        StageEvent::AddressRead => action is ReadAddress,
        StageEvent::AddressInvalid { text: _ } => action is ReadAddress,
        StageEvent::PoolFilled => action is FillPool,
        StageEvent::PoolFailed { text: _ } => action is FillPool,
    }
}

/// An event that does not answer what was due changes nothing; so a start
/// that has come to its end, in one way or the other, stays there.
pub proof fn law_unasked_events_change_nothing(
    before: Stage,
    asked: StageAction,
    event: StageEvent,
    options: &Options,
    next: Stage,
)
    requires
        call_ensures(Stage::action, (&before, options), asked),
        call_ensures(Stage::handle, (before, event, options), next),
        !answers(asked, event),
    ensures
        next@ == before@,
{
}

/// What each stage asks for.
pub proof fn law_each_stage_asks_for_its_thing(
    stage: Stage,
    options: &Options,
    action: StageAction,
)
    requires
        call_ensures(Stage::action, (&stage, options), action),
    ensures
        match stage {
            Stage::BindAddress => reads(action, options.bind@),
            Stage::Pool => action is FillPool,
            Stage::Socks5Address => options.socks5_bind matches Some(bind) ==> reads(action, bind@),
            Stage::Serving => action is Serve,
            Stage::Stopped { code, message } => exits(action, code, message@),
        },
{
}

/// The SOCKS5 proxy is run with the name and the password of the options, if
/// it has an address to listen on and both are given, and not at all
/// otherwise.
pub proof fn law_credentials_are_those_of_the_options(
    options: &Options,
    credentials: Option<Credentials>,
)
    requires
        call_ensures(socks5_credentials, (options,), credentials),
    ensures
        credentials is Some <==> options.socks5_bind is Some && options.socks5_user is Some
            && options.socks5_pass is Some,
        credentials matches Some(given) ==> given.username@ == options.socks5_user->0@
            && given.password@ == options.socks5_pass->0@,
{
}

/// The pool counts as filled when the work on it was done, and as failed when
/// that was given up; until then there is nothing to tell.
pub proof fn law_pool_is_filled_when_its_task_is_done(task: PoolTask, event: Option<StageEvent>)
    requires
        call_ensures(StageEvent::of_task, (task,), event),
    ensures
        task is Finished ==> (event matches Some(told) && told is PoolFilled),
        task is GaveUp ==> (event matches Some(StageEvent::PoolFailed { text }) && text@
            == "could not add a replacement IPv6 after 1000 attempts"@),
        task !is Finished && task !is GaveUp ==> event is None,
{
}

} // verus!
