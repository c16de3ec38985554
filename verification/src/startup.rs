//! From the command line to a running proxy.
//!
//! Reading addresses of this machine, filling the pool and serving are done
//! by the caller: a [`Stage`] says what is due and takes in what came of it.

use crate::pool::{Ipv6Pool, PoolConfig, PoolTask};
use crate::source::Source;
use crate::subnet::{parse_subnet, InvalidSubnet, Subnet};
use crate::text::parse_decimal;
use vstd::prelude::*;
use vstd::string::StringExecFns;

verus! {

/// The options as they stand on the command line.
#[derive(Debug)]
pub struct RawOptions {
    pub bind: Option<String>,
    pub ipv6_subnet: Option<String>,
    pub dynamic_pool: bool,
    pub iface: Option<String>,
    pub pool_size: Option<String>,
    pub cooldown_secs: Option<String>,
    pub socks5_bind: Option<String>,
    pub socks5_user: Option<String>,
    pub socks5_pass: Option<String>,
}

/// The options with their defaults filled in.
#[derive(Debug)]
pub struct Options {
    pub bind: String,
    pub ipv6_subnet: String,
    pub dynamic_pool: bool,
    pub iface: String,
    pub pool_size: usize,
    pub cooldown_secs: u64,
    pub socks5_bind: Option<String>,
    pub socks5_user: Option<String>,
    pub socks5_pass: Option<String>,
}

/// What [`RawOptions`] hold.
pub struct RawOptionsView {
    pub bind: Option<Seq<char>>,
    pub ipv6_subnet: Option<Seq<char>>,
    pub dynamic_pool: bool,
    pub iface: Option<Seq<char>>,
    pub pool_size: Option<Seq<char>>,
    pub cooldown_secs: Option<Seq<char>>,
    pub socks5_bind: Option<Seq<char>>,
    pub socks5_user: Option<Seq<char>>,
    pub socks5_pass: Option<Seq<char>>,
}

/// What [`Options`] hold.
pub struct OptionsView {
    pub bind: Seq<char>,
    pub ipv6_subnet: Seq<char>,
    pub dynamic_pool: bool,
    pub iface: Seq<char>,
    pub pool_size: nat,
    pub cooldown_secs: nat,
    pub socks5_bind: Option<Seq<char>>,
    pub socks5_user: Option<Seq<char>>,
    pub socks5_pass: Option<Seq<char>>,
}

pub open spec fn view_text(text: Option<String>) -> Option<Seq<char>> {
    match text {
        Some(text) => Some(text@),
        None => None,
    }
}

impl View for RawOptions {
    type V = RawOptionsView;

    open spec fn view(&self) -> RawOptionsView {
        RawOptionsView {
            bind: view_text(self.bind),
            ipv6_subnet: view_text(self.ipv6_subnet),
            dynamic_pool: self.dynamic_pool,
            iface: view_text(self.iface),
            pool_size: view_text(self.pool_size),
            cooldown_secs: view_text(self.cooldown_secs),
            socks5_bind: view_text(self.socks5_bind),
            socks5_user: view_text(self.socks5_user),
            socks5_pass: view_text(self.socks5_pass),
        }
    }
}

impl View for Options {
    type V = OptionsView;

    open spec fn view(&self) -> OptionsView {
        OptionsView {
            bind: self.bind@,
            ipv6_subnet: self.ipv6_subnet@,
            dynamic_pool: self.dynamic_pool,
            iface: self.iface@,
            pool_size: self.pool_size as nat,
            cooldown_secs: self.cooldown_secs as nat,
            socks5_bind: view_text(self.socks5_bind),
            socks5_user: view_text(self.socks5_user),
            socks5_pass: view_text(self.socks5_pass),
        }
    }
}

/// An option that has no proper value.
#[derive(Clone, Copy, Debug, PartialEq, Eq, Structural)]
pub enum OptionError {
    PoolSize,
    CooldownSecs,
    Subnet,
    MissingSocks5User,
    MissingSocks5Pass,
}

impl OptionError {
    pub open spec fn spec_message(self) -> Seq<char> {
        match self {
            OptionError::PoolSize => "pool size not valid"@,
            OptionError::CooldownSecs => "cooldown seconds not valid"@,
            OptionError::Subnet => "invalid IPv6 subnet"@,
            OptionError::MissingSocks5User => {
                "socks5 username is required when --socks5-bind is set"@
            },
            OptionError::MissingSocks5Pass => {
                "socks5 password is required when --socks5-bind is set"@
            },
        }
    }

    /// What the user is told.
    pub fn message(self) -> (text: &'static str)
        ensures
            text@ == self.spec_message(),
    {
        match self {
            OptionError::PoolSize => "pool size not valid",
            OptionError::CooldownSecs => "cooldown seconds not valid",
            OptionError::Subnet => "invalid IPv6 subnet",
            OptionError::MissingSocks5User => {
                "socks5 username is required when --socks5-bind is set"
            },
            OptionError::MissingSocks5Pass => {
                "socks5 password is required when --socks5-bind is set"
            },
        }
    }
}

pub open spec fn or_default(text: Option<Seq<char>>, default: Seq<char>) -> Seq<char> {
    match text {
        Some(text) => text,
        None => default,
    }
}

/// The options with their defaults, or the first one that has no proper
/// value.
pub open spec fn resolved(raw: RawOptionsView) -> Result<OptionsView, OptionError> {
    let pool_size = crate::text::number_in(
        or_default(raw.pool_size, "1000"@),
        usize::MAX as nat,
    );
    let cooldown_secs = crate::text::number_in(
        or_default(raw.cooldown_secs, "60"@),
        u64::MAX as nat,
    );
    if pool_size is None {
        Err(OptionError::PoolSize)
    } else if cooldown_secs is None {
        Err(OptionError::CooldownSecs)
    } else {
        Ok(
            OptionsView {
                bind: or_default(raw.bind, "0.0.0.0:51080"@),
                ipv6_subnet: or_default(raw.ipv6_subnet, "2001:19f0:6001:48e4::/64"@),
                dynamic_pool: raw.dynamic_pool,
                iface: or_default(raw.iface, "eth0"@),
                pool_size: pool_size->0,
                cooldown_secs: cooldown_secs->0,
                socks5_bind: raw.socks5_bind,
                socks5_user: raw.socks5_user,
                socks5_pass: raw.socks5_pass,
            },
        )
    }
}

fn unwrap_or(text: Option<String>, default: &str) -> (value: String)
    ensures
        value@ == or_default(view_text(text), default@),
{
    match text {
        Some(text) => text,
        None => default.to_owned(),
    }
}

/// Fills in the defaults and reads the numbers.
pub fn resolve_options(raw: RawOptions) -> (options: Result<Options, OptionError>)
    ensures
        match options {
            Ok(options) => resolved(raw@) == Ok::<OptionsView, OptionError>(options@),
            Err(error) => resolved(raw@) == Err::<OptionsView, OptionError>(error),
        },
{
    let pool_size_text = unwrap_or(raw.pool_size, "1000");
    let pool_size: usize = match parse_decimal(pool_size_text.as_str(), usize::MAX as u64) {
        Some(n) => n as usize,
        None => return Err(OptionError::PoolSize),
    };
    let cooldown_text = unwrap_or(raw.cooldown_secs, "60");
    let cooldown_secs: u64 = match parse_decimal(cooldown_text.as_str(), u64::MAX) {
        Some(n) => n,
        None => return Err(OptionError::CooldownSecs),
    };
    Ok(
        Options {
            bind: unwrap_or(raw.bind, "0.0.0.0:51080"),
            ipv6_subnet: unwrap_or(raw.ipv6_subnet, "2001:19f0:6001:48e4::/64"),
            dynamic_pool: raw.dynamic_pool,
            iface: unwrap_or(raw.iface, "eth0"),
            pool_size,
            cooldown_secs,
            socks5_bind: raw.socks5_bind,
            socks5_user: raw.socks5_user,
            socks5_pass: raw.socks5_pass,
        },
    )
}

/// The pool that the options describe.
pub fn pool_config(options: &Options, subnet: Subnet) -> (config: PoolConfig)
    ensures
        config.iface@ == options@.iface,
        config.subnet == subnet,
        config.pool_size == options.pool_size,
        config.cooldown_secs == options.cooldown_secs,
{
    PoolConfig {
        iface: options.iface.clone(),
        subnet,
        pool_size: options.pool_size,
        cooldown_secs: options.cooldown_secs,
    }
}

/// The source and the work on it are what the options ask for: a pool over
/// the network that is to be filled, or the network itself, which is ready.
pub open spec fn asked_for(options: OptionsView, subnet: Subnet, made: (Source, PoolTask)) -> bool {
    if options.dynamic_pool {
        &&& made.0 matches Source::Dynamic(pool) && {
            &&& pool.config.iface@ == options.iface
            &&& pool.config.subnet == subnet
            &&& pool.config.pool_size == options.pool_size
            &&& pool.config.cooldown_secs == options.cooldown_secs
            &&& pool.state@ == crate::pool::PoolView::empty()
        }
        &&& made.1 == crate::pool::filling(options.pool_size as nat)
    } else {
        made == (Source::RandomCidr { subnet }, PoolTask::Finished)
    }
}

/// The source that the options ask for, and the work that has to be done on
/// it before it is served from.
pub fn source_for(options: &Options, subnet: Subnet) -> (made: (Source, PoolTask))
    ensures
        asked_for(options@, subnet, made),
        subnet.prefix_len <= 128 ==> made.0.well_formed(),
{
    if options.dynamic_pool {
        let (pool, task) = Ipv6Pool::new(pool_config(options, subnet));
        (Source::Dynamic(pool), task)
    } else {
        (Source::RandomCidr { subnet }, PoolTask::Finished)
    }
}

/// The name and the password that clients of the SOCKS5 proxy have to bring.
#[derive(Debug)]
pub struct Credentials {
    pub username: String,
    pub password: String,
}

/// What [`Credentials`] hold.
pub struct CredentialsView {
    pub username: Seq<char>,
    pub password: Seq<char>,
}

impl View for Credentials {
    type V = CredentialsView;

    open spec fn view(&self) -> CredentialsView {
        CredentialsView { username: self.username@, password: self.password@ }
    }
}

pub open spec fn view_credentials(credentials: Option<Credentials>) -> Option<CredentialsView> {
    match credentials {
        Some(credentials) => Some(credentials@),
        None => None,
    }
}

impl OptionsView {
    /// What the SOCKS5 proxy is run with. It is not run unless it has an
    /// address to listen on, a name and a password.
    pub open spec fn socks5(self) -> Option<CredentialsView> {
        match (self.socks5_bind, self.socks5_user, self.socks5_pass) {
            (Some(_), Some(username), Some(password)) => Some(
                CredentialsView { username, password },
            ),
            _ => None,
        }
    }
}

/// What the SOCKS5 proxy is run with, if it is run.
pub fn socks5_credentials(options: &Options) -> (credentials: Option<Credentials>)
    ensures
        view_credentials(credentials) == options@.socks5(),
{
    match (&options.socks5_bind, &options.socks5_user, &options.socks5_pass) {
        (Some(_), Some(username), Some(password)) => Some(
            Credentials { username: username.clone(), password: password.clone() },
        ),
        _ => None,
    }
}

/// How far the start has come.
#[derive(Debug)]
pub enum Stage {
    /// The address that the HTTP proxy listens on is to be read.
    BindAddress,
    /// The pool is to be filled.
    Pool,
    /// The address that the SOCKS5 proxy listens on is to be read.
    Socks5Address,
    /// The proxies are to be run.
    Serving,
    /// The program ends with this exit code and message.
    Stopped { code: i32, message: String },
}

/// What a [`Stage`] holds.
pub enum StageView {
    BindAddress,
    Pool,
    Socks5Address,
    Serving,
    Stopped { code: i32, message: Seq<char> },
}

impl View for Stage {
    type V = StageView;

    open spec fn view(&self) -> StageView {
        match self {
            Stage::BindAddress => StageView::BindAddress,
            Stage::Pool => StageView::Pool,
            Stage::Socks5Address => StageView::Socks5Address,
            Stage::Serving => StageView::Serving,
            Stage::Stopped { code, message } => StageView::Stopped {
                code: *code,
                message: message@,
            },
        }
    }
}

/// What came of what was due.
#[derive(Debug)]
pub enum StageEvent {
    AddressRead,
    AddressInvalid { text: String },
    PoolFilled,
    PoolFailed { text: String },
}

/// What a [`StageEvent`] holds.
pub enum StageEventView {
    AddressRead,
    AddressInvalid { text: Seq<char> },
    PoolFilled,
    PoolFailed { text: Seq<char> },
}

impl View for StageEvent {
    type V = StageEventView;

    open spec fn view(&self) -> StageEventView {
        match self {
            StageEvent::AddressRead => StageEventView::AddressRead,
            StageEvent::AddressInvalid { text } => StageEventView::AddressInvalid { text: text@ },
            StageEvent::PoolFilled => StageEventView::PoolFilled,
            StageEvent::PoolFailed { text } => StageEventView::PoolFailed { text: text@ },
        }
    }
}

/// What is due.
#[derive(Debug)]
pub enum StageAction {
    /// Read the address to listen on in this text.
    ReadAddress { text: String },
    /// Do the work on the source.
    FillPool,
    /// Run the HTTP proxy, and the SOCKS5 proxy if there are credentials for
    /// it, both from the source.
    Serve { socks5: Option<Credentials> },
    /// End the program.
    Exit { code: i32, message: String },
}

/// What a [`StageAction`] holds.
pub enum StageActionView {
    ReadAddress { text: Seq<char> },
    FillPool,
    Serve { socks5: Option<CredentialsView> },
    Exit { code: i32, message: Seq<char> },
}

impl View for StageAction {
    type V = StageActionView;

    open spec fn view(&self) -> StageActionView {
        match self {
            StageAction::ReadAddress { text } => StageActionView::ReadAddress { text: text@ },
            StageAction::FillPool => StageActionView::FillPool,
            StageAction::Serve { socks5 } => StageActionView::Serve {
                socks5: view_credentials(*socks5),
            },
            StageAction::Exit { code, message } => StageActionView::Exit {
                code: *code,
                message: message@,
            },
        }
    }
}

/// An option without a proper value ends the program with a failure.
pub open spec fn refused(error: OptionError) -> StageView {
    StageView::Stopped { code: 1, message: error.spec_message() }
}

/// The start, with what was read of the network.
pub open spec fn begun(subnet: Result<Subnet, InvalidSubnet>) -> StageView {
    match subnet {
        Ok(_) => StageView::BindAddress,
        Err(_) => refused(OptionError::Subnet),
    }
}

/// What is due once there are addresses to connect from: the SOCKS5 proxy, if
/// it is asked for, needs a name and a password.
pub open spec fn sourced(options: OptionsView) -> StageView {
    if options.socks5_bind is None {
        StageView::Serving
    } else if options.socks5_user is None {
        refused(OptionError::MissingSocks5User)
    } else if options.socks5_pass is None {
        refused(OptionError::MissingSocks5Pass)
    } else {
        StageView::Socks5Address
    }
}

impl StageView {
    /// What is due.
    pub open spec fn action(self, options: OptionsView) -> StageActionView {
        match self {
            StageView::BindAddress => StageActionView::ReadAddress { text: options.bind },
            StageView::Pool => StageActionView::FillPool,
            StageView::Socks5Address => StageActionView::ReadAddress {
                text: or_default(options.socks5_bind, Seq::empty()),
            },
            StageView::Serving => StageActionView::Serve { socks5: options.socks5() },
            StageView::Stopped { code, message } => StageActionView::Exit { code, message },
        }
    }

    /// How far the start has come after an event. One that was not due
    /// changes nothing.
    pub open spec fn after(self, event: StageEventView, options: OptionsView) -> StageView {
        match (self, event) {
            (StageView::BindAddress, StageEventView::AddressRead) => {
                if options.dynamic_pool {
                    StageView::Pool
                } else {
                    sourced(options)
                }
            },
            (StageView::BindAddress, StageEventView::AddressInvalid { text }) =>
                StageView::Stopped { code: 0, message: "bind address not valid: "@ + text },
            (StageView::Pool, StageEventView::PoolFilled) => sourced(options),
            (StageView::Pool, StageEventView::PoolFailed { text }) => StageView::Stopped {
                code: 0,
                message: "failed to initialize dynamic IPv6 pool: "@ + text,
            },
            (StageView::Socks5Address, StageEventView::AddressRead) => StageView::Serving,
            (StageView::Socks5Address, StageEventView::AddressInvalid { text }) =>
                StageView::Stopped { code: 0, message: "socks5 bind address not valid: "@ + text },
            _ => self,
        }
    }
}

fn refuse(error: OptionError) -> (stage: Stage)
    ensures
        stage@ == refused(error),
{
    Stage::Stopped { code: 1, message: error.message().to_owned() }
}

fn go_on(options: &Options) -> (stage: Stage)
    ensures
        stage@ == sourced(options@),
{
    if options.socks5_bind.is_none() {
        Stage::Serving
    } else if options.socks5_user.is_none() {
        refuse(OptionError::MissingSocks5User)
    } else if options.socks5_pass.is_none() {
        refuse(OptionError::MissingSocks5Pass)
    } else {
        Stage::Socks5Address
    }
}

fn stop(reason: &str, text: String) -> (stage: Stage)
    ensures
        stage@ == (StageView::Stopped { code: 0, message: reason@ + text@ }),
{
    let mut message = reason.to_owned();
    message.append(text.as_str());
    Stage::Stopped { code: 0, message }
}

impl Stage {
    /// The start, with what was read of the network.
    pub fn begin(subnet: &Result<Subnet, InvalidSubnet>) -> (stage: Stage)
        ensures
            stage@ == begun(*subnet),
    {
        match subnet {
            Ok(_) => Stage::BindAddress,
            Err(_) => refuse(OptionError::Subnet),
        }
    }

    /// Says what is due.
    pub fn action(&self, options: &Options) -> (action: StageAction)
        ensures
            action@ == self@.action(options@),
    {
        match self {
            Stage::BindAddress => StageAction::ReadAddress { text: options.bind.clone() },
            Stage::Pool => StageAction::FillPool,
            Stage::Socks5Address => match &options.socks5_bind {
                Some(text) => StageAction::ReadAddress { text: text.clone() },
                None => {
                    let text = String::new();
                    assert(text@ =~= Seq::empty());
                    StageAction::ReadAddress { text }
                },
            },
            Stage::Serving => StageAction::Serve { socks5: socks5_credentials(options) },
            Stage::Stopped { code, message } => StageAction::Exit {
                code: *code,
                message: message.clone(),
            },
        }
    }

    /// Takes in what came of what was due.
    pub fn handle(self, event: StageEvent, options: &Options) -> (next: Stage)
        ensures
            next@ == self@.after(event@, options@),
    {
        match (self, event) {
            (Stage::BindAddress, StageEvent::AddressRead) => {
                if options.dynamic_pool {
                    Stage::Pool
                } else {
                    go_on(options)
                }
            },
            (Stage::BindAddress, StageEvent::AddressInvalid { text }) => stop(
                "bind address not valid: ",
                text,
            ),
            (Stage::Pool, StageEvent::PoolFilled) => go_on(options),
            (Stage::Pool, StageEvent::PoolFailed { text }) => stop(
                "failed to initialize dynamic IPv6 pool: ",
                text,
            ),
            (Stage::Socks5Address, StageEvent::AddressRead) => Stage::Serving,
            (Stage::Socks5Address, StageEvent::AddressInvalid { text }) => stop(
                "socks5 bind address not valid: ",
                text,
            ),
            (stage, _) => stage,
        }
    }
}

/// Begins with what the options hold: reads the network, and makes the source
/// out of it if it is one.
pub fn start(options: &Options) -> (made: (Stage, Option<(Source, PoolTask)>))
    ensures
        match crate::subnet::cidr_network(options@.ipv6_subnet) {
            Some((address, prefix_len)) => {
                &&& made.0@ is BindAddress
                &&& made.1 matches Some(source) && asked_for(
                    options@,
                    Subnet { address, prefix_len },
                    source,
                ) && source.0.well_formed()
            },
            None => made.0@ == refused(OptionError::Subnet) && made.1 is None,
        },
{
    let subnet = parse_subnet(options.ipv6_subnet.as_str());
    let stage = Stage::begin(&subnet);
    match subnet {
        Ok(subnet) => (stage, Some(source_for(options, subnet))),
        Err(_) => (stage, None),
    }
}

impl StageEvent {
    /// What a task on the source amounts to once it is over.
    pub fn of_task(task: PoolTask) -> (event: Option<StageEvent>)
        ensures
            match event {
                Some(event) => match task {
                    PoolTask::Finished => event@ is PoolFilled,
                    PoolTask::GaveUp => event@ == (StageEventView::PoolFailed {
                        text: "could not add a replacement IPv6 after 1000 attempts"@,
                    }),
                    _ => false,
                },
                None => task !is Finished && task !is GaveUp,
            },
    {
        match task.outcome() {
            Some(Ok(())) => Some(StageEvent::PoolFilled),
            Some(Err(report)) => Some(StageEvent::PoolFailed { text: report.to_owned() }),
            None => None,
        }
    }
}

/// How far the start has come after a sequence of events.
pub open spec fn after_events(
    subnet: Result<Subnet, InvalidSubnet>,
    options: OptionsView,
    events: Seq<StageEventView>,
) -> StageView
    decreases events.len(),
{
    if events.len() == 0 {
        begun(subnet)
    } else {
        after_events(subnet, options, events.drop_last()).after(events.last(), options)
    }
}

/// The proxies run only with a proper network, with a filled pool if one is
/// asked for, and the SOCKS5 proxy only with a name and a password; it is run
/// when, and only when, it has an address to listen on.
pub proof fn law_serving_needs_all_it_was_asked_for(
    subnet: Result<Subnet, InvalidSubnet>,
    options: OptionsView,
    events: Seq<StageEventView>,
)
    ensures
        after_events(subnet, options, events) is Serving ==> {
            &&& subnet is Ok
            &&& events.contains(StageEventView::AddressRead)
            &&& options.dynamic_pool ==> events.contains(StageEventView::PoolFilled)
            &&& options.socks5_bind is Some ==> options.socks5_user is Some
                && options.socks5_pass is Some
            &&& options.socks5_bind is Some <==> options.socks5() is Some
        },
{
    lemma_stages(subnet, options, events);
}

proof fn lemma_stages(
    subnet: Result<Subnet, InvalidSubnet>,
    options: OptionsView,
    events: Seq<StageEventView>,
)
    ensures
        ({
            let stage = after_events(subnet, options, events);
            &&& stage !is Stopped ==> subnet is Ok
            &&& stage is Pool || stage is Socks5Address || stage is Serving ==> events.contains(
                StageEventView::AddressRead,
            )
            &&& (stage is Socks5Address || stage is Serving) && options.dynamic_pool
                ==> events.contains(StageEventView::PoolFilled)
            &&& (stage is Socks5Address || stage is Serving) && options.socks5_bind is Some
                ==> options.socks5_user is Some && options.socks5_pass is Some
        }),
    decreases events.len(),
{
    if events.len() > 0 {
        let earlier = events.drop_last();
        lemma_stages(subnet, options, earlier);
        assert(events =~= earlier.push(events.last()));
        assert(events[events.len() - 1] == events.last());
        assert forall|event: StageEventView| earlier.contains(event) implies #[trigger] events.contains(
            event,
        ) by {
            let i = earlier.index_of(event);
            assert(events[i] == event);
        }
    }
}

/// A start without a pool never asks for one to be filled, and one without
/// an address for the SOCKS5 proxy never asks for that address.
pub proof fn law_nothing_else_is_asked_for(
    subnet: Result<Subnet, InvalidSubnet>,
    options: OptionsView,
    events: Seq<StageEventView>,
)
    ensures
        !options.dynamic_pool ==> after_events(subnet, options, events) !is Pool,
        options.socks5_bind is None ==> after_events(subnet, options, events) !is Socks5Address,
    decreases events.len(),
{
    if events.len() > 0 {
        law_nothing_else_is_asked_for(subnet, options, events.drop_last());
    }
}

/// With a proper network and proper addresses the proxies are run: right
/// away, or once the pool is filled.
pub proof fn law_proper_options_are_served(subnet: Subnet, options: OptionsView)
    requires
        options.socks5_bind is Some ==> options.socks5_user is Some && options.socks5_pass is Some,
    ensures
        ({
            let begun = begun(Ok(subnet));
            let read = begun.after(StageEventView::AddressRead, options);
            let sourced = if options.dynamic_pool {
                read.after(StageEventView::PoolFilled, options)
            } else {
                read
            };
            let served = if options.socks5_bind is Some {
                sourced.after(StageEventView::AddressRead, options)
            } else {
                sourced
            };
            &&& begun.action(options) == (StageActionView::ReadAddress { text: options.bind })
            &&& options.dynamic_pool ==> read.action(options) is FillPool
            &&& options.socks5_bind matches Some(text) ==> sourced.action(options) == (
            StageActionView::ReadAddress { text })
            &&& served.action(options) == (StageActionView::Serve { socks5: options.socks5() })
        }),
{
}

/// A size and a time that are written as numbers are taken as those numbers.
pub proof fn law_numbers_are_taken_as_written(raw: RawOptionsView, pool_size: usize, secs: u64)
    requires
        raw.pool_size == Some(crate::text::decimal(pool_size as nat)),
        raw.cooldown_secs == Some(crate::text::decimal(secs as nat)),
    ensures
        resolved(raw) matches Ok(options) && options.pool_size == pool_size && options.cooldown_secs
            == secs,
{
    crate::text::law_decimal_is_read_back(pool_size as nat, usize::MAX as nat);
    crate::text::law_decimal_is_read_back(secs as nat, u64::MAX as nat);
}

} // verus!
