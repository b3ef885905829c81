//! Resolution of trigger and handler settings into connection settings and
//! bindings.

use vstd::prelude::*;
use crate::decimal::{parse_bounded, parse_decimal};

verus! {

/// The largest value of a 16-bit setting (keep-alive seconds, prefetch count).
pub const MAX_U16_SETTING: u32 = 65535;

/// One configuration value after template resolution.
#[derive(Clone, Debug)]
pub enum Setting {
    /// The field was not given.
    Absent,
    /// The field's text, with every placeholder resolved.
    Text(String),
    /// The field refers to a variable that could not be resolved; the text is
    /// the template as written.
    Unresolved(String),
}

/// The settings of the trigger as a whole.
#[derive(Clone, Debug)]
pub struct TriggerMetadata {
    pub kind: Setting,
    pub address: Setting,
    pub username: Setting,
    pub password: Setting,
    pub keep_alive_interval: Setting,
}

/// The settings of one handler component.
#[derive(Clone, Debug)]
pub struct AmqpTriggerConfig {
    pub component: Setting,
    pub topic: Setting,
    pub qos: Setting,
    /// In discovery mode, what the handler's configure entry point declared;
    /// its one channel then stands in place of `topic`.
    pub declared: Option<HandlerConfiguration>,
}

/// The command-line choice between one test pass and live listening.
#[derive(Clone, Copy, Debug, PartialEq, Eq, Structural)]
pub struct CliArgs {
    /// If true, run each component once and exit.
    pub test: bool,
}

/// Broker connection settings, shared read-only by every listener.
#[derive(Clone, Debug)]
pub struct ConnectionSettings {
    pub address: String,
    pub username: String,
    pub password: String,
    /// Heartbeat interval in seconds, when configured.
    pub keep_alive: Option<u16>,
}

/// A resolved subscription of one handler component to one topic.
#[derive(Clone, Debug)]
pub struct Binding {
    pub component: String,
    pub topic: String,
    /// Prefetch count for the listener's channel, when configured.
    pub qos: Option<u16>,
}

impl Binding {
    /// A copy of the binding.
    pub fn duplicate(&self) -> (r: Binding)
        ensures
            r == *self,
    {
        Binding { component: self.component.clone(), topic: self.topic.clone(), qos: self.qos }
    }
}

#[derive(Clone, Copy, Debug, PartialEq, Eq, Structural)]
pub enum ConfigField {
    Type,
    Address,
    Username,
    Password,
    KeepAliveInterval,
    Component,
    Topic,
    Qos,
}

#[derive(Clone, Copy, Debug, PartialEq, Eq, Structural)]
pub enum ConfigProblem {
    Missing,
    Unresolved,
    NotAnInteger,
}

/// Why configuration could not be resolved. `handler` is the position of the
/// handler's entry, `None` for a trigger-level field.
#[derive(Clone, Copy, Debug, PartialEq, Eq, Structural)]
pub enum ConfigError {
    Setting { handler: Option<usize>, field: ConfigField, problem: ConfigProblem },
    /// A handler declared a number of channels other than one.
    ChannelCount { declaration: usize, count: usize },
}

pub open spec fn text_problem(s: Setting) -> Option<ConfigProblem> {
    match s {
        Setting::Absent => Some(ConfigProblem::Missing),
        Setting::Unresolved(_) => Some(ConfigProblem::Unresolved),
        Setting::Text(_) => None,
    }
}

pub open spec fn setting_text(s: Setting) -> Seq<char> {
    match s {
        Setting::Text(t) => t@,
        _ => Seq::empty(),
    }
}

/// The problem with an optional integer setting no larger than `max`.
pub open spec fn number_problem(s: Setting, max: nat) -> Option<ConfigProblem> {
    match s {
        Setting::Absent => None,
        Setting::Unresolved(_) => Some(ConfigProblem::Unresolved),
        Setting::Text(t) => if parse_bounded(t@, max) is Some {
            None
        } else {
            Some(ConfigProblem::NotAnInteger)
        },
    }
}

/// The value of an optional integer setting that has no problem.
pub open spec fn setting_number(s: Setting, max: nat) -> Option<nat> {
    match s {
        Setting::Text(t) => parse_bounded(t@, max),
        _ => None,
    }
}

pub open spec fn field_error(handler: Option<usize>, field: ConfigField, p: Option<ConfigProblem>) -> Option<ConfigError> {
    match p {
        Some(problem) => Some(ConfigError::Setting { handler, field, problem }),
        None => None,
    }
}

/// The first of two possible errors.
pub open spec fn first_error(a: Option<ConfigError>, b: Option<ConfigError>) -> Option<ConfigError> {
    if a is Some { a } else { b }
}

/// The first problem among the trigger-level fields, in declaration order.
pub open spec fn trigger_error(m: TriggerMetadata) -> Option<ConfigError> {
    first_error(field_error(None, ConfigField::Type, text_problem(m.kind)),
    first_error(field_error(None, ConfigField::Address, text_problem(m.address)),
    first_error(field_error(None, ConfigField::Username, text_problem(m.username)),
    first_error(field_error(None, ConfigField::Password, text_problem(m.password)),
    field_error(None, ConfigField::KeepAliveInterval, number_problem(m.keep_alive_interval, MAX_U16_SETTING as nat))))))
}

/// The problem with the topic of the handler entry at position `i`: in
/// discovery mode, a declaration of other than one channel.
pub open spec fn topic_error(i: usize, c: AmqpTriggerConfig) -> Option<ConfigError> {
    match c.declared {
        Some(d) => declaration_error(i, d.channels.len() as nat),
        None => field_error(Some(i), ConfigField::Topic, text_problem(c.topic)),
    }
}

/// The topic of a handler entry: its declared channel in discovery mode, else
/// its configured topic.
pub open spec fn binding_topic(c: AmqpTriggerConfig) -> Seq<char> {
    match c.declared {
        Some(d) => d.channels[0]@,
        None => setting_text(c.topic),
    }
}

/// The extension pairs of a handler entry: those it declared, if any.
pub open spec fn binding_extensions(c: AmqpTriggerConfig) -> Seq<(String, String)> {
    match c.declared {
        Some(d) => d.extensions@,
        None => Seq::empty(),
    }
}

/// The first problem among the fields of the handler entry at position `i`.
pub open spec fn binding_error(i: usize, c: AmqpTriggerConfig) -> Option<ConfigError> {
    first_error(field_error(Some(i), ConfigField::Component, text_problem(c.component)),
    first_error(topic_error(i, c),
    field_error(Some(i), ConfigField::Qos, number_problem(c.qos, MAX_U16_SETTING as nat))))
}

/// The first problem among the first `n` handler entries.
pub open spec fn bindings_error_upto(cs: Seq<AmqpTriggerConfig>, n: nat) -> Option<ConfigError>
    decreases n,
{
    if n == 0 {
        None
    } else {
        first_error(bindings_error_upto(cs, (n - 1) as nat), binding_error((n - 1) as usize, cs[n - 1]))
    }
}

pub open spec fn bindings_error(cs: Seq<AmqpTriggerConfig>) -> Option<ConfigError> {
    bindings_error_upto(cs, cs.len())
}

pub open spec fn opt_u16(v: Option<u16>) -> Option<nat> {
    match v {
        Some(n) => Some(n as nat),
        None => None,
    }
}

/// A binding holds what its handler entry says.
pub open spec fn binding_matches(b: Binding, c: AmqpTriggerConfig) -> bool {
    &&& b.component@ == setting_text(c.component)
    &&& b.topic@ == binding_topic(c)
    &&& opt_u16(b.qos) == setting_number(c.qos, MAX_U16_SETTING as nat)
}

/// Connection settings hold what the trigger-level fields say.
pub open spec fn connection_matches(s: ConnectionSettings, m: TriggerMetadata) -> bool {
    &&& s.address@ == setting_text(m.address)
    &&& s.username@ == setting_text(m.username)
    &&& s.password@ == setting_text(m.password)
    &&& opt_u16(s.keep_alive) == setting_number(m.keep_alive_interval, MAX_U16_SETTING as nat)
}

fn required_text(s: &Setting, handler: Option<usize>, field: ConfigField) -> (r: Result<String, ConfigError>)
    ensures
        match r {
            Ok(t) => text_problem(*s) is None && t@ == setting_text(*s),
            Err(e) => field_error(handler, field, text_problem(*s)) == Some(e),
        },
{
    match s {
        Setting::Absent => Err(ConfigError::Setting { handler, field, problem: ConfigProblem::Missing }),
        Setting::Unresolved(_) => Err(ConfigError::Setting { handler, field, problem: ConfigProblem::Unresolved }),
        Setting::Text(t) => Ok(t.clone()),
    }
}

fn optional_u16(s: &Setting, handler: Option<usize>, field: ConfigField) -> (r: Result<Option<u16>, ConfigError>)
    ensures
        match r {
            Ok(v) => number_problem(*s, MAX_U16_SETTING as nat) is None
                && opt_u16(v) == setting_number(*s, MAX_U16_SETTING as nat),
            Err(e) => field_error(handler, field, number_problem(*s, MAX_U16_SETTING as nat)) == Some(e),
        },
{
    match s {
        Setting::Absent => Ok(None),
        Setting::Unresolved(_) => Err(ConfigError::Setting { handler, field, problem: ConfigProblem::Unresolved }),
        Setting::Text(t) => match parse_decimal(t.as_str(), MAX_U16_SETTING) {
            Some(v) => Ok(Some(v as u16)),
            None => Err(ConfigError::Setting { handler, field, problem: ConfigProblem::NotAnInteger }),
        },
    }
}

/// Resolves the trigger-level fields into connection settings; the error is the
/// first problem in field order (type, address, username, password, keep-alive).
pub fn resolve_connection(m: &TriggerMetadata) -> (r: Result<ConnectionSettings, ConfigError>)
    ensures
        match r {
            Ok(s) => trigger_error(*m) is None && connection_matches(s, *m),
            Err(e) => trigger_error(*m) == Some(e),
        },
{
    let _kind = required_text(&m.kind, None, ConfigField::Type)?;
    let address = required_text(&m.address, None, ConfigField::Address)?;
    let username = required_text(&m.username, None, ConfigField::Username)?;
    let password = required_text(&m.password, None, ConfigField::Password)?;
    let keep_alive = optional_u16(&m.keep_alive_interval, None, ConfigField::KeepAliveInterval)?;
    Ok(ConnectionSettings { address, username, password, keep_alive })
}

/// Resolves the handler entry at position `index` into a binding.
pub fn resolve_binding(index: usize, c: &AmqpTriggerConfig) -> (r: Result<Binding, ConfigError>)
    ensures
        match r {
            Ok(b) => binding_error(index, *c) is None && binding_matches(b, *c),
            Err(e) => binding_error(index, *c) == Some(e),
        },
{
    let component = required_text(&c.component, Some(index), ConfigField::Component)?;
    let topic = match &c.declared {
        Some(d) => declared_channel(index, d)?,
        None => required_text(&c.topic, Some(index), ConfigField::Topic)?,
    };
    let qos = optional_u16(&c.qos, Some(index), ConfigField::Qos)?;
    Ok(Binding { component, topic, qos })
}

/// Resolves every handler entry, in order, into one binding each; the error is
/// the first problem of the first entry that has one.
pub fn resolve_bindings(configs: &Vec<AmqpTriggerConfig>) -> (r: Result<Vec<Binding>, ConfigError>)
    ensures
        match r {
            Ok(v) => bindings_error(configs@) is None && v.len() == configs.len()
                && forall|i: int| 0 <= i < v.len() ==> binding_matches(#[trigger] v[i], configs[i]),
            Err(e) => bindings_error(configs@) == Some(e),
        },
{
    let mut out: Vec<Binding> = Vec::new();
    let mut i: usize = 0;
    while i < configs.len()
        invariant
            i <= configs.len(),
            out.len() == i,
            bindings_error_upto(configs@, i as nat) is None,
            forall|j: int| 0 <= j < i ==> binding_matches(#[trigger] out[j], configs[j]),
        decreases configs.len() - i,
    {
        match resolve_binding(i, &configs[i]) {
            Ok(b) => {
                out.push(b);
            },
            Err(e) => {
                proof {
                    lemma_error_persists(configs@, (i + 1) as nat, configs.len() as nat);
                }
                return Err(e);
            },
        }
        i = i + 1;
    }
    Ok(out)
}

/// What a handler's configure entry point declared: the channels it listens on
/// and extension pairs for the broker client's identification.
#[derive(Clone, Debug)]
pub struct HandlerConfiguration {
    pub channels: Vec<String>,
    pub extensions: Vec<(String, String)>,
}

/// The error of the handler at position `i` whose declaration has `count` channels.
pub open spec fn declaration_error(i: usize, count: nat) -> Option<ConfigError> {
    if count == 1 {
        None
    } else {
        Some(ConfigError::ChannelCount { declaration: i, count: count as usize })
    }
}

/// Whether a handler entry holds a declaration of more than one channel.
pub open spec fn declares_many(c: AmqpTriggerConfig) -> bool {
    c.declared matches Some(d) && d.channels.len() > 1
}

/// The one channel that a handler declared: exactly one is accepted.
fn declared_channel(index: usize, declared: &HandlerConfiguration) -> (r: Result<String, ConfigError>)
    ensures
        match r {
            Ok(t) => declared.channels.len() == 1 && t@ == declared.channels[0]@,
            Err(e) => declaration_error(index, declared.channels.len() as nat) == Some(e),
        },
{
    if declared.channels.len() == 1 {
        Ok(declared.channels[0].clone())
    } else {
        Err(ConfigError::ChannelCount { declaration: index, count: declared.channels.len() })
    }
}

/// A handler that declares more than one channel makes resolution fail with a
/// configuration error, so no binding, and hence no listener, comes of it.
pub proof fn lemma_multi_channel_rejected(cs: Seq<AmqpTriggerConfig>, i: int)
    requires
        0 <= i < cs.len(),
        declares_many(cs[i]),
    ensures
        bindings_error(cs) is Some,
{
    lemma_error_at(cs, (i + 1) as nat, i);
    lemma_error_persists(cs, (i + 1) as nat, cs.len());
}

proof fn lemma_error_at(cs: Seq<AmqpTriggerConfig>, n: nat, i: int)
    requires
        0 <= i < n <= cs.len(),
        binding_error(i as usize, cs[i]) is Some,
    ensures
        bindings_error_upto(cs, n) is Some,
    decreases n,
{
    if i < n - 1 {
        lemma_error_at(cs, (n - 1) as nat, i);
    }
}

proof fn lemma_error_persists(cs: Seq<AmqpTriggerConfig>, n: nat, m: nat)
    requires
        n <= m,
    ensures
        bindings_error_upto(cs, n) is Some ==> bindings_error_upto(cs, m) == bindings_error_upto(cs, n),
    decreases m - n,
{
    if n < m {
        lemma_error_persists(cs, n, (m - 1) as nat);
    }
}

} // verus!
