//! The broker client's values that the library builds: the connection address
//! with its credentials, and the client identification table.

use vstd::prelude::*;
use crate::config::ConnectionSettings;
use lapin::types::{AMQPValue, FieldTable, LongString, ShortString};
use lapin::uri::{AMQPQueryString, AMQPScheme, AMQPUri};
use std::str::FromStr;

verus! {

/// The broker client's field table (`lapin::types::FieldTable`), held opaque.
#[verifier::external_type_specification]
#[verifier::external_body]
pub struct ExFieldTable(FieldTable);

/// The query parameters of a parsed AMQP URI (`lapin::uri::AMQPQueryString`),
/// carried through opaque.
#[verifier::external_type_specification]
#[verifier::external_body]
pub struct ExAmqpQueryString(AMQPQueryString);

/// The text entries of a client identification table, by key.
pub uninterp spec fn client_fields(t: FieldTable) -> Map<Seq<char>, Seq<char>>;

/// What the AMQP URI parser reads from a text, when it accepts it: whether the
/// scheme is `amqps`, the host, the port, the vhost, the username, the password
/// and the heartbeat.
pub uninterp spec fn amqp_uri_of(s: Seq<char>) -> Option<(bool, Seq<char>, u16, Seq<char>, Seq<char>, Seq<char>, Option<u16>)>;

/// Whether the AMQP URI parser accepts a text as a broker address.
pub open spec fn amqp_uri_accepts(s: Seq<char>) -> bool {
    amqp_uri_of(s) is Some
}

pub open spec fn scheme_of(tls: bool) -> AmqpScheme {
    if tls { AmqpScheme::Amqps } else { AmqpScheme::Amqp }
}

/// A parsed address holds what the parser read from `s`.
pub open spec fn parsed_from(u: BrokerUri, s: Seq<char>) -> bool {
    match amqp_uri_of(s) {
        Some(p) => {
            &&& u.scheme == scheme_of(p.0)
            &&& u.host@ == p.1
            &&& u.port == p.2
            &&& u.vhost@ == p.3
            &&& u.username@ == p.4
            &&& u.password@ == p.5
            &&& u.heartbeat == p.6
        },
        None => false,
    }
}

/// The address that a listener connects to: the configured address as parsed,
/// with the configured credentials, and the configured keep-alive interval, when
/// there is one, as heartbeat.
pub open spec fn connects_as(u: BrokerUri, settings: ConnectionSettings) -> bool {
    match amqp_uri_of(settings.address@) {
        Some(p) => {
            &&& u.scheme == scheme_of(p.0)
            &&& u.host@ == p.1
            &&& u.port == p.2
            &&& u.vhost@ == p.3
            &&& u.username@ == settings.username@
            &&& u.password@ == settings.password@
            &&& u.heartbeat == (if settings.keep_alive is Some { settings.keep_alive } else { p.6 })
        },
        None => false,
    }
}

/// Relies on `FieldTable::default`: the table starts with no entry.
#[verifier::external_body]
fn empty_table() -> (r: FieldTable)
    ensures
        client_fields(r).dom() == Set::<Seq<char>>::empty(),
{
    FieldTable::default()
}

/// Relies on `FieldTable::insert`: a map insertion, which replaces an earlier
/// entry of the same key; the value is stored as a long string.
#[verifier::external_body]
fn insert_text(t: &mut FieldTable, key: &str, value: &str)
    ensures
        client_fields(*final(t)) == client_fields(*old(t)).insert(key@, value@),
{
    t.insert(ShortString::from(key), AMQPValue::LongString(LongString::from(value)))
}

/// The scheme of a broker address.
#[derive(Clone, Copy, Debug, PartialEq, Eq, Structural)]
pub enum AmqpScheme {
    Amqp,
    Amqps,
}

/// A parsed broker address.
#[derive(Debug)]
pub struct BrokerUri {
    pub scheme: AmqpScheme,
    pub host: String,
    pub port: u16,
    pub vhost: String,
    pub username: String,
    pub password: String,
    /// Heartbeat interval in seconds.
    pub heartbeat: Option<u16>,
    /// The remaining query parameters, as the parser read them.
    pub query: AMQPQueryString,
}

/// Relies on `AMQPUri::from_str`: it parses the text as an AMQP URI, a function
/// of the text alone, and fails with a message when it is not one; the fields
/// are moved over as read.
#[verifier::external_body]
fn parse_amqp_uri(s: &str) -> (r: Result<BrokerUri, String>)
    ensures
        r is Ok <==> amqp_uri_of(s@) is Some,
        r matches Ok(u) ==> parsed_from(u, s@),
{
    AMQPUri::from_str(s).map(|u| BrokerUri {
        scheme: match u.scheme {
            AMQPScheme::AMQP => AmqpScheme::Amqp,
            AMQPScheme::AMQPS => AmqpScheme::Amqps,
        },
        host: u.authority.host,
        port: u.authority.port,
        vhost: u.vhost,
        username: u.authority.userinfo.username,
        password: u.authority.userinfo.password,
        heartbeat: u.query.heartbeat,
        query: u.query,
    })
}

/// The text entries of a sequence of pairs, later pairs replacing earlier ones
/// of the same key.
pub open spec fn fields_of(pairs: Seq<(String, String)>) -> Map<Seq<char>, Seq<char>>
    decreases pairs.len(),
{
    if pairs.len() == 0 {
        Map::empty()
    } else {
        fields_of(pairs.drop_last()).insert(pairs.last().0@, pairs.last().1@)
    }
}

/// The client identification table of a connection: each extension pair that a
/// handler declared, as a long-string field.
pub fn client_properties(extensions: &Vec<(String, String)>) -> (r: FieldTable)
    ensures
        client_fields(r) == fields_of(extensions@),
{
    let mut t = empty_table();
    assert(client_fields(t) =~= fields_of(extensions@.take(0)));
    let mut i: usize = 0;
    while i < extensions.len()
        invariant
            i <= extensions.len(),
            client_fields(t) == fields_of(extensions@.take(i as int)),
        decreases extensions.len() - i,
    {
        insert_text(&mut t, extensions[i].0.as_str(), extensions[i].1.as_str());
        assert(extensions@.take(i + 1).drop_last() =~= extensions@.take(i as int));
        i = i + 1;
    }
    assert(extensions@.take(i as int) =~= extensions@);
    t
}

/// Why an address could not be used.
#[derive(Clone, Debug)]
pub enum AddressError {
    Invalid(String),
}

/// The broker address of the connection settings, with the configured
/// credentials in place of any in the address and the configured keep-alive
/// interval, when there is one, as its heartbeat.
pub fn connection_uri(settings: &ConnectionSettings) -> (r: Result<BrokerUri, AddressError>)
    ensures
        r is Ok <==> amqp_uri_accepts(settings.address@),
        r matches Ok(u) ==> connects_as(u, *settings),
{
    match parse_amqp_uri(settings.address.as_str()) {
        Ok(u) => {
            let heartbeat = match settings.keep_alive {
                Some(k) => Some(k),
                None => u.heartbeat,
            };
            Ok(BrokerUri {
                username: settings.username.clone(),
                password: settings.password.clone(),
                heartbeat,
                ..u
            })
        },
        Err(e) => Err(AddressError::Invalid(e)),
    }
}

} // verus!
