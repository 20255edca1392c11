//! Configuration lookup with per-instance namespacing.
//!
//! A key is looked up first as `{name}.{key}` (when the instance has a
//! name), then as `{key}`; a caller falls back to a hard-coded default when
//! both are missing.
use crate::error::Error;
use vstd::prelude::*;
use vstd::string::StringExecFns;

verus! {

/// The configuration store of the `config` crate, carried through
/// unchanged.
#[verifier::external_type_specification]
#[verifier::external_body]
pub struct ExConfig(config::Config);

/// Looks up a string value.
///
/// Calls `Config::get_string`. What it returns depends on the contents of
/// the configuration, which this crate does not model; nothing is stated
/// about the result.
#[verifier::external_body]
pub fn config_get_string(cfg: &config::Config, key: &str) -> Result<String, config::ConfigError> {
    cfg.get_string(key)
}

/// Looks up an unsigned integer value.
///
/// Calls `Config::get::<usize>`. What it returns depends on the contents of
/// the configuration, which this crate does not model; nothing is stated
/// about the result.
#[verifier::external_body]
pub fn config_get_usize(cfg: &config::Config, key: &str) -> Result<usize, config::ConfigError> {
    cfg.get::<usize>(key)
}

/// Whether a lookup failed because the key is absent.
///
/// Tells the `NotFound` variant of `ConfigError` from the others; the error
/// is opaque here, so nothing is stated about the answer.
#[verifier::external_body]
pub(crate) fn config_error_is_not_found(error: &config::ConfigError) -> bool {
    matches!(error, config::ConfigError::NotFound(_))
}

/// The key under which an instance named `name` looks up `key`.
pub open spec fn namespaced_key(name: Seq<char>, key: Seq<char>) -> Seq<char> {
    name + seq!['.'] + key
}

/// Builds `{name}.{key}`.
pub fn make_namespaced_key(name: &str, key: &str) -> (r: String)
    ensures
        r@ == namespaced_key(name@, key@),
{
    proof {
        reveal_strlit(".");
    }
    name.to_owned().concat(".").concat(key)
}

/// Looks up `key` for the instance named `name` with `getter`: as
/// `{name}.{key}` first and, when that fails, as `{key}`. An instance with an
/// empty name looks up `{key}` only.
pub fn get_namespaced_value<T, F>(cfg: &config::Config, name: &str, key: &str, getter: F) -> (r: Result<
    T,
    config::ConfigError,
>) where F: Fn(&config::Config, &str) -> Result<T, config::ConfigError>
    requires
        forall|k: &str| #[trigger] getter.requires((cfg, k)),
    ensures
        name@.len() == 0 ==> getter.ensures((cfg, key), r),
        name@.len() > 0 ==> exists|k: &str, scoped: Result<T, config::ConfigError>|
            {
                &&& k@ == namespaced_key(name@, key@)
                &&& #[trigger] getter.ensures((cfg, k), scoped)
                &&& scoped is Ok ==> r == scoped
                &&& scoped is Err ==> getter.ensures((cfg, key), r)
            },
{
    if name.is_empty() {
        getter(cfg, key)
    } else {
        let scoped_key = make_namespaced_key(name, key);
        let scoped = getter(cfg, scoped_key.as_str());
        match scoped {
            Ok(value) => Ok(value),
            Err(_) => getter(cfg, key),
        }
    }
}

/// Looks up an unsigned integer for the instance named `name`.
pub fn get_namespaced_usize(cfg: &config::Config, name: &str, key: &str) -> (r: Result<
    usize,
    config::ConfigError,
>)
    ensures
        name@.len() == 0 ==> call_ensures(config_get_usize, (cfg, key), r),
        name@.len() > 0 ==> exists|k: &str, scoped: Result<usize, config::ConfigError>|
            {
                &&& k@ == namespaced_key(name@, key@)
                &&& #[trigger] call_ensures(config_get_usize, (cfg, k), scoped)
                &&& scoped is Ok ==> r == scoped
                &&& scoped is Err ==> call_ensures(config_get_usize, (cfg, key), r)
            },
{
    get_namespaced_value(cfg, name, key, config_get_usize)
}

/// Looks up a string for the instance named `name`.
pub fn get_namespaced_string(cfg: &config::Config, name: &str, key: &str) -> (r: Result<
    String,
    config::ConfigError,
>)
    ensures
        name@.len() == 0 ==> call_ensures(config_get_string, (cfg, key), r),
        name@.len() > 0 ==> exists|k: &str, scoped: Result<String, config::ConfigError>|
            {
                &&& k@ == namespaced_key(name@, key@)
                &&& #[trigger] call_ensures(config_get_string, (cfg, k), scoped)
                &&& scoped is Ok ==> r == scoped
                &&& scoped is Err ==> call_ensures(config_get_string, (cfg, key), r)
            },
{
    get_namespaced_value(cfg, name, key, config_get_string)
}

/// Default number of events fetched per poll.
pub const DEFAULT_POLL_CAPACITY: usize = 256;

/// Default maximum number of bytes read from a socket per read call.
pub const DEFAULT_MAX_READ_SIZE: usize = 1048576;

/// Most consecutive spurious wake-ups a TCP transport tolerates.
pub const MAX_SPURIOUS_WAKEUPS: u32 = 10;

/// The transport protocols a `Transport` can use.
#[derive(Debug, Clone, Copy, PartialEq, Eq, Structural)]
pub enum TransportKind {
    Tcp,
    Tls,
    Quic,
}

/// The value of a lookup, or `default` when the lookup failed.
pub fn usize_or(lookup: Result<usize, config::ConfigError>, default: usize) -> (r: usize)
    ensures
        r == match lookup {
            Ok(v) => v,
            Err(_) => default,
        },
{
    match lookup {
        Ok(v) => v,
        Err(_) => default,
    }
}

/// The settings of a TCP transport.
pub struct TcpSettings {
    /// Maximum number of bytes read from a socket per read call.
    pub max_read_size: usize,
    /// Number of events fetched per poll.
    pub poll_capacity: usize,
}

/// Reads the settings of the TCP transport named `name`: `max_read_size`
/// and `poll_capacity`, each with its default when it is not configured.
pub fn tcp_settings(cfg: &config::Config, name: &str) -> (r: TcpSettings)
    ensures
        exists|lookup: Result<usize, config::ConfigError>|
            {
                &&& #[trigger] namespaced_usize_lookup(cfg, name@, "max_read_size", lookup)
                &&& r.max_read_size == usize_or_spec(lookup, DEFAULT_MAX_READ_SIZE)
            },
        exists|lookup: Result<usize, config::ConfigError>|
            {
                &&& #[trigger] namespaced_usize_lookup(cfg, name@, "poll_capacity", lookup)
                &&& r.poll_capacity == usize_or_spec(lookup, DEFAULT_POLL_CAPACITY)
            },
{
    let read_lookup = get_namespaced_usize(cfg, name, "max_read_size");
    let poll_lookup = get_namespaced_usize(cfg, name, "poll_capacity");
    assert(namespaced_usize_lookup(cfg, name@, "max_read_size", read_lookup));
    assert(namespaced_usize_lookup(cfg, name@, "poll_capacity", poll_lookup));
    TcpSettings {
        max_read_size: usize_or(read_lookup, DEFAULT_MAX_READ_SIZE),
        poll_capacity: usize_or(poll_lookup, DEFAULT_POLL_CAPACITY),
    }
}

/// The value of a lookup, or `default` when the lookup failed.
pub open spec fn usize_or_spec(lookup: Result<usize, config::ConfigError>, default: usize) -> usize {
    match lookup {
        Ok(v) => v,
        Err(_) => default,
    }
}

/// Whether `r` is a possible result of looking up the unsigned integer `key`
/// for the instance named `name`: `{name}.{key}` when that is found, `{key}`
/// otherwise.
pub open spec fn namespaced_usize_lookup(
    cfg: &config::Config,
    name: Seq<char>,
    key: &str,
    r: Result<usize, config::ConfigError>,
) -> bool {
    if name.len() == 0 {
        call_ensures(config_get_usize, (cfg, key), r)
    } else {
        exists|k: &str, scoped: Result<usize, config::ConfigError>|
            {
                &&& k@ == namespaced_key(name, key@)
                &&& #[trigger] call_ensures(config_get_usize, (cfg, k), scoped)
                &&& scoped is Ok ==> r == scoped
                &&& scoped is Err ==> call_ensures(config_get_usize, (cfg, key), r)
            }
    }
}

/// The configured transport type, or `"tcp"` when none is configured.
pub fn transport_type_or_default(lookup: Result<String, config::ConfigError>) -> (r: String)
    ensures
        lookup matches Ok(s) ==> r@ == s@,
        lookup is Err ==> r@ == "tcp"@,
{
    match lookup {
        Ok(s) => s,
        Err(_) => "tcp".to_owned(),
    }
}

/// The texts of a sequence of strings.
pub open spec fn string_views(strings: Seq<String>) -> Seq<Seq<char>> {
    Seq::new(strings.len(), |i: int| strings[i]@)
}

/// The transport types that can be selected.
pub open spec fn valid_transport_types() -> Seq<Seq<char>> {
    seq!["tcp"@, "tls"@, "quic"@]
}

/// Selects the transport protocol named by a `transport_type` value.
///
/// Fails with `InvalidTransportType`, listing the valid names, for any
/// other value.
pub fn select_transport(transport_type: String) -> (r: Result<TransportKind, Error>)
    ensures
        selected_transport(transport_type@, r),
{
    proof {
        reveal_strlit("tcp");
        reveal_strlit("tls");
        reveal_strlit("quic");
        assert("tcp"@[1] != "tls"@[1]);
        assert("tcp"@.len() != "quic"@.len());
        assert("tls"@.len() != "quic"@.len());
        assert(valid_transport_types()[0] == "tcp"@);
        assert(valid_transport_types()[1] == "tls"@);
        assert(valid_transport_types()[2] == "quic"@);
    }
    let tcp = "tcp".to_owned();
    let tls = "tls".to_owned();
    let quic = "quic".to_owned();
    if transport_type == tcp {
        Ok(TransportKind::Tcp)
    } else if transport_type == tls {
        Ok(TransportKind::Tls)
    } else if transport_type == quic {
        Ok(TransportKind::Quic)
    } else {
        let valid = vec![tcp, tls, quic];
        proof {
            assert(string_views(valid@) =~= valid_transport_types());
            assert(!valid_transport_types().contains(transport_type@)) by {
                if valid_transport_types().contains(transport_type@) {
                    let i = choose|i: int| 0 <= i < 3 && valid_transport_types()[i] == transport_type@;
                }
            }
        }
        Err(Error::InvalidTransportType { got: transport_type, valid })
    }
}

/// The configured transport type, or `"tcp"` when the lookup failed.
pub open spec fn type_or_tcp(lookup: Result<String, config::ConfigError>) -> Seq<char> {
    match lookup {
        Ok(s) => s@,
        Err(_) => "tcp"@,
    }
}

/// Whether `r` is what selecting the transport type `t` gives: its protocol
/// for a valid name, an `InvalidTransportType` error naming `t` otherwise.
pub open spec fn selected_transport(t: Seq<char>, r: Result<TransportKind, Error>) -> bool {
    &&& t == "tcp"@ ==> r == Ok::<TransportKind, Error>(TransportKind::Tcp)
    &&& t == "tls"@ ==> r == Ok::<TransportKind, Error>(TransportKind::Tls)
    &&& t == "quic"@ ==> r == Ok::<TransportKind, Error>(TransportKind::Quic)
    &&& !valid_transport_types().contains(t) ==> (r matches Err(
        Error::InvalidTransportType { got, valid },
    ) && got@ == t && string_views(valid@) == valid_transport_types())
}

/// Reads the transport type of the instance named `name`, defaulting to
/// `"tcp"`, and selects its protocol.
pub fn transport_kind(cfg: &config::Config, name: &str) -> (r: Result<TransportKind, Error>)
    ensures
        exists|lookup: Result<String, config::ConfigError>|
            {
                &&& #[trigger] namespaced_string_lookup(cfg, name@, "transport_type", lookup)
                &&& selected_transport(type_or_tcp(lookup), r)
            },
{
    let lookup = get_namespaced_string(cfg, name, "transport_type");
    assert(namespaced_string_lookup(cfg, name@, "transport_type", lookup));
    select_transport(transport_type_or_default(lookup))
}

/// Whether `r` is a possible result of looking up the string `key` for the
/// instance named `name`: `{name}.{key}` when that is found, `{key}`
/// otherwise.
pub open spec fn namespaced_string_lookup(
    cfg: &config::Config,
    name: Seq<char>,
    key: &str,
    r: Result<String, config::ConfigError>,
) -> bool {
    if name.len() == 0 {
        call_ensures(config_get_string, (cfg, key), r)
    } else {
        exists|k: &str, scoped: Result<String, config::ConfigError>|
            {
                &&& k@ == namespaced_key(name, key@)
                &&& #[trigger] call_ensures(config_get_string, (cfg, k), scoped)
                &&& scoped is Ok ==> r == scoped
                &&& scoped is Err ==> call_ensures(config_get_string, (cfg, key), r)
            }
    }
}

/// An optional string setting: present when the lookup succeeded, absent
/// when the key was not found, and an error for any other failure.
pub fn optional_setting(lookup: Result<String, config::ConfigError>) -> (r: Result<
    Option<String>,
    Error,
>)
    ensures
        lookup matches Ok(s) ==> r == Ok::<Option<String>, Error>(Some(s)),
        lookup is Err ==> (r is Ok ==> r == Ok::<Option<String>, Error>(None)),
        lookup is Err ==> (r matches Err(e) ==> e == Error::Config(lookup->Err_0)),
{
    match lookup {
        Ok(s) => Ok(Some(s)),
        Err(e) => if config_error_is_not_found(&e) {
            Ok(None)
        } else {
            Err(Error::Config(e))
        },
    }
}

/// Both paths of a pair of settings when both are configured.
pub fn both_settings(
    first: Result<String, config::ConfigError>,
    second: Result<String, config::ConfigError>,
) -> (r: Option<(String, String)>)
    ensures
        r == match (first, second) {
            (Ok(a), Ok(b)) => Some((a, b)),
            _ => None,
        },
{
    match (first, second) {
        (Ok(a), Ok(b)) => Some((a, b)),
        _ => None,
    }
}

} // verus!
