//! Connecting an editor session to a system.

use vstd::prelude::*;
use crate::context::ContextStore;
use crate::text::{joined, owned, remove_all, without_all};

verus! {

/// How to log on to the system.
#[derive(Debug, Eq, PartialEq, Clone)]
pub enum Authentication {
    Password { username: String, password: String },
    SecurityToken(String),
    SAPSSO2(String),
}

/// What the editor sends to connect to a system.
#[derive(Debug, Eq, PartialEq, Clone)]
pub struct ConnectParams {
    /// The id of the system, which also names the connection.
    pub system_id: String,
    pub hostname: String,
    pub port: u16,
    /// The client to log on to, such as `001`.
    pub client: String,
    /// The logon language, such as `EN`.
    pub language: String,
    pub authentication: Authentication,
    /// Whether to connect with TLS.
    pub ssl: bool,
    /// The path of a certificate to trust besides the usual ones.
    pub custom_certificate: Option<String>,
    pub accept_invalid_hostname: bool,
    pub accept_invalid_certs: bool,
}

/// How a connect request ended.
#[derive(Copy, Clone, Debug, PartialEq, Eq, Structural)]
pub enum ConnectResult {
    /// The session had a context already.
    AlreadyConnected,
    /// A new context was made.
    Created,
    /// The context of an earlier session was taken up again.
    Restored,
}

/// What a connect request leads to, before anything is sent to the
/// system.
pub enum ConnectStep<C> {
    /// The session has a context: there is nothing to do.
    AlreadyConnected,
    /// The store held a context for the system: the session takes it.
    Restored(C),
    /// There is no context: a connection is to be established with the
    /// password of the request.
    Establish,
    /// There is no context, and the request asks for a logon that is not
    /// supported.
    Unsupported,
}

impl<C> ConnectStep<C> {
    /// The answer that the step stands for, where it ends the request
    /// with one.
    pub open spec fn answer(self) -> Option<ConnectResult> {
        match self {
            ConnectStep::AlreadyConnected => Some(ConnectResult::AlreadyConnected),
            ConnectStep::Restored(_) => Some(ConnectResult::Restored),
            _ => None,
        }
    }
}

/// Decides what a connect request leads to. A session that has a context
/// stays as it is. Else a context that the store holds for the system is
/// restored, which ends its time-to-live. Else a connection is to be
/// established, for which only a logon by password is supported.
pub fn begin_connect<C: Clone>(connected: bool, store: &mut ContextStore<C>, params: &ConnectParams) -> (step:
    ConnectStep<C>)
    requires
        old(store).wf(),
    ensures
        final(store).wf(),
        connected ==> step is AlreadyConnected && final(store)@ == old(store)@,
        !connected && old(store)@.contexts.contains_key(params.system_id@) ==> {
            &&& step matches ConnectStep::Restored(c)
            &&& cloned(old(store)@.contexts[params.system_id@], c)
            &&& final(store)@ == old(store)@.restored(params.system_id@)
        },
        !connected && !old(store)@.contexts.contains_key(params.system_id@) ==> {
            &&& final(store)@ == old(store)@
            &&& if params.authentication is Password {
                step is Establish
            } else {
                step is Unsupported
            }
        },
{
    if connected {
        return ConnectStep::AlreadyConnected;
    }
    match store.try_restore(params.system_id.as_str()) {
        Some(context) => ConnectStep::Restored(context),
        None => match &params.authentication {
            Authentication::Password { .. } => ConnectStep::Establish,
            _ => ConnectStep::Unsupported,
        },
    }
}

/// Ends a connect request for which a connection was established: the
/// new context is stored under the system's id.
pub fn complete_connect<C>(store: &mut ContextStore<C>, params: &ConnectParams, context: C) -> (result:
    ConnectResult)
    requires
        old(store).wf(),
    ensures
        final(store).wf(),
        result == ConnectResult::Created,
        final(store)@ == old(store)@.stored(params.system_id@, context),
{
    store.store(params.system_id.as_str(), context);
    ConnectResult::Created
}

/// The character of a decimal digit.
pub open spec fn digit(d: nat) -> char {
    if d == 0 {
        '0'
    } else if d == 1 {
        '1'
    } else if d == 2 {
        '2'
    } else if d == 3 {
        '3'
    } else if d == 4 {
        '4'
    } else if d == 5 {
        '5'
    } else if d == 6 {
        '6'
    } else if d == 7 {
        '7'
    } else if d == 8 {
        '8'
    } else {
        '9'
    }
}

/// A number in decimal digits, without leading zeros.
pub open spec fn decimal(n: nat) -> Seq<char>
    decreases n,
{
    if n < 10 {
        seq![digit(n)]
    } else {
        decimal(n / 10).push(digit(n % 10))
    }
}

/// A decimal digit as a string.
fn digit_str(d: u16) -> (s: &'static str)
    requires
        d < 10,
    ensures
        s@ == seq![digit(d as nat)],
{
    proof {
        reveal_strlit("0");
        reveal_strlit("1");
        reveal_strlit("2");
        reveal_strlit("3");
        reveal_strlit("4");
        reveal_strlit("5");
        reveal_strlit("6");
        reveal_strlit("7");
        reveal_strlit("8");
        reveal_strlit("9");
    }
    let s = match d {
        0 => "0",
        1 => "1",
        2 => "2",
        3 => "3",
        4 => "4",
        5 => "5",
        6 => "6",
        7 => "7",
        8 => "8",
        _ => "9",
    };
    assert(s@ =~= seq![digit(d as nat)]);
    s
}

/// The port in decimal digits.
pub fn decimal_string(n: u16) -> (digits: String)
    ensures
        digits@ == decimal(n as nat),
    decreases n,
{
    if n < 10 {
        owned(digit_str(n))
    } else {
        let mut digits = decimal_string(n / 10);
        digits.append(digit_str(n % 10));
        assert(digits@ =~= decimal((n / 10) as nat).push(digit((n % 10) as nat)));
        digits
    }
}

/// The host of a connect request: the hostname as given, without any
/// `http://` or `https://` in it.
pub open spec fn host_of(hostname: Seq<char>) -> Seq<char> {
    without_all(without_all(hostname, "http://"@), "https://"@)
}

/// The address of the system: the scheme that goes with the use of TLS,
/// the host and the port.
pub open spec fn base_url_of(hostname: Seq<char>, port: u16, ssl: bool) -> Seq<char> {
    (if ssl {
        "https://"@
    } else {
        "http://"@
    }) + host_of(hostname) + ":"@ + decimal(port as nat)
}

/// The address of a system. Whether TLS is used decides the scheme: one
/// given with the hostname is dropped.
pub fn address(hostname: &str, port: u16, ssl: bool) -> (url: String)
    ensures
        url@ == base_url_of(hostname@, port, ssl),
{
    proof {
        reveal_strlit("http://");
        reveal_strlit("https://");
    }
    let plain = remove_all(hostname, "http://");
    let host = remove_all(plain.as_str(), "https://");
    let scheme = if ssl {
        "https://"
    } else {
        "http://"
    };
    let mut url = joined(scheme, host.as_str());
    url.append(":");
    let digits = decimal_string(port);
    url.append(digits.as_str());
    url
}

/// The address of the system that a connect request names.
pub fn base_url(params: &ConnectParams) -> (url: String)
    ensures
        url@ == base_url_of(params.hostname@, params.port, params.ssl),
{
    address(params.hostname.as_str(), params.port, params.ssl)
}

/// What is needed to reach a system.
#[derive(Debug, Eq, PartialEq, Clone)]
pub struct ConnectionOptions {
    pub hostname: String,
    pub port: u16,
    pub ssl: bool,
    /// The path of a certificate to trust besides the usual ones.
    pub custom_certificate: Option<String>,
    pub accept_invalid_hostname: bool,
    pub accept_invalid_certs: bool,
}

/// What is wrong with the options of a connection.
#[derive(Copy, Clone, Debug, PartialEq, Eq, Structural)]
pub enum OptionsError {
    MissingHostname,
    MissingPort,
    MissingSsl,
    /// The port is above 65535.
    InvalidPort,
}

/// What is wrong with the options as given, if anything: the first of a
/// missing hostname, a missing port, a missing choice of TLS, and a port out
/// of range.
pub open spec fn options_error(hostname: Option<&str>, port: Option<u64>, ssl: Option<bool>)
    -> Option<OptionsError> {
    if hostname is None {
        Some(OptionsError::MissingHostname)
    } else if port is None {
        Some(OptionsError::MissingPort)
    } else if ssl is None {
        Some(OptionsError::MissingSsl)
    } else if port->0 > u16::MAX {
        Some(OptionsError::InvalidPort)
    } else {
        None
    }
}

/// The options of a connection from what an editor sent of them.
/// Hostname, port and the choice of TLS have to be there. What concerns
/// certificates counts only with TLS, and what is not said of them is taken
/// as a no.
pub fn connection_options(
    hostname: Option<&str>,
    port: Option<u64>,
    ssl: Option<bool>,
    custom_certificate: Option<&str>,
    accept_invalid_hostname: Option<bool>,
    accept_invalid_certs: Option<bool>,
) -> (options: Result<ConnectionOptions, OptionsError>)
    ensures
        match options {
            Ok(o) => {
                &&& options_error(hostname, port, ssl) is None
                &&& o.hostname@ == hostname->0@
                &&& o.port == port->0
                &&& o.ssl == ssl->0
                &&& o.custom_certificate is Some <==> o.ssl && custom_certificate is Some
                &&& o.custom_certificate matches Some(path) ==> path@ == custom_certificate->0@
                &&& o.accept_invalid_hostname == (o.ssl && accept_invalid_hostname == Some(true))
                &&& o.accept_invalid_certs == (o.ssl && accept_invalid_certs == Some(true))
            },
            Err(e) => options_error(hostname, port, ssl) == Some(e),
        },
{
    let hostname = match hostname {
        Some(hostname) => hostname,
        None => {
            return Err(OptionsError::MissingHostname);
        },
    };
    let port = match port {
        Some(port) => port,
        None => {
            return Err(OptionsError::MissingPort);
        },
    };
    let ssl = match ssl {
        Some(ssl) => ssl,
        None => {
            return Err(OptionsError::MissingSsl);
        },
    };
    if port > 0xFFFF {
        return Err(OptionsError::InvalidPort);
    }
    let custom_certificate = match custom_certificate {
        Some(path) => if ssl {
            Some(owned(path))
        } else {
            None
        },
        None => None,
    };
    let accept_invalid_hostname = ssl && match accept_invalid_hostname {
        Some(accept) => accept,
        None => false,
    };
    let accept_invalid_certs = ssl && match accept_invalid_certs {
        Some(accept) => accept,
        None => false,
    };
    Ok(
        ConnectionOptions {
            hostname: owned(hostname),
            port: port as u16,
            ssl,
            custom_certificate,
            accept_invalid_hostname,
            accept_invalid_certs,
        },
    )
}

/// The address of the system that the options name.
pub fn options_url(options: &ConnectionOptions) -> (url: String)
    ensures
        url@ == base_url_of(options.hostname@, options.port, options.ssl),
{
    address(options.hostname.as_str(), options.port, options.ssl)
}

} // verus!
