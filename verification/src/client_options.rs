//! The client's connection options: validating a connection URI, given as
//! the plain parts a URI parser extracted, and resolving the final options
//! from the URI and the individual command-line arguments.

use vstd::prelude::*;

verus! {

/// The default server port.
pub const DEFAULT_PORT: u16 = 6472;

/// A validated connection target.
#[derive(Debug, Clone, PartialEq)]
pub struct DrownUri {
    pub host: String,
    pub port: u16,
    pub username: Option<String>,
    pub password: Option<String>,
}

/// Everything the client needs to start a session.
#[derive(Debug, Clone, PartialEq)]
pub struct ClientOptions {
    pub connection: DrownUri,
    pub database: Option<String>,
    pub verbose: bool,
}

/// The parts of a parsed URI that the validation reads, as plain values.
/// The URI parser around this library fills one of these in.
#[derive(Debug, Clone, PartialEq)]
pub struct UriParts {
    pub scheme: String,
    pub cannot_be_a_base: bool,
    pub path: String,
    pub has_query: bool,
    pub has_fragment: bool,
    pub host: Option<String>,
    pub port: Option<u16>,
    pub username: String,
    pub password: Option<String>,
}

/// The user supplied both a full URI and a separate host or port.
#[derive(Debug, Clone, Copy, PartialEq, Eq, Structural)]
pub struct ArgumentConflictError;

/// The message, if any, on which validation of the given URI parts fails;
/// the checks run in this fixed order.
pub open spec fn spec_uri_validation_error(p: UriParts) -> Option<Seq<char>> {
    if p.cannot_be_a_base {
        Some("URI scheme invalid"@)
    } else if p.path@.len() > 0 {
        Some("URI path must be empty"@)
    } else if p.has_query {
        Some("URI query must be empty"@)
    } else if p.has_fragment {
        Some("URI fragment must be empty"@)
    } else if p.scheme@ != "drown"@ {
        Some("URI scheme must be `drown`"@)
    } else if p.host is None {
        Some("URI host is required"@)
    } else {
        None
    }
}

/// Validates the parts of a connection URI: the scheme must be `drown`,
/// a host must be present, and path, query and fragment must be absent.
/// The port defaults when absent, and an empty user name means none was
/// given. Fails with the exact message `spec_uri_validation_error` names.
pub fn validate_drown_uri(parts: UriParts) -> (r: Result<DrownUri, String>)
    ensures
        match spec_uri_validation_error(parts) {
            Some(msg) => r matches Err(m) && m@ == msg,
            None => r matches Ok(u) && {
                &&& parts.host matches Some(h) && u.host == h
                &&& u.port == (match parts.port {
                    Some(p) => p,
                    None => DEFAULT_PORT,
                })
                &&& (u.username matches Some(n) ==> n == parts.username && parts.username@.len()
                    > 0)
                &&& (u.username is None ==> parts.username@.len() == 0)
                &&& u.password == parts.password
            },
        },
{
    if parts.cannot_be_a_base {
        return Err("URI scheme invalid".to_owned());
    }
    if !parts.path.as_str().is_empty() {
        return Err("URI path must be empty".to_owned());
    }
    if parts.has_query {
        return Err("URI query must be empty".to_owned());
    }
    if parts.has_fragment {
        return Err("URI fragment must be empty".to_owned());
    }
    if !(parts.scheme == "drown".to_owned()) {
        return Err("URI scheme must be `drown`".to_owned());
    }
    let host = match parts.host {
        Some(h) => h,
        None => {
            return Err("URI host is required".to_owned());
        },
    };
    let port = match parts.port {
        Some(p) => p,
        None => DEFAULT_PORT,
    };
    let username = if parts.username.as_str().is_empty() {
        None
    } else {
        Some(parts.username)
    };
    Ok(DrownUri { host, port, username, password: parts.password })
}

/// Resolves the client options from an optional validated URI and the
/// individual arguments. A URI together with a separate host or port is a
/// conflict; argument credentials are preferred over URI credentials; and
/// without a URI, host and port fall back to `localhost` and the default
/// port.
pub fn resolve_client_options(
    uri: Option<DrownUri>,
    host: Option<String>,
    port: Option<u16>,
    username: Option<String>,
    password: Option<String>,
    database: Option<String>,
    verbose: bool,
) -> (r: Result<ClientOptions, ArgumentConflictError>)
    ensures
        match uri {
            Some(u) => {
                &&& ((host is Some || port is Some) <==> r == Err::<
                    ClientOptions,
                    ArgumentConflictError,
                >(ArgumentConflictError))
                &&& (r matches Ok(o) ==> {
                    &&& o.connection.host == u.host
                    &&& o.connection.port == u.port
                    &&& o.connection.username == (match username {
                        Some(n) => Some(n),
                        None => u.username,
                    })
                    &&& o.connection.password == (match password {
                        Some(p) => Some(p),
                        None => u.password,
                    })
                    &&& o.database == database
                    &&& o.verbose == verbose
                })
            },
            None => r matches Ok(o) && {
                &&& (host matches Some(h) ==> o.connection.host == h)
                &&& (host is None ==> o.connection.host@ == "localhost"@)
                &&& o.connection.port == (match port {
                    Some(p) => p,
                    None => DEFAULT_PORT,
                })
                &&& o.connection.username == username
                &&& o.connection.password == password
                &&& o.database == database
                &&& o.verbose == verbose
            },
        },
{
    let connection = match uri {
        Some(u) => {
            if host.is_some() || port.is_some() {
                return Err(ArgumentConflictError);
            }
            DrownUri {
                host: u.host,
                port: u.port,
                username: match username {
                    Some(n) => Some(n),
                    None => u.username,
                },
                password: match password {
                    Some(p) => Some(p),
                    None => u.password,
                },
            }
        },
        None => DrownUri {
            host: match host {
                Some(h) => h,
                None => "localhost".to_owned(),
            },
            port: match port {
                Some(p) => p,
                None => DEFAULT_PORT,
            },
            username,
            password,
        },
    };
    Ok(ClientOptions { connection, database, verbose })
}

} // verus!
