//! Resolving the upstream's base URL and the listen port from the values
//! that the environment supplies.
use vstd::prelude::*;

verus! {

/// The port listened on when neither port variable is set.
pub const DEFAULT_PORT: &'static str = "8080";

/// The host part of the listen address: every interface.
pub const LISTEN_HOST: &'static str = "0.0.0.0:";

/// Why the proxy cannot start.
#[derive(Debug, Clone, Copy, PartialEq, Eq, Structural)]
pub enum ConfigError {
    /// The upstream URL variable is not set.
    MissingUpstream,
    /// The upstream URL variable is set to the empty string.
    EmptyUpstream,
}

/// The base URL of the upstream; never empty.
pub struct Upstream {
    base: String,
}

impl Upstream {
    #[verifier::type_invariant]
    spec fn inv(&self) -> bool {
        self.base@.len() > 0
    }

    /// The base URL, which is never empty.
    pub fn base(&self) -> (r: &str)
        ensures
            r@ == self@,
            r@.len() > 0,
    {
        proof {
            use_type_invariant(self);
        }
        self.base.as_str()
    }
}

impl View for Upstream {
    type V = Seq<char>;

    closed spec fn view(&self) -> Seq<char> {
        self.base@
    }
}

/// The upstream from the value of its variable: absent and empty values are
/// refused, anything else is taken as it stands.
pub fn resolve_upstream(value: Option<String>) -> (r: Result<Upstream, ConfigError>)
    ensures
        value is None ==> r == Err::<Upstream, ConfigError>(ConfigError::MissingUpstream),
        value is Some && value->0@.len() == 0 ==> r == Err::<Upstream, ConfigError>(
            ConfigError::EmptyUpstream,
        ),
        value is Some && value->0@.len() > 0 ==> r is Ok && r->Ok_0@ == value->0@,
{
    match value {
        None => Err(ConfigError::MissingUpstream),
        Some(base) => {
            if base.as_str().is_empty() {
                Err(ConfigError::EmptyUpstream)
            } else {
                Ok(Upstream { base })
            }
        },
    }
}

/// The port that the chain of variables selects.
pub open spec fn port_of(port: Option<Seq<char>>, server_port: Option<Seq<char>>) -> Seq<char> {
    match port {
        Some(p) => p,
        None => match server_port {
            Some(s) => s,
            None => DEFAULT_PORT@,
        },
    }
}

/// The listen port: the primary variable, else the secondary one, else the
/// default. It never fails.
pub fn resolve_port(port: Option<String>, server_port: Option<String>) -> (r: String)
    ensures
        r@ == port_of(
            match port {
                Some(p) => Some(p@),
                None => None,
            },
            match server_port {
                Some(s) => Some(s@),
                None => None,
            },
        ),
{
    match port {
        Some(p) => p,
        None => match server_port {
            Some(s) => s,
            None => DEFAULT_PORT.to_owned(),
        },
    }
}

/// The socket address to bind: every interface, on the given port.
pub fn listen_address(port: &str) -> (r: String)
    ensures
        r@ == LISTEN_HOST@ + port@,
{
    let mut r = LISTEN_HOST.to_owned();
    r.append(port);
    r
}

} // verus!
