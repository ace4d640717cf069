//! The fixed upstream target every request is forwarded to: a host and a
//! port chosen once at startup, with the scheme decided by the well-known
//! port convention (443 means `https`, anything else `http`).

use vstd::prelude::*;

use crate::text::str_eq;

verus! {

/// The configured host after normalization: `localhost` becomes `127.0.0.1`,
/// every other host is kept as written.
pub open spec fn normalized_host(h: Seq<char>) -> Seq<char> {
    if h == "localhost"@ {
        "127.0.0.1"@
    } else {
        h
    }
}

/// Normalizes a configured host name: `localhost` is replaced by
/// `127.0.0.1`, anything else is returned unchanged.
pub fn normalize_host(host: String) -> (r: String)
    ensures
        r@ == normalized_host(host@),
{
    if str_eq(host.as_str(), "localhost") {
        "127.0.0.1".to_owned()
    } else {
        host
    }
}

/// The single backend this proxy forwards to, fixed for the process
/// lifetime and never mutated after construction.
pub struct UpstreamTarget {
    pub host: String,
    pub port: u16,
}

impl UpstreamTarget {
    /// The outbound scheme is `https` exactly when the port is 443.
    pub open spec fn is_https(&self) -> bool {
        self.port == 443
    }

    /// Builds the target from configuration, normalizing `localhost`.
    pub fn new(host: String, port: u16) -> (r: UpstreamTarget)
        ensures
            r.host@ == normalized_host(host@),
            r.port == port,
            r.is_https() <==> port == 443,
    {
        UpstreamTarget { host: normalize_host(host), port }
    }
}

} // verus!
