//! The proxy's data model: header entries, the inbound request as the
//! listener hands it over, the outbound request aimed at the upstream
//! target, and the response sent back to the client.

use vstd::prelude::*;

verus! {

/// One header entry: a name and a value. Header collections are ordered
/// lists of these, multi-valued per name and order-preserving.
pub struct Header {
    pub name: String,
    pub value: String,
}

impl View for Header {
    type V = (Seq<char>, Seq<char>);

    open spec fn view(&self) -> Self::V {
        (self.name@, self.value@)
    }
}

/// The views of a header list, in order: one (name, value) pair per entry.
pub open spec fn hviews(s: Seq<Header>) -> Seq<(Seq<char>, Seq<char>)> {
    s.map_values(|h: Header| h@)
}

impl Header {
    /// Builds an entry from string slices.
    pub fn from_parts(name: &str, value: &str) -> (r: Header)
        ensures
            r@ == (name@, value@),
    {
        Header { name: name.to_owned(), value: value.to_owned() }
    }
}

/// An inbound request as parsed off one connection: method, path and query
/// exactly as they appeared on the request line, the ordered header list,
/// the remote peer's IP if the transport exposes one (already stripped of
/// its port), and the body bytes.
pub struct IncomingRequest {
    pub method: String,
    pub path: String,
    pub query: Option<String>,
    pub headers: Vec<Header>,
    pub peer_ip: Option<String>,
    pub body: Vec<u8>,
}

/// The request aimed at the upstream target: scheme, host and port come
/// from the target, everything else from the inbound request.
pub struct OutgoingRequest {
    pub https: bool,
    pub host: String,
    pub port: u16,
    pub path: String,
    pub query: Option<String>,
    pub method: String,
    pub headers: Vec<Header>,
    pub body: Vec<u8>,
}

/// The response sent back to the client, either synthesized for a preflight
/// request or rewritten from the backend's response.
pub struct ProxyResponse {
    pub status: u16,
    pub headers: Vec<Header>,
    pub body: Vec<u8>,
}

} // verus!
