//! The proxy core: answering CORS preflight requests directly, rewriting
//! an inbound request into the outbound request aimed at the upstream
//! target, and rewriting the backend's response before it is sent back.

use vstd::prelude::*;

use crate::headers::{lemma_remove_name_entries_from, lemma_remove_name_removes, remove_header,
    remove_name};
use crate::model::{hviews, Header, IncomingRequest, OutgoingRequest, ProxyResponse};
use crate::target::UpstreamTarget;
use crate::text::{dec_rep, dec_string, name_matches, str_eq};

verus! {

/// A request is a CORS preflight exactly when its method is `OPTIONS`.
pub open spec fn is_preflight_method(m: Seq<char>) -> bool {
    m == "OPTIONS"@
}

/// Recognizes the CORS preflight method.
pub fn is_preflight(method: &str) -> (r: bool)
    ensures
        r == is_preflight_method(method@),
{
    str_eq(method, "OPTIONS")
}

/// The fixed header set of a preflight answer, in order.
pub open spec fn preflight_header_views() -> Seq<(Seq<char>, Seq<char>)> {
    seq![
        ("Access-Control-Allow-Origin"@, "*"@),
        ("Access-Control-Allow-Credentials"@, "true"@),
        (
            "Access-Control-Allow-Headers"@,
            "Authorization,Accept,Origin,DNT,X-CustomHeader,Keep-Alive,User-Agent,X-Requested-With,If-Modified-Since,Cache-Control,Content-Type,Content-Range,Range"@,
        ),
        ("Access-Control-Allow-Methods"@, "GET,POST,OPTIONS,PUT,DELETE,PATCH"@),
        ("Access-Control-Max-Age"@, "1728000"@),
        ("Content-Type"@, "text/plain; charset=UTF-8"@),
        ("Content-Length"@, "0"@),
    ]
}

/// What a preflight answer looks like: status 204 (no content), an empty
/// body, and exactly the fixed header set, whatever the request carried.
pub open spec fn preflight_response_ok(p: ProxyResponse) -> bool {
    &&& p.status == 204
    &&& p.body@ == Seq::<u8>::empty()
    &&& hviews(p.headers@) == preflight_header_views()
}

/// Builds the answer to a CORS preflight request. The backend is never
/// contacted; the answer does not depend on the request at all.
pub fn preflight_response() -> (r: ProxyResponse)
    ensures
        preflight_response_ok(r),
{
    let mut hs: Vec<Header> = Vec::new();
    hs.push(Header::from_parts("Access-Control-Allow-Origin", "*"));
    hs.push(Header::from_parts("Access-Control-Allow-Credentials", "true"));
    hs.push(
        Header::from_parts(
            "Access-Control-Allow-Headers",
            "Authorization,Accept,Origin,DNT,X-CustomHeader,Keep-Alive,User-Agent,X-Requested-With,If-Modified-Since,Cache-Control,Content-Type,Content-Range,Range",
        ),
    );
    hs.push(Header::from_parts("Access-Control-Allow-Methods", "GET,POST,OPTIONS,PUT,DELETE,PATCH"));
    hs.push(Header::from_parts("Access-Control-Max-Age", "1728000"));
    hs.push(Header::from_parts("Content-Type", "text/plain; charset=UTF-8"));
    hs.push(Header::from_parts("Content-Length", "0"));
    proof {
        assert(hviews(hs@) =~= preflight_header_views());
    }
    let body: Vec<u8> = Vec::new();
    proof {
        assert(body@ =~= Seq::<u8>::empty());
    }
    ProxyResponse { status: 204, headers: hs, body }
}

/// Every preflight answer is the same: the response does not depend on
/// the request's headers, path, query or body.
pub proof fn lemma_preflight_uniform(p1: ProxyResponse, p2: ProxyResponse)
    requires
        preflight_response_ok(p1),
        preflight_response_ok(p2),
    ensures
        p1.status == p2.status,
        p1.body@ == p2.body@,
        hviews(p1.headers@) == hviews(p2.headers@),
{
}

/// The query component of a request, as a sequence view if present.
pub open spec fn query_view(q: Option<String>) -> Option<Seq<char>> {
    match q {
        Some(s) => Some(s@),
        None => None,
    }
}

/// How the outbound request relates to the inbound request and the fixed
/// target: scheme, host and port are the target's, the method, path, query
/// and body are copied byte-for-byte, and the header list is the inbound
/// one. When the transport exposed a peer address, `x-forwarded-for` is
/// upserted to carry only that peer's IP: an inbound value is overwritten,
/// never chained onto.
pub open spec fn forwards(t: UpstreamTarget, req: IncomingRequest, o: OutgoingRequest) -> bool {
    &&& o.https == (t.port == 443)
    &&& o.host@ == t.host@
    &&& o.port == t.port
    &&& o.method@ == req.method@
    &&& o.path@ == req.path@
    &&& query_view(o.query) == query_view(req.query)
    &&& o.body@ == req.body@
    &&& match req.peer_ip {
        Some(ip) => hviews(o.headers@) == remove_name(
            hviews(req.headers@),
            "x-forwarded-for"@,
        ).push(("x-forwarded-for"@, ip@)),
        None => hviews(o.headers@) == hviews(req.headers@),
    }
}

/// Rewrites an inbound (non-preflight) request into the outbound request
/// against the upstream target, streaming the body through unchanged.
pub fn build_outbound_request(target: &UpstreamTarget, req: IncomingRequest) -> (r:
    OutgoingRequest)
    ensures
        forwards(*target, req, r),
{
    let IncomingRequest { method, path, query, mut headers, peer_ip, body } = req;
    match peer_ip {
        Some(ip) => {
            let ghost ipv = ip@;
            headers = remove_header(&headers, "x-forwarded-for");
            let ghost prev = hviews(headers@);
            headers.push(Header { name: "x-forwarded-for".to_owned(), value: ip });
            proof {
                assert(hviews(headers@) =~= prev.push(("x-forwarded-for"@, ipv)));
            }
        },
        None => {},
    }
    OutgoingRequest {
        https: target.port == 443,
        host: target.host.clone(),
        port: target.port,
        path,
        query,
        method,
        headers,
        body,
    }
}

/// The URL the outbound request is sent to, over the views of its parts.
pub open spec fn url_view(
    https: bool,
    host: Seq<char>,
    port: u16,
    path: Seq<char>,
    q: Option<Seq<char>>,
) -> Seq<char> {
    (if https {
        "https"@
    } else {
        "http"@
    }) + "://"@ + host + ":"@ + dec_rep(port as nat) + path + (match q {
        Some(s) => "?"@ + s,
        None => Seq::empty(),
    })
}

impl OutgoingRequest {
    /// Renders the target URL: scheme, host and port from the upstream
    /// target, path and query copied from the inbound request.
    pub fn url(&self) -> (r: String)
        ensures
            r@ == url_view(self.https, self.host@, self.port, self.path@, query_view(self.query)),
    {
        let mut s: String = if self.https {
            "https".to_owned()
        } else {
            "http".to_owned()
        };
        s.append("://");
        s.append(self.host.as_str());
        s.append(":");
        let port = dec_string(self.port);
        s.append(port.as_str());
        s.append(self.path.as_str());
        match &self.query {
            Some(q) => {
                s.append("?");
                s.append(q.as_str());
            },
            None => {},
        }
        proof {
            assert(s@ =~= url_view(
                self.https,
                self.host@,
                self.port,
                self.path@,
                query_view(self.query),
            ));
        }
        s
    }
}

/// The backend's header list as forwarded to the client: every entry
/// except those named `Connection` (case-insensitive, a per-hop header)
/// and those named `Access-Control-Allow-Origin` (case-insensitive), with
/// `Access-Control-Allow-Origin: *` appended, so the client always sees
/// the permissive value.
pub open spec fn rewritten_headers(h: Seq<(Seq<char>, Seq<char>)>) -> Seq<(Seq<char>, Seq<char>)> {
    remove_name(remove_name(h, "connection"@), "access-control-allow-origin"@).push(
        ("Access-Control-Allow-Origin"@, "*"@),
    )
}

/// Rewrites the backend's response for the client: same status, headers
/// rewritten as `rewritten_headers` says, body passed through unchanged.
pub fn rewrite_response(status: u16, headers: Vec<Header>, body: Vec<u8>) -> (r: ProxyResponse)
    ensures
        r.status == status,
        r.body@ == body@,
        hviews(r.headers@) == rewritten_headers(hviews(headers@)),
{
    let stripped = remove_header(&headers, "connection");
    let mut kept = remove_header(&stripped, "access-control-allow-origin");
    let ghost prev = hviews(kept@);
    kept.push(Header::from_parts("Access-Control-Allow-Origin", "*"));
    proof {
        assert(hviews(kept@) =~= prev.push(("Access-Control-Allow-Origin"@, "*"@)));
    }
    ProxyResponse { status, headers: kept, body }
}

/// The forwarded response never contains a `Connection` header under any
/// casing, and always ends with `Access-Control-Allow-Origin: *`.
pub proof fn lemma_rewrite_strips_connection_and_forces_cors(h: Seq<(Seq<char>, Seq<char>)>)
    ensures
        forall|i: int|
            0 <= i < rewritten_headers(h).len() ==> !name_matches(
                #[trigger] rewritten_headers(h)[i].0,
                "connection"@,
            ),
        rewritten_headers(h).len() > 0,
        rewritten_headers(h).last() == ("Access-Control-Allow-Origin"@, "*"@),
{
    let r1 = remove_name(h, "connection"@);
    let r2 = remove_name(r1, "access-control-allow-origin"@);
    lemma_remove_name_removes(h, "connection"@);
    lemma_remove_name_entries_from(r1, "access-control-allow-origin"@);
    reveal_strlit("Access-Control-Allow-Origin");
    reveal_strlit("connection");
    assert(!name_matches("Access-Control-Allow-Origin"@, "connection"@)) by {
        assert(crate::text::lower("Access-Control-Allow-Origin"@).len() == 27);
        assert(crate::text::lower("connection"@).len() == 10);
    }
    assert forall|i: int|
        0 <= i < rewritten_headers(h).len() implies !name_matches(
        #[trigger] rewritten_headers(h)[i].0,
        "connection"@,
    ) by {
        if i < r2.len() {
            assert(r1.contains(r2[i]));
            let j = choose|j: int| 0 <= j < r1.len() && r1[j] == r2[i];
            assert(!name_matches(r1[j].0, "connection"@));
            assert(rewritten_headers(h)[i] == r2[i]);
        } else {
            assert(rewritten_headers(h)[i] == ("Access-Control-Allow-Origin"@, "*"@));
        }
    }
}

/// What the proxy decides for one inbound request: answer it directly
/// (preflight) or forward it to the upstream target.
pub enum ProxyStep {
    Respond(ProxyResponse),
    Forward(OutgoingRequest),
}

/// Dispatches one inbound request: a request whose method is the preflight
/// method is answered directly with the fixed preflight response and the
/// backend is not contacted; every other request is rewritten into the
/// outbound request against the target. The dispatcher keeps no state
/// between requests.
pub fn handle_request(target: &UpstreamTarget, req: IncomingRequest) -> (r: ProxyStep)
    ensures
        is_preflight_method(req.method@) ==> (r matches ProxyStep::Respond(p)
            && preflight_response_ok(p)),
        !is_preflight_method(req.method@) ==> (r matches ProxyStep::Forward(o) && forwards(
            *target,
            req,
            o,
        )),
{
    if is_preflight(req.method.as_str()) {
        ProxyStep::Respond(preflight_response())
    } else {
        ProxyStep::Forward(build_outbound_request(target, req))
    }
}

/// The outbound request carries the inbound path, query and method
/// byte-for-byte: no normalization and no trailing-slash adjustment.
pub proof fn lemma_forward_preserves_path_query(
    t: UpstreamTarget,
    req: IncomingRequest,
    o: OutgoingRequest,
)
    requires
        forwards(t, req, o),
    ensures
        o.path@ == req.path@,
        query_view(o.query) == query_view(req.query),
        o.method@ == req.method@,
        o.body@ == req.body@,
{
}

/// Client-IP attribution: when the transport exposes a peer address, the
/// outbound request carries `x-forwarded-for` with only that peer's IP as
/// its last header entry, every other entry is an inbound header with a
/// different name (an inbound value is overwritten, never chained onto),
/// and when the transport exposes none, the header list is exactly the
/// inbound one, so nothing is added.
pub proof fn lemma_forward_client_ip(t: UpstreamTarget, req: IncomingRequest, o: OutgoingRequest)
    requires
        forwards(t, req, o),
    ensures
        req.peer_ip matches Some(ip) ==> {
            &&& hviews(o.headers@).len() > 0
            &&& hviews(o.headers@).last() == ("x-forwarded-for"@, ip@)
            &&& forall|i: int|
                0 <= i < hviews(o.headers@).len() - 1 ==> !name_matches(
                    #[trigger] hviews(o.headers@)[i].0,
                    "x-forwarded-for"@,
                )
            &&& forall|i: int|
                0 <= i < hviews(o.headers@).len() - 1 ==> hviews(req.headers@).contains(
                    #[trigger] hviews(o.headers@)[i],
                )
        },
        req.peer_ip is None ==> hviews(o.headers@) == hviews(req.headers@),
{
    match req.peer_ip {
        Some(ip) => {
            let inbound = hviews(req.headers@);
            let kept = remove_name(inbound, "x-forwarded-for"@);
            lemma_remove_name_removes(inbound, "x-forwarded-for"@);
            lemma_remove_name_entries_from(inbound, "x-forwarded-for"@);
            assert(forall|i: int|
                0 <= i < hviews(o.headers@).len() - 1 ==> hviews(o.headers@)[i] == kept[i]);
        },
        None => {},
    }
}

} // verus!
