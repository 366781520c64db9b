//! How the proxy treats a request: whether its host is served, whether it
//! opens a tunnel or goes through the cache, under which key it is cached,
//! which upstream answers are stored, and the error answers it gives.

use vstd::prelude::*;
use crate::text::chars_of;

verus! {

/// `s` ends with `suffix`.
pub open spec fn ends_with_seq(s: Seq<char>, suffix: Seq<char>) -> bool {
    suffix.len() <= s.len() && s.skip(s.len() - suffix.len()) == suffix
}

/// Some listed domain is a suffix of `host`.
pub open spec fn matches_any(whitelist: Seq<String>, host: Seq<char>) -> bool {
    exists|i: int| 0 <= i < whitelist.len() && ends_with_seq(host, #[trigger] whitelist[i]@)
}

/// A host is served when the whitelist is empty or one of its domains is a
/// suffix of the host.
pub open spec fn host_allowed_spec(whitelist: Seq<String>, host: Seq<char>) -> bool {
    whitelist.len() == 0 || matches_any(whitelist, host)
}

/// Whether `s` ends with `suffix`.
pub fn ends_with_text(s: &str, suffix: &str) -> (b: bool)
    ensures
        b == ends_with_seq(s@, suffix@),
{
    let sc = chars_of(s);
    let pc = chars_of(suffix);
    if pc.len() > sc.len() {
        return false;
    }
    let offset = sc.len() - pc.len();
    let total = sc.len();
    let mut k: usize = 0;
    while k < pc.len()
        invariant
            sc@ == s@,
            pc@ == suffix@,
            total == sc@.len(),
            offset + pc@.len() == sc@.len(),
            k <= pc@.len(),
            forall|j: int| 0 <= j < k ==> sc@[offset + j] == pc@[j],
        decreases pc@.len() - k,
    {
        if sc[offset + k] != pc[k] {
            assert(sc@.skip(offset as int)[k as int] != pc@[k as int]);
            return false;
        }
        k = k + 1;
    }
    assert(sc@.skip(offset as int) =~= pc@);
    true
}

/// Whether two texts are equal.
pub fn same_text(a: &str, b: &str) -> (eq: bool)
    ensures
        eq == (a@ == b@),
{
    let sa = a.to_string();
    let sb = b.to_string();
    sa == sb
}

/// Whether the proxy serves `host` under the given whitelist.
pub fn host_allowed(whitelist: &Vec<String>, host: &str) -> (b: bool)
    ensures
        b == host_allowed_spec(whitelist@, host@),
{
    if whitelist.len() == 0 {
        return true;
    }
    let mut i: usize = 0;
    while i < whitelist.len()
        invariant
            i <= whitelist@.len(),
            forall|j: int| 0 <= j < i ==> !ends_with_seq(host@, #[trigger] whitelist@[j]@),
        decreases whitelist@.len() - i,
    {
        if ends_with_text(host, whitelist[i].as_str()) {
            return true;
        }
        i = i + 1;
    }
    false
}

/// The cache key of a request: its method, `::` and its URI.
pub open spec fn cache_key_spec(method: Seq<char>, uri: Seq<char>) -> Seq<char> {
    method + seq![':', ':'] + uri
}

/// The cache key of a request.
pub fn cache_key(method: &str, uri: &str) -> (key: String)
    ensures
        key@ == cache_key_spec(method@, uri@),
{
    let mut key = method.to_string();
    crate::hashing::push_char(&mut key, ':');
    crate::hashing::push_char(&mut key, ':');
    key.append(uri);
    key
}

/// Only successful (`200 OK`) answers to `GET` requests are stored.
pub open spec fn cacheable_spec(method: Seq<char>, status: u16) -> bool {
    method == seq!['G', 'E', 'T'] && status == 200
}

/// Whether an upstream answer is stored in the cache.
pub fn is_cacheable(method: &str, status: u16) -> (b: bool)
    ensures
        b == cacheable_spec(method@, status),
        b <==> (method@ == seq!['G', 'E', 'T'] && status == 200),
{
    let m = chars_of(method);
    let get: Vec<char> = vec!['G', 'E', 'T'];
    assert(get@ =~= seq!['G', 'E', 'T']);
    status == 200 && m.len() == 3 && m[0] == get[0] && m[1] == get[1] && m[2] == get[2] && {
        assert(m@ =~= get@);
        true
    }
}

/// What the proxy does with a request.
#[derive(Clone, Debug)]
pub enum Route {
    /// The host is not on the whitelist: answer `403 Forbidden`.
    Forbidden,
    /// A CONNECT request: open a tunnel.
    Tunnel,
    /// Any other request: serve it from the cache or forward it, under this key.
    Cached { key: String },
}

/// The route of a request with the given method, host and URI.
pub open spec fn route_spec(whitelist: Seq<String>, method: Seq<char>, host: Seq<char>, uri: Seq<char>) -> Option<
    Seq<char>,
> {
    if !host_allowed_spec(whitelist, host) || method == seq!['C', 'O', 'N', 'N', 'E', 'C', 'T'] {
        None
    } else {
        Some(cache_key_spec(method, uri))
    }
}

/// Decides the route of a request: first the whitelist, then CONNECT
/// requests are tunnelled, everything else goes through the cache.
pub fn route_request(whitelist: &Vec<String>, method: &str, host: &str, uri: &str) -> (r: Route)
    ensures
        r is Forbidden <==> !host_allowed_spec(whitelist@, host@),
        r is Tunnel <==> host_allowed_spec(whitelist@, host@) && method@ == seq!['C', 'O', 'N', 'N', 'E', 'C', 'T'],
        r matches Route::Cached { key } ==> route_spec(whitelist@, method@, host@, uri@) == Some(key@),
        r matches Route::Cached { key } ==> key@ == method@ + seq![':', ':'] + uri@,
{
    if !host_allowed(whitelist, host) {
        return Route::Forbidden;
    }
    let m = chars_of(method);
    let connect: Vec<char> = vec!['C', 'O', 'N', 'N', 'E', 'C', 'T'];
    assert(connect@ =~= seq!['C', 'O', 'N', 'N', 'E', 'C', 'T']);
    let mut same = m.len() == connect.len();
    let mut k: usize = 0;
    if same {
        while k < connect.len()
            invariant
                m@.len() == connect@.len(),
                k <= connect@.len(),
                same == forall|j: int| 0 <= j < k ==> m@[j] == connect@[j],
            decreases connect@.len() - k,
        {
            same = same && m[k] == connect[k];
            k = k + 1;
        }
        if same {
            assert(m@ =~= connect@);
        } else {
            assert(m@ != connect@);
        }
    }
    if same {
        Route::Tunnel
    } else {
        Route::Cached { key: cache_key(method, uri) }
    }
}

/// The headers taken out of a stored answer before it is served again: the
/// body is sent whole, so the stored transfer encoding and length no longer
/// describe it.
pub fn headers_dropped_from_cached_answer() -> (names: Vec<&'static str>)
    ensures
        names@.len() == 2,
        names@[0]@ == "transfer-encoding"@,
        names@[1]@ == "content-length"@,
{
    let names: Vec<&'static str> = vec!["transfer-encoding", "content-length"];
    names
}

/// An answer the proxy makes itself: a status code and a text body.
#[derive(Clone, Debug)]
pub struct PlainResponse {
    pub status: u16,
    pub body: String,
}

/// The answer to a request for a host off the whitelist.
pub fn forbidden_response() -> (r: PlainResponse)
    ensures
        r.status == 403,
        r.body@ == "Bu alan adı whitelist'te değil."@,
{
    PlainResponse { status: 403, body: "Bu alan adı whitelist'te değil.".to_string() }
}

/// The answer to a CONNECT request without a target host.
pub fn connect_without_host_response() -> (r: PlainResponse)
    ensures
        r.status == 400,
        r.body@ == "CONNECT için host belirtilmemiş."@,
{
    PlainResponse { status: 400, body: "CONNECT için host belirtilmemiş.".to_string() }
}

/// The answer when setting up a tunnel failed with `detail`.
pub fn connect_error_response(detail: &str) -> (r: PlainResponse)
    ensures
        r.status == 502,
        r.body@ == "CONNECT hatası: "@ + detail@,
{
    let mut body = "CONNECT hatası: ".to_string();
    body.append(detail);
    PlainResponse { status: 502, body }
}

/// The answer when forwarding a request failed with `detail`.
pub fn proxy_error_response(detail: &str) -> (r: PlainResponse)
    ensures
        r.status == 502,
        r.body@ == "Proxy hatası: "@ + detail@,
{
    let mut body = "Proxy hatası: ".to_string();
    body.append(detail);
    PlainResponse { status: 502, body }
}

/// What to do with a CONNECT request, given the authority (`host:port`) of
/// its URI: tunnel to it, or refuse the request when there is none.
pub enum ConnectPlan {
    TunnelTo(String),
    Refuse(PlainResponse),
}

/// Decides a CONNECT request from the authority of its URI.
pub fn plan_connect(authority: Option<String>) -> (p: ConnectPlan)
    ensures
        authority matches Some(a) ==> (p matches ConnectPlan::TunnelTo(t) && t == a),
        authority is None ==> (p matches ConnectPlan::Refuse(r) && r.status == 400
            && r.body@ == "CONNECT için host belirtilmemiş."@),
{
    match authority {
        Some(a) => ConnectPlan::TunnelTo(a),
        None => ConnectPlan::Refuse(connect_without_host_response()),
    }
}

/// A request goes through the cache under its method, `::` and its whole
/// URI, query included: the URI can be read back from the key, so requests
/// for two different URIs never share a cache entry.
pub proof fn law_cache_key_is_method_and_whole_uri(
    whitelist: Seq<String>,
    method: Seq<char>,
    host: Seq<char>,
    uri: Seq<char>,
    other_uri: Seq<char>,
    r: Route,
    other: Route,
)
    requires
        r matches Route::Cached { key } ==> route_spec(whitelist, method, host, uri) == Some(key@),
        other matches Route::Cached { key } ==> route_spec(whitelist, method, host, other_uri) == Some(key@),
    ensures
        r matches Route::Cached { key } ==> key@ == method + seq![':', ':'] + uri
            && key@.skip(method.len() + 2int) == uri,
        uri != other_uri ==> (r matches Route::Cached { key } ==> (other matches Route::Cached {
            key: other_key,
        } ==> key@ != other_key@)),
{
    if let Route::Cached { key } = r {
        assert(key@.skip(method.len() + 2int) =~= uri);
        if let Route::Cached { key: other_key } = other {
            assert(other_key@.skip(method.len() + 2int) =~= other_uri);
        }
    }
}

/// Only a `200 OK` answer to a `GET` request is stored: any other status
/// (a partial `206` answer too) or any other method is never cached.
pub proof fn law_only_get_200_is_stored(method: Seq<char>, status: u16, b: bool)
    requires
        b == cacheable_spec(method, status),
    ensures
        b ==> status == 200 && method == seq!['G', 'E', 'T'],
        status != 200 ==> !b,
        method == seq!['G', 'E', 'T'] && status == 200 ==> b,
{
}

} // verus!
