//! Decisions of the HTTP forward proxy: the authority a CONNECT tunnel opens, the
//! target name a request is counted under, and the absolute URI a plain-HTTP request
//! is forwarded to.
use vstd::prelude::*;
use crate::stats::TrafficSnapshot;
use crate::text::{chars_of, concat, format_host_port, push_char, spec_host_port};

pub use crate::stats::{ClientSnapshot, TargetStat};

verus! {

/// What the proxy reports: the statistics of the HTTP proxy.
pub type ProxySnapshot = TrafficSnapshot;

/// Settings of a proxy run.
#[derive(Clone, Debug)]
pub struct ProxyConfig {
    pub listen_host: String,
    pub listen_port: u16,
    pub report_interval_ms: u64,
    pub client_idle_ttl_ms: u64,
}

/// What a running proxy tells its owner.
#[derive(Clone, Debug)]
pub enum ProxyEvent {
    Status(String),
    Snapshot(ProxySnapshot),
}

/// Reports are sent at most every 100 ms.
pub open spec fn spec_report_period_ms(interval_ms: u64) -> u64 {
    if interval_ms < 100 { 100 } else { interval_ms }
}

impl ProxyConfig {
    /// The address the proxy listens on.
    pub fn listen_addr(&self) -> (r: String)
        ensures
            r@ == spec_host_port(self.listen_host@, self.listen_port),
    {
        format_host_port(self.listen_host.as_str(), self.listen_port)
    }

    /// The period of the statistics reports: the configured interval, at least 100 ms.
    pub fn report_period_ms(&self) -> (r: u64)
        ensures
            r == spec_report_period_ms(self.report_interval_ms),
    {
        if self.report_interval_ms < 100 {
            100
        } else {
            self.report_interval_ms
        }
    }
}

/// `s` holds `]` directly followed by `:`.
pub open spec fn has_bracket_colon(s: Seq<char>) -> bool {
    exists|i: int| 0 <= i < s.len() - 1 && #[trigger] s[i] == ']' && s[i + 1] == ':'
}

/// Whether an authority names a port: after the closing bracket of an IPv6 literal,
/// or anywhere for other hosts.
pub open spec fn spec_has_port(a: Seq<char>) -> bool {
    if a.len() > 0 && a[0] == '[' {
        has_bracket_colon(a)
    } else {
        a.contains(':')
    }
}

/// Whether the authority names a port.
pub fn has_port(authority: &str) -> (r: bool)
    ensures
        r == spec_has_port(authority@),
{
    let cs = chars_of(authority);
    let n = cs.len();
    if n > 0 && cs[0] == '[' {
        let mut i: usize = 0;
        while i < n - 1
            invariant
                cs@ == authority@,
                n == cs@.len(),
                n > 0,
                forall|j: int| 0 <= j < i && j < n - 1 ==> !(#[trigger] cs@[j] == ']' && cs@[j + 1] == ':'),
            decreases n - i,
        {
            if cs[i] == ']' && cs[i + 1] == ':' {
                return true;
            }
            i = i + 1;
        }
        false
    } else {
        let mut i: usize = 0;
        while i < n
            invariant
                cs@ == authority@,
                n == cs@.len(),
                i <= n,
                !(n > 0 && cs@[0] == '['),
                forall|j: int| 0 <= j < i ==> cs@[j] != ':',
            decreases n - i,
        {
            if cs[i] == ':' {
                assert(authority@[i as int] == ':');
                assert(authority@.contains(':'));
                return true;
            }
            i = i + 1;
        }
        false
    }
}

/// The authority a CONNECT request opens a tunnel to: port 443 when none is named.
pub open spec fn spec_connect_authority(a: Seq<char>) -> Seq<char> {
    if spec_has_port(a) { a } else { a + ":443"@ }
}

/// The authority of a CONNECT request, with port 443 added when it names none.
pub fn normalize_connect_authority(authority: &str) -> (r: String)
    ensures
        r@ == spec_connect_authority(authority@),
{
    if has_port(authority) {
        authority.to_owned()
    } else {
        concat(authority, ":443")
    }
}

/// The name a forwarded request is counted under: its authority, with port 80 when it
/// names none, or `unknown:80` without an authority.
pub open spec fn spec_http_target(authority: Option<Seq<char>>) -> Seq<char> {
    match authority {
        Some(a) => if spec_has_port(a) { a } else { a + ":80"@ },
        None => "unknown:80"@,
    }
}

/// The target name of a forwarded request, from the authority of its URI.
pub fn format_http_target(authority: Option<&str>) -> (r: String)
    ensures
        r@ == spec_http_target(
            match authority {
                Some(a) => Some(a@),
                None => None,
            },
        ),
{
    match authority {
        Some(raw) => {
            if has_port(raw) {
                raw.to_owned()
            } else {
                concat(raw, ":80")
            }
        },
        None => "unknown:80".to_owned(),
    }
}

/// Why a plain-HTTP request cannot be forwarded.
#[derive(Clone, Copy, Debug, PartialEq, Eq, Structural)]
pub enum ForwardError {
    /// An `https` request must come through a CONNECT tunnel.
    HttpsNeedsConnect,
    /// The `Host` header holds more than visible ASCII.
    InvalidHostHeader,
    /// Neither the URI nor a `Host` header names the target.
    MissingHost,
    /// The absolute URI could not be built.
    InvalidTargetUri,
}

impl ForwardError {
    pub open spec fn spec_message(self) -> Seq<char> {
        match self {
            ForwardError::HttpsNeedsConnect => "https request must use CONNECT"@,
            ForwardError::InvalidHostHeader => "invalid host header"@,
            ForwardError::MissingHost => "missing host"@,
            ForwardError::InvalidTargetUri => "invalid target uri"@,
        }
    }

    /// The message the proxy logs for this rejection.
    pub fn message(&self) -> (r: String)
        ensures
            r@ == self.spec_message(),
    {
        match self {
            ForwardError::HttpsNeedsConnect => "https request must use CONNECT".to_owned(),
            ForwardError::InvalidHostHeader => "invalid host header".to_owned(),
            ForwardError::MissingHost => "missing host".to_owned(),
            ForwardError::InvalidTargetUri => "invalid target uri".to_owned(),
        }
    }
}

/// A header byte that reads as text: visible ASCII or a tab.
pub open spec fn visible_ascii(b: u8) -> bool {
    (32 <= b && b < 127) || b == 9
}

/// The text of a header value made of visible ASCII and tabs, one character per byte.
pub open spec fn spec_header_text(b: Seq<u8>) -> Option<Seq<char>> {
    if forall|i: int| 0 <= i < b.len() ==> visible_ascii(#[trigger] b[i]) {
        Some(b.map_values(|x: u8| x as char))
    } else {
        None
    }
}

/// A header value as text (what `HeaderValue::to_str` accepts), `None` when it holds
/// other bytes.
pub fn header_value_text(bytes: &[u8]) -> (r: Option<String>)
    ensures
        match r {
            Some(s) => spec_header_text(bytes@) == Some(s@),
            None => spec_header_text(bytes@) is None,
        },
{
    let mut out = String::new();
    let mut i: usize = 0;
    while i < bytes.len()
        invariant
            i <= bytes@.len(),
            forall|j: int| 0 <= j < i ==> visible_ascii(#[trigger] bytes@[j]),
            out@ == bytes@.take(i as int).map_values(|x: u8| x as char),
        decreases bytes.len() - i,
    {
        let b = bytes[i];
        if !((32 <= b && b < 127) || b == 9) {
            assert(!visible_ascii(bytes@[i as int]));
            return None;
        }
        push_char(&mut out, b as char);
        proof {
            assert(bytes@.take(i + 1).map_values(|x: u8| x as char) =~= bytes@.take(i as int).map_values(
                |x: u8| x as char,
            ).push(b as char));
        }
        i = i + 1;
    }
    proof {
        assert(bytes@.take(bytes@.len() as int) =~= bytes@);
    }
    Some(out)
}

/// ASCII lower case of one character.
pub open spec fn ascii_lower(c: char) -> char {
    if 'A' <= c && c <= 'Z' { (((c as u8) + 32) as u8) as char } else { c }
}

/// Whether a URI scheme is `https`, ignoring ASCII case.
pub fn is_https_scheme(scheme: &str) -> (r: bool)
    ensures
        r == (scheme@.map_values(|c: char| ascii_lower(c)) == "https"@),
{
    let cs = chars_of(scheme);
    let want = chars_of("https");
    proof {
        reveal_strlit("https");
    }
    let ghost lowered = scheme@.map_values(|c: char| ascii_lower(c));
    if cs.len() != want.len() {
        assert(lowered.len() != "https"@.len());
        return false;
    }
    let mut i: usize = 0;
    while i < cs.len()
        invariant
            cs@ == scheme@,
            want@ == "https"@,
            cs@.len() == want@.len(),
            lowered == scheme@.map_values(|c: char| ascii_lower(c)),
            i <= cs@.len(),
            forall|j: int| 0 <= j < i ==> lowered[j] == want@[j],
        decreases cs.len() - i,
    {
        let c = cs[i];
        let l = if 'A' <= c && c <= 'Z' { ((c as u8) + 32u8) as char } else { c };
        assert(l == lowered[i as int]);
        if l != want[i] {
            assert(lowered[i as int] != "https"@[i as int]);
            return false;
        }
        i = i + 1;
    }
    assert(lowered =~= "https"@);
    true
}

/// The authority and path a plain-HTTP request is forwarded with: `https` requests are
/// refused, the authority comes from the URI or else from the `Host` header, and the
/// path defaults to `/`.
pub open spec fn spec_forward_parts(
    https: bool,
    authority: Option<Seq<char>>,
    host_header: Option<Seq<u8>>,
    path_and_query: Option<Seq<char>>,
) -> Result<(Seq<char>, Seq<char>), ForwardError> {
    if https {
        Err(ForwardError::HttpsNeedsConnect)
    } else {
        let pq = match path_and_query {
            Some(p) => p,
            None => "/"@,
        };
        match authority {
            Some(a) => Ok((a, pq)),
            None => match host_header {
                Some(h) => match spec_header_text(h) {
                    Some(t) => Ok((t, pq)),
                    None => Err(ForwardError::InvalidHostHeader),
                },
                None => Err(ForwardError::MissingHost),
            },
        }
    }
}

/// Whether the scheme of a request (`http` when it has none) is `https`.
pub open spec fn scheme_is_https(scheme: Option<Seq<char>>) -> bool {
    match scheme {
        Some(s) => s.map_values(|c: char| ascii_lower(c)) == "https"@,
        None => false,
    }
}

/// The view of an optional string slice.
pub open spec fn opt_view(s: Option<&str>) -> Option<Seq<char>> {
    match s {
        Some(x) => Some(x@),
        None => None,
    }
}

/// The authority and path-and-query a request is forwarded with, from the parts of its
/// URI and its `Host` header.
pub fn forward_parts(
    scheme: Option<&str>,
    authority: Option<&str>,
    host_header: Option<&[u8]>,
    path_and_query: Option<&str>,
) -> (r: Result<(String, String), ForwardError>)
    ensures
        match r {
            Ok((a, p)) => spec_forward_parts(
                scheme_is_https(opt_view(scheme)),
                opt_view(authority),
                match host_header {
                    Some(h) => Some(h@),
                    None => None,
                },
                opt_view(path_and_query),
            ) == Ok::<(Seq<char>, Seq<char>), ForwardError>((a@, p@)),
            Err(e) => spec_forward_parts(
                scheme_is_https(opt_view(scheme)),
                opt_view(authority),
                match host_header {
                    Some(h) => Some(h@),
                    None => None,
                },
                opt_view(path_and_query),
            ) == Err::<(Seq<char>, Seq<char>), ForwardError>(e),
        },
{
    let https = match scheme {
        Some(s) => is_https_scheme(s),
        None => false,
    };
    if https {
        return Err(ForwardError::HttpsNeedsConnect);
    }
    let pq = match path_and_query {
        Some(p) => p.to_owned(),
        None => "/".to_owned(),
    };
    match authority {
        Some(a) => Ok((a.to_owned(), pq)),
        None => match host_header {
            Some(h) => match header_value_text(h) {
                Some(t) => Ok((t, pq)),
                None => Err(ForwardError::InvalidHostHeader),
            },
            None => Err(ForwardError::MissingHost),
        },
    }
}

#[verifier::external_type_specification]
#[verifier::external_body]
pub struct ExUri(http::Uri);

/// Whether the `http` crate accepts `http://{authority}{path_and_query}` as a URI.
pub uninterp spec fn http_uri_accepts(authority: Seq<char>, path_and_query: Seq<char>) -> bool;

/// The URI `http::Uri::builder` makes of `http://{authority}{path_and_query}`.
pub uninterp spec fn http_uri_value(authority: Seq<char>, path_and_query: Seq<char>) -> http::Uri;

/// Builds `http://{authority}{path_and_query}` with `http::Uri::builder`; the result is
/// there exactly when the crate accepts the parts, and is then the URI the crate makes
/// of them.
#[verifier::external_body]
fn http_uri(authority: &str, path_and_query: &str) -> (r: Option<http::Uri>)
    ensures
        r is Some <==> http_uri_accepts(authority@, path_and_query@),
        r matches Some(u) ==> u == http_uri_value(authority@, path_and_query@),
{
    http::Uri::builder().scheme("http").authority(authority).path_and_query(path_and_query).build().ok()
}

/// The absolute URI a plain-HTTP request is forwarded to: `http://` with the request's
/// authority (or its `Host` header) and its path and query.
pub fn build_forward_uri(
    scheme: Option<&str>,
    authority: Option<&str>,
    host_header: Option<&[u8]>,
    path_and_query: Option<&str>,
) -> (r: Result<http::Uri, ForwardError>)
    ensures
        ({
            let parts = spec_forward_parts(
                scheme_is_https(opt_view(scheme)),
                opt_view(authority),
                match host_header {
                    Some(h) => Some(h@),
                    None => None,
                },
                opt_view(path_and_query),
            );
            match parts {
                Err(e) => r == Err::<http::Uri, ForwardError>(e),
                Ok((a, p)) => if http_uri_accepts(a, p) {
                    r == Ok::<http::Uri, ForwardError>(http_uri_value(a, p))
                } else {
                    r == Err::<http::Uri, ForwardError>(ForwardError::InvalidTargetUri)
                },
            }
        }),
{
    match forward_parts(scheme, authority, host_header, path_and_query) {
        Err(e) => Err(e),
        Ok((a, p)) => match http_uri(a.as_str(), p.as_str()) {
            Some(u) => Ok(u),
            None => Err(ForwardError::InvalidTargetUri),
        },
    }
}

/// Normalizing a CONNECT authority twice changes nothing more than once: the result
/// always names a port (for a bracketed host, when its bracket is closed).
pub proof fn lemma_connect_authority_idempotent(a: Seq<char>)
    requires
        a.len() > 0 && a[0] == '[' ==> a.last() == ']',
    ensures
        spec_has_port(spec_connect_authority(a)),
        spec_connect_authority(spec_connect_authority(a)) == spec_connect_authority(a),
{
    reveal_strlit(":443");
    if !spec_has_port(a) {
        let b = a + ":443"@;
        if a.len() > 0 && a[0] == '[' {
            assert(b[0] == '[');
            assert(b[a.len() - 1] == ']' && b[a.len() as int] == ':');
            assert(has_bracket_colon(b));
        } else {
            assert(b[a.len() as int] == ':');
            assert(b.contains(':'));
            if b.len() > 0 && b[0] == '[' {
                assert(a.len() == 0);
            }
        }
    }
}

} // verus!
