//! The HTTP load test: its settings, their validation, the size of a request, the
//! headers it is sent with, and what is recorded and logged for each outcome.
//!
//! Durations are nanoseconds.
use vstd::prelude::*;
use vstd::utf8::encode_utf8;
use crate::assoc::{assoc_map, key_index, keys_unique, lemma_find_absent, lemma_find_push, lemma_find_update, lemma_key_index};
use crate::conn::ConnectionMode;
use crate::metrics::{LoadMetrics, MetricsSnapshot, minimal_snapshot, record_step, samples_within_max, spec_buckets, spec_done, spec_percentile, spec_progress, status_stats};
use crate::protocol::{HttpVersionPolicy, Scheme};
use crate::proxy::ascii_lower;
use crate::scheduler::{RpsMode, positive_limit};
use crate::text::{chars_of, concat, contains_seq, contains_slice};

verus! {

/// How a response body is handled (it is always read to the end).
#[derive(Clone, Copy, Debug, PartialEq, Eq, Structural)]
pub enum ResponseMode {
    /// Read the body and count its bytes.
    CountBytes,
    /// Read the body without counting it.
    DiscardBody,
}

impl ResponseMode {
    pub open spec fn spec_name(self) -> Seq<char> {
        match self {
            ResponseMode::CountBytes => "countBytes"@,
            ResponseMode::DiscardBody => "discardBody"@,
        }
    }

    /// The mode's name.
    pub fn as_str(self) -> (r: &'static str)
        ensures
            r@ == self.spec_name(),
    {
        match self {
            ResponseMode::CountBytes => "countBytes",
            ResponseMode::DiscardBody => "discardBody",
        }
    }
}

/// Whether latency samples are kept for percentiles.
#[derive(Clone, Copy, Debug, PartialEq, Eq, Structural)]
pub enum MetricsMode {
    /// Sample latencies and compute percentiles.
    Full,
    /// Counters only, for the highest throughput.
    Minimal,
}

impl MetricsMode {
    pub open spec fn spec_name(self) -> Seq<char> {
        match self {
            MetricsMode::Full => "full"@,
            MetricsMode::Minimal => "minimal"@,
        }
    }

    /// The mode's name.
    pub fn as_str(self) -> (r: &'static str)
        ensures
            r@ == self.spec_name(),
    {
        match self {
            MetricsMode::Full => "full",
            MetricsMode::Minimal => "minimal",
        }
    }
}

/// Reports every 500 ms unless told otherwise.
pub const DEFAULT_REPORT_INTERVAL_NANOS: u64 = 500_000_000u64;

/// Keeps at most this many latency samples unless told otherwise.
pub const DEFAULT_MAX_LATENCY_SAMPLES: usize = 10_000usize;

/// Settings of a load test as given.
#[derive(Clone, Debug)]
pub struct LoadTestConfig {
    pub url: String,
    pub method: String,
    pub concurrency: usize,
    pub ramp_up_nanos: u64,
    pub iterations_per_worker: Option<u64>,
    pub total_requests_limit: Option<u64>,
    pub duration_nanos: u64,
    pub timeout_nanos: u64,
    pub body: Option<Vec<u8>>,
    pub headers: Vec<(String, String)>,
    pub response_mode: ResponseMode,
    pub metrics_mode: MetricsMode,
    pub connection_mode: ConnectionMode,
    /// Time between paced requests, derived from a valid requests-per-second limit.
    pub pacing_interval_nanos: Option<u64>,
    pub rps_mode: RpsMode,
    pub allow_insecure_certs: bool,
    pub report_interval_nanos: u64,
    pub max_latency_samples: usize,
}

impl LoadTestConfig {
    /// Settings with everything else at its default: no ramp-up, no limits, no body or
    /// extra headers, counted bodies, full metrics, keep-alive, no pacing (global when
    /// set), certificates checked, reports every 500 ms and 10 000 latency samples.
    pub fn new(url: String, method: String, concurrency: usize, duration_nanos: u64, timeout_nanos: u64) -> (r: Self)
        ensures
            r.url == url,
            r.method == method,
            r.concurrency == concurrency,
            r.ramp_up_nanos == 0,
            r.iterations_per_worker is None,
            r.total_requests_limit is None,
            r.duration_nanos == duration_nanos,
            r.timeout_nanos == timeout_nanos,
            r.body is None,
            r.headers@.len() == 0,
            r.response_mode == ResponseMode::CountBytes,
            r.metrics_mode == MetricsMode::Full,
            r.connection_mode == ConnectionMode::KeepAlive,
            r.pacing_interval_nanos is None,
            r.rps_mode == RpsMode::Global,
            !r.allow_insecure_certs,
            r.report_interval_nanos == DEFAULT_REPORT_INTERVAL_NANOS,
            r.max_latency_samples == DEFAULT_MAX_LATENCY_SAMPLES,
    {
        LoadTestConfig {
            url,
            method,
            concurrency,
            ramp_up_nanos: 0,
            iterations_per_worker: None,
            total_requests_limit: None,
            duration_nanos,
            timeout_nanos,
            body: None,
            headers: Vec::new(),
            response_mode: ResponseMode::CountBytes,
            metrics_mode: MetricsMode::Full,
            connection_mode: ConnectionMode::KeepAlive,
            pacing_interval_nanos: None,
            rps_mode: RpsMode::Global,
            allow_insecure_certs: false,
            report_interval_nanos: DEFAULT_REPORT_INTERVAL_NANOS,
            max_latency_samples: DEFAULT_MAX_LATENCY_SAMPLES,
        }
    }
}

/// The completion points reported in the full metrics mode.
pub open spec fn completion_percentiles() -> Seq<u64> {
    seq![50u64, 90, 95, 99, 100]
}

/// A metrics report in the given mode: with percentiles and completion points in the
/// full mode, counters only in the minimal one.
pub fn metrics_report(
    mode: MetricsMode,
    metrics: &LoadMetrics,
    elapsed_nanos: u64,
    duration_nanos: u64,
    total_requests_limit: Option<u64>,
    force_done: bool,
) -> (r: MetricsSnapshot)
    requires
        metrics.wf(),
    ensures
        r.elapsed_nanos == elapsed_nanos,
        r.total_requests == metrics@.total_requests,
        r.success == metrics@.success,
        r.failures == metrics@.failures,
        r.total_bytes == metrics@.byte_count,
        r.total_bytes_up == metrics@.byte_count_up,
        r.status_codes@ == status_stats(metrics@.status_counts),
        r.progress == spec_progress(elapsed_nanos, duration_nanos, metrics@.total_requests, total_requests_limit, force_done),
        r.done == spec_done(elapsed_nanos, duration_nanos, metrics@.total_requests, total_requests_limit, force_done),
        mode == MetricsMode::Full ==> {
            &&& r.p50_nanos == spec_percentile(metrics@.samples, 50)
            &&& r.p90_nanos == spec_percentile(metrics@.samples, 90)
            &&& r.p95_nanos == spec_percentile(metrics@.samples, 95)
            &&& r.p99_nanos == spec_percentile(metrics@.samples, 99)
            &&& r.completion_buckets@ == spec_buckets(metrics@.samples, metrics@.max_latency_nanos, completion_percentiles())
        },
        mode == MetricsMode::Minimal ==> {
            &&& r.p50_nanos == 0 && r.p90_nanos == 0 && r.p95_nanos == 0 && r.p99_nanos == 0
            &&& r.completion_buckets@.len() == 0
        },
{
    match mode {
        MetricsMode::Full => {
            let percentiles: [u64; 5] = [50, 90, 95, 99, 100];
            assert(percentiles@ =~= completion_percentiles());
            metrics.snapshot(elapsed_nanos, duration_nanos, &percentiles, total_requests_limit, force_done)
        },
        MetricsMode::Minimal => minimal_snapshot(metrics, elapsed_nanos, duration_nanos, total_requests_limit, force_done),
    }
}

/// What a load test tells its owner.
#[derive(Clone, Debug)]
pub enum LoadTestEvent {
    Metrics(MetricsSnapshot),
    Log(String),
}

/// The parts of a parsed URL that the load test reads.
#[derive(Clone, Debug)]
pub struct UriParts {
    pub scheme: Option<String>,
    pub authority: Option<String>,
    pub path_and_query: Option<String>,
}

/// The view of an optional `String`.
pub open spec fn opt_string(s: Option<String>) -> Option<Seq<char>> {
    match s {
        Some(x) => Some(x@),
        None => None,
    }
}

impl View for UriParts {
    type V = (Option<Seq<char>>, Option<Seq<char>>, Option<Seq<char>>);

    open spec fn view(&self) -> (Option<Seq<char>>, Option<Seq<char>>, Option<Seq<char>>) {
        (opt_string(self.scheme), opt_string(self.authority), opt_string(self.path_and_query))
    }
}

/// What the `http` crate makes of a URL: its scheme, authority and path-and-query, or
/// the text of its parse error.
pub uninterp spec fn uri_parse(url: Seq<char>) -> Result<
    (Option<Seq<char>>, Option<Seq<char>>, Option<Seq<char>>),
    Seq<char>,
>;

/// Parses a URL with `http::Uri`'s `FromStr`, keeping the scheme, the authority and the
/// path-and-query (as `Uri::path_and_query` gives them), or the error's text.
#[verifier::external_body]
fn parse_uri(url: &str) -> (r: Result<UriParts, String>)
    ensures
        match r {
            Ok(p) => uri_parse(url@) == Ok::<_, Seq<char>>(p@),
            Err(e) => uri_parse(url@) == Err::<(Option<Seq<char>>, Option<Seq<char>>, Option<Seq<char>>), Seq<char>>(e@),
        },
{
    match url.parse::<http::Uri>() {
        Ok(u) => Ok(UriParts {
            scheme: u.scheme_str().map(|s| s.to_owned()),
            authority: u.authority().map(|a| a.as_str().to_owned()),
            path_and_query: u.path_and_query().map(|p| p.as_str().to_owned()),
        }),
        Err(e) => Err(e.to_string()),
    }
}

/// A token character of HTTP (RFC 9110): letters, digits and ``!#$%&'*+-.^_`|~``.
pub open spec fn is_tchar(c: char) -> bool {
    ||| ('0' <= c && c <= '9')
    ||| ('a' <= c && c <= 'z')
    ||| ('A' <= c && c <= 'Z')
    ||| c == '!' || c == '#' || c == '$' || c == '%' || c == '&' || c == '\''
    ||| c == '*' || c == '+' || c == '-' || c == '.' || c == '^' || c == '_'
    ||| c == '`' || c == '|' || c == '~'
}

/// A non-empty token.
pub open spec fn is_token(s: Seq<char>) -> bool {
    s.len() > 0 && forall|i: int| 0 <= i < s.len() ==> is_tchar(#[trigger] s[i])
}

/// Whether `http::Method::from_bytes` accepts the UTF-8 bytes of `method`: they must
/// form a non-empty token (a byte outside the token table, any non-ASCII one among
/// them, is refused).
#[verifier::external_body]
fn http_method_accepts(method: &str) -> (r: bool)
    ensures
        r == is_token(method@),
{
    http::Method::from_bytes(method.as_bytes()).is_ok()
}

/// Whether a header name is acceptable to `http::HeaderName::from_bytes`: a token of
/// at most 65 535 characters.
pub open spec fn header_name_ok(s: Seq<char>) -> bool {
    is_token(s) && s.len() <= 65535
}

/// The normalized (lower-case) header name `http::HeaderName::from_bytes` makes of the
/// UTF-8 bytes of `name`, when it accepts them.
#[verifier::external_body]
fn http_header_name(name: &str) -> (r: Option<String>)
    ensures
        r is Some <==> header_name_ok(name@),
        r matches Some(n) ==> n@ == name@.map_values(|c: char| ascii_lower(c)),
{
    http::HeaderName::from_bytes(name.as_bytes()).ok().map(|n| n.as_str().to_owned())
}

/// A character allowed in a header value: anything from the space up except DEL, and
/// the tab (every non-ASCII character is encoded with bytes above 127).
pub open spec fn header_value_char(c: char) -> bool {
    ((c as u32) >= 32 && (c as u32) != 127) || c == '\t'
}

/// Whether `http::HeaderValue::from_str` accepts `value`: every byte of its UTF-8
/// encoding is at least 32 and not 127, or a tab.
#[verifier::external_body]
fn http_header_value_accepts(value: &str) -> (r: bool)
    ensures
        r == (forall|i: int| 0 <= i < value@.len() ==> header_value_char(#[trigger] value@[i])),
{
    http::HeaderValue::from_str(value).is_ok()
}

/// The header list after inserting `(k, v)`: a header already there takes the new
/// value in its place, a new one goes last.
pub open spec fn put_header(h: Seq<(Seq<char>, Seq<char>)>, k: Seq<char>, v: Seq<char>) -> Seq<(Seq<char>, Seq<char>)> {
    let i = key_index(h, k);
    if i >= 0 {
        h.update(i, (k, v))
    } else {
        h.push((k, v))
    }
}

/// The lower-case form of a header name.
pub open spec fn lower(s: Seq<char>) -> Seq<char> {
    s.map_values(|c: char| ascii_lower(c))
}

/// The headers a request carries after inserting each given pair in turn.
pub open spec fn header_map(pairs: Seq<(Seq<char>, Seq<char>)>) -> Seq<(Seq<char>, Seq<char>)>
    decreases pairs.len(),
{
    if pairs.len() == 0 {
        Seq::empty()
    } else {
        put_header(header_map(pairs.drop_last()), lower(pairs.last().0), pairs.last().1)
    }
}

/// The message for the first header pair that is refused, checking the name before
/// the value.
pub open spec fn first_bad_header(pairs: Seq<(Seq<char>, Seq<char>)>) -> Option<Seq<char>>
    decreases pairs.len(),
{
    if pairs.len() == 0 {
        None
    } else if !header_name_ok(pairs[0].0) {
        Some("无效的 header 名称 `"@ + pairs[0].0 + "`: invalid HTTP header name"@)
    } else if !(forall|i: int| 0 <= i < pairs[0].1.len() ==> header_value_char(#[trigger] pairs[0].1[i])) {
        Some("无效的 header 值 `"@ + pairs[0].1 + "`: failed to parse header value"@)
    } else {
        first_bad_header(pairs.skip(1))
    }
}

/// The views of a list of header pairs.
pub open spec fn pair_views(v: Seq<(String, String)>) -> Seq<(Seq<char>, Seq<char>)> {
    v.map_values(|p: (String, String)| (p.0@, p.1@))
}

/// The number of bytes a UTF-8 text takes (what `str::len` reports).
pub open spec fn utf8_len(s: Seq<char>) -> int {
    (encode_utf8(s).len() as usize) as int
}

/// Bytes of the header lines `name: value\r\n`.
pub open spec fn header_lines_bytes(h: Seq<(Seq<char>, Seq<char>)>) -> int
    decreases h.len(),
{
    if h.len() == 0 {
        0
    } else {
        header_lines_bytes(h.drop_last()) + utf8_len(h.last().0) + 2 + utf8_len(h.last().1) + 2
    }
}

/// Whether a header of that (lower-case) name is present.
pub open spec fn has_header(h: Seq<(Seq<char>, Seq<char>)>, name: Seq<char>) -> bool {
    exists|i: int| 0 <= i < h.len() && #[trigger] h[i].0 == name
}

/// The message when a request has no `Host` header and its URL no authority.
pub open spec fn missing_authority_message() -> Seq<char> {
    "URL 缺少 authority（host:port）"@
}

/// The headers without any of that name.
pub open spec fn without_header(h: Seq<(Seq<char>, Seq<char>)>, name: Seq<char>) -> Seq<(Seq<char>, Seq<char>)>
    decreases h.len(),
{
    if h.len() == 0 {
        h
    } else if h.last().0 == name {
        without_header(h.drop_last(), name)
    } else {
        without_header(h.drop_last(), name).push(h.last())
    }
}

/// The configured headers a request keeps: all of them, but when the connection mode
/// closes connections, no `Connection` header of their own (it carries `close`).
pub open spec fn kept_headers(h: Seq<(Seq<char>, Seq<char>)>, close_header: bool) -> Seq<(Seq<char>, Seq<char>)> {
    if close_header {
        without_header(h, "connection"@)
    } else {
        h
    }
}

/// The size in bytes of an HTTP/1.1 request: request line, headers (with the `Host`
/// header the URL's authority gives when none is set, and, when the connection mode
/// closes connections, `Connection: close` in place of any configured `Connection`
/// header), the blank line and the body.
pub open spec fn spec_request_bytes(
    uri: (Option<Seq<char>>, Option<Seq<char>>, Option<Seq<char>>),
    method: Seq<char>,
    h: Seq<(Seq<char>, Seq<char>)>,
    body_len: nat,
    close_header: bool,
) -> Result<int, Seq<char>> {
    let path = match uri.2 {
        Some(p) => p,
        None => "/"@,
    };
    let line = utf8_len(method) + 1 + utf8_len(path) + 1 + 8 + 2;
    let host = if has_header(h, "host"@) {
        Ok(0int)
    } else {
        match uri.1 {
            Some(a) => Ok(4 + 2 + utf8_len(a) + 2),
            None => Err(missing_authority_message()),
        }
    };
    let conn = if close_header { 19int } else { 0int };
    match host {
        Ok(hb) => Ok(line + header_lines_bytes(kept_headers(h, close_header)) + hb + conn + 2 + body_len),
        Err(e) => Err(e),
    }
}

/// `x` capped at `u64::MAX`.
pub open spec fn cap(x: int) -> int {
    if x <= u64::MAX { x } else { u64::MAX as int }
}

/// Adds `x` to a total kept capped at `u64::MAX`.
fn add_capped(total: u64, x: u64, Ghost(t): Ghost<int>) -> (r: u64)
    requires
        t >= 0,
        total == cap(t),
    ensures
        r == cap(t + x),
{
    total.saturating_add(x)
}

/// The size in bytes of one request, capped at `u64::MAX`; an error when the request
/// has no `Host` header and its URL no authority.
pub fn estimate_request_bytes(
    uri: &UriParts,
    method: &str,
    headers: &Vec<(String, String)>,
    body_len: usize,
    connection_mode: ConnectionMode,
) -> (r: Result<u64, String>)
    ensures
        match spec_request_bytes(
            uri@,
            method@,
            pair_views(headers@),
            body_len as nat,
            connection_mode.spec_pool_config().close_header,
        ) {
            Ok(n) => r == Ok::<u64, String>(cap(n) as u64),
            Err(e) => r is Err && r->Err_0@ == e,
        },
{
    let ghost h = pair_views(headers@);
    let path: &str = match &uri.path_and_query {
        Some(p) => p.as_str(),
        None => "/",
    };
    proof {
        reveal_strlit("/");
        reveal_strlit("host");
        reveal_strlit("connection");
    }
    let ghost ml = utf8_len(method@);
    let ghost pl = utf8_len(path@);
    let mlen = method.len() as u64;
    let plen = path.len() as u64;
    assert(mlen == ml && plen == pl);
    let mut total: u64 = add_capped(0, mlen, Ghost(0int));
    total = add_capped(total, 1, Ghost(ml));
    total = add_capped(total, plen, Ghost(ml + 1));
    total = add_capped(total, 11, Ghost(ml + 1 + pl));
    let ghost line = ml + 1 + pl + 1 + 8 + 2;
    let close = connection_mode.pool_config().close_header;
    let ghost kh = kept_headers(h, close);
    let mut header_bytes: u64 = 0;
    let mut has_host = false;
    let host_name = "host".to_owned();
    let connection_name = "connection".to_owned();
    let mut i: usize = 0;
    while i < headers.len()
        invariant
            i <= headers@.len(),
            h == pair_views(headers@),
            close == connection_mode.spec_pool_config().close_header,
            host_name@ == "host"@,
            connection_name@ == "connection"@,
            header_bytes == cap(header_lines_bytes(kept_headers(h.take(i as int), close))),
            header_lines_bytes(kept_headers(h.take(i as int), close)) >= 0,
            has_host == has_header(h.take(i as int), "host"@),
        decreases headers.len() - i,
    {
        let name = &headers[i].0;
        let value = &headers[i].1;
        let ghost prev = kept_headers(h.take(i as int), close);
        let ghost before = header_lines_bytes(prev);
        proof {
            assert(h[i as int] == (name@, value@));
            assert(h.take(i + 1).drop_last() =~= h.take(i as int));
            assert(h.take(i + 1).last() == h[i as int]);
            assert(has_header(h.take(i + 1), "host"@) == (has_header(h.take(i as int), "host"@)
                || name@ == "host"@)) by {
                if name@ == "host"@ {
                    assert(h.take(i + 1)[i as int].0 == "host"@);
                }
                if has_header(h.take(i + 1), "host"@) && name@ != "host"@ {
                    let j = choose|j: int| 0 <= j < h.take(i + 1).len() && #[trigger] h.take(i + 1)[j].0 == "host"@;
                    assert(h.take(i as int)[j].0 == "host"@);
                }
            }
            assert(prev.push(h[i as int]).drop_last() =~= prev);
        }
        if *name == host_name {
            has_host = true;
        }
        if !(close && *name == connection_name) {
            let nl = name.as_str().len() as u64;
            let vl = value.as_str().len() as u64;
            assert(nl == utf8_len(name@) && vl == utf8_len(value@));
            assert(kept_headers(h.take(i + 1), close) == prev.push(h[i as int]));
            assert(header_lines_bytes(kept_headers(h.take(i + 1), close)) == before + nl + 2 + vl + 2);
            header_bytes = add_capped(header_bytes, nl, Ghost(before));
            header_bytes = add_capped(header_bytes, 2, Ghost(before + nl));
            header_bytes = add_capped(header_bytes, vl, Ghost(before + nl + 2));
            header_bytes = add_capped(header_bytes, 2, Ghost(before + nl + 2 + vl));
        } else {
            assert(kept_headers(h.take(i + 1), close) == prev);
        }
        i = i + 1;
    }
    proof {
        assert(h.take(headers@.len() as int) =~= h);
    }
    let ghost hb = header_lines_bytes(kh);
    let ghost mut extra: int = 0;
    if !has_host {
        match &uri.authority {
            Some(a) => {
                let al = a.as_str().len() as u64;
                assert(al == utf8_len(a@));
                header_bytes = add_capped(header_bytes, 6, Ghost(hb));
                header_bytes = add_capped(header_bytes, al, Ghost(hb + 6));
                header_bytes = add_capped(header_bytes, 2, Ghost(hb + 6 + al));
                proof {
                    extra = 6 + al + 2;
                }
            },
            None => {
                return Err("URL 缺少 authority（host:port）".to_owned());
            },
        }
    }
    if close {
        header_bytes = add_capped(header_bytes, 19, Ghost(hb + extra));
        proof {
            extra = extra + 19;
        }
    }
    total = add_capped(total, header_bytes, Ghost(line));
    assert(total == cap(line + cap(hb + extra)));
    assert(total == cap(line + hb + extra));
    total = add_capped(total, 2, Ghost(line + hb + extra));
    total = add_capped(total, body_len as u64, Ghost(line + hb + extra + 2));
    Ok(total)
}

/// Inserts a header into a list of distinct headers: a present name takes the new
/// value in its place, a new one goes last.
fn insert_header(headers: &mut Vec<(String, String)>, name: String, value: String)
    requires
        keys_unique(pair_views(old(headers)@)),
    ensures
        keys_unique(pair_views(final(headers)@)),
        pair_views(final(headers)@) == put_header(pair_views(old(headers)@), name@, value@),
{
    let ghost h = pair_views(headers@);
    proof {
        lemma_key_index(h, name@);
    }
    let mut j: usize = 0;
    while j < headers.len()
        invariant
            j <= headers@.len(),
            headers@ == old(headers)@,
            h == pair_views(headers@),
            keys_unique(h),
            -1 <= key_index(h, name@) < h.len(),
            key_index(h, name@) == -1 <==> (forall|q: int| 0 <= q < h.len() ==> h[q].0 != name@),
            forall|q: int| 0 <= q < h.len() && h[q].0 == name@ ==> key_index(h, name@) == q,
            forall|q: int| 0 <= q < j ==> h[q].0 != name@,
        decreases headers.len() - j,
    {
        if headers[j].0 == name {
            assert(h[j as int].0 == name@);
            let ghost k = name@;
            let ghost v = value@;
            headers.set(j, (name, value));
            proof {
                assert(pair_views(headers@) =~= h.update(j as int, (k, v)));
                assert forall|a: int, b: int| 0 <= a < b < pair_views(headers@).len() implies pair_views(
                    headers@,
                )[a].0 != pair_views(headers@)[b].0 by {
                    assert(pair_views(headers@)[a].0 == h[a].0);
                    assert(pair_views(headers@)[b].0 == h[b].0);
                }
            }
            return;
        }
        j = j + 1;
    }
    let ghost k = name@;
    let ghost v = value@;
    headers.push((name, value));
    proof {
        assert(pair_views(headers@) =~= h.push((k, v)));
    }
}

/// A load test's settings after validation and normalization.
#[derive(Clone, Debug)]
pub struct ValidatedConfig {
    pub uri: UriParts,
    pub method: String,
    /// Distinct lower-case header names with their values.
    pub headers: Vec<(String, String)>,
    pub body: Vec<u8>,
    pub response_mode: ResponseMode,
    pub metrics_mode: MetricsMode,
    pub connection_mode: ConnectionMode,
    pub pacing_interval_nanos: Option<u64>,
    pub rps_mode: RpsMode,
    pub allow_insecure_certs: bool,
    pub concurrency: usize,
    pub ramp_up_nanos: u64,
    pub iterations_per_worker: Option<u64>,
    pub total_requests_limit: Option<u64>,
    /// The request count that completes the run, for progress.
    pub progress_total_requests_limit: Option<u64>,
    pub duration_nanos: u64,
    pub timeout_nanos: u64,
    pub report_interval_nanos: u64,
    pub max_latency_samples: usize,
    pub request_bytes_per_request: u64,
}

/// The request count that completes a run: the smaller of the total limit and the
/// iterations of all workers (saturating), whichever are set.
pub open spec fn spec_progress_limit(total: Option<u64>, iterations: Option<u64>, concurrency: usize) -> Option<u64> {
    let workers: u64 = if concurrency == 0 { 1 } else { concurrency as u64 };
    let derived = match iterations {
        Some(i) => Some(if i * workers > u64::MAX { u64::MAX } else { (i * workers) as u64 }),
        None => None,
    };
    match (total, derived) {
        (Some(t), Some(d)) => Some(if t < d { t } else { d }),
        (Some(t), None) => Some(t),
        (None, Some(d)) => Some(d),
        (None, None) => None,
    }
}

/// At least `lo`.
pub open spec fn at_least(x: u64, lo: u64) -> u64 {
    if x < lo { lo } else { x }
}

/// `v` is what validation makes of `c`, with `bytes` the size of one request.
pub open spec fn validated_from(v: ValidatedConfig, c: LoadTestConfig, bytes: u64) -> bool {
    &&& uri_parse(c.url@) == Ok::<_, Seq<char>>(v.uri@)
    &&& settings_from(v, c, bytes)
}

/// The settings of `v`, all but its URL, are what validation makes of those of `c`, with
/// `bytes` the size of one request.
pub open spec fn settings_from(v: ValidatedConfig, c: LoadTestConfig, bytes: u64) -> bool {
    let duration = at_least(c.duration_nanos, 1_000_000_000u64);
    &&& v.method@ == c.method@
    &&& pair_views(v.headers@) == header_map(pair_views(c.headers@))
    &&& v.body@ == match c.body {
        Some(b) => b@,
        None => Seq::<u8>::empty(),
    }
    &&& v.response_mode == c.response_mode
    &&& v.metrics_mode == c.metrics_mode
    &&& v.connection_mode == c.connection_mode
    &&& v.pacing_interval_nanos == c.pacing_interval_nanos
    &&& v.rps_mode == c.rps_mode
    &&& v.allow_insecure_certs == c.allow_insecure_certs
    &&& v.concurrency == if c.concurrency == 0 { 1 } else { c.concurrency }
    &&& v.duration_nanos == duration
    &&& v.ramp_up_nanos == if c.ramp_up_nanos < duration { c.ramp_up_nanos } else { duration }
    &&& v.iterations_per_worker == positive_limit(c.iterations_per_worker)
    &&& v.total_requests_limit == positive_limit(c.total_requests_limit)
    &&& v.progress_total_requests_limit == spec_progress_limit(
        positive_limit(c.total_requests_limit),
        positive_limit(c.iterations_per_worker),
        c.concurrency,
    )
    &&& v.timeout_nanos == at_least(c.timeout_nanos, 100_000_000u64)
    &&& v.report_interval_nanos == at_least(c.report_interval_nanos, 100_000_000u64)
    &&& v.max_latency_samples == if c.max_latency_samples == 0 { 1 } else { c.max_latency_samples }
    &&& v.request_bytes_per_request == bytes
}

/// The length of an optional body.
pub open spec fn body_len(b: Option<Vec<u8>>) -> nat {
    match b {
        Some(x) => x@.len(),
        None => 0,
    }
}

impl ValidatedConfig {
    /// Validates and normalizes settings: the URL must parse, the method be a token, and
    /// each header a valid name and value (a repeated name keeps the last value); the
    /// duration is at least a second, the timeout and the report interval at least
    /// 100 ms, there is at least one worker and one latency sample, the ramp-up is at
    /// most the duration, zero limits mean none, and the size of one request is worked
    /// out.
    pub fn try_from(value: LoadTestConfig) -> (r: Result<ValidatedConfig, String>)
        ensures
            uri_parse(value.url@) is Err ==> r is Err && r->Err_0@ == "无效的 URL: "@ + uri_parse(
                value.url@,
            )->Err_0,
            uri_parse(value.url@) is Ok && !is_token(value.method@) ==> r is Err && r->Err_0@
                == "无效的 Method: invalid HTTP method"@,
            uri_parse(value.url@) is Ok && is_token(value.method@) && first_bad_header(
                pair_views(value.headers@),
            ) is Some ==> r is Err && r->Err_0@ == first_bad_header(pair_views(value.headers@))->Some_0,
            uri_parse(value.url@) is Ok && is_token(value.method@) && first_bad_header(
                pair_views(value.headers@),
            ) is None ==> match spec_request_bytes(
                uri_parse(value.url@)->Ok_0,
                value.method@,
                header_map(pair_views(value.headers@)),
                body_len(value.body),
                value.connection_mode.spec_pool_config().close_header,
            ) {
                Err(e) => r is Err && r->Err_0@ == e,
                Ok(n) => r is Ok && validated_from(r->Ok_0, value, cap(n) as u64),
            },
    {
        match parse_uri(value.url.as_str()) {
            Ok(u) => Self::from_parsed(value, u),
            Err(e) => Err(concat("无效的 URL: ", e.as_str())),
        }
    }

    /// Validates and normalizes settings whose URL parsed into `uri` (see
    /// [`ValidatedConfig::try_from`]): the method must be a token and each header a valid
    /// name and value, and the request must have a `Host` header or an authority.
    pub fn from_parsed(value: LoadTestConfig, uri: UriParts) -> (r: Result<ValidatedConfig, String>)
        ensures
            !is_token(value.method@) ==> r is Err && r->Err_0@ == "无效的 Method: invalid HTTP method"@,
            is_token(value.method@) && first_bad_header(pair_views(value.headers@)) is Some ==> r is Err
                && r->Err_0@ == first_bad_header(pair_views(value.headers@))->Some_0,
            is_token(value.method@) && first_bad_header(pair_views(value.headers@)) is None ==> match spec_request_bytes(
                uri@,
                value.method@,
                header_map(pair_views(value.headers@)),
                body_len(value.body),
                value.connection_mode.spec_pool_config().close_header,
            ) {
                Err(e) => r is Err && r->Err_0@ == e,
                Ok(n) => r is Ok && r->Ok_0.uri@ == uri@ && settings_from(r->Ok_0, value, cap(n) as u64),
            },
    {
        if !http_method_accepts(value.method.as_str()) {
            return Err("无效的 Method: invalid HTTP method".to_owned());
        }
        let duration_nanos = if value.duration_nanos < 1_000_000_000 {
            1_000_000_000
        } else {
            value.duration_nanos
        };
        let timeout_nanos = if value.timeout_nanos < 100_000_000 {
            100_000_000
        } else {
            value.timeout_nanos
        };
        let report_interval_nanos = if value.report_interval_nanos < 100_000_000 {
            100_000_000
        } else {
            value.report_interval_nanos
        };
        let max_latency_samples = if value.max_latency_samples == 0 {
            1
        } else {
            value.max_latency_samples
        };
        let ghost pairs = pair_views(value.headers@);
        let mut headers: Vec<(String, String)> = Vec::new();
        let mut i: usize = 0;
        proof {
            assert(pairs.skip(0) =~= pairs);
            assert(pair_views(headers@) =~= header_map(pairs.take(0)));
        }
        while i < value.headers.len()
            invariant
                i <= value.headers@.len(),
                is_token(value.method@),
                pairs == pair_views(value.headers@),
                keys_unique(pair_views(headers@)),
                pair_views(headers@) == header_map(pairs.take(i as int)),
                first_bad_header(pairs) == first_bad_header(pairs.skip(i as int)),
            decreases value.headers.len() - i,
        {
            let key = &value.headers[i].0;
            let val = &value.headers[i].1;
            proof {
                assert(pairs[i as int] == (key@, val@));
                assert(pairs.skip(i as int)[0] == pairs[i as int]);
                assert(pairs.skip(i as int).skip(1) =~= pairs.skip(i + 1));
                assert(pairs.take(i + 1).drop_last() =~= pairs.take(i as int));
            }
            let name = match http_header_name(key.as_str()) {
                Some(n) => n,
                None => {
                    let head = concat("无效的 header 名称 `", key.as_str());
                    return Err(concat(head.as_str(), "`: invalid HTTP header name"));
                },
            };
            if !http_header_value_accepts(val.as_str()) {
                let head = concat("无效的 header 值 `", val.as_str());
                return Err(concat(head.as_str(), "`: failed to parse header value"));
            }
            insert_header(&mut headers, name, val.clone());
            i = i + 1;
        }
        proof {
            assert(pairs.take(pairs.len() as int) =~= pairs);
            assert(pairs.skip(pairs.len() as int).len() == 0);
        }
        let body: Vec<u8> = match &value.body {
            Some(b) => b.clone(),
            None => Vec::new(),
        };
        let blen = body.len();
        let request_bytes_per_request = match estimate_request_bytes(
            &uri,
            value.method.as_str(),
            &headers,
            blen,
            value.connection_mode,
        ) {
            Ok(n) => n,
            Err(e) => {
                return Err(e);
            },
        };
        let iterations_per_worker = match value.iterations_per_worker {
            Some(x) => if x > 0 { Some(x) } else { None },
            None => None,
        };
        let total_requests_limit = match value.total_requests_limit {
            Some(x) => if x > 0 { Some(x) } else { None },
            None => None,
        };
        let workers: u64 = if value.concurrency == 0 { 1 } else { value.concurrency as u64 };
        let derived = match iterations_per_worker {
            Some(x) => Some(
                match x.checked_mul(workers) {
                    Some(p) => p,
                    None => u64::MAX,
                },
            ),
            None => None,
        };
        let progress_total_requests_limit = match (total_requests_limit, derived) {
            (Some(t), Some(d)) => Some(if t < d { t } else { d }),
            (Some(t), None) => Some(t),
            (None, Some(d)) => Some(d),
            (None, None) => None,
        };
        let ramp_up_nanos = if value.ramp_up_nanos < duration_nanos {
            value.ramp_up_nanos
        } else {
            duration_nanos
        };
        Ok(ValidatedConfig {
            uri,
            method: value.method,
            headers,
            body,
            response_mode: value.response_mode,
            metrics_mode: value.metrics_mode,
            connection_mode: value.connection_mode,
            pacing_interval_nanos: value.pacing_interval_nanos,
            rps_mode: value.rps_mode,
            allow_insecure_certs: value.allow_insecure_certs,
            concurrency: if value.concurrency == 0 { 1 } else { value.concurrency },
            ramp_up_nanos,
            iterations_per_worker,
            total_requests_limit,
            progress_total_requests_limit,
            duration_nanos,
            timeout_nanos,
            report_interval_nanos,
            max_latency_samples,
            request_bytes_per_request,
        })
    }
}

/// The message when a URL has no scheme.
pub open spec fn missing_scheme_message() -> Seq<char> {
    "URL 缺少 scheme（必须是 http/https）"@
}

/// The scheme a validated URL is requested with.
pub fn request_scheme(uri: &UriParts) -> (r: Result<Scheme, String>)
    ensures
        match uri@.0 {
            None => r is Err && r->Err_0@ == missing_scheme_message(),
            Some(s) => if s == "http"@ {
                r == Ok::<Scheme, String>(Scheme::Http)
            } else if s == "https"@ {
                r == Ok::<Scheme, String>(Scheme::Https)
            } else {
                r is Err && r->Err_0@ == "不支持的 URL scheme: "@ + s
            },
        },
{
    match &uri.scheme {
        None => Err("URL 缺少 scheme（必须是 http/https）".to_owned()),
        Some(s) => Scheme::parse(s.as_str()),
    }
}

/// HTTPS connections may negotiate HTTP/2 only when they are kept alive.
pub fn version_policy(mode: ConnectionMode) -> (r: HttpVersionPolicy)
    ensures
        r == match mode {
            ConnectionMode::KeepAlive => HttpVersionPolicy::Http1OrHttp2,
            ConnectionMode::NewConnection => HttpVersionPolicy::Http1Only,
        },
{
    match mode {
        ConnectionMode::KeepAlive => HttpVersionPolicy::Http1OrHttp2,
        ConnectionMode::NewConnection => HttpVersionPolicy::Http1Only,
    }
}

/// The headers a request is sent with: a `Host` header from the URL's authority when
/// none is set, the configured headers, and, when the connection mode closes
/// connections, `Connection: close` in place of any configured `Connection` header.
pub open spec fn spec_request_headers(
    authority: Option<Seq<char>>,
    h: Seq<(Seq<char>, Seq<char>)>,
    close_header: bool,
) -> Result<Seq<(Seq<char>, Seq<char>)>, Seq<char>> {
    let host: Result<Seq<(Seq<char>, Seq<char>)>, Seq<char>> = if has_header(h, "host"@) {
        Ok(Seq::empty())
    } else {
        match authority {
            Some(a) => Ok(seq![("host"@, a)]),
            None => Err(missing_authority_message()),
        }
    };
    let conn: Seq<(Seq<char>, Seq<char>)> = if close_header {
        seq![("connection"@, "close"@)]
    } else {
        Seq::empty()
    };
    match host {
        Ok(first) => Ok(first + kept_headers(h, close_header) + conn),
        Err(e) => Err(e),
    }
}

/// Whether a header of that name is in the list.
fn find_header(headers: &Vec<(String, String)>, name: &String) -> (r: bool)
    ensures
        r == has_header(pair_views(headers@), name@),
{
    let ghost h = pair_views(headers@);
    let mut i: usize = 0;
    while i < headers.len()
        invariant
            i <= headers@.len(),
            h == pair_views(headers@),
            forall|q: int| 0 <= q < i ==> h[q].0 != name@,
        decreases headers.len() - i,
    {
        assert(h[i as int].0 == headers@[i as int].0@);
        if headers[i].0 == *name {
            return true;
        }
        i = i + 1;
    }
    false
}

/// The headers of the request a validated load test sends.
pub fn request_headers(config: &ValidatedConfig) -> (r: Result<Vec<(String, String)>, String>)
    ensures
        match spec_request_headers(
            config.uri@.1,
            pair_views(config.headers@),
            config.connection_mode.spec_pool_config().close_header,
        ) {
            Ok(v) => r is Ok && pair_views(r->Ok_0@) == v,
            Err(e) => r is Err && r->Err_0@ == e,
        },
{
    proof {
        reveal_strlit("host");
        reveal_strlit("connection");
        reveal_strlit("close");
    }
    let ghost h = pair_views(config.headers@);
    let host_name = "host".to_owned();
    let connection_name = "connection".to_owned();
    let mut out: Vec<(String, String)> = Vec::new();
    if !find_header(&config.headers, &host_name) {
        match &config.uri.authority {
            Some(a) => {
                out.push((host_name, a.clone()));
            },
            None => {
                return Err("URL 缺少 authority（host:port）".to_owned());
            },
        }
    }
    let close = config.connection_mode.pool_config().close_header;
    let ghost first = pair_views(out@);
    let mut i: usize = 0;
    while i < config.headers.len()
        invariant
            i <= config.headers@.len(),
            h == pair_views(config.headers@),
            close == config.connection_mode.spec_pool_config().close_header,
            connection_name@ == "connection"@,
            pair_views(out@) == first + kept_headers(h.take(i as int), close),
        decreases config.headers.len() - i,
    {
        let ghost prev = kept_headers(h.take(i as int), close);
        proof {
            assert(h.take(i + 1).drop_last() =~= h.take(i as int));
            assert(h.take(i + 1).last() == h[i as int]);
        }
        assert(h[i as int] == (config.headers[i as int].0@, config.headers[i as int].1@));
        if !(close && config.headers[i].0 == connection_name) {
            let pair = (config.headers[i].0.clone(), config.headers[i].1.clone());
            let ghost before = pair_views(out@);
            out.push(pair);
            proof {
                assert(kept_headers(h.take(i + 1), close) == prev.push(h[i as int]));
                assert(pair_views(out@) =~= before.push(h[i as int]));
                assert(pair_views(out@) =~= first + kept_headers(h.take(i + 1), close));
            }
        } else {
            assert(kept_headers(h.take(i + 1), close) == prev);
        }
        i = i + 1;
    }
    proof {
        assert(h.take(h.len() as int) =~= h);
    }
    if close {
        let ghost before = pair_views(out@);
        out.push((connection_name, "close".to_owned()));
        proof {
            assert(pair_views(out@) =~= before + seq![("connection"@, "close"@)]);
        }
    } else {
        assert(pair_views(out@) =~= pair_views(out@) + Seq::<(Seq<char>, Seq<char>)>::empty());
    }
    Ok(out)
}

/// The text in ASCII lower case.
pub open spec fn lower_text(s: Seq<char>) -> Seq<char> {
    s.map_values(|c: char| ascii_lower(c))
}

/// Whether an error text reads like a certificate problem: it speaks of a certificate
/// and of it being invalid, unknown, untrusted, failed, unverified or self-signed
/// (ignoring ASCII case).
pub open spec fn spec_looks_like_cert_error(err: Seq<char>) -> bool {
    let l = lower_text(err);
    (contains_seq(l, "certificate"@) || contains_seq(l, "cert "@)) && (contains_seq(l, "invalid"@)
        || contains_seq(l, "unknown"@) || contains_seq(l, "untrusted"@) || contains_seq(l, "failed"@)
        || contains_seq(l, "verify"@) || contains_seq(l, "self signed"@))
}

/// The characters of `s` in ASCII lower case.
fn lowercase_chars(s: &str) -> (r: Vec<char>)
    ensures
        r@ == lower_text(s@),
{
    let cs = chars_of(s);
    let mut out: Vec<char> = Vec::new();
    let mut i: usize = 0;
    while i < cs.len()
        invariant
            i <= cs@.len(),
            cs@ == s@,
            out@ == lower_text(s@).take(i as int),
        decreases cs.len() - i,
    {
        let c = cs[i];
        let l = if 'A' <= c && c <= 'Z' { ((c as u8) + 32u8) as char } else { c };
        out.push(l);
        proof {
            assert(lower_text(s@).take(i + 1) =~= lower_text(s@).take(i as int).push(l));
        }
        i = i + 1;
    }
    proof {
        assert(lower_text(s@).take(s@.len() as int) =~= lower_text(s@));
    }
    out
}

/// Whether an error text reads like a certificate problem.
pub fn looks_like_cert_error(err: &str) -> (r: bool)
    ensures
        r == spec_looks_like_cert_error(err@),
{
    let lower = lowercase_chars(err);
    let l = lower.as_slice();
    let subject = contains_slice(l, chars_of("certificate").as_slice()) || contains_slice(l, chars_of("cert ").as_slice());
    if !subject {
        return false;
    }
    contains_slice(l, chars_of("invalid").as_slice()) || contains_slice(l, chars_of("unknown").as_slice())
        || contains_slice(l, chars_of("untrusted").as_slice()) || contains_slice(l, chars_of("failed").as_slice())
        || contains_slice(l, chars_of("verify").as_slice()) || contains_slice(l, chars_of("self signed").as_slice())
}

/// Whether a failed request stops the test: certificates are checked and the error is
/// (or reads like) a certificate problem.
pub open spec fn spec_cert_abort(err: Seq<char>, cert_related: bool, allow_insecure_certs: bool) -> bool {
    !allow_insecure_certs && (cert_related || spec_looks_like_cert_error(err))
}

/// Stops the test for a certificate error; `true` only for the call that raised the
/// stop flag.
pub fn maybe_abort_for_cert_error(
    err: &str,
    cert_related: bool,
    allow_insecure_certs: bool,
    stop_flag: &mut bool,
) -> (r: bool)
    ensures
        spec_cert_abort(err@, cert_related, allow_insecure_certs) ==> *final(stop_flag) && r == !*old(stop_flag),
        !spec_cert_abort(err@, cert_related, allow_insecure_certs) ==> *final(stop_flag) == *old(stop_flag) && !r,
{
    if allow_insecure_certs || !(cert_related || looks_like_cert_error(err)) {
        return false;
    }
    let was = *stop_flag;
    *stop_flag = true;
    !was
}

/// How one request ended.
#[derive(Clone, Debug)]
pub enum RequestOutcome {
    /// A response was read: the body bytes counted and the status code.
    Response { bytes: u64, status: u16 },
    /// No response: why (a timeout is `请求超时`), and whether it is a certificate error.
    Failure { reason: String, cert_related: bool },
}

/// Whether a status code is a success (2xx).
pub open spec fn spec_status_success(status: u16) -> bool {
    200 <= status && status <= 299
}

/// Whether a status code is a success (2xx), as `http::StatusCode::is_success` decides.
pub fn status_success(status: u16) -> (r: bool)
    ensures
        r == spec_status_success(status),
{
    200 <= status && status <= 299
}

/// A worker flushes its latency samples once it holds this many.
pub const LATENCY_FLUSH_BATCH: usize = 256usize;

/// The samples a worker still holds (none when it keeps no samples).
pub open spec fn pending_samples(buf: Option<Vec<u64>>) -> Seq<u64> {
    match buf {
        Some(b) => b@,
        None => Seq::empty(),
    }
}

/// The log line for a failed request: a certificate error that stops the test says so,
/// any other failure logs its reason.
pub open spec fn failure_log(reason: Seq<char>, cert_related: bool, allow_insecure_certs: bool) -> Seq<char> {
    if cert_related && !allow_insecure_certs {
        "TLS 证书校验失败："@ + reason + "；未开启\"允许不安全证书\"，压测已停止"@
    } else {
        reason
    }
}

/// The note logged when a certificate error stops the test.
pub open spec fn abort_note() -> Seq<char> {
    "TLS certificate verification failed; stopping load test"@
}

/// Records one request's outcome: its counters (a response succeeds when its status is
/// 2xx; a failure counts no response bytes and no status), its latency sample when samples are kept (flushed to the metrics once
/// `LATENCY_FLUSH_BATCH` are buffered), and, for a failure, the log lines and whether
/// it stops the test. Returns the log lines.
pub fn record_outcome(
    metrics: &mut LoadMetrics,
    latency_buf: &mut Option<Vec<u64>>,
    outcome: &RequestOutcome,
    latency_nanos: u64,
    request_bytes: u64,
    allow_insecure_certs: bool,
    stop_flag: &mut bool,
) -> (logs: Vec<String>)
    requires
        old(metrics).wf(),
    ensures
        final(metrics).wf(),
        (*final(latency_buf) is Some) == (*old(latency_buf) is Some),
        samples_within_max(old(metrics)@, pending_samples(*old(latency_buf))) ==> samples_within_max(
            final(metrics)@,
            pending_samples(*final(latency_buf)),
        ),
        match *outcome {
            RequestOutcome::Response { bytes, status } => {
                &&& logs@.len() == 0
                &&& *final(stop_flag) == *old(stop_flag)
            },
            RequestOutcome::Failure { reason, cert_related } => {
                let msg = failure_log(reason@, cert_related, allow_insecure_certs);
                let stops = spec_cert_abort(msg, cert_related, allow_insecure_certs);
                &&& logs@.len() >= 1
                &&& logs@[0]@ == msg
                &&& stops ==> *final(stop_flag)
                &&& !stops ==> *final(stop_flag) == *old(stop_flag)
                &&& logs@.len() == if stops && !*old(stop_flag) { 2int } else { 1int }
                &&& logs@.len() == 2 ==> logs@[1]@ == abort_note()
            },
        },
        ({
            let stepped = match *outcome {
                RequestOutcome::Response { bytes, status } => record_step(
                    old(metrics)@,
                    latency_nanos,
                    bytes,
                    request_bytes,
                    spec_status_success(status),
                    Some(status),
                ),
                RequestOutcome::Failure { .. } => record_step(old(metrics)@, latency_nanos, 0, request_bytes, false, None),
            };
            match *old(latency_buf) {
                None => final(metrics)@ == stepped,
                Some(b) => {
                    let pushed = b@.push(latency_nanos);
                    if pushed.len() >= LATENCY_FLUSH_BATCH {
                        &&& (*final(latency_buf))->Some_0@.len() == 0
                        &&& final(metrics)@ == (crate::metrics::MetricsView {
                            samples: crate::metrics::keep_last(stepped.samples + pushed, stepped.max_samples),
                            ..stepped
                        })
                    } else {
                        &&& (*final(latency_buf))->Some_0@ == pushed
                        &&& final(metrics)@ == stepped
                    }
                },
            }
        }),
{
    let mut logs: Vec<String> = Vec::new();
    match outcome {
        RequestOutcome::Response { bytes, status } => {
            let ok = status_success(*status);
            metrics.record_counters(latency_nanos, *bytes, request_bytes, ok, Some(*status));
        },
        RequestOutcome::Failure { reason, cert_related } => {
            metrics.record_counters(latency_nanos, 0, request_bytes, false, None);
            let message = if *cert_related && !allow_insecure_certs {
                let head = concat("TLS 证书校验失败：", reason.as_str());
                concat(head.as_str(), "；未开启\"允许不安全证书\"，压测已停止")
            } else {
                reason.clone()
            };
            let aborted = maybe_abort_for_cert_error(message.as_str(), *cert_related, allow_insecure_certs, stop_flag);
            logs.push(message);
            if aborted {
                logs.push("TLS certificate verification failed; stopping load test".to_owned());
            }
        },
    }
    let ghost recorded = metrics@;
    assert(recorded.max_latency_nanos >= old(metrics)@.max_latency_nanos);
    assert(recorded.max_latency_nanos >= latency_nanos);
    assert(recorded.samples == old(metrics)@.samples);
    match latency_buf {
        Some(buf) => {
            let ghost before = buf@;
            buf.push(latency_nanos);
            proof {
                if samples_within_max(old(metrics)@, before) {
                    assert forall|i: int| 0 <= i < buf@.len() implies #[trigger] buf@[i] <= recorded.max_latency_nanos by {
                        if i < before.len() {
                            assert(buf@[i] == before[i]);
                        }
                    }
                    assert(samples_within_max(recorded, buf@));
                }
            }
            if buf.len() >= LATENCY_FLUSH_BATCH {
                metrics.flush_latency_samples(buf);
            }
        },
        None => {},
    }
    logs
}

/// The value each (lower-case) header name ends up with: that of its last pair.
pub open spec fn header_values(pairs: Seq<(Seq<char>, Seq<char>)>) -> Map<Seq<char>, Seq<char>>
    decreases pairs.len(),
{
    if pairs.len() == 0 {
        Map::empty()
    } else {
        header_values(pairs.drop_last()).insert(lower(pairs.last().0), pairs.last().1)
    }
}

/// The headers a request carries name each header once, and a repeated name keeps the
/// value of its last pair.
pub proof fn lemma_header_last_wins(pairs: Seq<(Seq<char>, Seq<char>)>)
    ensures
        keys_unique(header_map(pairs)),
        assoc_map(header_map(pairs)) == header_values(pairs),
    decreases pairs.len(),
{
    if pairs.len() == 0 {
        assert(assoc_map(header_map(pairs)) =~= header_values(pairs));
    } else {
        let h = header_map(pairs.drop_last());
        lemma_header_last_wins(pairs.drop_last());
        let k = lower(pairs.last().0);
        let v = pairs.last().1;
        lemma_key_index(h, k);
        let i = key_index(h, k);
        if i >= 0 {
            lemma_find_update(h, i, v);
            assert(h.update(i, (h[i].0, v)) == put_header(h, k, v));
        } else {
            lemma_find_absent(h, k);
            lemma_find_push(h, k, v);
        }
    }
}

/// The request count that completes a run is the smaller of the limits set: with a
/// total limit `t` and `i` iterations per worker it is at most `t` and at most the
/// iterations of all workers (saturating), and is one of the two; with only one limit
/// set it is that one; with none there is none.
pub proof fn lemma_progress_limit_is_smaller(t: u64, i: u64, concurrency: usize)
    ensures
        ({
            let workers: int = if concurrency == 0 { 1 } else { concurrency as int };
            let all: int = if i * workers > u64::MAX { u64::MAX as int } else { i * workers };
            let both = spec_progress_limit(Some(t), Some(i), concurrency);
            &&& both is Some
            &&& both->Some_0 <= t
            &&& both->Some_0 <= all
            &&& (both->Some_0 == t || both->Some_0 == all)
            &&& spec_progress_limit(Some(t), None, concurrency) == Some(t)
            &&& spec_progress_limit(None, Some(i), concurrency) is Some
            &&& spec_progress_limit(None, Some(i), concurrency)->Some_0 == all
            &&& spec_progress_limit(None, None, concurrency) is None
        }),
{
    let workers: int = if concurrency == 0 { 1 } else { concurrency as int };
    assert(i * workers >= 0) by (nonlinear_arith)
        requires
            workers >= 1,
    ;
}

/// Certificate errors are recognised by their words: any error that, in ASCII lower
/// case, speaks of a certificate ("certificate" or "cert ") and of it being invalid,
/// unknown, untrusted, failed, unverified ("verify") or self signed is one, and no error
/// without such a subject is.
pub proof fn lemma_cert_error_words(err: Seq<char>)
    ensures
        ({
            let l = err.map_values(|c: char| ascii_lower(c));
            let subject = contains_seq(l, "certificate"@) || contains_seq(l, "cert "@);
            &&& !subject ==> !spec_looks_like_cert_error(err)
            &&& subject && contains_seq(l, "self signed"@) ==> spec_looks_like_cert_error(err)
            &&& subject && contains_seq(l, "invalid"@) ==> spec_looks_like_cert_error(err)
            &&& subject && contains_seq(l, "unknown"@) ==> spec_looks_like_cert_error(err)
            &&& subject && contains_seq(l, "untrusted"@) ==> spec_looks_like_cert_error(err)
            &&& subject && contains_seq(l, "failed"@) ==> spec_looks_like_cert_error(err)
            &&& subject && contains_seq(l, "verify"@) ==> spec_looks_like_cert_error(err)
        }),
{
    assert(lower_text(err) == err.map_values(|c: char| ascii_lower(c)));
}

} // verus!
