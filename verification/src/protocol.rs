//! URL schemes and the HTTP version policy of the load tester.
use vstd::prelude::*;
use crate::text::concat;

verus! {

/// The URL schemes the load tester supports.
#[derive(Clone, Copy, Debug, PartialEq, Eq, Structural)]
pub enum Scheme {
    Http,
    Https,
}

impl Scheme {
    pub open spec fn spec_name(self) -> Seq<char> {
        match self {
            Scheme::Http => "http"@,
            Scheme::Https => "https"@,
        }
    }

    /// The scheme's name, as written in a URL.
    pub fn as_str(self) -> (r: &'static str)
        ensures
            r@ == self.spec_name(),
    {
        match self {
            Scheme::Http => "http",
            Scheme::Https => "https",
        }
    }

    /// The scheme named exactly `value` (lower case), or the message refusing it.
    pub fn parse(value: &str) -> (r: Result<Scheme, String>)
        ensures
            value@ == "http"@ ==> r == Ok::<Scheme, String>(Scheme::Http),
            value@ == "https"@ ==> r == Ok::<Scheme, String>(Scheme::Https),
            value@ != "http"@ && value@ != "https"@ ==> r is Err && r->Err_0@
                == "不支持的 URL scheme: "@ + value@,
    {
        proof {
            reveal_strlit("http");
            reveal_strlit("https");
            assert("http"@.len() != "https"@.len());
        }
        let owned = value.to_owned();
        let http = "http".to_owned();
        let https = "https".to_owned();
        if owned == http {
            Ok(Scheme::Http)
        } else if owned == https {
            Ok(Scheme::Https)
        } else {
            Err(concat("不支持的 URL scheme: ", value))
        }
    }
}

/// Which HTTP versions a client may negotiate.
#[derive(Clone, Copy, Debug, PartialEq, Eq, Structural)]
pub enum HttpVersionPolicy {
    Http1Only,
    Http1OrHttp2,
}

impl HttpVersionPolicy {
    /// Whether HTTP/2 may be negotiated.
    pub fn allows_http2(self) -> (r: bool)
        ensures
            r == (self == HttpVersionPolicy::Http1OrHttp2),
    {
        match self {
            HttpVersionPolicy::Http1Only => false,
            HttpVersionPolicy::Http1OrHttp2 => true,
        }
    }
}

} // verus!
