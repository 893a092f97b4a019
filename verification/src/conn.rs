use vstd::prelude::*;

verus! {

/// How the load-test client reuses connections.
#[derive(Clone, Copy, Debug, PartialEq, Eq, Structural)]
pub enum ConnectionMode {
    /// Reuse keep-alive connections (default; suited to throughput runs).
    KeepAlive,
    /// Open a fresh connection for every request.
    NewConnection,
}

/// Connection-pool parameters, independent of the client implementation.
#[derive(Clone, Copy, Debug, PartialEq, Eq, Structural)]
pub struct ConnectionPoolConfig {
    pub max_idle_per_host: usize,
    /// Idle timeout of pooled connections, in seconds.
    pub idle_timeout_secs: u64,
    /// Whether each request carries `Connection: close`.
    pub close_header: bool,
}

impl ConnectionMode {
    pub open spec fn spec_name(self) -> Seq<char> {
        match self {
            ConnectionMode::KeepAlive => "keepAlive"@,
            ConnectionMode::NewConnection => "newConnection"@,
        }
    }

    pub fn as_str(self) -> (r: &'static str)
        ensures
            r@ == self.spec_name(),
    {
        match self {
            ConnectionMode::KeepAlive => "keepAlive",
            ConnectionMode::NewConnection => "newConnection",
        }
    }

    pub open spec fn spec_pool_config(self) -> ConnectionPoolConfig {
        match self {
            ConnectionMode::KeepAlive => ConnectionPoolConfig {
                max_idle_per_host: 512,
                idle_timeout_secs: 30,
                close_header: false,
            },
            ConnectionMode::NewConnection => ConnectionPoolConfig {
                max_idle_per_host: 0,
                idle_timeout_secs: 0,
                close_header: true,
            },
        }
    }

    pub fn pool_config(self) -> (r: ConnectionPoolConfig)
        ensures
            r == self.spec_pool_config(),
    {
        match self {
            ConnectionMode::KeepAlive => ConnectionPoolConfig {
                max_idle_per_host: 512,
                idle_timeout_secs: 30,
                close_header: false,
            },
            ConnectionMode::NewConnection => ConnectionPoolConfig {
                max_idle_per_host: 0,
                idle_timeout_secs: 0,
                close_header: true,
            },
        }
    }
}


} // verus!
