//! Verified core of a network lab: load-test metrics and scheduling, SOCKS5 and
//! HTTP-proxy wire logic, traffic statistics and the decisions of the terminal UI.
use vstd::prelude::*;

pub mod conn;
pub mod text;
pub mod binary64;
pub mod metrics;
pub mod wire;
pub mod assoc;
pub mod ranking;
pub mod socks5;
pub mod stats;
pub mod proxy;
pub mod protocol;
pub mod scheduler;
pub mod load_test;
pub mod net_debug;
pub mod tui;
pub mod desktop;

verus! {

} // verus!
