//! The network debugger: session settings, the addresses it binds and targets, and the
//! order in which automatic sending hands out payloads.
use vstd::prelude::*;
use crate::text::{format_host_port, spec_host_port, decimal, push_decimal};

verus! {

/// Transport of a debug session.
#[derive(Clone, Copy, Debug, PartialEq, Eq, Structural)]
pub enum Protocol {
    Tcp,
    Udp,
}

/// Whether the session connects or listens.
#[derive(Clone, Copy, Debug, PartialEq, Eq, Structural)]
pub enum Role {
    Client,
    Server,
}

/// Address family of a debug session.
#[derive(Clone, Copy, Debug, PartialEq, Eq, Structural)]
pub enum IpVersion {
    Ipv4,
    Ipv6,
}

/// Payloads to send automatically, and how.
#[derive(Clone, Debug)]
pub struct SendPlan {
    pub payloads: Vec<Vec<u8>>,
    /// Pause between batches, in milliseconds.
    pub interval_ms: u64,
    pub batch_size: usize,
    pub repeat: bool,
    /// Send continuously, one payload at a time, without pauses.
    pub max_speed: bool,
}

/// Settings of a debug session.
#[derive(Clone, Debug)]
pub struct DebugConfig {
    pub protocol: Protocol,
    pub role: Role,
    pub ip_version: IpVersion,
    /// Local host to bind.
    pub host: String,
    pub local_port: u16,
    pub remote_host: String,
    pub remote_port: u16,
    pub buffer_size: usize,
    pub send_plan: Option<SendPlan>,
}

/// What a debug session tells its owner.
#[derive(Clone, Debug)]
pub enum DebugEvent {
    Status(String),
    Sent(String),
    Received { content: String, source: Option<String> },
}

/// The address a UDP socket binds: the configured host and port for a server; the
/// wildcard address of the family for a client, on its local port (0 picks one).
pub open spec fn spec_udp_bind_addr(role: Role, host: Seq<char>, local_port: u16, ip: IpVersion) -> Seq<char> {
    match role {
        Role::Server => spec_host_port(host, local_port),
        Role::Client => match ip {
            IpVersion::Ipv6 => "[::]:"@ + decimal(local_port as nat),
            IpVersion::Ipv4 => "0.0.0.0:"@ + decimal(local_port as nat),
        },
    }
}

impl DebugConfig {
    /// The buffer size used for reads: at least one byte.
    pub fn read_buffer_size(&self) -> (r: usize)
        ensures
            r == if self.buffer_size == 0 { 1 } else { self.buffer_size },
    {
        if self.buffer_size == 0 {
            1
        } else {
            self.buffer_size
        }
    }

    /// The address a TCP client connects to.
    pub fn remote_addr(&self) -> (r: String)
        ensures
            r@ == spec_host_port(self.remote_host@, self.remote_port),
    {
        format_host_port(self.remote_host.as_str(), self.remote_port)
    }

    /// The address a TCP server listens on.
    pub fn local_addr(&self) -> (r: String)
        ensures
            r@ == spec_host_port(self.host@, self.local_port),
    {
        format_host_port(self.host.as_str(), self.local_port)
    }

    /// The address a UDP socket binds.
    pub fn udp_bind_addr(&self) -> (r: String)
        ensures
            r@ == spec_udp_bind_addr(self.role, self.host@, self.local_port, self.ip_version),
    {
        match self.role {
            Role::Server => format_host_port(self.host.as_str(), self.local_port),
            Role::Client => {
                let mut out = match self.ip_version {
                    IpVersion::Ipv6 => "[::]:".to_owned(),
                    IpVersion::Ipv4 => "0.0.0.0:".to_owned(),
                };
                push_decimal(&mut out, self.local_port as u64);
                out
            },
        }
    }

    /// The text of the address a UDP client sends to by default (to be parsed as a
    /// socket address); nothing for other sessions.
    pub fn default_target_text(&self) -> (r: Option<String>)
        ensures
            (self.protocol == Protocol::Udp && self.role == Role::Client) ==> r is Some && r->Some_0@
                == spec_host_port(self.remote_host@, self.remote_port),
            !(self.protocol == Protocol::Udp && self.role == Role::Client) ==> r is None,
    {
        match (self.protocol, self.role) {
            (Protocol::Udp, Role::Client) => Some(format_host_port(self.remote_host.as_str(), self.remote_port)),
            _ => None,
        }
    }
}

/// One move of automatic sending.
#[derive(Clone, Copy, Debug, PartialEq, Eq, Structural)]
pub enum SendStep {
    /// Send the payload at this index.
    Send(usize),
    /// Pause this many milliseconds before the next batch.
    Pause(u64),
    /// Sending is over.
    Finish,
}

/// Where automatic sending stands: the next payload, the place in the batch, and
/// whether it is over.
pub struct SendCursor {
    index: usize,
    count: usize,
    batch_size: usize,
    repeat: bool,
    pause_ms: Option<u64>,
    in_batch: usize,
    finished: bool,
    sent: Ghost<nat>,
}

/// The abstract state of a [`SendCursor`].
pub struct SendCursorView {
    pub index: nat,
    /// Number of payloads.
    pub count: nat,
    pub batch_size: nat,
    pub repeat: bool,
    /// The pause between batches; none at maximum speed.
    pub pause_ms: Option<u64>,
    /// Payloads sent in the current batch.
    pub in_batch: nat,
    pub finished: bool,
    /// Payloads sent so far.
    pub sent: nat,
}

impl View for SendCursor {
    type V = SendCursorView;

    closed spec fn view(&self) -> SendCursorView {
        SendCursorView {
            index: self.index as nat,
            count: self.count as nat,
            batch_size: self.batch_size as nat,
            repeat: self.repeat,
            pause_ms: self.pause_ms,
            in_batch: self.in_batch as nat,
            finished: self.finished,
            sent: self.sent@,
        }
    }
}

/// A fresh cursor over `count` payloads: at maximum speed batches hold one payload,
/// repeat and never pause; otherwise a batch holds `batch_size` payloads (at least one),
/// and batches repeat after a pause when asked to.
pub open spec fn initial_cursor(count: nat, interval_ms: u64, batch_size: usize, repeat: bool, max_speed: bool) -> SendCursorView {
    SendCursorView {
        index: 0,
        count,
        batch_size: if max_speed { 1 } else if batch_size == 0 { 1 } else { batch_size as nat },
        repeat: repeat || max_speed,
        pause_ms: if max_speed { None } else { Some(interval_ms) },
        in_batch: 0,
        finished: false,
        sent: 0,
    }
}

/// The fresh cursor over a send plan.
pub open spec fn plan_cursor(plan: SendPlan) -> SendCursorView {
    initial_cursor(plan.payloads@.len(), plan.interval_ms, plan.batch_size, plan.repeat, plan.max_speed)
}

impl SendCursor {
    /// Payloads go round in order: the next one is the count sent so far modulo their
    /// number, and a batch never runs over its size.
    pub open spec fn wf(&self) -> bool {
        &&& self@.count > 0
        &&& self@.batch_size > 0
        &&& self@.index == self@.sent % self@.count
        &&& self@.in_batch <= self@.batch_size
    }

    /// The cursor of a plan with `count` payloads; none when there are no payloads. At
    /// maximum speed batches hold one payload, repeat and never pause; otherwise a batch
    /// holds `batch_size` payloads (at least one), and batches repeat after a pause when
    /// asked to.
    pub fn new(count: usize, interval_ms: u64, batch_size: usize, repeat: bool, max_speed: bool) -> (r: Option<
        Self,
    >)
        ensures
            count == 0 ==> r is None,
            count > 0 ==> r is Some && r->Some_0.wf() && r->Some_0@ == initial_cursor(
                count as nat,
                interval_ms,
                batch_size,
                repeat,
                max_speed,
            ),
    {
        if count == 0 {
            return None;
        }
        let r = SendCursor {
            index: 0,
            count,
            batch_size: if max_speed { 1 } else if batch_size == 0 { 1 } else { batch_size },
            repeat: repeat || max_speed,
            pause_ms: if max_speed { None } else { Some(interval_ms) },
            in_batch: 0,
            finished: false,
            sent: Ghost(0),
        };
        assert(0nat % (count as nat) == 0) by (nonlinear_arith) requires count > 0;
        Some(r)
    }

    /// The cursor of a send plan; none when the plan has no payloads.
    pub fn for_plan(plan: &SendPlan) -> (r: Option<Self>)
        ensures
            plan.payloads@.len() == 0 ==> r is None,
            plan.payloads@.len() > 0 ==> r is Some && r->Some_0.wf() && r->Some_0@ == plan_cursor(*plan),
    {
        Self::new(plan.payloads.len(), plan.interval_ms, plan.batch_size, plan.repeat, plan.max_speed)
    }

    /// The next move: send the next payload while the batch has room; at the end of a
    /// batch finish unless repeating, else pause (or, at maximum speed, go straight on
    /// with the next batch).
    pub fn next_step(&mut self) -> (r: SendStep)
        requires
            old(self).wf(),
        ensures
            final(self).wf(),
            final(self)@.count == old(self)@.count,
            final(self)@.batch_size == old(self)@.batch_size,
            final(self)@.repeat == old(self)@.repeat,
            final(self)@.pause_ms == old(self)@.pause_ms,
            old(self)@.finished ==> r == SendStep::Finish && final(self)@ == old(self)@,
            !old(self)@.finished && old(self)@.in_batch < old(self)@.batch_size ==> {
                &&& r == SendStep::Send(old(self)@.index as usize)
                &&& final(self)@.sent == old(self)@.sent + 1
                &&& final(self)@.in_batch == old(self)@.in_batch + 1
                &&& !final(self)@.finished
            },
            !old(self)@.finished && old(self)@.in_batch == old(self)@.batch_size && !old(self)@.repeat ==> r
                == SendStep::Finish && final(self)@ == (SendCursorView { finished: true, ..old(self)@ }),
            !old(self)@.finished && old(self)@.in_batch == old(self)@.batch_size && old(self)@.repeat ==> match old(
                self,
            )@.pause_ms {
                Some(ms) => r == SendStep::Pause(ms) && final(self)@ == (SendCursorView { in_batch: 0, ..old(self)@ }),
                None => {
                    &&& r == SendStep::Send(old(self)@.index as usize)
                    &&& final(self)@.sent == old(self)@.sent + 1
                    &&& final(self)@.in_batch == 1
                    &&& !final(self)@.finished
                },
            },
    {
        if self.finished {
            return SendStep::Finish;
        }
        if self.in_batch == self.batch_size {
            if !self.repeat {
                self.finished = true;
                return SendStep::Finish;
            }
            self.in_batch = 0;
            match self.pause_ms {
                Some(ms) => {
                    return SendStep::Pause(ms);
                },
                None => {},
            }
        }
        let payload = self.index;
        let ghost old_sent = self.sent@;
        self.index = if self.index + 1 == self.count { 0 } else { self.index + 1 };
        self.in_batch = self.in_batch + 1;
        self.sent = Ghost(old_sent + 1);
        proof {
            let c = self.count as nat;
            assert(c > 0);
            assert((old_sent + 1) % c == if old_sent % c + 1 == c { 0 } else { old_sent % c + 1 }) by (nonlinear_arith)
                requires
                    c > 0,
            {
                vstd::arithmetic::div_mod::lemma_add_mod_noop(old_sent as int, 1, c as int);
                vstd::arithmetic::div_mod::lemma_mod_bound(old_sent as int, c as int);
            }
        }
        SendStep::Send(payload)
    }
}

/// The message when automatic sending is asked for without payloads.
pub open spec fn empty_payload_message() -> Seq<char> {
    "payload is empty"@
}

/// Starts automatic sending of a plan: the cursor over its payloads and the target every
/// payload goes to (the one asked for, else the session's default); an error for a plan
/// without payloads.
pub fn start_auto_send<A: Copy>(plan: &SendPlan, target: Option<A>, default_target: Option<A>) -> (r: Result<
    (SendCursor, Option<A>),
    String,
>)
    ensures
        plan.payloads@.len() == 0 ==> r is Err && r->Err_0@ == empty_payload_message(),
        plan.payloads@.len() > 0 ==> r is Ok && r->Ok_0.0.wf() && r->Ok_0.0@ == plan_cursor(*plan) && r->Ok_0.1
            == match target {
            Some(t) => Some(t),
            None => default_target,
        },
{
    match SendCursor::for_plan(plan) {
        None => Err("payload is empty".to_owned()),
        Some(c) => {
            let t = match target {
                Some(t) => Some(t),
                None => default_target,
            };
            Ok((c, t))
        },
    }
}

/// Where a UDP session sends a datagram.
#[derive(Clone, Copy, Debug)]
pub enum UdpRoute<A> {
    /// To this address.
    SendTo(A),
    /// Nowhere: no address was named and no peer has been heard from.
    NoTarget,
}

/// The peer a UDP session answers: the last address it received from.
pub struct UdpPeer<A> {
    last_sender: Option<A>,
}

impl<A: Copy> UdpPeer<A> {
    /// The last address heard from, if any.
    pub closed spec fn last(&self) -> Option<A> {
        self.last_sender
    }

    /// No peer heard from yet.
    pub fn new() -> (r: Self)
        ensures
            r.last() is None,
    {
        UdpPeer { last_sender: None }
    }

    /// A datagram arrived from `source`, which becomes the peer.
    pub fn on_received(&mut self, source: A)
        ensures
            final(self).last() == Some(source),
    {
        self.last_sender = Some(source);
    }

    /// Where a datagram goes: to the address the request names, else to the last peer
    /// heard from, else nowhere.
    pub fn route(&self, requested: Option<A>) -> (r: UdpRoute<A>)
        ensures
            r == match requested {
                Some(a) => UdpRoute::SendTo(a),
                None => match self.last() {
                    Some(a) => UdpRoute::SendTo(a),
                    None => UdpRoute::NoTarget,
                },
            },
    {
        match requested {
            Some(a) => UdpRoute::SendTo(a),
            None => match self.last_sender {
                Some(a) => UdpRoute::SendTo(a),
                None => UdpRoute::NoTarget,
            },
        }
    }
}

/// The status a UDP session reports when it has nowhere to send.
pub fn no_target_event() -> (r: DebugEvent)
    ensures
        r matches DebugEvent::Status(s) && s@ == "发送失败：无目标地址"@,
{
    DebugEvent::Status("发送失败：无目标地址".to_owned())
}

} // verus!
