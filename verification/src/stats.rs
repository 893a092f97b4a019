//! Traffic statistics of the HTTP proxy and the SOCKS5 server: global counters and,
//! per client IP, connection and request counters, bytes, last activity and the
//! targets it reached.
//!
//! Clients are addressed by the id they got when first seen; a client evicted for
//! idleness is no longer updated through its old id.
use vstd::prelude::*;
use crate::assoc::{assoc_map, bump_count, keys_unique, lemma_bump_count, lemma_key_index, key_index};
use crate::ranking::{is_index_perm, rank_desc, sorted_desc_by_key};

verus! {

/// Direction of relayed bytes: from the client (in) or towards it (out).
#[derive(Clone, Copy, Debug, PartialEq, Eq, Structural)]
pub enum Direction {
    In,
    Out,
}

/// How often a client reached one target.
#[derive(Clone, Debug)]
pub struct TargetStat {
    pub target: String,
    pub count: u64,
}

impl View for TargetStat {
    type V = (Seq<char>, u64);

    open spec fn view(&self) -> (Seq<char>, u64) {
        (self.target@, self.count)
    }
}

/// One client's line in a snapshot.
#[derive(Clone, Debug)]
pub struct ClientSnapshot {
    pub ip: String,
    pub active_connections: u64,
    pub total_connections: u64,
    pub total_requests: u64,
    pub bytes_in: u64,
    pub bytes_out: u64,
    pub last_seen_ms: u64,
    pub top_targets: Vec<TargetStat>,
}

/// A periodic report of the server.
#[derive(Clone, Debug)]
pub struct TrafficSnapshot {
    pub uptime_ms: u64,
    pub active_connections: u64,
    pub total_connections: u64,
    pub total_requests: u64,
    pub bytes_in: u64,
    pub bytes_out: u64,
    pub clients: Vec<ClientSnapshot>,
}

/// The abstract state of one client.
pub struct ClientView {
    pub id: u64,
    pub ip: Seq<char>,
    pub active_connections: u64,
    pub total_connections: u64,
    pub total_requests: u64,
    pub bytes_in: u64,
    pub bytes_out: u64,
    pub last_seen_ms: u64,
    /// Targets with their counts, without repeated targets.
    pub targets: Seq<(Seq<char>, u64)>,
}

struct ClientStats {
    id: u64,
    ip: String,
    active_connections: u64,
    total_connections: u64,
    total_requests: u64,
    bytes_in: u64,
    bytes_out: u64,
    last_seen_ms: u64,
    targets: Vec<TargetStat>,
}

/// The views of a list of target counts.
pub open spec fn target_views(v: Seq<TargetStat>) -> Seq<(Seq<char>, u64)> {
    v.map_values(|t: TargetStat| t@)
}

impl View for ClientStats {
    type V = ClientView;

    closed spec fn view(&self) -> ClientView {
        ClientView {
            id: self.id,
            ip: self.ip@,
            active_connections: self.active_connections,
            total_connections: self.total_connections,
            total_requests: self.total_requests,
            bytes_in: self.bytes_in,
            bytes_out: self.bytes_out,
            last_seen_ms: self.last_seen_ms,
            targets: target_views(self.targets@),
        }
    }
}

/// The abstract state of a [`TrafficStats`].
pub struct TrafficView {
    pub active_connections: u64,
    pub total_connections: u64,
    pub total_requests: u64,
    pub bytes_in: u64,
    pub bytes_out: u64,
    /// Known clients, in the order they were first seen.
    pub clients: Seq<ClientView>,
    pub next_id: u64,
    /// Clients idle longer than this are evicted at a snapshot (0 keeps them all).
    pub client_idle_ttl_ms: u64,
}

/// Traffic statistics of one server.
pub struct TrafficStats {
    active_connections: u64,
    total_connections: u64,
    total_requests: u64,
    bytes_in: u64,
    bytes_out: u64,
    clients: Vec<ClientStats>,
    next_id: u64,
    client_idle_ttl_ms: u64,
}

impl View for TrafficStats {
    type V = TrafficView;

    closed spec fn view(&self) -> TrafficView {
        TrafficView {
            active_connections: self.active_connections,
            total_connections: self.total_connections,
            total_requests: self.total_requests,
            bytes_in: self.bytes_in,
            bytes_out: self.bytes_out,
            clients: self.clients@.map_values(|c: ClientStats| c@),
            next_id: self.next_id,
            client_idle_ttl_ms: self.client_idle_ttl_ms,
        }
    }
}

/// Client ids and IPs are distinct, ids are below `next_id`, and no client lists a
/// target twice.
pub open spec fn traffic_wf(v: TrafficView) -> bool {
    &&& forall|i: int, j: int| 0 <= i < j < v.clients.len() ==> v.clients[i].id != v.clients[j].id
    &&& forall|i: int, j: int| 0 <= i < j < v.clients.len() ==> v.clients[i].ip != v.clients[j].ip
    &&& forall|i: int| 0 <= i < v.clients.len() ==> v.clients[i].id < v.next_id
    &&& forall|i: int| 0 <= i < v.clients.len() ==> keys_unique(#[trigger] v.clients[i].targets)
}

/// The client with this id, changed by `f`; the others unchanged.
pub open spec fn update_client(
    clients: Seq<ClientView>,
    id: u64,
    f: spec_fn(ClientView) -> ClientView,
) -> Seq<ClientView> {
    clients.map_values(|c: ClientView| if c.id == id { f(c) } else { c })
}

/// A client first seen at `now_ms`.
pub open spec fn fresh_client(id: u64, ip: Seq<char>, now_ms: u64) -> ClientView {
    ClientView {
        id,
        ip,
        active_connections: 0,
        total_connections: 0,
        total_requests: 0,
        bytes_in: 0,
        bytes_out: 0,
        last_seen_ms: now_ms,
        targets: Seq::empty(),
    }
}

/// Whether a client seen at `last_seen_ms` is still kept at `now_ms`.
pub open spec fn is_fresh(last_seen_ms: u64, now_ms: u64, ttl_ms: u64) -> bool {
    (if now_ms >= last_seen_ms { now_ms - last_seen_ms } else { 0 }) <= ttl_ms
}

/// Whether a client is kept at `now_ms`.
pub open spec fn keeps(now_ms: u64, ttl_ms: u64) -> spec_fn(ClientView) -> bool {
    |c: ClientView| is_fresh(c.last_seen_ms, now_ms, ttl_ms)
}

/// The clients kept at `now_ms`, in their order; a zero TTL keeps them all.
pub open spec fn retained(clients: Seq<ClientView>, now_ms: u64, ttl_ms: u64) -> Seq<ClientView> {
    if ttl_ms > 0 {
        clients.filter(keeps(now_ms, ttl_ms))
    } else {
        clients
    }
}

/// The request counts of a list of clients.
pub open spec fn requests_of(cs: Seq<ClientView>) -> Seq<u64> {
    cs.map_values(|c: ClientView| c.total_requests)
}

/// `r` reports each client of `cs` once, in decreasing order of requests.
pub open spec fn reports_clients(r: Seq<ClientSnapshot>, cs: Seq<ClientView>) -> bool {
    exists|order: Seq<usize>|
        {
            &&& is_index_perm(order, cs.len())
            &&& sorted_desc_by_key(order, requests_of(cs))
            &&& r.len() == cs.len()
            &&& forall|k: int| 0 <= k < r.len() ==> reports_client(#[trigger] r[k], cs[order[k] as int])
        }
}

/// The counts of a list of targets.
pub open spec fn counts_of(ts: Seq<(Seq<char>, u64)>) -> Seq<u64> {
    ts.map_values(|p: (Seq<char>, u64)| p.1)
}

/// `r` is the top of `ts`: at most five targets, taken in decreasing order of count.
pub open spec fn is_top_targets(r: Seq<(Seq<char>, u64)>, ts: Seq<(Seq<char>, u64)>) -> bool {
    exists|order: Seq<usize>|
        {
            &&& is_index_perm(order, ts.len())
            &&& sorted_desc_by_key(order, counts_of(ts))
            &&& r.len() == if ts.len() < 5 { ts.len() } else { 5 }
            &&& forall|k: int| 0 <= k < r.len() ==> r[k] == ts[order[k] as int]
        }
}

/// A snapshot line reports the client's counters and its top targets.
pub open spec fn reports_client(s: ClientSnapshot, c: ClientView) -> bool {
    &&& s.ip@ == c.ip
    &&& s.active_connections == c.active_connections
    &&& s.total_connections == c.total_connections
    &&& s.total_requests == c.total_requests
    &&& s.bytes_in == c.bytes_in
    &&& s.bytes_out == c.bytes_out
    &&& s.last_seen_ms == c.last_seen_ms
    &&& is_top_targets(target_views(s.top_targets@), c.targets)
}

/// A new connection from the client at `now_ms`.
pub open spec fn connect_client(c: ClientView, now_ms: u64) -> ClientView {
    ClientView {
        total_connections: c.total_connections.wrapping_add(1),
        active_connections: c.active_connections.wrapping_add(1),
        last_seen_ms: now_ms,
        ..c
    }
}

/// One of the client's connections closed at `now_ms`.
pub open spec fn disconnect_client(c: ClientView, now_ms: u64) -> ClientView {
    ClientView { active_connections: c.active_connections.wrapping_sub(1), last_seen_ms: now_ms, ..c }
}

/// A request from the client at `now_ms`.
pub open spec fn request_client(c: ClientView, now_ms: u64) -> ClientView {
    ClientView { total_requests: c.total_requests.wrapping_add(1), last_seen_ms: now_ms, ..c }
}

/// `amount > 0` bytes relayed for the client at `now_ms`.
pub open spec fn bytes_client(c: ClientView, direction: Direction, amount: u64, now_ms: u64) -> ClientView {
    match direction {
        Direction::In => ClientView { bytes_in: c.bytes_in.wrapping_add(amount), last_seen_ms: now_ms, ..c },
        Direction::Out => ClientView { bytes_out: c.bytes_out.wrapping_add(amount), last_seen_ms: now_ms, ..c },
    }
}

/// The client reached `target` at `now_ms`.
pub open spec fn target_client(c: ClientView, target: Seq<char>, now_ms: u64) -> ClientView {
    ClientView { targets: bump_count(c.targets, target), last_seen_ms: now_ms, ..c }
}

/// Activity of the client at `now_ms`.
pub open spec fn touch_client(c: ClientView, now_ms: u64) -> ClientView {
    ClientView { last_seen_ms: now_ms, ..c }
}

/// The statistics after a connection from client `id` at `now_ms`.
pub open spec fn after_connect(v: TrafficView, id: u64, now_ms: u64) -> TrafficView {
    TrafficView {
        total_connections: v.total_connections.wrapping_add(1),
        active_connections: v.active_connections.wrapping_add(1),
        clients: update_client(v.clients, id, |c: ClientView| connect_client(c, now_ms)),
        ..v
    }
}

/// The statistics after a connection of client `id` closed at `now_ms`.
pub open spec fn after_disconnect(v: TrafficView, id: u64, now_ms: u64) -> TrafficView {
    TrafficView {
        active_connections: v.active_connections.wrapping_sub(1),
        clients: update_client(v.clients, id, |c: ClientView| disconnect_client(c, now_ms)),
        ..v
    }
}

/// The statistics after a request of client `id` at `now_ms`.
pub open spec fn after_request(v: TrafficView, id: u64, now_ms: u64) -> TrafficView {
    TrafficView {
        total_requests: v.total_requests.wrapping_add(1),
        clients: update_client(v.clients, id, |c: ClientView| request_client(c, now_ms)),
        ..v
    }
}

/// The statistics after client `id` reached `target` at `now_ms`.
pub open spec fn after_target(v: TrafficView, id: u64, target: Seq<char>, now_ms: u64) -> TrafficView {
    TrafficView { clients: update_client(v.clients, id, |c: ClientView| target_client(c, target, now_ms)), ..v }
}

/// Whether a client at `ip` is known.
pub open spec fn knows_ip(v: TrafficView, ip: Seq<char>) -> bool {
    exists|i: int| 0 <= i < v.clients.len() && v.clients[i].ip == ip
}

/// `(w, r)` is what asking for the client at `ip` at `now_ms` makes of `v`: a known
/// client's id with nothing changed; a new client registered with the next id; or,
/// when the ids are used up, nothing.
pub open spec fn registered(v: TrafficView, w: TrafficView, r: Option<u64>, ip: Seq<char>, now_ms: u64) -> bool {
    if knows_ip(v, ip) {
        w == v && exists|i: int| 0 <= i < v.clients.len() && v.clients[i].ip == ip && r == Some(v.clients[i].id)
    } else if v.next_id == u64::MAX {
        r is None && w == v
    } else {
        r == Some(v.next_id) && w == (TrafficView {
            clients: v.clients.push(fresh_client(v.next_id, ip, now_ms)),
            next_id: (v.next_id + 1) as u64,
            ..v
        })
    }
}

/// Counts one more occurrence of `name` in a list of target counts.
fn bump_target(targets: &mut Vec<TargetStat>, name: String)
    requires
        keys_unique(target_views(old(targets)@)),
    ensures
        target_views(final(targets)@) == bump_count(target_views(old(targets)@), name@),
        keys_unique(target_views(final(targets)@)),
{
    proof {
        lemma_bump_count(target_views(targets@), name@);
        lemma_key_index(target_views(targets@), name@);
    }
    let mut j: usize = 0;
    while j < targets.len()
        invariant
            j <= targets@.len(),
            targets@ == old(targets)@,
            keys_unique(target_views(old(targets)@)),
            forall|q: int| 0 <= q < j ==> targets@[q].target@ != name@,
        decreases targets.len() - j,
    {
        if targets[j].target == name {
            let ghost tv = target_views(targets@);
            assert(tv[j as int].0 == name@);
            proof {
                lemma_key_index(tv, name@);
                lemma_bump_count(tv, name@);
            }
            assert(key_index(tv, name@) == j);
            let c = targets[j].count.wrapping_add(1);
            targets[j].count = c;
            proof {
                assert(target_views(targets@) =~= tv.update(j as int, (name@, c)));
            }
            return;
        }
        j = j + 1;
    }
    proof {
        assert forall|q: int| 0 <= q < targets@.len() implies target_views(targets@)[q].0 != name@ by {
        }
    }
    targets.push(TargetStat { target: name, count: 1 });
    proof {
        assert(target_views(targets@) =~= bump_count(target_views(old(targets)@), name@));
    }
}

/// A snapshot line for one client: its counters and its top five targets.
fn client_snapshot(c: &ClientStats) -> (r: ClientSnapshot)
    requires
        keys_unique(c@.targets),
    ensures
        reports_client(r, c@),
{
    let mut keys: Vec<u64> = Vec::new();
    let mut j: usize = 0;
    while j < c.targets.len()
        invariant
            j <= c.targets@.len(),
            keys@ == counts_of(c@.targets).take(j as int),
        decreases c.targets.len() - j,
    {
        keys.push(c.targets[j].count);
        proof {
            assert(counts_of(c@.targets).take(j + 1) =~= counts_of(c@.targets).take(j as int).push(
                c.targets@[j as int].count,
            ));
        }
        j = j + 1;
    }
    proof {
        assert(counts_of(c@.targets).take(c.targets@.len() as int) =~= counts_of(c@.targets));
    }
    let order = rank_desc(&keys);
    let n = c.targets.len();
    let m: usize = if n < 5 { n } else { 5 };
    let mut top: Vec<TargetStat> = Vec::new();
    let mut k: usize = 0;
    while k < m
        invariant
            k <= m,
            m <= n,
            n == c.targets@.len(),
            keys@ == counts_of(c@.targets),
            is_index_perm(order@, n as nat),
            top@.len() == k,
            forall|q: int| 0 <= q < k ==> top@[q]@ == c@.targets[order@[q] as int],
        decreases m - k,
    {
        let idx = order[k];
        let name = c.targets[idx].target.clone();
        top.push(TargetStat { target: name, count: c.targets[idx].count });
        k = k + 1;
    }
    let r = ClientSnapshot {
        ip: c.ip.clone(),
        active_connections: c.active_connections,
        total_connections: c.total_connections,
        total_requests: c.total_requests,
        bytes_in: c.bytes_in,
        bytes_out: c.bytes_out,
        last_seen_ms: c.last_seen_ms,
        top_targets: top,
    };
    proof {
        let tv = target_views(r.top_targets@);
        assert forall|q: int| 0 <= q < tv.len() implies tv[q] == c@.targets[order@[q] as int] by {
            assert(tv[q] == r.top_targets@[q]@);
        }
        assert(is_top_targets(tv, c@.targets));
    }
    r
}

impl TrafficStats {
    pub open spec fn wf(&self) -> bool {
        traffic_wf(self@)
    }

    /// Empty statistics; clients idle longer than `client_idle_ttl_ms` will be evicted.
    pub fn new(client_idle_ttl_ms: u64) -> (r: Self)
        ensures
            r.wf(),
            r@ == (TrafficView {
                active_connections: 0,
                total_connections: 0,
                total_requests: 0,
                bytes_in: 0,
                bytes_out: 0,
                clients: Seq::empty(),
                next_id: 0,
                client_idle_ttl_ms,
            }),
    {
        let r = TrafficStats {
            active_connections: 0,
            total_connections: 0,
            total_requests: 0,
            bytes_in: 0,
            bytes_out: 0,
            clients: Vec::new(),
            next_id: 0,
            client_idle_ttl_ms,
        };
        assert(r@.clients =~= Seq::<ClientView>::empty());
        r
    }

    fn index_of_id(&self, id: u64) -> (r: Option<usize>)
        requires
            self.wf(),
        ensures
            r matches Some(i) ==> i < self@.clients.len() && self@.clients[i as int].id == id,
            r is None ==> forall|i: int| 0 <= i < self@.clients.len() ==> self@.clients[i].id != id,
    {
        let mut i: usize = 0;
        while i < self.clients.len()
            invariant
                i <= self.clients@.len(),
                forall|j: int| 0 <= j < i ==> self@.clients[j].id != id,
            decreases self.clients.len() - i,
        {
            assert(self@.clients[i as int] == self.clients@[i as int]@);
            if self.clients[i].id == id {
                return Some(i);
            }
            i = i + 1;
        }
        None
    }

    /// The id of the client at `ip`, registering it (seen at `now_ms`) when new; `None`
    /// only when the IP is new and every id has been handed out.
    pub fn get_or_create_client(&mut self, ip: &str, now_ms: u64) -> (r: Option<u64>)
        requires
            old(self).wf(),
        ensures
            final(self).wf(),
            registered(old(self)@, final(self)@, r, ip@, now_ms),
    {
        let key = ip.to_owned();
        let mut i: usize = 0;
        while i < self.clients.len()
            invariant
                i <= self.clients@.len(),
                key@ == ip@,
                self@ == old(self)@,
                self.wf(),
                forall|j: int| 0 <= j < i ==> self@.clients[j].ip != ip@,
            decreases self.clients.len() - i,
        {
            assert(self@.clients[i as int] == self.clients@[i as int]@);
            if self.clients[i].ip == key {
                return Some(self.clients[i].id);
            }
            i = i + 1;
        }
        if self.next_id == u64::MAX {
            return None;
        }
        let id = self.next_id;
        let client = ClientStats {
            id,
            ip: key,
            active_connections: 0,
            total_connections: 0,
            total_requests: 0,
            bytes_in: 0,
            bytes_out: 0,
            last_seen_ms: now_ms,
            targets: Vec::new(),
        };
        self.clients.push(client);
        self.next_id = self.next_id + 1;
        proof {
            assert(client@.targets =~= Seq::<(Seq<char>, u64)>::empty());
            assert(self@.clients =~= old(self)@.clients.push(fresh_client(id, ip@, now_ms)));
        }
        Some(id)
    }

    /// A new connection from client `id` at `now_ms` (global and client counters).
    pub fn on_connect(&mut self, id: u64, now_ms: u64)
        requires
            old(self).wf(),
        ensures
            final(self).wf(),
            final(self)@ == after_connect(old(self)@, id, now_ms),
    {
        let found = self.index_of_id(id);
        self.total_connections = self.total_connections.wrapping_add(1);
        self.active_connections = self.active_connections.wrapping_add(1);
        match found {
            Some(i) => {
                self.clients[i].total_connections = self.clients[i].total_connections.wrapping_add(1);
                self.clients[i].active_connections = self.clients[i].active_connections.wrapping_add(1);
                self.clients[i].last_seen_ms = now_ms;
            },
            None => {},
        }
        proof {
            assert(self@.clients =~= update_client(
                old(self)@.clients,
                id,
                |c: ClientView| connect_client(c, now_ms),
            ));
        }
    }

    /// A connection of client `id` closed at `now_ms`.
    pub fn on_disconnect(&mut self, id: u64, now_ms: u64)
        requires
            old(self).wf(),
        ensures
            final(self).wf(),
            final(self)@ == after_disconnect(old(self)@, id, now_ms),
    {
        let found = self.index_of_id(id);
        self.active_connections = self.active_connections.wrapping_sub(1);
        match found {
            Some(i) => {
                self.clients[i].active_connections = self.clients[i].active_connections.wrapping_sub(1);
                self.clients[i].last_seen_ms = now_ms;
            },
            None => {},
        }
        proof {
            assert(self@.clients =~= update_client(
                old(self)@.clients,
                id,
                |c: ClientView| disconnect_client(c, now_ms),
            ));
        }
    }

    /// A request of client `id` at `now_ms`.
    pub fn on_request(&mut self, id: u64, now_ms: u64)
        requires
            old(self).wf(),
        ensures
            final(self).wf(),
            final(self)@ == after_request(old(self)@, id, now_ms),
    {
        let found = self.index_of_id(id);
        self.total_requests = self.total_requests.wrapping_add(1);
        match found {
            Some(i) => {
                self.clients[i].total_requests = self.clients[i].total_requests.wrapping_add(1);
                self.clients[i].last_seen_ms = now_ms;
            },
            None => {},
        }
        proof {
            assert(self@.clients =~= update_client(
                old(self)@.clients,
                id,
                |c: ClientView| request_client(c, now_ms),
            ));
        }
    }

    /// `amount` bytes relayed for client `id` at `now_ms`; nothing happens for zero bytes.
    pub fn add_bytes(&mut self, direction: Direction, amount: u64, id: u64, now_ms: u64)
        requires
            old(self).wf(),
        ensures
            final(self).wf(),
            amount == 0 ==> final(self)@ == old(self)@,
            amount > 0 ==> final(self)@ == (TrafficView {
                bytes_in: if direction == Direction::In {
                    old(self)@.bytes_in.wrapping_add(amount)
                } else {
                    old(self)@.bytes_in
                },
                bytes_out: if direction == Direction::Out {
                    old(self)@.bytes_out.wrapping_add(amount)
                } else {
                    old(self)@.bytes_out
                },
                clients: update_client(
                    old(self)@.clients,
                    id,
                    |c: ClientView| bytes_client(c, direction, amount, now_ms),
                ),
                ..old(self)@
            }),
    {
        if amount == 0 {
            return;
        }
        let found = self.index_of_id(id);
        match direction {
            Direction::In => {
                self.bytes_in = self.bytes_in.wrapping_add(amount);
            },
            Direction::Out => {
                self.bytes_out = self.bytes_out.wrapping_add(amount);
            },
        }
        match found {
            Some(i) => {
                match direction {
                    Direction::In => {
                        self.clients[i].bytes_in = self.clients[i].bytes_in.wrapping_add(amount);
                    },
                    Direction::Out => {
                        self.clients[i].bytes_out = self.clients[i].bytes_out.wrapping_add(amount);
                    },
                }
                self.clients[i].last_seen_ms = now_ms;
            },
            None => {},
        }
        proof {
            assert(self@.clients =~= update_client(
                old(self)@.clients,
                id,
                |c: ClientView| bytes_client(c, direction, amount, now_ms),
            ));
        }
    }

    /// Client `id` reached `target` at `now_ms`.
    pub fn record_target(&mut self, id: u64, target: &str, now_ms: u64)
        requires
            old(self).wf(),
        ensures
            final(self).wf(),
            final(self)@ == after_target(old(self)@, id, target@, now_ms),
    {
        match self.index_of_id(id) {
            Some(i) => {
                assert(self@.clients[i as int] == self.clients@[i as int]@);
                assert(keys_unique(self@.clients[i as int].targets));
                bump_target(&mut self.clients[i].targets, target.to_owned());
                self.clients[i].last_seen_ms = now_ms;
            },
            None => {},
        }
        proof {
            assert(self@.clients =~= update_client(
                old(self)@.clients,
                id,
                |c: ClientView| target_client(c, target@, now_ms),
            ));
        }
    }

    /// Activity of client `id` at `now_ms`.
    pub fn touch(&mut self, id: u64, now_ms: u64)
        requires
            old(self).wf(),
        ensures
            final(self).wf(),
            final(self)@ == (TrafficView {
                clients: update_client(old(self)@.clients, id, |c: ClientView| touch_client(c, now_ms)),
                ..old(self)@
            }),
    {
        match self.index_of_id(id) {
            Some(i) => {
                self.clients[i].last_seen_ms = now_ms;
            },
            None => {},
        }
        proof {
            assert(self@.clients =~= update_client(
                old(self)@.clients,
                id,
                |c: ClientView| touch_client(c, now_ms),
            ));
        }
    }

    /// Drops the clients idle for longer than the TTL at `now_ms` (none when the TTL is 0).
    fn evict_idle(&mut self, now_ms: u64)
        requires
            old(self).wf(),
        ensures
            final(self).wf(),
            final(self)@ == (TrafficView {
                clients: retained(old(self)@.clients, now_ms, old(self)@.client_idle_ttl_ms),
                ..old(self)@
            }),
    {
        let ttl = self.client_idle_ttl_ms;
        if ttl == 0 {
            return;
        }
        let ghost s0 = self@.clients;
        let ghost pred = keeps(now_ms, ttl);
        let ghost mut p: int = 0;
        let mut i: usize = 0;
        while i < self.clients.len()
            invariant
                0 <= p <= s0.len(),
                ttl == old(self)@.client_idle_ttl_ms,
                ttl > 0,
                s0 == old(self)@.clients,
                pred == keeps(now_ms, ttl),
                self@.clients == s0.take(p).filter(pred) + s0.skip(p),
                i == s0.take(p).filter(pred).len(),
                self.wf(),
                self@ == (TrafficView { clients: self@.clients, ..old(self)@ }),
            decreases self.clients.len() - i,
        {
            let ghost before = self@.clients;
            assert(before[i as int] == s0[p]);
            assert(self@.clients[i as int] == self.clients@[i as int]@);
            let last = self.clients[i].last_seen_ms;
            let age: u64 = if now_ms >= last { now_ms - last } else { 0 };
            proof {
                reveal(Seq::filter);
                assert(s0.take(p + 1).drop_last() =~= s0.take(p));
                assert(s0.skip(p) =~= seq![s0[p]] + s0.skip(p + 1));
            }
            if age <= ttl {
                proof {
                    assert(pred(s0[p]));
                    assert(s0.take(p + 1).filter(pred) == s0.take(p).filter(pred).push(s0[p]));
                    assert(self@.clients =~= s0.take(p + 1).filter(pred) + s0.skip(p + 1));
                }
                i = i + 1;
            } else {
                let ghost vold = self.clients@;
                let _gone = self.clients.remove(i);
                proof {
                    assert(!pred(s0[p]));
                    assert(s0.take(p + 1).filter(pred) == s0.take(p).filter(pred));
                    assert(self.clients@ == vold.remove(i as int));
                    assert(self@.clients =~= before.remove(i as int));
                    assert(self@.clients =~= s0.take(p + 1).filter(pred) + s0.skip(p + 1));
                    let v = self@;
                    assert forall|a: int, b: int| 0 <= a < b < v.clients.len() implies v.clients[a].id
                        != v.clients[b].id && v.clients[a].ip != v.clients[b].ip by {
                        let a0 = if a < i { a } else { a + 1 };
                        let b0 = if b < i { b } else { b + 1 };
                        assert(v.clients[a] == before[a0]);
                        assert(v.clients[b] == before[b0]);
                    }
                    assert forall|a: int| 0 <= a < v.clients.len() implies v.clients[a].id < v.next_id
                        && keys_unique(#[trigger] v.clients[a].targets) by {
                        let a0 = if a < i { a } else { a + 1 };
                        assert(v.clients[a] == before[a0]);
                    }
                }
            }
            proof {
                p = p + 1;
            }
        }
        proof {
            assert(s0.skip(p).len() == 0);
            assert(s0.take(p) =~= s0);
            assert(self@.clients =~= s0.filter(pred));
        }
    }

    /// A report of the statistics at `now_ms`, `uptime_ms` after the start: idle clients
    /// are evicted first, and the others are listed by decreasing request count.
    pub fn snapshot(&mut self, now_ms: u64, uptime_ms: u64) -> (r: TrafficSnapshot)
        requires
            old(self).wf(),
        ensures
            final(self).wf(),
            final(self)@ == (TrafficView {
                clients: retained(old(self)@.clients, now_ms, old(self)@.client_idle_ttl_ms),
                ..old(self)@
            }),
            r.uptime_ms == uptime_ms,
            r.active_connections == old(self)@.active_connections,
            r.total_connections == old(self)@.total_connections,
            r.total_requests == old(self)@.total_requests,
            r.bytes_in == old(self)@.bytes_in,
            r.bytes_out == old(self)@.bytes_out,
            reports_clients(r.clients@, final(self)@.clients),
    {
        self.evict_idle(now_ms);
        let n = self.clients.len();
        let mut keys: Vec<u64> = Vec::new();
        let mut j: usize = 0;
        while j < n
            invariant
                j <= n,
                n == self@.clients.len(),
                keys@ == requests_of(self@.clients).take(j as int),
            decreases n - j,
        {
            assert(self@.clients[j as int] == self.clients@[j as int]@);
            keys.push(self.clients[j].total_requests);
            proof {
                assert(requests_of(self@.clients).take(j + 1) =~= requests_of(self@.clients).take(
                    j as int,
                ).push(self@.clients[j as int].total_requests));
            }
            j = j + 1;
        }
        proof {
            assert(requests_of(self@.clients).take(n as int) =~= requests_of(self@.clients));
        }
        let order = rank_desc(&keys);
        let mut out: Vec<ClientSnapshot> = Vec::new();
        let mut k: usize = 0;
        while k < n
            invariant
                k <= n,
                n == self@.clients.len(),
                self.wf(),
                is_index_perm(order@, n as nat),
                out@.len() == k,
                forall|q: int| 0 <= q < k ==> reports_client(#[trigger] out@[q], self@.clients[order@[q] as int]),
            decreases n - k,
        {
            let idx = order[k];
            assert(self@.clients[idx as int] == self.clients@[idx as int]@);
            assert(keys_unique(self@.clients[idx as int].targets));
            let line = client_snapshot(&self.clients[idx]);
            out.push(line);
            k = k + 1;
        }
        let r = TrafficSnapshot {
            uptime_ms,
            active_connections: self.active_connections,
            total_connections: self.total_connections,
            total_requests: self.total_requests,
            bytes_in: self.bytes_in,
            bytes_out: self.bytes_out,
            clients: out,
        };
        proof {
            assert(is_index_perm(order@, self@.clients.len()));
            assert(sorted_desc_by_key(order@, requests_of(self@.clients)));
            assert(forall|q: int| 0 <= q < r.clients@.len() ==> reports_client(#[trigger] r.clients@[q], self@.clients[order@[q] as int]));
        }
        r
    }

    /// The id of the client at `ip`, if known.
    pub fn get_client_by_ip(&self, ip: &str) -> (r: Option<u64>)
        requires
            self.wf(),
        ensures
            r matches Some(id) ==> exists|i: int|
                0 <= i < self@.clients.len() && self@.clients[i].ip == ip@ && self@.clients[i].id
                    == id,
            r is None ==> forall|i: int| 0 <= i < self@.clients.len() ==> self@.clients[i].ip != ip@,
    {
        let key = ip.to_owned();
        let mut i: usize = 0;
        while i < self.clients.len()
            invariant
                i <= self.clients@.len(),
                key@ == ip@,
                forall|j: int| 0 <= j < i ==> self@.clients[j].ip != ip@,
            decreases self.clients.len() - i,
        {
            assert(self@.clients[i as int] == self.clients@[i as int]@);
            if self.clients[i].ip == key {
                return Some(self.clients[i].id);
            }
            i = i + 1;
        }
        None
    }
}

/// Asking twice for the client at one IP gives the same id the second time and
/// changes nothing more.
pub proof fn lemma_registration_idempotent(
    v0: TrafficView,
    v1: TrafficView,
    r1: Option<u64>,
    v2: TrafficView,
    r2: Option<u64>,
    ip: Seq<char>,
    t1: u64,
    t2: u64,
)
    requires
        traffic_wf(v0),
        registered(v0, v1, r1, ip, t1),
        registered(v1, v2, r2, ip, t2),
    ensures
        v2 == v1,
        r2 == r1,
{
    if knows_ip(v0, ip) {
        let i = choose|i: int| 0 <= i < v0.clients.len() && v0.clients[i].ip == ip && r1 == Some(v0.clients[i].id);
        let j = choose|j: int| 0 <= j < v1.clients.len() && v1.clients[j].ip == ip && r2 == Some(v1.clients[j].id);
        if i != j {
            assert(v0.clients[i].ip == v0.clients[j].ip);
        }
    } else if v0.next_id == u64::MAX {
    } else {
        let n = v0.clients.len() as int;
        assert(v1.clients[n].ip == ip);
        assert(knows_ip(v1, ip));
        let j = choose|j: int| 0 <= j < v1.clients.len() && v1.clients[j].ip == ip && r2 == Some(v1.clients[j].id);
        if j < n {
            assert(v0.clients[j] == v1.clients[j]);
            assert(knows_ip(v0, ip));
        }
    }
}

/// A connection that closes leaves the active connection counts (global and of every
/// client) as they were before it opened.
pub proof fn lemma_disconnect_undoes_connect(v: TrafficView, id: u64, t1: u64, t2: u64)
    ensures
        after_disconnect(after_connect(v, id, t1), id, t2).active_connections == v.active_connections,
        after_disconnect(after_connect(v, id, t1), id, t2).clients.len() == v.clients.len(),
        forall|i: int|
            0 <= i < v.clients.len() ==> (#[trigger] after_disconnect(after_connect(v, id, t1), id, t2).clients[i]).active_connections
                == v.clients[i].active_connections,
{
    let w = after_disconnect(after_connect(v, id, t1), id, t2);
    assert(v.active_connections.wrapping_add(1).wrapping_sub(1) == v.active_connections) by {
        if v.active_connections == u64::MAX {
        }
    }
    assert forall|i: int| 0 <= i < v.clients.len() implies (#[trigger] w.clients[i]).active_connections
        == v.clients[i].active_connections by {
        let a = v.clients[i].active_connections;
        assert(a.wrapping_add(1).wrapping_sub(1) == a) by {
            if a == u64::MAX {
            }
        }
    }
}

/// Recording a target counts it once more for that client: its count goes up by one
/// (wrapping), or it enters with a count of one; the other targets keep theirs.
pub proof fn lemma_target_counted(v: TrafficView, id: u64, target: Seq<char>, now_ms: u64, i: int)
    requires
        traffic_wf(v),
        0 <= i < v.clients.len(),
        v.clients[i].id == id,
    ensures
        keys_unique(after_target(v, id, target, now_ms).clients[i].targets),
        assoc_map(after_target(v, id, target, now_ms).clients[i].targets) == assoc_map(v.clients[i].targets).insert(
            target,
            if assoc_map(v.clients[i].targets).dom().contains(target) {
                assoc_map(v.clients[i].targets)[target].wrapping_add(1)
            } else {
                1u64
            },
        ),
{
    assert(keys_unique(v.clients[i].targets));
    lemma_bump_count(v.clients[i].targets, target);
}

/// A snapshot keeps exactly the clients seen within the TTL (all of them when it is 0),
/// in their order.
pub proof fn lemma_retained_are_fresh(clients: Seq<ClientView>, now_ms: u64, ttl_ms: u64)
    requires
        ttl_ms > 0,
    ensures
        forall|k: int|
            0 <= k < retained(clients, now_ms, ttl_ms).len() ==> is_fresh(
                (#[trigger] retained(clients, now_ms, ttl_ms)[k]).last_seen_ms,
                now_ms,
                ttl_ms,
            ),
        forall|i: int|
            0 <= i < clients.len() && is_fresh(clients[i].last_seen_ms, now_ms, ttl_ms) ==> retained(
                clients,
                now_ms,
                ttl_ms,
            ).contains(#[trigger] clients[i]),
{
    let pred = keeps(now_ms, ttl_ms);
    assert forall|k: int| 0 <= k < clients.filter(pred).len() implies pred(#[trigger] clients.filter(pred)[k]) by {
        clients.lemma_filter_pred(pred, k);
    }
    assert forall|i: int| 0 <= i < clients.len() && is_fresh(clients[i].last_seen_ms, now_ms, ttl_ms) implies clients.filter(
        pred,
    ).contains(#[trigger] clients[i]) by {
        assert(pred(clients[i]));
        clients.lemma_filter_contains(pred, i);
    }
}

} // verus!
