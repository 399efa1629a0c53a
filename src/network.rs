//! The transport core: the registry of connected peers with their send
//! rate limits, the send path (rate limit, then compression), and the
//! dispatch of raw transport events into application events.
//!
//! The socket itself lives outside this module. Its owner hands the events
//! it polls to [`NetworkManager::process_events`], asks
//! [`NetworkManager::send_packet`] or [`NetworkManager::broadcast`] for the
//! bytes to put on the wire, and reports each delivery back through
//! [`NetworkManager::record_sent`]. Times are milliseconds on a monotonic
//! clock.

use std::collections::HashMap;
use vstd::std_specs::iter::IteratorSpec;
use vstd::prelude::*;
use vstd::slice::slice_to_vec;
use crate::compression::{compress, decompress, decompressed, is_compression_of};
use crate::message::{GameMessage, MessageView, parse_message};

verus! {

broadcast use vstd::std_specs::hash::group_hash_axioms;

/// Length of a rate-limit window, in milliseconds.
pub const RATE_WINDOW_MS: u64 = 1000;

/// Sends allowed per window to a newly connected peer, unless the manager
/// is configured otherwise.
pub const DEFAULT_MAX_PACKETS_PER_SECOND: u32 = 10;

/// Send budget of one peer: a fixed window that restarts once it is a full
/// [`RATE_WINDOW_MS`] old.
#[derive(Debug, Clone, Copy, PartialEq, Eq, Structural)]
pub struct RateLimit {
    /// Sends accepted in the current window.
    pub packets_sent: u32,
    /// When the current window started.
    pub last_reset: u64,
    /// Sends accepted per window.
    pub max_packets_per_second: u32,
}

/// The state of a peer that connected at `now` with a budget of `max`
/// sends per window.
pub open spec fn fresh_rate_limit(now: u64, max: u32) -> RateLimit {
    RateLimit { packets_sent: 0, last_reset: now, max_packets_per_second: max }
}

/// The window as a send attempt at `now` sees it: restarted, with nothing
/// counted, once the old one is a full window old.
pub open spec fn window_at(rl: RateLimit, now: u64) -> RateLimit {
    if now >= rl.last_reset + RATE_WINDOW_MS {
        RateLimit { packets_sent: 0, last_reset: now, ..rl }
    } else {
        rl
    }
}

/// Whether a send attempt at `now` is accepted.
pub open spec fn send_allowed(rl: RateLimit, now: u64) -> bool {
    window_at(rl, now).packets_sent < rl.max_packets_per_second
}

/// The state after a send attempt at `now`: the window as the attempt sees
/// it, with the send counted if it was accepted.
pub open spec fn after_attempt(rl: RateLimit, now: u64) -> RateLimit {
    let w = window_at(rl, now);
    if send_allowed(rl, now) {
        RateLimit { packets_sent: (w.packets_sent + 1) as u32, ..w }
    } else {
        w
    }
}

impl RateLimit {
    /// The budget of a peer that connected at `now`, with `max` sends per
    /// window.
    pub fn new(now: u64, max: u32) -> (r: RateLimit)
        ensures
            r == fresh_rate_limit(now, max),
    {
        RateLimit { packets_sent: 0, last_reset: now, max_packets_per_second: max }
    }

    /// Counts a send attempt at `now` and tells whether it is accepted.
    pub fn try_acquire(&mut self, now: u64) -> (r: bool)
        ensures
            r == send_allowed(*old(self), now),
            *final(self) == after_attempt(*old(self), now),
    {
        if now >= self.last_reset && now - self.last_reset >= RATE_WINDOW_MS {
            self.packets_sent = 0;
            self.last_reset = now;
        }
        if self.packets_sent >= self.max_packets_per_second {
            return false;
        }
        self.packets_sent = self.packets_sent + 1;
        true
    }
}

/// Counters kept since start-up.
#[derive(Debug, Clone, Copy, PartialEq, Eq, Structural)]
pub struct NetworkStats {
    pub packets_sent: u64,
    pub packets_received: u64,
    pub bytes_sent: u64,
    pub bytes_received: u64,
    /// Size on the wire of the last compressed payload sent.
    pub last_compressed_bytes: u64,
    /// Size before compression of the last compressed payload sent.
    pub last_uncompressed_bytes: u64,
    /// Send attempts refused by a rate limit.
    pub rate_limit_violations: u32,
}

impl NetworkStats {
    /// All counters at zero.
    pub fn new() -> (r: NetworkStats)
        ensures
            r == zero_stats(),
    {
        NetworkStats {
            packets_sent: 0,
            packets_received: 0,
            bytes_sent: 0,
            bytes_received: 0,
            last_compressed_bytes: 0,
            last_uncompressed_bytes: 0,
            rate_limit_violations: 0,
        }
    }
}

/// Counters at start-up.
pub open spec fn zero_stats() -> NetworkStats {
    NetworkStats {
        packets_sent: 0,
        packets_received: 0,
        bytes_sent: 0,
        bytes_received: 0,
        last_compressed_bytes: 0,
        last_uncompressed_bytes: 0,
        rate_limit_violations: 0,
    }
}

/// Why a send did not happen.
#[derive(Debug, Clone, Copy, PartialEq, Eq, Structural)]
pub enum TransportError {
    /// The listening endpoint could not be bound.
    BindFailure,
    /// No connected peer has this id.
    PeerNotFound,
    /// The peer's send budget for the current window is spent.
    RateLimited,
    /// The transport did not take the packet.
    SendFailure,
}

/// Bytes ready to be put on the wire for one peer.
#[derive(Debug, Clone)]
pub struct OutgoingPacket {
    pub peer_id: u32,
    /// What goes on the wire: the payload, compressed where that applies.
    pub payload: Vec<u8>,
    /// Ordered, guaranteed delivery rather than best effort.
    pub reliable: bool,
    /// Whether `payload` is the compressed form.
    pub compressed: bool,
    /// Length of the payload before compression.
    pub uncompressed_len: usize,
}

/// Whether `payload` is what goes on the wire for `data`.
pub open spec fn wire_payload(compression_enabled: bool, data: Seq<u8>, payload: Seq<u8>) -> bool {
    if compression_enabled {
        is_compression_of(data, payload)
    } else {
        payload == data
    }
}

/// Whether the payload of `data` is compressed before sending.
pub open spec fn compresses(compression_enabled: bool, data: Seq<u8>) -> bool {
    compression_enabled && data.len() > crate::compression::COMPRESSION_THRESHOLD
}

/// Whether `p` is the packet that preparing `data` for `peer_id` gives: its
/// payload is the wire form of `data`.
pub open spec fn prepared(
    p: OutgoingPacket,
    peer_id: u32,
    data: Seq<u8>,
    reliable: bool,
    compression_enabled: bool,
) -> bool {
    &&& p.peer_id == peer_id
    &&& p.reliable == reliable
    &&& p.uncompressed_len == data.len()
    &&& p.compressed == compresses(compression_enabled, data)
    &&& wire_payload(compression_enabled, data, p.payload@)
}

/// Whether `r` is the outcome of a send to a tracked peer whose budget was
/// `rl` before the attempt at `now`.
pub open spec fn send_outcome(
    r: Result<OutgoingPacket, TransportError>,
    rl: RateLimit,
    now: u64,
    peer_id: u32,
    data: Seq<u8>,
    reliable: bool,
    compression_enabled: bool,
) -> bool {
    if send_allowed(rl, now) {
        r matches Ok(p) && prepared(p, peer_id, data, reliable, compression_enabled)
    } else {
        r matches Err(e) && e == TransportError::RateLimited
    }
}

/// One attempt of a broadcast: the peer and the outcome of the send to it.
pub type SendAttempt = (u32, Result<OutgoingPacket, TransportError>);

/// How many of `attempts` a rate limit refused.
pub open spec fn rate_limited_count(attempts: Seq<SendAttempt>) -> nat
    decreases attempts.len(),
{
    if attempts.len() == 0 {
        0
    } else {
        rate_limited_count(attempts.drop_last()) + if attempts.last().1 matches Err(e) && e
            == TransportError::RateLimited {
            1nat
        } else {
            0nat
        }
    }
}

/// `x + n`, held at `u32::MAX`.
pub open spec fn saturating_plus(x: u32, n: nat) -> u32 {
    if x + n > u32::MAX {
        u32::MAX
    } else {
        (x + n) as u32
    }
}

/// A raw event polled from the transport.
#[derive(Debug, Clone)]
pub enum TransportEvent {
    Connect { peer_id: u32 },
    Disconnect { peer_id: u32, reason: u32 },
    Receive { peer_id: u32, data: Vec<u8>, channel: u8 },
}

/// The content of a [`TransportEvent`].
pub enum TransportEventView {
    Connect { peer_id: u32 },
    Disconnect { peer_id: u32, reason: u32 },
    Receive { peer_id: u32, data: Seq<u8>, channel: u8 },
}

impl View for TransportEvent {
    type V = TransportEventView;

    open spec fn view(&self) -> TransportEventView {
        match self {
            TransportEvent::Connect { peer_id } => TransportEventView::Connect { peer_id: *peer_id },
            TransportEvent::Disconnect { peer_id, reason } => TransportEventView::Disconnect {
                peer_id: *peer_id,
                reason: *reason,
            },
            TransportEvent::Receive { peer_id, data, channel } => TransportEventView::Receive {
                peer_id: *peer_id,
                data: data@,
                channel: *channel,
            },
        }
    }
}

/// An event for the game layer.
#[derive(Debug, Clone)]
pub enum NetworkEvent {
    PeerConnected(u32),
    PeerDisconnected(u32),
    DataReceived { peer_id: u32, message: GameMessage },
}

/// The content of a [`NetworkEvent`].
pub enum NetworkEventView {
    PeerConnected(u32),
    PeerDisconnected(u32),
    DataReceived { peer_id: u32, message: MessageView },
}

impl View for NetworkEvent {
    type V = NetworkEventView;

    open spec fn view(&self) -> NetworkEventView {
        match self {
            NetworkEvent::PeerConnected(p) => NetworkEventView::PeerConnected(*p),
            NetworkEvent::PeerDisconnected(p) => NetworkEventView::PeerDisconnected(*p),
            NetworkEvent::DataReceived { peer_id, message } => NetworkEventView::DataReceived {
                peer_id: *peer_id,
                message: message@,
            },
        }
    }
}

/// The bytes that a received payload is decoded from.
pub open spec fn received_payload(compression_enabled: bool, data: Seq<u8>) -> Seq<u8> {
    if compression_enabled {
        decompressed(data)
    } else {
        data
    }
}

/// The events that one raw event gives the game layer: none for a payload
/// that does not decode.
pub open spec fn dispatch_one(compression_enabled: bool, ev: TransportEventView) -> Seq<
    NetworkEventView,
> {
    match ev {
        TransportEventView::Connect { peer_id } => seq![NetworkEventView::PeerConnected(peer_id)],
        TransportEventView::Disconnect { peer_id, .. } => seq![
            NetworkEventView::PeerDisconnected(peer_id),
        ],
        TransportEventView::Receive { peer_id, data, .. } => match parse_message(
            received_payload(compression_enabled, data),
        ) {
            Ok(message) => seq![NetworkEventView::DataReceived { peer_id, message }],
            Err(_) => Seq::empty(),
        },
    }
}

/// The events that a sequence of raw events gives, in order.
pub open spec fn dispatch_all(compression_enabled: bool, evs: Seq<TransportEventView>) -> Seq<
    NetworkEventView,
>
    decreases evs.len(),
{
    if evs.len() == 0 {
        Seq::empty()
    } else {
        dispatch_all(compression_enabled, evs.drop_last()) + dispatch_one(
            compression_enabled,
            evs.last(),
        )
    }
}

/// The registry after one raw event at `now`: a connecting peer gets a
/// fresh budget of `max` sends per window, a disconnecting one is dropped.
pub open spec fn registry_step(
    reg: Map<u32, RateLimit>,
    ev: TransportEventView,
    now: u64,
    max: u32,
) -> Map<
    u32,
    RateLimit,
> {
    match ev {
        TransportEventView::Connect { peer_id } => reg.insert(peer_id, fresh_rate_limit(now, max)),
        TransportEventView::Disconnect { peer_id, .. } => reg.remove(peer_id),
        TransportEventView::Receive { .. } => reg,
    }
}

/// The registry after a sequence of raw events at `now`.
pub open spec fn registry_after(
    reg: Map<u32, RateLimit>,
    evs: Seq<TransportEventView>,
    now: u64,
    max: u32,
) -> Map<
    u32,
    RateLimit,
>
    decreases evs.len(),
{
    if evs.len() == 0 {
        reg
    } else {
        registry_step(registry_after(reg, evs.drop_last(), now, max), evs.last(), now, max)
    }
}

/// The counters after one raw event: a received packet is counted with its
/// bytes, whether or not it decodes.
pub open spec fn stats_step(stats: NetworkStats, ev: TransportEventView) -> NetworkStats {
    match ev {
        TransportEventView::Receive { data, .. } => NetworkStats {
            packets_received: stats.packets_received.saturating_add(1),
            bytes_received: stats.bytes_received.saturating_add(data.len() as u64),
            ..stats
        },
        _ => stats,
    }
}

/// The counters after a sequence of raw events.
pub open spec fn stats_after(stats: NetworkStats, evs: Seq<TransportEventView>) -> NetworkStats
    decreases evs.len(),
{
    if evs.len() == 0 {
        stats
    } else {
        stats_step(stats_after(stats, evs.drop_last()), evs.last())
    }
}

/// The transport's view of the connected peers and its counters.
#[derive(Debug)]
pub struct NetworkManager {
    /// Send budget of each connected peer, keyed by peer id.
    pub peer_rate_limits: HashMap<u32, RateLimit>,
    /// Whether large payloads are compressed and gzip payloads decompressed.
    pub compression_enabled: bool,
    /// Sends per window granted to a peer when it connects.
    pub default_max_packets_per_second: u32,
    pub stats: NetworkStats,
}

impl Default for NetworkManager {
    fn default() -> (r: NetworkManager)
        ensures
            r.peer_rate_limits@ == Map::<u32, RateLimit>::empty(),
            r.compression_enabled,
            r.default_max_packets_per_second == DEFAULT_MAX_PACKETS_PER_SECOND,
            r.stats == zero_stats(),
    {
        NetworkManager {
            peer_rate_limits: HashMap::new(),
            compression_enabled: true,
            default_max_packets_per_second: DEFAULT_MAX_PACKETS_PER_SECOND,
            stats: NetworkStats::new(),
        }
    }
}

impl NetworkManager {
    /// Counts a send attempt to `peer_id` at `now` against its budget. A
    /// peer that is not tracked has no budget and is always let through.
    pub fn check_rate_limit(&mut self, peer_id: u32, now: u64) -> (r: bool)
        ensures
            final(self).compression_enabled == old(self).compression_enabled,
            final(self).default_max_packets_per_second == old(self).default_max_packets_per_second,
            final(self).stats == old(self).stats,
            old(self).peer_rate_limits@.contains_key(peer_id) ==> {
                &&& r == send_allowed(old(self).peer_rate_limits@[peer_id], now)
                &&& final(self).peer_rate_limits@ == old(self).peer_rate_limits@.insert(
                    peer_id,
                    after_attempt(old(self).peer_rate_limits@[peer_id], now),
                )
            },
            !old(self).peer_rate_limits@.contains_key(peer_id) ==> {
                &&& r
                &&& final(self).peer_rate_limits@ == old(self).peer_rate_limits@
            },
    {
        match self.peer_rate_limits.get(&peer_id) {
            Some(rl) => {
                let mut rl = *rl;
                let allowed = rl.try_acquire(now);
                self.peer_rate_limits.insert(peer_id, rl);
                allowed
            },
            None => true,
        }
    }

    /// Sets the send budget of a tracked peer; does nothing for any other.
    pub fn set_peer_rate_limit(&mut self, peer_id: u32, max_packets_per_second: u32)
        ensures
            final(self).compression_enabled == old(self).compression_enabled,
            final(self).default_max_packets_per_second == old(self).default_max_packets_per_second,
            final(self).stats == old(self).stats,
            old(self).peer_rate_limits@.contains_key(peer_id) ==> final(self).peer_rate_limits@
                == old(self).peer_rate_limits@.insert(
                peer_id,
                RateLimit { max_packets_per_second, ..old(self).peer_rate_limits@[peer_id] },
            ),
            !old(self).peer_rate_limits@.contains_key(peer_id) ==> final(self).peer_rate_limits@
                == old(self).peer_rate_limits@,
    {
        match self.peer_rate_limits.get(&peer_id) {
            Some(rl) => {
                let updated = RateLimit { max_packets_per_second, ..*rl };
                self.peer_rate_limits.insert(peer_id, updated);
            },
            None => {},
        }
    }

    /// Wraps `data` for `peer_id`, compressing it where that applies.
    fn prepare(&self, peer_id: u32, data: &[u8], reliable: bool) -> (r: OutgoingPacket)
        ensures
            prepared(r, peer_id, data@, reliable, self.compression_enabled),
    {
        let compressed = self.compression_enabled
            && data.len() > crate::compression::COMPRESSION_THRESHOLD;
        let payload = if self.compression_enabled {
            compress(data)
        } else {
            slice_to_vec(data)
        };
        OutgoingPacket { peer_id, payload, reliable, compressed, uncompressed_len: data.len() }
    }

    /// Prepares `data` for sending to `peer_id` at `now`: the peer must be
    /// connected and within its send budget, which the attempt spends. A
    /// refusal by the budget is counted in the statistics.
    pub fn send_packet(&mut self, peer_id: u32, data: &[u8], reliable: bool, now: u64) -> (r:
        Result<OutgoingPacket, TransportError>)
        ensures
            final(self).compression_enabled == old(self).compression_enabled,
            final(self).default_max_packets_per_second == old(self).default_max_packets_per_second,
            !old(self).peer_rate_limits@.contains_key(peer_id) ==> {
                &&& r matches Err(e) && e == TransportError::PeerNotFound
                &&& final(self).peer_rate_limits@ == old(self).peer_rate_limits@
                &&& final(self).stats == old(self).stats
            },
            old(self).peer_rate_limits@.contains_key(peer_id) ==> {
                let rl = old(self).peer_rate_limits@[peer_id];
                &&& send_outcome(r, rl, now, peer_id, data@, reliable, old(self).compression_enabled)
                &&& final(self).peer_rate_limits@ == old(self).peer_rate_limits@.insert(
                    peer_id,
                    after_attempt(rl, now),
                )
                &&& final(self).stats == if send_allowed(rl, now) {
                    old(self).stats
                } else {
                    NetworkStats {
                        rate_limit_violations: saturating_plus(
                            old(self).stats.rate_limit_violations,
                            1,
                        ),
                        ..old(self).stats
                    }
                }
            },
    {
        if !self.peer_rate_limits.contains_key(&peer_id) {
            return Err(TransportError::PeerNotFound);
        }
        if !self.check_rate_limit(peer_id, now) {
            self.stats.rate_limit_violations = self.stats.rate_limit_violations.saturating_add(1);
            return Err(TransportError::RateLimited);
        }
        Ok(self.prepare(peer_id, data, reliable))
    }

    /// Counts a packet that the transport has taken for delivery.
    pub fn record_sent(&mut self, packet: &OutgoingPacket)
        ensures
            final(self).peer_rate_limits@ == old(self).peer_rate_limits@,
            final(self).compression_enabled == old(self).compression_enabled,
            final(self).default_max_packets_per_second == old(self).default_max_packets_per_second,
            final(self).stats == (NetworkStats {
                packets_sent: old(self).stats.packets_sent.saturating_add(1),
                bytes_sent: old(self).stats.bytes_sent.saturating_add(packet.payload@.len() as u64),
                last_compressed_bytes: if packet.compressed {
                    packet.payload@.len() as u64
                } else {
                    old(self).stats.last_compressed_bytes
                },
                last_uncompressed_bytes: if packet.compressed {
                    packet.uncompressed_len as u64
                } else {
                    old(self).stats.last_uncompressed_bytes
                },
                ..old(self).stats
            }),
    {
        self.stats.packets_sent = self.stats.packets_sent.saturating_add(1);
        self.stats.bytes_sent = self.stats.bytes_sent.saturating_add(packet.payload.len() as u64);
        if packet.compressed {
            self.stats.last_compressed_bytes = packet.payload.len() as u64;
            self.stats.last_uncompressed_bytes = packet.uncompressed_len as u64;
        }
    }

    /// Prepares `data` for every connected peer. A peer whose send fails
    /// does not stop the others: each peer gets one attempt, and the result
    /// lists them all.
    pub fn broadcast(&mut self, data: &[u8], reliable: bool, now: u64) -> (r: Vec<SendAttempt>)
        ensures
            final(self).compression_enabled == old(self).compression_enabled,
            final(self).default_max_packets_per_second == old(self).default_max_packets_per_second,
            r@.map_values(|a: SendAttempt| a.0).no_duplicates(),
            r@.map_values(|a: SendAttempt| a.0).to_set() == old(self).peer_rate_limits@.dom(),
            forall|i: int|
                0 <= i < r@.len() ==> send_outcome(
                    #[trigger] r@[i].1,
                    old(self).peer_rate_limits@[r@[i].0],
                    now,
                    r@[i].0,
                    data@,
                    reliable,
                    old(self).compression_enabled,
                ),
            final(self).peer_rate_limits@.dom() == old(self).peer_rate_limits@.dom(),
            forall|p: u32|
                #[trigger] old(self).peer_rate_limits@.contains_key(p)
                    ==> final(self).peer_rate_limits@[p] == after_attempt(
                    old(self).peer_rate_limits@[p],
                    now,
                ),
            final(self).stats == (NetworkStats {
                rate_limit_violations: saturating_plus(
                    old(self).stats.rate_limit_violations,
                    rate_limited_count(r@),
                ),
                ..old(self).stats
            }),
    {
        let ids = self.peer_ids();
        let ghost old_map = self.peer_rate_limits@;
        let ghost old_stats = self.stats;
        let mut attempts: Vec<SendAttempt> = Vec::new();
        let mut i: usize = 0;
        while i < ids.len()
            invariant
                i <= ids@.len(),
                ids@.no_duplicates(),
                ids@.to_set() == old_map.dom(),
                self.compression_enabled == old(self).compression_enabled,
                self.default_max_packets_per_second == old(self).default_max_packets_per_second,
                old_map == old(self).peer_rate_limits@,
                old_stats == old(self).stats,
                attempts@.len() == i,
                forall|j: int| 0 <= j < i ==> #[trigger] attempts@[j].0 == ids@[j],
                forall|j: int|
                    0 <= j < i ==> send_outcome(
                        #[trigger] attempts@[j].1,
                        old_map[attempts@[j].0],
                        now,
                        attempts@[j].0,
                        data@,
                        reliable,
                        self.compression_enabled,
                    ),
                self.peer_rate_limits@.dom() == old_map.dom(),
                forall|j: int|
                    0 <= j < i ==> self.peer_rate_limits@[#[trigger] ids@[j]] == after_attempt(
                        old_map[ids@[j]],
                        now,
                    ),
                forall|j: int|
                    i <= j < ids@.len() ==> self.peer_rate_limits@[#[trigger] ids@[j]]
                        == old_map[ids@[j]],
                self.stats == (NetworkStats {
                    rate_limit_violations: saturating_plus(
                        old_stats.rate_limit_violations,
                        rate_limited_count(attempts@),
                    ),
                    ..old_stats
                }),
            decreases ids@.len() - i,
        {
            let peer_id = ids[i];
            proof {
                assert(ids@.to_set().contains(peer_id));
            }
            let result = self.send_packet(peer_id, data, reliable, now);
            let ghost before = attempts@;
            attempts.push((peer_id, result));
            proof {
                assert(attempts@.drop_last() == before);
                assert forall|j: int| 0 <= j < ids@.len() && j != i implies ids@[j] != peer_id by {
                }
            }
            i = i + 1;
        }
        proof {
            assert(attempts@.map_values(|a: SendAttempt| a.0) =~= ids@);
            assert forall|p: u32| #[trigger] old_map.contains_key(p) implies self.peer_rate_limits@[p]
                == after_attempt(old_map[p], now) by {
                assert(ids@.to_set().contains(p));
                let j = choose|j: int| 0 <= j < ids@.len() && #[trigger] ids@[j] == p;
            }
        }
        attempts
    }

    /// Handles one raw event at `now`: registers or drops the peer, or
    /// decompresses and decodes the payload. A payload that does not decode
    /// is dropped and gives no event.
    pub fn process_event(&mut self, ev: &TransportEvent, now: u64) -> (r: Option<NetworkEvent>)
        ensures
            final(self).compression_enabled == old(self).compression_enabled,
            final(self).default_max_packets_per_second == old(self).default_max_packets_per_second,
            final(self).peer_rate_limits@ == registry_step(
                old(self).peer_rate_limits@,
                ev@,
                now,
                old(self).default_max_packets_per_second,
            ),
            final(self).stats == stats_step(old(self).stats, ev@),
            dispatch_one(old(self).compression_enabled, ev@) == match r {
                Some(e) => seq![e@],
                None => Seq::<NetworkEventView>::empty(),
            },
    {
        match ev {
            TransportEvent::Connect { peer_id } => {
                self.peer_rate_limits.insert(
                    *peer_id,
                    RateLimit::new(now, self.default_max_packets_per_second),
                );
                Some(NetworkEvent::PeerConnected(*peer_id))
            },
            TransportEvent::Disconnect { peer_id, .. } => {
                self.peer_rate_limits.remove(peer_id);
                Some(NetworkEvent::PeerDisconnected(*peer_id))
            },
            TransportEvent::Receive { peer_id, data, .. } => {
                self.stats.packets_received = self.stats.packets_received.saturating_add(1);
                self.stats.bytes_received = self.stats.bytes_received.saturating_add(
                    data.len() as u64,
                );
                let decoded = if self.compression_enabled {
                    let payload = decompress(data.as_slice());
                    GameMessage::from_bytes(payload.as_slice())
                } else {
                    GameMessage::from_bytes(data.as_slice())
                };
                match decoded {
                    Ok(message) => Some(NetworkEvent::DataReceived { peer_id: *peer_id, message }),
                    Err(_) => None,
                }
            },
        }
    }

    /// Handles the raw events of one poll, in order, and returns the events
    /// for the game layer.
    pub fn process_events(&mut self, events: &Vec<TransportEvent>, now: u64) -> (r: Vec<
        NetworkEvent,
    >)
        ensures
            final(self).compression_enabled == old(self).compression_enabled,
            final(self).default_max_packets_per_second == old(self).default_max_packets_per_second,
            final(self).peer_rate_limits@ == registry_after(
                old(self).peer_rate_limits@,
                events@.map_values(|e: TransportEvent| e@),
                now,
                old(self).default_max_packets_per_second,
            ),
            final(self).stats == stats_after(old(self).stats, events@.map_values(|e: TransportEvent| e@)),
            r@.map_values(|e: NetworkEvent| e@) == dispatch_all(
                old(self).compression_enabled,
                events@.map_values(|e: TransportEvent| e@),
            ),
    {
        let ghost evs = events@.map_values(|e: TransportEvent| e@);
        let mut out: Vec<NetworkEvent> = Vec::new();
        let mut i: usize = 0;
        while i < events.len()
            invariant
                i <= events@.len(),
                evs == events@.map_values(|e: TransportEvent| e@),
                self.compression_enabled == old(self).compression_enabled,
                self.default_max_packets_per_second == old(self).default_max_packets_per_second,
                self.peer_rate_limits@ == registry_after(
                    old(self).peer_rate_limits@,
                    evs.take(i as int),
                    now,
                    old(self).default_max_packets_per_second,
                ),
                self.stats == stats_after(old(self).stats, evs.take(i as int)),
                out@.map_values(|e: NetworkEvent| e@) == dispatch_all(
                    self.compression_enabled,
                    evs.take(i as int),
                ),
            decreases events@.len() - i,
        {
            let ghost out_before = out@.map_values(|e: NetworkEvent| e@);
            let produced = self.process_event(&events[i], now);
            proof {
                assert(evs.take(i + 1).drop_last() =~= evs.take(i as int));
                assert(evs.take(i + 1).last() == events@[i as int]@);
            }
            match produced {
                Some(e) => {
                    out.push(e);
                    proof {
                        assert(out@.map_values(|e: NetworkEvent| e@) =~= out_before + seq![e@]);
                    }
                },
                None => {
                    proof {
                        assert(out_before + Seq::<NetworkEventView>::empty() =~= out_before);
                    }
                },
            }
            i = i + 1;
        }
        proof {
            assert(evs.take(i as int) =~= evs);
        }
        out
    }

    /// The counters.
    pub fn get_stats(&self) -> (r: &NetworkStats)
        ensures
            *r == self.stats,
    {
        &self.stats
    }

    /// The ids of the connected peers, each once.
    pub fn peer_ids(&self) -> (r: Vec<u32>)
        ensures
            r@.no_duplicates(),
            r@.to_set() == self.peer_rate_limits@.dom(),
    {
        let mut ids: Vec<u32> = Vec::new();
        let keys = self.peer_rate_limits.keys();
        let ghost all = keys.remaining().unref();
        proof {
            assert(all.to_set() == self.peer_rate_limits@.dom());
        }
        for id in it: keys
            invariant
                it.seq().unref() == all,
                all.no_duplicates(),
                ids@ == all.take(it.index() as int),
                it.index() == it.seq().len() ==> ids@ == all,
        {
            ids.push(*id);
            proof {
                assert(ids@ =~= all.take(it.index() + 1));
            }
        }
        ids
    }
}

/// The budget after attempts at each of `times`, in order.
pub open spec fn state_after_attempts(rl: RateLimit, times: Seq<u64>) -> RateLimit
    decreases times.len(),
{
    if times.len() == 0 {
        rl
    } else {
        after_attempt(state_after_attempts(rl, times.drop_last()), times.last())
    }
}

/// Whether each attempt at `times`, made in order, is accepted.
pub open spec fn attempt_results(rl: RateLimit, times: Seq<u64>) -> Seq<bool>
    decreases times.len(),
{
    if times.len() == 0 {
        Seq::empty()
    } else {
        attempt_results(rl, times.drop_last()) + seq![
            send_allowed(state_after_attempts(rl, times.drop_last()), times.last()),
        ]
    }
}

/// Within one window, the first `k` attempts from an empty count are all
/// accepted (while `k` stays within the budget), counted in the same window.
proof fn lemma_attempts_within_window(rl: RateLimit, times: Seq<u64>)
    requires
        rl.packets_sent == 0,
        times.len() <= rl.max_packets_per_second,
        forall|i: int| 0 <= i < times.len() ==> #[trigger] times[i] < rl.last_reset + RATE_WINDOW_MS,
    ensures
        state_after_attempts(rl, times) == (RateLimit { packets_sent: times.len() as u32, ..rl }),
        attempt_results(rl, times).len() == times.len(),
        forall|i: int| 0 <= i < times.len() ==> #[trigger] attempt_results(rl, times)[i],
    decreases times.len(),
{
    if times.len() > 0 {
        let prefix = times.drop_last();
        assert forall|i: int| 0 <= i < prefix.len() implies #[trigger] prefix[i] < rl.last_reset
            + RATE_WINDOW_MS by {
            assert(prefix[i] == times[i]);
        }
        lemma_attempts_within_window(rl, prefix);
        assert(times.last() == times[times.len() - 1]);
        let results = attempt_results(rl, times);
        assert forall|i: int| 0 <= i < times.len() implies #[trigger] results[i] by {
            if i < prefix.len() {
                assert(results[i] == attempt_results(rl, prefix)[i]);
            }
        }
    }
}

/// Within one window, a peer's budget of `max` sends is all it gets: from an
/// empty count, the first `max` attempts are accepted and the next one, the
/// `max + 1`-th, is refused.
pub proof fn lemma_rate_limit_window_cap(rl: RateLimit, times: Seq<u64>)
    requires
        rl.packets_sent == 0,
        times.len() == rl.max_packets_per_second + 1,
        forall|i: int| 0 <= i < times.len() ==> #[trigger] times[i] < rl.last_reset + RATE_WINDOW_MS,
    ensures
        attempt_results(rl, times).len() == times.len(),
        forall|i: int|
            0 <= i < rl.max_packets_per_second ==> #[trigger] attempt_results(rl, times)[i],
        !attempt_results(rl, times)[rl.max_packets_per_second as int],
{
    let prefix = times.drop_last();
    assert forall|i: int| 0 <= i < prefix.len() implies #[trigger] prefix[i] < rl.last_reset
        + RATE_WINDOW_MS by {
        assert(prefix[i] == times[i]);
    }
    lemma_attempts_within_window(rl, prefix);
    assert(times.last() == times[times.len() - 1]);
    let results = attempt_results(rl, times);
    assert forall|i: int| 0 <= i < rl.max_packets_per_second implies #[trigger] results[i] by {
        assert(results[i] == attempt_results(rl, prefix)[i]);
    }
}

/// Once a full window has passed since the window started, a send is
/// accepted again (for any budget of at least one send), and it opens a new
/// window with that send counted.
pub proof fn lemma_rate_limit_window_elapsed(rl: RateLimit, now: u64)
    requires
        rl.max_packets_per_second >= 1,
        now >= rl.last_reset + RATE_WINDOW_MS,
    ensures
        send_allowed(rl, now),
        after_attempt(rl, now) == (RateLimit { packets_sent: 1, last_reset: now, ..rl }),
{
}

/// A send refused within the current window leaves the budget exactly as
/// it was: the refusal is not counted against the peer. The refusal itself
/// adds one to the violation count, which saturates at `u32::MAX`.
pub proof fn lemma_refused_send_not_counted(rl: RateLimit, now: u64, violations: u32)
    requires
        rl.packets_sent >= rl.max_packets_per_second,
        now < rl.last_reset + RATE_WINDOW_MS,
    ensures
        !send_allowed(rl, now),
        after_attempt(rl, now) == rl,
        violations < u32::MAX ==> saturating_plus(violations, 1) == violations + 1,
{
}

/// Dispatching two runs of events one after the other gives the events of
/// each, in order.
proof fn lemma_dispatch_concat(
    compression_enabled: bool,
    a: Seq<TransportEventView>,
    b: Seq<TransportEventView>,
)
    ensures
        dispatch_all(compression_enabled, a + b) == dispatch_all(compression_enabled, a)
            + dispatch_all(compression_enabled, b),
    decreases b.len(),
{
    if b.len() == 0 {
        assert(a + b =~= a);
        assert(dispatch_all(compression_enabled, a) + Seq::<NetworkEventView>::empty()
            =~= dispatch_all(compression_enabled, a));
    } else {
        lemma_dispatch_concat(compression_enabled, a, b.drop_last());
        assert((a + b).drop_last() =~= a + b.drop_last());
        assert((a + b).last() == b.last());
        assert(dispatch_all(compression_enabled, a + b) =~= dispatch_all(compression_enabled, a)
            + dispatch_all(compression_enabled, b));
    }
}

/// The registry after two runs of events is the registry after the second
/// run, started from the registry after the first.
proof fn lemma_registry_concat(
    reg: Map<u32, RateLimit>,
    a: Seq<TransportEventView>,
    b: Seq<TransportEventView>,
    now: u64,
    max: u32,
)
    ensures
        registry_after(reg, a + b, now, max) == registry_after(
            registry_after(reg, a, now, max),
            b,
            now,
            max,
        ),
    decreases b.len(),
{
    if b.len() == 0 {
        assert(a + b =~= a);
    } else {
        lemma_registry_concat(reg, a, b.drop_last(), now, max);
        assert((a + b).drop_last() =~= a + b.drop_last());
        assert((a + b).last() == b.last());
    }
}

/// A received packet that does not decode gives no event and changes no
/// peer's state: the events before and after it are dispatched, and the
/// registry evolves, exactly as if it had never arrived.
pub proof fn lemma_malformed_packet_isolated(
    compression_enabled: bool,
    before: Seq<TransportEventView>,
    bad: TransportEventView,
    after: Seq<TransportEventView>,
    reg: Map<u32, RateLimit>,
    now: u64,
    max: u32,
)
    requires
        bad matches TransportEventView::Receive { data, .. } && parse_message(
            received_payload(compression_enabled, data),
        ) is Err,
    ensures
        dispatch_all(compression_enabled, before + seq![bad] + after) == dispatch_all(
            compression_enabled,
            before,
        ) + dispatch_all(compression_enabled, after),
        registry_after(reg, before + seq![bad] + after, now, max) == registry_after(
            reg,
            before + after,
            now,
            max,
        ),
{
    let one = seq![bad];
    lemma_dispatch_concat(compression_enabled, before + one, after);
    lemma_dispatch_concat(compression_enabled, before, one);
    let none = Seq::<TransportEventView>::empty();
    assert(one.drop_last() =~= none);
    assert(one.last() == bad);
    assert(dispatch_all(compression_enabled, none) == Seq::<NetworkEventView>::empty());
    assert(dispatch_one(compression_enabled, bad) == Seq::<NetworkEventView>::empty());
    assert(dispatch_all(compression_enabled, one) =~= Seq::<NetworkEventView>::empty());
    assert(dispatch_all(compression_enabled, before) + Seq::<NetworkEventView>::empty()
        =~= dispatch_all(compression_enabled, before));
    lemma_registry_concat(reg, before + one, after, now, max);
    lemma_registry_concat(reg, before, one, now, max);
    let mid = registry_after(reg, before, now, max);
    assert(registry_after(mid, none, now, max) == mid);
    assert(registry_after(mid, one, now, max) == registry_step(mid, bad, now, max));
    lemma_registry_concat(reg, before, after, now, max);
}

} // verus!
