//! Pure sans-I/O synchronization engine for uclip.
//!
//! The state machine that manages logical clocks, resolves sync conflicts
//! (Last-Writer-Wins) and suppresses echoes. Each event handler is specified
//! by a step function over the engine's abstract state.
use vstd::prelude::*;

use crate::clipboard::ClipContent;
use crate::lemma_device_id_view_injective;
use crate::proto::Message;
use crate::random_uuid;
use crate::suppress::{hashes_equal, unexpired, SuppressionMap};
use crate::DeviceId;

verus! {

/// Duration in milliseconds to suppress local echo after applying a remote clip (2 seconds).
pub const SUPPRESSION_TTL_MS: u64 = 2000;

/// Default maximum allowed clip size in bytes (10 MiB).
pub const DEFAULT_MAX_ITEM_BYTES: usize = 10485760;

/// Identifies an update in distributed logical time.
///
/// Updates are ordered by `lamport` first; a tie is broken by the higher
/// `origin`, so that every device picks the same winner.
#[derive(Debug, Clone, Copy, PartialEq, Eq, Structural, PartialOrd, Ord, Hash)]
pub struct UpdateId {
    pub lamport: u64,
    pub origin: DeviceId,
}

impl UpdateId {
    /// `self` is ordered no later than `other`.
    pub open spec fn precedes_or_equals(self, other: UpdateId) -> bool {
        self.lamport < other.lamport || (self.lamport == other.lamport && self.origin@
            <= other.origin@)
    }

    /// Whether `self` is ordered no later than `other`.
    pub fn is_at_most(&self, other: &UpdateId) -> (r: bool)
        ensures
            r == self.precedes_or_equals(*other),
    {
        self.lamport < other.lamport || (self.lamport == other.lamport && self.origin.is_at_most(
            &other.origin,
        ))
    }
}

/// The order of updates is total: of two updates, one precedes or equals the other.
pub proof fn lemma_update_order_total(a: UpdateId, b: UpdateId)
    ensures
        a.precedes_or_equals(b) || b.precedes_or_equals(a),
{
}

/// The order of updates is antisymmetric: updates that precede each other are equal.
pub proof fn lemma_update_order_antisymmetric(a: UpdateId, b: UpdateId)
    requires
        a.precedes_or_equals(b),
        b.precedes_or_equals(a),
    ensures
        a == b,
{
    lemma_device_id_view_injective(a.origin, b.origin);
}

/// The order of updates is transitive.
pub proof fn lemma_update_order_transitive(a: UpdateId, b: UpdateId, c: UpdateId)
    requires
        a.precedes_or_equals(b),
        b.precedes_or_equals(c),
    ensures
        a.precedes_or_equals(c),
{
}

/// The order of updates, by its inputs: the later Lamport time comes later;
/// at equal Lamport times, the update from the higher device id (the higher
/// UUID, compared as an unsigned big-endian value) comes later.
pub proof fn lemma_update_order_by_lamport_then_origin(a: UpdateId, b: UpdateId)
    ensures
        a.lamport < b.lamport ==> a.precedes_or_equals(b) && !b.precedes_or_equals(a),
        a.lamport == b.lamport ==> (a.precedes_or_equals(b) <==> a.origin@ <= b.origin@),
        a.lamport == b.lamport && a.origin@ < b.origin@ ==> !b.precedes_or_equals(a),
{
}

/// A monotonic Lamport logical clock.
#[derive(Debug, Clone, Copy, PartialEq, Eq, Structural, Default)]
pub struct LamportClock {
    counter: u64,
}

impl View for LamportClock {
    type V = u64;

    closed spec fn view(&self) -> u64 {
        self.counter
    }
}

/// The clock value after witnessing `remote` at local value `local`:
/// one more than the larger of the two.
pub open spec fn witnessed(local: u64, remote: u64) -> u64 {
    ((if local >= remote {
        local
    } else {
        remote
    }) + 1) as u64
}

impl LamportClock {
    /// Create a new logical clock starting at zero.
    pub fn new() -> (r: LamportClock)
        ensures
            r@ == 0,
    {
        LamportClock { counter: 0 }
    }

    /// Read the current logical timestamp without advancing the clock.
    pub fn get(&self) -> (r: u64)
        ensures
            r == self@,
    {
        self.counter
    }

    /// Advance the clock for a local event: add one and return the new value.
    pub fn tick(&mut self) -> (r: u64)
        requires
            old(self)@ < u64::MAX,
        ensures
            final(self)@ == old(self)@ + 1,
            r == final(self)@,
    {
        self.counter = self.counter + 1;
        self.counter
    }

    /// Update the clock upon receiving a remote event: set it to
    /// `max(local, remote) + 1` and return the new value, which lies after
    /// both the old local value and the remote one.
    pub fn witness(&mut self, remote_time: u64) -> (r: u64)
        requires
            old(self)@ < u64::MAX,
            remote_time < u64::MAX,
        ensures
            final(self)@ == witnessed(old(self)@, remote_time),
            r == final(self)@,
            r > old(self)@,
            r > remote_time,
    {
        let m = if self.counter >= remote_time {
            self.counter
        } else {
            remote_time
        };
        self.counter = m + 1;
        self.counter
    }
}

/// Actions emitted by the sync engine for the outer I/O layer to execute.
#[derive(Debug, Clone, PartialEq, Eq)]
pub enum Action {
    /// Broadcast a new clip update to all connected peers over the network.
    Broadcast(Message),
    /// Apply new content to the local operating system clipboard.
    ApplyToClipboard(ClipContent),
}

/// The abstract state of an engine.
pub struct EngineView {
    pub device_id: DeviceId,
    pub clock: u64,
    pub current_hash: Option<Seq<u8>>,
    pub current_update: Option<UpdateId>,
    pub suppression: Map<Seq<u8>, u64>,
    pub max_item_bytes: usize,
}

/// A local content with this hash is an echo of a remote write that has not expired.
pub open spec fn is_suppressed(s: EngineView, hash: Seq<u8>, now: u64) -> bool {
    s.suppression.contains_key(hash) && now < s.suppression[hash]
}

/// A local change is taken up: it fits the size limit, is no echo, and is
/// not the current content.
pub open spec fn local_change_applies(s: EngineView, hash: Seq<u8>, size: usize, now: u64) -> bool {
    size <= s.max_item_bytes && !is_suppressed(s, hash, now) && s.current_hash != Some(hash)
}

/// The state after a local change, and whether it was taken up (and broadcast).
pub open spec fn local_step(s: EngineView, hash: Seq<u8>, size: usize, now: u64) -> (
    EngineView,
    bool,
) {
    if local_change_applies(s, hash, size, now) {
        let lamport = (s.clock + 1) as u64;
        (
            EngineView {
                clock: lamport,
                current_hash: Some(hash),
                current_update: Some(UpdateId { lamport, origin: s.device_id }),
                ..s
            },
            true,
        )
    } else {
        (s, false)
    }
}

/// A remote update is considered at all: its origin is the peer it came
/// from, and it fits the size limit.
pub open spec fn remote_acceptable(s: EngineView, from: DeviceId, id: UpdateId, size: usize) -> bool {
    id.origin == from && size <= s.max_item_bytes
}

/// A remote update wins over the current one (Last-Writer-Wins).
pub open spec fn remote_is_newer(s: EngineView, id: UpdateId) -> bool {
    match s.current_update {
        Some(cur) => !id.precedes_or_equals(cur),
        None => true,
    }
}

/// An update could be adopted without any counter overflowing: the local
/// clock and the update's Lamport time lie below `u64::MAX`, and so does the
/// expiry of its suppression.
pub open spec fn adoption_in_range(s: EngineView, id: UpdateId, now: u64) -> bool {
    &&& s.clock < u64::MAX
    &&& id.lamport < u64::MAX
    &&& now + SUPPRESSION_TTL_MS <= u64::MAX
}

/// A remote update is adopted: it is acceptable, newer than the current
/// one, and adopting it overflows no counter.
pub open spec fn remote_adopted(
    s: EngineView,
    from: DeviceId,
    id: UpdateId,
    size: usize,
    now: u64,
) -> bool {
    remote_acceptable(s, from, id, size) && remote_is_newer(s, id) && adoption_in_range(s, id, now)
}

/// The state after a remote update, and whether it was adopted (and applied
/// to the local clipboard). Only an adopted update moves the clock, which
/// then witnesses the update's Lamport time. An older or duplicate update,
/// an unacceptable one, and one whose adoption would overflow a counter
/// (such as a Lamport time of `u64::MAX` from a faulty peer) leave the state
/// as it was.
pub open spec fn remote_step(
    s: EngineView,
    from: DeviceId,
    id: UpdateId,
    hash: Seq<u8>,
    size: usize,
    now: u64,
) -> (EngineView, bool) {
    if remote_adopted(s, from, id, size, now) {
        (
            EngineView {
                clock: witnessed(s.clock, id.lamport),
                current_hash: Some(hash),
                current_update: Some(id),
                suppression: s.suppression.insert(hash, (now + SUPPRESSION_TTL_MS) as u64),
                ..s
            },
            true,
        )
    } else {
        (s, false)
    }
}

/// The clock is no earlier than the Lamport time of the current update.
pub open spec fn clock_covers_current(s: EngineView) -> bool {
    s.current_update matches Some(u) ==> u.lamport <= s.clock
}

/// The state after a heartbeat: expired suppression entries are gone.
pub open spec fn tick_step(s: EngineView, now: u64) -> EngineView {
    EngineView { suppression: unexpired(s.suppression, now), ..s }
}

/// The inputs of a local change on which no counter overflows.
pub open spec fn local_change_in_range(s: EngineView, hash: Seq<u8>, size: usize, now: u64) -> bool {
    local_change_applies(s, hash, size, now) ==> s.clock < u64::MAX
}

/// A heartbeat keeps exactly the suppression entries that have not expired
/// at `now`, each with its expiry, and changes nothing else: afterwards no
/// expired entry remains.
pub proof fn lemma_heartbeat_prunes_exactly_expired(s: EngineView, now: u64)
    ensures
        forall|h: Seq<u8>|
            #[trigger] tick_step(s, now).suppression.contains_key(h) <==> (
            s.suppression.contains_key(h) && now < s.suppression[h]),
        forall|h: Seq<u8>|
            #[trigger] tick_step(s, now).suppression.contains_key(h) ==> tick_step(
                s,
                now,
            ).suppression[h] == s.suppression[h] && now < tick_step(s, now).suppression[h],
        tick_step(s, now).clock == s.clock,
        tick_step(s, now).current_hash == s.current_hash,
        tick_step(s, now).current_update == s.current_update,
        tick_step(s, now).device_id == s.device_id,
        tick_step(s, now).max_item_bytes == s.max_item_bytes,
{
}

/// Last-Writer-Wins, by its inputs: an acceptable update that overflows no
/// counter is adopted exactly when there is no current update, or its
/// Lamport time is later, or the Lamport times tie and its origin is the
/// higher device id. An adopted update becomes current with its hash, moves
/// the clock past both the old clock and its Lamport time, and is
/// suppressed until `now + SUPPRESSION_TTL_MS`, other entries unchanged;
/// an update that is not adopted changes nothing.
pub proof fn lemma_last_writer_wins(
    s: EngineView,
    from: DeviceId,
    id: UpdateId,
    hash: Seq<u8>,
    size: usize,
    now: u64,
)
    requires
        id.origin == from,
        size <= s.max_item_bytes,
        s.clock < u64::MAX,
        id.lamport < u64::MAX,
        now + SUPPRESSION_TTL_MS <= u64::MAX,
    ensures
        ({
            let (t, adopted) = remote_step(s, from, id, hash, size, now);
            &&& adopted == match s.current_update {
                None => true,
                Some(cur) => cur.lamport < id.lamport || (cur.lamport == id.lamport
                    && cur.origin@ < id.origin@),
            }
            &&& adopted ==> {
                &&& t.current_update == Some(id)
                &&& t.current_hash == Some(hash)
                &&& t.clock > s.clock
                &&& t.clock > id.lamport
                &&& t.suppression.contains_key(hash)
                &&& t.suppression[hash] == now + SUPPRESSION_TTL_MS
                &&& forall|h: Seq<u8>|
                    h != hash ==> (#[trigger] t.suppression.contains_key(h)
                        == s.suppression.contains_key(h) && (s.suppression.contains_key(h)
                        ==> t.suppression[h] == s.suppression[h]))
                &&& t.device_id == s.device_id
                &&& t.max_item_bytes == s.max_item_bytes
            }
            &&& !adopted ==> t == s
        }),
{
    if let Some(cur) = s.current_update {
        lemma_update_order_by_lamport_then_origin(id, cur);
        lemma_update_order_by_lamport_then_origin(cur, id);
        lemma_device_id_view_injective(id.origin, cur.origin);
    }
}

/// A remote update from a peer other than its origin, or over the size
/// limit, changes nothing and is not applied.
pub proof fn lemma_spoofed_or_oversized_update_ignored(
    s: EngineView,
    from: DeviceId,
    id: UpdateId,
    hash: Seq<u8>,
    size: usize,
    now: u64,
)
    requires
        id.origin != from || size > s.max_item_bytes,
    ensures
        remote_step(s, from, id, hash, size, now) == (s, false),
{
}

/// A local change, by its inputs: it is taken up exactly when it fits the
/// size limit, is not a live echo, and differs from the current content.
/// Taken up, it advances the clock by one and becomes the current update
/// from this device at that time, with its hash; the suppression map is
/// never touched. Not taken up, it changes nothing.
pub proof fn lemma_local_change_rule(s: EngineView, hash: Seq<u8>, size: usize, now: u64)
    requires
        s.clock < u64::MAX,
    ensures
        ({
            let (t, taken) = local_step(s, hash, size, now);
            &&& taken == (size <= s.max_item_bytes && !(s.suppression.contains_key(hash) && now
                < s.suppression[hash]) && s.current_hash != Some(hash))
            &&& taken ==> {
                &&& t.clock == s.clock + 1
                &&& t.current_update == Some(UpdateId { lamport: t.clock, origin: s.device_id })
                &&& t.current_hash == Some(hash)
                &&& t.suppression == s.suppression
                &&& t.device_id == s.device_id
                &&& t.max_item_bytes == s.max_item_bytes
            }
            &&& !taken ==> t == s
        }),
{
}

/// Idempotence: delivering the same remote update a second time applies
/// nothing and changes nothing, the clock included (unless the first
/// delivery came so close to `u64::MAX` that its suppression expiry would
/// overflow, and the second did not).
pub proof fn lemma_remote_update_idempotent(
    s: EngineView,
    from: DeviceId,
    id: UpdateId,
    hash: Seq<u8>,
    size: usize,
    first_ms: u64,
    second_ms: u64,
)
    requires
        first_ms + SUPPRESSION_TTL_MS <= u64::MAX || second_ms + SUPPRESSION_TTL_MS > u64::MAX,
    ensures
        ({
            let s1 = remote_step(s, from, id, hash, size, first_ms).0;
            let (s2, applied) = remote_step(s1, from, id, hash, size, second_ms);
            !applied && s2 == s1
        }),
{
}

/// Convergence: two remote updates with distinct ids, delivered in either
/// order, leave the same current update and the same current hash, as long
/// as no counter comes near `u64::MAX`.
pub proof fn lemma_remote_updates_commute(
    s: EngineView,
    from1: DeviceId,
    id1: UpdateId,
    hash1: Seq<u8>,
    size1: usize,
    ms1: u64,
    from2: DeviceId,
    id2: UpdateId,
    hash2: Seq<u8>,
    size2: usize,
    ms2: u64,
)
    requires
        id1 != id2,
        s.clock < u64::MAX - 1,
        id1.lamport < u64::MAX - 1,
        id2.lamport < u64::MAX - 1,
        ms1 + SUPPRESSION_TTL_MS <= u64::MAX,
        ms2 + SUPPRESSION_TTL_MS <= u64::MAX,
    ensures
        ({
            let a = remote_step(
                remote_step(s, from1, id1, hash1, size1, ms1).0,
                from2,
                id2,
                hash2,
                size2,
                ms2,
            ).0;
            let b = remote_step(
                remote_step(s, from2, id2, hash2, size2, ms2).0,
                from1,
                id1,
                hash1,
                size1,
                ms1,
            ).0;
            a.current_update == b.current_update && a.current_hash == b.current_hash
        }),
{
    lemma_update_order_total(id1, id2);
    if id1.precedes_or_equals(id2) && id2.precedes_or_equals(id1) {
        lemma_update_order_antisymmetric(id1, id2);
    }
    if let Some(cur) = s.current_update {
        lemma_update_order_total(id1, cur);
        lemma_update_order_total(id2, cur);
        if id1.precedes_or_equals(cur) && cur.precedes_or_equals(id1) {
            lemma_update_order_antisymmetric(id1, cur);
        }
        if id2.precedes_or_equals(cur) && cur.precedes_or_equals(id2) {
            lemma_update_order_antisymmetric(id2, cur);
        }
        if id1.precedes_or_equals(id2) && id2.precedes_or_equals(cur) {
            lemma_update_order_transitive(id1, id2, cur);
        }
        if id2.precedes_or_equals(id1) && id1.precedes_or_equals(cur) {
            lemma_update_order_transitive(id2, id1, cur);
        }
        if cur.precedes_or_equals(id1) && id1.precedes_or_equals(id2) {
            lemma_update_order_transitive(cur, id1, id2);
        }
        if cur.precedes_or_equals(id2) && id2.precedes_or_equals(id1) {
            lemma_update_order_transitive(cur, id2, id1);
        }
    }
}

/// Every device picks the same winner: when two devices hold distinct
/// updates `ia` and `ib` and each receives the other's, both end with the
/// same current update and the same current hash.
pub proof fn lemma_devices_agree_on_winner(
    a: EngineView,
    ia: UpdateId,
    hash_a: Seq<u8>,
    size_a: usize,
    ms_a: u64,
    b: EngineView,
    ib: UpdateId,
    hash_b: Seq<u8>,
    size_b: usize,
    ms_b: u64,
)
    requires
        a.current_update == Some(ia),
        a.current_hash == Some(hash_a),
        b.current_update == Some(ib),
        b.current_hash == Some(hash_b),
        ia != ib,
        remote_acceptable(a, ib.origin, ib, size_b),
        remote_acceptable(b, ia.origin, ia, size_a),
        adoption_in_range(a, ib, ms_a),
        adoption_in_range(b, ia, ms_b),
    ensures
        ({
            let a2 = remote_step(a, ib.origin, ib, hash_b, size_b, ms_a).0;
            let b2 = remote_step(b, ia.origin, ia, hash_a, size_a, ms_b).0;
            a2.current_update == b2.current_update && a2.current_hash == b2.current_hash
        }),
{
    lemma_update_order_total(ia, ib);
    if ia.precedes_or_equals(ib) && ib.precedes_or_equals(ia) {
        lemma_update_order_antisymmetric(ia, ib);
    }
}

/// A heartbeat keeps every echo that is still live at a later time.
pub proof fn lemma_tick_keeps_live_echoes(s: EngineView, hash: Seq<u8>, tick_ms: u64, later: u64)
    requires
        tick_ms <= later,
        is_suppressed(s, hash, later),
    ensures
        is_suppressed(tick_step(s, tick_ms), hash, later),
{
}

/// Deduplication: after a local change is taken up, the same content again
/// is not taken up, and the clock does not move.
pub proof fn lemma_local_change_deduplicated(
    s: EngineView,
    hash: Seq<u8>,
    size: usize,
    first_ms: u64,
    other_size: usize,
    second_ms: u64,
)
    requires
        local_step(s, hash, size, first_ms).1,
    ensures
        ({
            let s1 = local_step(s, hash, size, first_ms).0;
            let (s2, taken) = local_step(s1, hash, other_size, second_ms);
            !taken && s2 == s1
        }),
{
}

/// An event as the step functions see it: a local change, a remote update
/// from a peer, or a heartbeat.
pub enum EngineEvent {
    Local { hash: Seq<u8>, size: usize, now: u64 },
    Remote { from: DeviceId, id: UpdateId, hash: Seq<u8>, size: usize, now: u64 },
    Tick { now: u64 },
}

/// The time at which an event is handled.
pub open spec fn event_time(e: EngineEvent) -> u64 {
    match e {
        EngineEvent::Local { now, .. } => now,
        EngineEvent::Remote { now, .. } => now,
        EngineEvent::Tick { now } => now,
    }
}

/// The state after an event, and whether the event was taken up (a local
/// change broadcast, or a remote update adopted).
pub open spec fn event_step(s: EngineView, e: EngineEvent) -> (EngineView, bool) {
    match e {
        EngineEvent::Local { hash, size, now } => local_step(s, hash, size, now),
        EngineEvent::Remote { from, id, hash, size, now } => remote_step(s, from, id, hash, size, now),
        EngineEvent::Tick { now } => (tick_step(s, now), false),
    }
}

/// The state after a sequence of events.
pub open spec fn run(s: EngineView, events: Seq<EngineEvent>) -> EngineView
    decreases events.len(),
{
    if events.len() == 0 {
        s
    } else {
        event_step(run(s, events.drop_last()), events.last()).0
    }
}

/// No event of the sequence is taken up.
pub open spec fn none_taken(s: EngineView, events: Seq<EngineEvent>) -> bool
    decreases events.len(),
{
    if events.len() == 0 {
        true
    } else {
        none_taken(s, events.drop_last()) && !event_step(run(s, events.drop_last()), events.last()).1
    }
}

/// Through events no later than `until` and no earlier than `since`, a hash
/// suppressed until at least `since + SUPPRESSION_TTL_MS` stays so.
proof fn lemma_suppression_survives(
    s: EngineView,
    events: Seq<EngineEvent>,
    hash: Seq<u8>,
    since: u64,
    until: u64,
)
    requires
        s.suppression.contains_key(hash),
        s.suppression[hash] >= since + SUPPRESSION_TTL_MS,
        until < since + SUPPRESSION_TTL_MS,
        forall|i: int| 0 <= i < events.len() ==> since <= #[trigger] event_time(events[i]) <= until,
    ensures
        run(s, events).suppression.contains_key(hash),
        run(s, events).suppression[hash] >= since + SUPPRESSION_TTL_MS,
    decreases events.len(),
{
    if events.len() > 0 {
        let prefix = events.drop_last();
        assert forall|i: int| 0 <= i < prefix.len() implies since <= #[trigger] event_time(
            prefix[i],
        ) <= until by {
            assert(prefix[i] == events[i]);
        }
        lemma_suppression_survives(s, prefix, hash, since, until);
        assert(event_time(events[events.len() - 1]) <= until);
    }
}

/// Untaken events never change the current content.
proof fn lemma_untaken_events_keep_current(s: EngineView, events: Seq<EngineEvent>)
    requires
        none_taken(s, events),
    ensures
        run(s, events).current_hash == s.current_hash,
        run(s, events).current_update == s.current_update,
    decreases events.len(),
{
    if events.len() > 0 {
        lemma_untaken_events_keep_current(s, events.drop_last());
    }
}

/// No echo, across any later events: once a remote update with content hash
/// `hash` is adopted at `adopted_ms`, the same content changing on the
/// local clipboard is not taken up (so it is never broadcast back) at any
/// time before the suppression has run out, whatever events came between at
/// times from `adopted_ms` on; and at any time at all while no other content
/// has been taken up since.
pub proof fn lemma_adopted_content_is_never_echoed(
    s: EngineView,
    from: DeviceId,
    id: UpdateId,
    hash: Seq<u8>,
    size: usize,
    adopted_ms: u64,
    events: Seq<EngineEvent>,
    local_size: usize,
    local_ms: u64,
)
    requires
        remote_step(s, from, id, hash, size, adopted_ms).1,
        forall|i: int|
            0 <= i < events.len() ==> adopted_ms <= #[trigger] event_time(events[i]) <= local_ms,
    ensures
        adopted_ms <= local_ms < adopted_ms + SUPPRESSION_TTL_MS ==> !local_step(
            run(remote_step(s, from, id, hash, size, adopted_ms).0, events),
            hash,
            local_size,
            local_ms,
        ).1,
        none_taken(remote_step(s, from, id, hash, size, adopted_ms).0, events) ==> !local_step(
            run(remote_step(s, from, id, hash, size, adopted_ms).0, events),
            hash,
            local_size,
            local_ms,
        ).1,
{
    let s1 = remote_step(s, from, id, hash, size, adopted_ms).0;
    if adopted_ms <= local_ms < adopted_ms + SUPPRESSION_TTL_MS {
        lemma_suppression_survives(s1, events, hash, adopted_ms, local_ms);
    }
    if none_taken(s1, events) {
        lemma_untaken_events_keep_current(s1, events);
    }
}

/// A remote update as delivered to an engine: the peer it came from, its
/// id, the hash and size of its content.
pub struct Delivery {
    pub from: DeviceId,
    pub id: UpdateId,
    pub hash: Seq<u8>,
    pub size: usize,
}

/// The state after delivering `ds` in order, the i-th at `times[i]`.
pub open spec fn deliver_all(s: EngineView, ds: Seq<Delivery>, times: Seq<u64>) -> EngineView
    decreases ds.len(),
{
    if ds.len() == 0 {
        s
    } else {
        let d = ds.last();
        remote_step(
            deliver_all(s, ds.drop_last(), times),
            d.from,
            d.id,
            d.hash,
            d.size,
            times[ds.len() - 1],
        ).0
    }
}

/// Delivering acceptable updates to an engine with no current update leaves
/// as current the greatest of them, with its content hash, as long as the
/// clock and Lamport times stay below `bound` and `bound` leaves room for
/// one tick per update.
proof fn lemma_deliver_all_keeps_greatest(
    s: EngineView,
    ds: Seq<Delivery>,
    times: Seq<u64>,
    bound: u64,
)
    requires
        s.current_update is None,
        ds.len() > 0,
        forall|i: int|
            0 <= i < ds.len() ==> remote_acceptable(s, ds[i].from, #[trigger] ds[i].id, ds[i].size),
        s.clock <= bound,
        bound + ds.len() < u64::MAX,
        forall|i: int| 0 <= i < ds.len() ==> (#[trigger] ds[i].id).lamport <= bound,
        forall|i: int| 0 <= i < ds.len() ==> #[trigger] times[i] + SUPPRESSION_TTL_MS <= u64::MAX,
    ensures
        deliver_all(s, ds, times).max_item_bytes == s.max_item_bytes,
        deliver_all(s, ds, times).clock <= bound + ds.len(),
        exists|k: int|
            0 <= k < ds.len() && deliver_all(s, ds, times).current_update == Some(ds[k].id)
                && deliver_all(s, ds, times).current_hash == Some(ds[k].hash) && forall|j: int|
                0 <= j < ds.len() ==> (#[trigger] ds[j].id).precedes_or_equals(ds[k].id),
    decreases ds.len(),
{
    let n = ds.len() as int;
    let prefix = ds.drop_last();
    let d = ds.last();
    assert(ds[n - 1] == d);
    assert(times[n - 1] + SUPPRESSION_TTL_MS <= u64::MAX);
    assert(ds[n - 1].id.lamport <= bound);
    if n == 1 {
        assert(deliver_all(s, prefix, times) == s);
        assert(ds[0].id.precedes_or_equals(ds[0].id));
    } else {
        assert forall|i: int| 0 <= i < prefix.len() implies remote_acceptable(
            s,
            prefix[i].from,
            #[trigger] prefix[i].id,
            prefix[i].size,
        ) by {
            assert(prefix[i] == ds[i]);
            assert(remote_acceptable(s, ds[i].from, ds[i].id, ds[i].size));
        }
        assert forall|i: int| 0 <= i < prefix.len() implies (#[trigger] prefix[i].id).lamport
            <= bound by {
            assert(prefix[i] == ds[i]);
        }
        lemma_deliver_all_keeps_greatest(s, prefix, times, bound);
        let p = deliver_all(s, prefix, times);
        let k0 = choose|k: int|
            0 <= k < prefix.len() && p.current_update == Some(prefix[k].id) && p.current_hash
                == Some(prefix[k].hash) && forall|j: int|
                0 <= j < prefix.len() ==> (#[trigger] prefix[j].id).precedes_or_equals(
                    prefix[k].id,
                );
        let cur = prefix[k0].id;
        assert(prefix[k0] == ds[k0]);
        assert(remote_acceptable(s, ds[n - 1].from, ds[n - 1].id, ds[n - 1].size));
        lemma_update_order_total(d.id, cur);
        if remote_is_newer(p, d.id) {
            assert forall|j: int| 0 <= j < n implies (#[trigger] ds[j].id).precedes_or_equals(
                ds[n - 1].id,
            ) by {
                if j < n - 1 {
                    assert(prefix[j] == ds[j]);
                    assert(prefix[j].id.precedes_or_equals(cur));
                    lemma_update_order_transitive(ds[j].id, cur, d.id);
                } else {
                    assert(ds[j].id.precedes_or_equals(ds[j].id));
                }
            }
        } else {
            assert forall|j: int| 0 <= j < n implies (#[trigger] ds[j].id).precedes_or_equals(
                ds[k0].id,
            ) by {
                if j < n - 1 {
                    assert(prefix[j] == ds[j]);
                    assert(prefix[j].id.precedes_or_equals(cur));
                }
            }
        }
    }
}

/// Convergence: two engines with no current update that receive the same
/// set of acceptable updates with distinct ids, each in its own order and
/// at its own times, end with the same current update, the greatest of
/// the set, and the same current hash, that update's; as long as the
/// clocks and Lamport times stay below `bound`, `bound` leaves room for one
/// tick per update, and no suppression expiry overflows.
pub proof fn lemma_delivery_order_is_irrelevant(
    s1: EngineView,
    ds1: Seq<Delivery>,
    times1: Seq<u64>,
    s2: EngineView,
    ds2: Seq<Delivery>,
    times2: Seq<u64>,
    bound: u64,
)
    requires
        s1.current_update is None,
        s2.current_update is None,
        ds1.len() > 0,
        ds1.to_set() == ds2.to_set(),
        forall|i: int|
            0 <= i < ds1.len() ==> remote_acceptable(s1, ds1[i].from, #[trigger] ds1[i].id, ds1[i].size),
        forall|i: int|
            0 <= i < ds2.len() ==> remote_acceptable(s2, ds2[i].from, #[trigger] ds2[i].id, ds2[i].size),
        forall|i: int, j: int|
            0 <= i < ds1.len() && 0 <= j < ds1.len() && (#[trigger] ds1[i]).id == (
            #[trigger] ds1[j]).id ==> ds1[i] == ds1[j],
        s1.clock <= bound,
        s2.clock <= bound,
        bound + ds1.len() < u64::MAX,
        bound + ds2.len() < u64::MAX,
        forall|i: int| 0 <= i < ds1.len() ==> (#[trigger] ds1[i].id).lamport <= bound,
        forall|i: int| 0 <= i < ds1.len() ==> #[trigger] times1[i] + SUPPRESSION_TTL_MS <= u64::MAX,
        forall|i: int| 0 <= i < ds2.len() ==> #[trigger] times2[i] + SUPPRESSION_TTL_MS <= u64::MAX,
    ensures
        ({
            let a = deliver_all(s1, ds1, times1);
            let b = deliver_all(s2, ds2, times2);
            &&& a.current_update == b.current_update
            &&& a.current_hash == b.current_hash
            &&& exists|k: int|
                0 <= k < ds1.len() && a.current_update == Some(ds1[k].id) && a.current_hash
                    == Some(ds1[k].hash) && forall|j: int|
                    0 <= j < ds1.len() ==> (#[trigger] ds1[j].id).precedes_or_equals(ds1[k].id)
        }),
{
    assert(ds1.to_set().contains(ds1[0]));
    assert(ds2.contains(ds1[0]));
    assert forall|i: int| 0 <= i < ds2.len() implies (#[trigger] ds2[i].id).lamport <= bound by {
        assert(ds2.to_set().contains(ds2[i]));
        assert(ds1.contains(ds2[i]));
    }
    lemma_deliver_all_keeps_greatest(s1, ds1, times1, bound);
    lemma_deliver_all_keeps_greatest(s2, ds2, times2, bound);
    let a = deliver_all(s1, ds1, times1);
    let b = deliver_all(s2, ds2, times2);
    let k1 = choose|k: int|
        0 <= k < ds1.len() && a.current_update == Some(ds1[k].id) && a.current_hash == Some(
            ds1[k].hash,
        ) && forall|j: int|
            0 <= j < ds1.len() ==> (#[trigger] ds1[j].id).precedes_or_equals(ds1[k].id);
    let k2 = choose|k: int|
        0 <= k < ds2.len() && b.current_update == Some(ds2[k].id) && b.current_hash == Some(
            ds2[k].hash,
        ) && forall|j: int|
            0 <= j < ds2.len() ==> (#[trigger] ds2[j].id).precedes_or_equals(ds2[k].id);
    let x1 = ds1[k1];
    let x2 = ds2[k2];
    assert(ds1.to_set().contains(x1));
    assert(ds2.contains(x1));
    let j2 = choose|j: int| 0 <= j < ds2.len() && ds2[j] == x1;
    assert(ds2[j2].id.precedes_or_equals(x2.id));
    assert(ds2.to_set().contains(x2));
    assert(ds1.contains(x2));
    let j1 = choose|j: int| 0 <= j < ds1.len() && ds1[j] == x2;
    assert(ds1[j1].id.precedes_or_equals(x1.id));
    lemma_update_order_antisymmetric(x1.id, x2.id);
    assert(ds1[k1] == ds1[j1]);
}

/// The pure sans-I/O state machine that coordinates clipboard synchronization.
pub struct Engine {
    device_id: DeviceId,
    clock: LamportClock,
    current_hash: Option<[u8; 32]>,
    current_update: Option<UpdateId>,
    suppression: SuppressionMap,
    max_item_bytes: usize,
}

/// The bytes of an optional hash.
pub open spec fn hash_view(h: Option<[u8; 32]>) -> Option<Seq<u8>> {
    match h {
        Some(a) => Some(a@),
        None => None,
    }
}

impl View for Engine {
    type V = EngineView;

    closed spec fn view(&self) -> EngineView {
        EngineView {
            device_id: self.device_id,
            clock: self.clock@,
            current_hash: hash_view(self.current_hash),
            current_update: self.current_update,
            suppression: self.suppression@,
            max_item_bytes: self.max_item_bytes,
        }
    }
}

impl Engine {
    /// The engine's suppression map is well formed.
    pub closed spec fn wf(&self) -> bool {
        &&& self.suppression.wf()
        &&& clock_covers_current(self@)
    }

    /// The clock is no earlier than the current update's Lamport time.
    proof fn lemma_clock_covers_current(&self)
        requires
            self.wf(),
        ensures
            clock_covers_current(self@),
    {
    }

    /// Create a new sync engine for the given local device ID.
    pub fn new(device_id: DeviceId) -> (r: Engine)
        ensures
            r.wf(),
            r@ == (EngineView {
                device_id,
                clock: 0,
                current_hash: None,
                current_update: None,
                suppression: Map::empty(),
                max_item_bytes: DEFAULT_MAX_ITEM_BYTES,
            }),
    {
        Engine {
            device_id,
            clock: LamportClock::new(),
            current_hash: None,
            current_update: None,
            suppression: SuppressionMap::new(),
            max_item_bytes: DEFAULT_MAX_ITEM_BYTES,
        }
    }

    /// Configure a custom maximum clip size limit in bytes.
    pub fn with_max_item_bytes(self, max: usize) -> (r: Engine)
        requires
            self.wf(),
        ensures
            r.wf(),
            r@ == (EngineView { max_item_bytes: max, ..self@ }),
    {
        let mut e = self;
        e.max_item_bytes = max;
        e
    }

    /// Current logical clock counter.
    pub fn clock(&self) -> (r: u64)
        ensures
            r == self@.clock,
    {
        self.clock.get()
    }

    /// Number of entries currently in the echo suppression map.
    pub fn suppression_count(&self) -> (r: usize)
        requires
            self.wf(),
        ensures
            r == self@.suppression.dom().len(),
    {
        self.suppression.len()
    }

    /// Handle a local clipboard change event.
    ///
    /// Content that exceeds the size limit, matches an unexpired echo or
    /// equals the current content is ignored. New content advances the clock,
    /// becomes the current content, and is broadcast in a `ClipUpdate` from
    /// this device at the new clock value.
    pub fn on_local_change(&mut self, content: ClipContent, now_ms: u64) -> (actions: Vec<Action>)
        requires
            old(self).wf(),
            local_change_in_range(old(self)@, content.hash_view(), content.byte_len(), now_ms),
        ensures
            final(self).wf(),
            final(self)@ == local_step(
                old(self)@,
                content.hash_view(),
                content.byte_len(),
                now_ms,
            ).0,
            if local_step(old(self)@, content.hash_view(), content.byte_len(), now_ms).1 {
                &&& actions@.len() == 1
                &&& actions@[0] matches Action::Broadcast(
                    Message::ClipUpdate { update_id, origin, lamport, created_at_ms, content: sent },
                )
                &&& (update_id >> 76u128) & 0xfu128 == 4
                &&& (update_id >> 62u128) & 0x3u128 == 2
                &&& origin == old(self)@.device_id
                &&& lamport == final(self)@.clock
                &&& created_at_ms == now_ms
                &&& sent == content
            } else {
                actions@.len() == 0
            },
            final(self)@.clock >= old(self)@.clock,
            final(self)@.suppression == old(self)@.suppression,
            actions@.len() <= 1,
            actions@.len() == 0 ==> final(self)@ == old(self)@,
            forall|i: int| 0 <= i < actions@.len() ==> !(actions@[i] is ApplyToClipboard),
            content.byte_len() > old(self)@.max_item_bytes ==> actions@.len() == 0,
    {
        if content.byte_size() > self.max_item_bytes {
            return Vec::new();
        }
        let hash = content.content_hash();
        self.on_local_change_with_hash(content, hash, now_ms)
    }

    /// Handle a local clipboard change event whose content has the hash
    /// `hash`, as `on_local_change` does once it has hashed the content.
    pub fn on_local_change_with_hash(&mut self, content: ClipContent, hash: [u8; 32], now_ms: u64) -> (actions: Vec<Action>)
        requires
            old(self).wf(),
            local_change_in_range(old(self)@, hash@, content.byte_len(), now_ms),
        ensures
            final(self).wf(),
            final(self)@ == local_step(old(self)@, hash@, content.byte_len(), now_ms).0,
            if local_step(old(self)@, hash@, content.byte_len(), now_ms).1 {
                &&& actions@.len() == 1
                &&& actions@[0] matches Action::Broadcast(
                    Message::ClipUpdate { update_id, origin, lamport, created_at_ms, content: sent },
                )
                &&& (update_id >> 76u128) & 0xfu128 == 4
                &&& (update_id >> 62u128) & 0x3u128 == 2
                &&& origin == old(self)@.device_id
                &&& lamport == final(self)@.clock
                &&& created_at_ms == now_ms
                &&& sent == content
            } else {
                actions@.len() == 0
            },
    {
        if content.byte_size() > self.max_item_bytes {
            return Vec::new();
        }
        match self.suppression.expiry_of(&hash) {
            Some(expires_at) => {
                if now_ms < expires_at {
                    return Vec::new();
                }
            },
            None => {},
        }
        let duplicate = match &self.current_hash {
            Some(h) => hashes_equal(h, &hash),
            None => false,
        };
        if duplicate {
            return Vec::new();
        }
        let lamport = self.clock.tick();
        self.current_hash = Some(hash);
        self.current_update = Some(UpdateId { lamport, origin: self.device_id });
        let update_msg = Message::ClipUpdate {
            update_id: random_uuid(),
            origin: self.device_id,
            lamport,
            created_at_ms: now_ms,
            content,
        };
        vec![Action::Broadcast(update_msg)]
    }

    /// Handle an update message received from peer `from`.
    ///
    /// Messages other than `ClipUpdate`, updates whose origin is not the
    /// sender, oversized updates, and updates no newer than the current one
    /// (Last-Writer-Wins: Lamport time, then origin) are ignored: nothing
    /// changes. So is an update whose adoption would overflow a counter,
    /// such as one with a Lamport time of `u64::MAX`. A newer update advances
    /// the clock past its Lamport time, becomes current, has its hash
    /// suppressed for `SUPPRESSION_TTL_MS`, and its content is applied to the
    /// clipboard. A remote update is never broadcast again.
    pub fn on_remote_update(&mut self, from: DeviceId, message: Message, now_ms: u64) -> (actions:
        Vec<Action>)
        requires
            old(self).wf(),
        ensures
            final(self).wf(),
            match message {
                Message::ClipUpdate { origin, lamport, content, .. } => {
                    let step = remote_step(
                        old(self)@,
                        from,
                        UpdateId { lamport, origin },
                        content.hash_view(),
                        content.byte_len(),
                        now_ms,
                    );
                    &&& final(self)@ == step.0
                    &&& if step.1 {
                        actions@ == seq![Action::ApplyToClipboard(content)]
                    } else {
                        actions@.len() == 0
                    }
                    &&& (remote_acceptable(old(self)@, from, UpdateId { lamport, origin }, content.byte_len())
                        && lamport < u64::MAX && now_ms + SUPPRESSION_TTL_MS <= u64::MAX
                        && old(self)@.clock < u64::MAX) ==> final(self)@.clock >= lamport
                },
                _ => final(self)@ == old(self)@ && actions@.len() == 0,
            },
            final(self)@.clock >= old(self)@.clock,
            forall|i: int| 0 <= i < actions@.len() ==> !(actions@[i] is Broadcast),
    {
        let hash = match &message {
            Message::ClipUpdate { origin, content, .. } => {
                if *origin != from || content.byte_size() > self.max_item_bytes {
                    return Vec::new();
                }
                content.content_hash()
            },
            _ => {
                return Vec::new();
            },
        };
        self.on_remote_update_with_hash(from, message, hash, now_ms)
    }

    /// Handle an update message from peer `from` whose content (for a
    /// `ClipUpdate`) has the hash `hash`, as `on_remote_update` does once it
    /// has hashed the content.
    pub fn on_remote_update_with_hash(
        &mut self,
        from: DeviceId,
        message: Message,
        hash: [u8; 32],
        now_ms: u64,
    ) -> (actions: Vec<Action>)
        requires
            old(self).wf(),
        ensures
            final(self).wf(),
            match message {
                Message::ClipUpdate { origin, lamport, content, .. } => {
                    let step = remote_step(
                        old(self)@,
                        from,
                        UpdateId { lamport, origin },
                        hash@,
                        content.byte_len(),
                        now_ms,
                    );
                    &&& final(self)@ == step.0
                    &&& if step.1 {
                        actions@ == seq![Action::ApplyToClipboard(content)]
                    } else {
                        actions@.len() == 0
                    }
                },
                _ => final(self)@ == old(self)@ && actions@.len() == 0,
            },
    {
        proof {
            self.lemma_clock_covers_current();
        }
        match message {
            Message::ClipUpdate { origin, lamport, content, .. } => {
                if origin != from {
                    return Vec::new();
                }
                if content.byte_size() > self.max_item_bytes {
                    return Vec::new();
                }
                let remote_id = UpdateId { lamport, origin };
                let older = match &self.current_update {
                    Some(cur) => remote_id.is_at_most(cur),
                    None => false,
                };
                if older {
                    return Vec::new();
                }
                if self.clock.get() == u64::MAX || lamport == u64::MAX || now_ms > u64::MAX
                    - SUPPRESSION_TTL_MS {
                    return Vec::new();
                }
                self.clock.witness(lamport);
                self.current_hash = Some(hash);
                self.current_update = Some(remote_id);
                self.suppression.insert(hash, now_ms + SUPPRESSION_TTL_MS);
                vec![Action::ApplyToClipboard(content)]
            },
            _ => Vec::new(),
        }
    }

    /// Periodic heartbeat: prunes expired entries from the echo suppression
    /// map, so that memory stays bounded. Emits no action.
    pub fn tick(&mut self, now_ms: u64) -> (actions: Vec<Action>)
        requires
            old(self).wf(),
        ensures
            final(self).wf(),
            final(self)@ == tick_step(old(self)@, now_ms),
            actions@.len() == 0,
    {
        self.suppression.retain_unexpired(now_ms);
        Vec::new()
    }
}

} // verus!
