//! The node-ID allocator.
//!
//! A single, non-redundant allocator. Both allocation message versions are
//! served: 1.0 for low-MTU transports such as Classic CAN, which names a node by
//! a 48-bit hash, and 2.0 for high-MTU transports, which carries the full unique
//! ID.
//!
//! Messages from other allocators, which come from a source that is not
//! anonymous, are ignored.

use std::collections::{HashMap, VecDeque};
use std::time::Instant;

use vstd::prelude::*;

use crate::clock::{self, SystemClock};
use crate::pnp::db::{self, AllocationDb, AllocationEntry, AllocationRow, Table};
use crate::text;

verus! {

/// Minimum time that must elapse between successive GetInfo requests to the same
/// node, in nanoseconds. It keeps a node that does not implement GetInfo from
/// being asked over and over.
pub const GET_INFO_RETRY_COOLDOWN: u128 = 60_000_000_000;

// ─── messages ────────────────────────────────────────────────────────────────

/// `uavcan.node.ID.1.0`.
#[derive(Debug, Clone, Copy, PartialEq, Eq, Structural)]
pub struct NodeId {
    pub value: u16,
}

/// `uavcan.pnp.NodeIDAllocationData.2.0`.
#[derive(Debug, Clone, Copy)]
pub struct AllocationDataV2 {
    pub node_id: NodeId,
    pub unique_id: [u8; 16],
}

/// `uavcan.pnp.NodeIDAllocationData.1.0`.
#[derive(Debug, Clone)]
pub struct AllocationDataV1 {
    pub unique_id_hash: u64,
    /// Empty in a request; the assigned ID in a response.
    pub allocated_node_id: Vec<NodeId>,
}

/// Single-allocator node-ID assignment service.
pub struct PnpAllocator {
    db: AllocationDb,
    local_node_id: u16,
    max_node_id: u16,
    /// Node IDs that need a GetInfo request for their full unique ID.
    get_info_queue: VecDeque<u16>,
    /// When a GetInfo request was last queued for a node.
    recently_queried: HashMap<u16, u128>,
    clock: SystemClock,
}

// ─── what the allocator does ─────────────────────────────────────────────────

/// Whether a node ID other than the local one is known for the unique ID written
/// `hex`.
pub open spec fn knows_hex(rows: Map<i64, AllocationRow>, local: u16, hex: Seq<char>) -> bool {
    exists|id: u16| db::names_hex(rows, Some(local), id, hex)
}

/// Whether a node ID other than the local one is known for the hash `hash`.
pub open spec fn knows_hash(rows: Map<i64, AllocationRow>, local: u16, hash: i64) -> bool {
    exists|id: u16| db::names_hash(rows, Some(local), id, hash)
}

/// What a request with a unique ID does to the table, and the node ID it is
/// answered with: the first recorded one that is known for this unique ID, or else the
/// lowest free one, which is recorded; no answer when none is free. The local ID
/// is never the answer.
///
/// The unique ID of zeros gets no answer: its row could not be told from that of a
/// node whose unique ID is not known, so no later request could find it.
pub open spec fn v2_outcome(
    before: Table,
    after: Table,
    local: u16,
    max: u16,
    uid: Seq<u8>,
    id: Option<u16>,
) -> bool {
    let hex = text::hex(uid);
    if hex == db::zero_hex() {
        id is None && after == before
    } else if knows_hex(before.rows, local, hex) {
        db::finds_hex(before, Some(local), hex, id) && after == before
    } else {
        &&& db::is_next_free(before.rows, seq![local], max, id)
        &&& match id {
            Some(n) => db::inserted(before, after, n as i64, hex, None),
            None => after == before,
        }
    }
}

/// What a request with a hash does to the table, and the node ID it is answered
/// with: the first recorded one that is known for this hash, or else the lowest free one,
/// which is recorded; no answer when none is free. The local ID is never the
/// answer.
pub open spec fn v1_outcome(
    before: Table,
    after: Table,
    local: u16,
    max: u16,
    hash: u64,
    id: Option<u16>,
) -> bool {
    if knows_hash(before.rows, local, db::signed(hash)) {
        db::finds_hash(before, Some(local), db::signed(hash), id) && after == before
    } else {
        &&& db::is_next_free(before.rows, seq![local], max, id)
        &&& match id {
            Some(n) => db::inserted(
                before,
                after,
                n as i64,
                text::hex(db::hash_bytes(hash)),
                Some(db::signed(hash)),
            ),
            None => after == before,
        }
    }
}

/// Whether the table shows only a placeholder for the unique ID of a node.
pub open spec fn lacks_unique_id(rows: Map<i64, AllocationRow>, node_id: u16) -> bool {
    let k = node_id as i64;
    &&& rows.contains_key(k)
    &&& db::is_readable(rows[k])
    &&& db::is_placeholder(db::text_or_empty(rows[k].unique_id_hex), rows[k].pseudo_unique_id->0)
}

/// Whether a node may be asked for its unique ID at time `now`.
pub open spec fn may_query(queried: Map<u16, u128>, node_id: u16, now: u128) -> bool {
    queried.contains_key(node_id) ==> clock::has_elapsed(
        queried[node_id],
        now,
        GET_INFO_RETRY_COOLDOWN,
    )
}

impl PnpAllocator {
    /// The allocation database.
    pub closed spec fn database(&self) -> AllocationDb {
        self.db
    }

    /// The rows of the allocation table.
    pub open spec fn rows(&self) -> Map<i64, AllocationRow> {
        self.database().rows()
    }

    /// What the allocation table holds.
    pub open spec fn table(&self) -> Table {
        self.database().table()
    }

    /// The allocator's own node ID.
    pub closed spec fn local(&self) -> u16 {
        self.local_node_id
    }

    /// The highest node ID that may be assigned.
    pub closed spec fn max(&self) -> u16 {
        self.max_node_id
    }

    /// The nodes waiting for a GetInfo request, first come first.
    pub closed spec fn queue(&self) -> Seq<u16> {
        self.get_info_queue@
    }

    /// When a GetInfo request was last queued for a node.
    pub closed spec fn queried(&self) -> Map<u16, u128> {
        self.recently_queried@
    }

    /// The latest reading of the allocator's clock.
    pub closed spec fn reading(&self) -> u128 {
        self.clock.latest()
    }

    /// When the allocator's clock was started.
    pub closed spec fn started(&self) -> Instant {
        self.clock.origin()
    }

    /// Whether the allocator is the one it was `before`, with a later state of
    /// its database.
    pub open spec fn continues(&self, before: &PnpAllocator) -> bool {
        &&& self.local() == before.local()
        &&& self.max() == before.max()
        &&& self.started() == before.started()
        &&& self.database().is_later_than(&before.database())
    }

    /// Whether the requests to send, the times they were queued and the latest
    /// reading of the clock are the same.
    pub open spec fn same_queries(&self, before: &PnpAllocator) -> bool {
        &&& self.reading() == before.reading()
        &&& self.queue() == before.queue()
        &&& self.queried() == before.queried()
    }

    /// Whether nothing disturbed the database since it was `before`.
    pub open spec fn is_undisturbed_since(&self, before: &PnpAllocator) -> bool {
        self.database().is_undisturbed_since(&before.database())
    }

    /// Create a new allocator.
    ///
    /// * `db` – the opened allocation database.
    /// * `local_node_id` – the node ID of the allocator itself (reserved, never assigned).
    /// * `max_node_id` – highest assignable node ID (127 for CAN, 65534 for UDP/Serial).
    pub fn new(db: AllocationDb, local_node_id: u16, max_node_id: u16) -> (allocator: Self)
        ensures
            allocator.local() == local_node_id,
            allocator.max() == max_node_id,
            allocator.queue() == Seq::<u16>::empty(),
            allocator.queried() == Map::<u16, u128>::empty(),
            allocator.reading() == 0,
            clock::is_moment(allocator.started()),
            allocator.database().is_later_than(&db),
            allocator.database().is_undisturbed_since(&db) ==> db::reserved_in(
                db.table(),
                allocator.table(),
                local_node_id as i64,
            ),
    {
        let mut db = db;
        let _ = db.record_static_node(local_node_id);
        PnpAllocator {
            db,
            local_node_id,
            max_node_id,
            get_info_queue: VecDeque::new(),
            recently_queried: HashMap::new(),
            clock: SystemClock::new(),
        }
    }

    /// Process a v2 (`NodeIDAllocationData.2.0`) allocation message.
    ///
    /// Returns `Some(response)` when an allocation was performed. Returns `None`
    /// for allocator-to-allocator messages or when allocation fails: no ID is free,
    /// the database refuses the row, or the unique ID is the one of zeros, which
    /// stands for no node.
    pub fn on_allocation_v2(&mut self, msg: &AllocationDataV2, source: Option<u16>) -> (response:
        Option<AllocationDataV2>)
        ensures
            served_v2(old(self), final(self), msg.unique_id@, source, response),
    {
        if source.is_some() {
            return None;
        }
        if db::is_zero_id(&msg.unique_id) {
            return None;
        }
        let local: u16 = self.local_node_id;
        let node_id: u16 = match self.db.find_other_by_unique_id(&msg.unique_id, local) {
            Some(existing) => existing,
            None => {
                let reserved: [u16; 1] = [local];
                assert(reserved@ =~= seq![local]);
                assert(reserved@[0] == local);
                let new_id: u16 = match self.db.next_free_id(&reserved, self.max_node_id) {
                    Some(id) => id,
                    None => {
                        return None;
                    },
                };
                match self.db.insert_v2(new_id, &msg.unique_id) {
                    Ok(_) => {},
                    Err(_) => {
                        return None;
                    },
                }
                assert(self.database().is_conforming() ==> db::holds_hex(
                    self.rows(),
                    new_id as i64,
                    text::hex(msg.unique_id@),
                ));
                new_id
            },
        };
        Some(AllocationDataV2 { node_id: NodeId { value: node_id }, unique_id: msg.unique_id })
    }

    /// Process a v1 (`NodeIDAllocationData.1.0`) allocation message.
    ///
    /// Returns `Some(response)` when an allocation was performed.
    pub fn on_allocation_v1(&mut self, msg: &AllocationDataV1, source: Option<u16>) -> (response:
        Option<AllocationDataV1>)
        ensures
            served_v1(
                old(self),
                final(self),
                msg.unique_id_hash,
                msg.allocated_node_id@.len() == 0,
                source,
                response,
            ),
    {
        if source.is_some() {
            return None;
        }
        if msg.allocated_node_id.len() != 0 {
            return None;
        }
        let hash: u64 = msg.unique_id_hash;
        let local: u16 = self.local_node_id;
        let node_id: u16 = match self.db.find_other_by_hash(hash, local) {
            Some(existing) => existing,
            None => {
                let reserved: [u16; 1] = [local];
                assert(reserved@ =~= seq![local]);
                assert(reserved@[0] == local);
                let new_id: u16 = match self.db.next_free_id(&reserved, self.max_node_id) {
                    Some(id) => id,
                    None => {
                        return None;
                    },
                };
                match self.db.insert_v1(new_id, hash) {
                    Ok(_) => {},
                    Err(_) => {
                        return None;
                    },
                }
                assert(self.database().is_conforming() ==> db::holds_hash(
                    self.rows(),
                    new_id as i64,
                    db::signed(hash),
                ));
                new_id
            },
        };
        let mut allocated_node_id: Vec<NodeId> = Vec::new();
        allocated_node_id.push(NodeId { value: node_id });
        Some(AllocationDataV1 { unique_id_hash: hash, allocated_node_id })
    }

    /// Notify the allocator that a node has been observed via heartbeat, now: do what
    /// [`on_heartbeat_at`](PnpAllocator::on_heartbeat_at) does at a new reading of the
    /// clock.
    pub fn on_heartbeat(&mut self, node_id: u16)
        ensures
            final(self).reading() >= old(self).reading(),
            heard_at(old(self), final(self), node_id, final(self).reading()),
            exists|reading: u128| #[trigger] heard_now(old(self), final(self), node_id, reading),
    {
        let now: u128 = self.clock.nanos();
        let ghost reading = choose|reading: u128| #[trigger]
            clock::is_reading(old(self).started(), reading) && clock::is_time(
                old(self).reading(),
                reading,
                now,
            );
        self.on_heartbeat_at(node_id, now);
        assert(heard_now(old(self), self, node_id, reading));
    }

    /// Notify the allocator that a node was observed via heartbeat at time `now`.
    ///
    /// Records the node as a static node if not already in the allocation table,
    /// preventing its ID from being assigned to another node.
    ///
    /// If the stored unique ID is still a placeholder (all zeros for a static
    /// node, or a 48-bit hash for a v1 node), a GetInfo request is queued so that
    /// the transport worker can retrieve the real unique ID, unless one was queued
    /// within [`GET_INFO_RETRY_COOLDOWN`].
    pub fn on_heartbeat_at(&mut self, node_id: u16, now: u128)
        ensures
            final(self).reading() == old(self).reading(),
            heard_at(old(self), final(self), node_id, now),
    {
        let _ = self.db.record_static_node(node_id);
        let needs_query: bool = match self.db.find_by_node_id(node_id) {
            Some(entry) => entry.needs_get_info(),
            None => false,
        };
        let ghost waiting = self.get_info_queue@;
        if needs_query {
            let cooldown_elapsed: bool = match self.recently_queried.get(&node_id) {
                Some(queried) => clock::elapsed_at_least(*queried, now, GET_INFO_RETRY_COOLDOWN),
                None => true,
            };
            if cooldown_elapsed {
                self.get_info_queue.push_back(node_id);
                self.recently_queried.insert(node_id, now);
                assert(self.queue().len() == waiting.len() + 1);
            }
        }
    }

    /// Pop the next node ID that needs a GetInfo service request, if any.
    ///
    /// The transport worker calls this once per loop iteration when no
    /// GetInfo request of the allocator is already in flight.
    pub fn pop_get_info_request(&mut self) -> (node_id: Option<u16>)
        ensures
            final(self).database() == old(self).database(),
            final(self).local() == old(self).local(),
            final(self).max() == old(self).max(),
            final(self).started() == old(self).started(),
            final(self).queried() == old(self).queried(),
            final(self).reading() == old(self).reading(),
            match node_id {
                Some(id) => {
                    &&& old(self).queue().len() > 0
                    &&& id == old(self).queue()[0]
                    &&& final(self).queue() == old(self).queue().skip(1)
                },
                None => old(self).queue().len() == 0 && final(self).queue() == old(self).queue(),
            },
    {
        self.get_info_queue.pop_front()
    }

    /// Report the result of a GetInfo request of the allocator.
    ///
    /// On success (`uid = Some(…)`) the full unique ID is persisted in the
    /// allocation database. On failure or timeout (`uid = None`) the node may be
    /// asked again on its next heartbeat rather than after the cooldown.
    pub fn on_get_info_result(&mut self, node_id: u16, uid: Option<[u8; 16]>)
        ensures
            result_reported(
                old(self),
                final(self),
                node_id,
                match uid {
                    Some(uid) => Some(uid@),
                    None => None,
                },
            ),
    {
        match uid {
            Some(uid) => {
                let _ = self.db.update_unique_id(node_id, &uid);
            },
            None => {
                self.recently_queried.remove(&node_id);
            },
        }
    }

    /// Return all entries in the allocation table.
    pub fn list_allocations(&mut self) -> (entries: Vec<AllocationEntry>)
        ensures
            listed(old(self), final(self), entries@),
    {
        self.db.list_all()
    }
}

/// What serving a request with a unique ID does. Only anonymous requests are
/// served, and none with the unique ID of zeros. A response echoes the unique ID, and
/// its node ID is that of a row with this unique ID, and never the local one.
pub open spec fn served_v2(
    before: &PnpAllocator,
    after: &PnpAllocator,
    uid: Seq<u8>,
    source: Option<u16>,
    response: Option<AllocationDataV2>,
) -> bool {
    &&& after.continues(before)
    &&& after.same_queries(before)
    &&& source is Some || text::hex(uid) == db::zero_hex() ==> response is None && *after
        == *before
    &&& response matches Some(r) ==> r.unique_id@ == uid && r.node_id.value != before.local()
    &&& after.database().is_conforming() ==> (response matches Some(r) ==> db::names_hex(
        after.rows(),
        Some(before.local()),
        r.node_id.value,
        text::hex(uid),
    ))
    &&& source is None && after.is_undisturbed_since(before) ==> v2_outcome(
        before.table(),
        after.table(),
        before.local(),
        before.max(),
        uid,
        match response {
            Some(r) => Some(r.node_id.value),
            None => None,
        },
    )
}

/// What serving a request with a hash does. Only anonymous requests are served,
/// and no responses of other allocators. A response echoes the hash, and its node
/// ID is that of a row with this hash, and never the local one.
pub open spec fn served_v1(
    before: &PnpAllocator,
    after: &PnpAllocator,
    hash: u64,
    is_request: bool,
    source: Option<u16>,
    response: Option<AllocationDataV1>,
) -> bool {
    &&& after.continues(before)
    &&& after.same_queries(before)
    &&& source is Some || !is_request ==> response is None && *after == *before
    &&& response matches Some(r) ==> {
        &&& r.unique_id_hash == hash
        &&& r.allocated_node_id@.len() == 1
        &&& r.allocated_node_id@[0].value != before.local()
    }
    &&& after.database().is_conforming() ==> (response matches Some(r) ==> db::names_hash(
        after.rows(),
        Some(before.local()),
        r.allocated_node_id@[0].value,
        db::signed(hash),
    ))
    &&& source is None && is_request && after.is_undisturbed_since(before) ==> v1_outcome(
        before.table(),
        after.table(),
        before.local(),
        before.max(),
        hash,
        match response {
            Some(r) => Some(r.allocated_node_id@[0].value),
            None => None,
        },
    )
}

/// What the result of a GetInfo request does: a unique ID is recorded, and without
/// one the node may be asked again at once.
pub open spec fn result_reported(
    before: &PnpAllocator,
    after: &PnpAllocator,
    node_id: u16,
    uid: Option<Seq<u8>>,
) -> bool {
    &&& after.continues(before)
    &&& after.queue() == before.queue()
    &&& after.reading() == before.reading()
    &&& match uid {
        Some(uid) => {
            &&& after.queried() == before.queried()
            &&& after.is_undisturbed_since(before) ==> after.table() == db::with_unique_id(
                before.table(),
                node_id as i64,
                text::hex(uid),
            )
        },
        None => {
            &&& after.queried() == before.queried().remove(node_id)
            &&& after.database() == before.database()
        },
    }
}

/// What listing the table does.
pub open spec fn listed(
    before: &PnpAllocator,
    after: &PnpAllocator,
    entries: Seq<AllocationEntry>,
) -> bool {
    &&& after.continues(before)
    &&& after.same_queries(before)
    &&& after.database().is_conforming() ==> db::lists(
        entries,
        after.rows(),
        after.is_undisturbed_since(before),
    )
    &&& after.is_undisturbed_since(before) ==> after.table() == before.table()
}

/// What hearing a heartbeat of a node at time `now` does: the node gets a row, and
/// a GetInfo request is queued when its unique ID is missing and the cooldown has
/// passed.
pub open spec fn heard_at(
    before: &PnpAllocator,
    after: &PnpAllocator,
    node_id: u16,
    now: u128,
) -> bool {
    &&& after.continues(before)
    &&& after.is_undisturbed_since(before) ==> db::reserved_in(
        before.table(),
        after.table(),
        node_id as i64,
    ) && (lacks_unique_id(after.rows(), node_id) && may_query(before.queried(), node_id, now)
        ==> after.queue() != before.queue())
    &&& if after.queue() == before.queue() {
        after.queried() == before.queried()
    } else {
        &&& may_query(before.queried(), node_id, now)
        &&& after.database().is_conforming() ==> lacks_unique_id(after.rows(), node_id)
        &&& after.queue() == before.queue().push(node_id)
        &&& after.queried() == before.queried().insert(node_id, now)
    }
}

/// What hearing a heartbeat of a node now does, when the machine's clock shows
/// `reading`: it is heard at that time, or at the latest reading where that lies ahead.
pub open spec fn heard_now(
    before: &PnpAllocator,
    after: &PnpAllocator,
    node_id: u16,
    reading: u128,
) -> bool {
    &&& clock::is_reading(before.started(), reading)
    &&& clock::is_time(before.reading(), reading, after.reading())
    &&& heard_at(before, after, node_id, after.reading())
}

// ─── laws ────────────────────────────────────────────────────────────────────

/// Whether every key of the table is a node ID.
pub open spec fn keys_are_ids(rows: Map<i64, AllocationRow>) -> bool {
    forall|k: i64| #[trigger] rows.contains_key(k) ==> 0 <= k <= u16::MAX
}

/// Whether every row of `before` is in `after`, unchanged.
pub open spec fn keeps_rows(
    before: Table,
    after: Table,
) -> bool {
    forall|k: i64| #[trigger]
        before.rows.contains_key(k) ==> after.rows.contains_key(k) && after.rows[k] == before.rows[k]
}

/// Every key of the table stays a node ID.
pub proof fn keys_stay_ids(
    before: Table,
    after: Table,
    local: u16,
    max: u16,
    uid: Seq<u8>,
    hash: u64,
    id: Option<u16>,
    node_id: u16,
    hex: Seq<char>,
)
    requires
        keys_are_ids(before.rows),
        ({
            ||| v2_outcome(before, after, local, max, uid, id)
            ||| v1_outcome(before, after, local, max, hash, id)
            ||| db::reserved_in(before, after, node_id as i64)
            ||| after == db::with_unique_id(before, node_id as i64, hex)
        }),
    ensures
        keys_are_ids(after.rows),
{
}

/// No request and no heartbeat changes or removes a row.
pub proof fn rows_are_kept(
    before: Table,
    after: Table,
    local: u16,
    max: u16,
    uid: Seq<u8>,
    hash: u64,
    id: Option<u16>,
    node_id: u16,
)
    ensures
        v2_outcome(before, after, local, max, uid, id) ==> keeps_rows(before, after),
        v1_outcome(before, after, local, max, hash, id) ==> keeps_rows(before, after),
        db::reserved_in(before, after, node_id as i64) ==> keeps_rows(before, after),
{
}

/// A new node ID lies in range, is not the allocator's own, and belonged to no
/// node before.
pub proof fn new_ids_are_free(
    before: Table,
    after: Table,
    local: u16,
    max: u16,
    uid: Seq<u8>,
    hash: u64,
    id: u16,
)
    requires
        ({
            ||| v2_outcome(before, after, local, max, uid, Some(id)) && !knows_hex(
                before.rows,
                local,
                text::hex(uid),
            )
            ||| v1_outcome(before, after, local, max, hash, Some(id)) && !knows_hash(
                before.rows,
                local,
                db::signed(hash),
            )
        }),
    ensures
        1 <= id <= max,
        id != local,
        !before.rows.contains_key(id as i64),
        after.rows.contains_key(id as i64),
{
    assert(seq![local][0] == local);
    assert(seq![local].contains(local));
}

/// A node that is not known is answered whenever some ID is free, with the lowest one: a
/// request with any unique ID but that of zeros, and a request with any hash.
pub proof fn free_ids_are_assigned(
    before: Table,
    after: Table,
    local: u16,
    max: u16,
    uid: Seq<u8>,
    hash: u64,
    answered: Option<u16>,
    id: u16,
)
    requires
        ({
            ||| v2_outcome(before, after, local, max, uid, answered) && exists|i: int|
                0 <= i < uid.len() && #[trigger] uid[i] != 0
            ||| v1_outcome(before, after, local, max, hash, answered)
        }),
        1 <= id <= max,
        id != local,
        !before.rows.contains_key(id as i64),
    ensures
        answered is Some,
        answered->0 != local,
        !before.rows.contains_key(answered->0 as i64) ==> 1 <= answered->0 <= id,
{
    assert(seq![local][0] == local);
    assert(!seq![local].contains(id));
    if v2_outcome(before, after, local, max, uid, answered) && exists|i: int|
        0 <= i < uid.len() && #[trigger] uid[i] != 0 {
        let i = choose|i: int| 0 <= i < uid.len() && #[trigger] uid[i] != 0;
        if text::hex(uid) == db::zero_hex() {
            let zeros = Seq::new(16, |i: int| 0u8);
            assert(text::hex(zeros) =~= db::zero_hex());
            text::hex_is_injective(uid, zeros);
        }
        if !knows_hex(before.rows, local, text::hex(uid)) {
            db::free_ids_are_found(before.rows, seq![local], max, answered, id);
        }
    } else if !knows_hash(before.rows, local, db::signed(hash)) {
        db::free_ids_are_found(before.rows, seq![local], max, answered, id);
    }
}

/// Whether the node ID is that of a node known only by its heartbeats: its row shows
/// neither a unique ID nor a hash.
pub open spec fn is_static(rows: Map<i64, AllocationRow>, id: u16) -> bool {
    &&& rows.contains_key(id as i64)
    &&& rows[id as i64].unique_id_hex == Some(db::zero_hex())
    &&& rows[id as i64].pseudo_unique_id == Some(None::<i64>)
}

/// No request of any kind is answered with the allocator's own node ID, nor with the
/// ID of a node known only by its heartbeats, whatever was recorded since such a node
/// was heard.
pub proof fn reserved_ids_are_never_answered(
    heard: Table,
    before: Table,
    after: Table,
    local: u16,
    max: u16,
    uid: Seq<u8>,
    hash: u64,
    node_id: u16,
    id: u16,
)
    requires
        keeps_rows(heard, before),
        ({
            ||| v2_outcome(before, after, local, max, uid, Some(id))
            ||| v1_outcome(before, after, local, max, hash, Some(id))
        }),
    ensures
        id != local,
        is_static(heard.rows, node_id) ==> id != node_id,
{
    assert(seq![local][0] == local);
    assert(heard.rows.contains_key(node_id as i64) ==> before.rows.contains_key(node_id as i64));
}

/// A heartbeat leaves a node that was not in the table known only by its heartbeats.
pub proof fn heard_nodes_are_static(
    before: Table,
    after: Table,
    node_id: u16,
)
    requires
        !before.rows.contains_key(node_id as i64),
        db::reserved_in(before, after, node_id as i64),
    ensures
        is_static(after.rows, node_id),
{
}

/// Something that happens at an allocator.
pub enum Event {
    /// A request with a unique ID, and its answer.
    RequestV2 { local: u16, max: u16, uid: Seq<u8>, id: Option<u16> },
    /// A request with a hash, and its answer.
    RequestV1 { local: u16, max: u16, hash: u64, id: Option<u16> },
    /// A heartbeat, or the start of an allocator, which reserves its own ID.
    Heartbeat { node_id: u16 },
    /// A GetInfo result.
    Learned { node_id: u16, uid: Seq<u8> },
}

/// Whether the event takes the table from one state to another.
pub open spec fn happens(before: Table, after: Table, event: Event) -> bool {
    match event {
        Event::RequestV2 { local, max, uid, id } => v2_outcome(before, after, local, max, uid, id),
        Event::RequestV1 { local, max, hash, id } => v1_outcome(
            before,
            after,
            local,
            max,
            hash,
            id,
        ),
        Event::Heartbeat { node_id } => db::reserved_in(before, after, node_id as i64),
        Event::Learned { node_id, uid } => after == db::with_unique_id(
            before,
            node_id as i64,
            text::hex(uid),
        ),
    }
}

/// Whether the table went through these states, one event after each but the last.
pub open spec fn is_history(states: Seq<Table>, events: Seq<Event>) -> bool {
    &&& states.len() == events.len() + 1
    &&& forall|i: int|
        0 <= i < events.len() ==> happens(states[i], states[i + 1], #[trigger] events[i])
}

/// Whether the key at position `k` is `first`, and `other` does not stand before it.
pub open spec fn is_before(order: Seq<i64>, k: int, first: u16, other: u16) -> bool {
    &&& 0 <= k < order.len()
    &&& order[k] == first
    &&& forall|j: int| 0 <= j < k ==> #[trigger] order[j] != other
}

/// Whether what was learned of a node leaves `first` the first recorded node with the
/// unique ID: nothing else was learned of `first` itself, and not this of a node that
/// was recorded before it.
pub open spec fn leaves_first(
    order: Seq<i64>,
    uid: Seq<u8>,
    first: u16,
    node_id: u16,
    learned: Seq<u8>,
) -> bool {
    &&& node_id == first ==> learned == uid
    &&& learned == uid ==> exists|k: int| is_before(order, k, first, node_id)
}

/// A node that asks again with the same unique ID gets the same node ID, and the table
/// stays as it is, whatever other requests, heartbeats and GetInfo results came between,
/// and even if no ID is free any more. The requests may come to different allocators,
/// one after the other over the same table: then the ID must not be the later one's own,
/// nor the earlier one's own row hold the unique ID.
///
/// No GetInfo result may say that the node with the ID has another unique ID, nor that
/// one recorded before it has this one.
pub proof fn v2_is_idempotent(
    states: Seq<Table>,
    events: Seq<Event>,
    first_local: u16,
    first_max: u16,
    again_local: u16,
    again_max: u16,
    uid: Seq<u8>,
    first: u16,
    again: Option<u16>,
)
    requires
        is_history(states, events),
        events.len() >= 2,
        events.first() == (Event::RequestV2 {
            local: first_local,
            max: first_max,
            uid,
            id: Some(first),
        }),
        events.last() == (Event::RequestV2 { local: again_local, max: again_max, uid, id: again }),
        again_local != first,
        again_local == first_local || !db::holds_hex(
            states.first().rows,
            first_local as i64,
            text::hex(uid),
        ),
        forall|i: int|
            0 <= i < events.len() ==> (#[trigger] events[i] matches Event::Learned {
                node_id,
                uid: learned,
            } ==> leaves_first(states[i].order, uid, first, node_id, learned)),
    ensures
        again == Some(first),
        states.last() == states[states.len() - 2],
{
    let n = events.len() - 1;
    v2_finding_is_stable(states, events, first_local, first_max, again_local, uid, first, n);
    assert(happens(states[n], states[n + 1], events[n]));
    assert(db::names_hex(states[n].rows, Some(again_local), first, text::hex(uid)));
}

/// After the first event, the answered request, the answer is the first recorded in
/// each state, seen from the later allocator.
proof fn v2_finding_is_stable(
    states: Seq<Table>,
    events: Seq<Event>,
    local: u16,
    max: u16,
    again_local: u16,
    uid: Seq<u8>,
    first: u16,
    n: int,
) -> (p: int)
    requires
        is_history(states, events),
        1 <= n <= events.len(),
        events.first() == (Event::RequestV2 { local, max, uid, id: Some(first) }),
        again_local != first,
        again_local == local || !db::holds_hex(
            states.first().rows,
            local as i64,
            text::hex(uid),
        ),
        forall|i: int|
            0 <= i < events.len() ==> (#[trigger] events[i] matches Event::Learned {
                node_id,
                uid: learned,
            } ==> leaves_first(states[i].order, uid, first, node_id, learned)),
    ensures
        text::hex(uid) != db::zero_hex(),
        db::is_first_hex(states[n], Some(again_local), text::hex(uid), p),
        states[n].order[p] == first,
    decreases n,
{
    let before = states[n - 1];
    let after = states[n];
    assert(happens(before, after, events[n - 1]));
    if n == 1 {
        if knows_hex(before.rows, local, text::hex(uid)) {
            choose|p: int| #[trigger]
                db::is_first_hex(before, Some(local), text::hex(uid), p) && before.order[p] == first
        } else {
            let p = before.order.len() as int;
            assert(seq![local][0] == local);
            assert forall|j: int|
                0 <= j < p && db::is_other_id(
                    Some(again_local),
                    #[trigger] after.order[j],
                ) implies !db::holds_hex(after.rows, after.order[j], text::hex(uid)) by {
                let k = before.order[j];
                assert(after.order[j] == k);
                assert(before.order.contains(k));
                assert(!db::names_hex(before.rows, Some(local), k as u16, text::hex(uid)));
            }
            p
        }
    } else {
        let p = v2_finding_is_stable(
            states,
            events,
            local,
            max,
            again_local,
            uid,
            first,
            n - 1,
        );
        v2_first_stays_first(before, after, events[n - 1], again_local, uid, first, p);
        p
    }
}

/// What is first recorded stays so.
proof fn v2_first_stays_first(
    before: Table,
    after: Table,
    event: Event,
    local: u16,
    uid: Seq<u8>,
    first: u16,
    p: int,
)
    requires
        happens(before, after, event),
        db::is_first_hex(before, Some(local), text::hex(uid), p),
        before.order[p] == first,
        event matches Event::Learned { node_id, uid: learned } ==> leaves_first(
            before.order,
            uid,
            first,
            node_id,
            learned,
        ),
    ensures
        db::is_first_hex(after, Some(local), text::hex(uid), p),
        after.order[p] == first,
{
    assert forall|j: int| 0 <= j <= p implies after.order[j] == before.order[j] && (
    before.rows.contains_key(before.order[j]) || !after.rows.contains_key(before.order[j])) by {
        assert(before.order.contains(before.order[j]));
    }
    if let Event::Learned { node_id, uid: learned } = event {
        if text::hex(learned) == text::hex(uid) {
            text::hex_is_injective(learned, uid);
            let k = choose|k: int| is_before(before.order, k, first, node_id);
            assert(before.order[k] == first);
        }
    }
}

/// A node that asks again with the same hash gets the same node ID, and the table
/// stays as it is, whatever other requests, heartbeats and GetInfo results came between,
/// and even if no ID is free any more. The requests may come to different allocators,
/// one after the other over the same table: then the ID must not be the later one's own,
/// nor the earlier one's own row hold the hash.
pub proof fn v1_is_idempotent(
    states: Seq<Table>,
    events: Seq<Event>,
    first_local: u16,
    first_max: u16,
    again_local: u16,
    again_max: u16,
    hash: u64,
    first: u16,
    again: Option<u16>,
)
    requires
        is_history(states, events),
        events.len() >= 2,
        events.first() == (Event::RequestV1 {
            local: first_local,
            max: first_max,
            hash,
            id: Some(first),
        }),
        events.last() == (Event::RequestV1 { local: again_local, max: again_max, hash, id: again }),
        again_local != first,
        again_local == first_local || !db::holds_hash(
            states.first().rows,
            first_local as i64,
            db::signed(hash),
        ),
    ensures
        again == Some(first),
        states.last() == states[states.len() - 2],
{
    let n = events.len() - 1;
    v1_finding_is_stable(states, events, first_local, first_max, again_local, hash, first, n);
    assert(happens(states[n], states[n + 1], events[n]));
    assert(db::names_hash(states[n].rows, Some(again_local), first, db::signed(hash)));
}

/// After the first event, the answered request, the answer is the first recorded in
/// each state, seen from the later allocator.
proof fn v1_finding_is_stable(
    states: Seq<Table>,
    events: Seq<Event>,
    local: u16,
    max: u16,
    again_local: u16,
    hash: u64,
    first: u16,
    n: int,
) -> (p: int)
    requires
        is_history(states, events),
        1 <= n <= events.len(),
        events.first() == (Event::RequestV1 { local, max, hash, id: Some(first) }),
        again_local != first,
        again_local == local || !db::holds_hash(
            states.first().rows,
            local as i64,
            db::signed(hash),
        ),
    ensures
        db::is_first_hash(states[n], Some(again_local), db::signed(hash), p),
        states[n].order[p] == first,
    decreases n,
{
    let before = states[n - 1];
    let after = states[n];
    assert(happens(before, after, events[n - 1]));
    if n == 1 {
        if knows_hash(before.rows, local, db::signed(hash)) {
            choose|p: int| #[trigger]
                db::is_first_hash(before, Some(local), db::signed(hash), p) && before.order[p] == first
        } else {
            let p = before.order.len() as int;
            assert(seq![local][0] == local);
            assert forall|j: int|
                0 <= j < p && db::is_other_id(
                    Some(again_local),
                    #[trigger] after.order[j],
                ) implies !db::holds_hash(after.rows, after.order[j], db::signed(hash)) by {
                let k = before.order[j];
                assert(after.order[j] == k);
                assert(before.order.contains(k));
                assert(!db::names_hash(before.rows, Some(local), k as u16, db::signed(hash)));
            }
            p
        }
    } else {
        let p = v1_finding_is_stable(
            states,
            events,
            local,
            max,
            again_local,
            hash,
            first,
            n - 1,
        );
        v1_first_stays_first(before, after, events[n - 1], again_local, hash, first, p);
        p
    }
}

/// What is first recorded stays so.
proof fn v1_first_stays_first(
    before: Table,
    after: Table,
    event: Event,
    local: u16,
    hash: u64,
    first: u16,
    p: int,
)
    requires
        happens(before, after, event),
        db::is_first_hash(before, Some(local), db::signed(hash), p),
        before.order[p] == first,
    ensures
        db::is_first_hash(after, Some(local), db::signed(hash), p),
        after.order[p] == first,
{
    assert forall|j: int| 0 <= j <= p implies after.order[j] == before.order[j] && (
    before.rows.contains_key(before.order[j]) || !after.rows.contains_key(before.order[j])) by {
        assert(before.order.contains(before.order[j]));
    }
}

/// A request answered with a node ID leaves the unique ID in that node's row.
proof fn v2_answer_is_recorded(
    before: Table,
    after: Table,
    local: u16,
    max: u16,
    uid: Seq<u8>,
    id: u16,
)
    requires
        v2_outcome(before, after, local, max, uid, Some(id)),
    ensures
        db::names_hex(after.rows, Some(local), id, text::hex(uid)),
{
    assert(seq![local][0] == local);
}

/// A request answered with a node ID leaves the hash in that node's row.
proof fn v1_answer_is_recorded(
    before: Table,
    after: Table,
    local: u16,
    max: u16,
    hash: u64,
    id: u16,
)
    requires
        v1_outcome(before, after, local, max, hash, Some(id)),
    ensures
        db::names_hash(after.rows, Some(local), id, db::signed(hash)),
{
    assert(seq![local][0] == local);
}

/// Nodes with different unique IDs get different node IDs, whatever was recorded
/// between their requests.
pub proof fn v2_ids_are_distinct(
    start: Table,
    first_done: Table,
    second_start: Table,
    second_done: Table,
    first_local: u16,
    first_max: u16,
    second_local: u16,
    second_max: u16,
    first_uid: Seq<u8>,
    second_uid: Seq<u8>,
    first: u16,
    second: u16,
)
    requires
        v2_outcome(start, first_done, first_local, first_max, first_uid, Some(first)),
        keeps_rows(first_done, second_start),
        v2_outcome(second_start, second_done, second_local, second_max, second_uid, Some(second)),
        first_uid != second_uid,
    ensures
        first != second,
{
    v2_answer_is_recorded(start, first_done, first_local, first_max, first_uid, first);
    v2_answer_is_recorded(second_start, second_done, second_local, second_max, second_uid, second);
    rows_are_kept(second_start, second_done, second_local, second_max, second_uid, 0, Some(second), 0);
    if first == second {
        assert(first_done.rows.contains_key(first as i64));
        assert(second_start.rows.contains_key(first as i64));
        text::hex_is_injective(first_uid, second_uid);
    }
}

/// Nodes with different hashes get different node IDs, whatever was recorded
/// between their requests.
pub proof fn v1_ids_are_distinct(
    start: Table,
    first_done: Table,
    second_start: Table,
    second_done: Table,
    first_local: u16,
    first_max: u16,
    second_local: u16,
    second_max: u16,
    first_hash: u64,
    second_hash: u64,
    first: u16,
    second: u16,
)
    requires
        v1_outcome(start, first_done, first_local, first_max, first_hash, Some(first)),
        keeps_rows(first_done, second_start),
        v1_outcome(second_start, second_done, second_local, second_max, second_hash, Some(second)),
        first_hash != second_hash,
    ensures
        first != second,
{
    v1_answer_is_recorded(start, first_done, first_local, first_max, first_hash, first);
    v1_answer_is_recorded(second_start, second_done, second_local, second_max, second_hash, second);
    rows_are_kept(
        second_start,
        second_done,
        second_local,
        second_max,
        Seq::empty(),
        second_hash,
        Some(second),
        0,
    );
    if first == second {
        assert(first_done.rows.contains_key(first as i64));
        assert(second_start.rows.contains_key(first as i64));
        assert(first_hash as i64 == second_hash as i64 ==> first_hash == second_hash)
            by (bit_vector);
    }
}

/// A node ID seen in a heartbeat, or assigned to a v1 node, goes to no node that
/// asks with an unknown unique ID later; and one assigned to a v2 node goes to no
/// node that asks with an unknown hash later. Both kinds of node share one space
/// of node IDs.
pub proof fn taken_ids_are_not_assigned(
    taken: Table,
    before: Table,
    after: Table,
    local: u16,
    max: u16,
    uid: Seq<u8>,
    hash: u64,
    used: u16,
    id: u16,
)
    requires
        taken.rows.contains_key(used as i64),
        keeps_rows(taken, before),
        ({
            ||| v2_outcome(before, after, local, max, uid, Some(id)) && !knows_hex(
                before.rows,
                local,
                text::hex(uid),
            )
            ||| v1_outcome(before, after, local, max, hash, Some(id)) && !knows_hash(
                before.rows,
                local,
                db::signed(hash),
            )
        }),
    ensures
        id != used,
{
    new_ids_are_free(before, after, local, max, uid, hash, id);
}

/// A heartbeat gives its node a row, and so does an answered request.
pub proof fn nodes_get_rows(
    before: Table,
    after: Table,
    local: u16,
    max: u16,
    uid: Seq<u8>,
    hash: u64,
    id: u16,
)
    requires
        ({
            ||| db::reserved_in(before, after, id as i64)
            ||| v2_outcome(before, after, local, max, uid, Some(id))
            ||| v1_outcome(before, after, local, max, hash, Some(id))
        }),
    ensures
        after.rows.contains_key(id as i64),
{
    if v2_outcome(before, after, local, max, uid, Some(id)) {
        v2_answer_is_recorded(before, after, local, max, uid, id);
    } else if v1_outcome(before, after, local, max, hash, Some(id)) {
        v1_answer_is_recorded(before, after, local, max, hash, id);
    }
}

/// What was recorded for a unique ID that no other node has is what a look-up finds,
/// unless it is the unique ID of zeros.
pub proof fn recorded_v2_is_found(
    before: Table,
    after: Table,
    node_id: u16,
    uid: Seq<u8>,
    found: Option<u16>,
)
    requires
        db::finds_hex(before, None, text::hex(uid), None),
        text::hex(uid) != db::zero_hex(),
        db::inserted(before, after, node_id as i64, text::hex(uid), None),
    ensures
        db::finds_hex(after, None, text::hex(uid), found) <==> found == Some(node_id),
{
    let hex = text::hex(uid);
    let p = before.order.len() as int;
    assert(db::names_hex(after.rows, None, node_id, hex));
    assert forall|id: u16| db::names_hex(after.rows, None, id, hex) implies id == node_id by {
        if id != node_id {
            assert(db::names_hex(before.rows, None, id, hex));
        }
    }
    assert forall|j: int| 0 <= j < p && db::is_other_id(None, #[trigger] after.order[j]) implies
        !db::holds_hex(after.rows, after.order[j], hex) by {
        let k = before.order[j];
        assert(after.order[j] == k);
        assert(before.order.contains(k));
        assert(!db::names_hex(before.rows, None, k as u16, hex));
    }
    assert(db::is_first_hex(after, None, hex, p));
    assert forall|id: u16| #[trigger] db::finds_hex(after, None, hex, Some(id)) implies id
        == node_id by {
        assert(db::names_hex(after.rows, None, id, hex));
    }
}

/// What was recorded for a hash that no other node has is what a look-up finds.
pub proof fn recorded_v1_is_found(
    before: Table,
    after: Table,
    node_id: u16,
    hash: u64,
    found: Option<u16>,
)
    requires
        db::finds_hash(before, None, db::signed(hash), None),
        db::inserted(
            before,
            after,
            node_id as i64,
            text::hex(db::hash_bytes(hash)),
            Some(db::signed(hash)),
        ),
    ensures
        db::finds_hash(after, None, db::signed(hash), found) <==> found == Some(node_id),
{
    let h = db::signed(hash);
    let p = before.order.len() as int;
    assert(db::names_hash(after.rows, None, node_id, h));
    assert forall|id: u16| db::names_hash(after.rows, None, id, h) implies id == node_id by {
        if id != node_id {
            assert(db::names_hash(before.rows, None, id, h));
        }
    }
    assert forall|j: int| 0 <= j < p && db::is_other_id(None, #[trigger] after.order[j]) implies
        !db::holds_hash(after.rows, after.order[j], h) by {
        let k = before.order[j];
        assert(after.order[j] == k);
        assert(before.order.contains(k));
        assert(!db::names_hash(before.rows, None, k as u16, h));
    }
    assert(db::is_first_hash(after, None, h, p));
    assert forall|id: u16| #[trigger] db::finds_hash(after, None, h, Some(id)) implies id
        == node_id by {
        assert(db::names_hash(after.rows, None, id, h));
    }
}

/// Within the cooldown of a request, another heartbeat queues nothing.
pub proof fn cooldown_holds_back(
    start: &PnpAllocator,
    queued: &PnpAllocator,
    before: &PnpAllocator,
    after: &PnpAllocator,
    node_id: u16,
    first: u128,
    second: u128,
)
    requires
        heard_at(start, queued, node_id, first),
        queued.queue() != start.queue(),
        before.queried() == queued.queried(),
        heard_at(before, after, node_id, second),
        second - first < GET_INFO_RETRY_COOLDOWN,
    ensures
        after.queue() == before.queue(),
{
}

/// A node that was never in the table is entered by its first heartbeat, with neither a
/// unique ID nor a hash, and is asked for its unique ID.
pub proof fn new_nodes_are_entered_and_asked(
    before: &PnpAllocator,
    after: &PnpAllocator,
    node_id: u16,
    reading: u128,
)
    requires
        !before.rows().contains_key(node_id as i64),
        !before.queried().contains_key(node_id),
        heard_now(before, after, node_id, reading),
        after.is_undisturbed_since(before),
    ensures
        after.rows().contains_key(node_id as i64),
        after.rows()[node_id as i64].unique_id_hex == Some(Seq::new(32, |i: int| '0')),
        after.rows()[node_id as i64].pseudo_unique_id == Some(None::<i64>),
        forall|k: i64|
            k != node_id ==> (#[trigger] after.rows().contains_key(k)
                <==> before.rows().contains_key(k)),
        after.queue() == before.queue().push(node_id),
        after.queried().contains_key(node_id),
        after.queried()[node_id] >= reading,
{
}

/// A node whose row shows no unique ID, but zeros or the padded hash that it holds, is
/// asked again by a heartbeat that comes when the machine's clock shows at least sixty
/// seconds more than when it was last asked for.
pub proof fn silent_nodes_are_asked_again(
    before: &PnpAllocator,
    after: &PnpAllocator,
    node_id: u16,
    reading: u128,
    hash: u64,
)
    requires
        before.rows().contains_key(node_id as i64),
        ({
            let row = before.rows()[node_id as i64];
            ||| row.unique_id_hex == Some(Seq::new(32, |i: int| '0')) && row.pseudo_unique_id is Some
            ||| row.unique_id_hex == Some(text::hex(db::hash_bytes(hash))) && row.pseudo_unique_id
                == Some(Some(db::signed(hash)))
        }),
        before.queried().contains_key(node_id),
        reading - before.queried()[node_id] >= 60_000_000_000,
        heard_now(before, after, node_id, reading),
        after.is_undisturbed_since(before),
    ensures
        after.queue() == before.queue().push(node_id),
        after.queried()[node_id] >= reading,
        after.rows() == before.rows(),
{
    assert(hash as i64 as u64 == hash) by (bit_vector);
}

/// Within sixty seconds of the reading at which a node was last asked for, its
/// heartbeats ask nothing.
pub proof fn nodes_are_not_asked_too_often(
    before: &PnpAllocator,
    after: &PnpAllocator,
    node_id: u16,
    reading: u128,
)
    requires
        before.queried().contains_key(node_id),
        before.reading() - before.queried()[node_id] < 60_000_000_000,
        reading - before.queried()[node_id] < 60_000_000_000,
        heard_now(before, after, node_id, reading),
    ensures
        after.queue() == before.queue(),
        after.queried() == before.queried(),
{
}

/// Once the unique ID of a node is known, its heartbeats queue nothing.
pub proof fn known_nodes_are_not_queried(
    before: &PnpAllocator,
    answered: &PnpAllocator,
    after: &PnpAllocator,
    node_id: u16,
    uid: Seq<u8>,
    now: u128,
)
    requires
        before.rows().contains_key(node_id as i64),
        result_reported(before, answered, node_id, Some(uid)),
        answered.is_undisturbed_since(before),
        before.rows()[node_id as i64].pseudo_unique_id matches Some(hash)
            ==> !db::is_placeholder(text::hex(uid), hash),
        heard_at(answered, after, node_id, now),
        after.is_undisturbed_since(answered),
    ensures
        after.queue() == answered.queue(),
        after.rows() == answered.rows(),
{
}

/// After a request that failed, the next heartbeat queues another, as long as the
/// unique ID is missing.
pub proof fn failed_queries_are_repeated(
    before: &PnpAllocator,
    failed: &PnpAllocator,
    after: &PnpAllocator,
    node_id: u16,
    now: u128,
)
    requires
        result_reported(before, failed, node_id, None),
        lacks_unique_id(failed.rows(), node_id),
        heard_at(failed, after, node_id, now),
        after.is_undisturbed_since(failed),
    ensures
        after.queue() == failed.queue().push(node_id),
{
}

/// A static node and a v1 node show a placeholder, a v2 node does not, unless it
/// has the all-zero unique ID.
pub proof fn placeholders_are_recognised(row: AllocationRow, uid: Seq<u8>, hash: u64)
    ensures
        db::is_row(row, db::zero_hex(), None) ==> db::is_placeholder(
            row.unique_id_hex->0,
            row.pseudo_unique_id->0,
        ),
        db::is_row(row, text::hex(db::hash_bytes(hash)), Some(db::signed(hash)))
            ==> db::is_placeholder(row.unique_id_hex->0, row.pseudo_unique_id->0),
        db::is_row(row, text::hex(uid), None) ==> (db::is_placeholder(
            row.unique_id_hex->0,
            row.pseudo_unique_id->0,
        ) <==> text::hex(uid) == db::zero_hex()),
{
    assert(hash as i64 as u64 == hash) by (bit_vector);
}

} // verus!
