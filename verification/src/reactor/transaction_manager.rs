//! Transactions: which frame change of a window was asked for, and by which request.

use vstd::prelude::*;

use crate::collections::VecMap;
use crate::model::{Frame, WindowServerId};

verus! {

/// How long, in milliseconds, after a move that this program asked for completes before
/// unsolicited frame changes count as the user's. This keeps late notifications from being taken
/// for user moves and starting a re-tile loop.
pub const SETTLE_DURATION_MS: u64 = 100;

/// A per-window counter that tracks the last time a request to change the window frame was sent.
#[derive(Clone, Copy, Debug, PartialEq, Eq, Structural)]
pub struct TransactionId(pub u32);

impl Default for TransactionId {
    fn default() -> (r: TransactionId)
        ensures
            r == TransactionId(0),
    {
        TransactionId(0)
    }
}

impl TransactionId {
    /// The id after this one; the counter wraps around.
    pub open spec fn spec_next(self) -> TransactionId {
        if self.0 == u32::MAX {
            TransactionId(0)
        } else {
            TransactionId((self.0 + 1) as u32)
        }
    }

    pub fn next(self) -> (r: TransactionId)
        ensures
            r == self.spec_next(),
    {
        TransactionId(self.0.wrapping_add(1))
    }
}

/// The last transaction of a window and the frame it asked for, while that is still pending.
#[derive(Clone, Copy, Debug, PartialEq, Eq, Structural)]
pub struct TxRecord {
    pub txid: TransactionId,
    pub target: Option<Frame>,
}

/// The transaction records of all windows.
pub struct WindowTxStore {
    pub records: VecMap<WindowServerId, TxRecord>,
}

/// The last transaction id that `records` holds for `wsid`.
pub open spec fn last_txid_of(
    records: Map<WindowServerId, TxRecord>,
    wsid: WindowServerId,
) -> TransactionId {
    if records.dom().contains(wsid) {
        records[wsid].txid
    } else {
        TransactionId(0)
    }
}

/// The pending target that `records` holds for `wsid`.
pub open spec fn target_of(
    records: Map<WindowServerId, TxRecord>,
    wsid: WindowServerId,
) -> Option<Frame> {
    if records.dom().contains(wsid) {
        records[wsid].target
    } else {
        None
    }
}

impl WindowTxStore {
    pub open spec fn view(self) -> Map<WindowServerId, TxRecord> {
        self.records@
    }

    pub fn new() -> (r: WindowTxStore)
        ensures
            r@ == Map::<WindowServerId, TxRecord>::empty(),
    {
        WindowTxStore { records: VecMap::new() }
    }

    pub fn get(&self, wsid: WindowServerId) -> (r: Option<TxRecord>)
        ensures
            match r {
                Some(record) => self@.dom().contains(wsid) && record == self@[wsid],
                None => !self@.dom().contains(wsid),
            },
    {
        match self.records.get(&wsid) {
            Some(record) => Some(*record),
            None => None,
        }
    }

    pub fn insert(&mut self, wsid: WindowServerId, txid: TransactionId, target: Frame)
        ensures
            final(self)@ == old(self)@.insert(wsid, (TxRecord { txid, target: Some(target) })),
    {
        let _ = self.records.insert(wsid, TxRecord { txid, target: Some(target) });
    }

    pub fn remove(&mut self, wsid: WindowServerId)
        ensures
            final(self)@ == old(self)@.remove(wsid),
    {
        let _ = self.records.remove(&wsid);
    }

    /// Forgets the pending frame of `wsid` but not its transaction id.
    pub fn clear_target(&mut self, wsid: WindowServerId)
        ensures
            final(self)@ == (if old(self)@.dom().contains(wsid) {
                old(self)@.insert(wsid, (TxRecord { txid: old(self)@[wsid].txid, target: None }))
            } else {
                old(self)@
            }),
    {
        match self.get(wsid) {
            Some(record) => {
                let _ = self.records.insert(wsid, TxRecord { txid: record.txid, target: None });
            },
            None => {},
        }
    }

    pub fn last_txid(&self, wsid: WindowServerId) -> (r: TransactionId)
        ensures
            r == last_txid_of(self@, wsid),
    {
        match self.get(wsid) {
            Some(record) => record.txid,
            None => TransactionId(0),
        }
    }

    pub fn set_last_txid(&mut self, wsid: WindowServerId, txid: TransactionId)
        ensures
            final(self)@ == old(self)@.insert(
                wsid,
                (TxRecord { txid, target: target_of(old(self)@, wsid) }),
            ),
    {
        let target = match self.get(wsid) {
            Some(record) => record.target,
            None => None,
        };
        let _ = self.records.insert(wsid, TxRecord { txid, target });
    }

    /// Advances the counter of `wsid`.
    pub fn next_txid(&mut self, wsid: WindowServerId) -> (r: TransactionId)
        ensures
            r == last_txid_of(old(self)@, wsid).spec_next(),
            final(self)@ == old(self)@.insert(
                wsid,
                (TxRecord { txid: r, target: target_of(old(self)@, wsid) }),
            ),
    {
        let txid = self.last_txid(wsid).next();
        self.set_last_txid(wsid, txid);
        txid
    }
}

/// One frame change that was asked for.
#[derive(Clone, Copy, Debug, PartialEq, Eq, Structural)]
pub struct TxEntry {
    pub wsid: WindowServerId,
    pub txid: TransactionId,
    pub target: Frame,
}

/// `records` after the entries were stored one after the other.
pub open spec fn stored(
    records: Map<WindowServerId, TxRecord>,
    entries: Seq<TxEntry>,
) -> Map<WindowServerId, TxRecord>
    decreases entries.len(),
{
    if entries.len() == 0 {
        records
    } else {
        stored(records, entries.drop_last()).insert(
            entries.last().wsid,
            TxRecord { txid: entries.last().txid, target: Some(entries.last().target) },
        )
    }
}

/// What the transaction manager knows.
#[verifier::ext_equal]
pub struct Transactions {
    pub records: Map<WindowServerId, TxRecord>,
    /// When the pending frame of each window was cleared last, in milliseconds.
    pub cleared_at: Map<WindowServerId, u64>,
}

impl Transactions {
    /// Whether `wsid` settles at `now`.
    pub open spec fn settling(self, wsid: WindowServerId, now: u64) -> bool {
        self.cleared_at.dom().contains(wsid) && now < self.cleared_at[wsid] + SETTLE_DURATION_MS
    }

    /// What is known once the pending frame of `wsid` is void, at `now`.
    pub open spec fn cleared(self, wsid: WindowServerId, now: u64) -> Transactions {
        Transactions {
            records: if self.records.dom().contains(wsid) {
                self.records.insert(
                    wsid,
                    TxRecord { txid: self.records[wsid].txid, target: None },
                )
            } else {
                self.records
            },
            cleared_at: self.cleared_at.insert(wsid, now),
        }
    }

    /// What is known once `record` is stored for `wsid`.
    pub open spec fn with_record(self, wsid: WindowServerId, record: TxRecord) -> Transactions {
        Transactions { records: self.records.insert(wsid, record), ..self }
    }
}

/// Manages window transaction ids and their associated target frames.
pub struct TransactionManager {
    pub store: WindowTxStore,
    /// When the target of each window was cleared last, in milliseconds.
    pub cleared_at: VecMap<WindowServerId, u64>,
}

impl TransactionManager {
    pub open spec fn view(self) -> Transactions {
        Transactions { records: self.store@, cleared_at: self.cleared_at@ }
    }

    pub fn new(store: WindowTxStore) -> (r: TransactionManager)
        ensures
            r@ == (Transactions { records: store@, cleared_at: Map::empty() }),
    {
        TransactionManager { store, cleared_at: VecMap::new() }
    }

    /// Stores a transaction id for a window with its target frame.
    pub fn store_txid(&mut self, wsid: WindowServerId, txid: TransactionId, target: Frame)
        ensures
            final(self)@ == old(self)@.with_record(
                wsid,
                (TxRecord { txid, target: Some(target) }),
            ),
    {
        self.store.insert(wsid, txid, target);
    }

    /// Updates multiple transaction id entries.
    pub fn update_txid_entries(&mut self, entries: &Vec<TxEntry>)
        ensures
            final(self)@ == (Transactions {
                records: stored(old(self)@.records, entries@),
                ..old(self)@
            }),
    {
        let ghost before = self@;
        let mut i: usize = 0;
        while i < entries.len()
            invariant
                i <= entries@.len(),
                self@ == (Transactions {
                    records: stored(before.records, entries@.take(i as int)),
                    ..before
                }),
            decreases entries@.len() - i,
        {
            let e = entries[i];
            self.store.insert(e.wsid, e.txid, e.target);
            assert(entries@.take(i + 1).drop_last() == entries@.take(i as int));
            i = i + 1;
        }
        assert(entries@.take(i as int) == entries@);
    }

    /// Removes the transaction id entry for a window.
    pub fn remove_for_window(&mut self, wsid: WindowServerId)
        ensures
            final(self)@ == (Transactions {
                records: old(self)@.records.remove(wsid),
                ..old(self)@
            }),
    {
        self.store.remove(wsid);
    }

    /// Clears the pending target for a window while preserving its last transaction id.
    /// Also starts a settling cooldown, at `now`, to suppress late notification events.
    pub fn clear_target_for_window(&mut self, wsid: WindowServerId, now: u64)
        ensures
            final(self)@ == old(self)@.cleared(wsid, now),
    {
        self.store.clear_target(wsid);
        let _ = self.cleared_at.insert(wsid, now);
    }

    /// Whether the window is, at `now`, still within the settling cooldown after a move that this
    /// program asked for completed.
    pub fn is_settling(&self, wsid: WindowServerId, now: u64) -> (r: bool)
        ensures
            r == self@.settling(wsid, now),
    {
        match self.cleared_at.get(&wsid) {
            Some(cleared) => now < *cleared || now - *cleared < SETTLE_DURATION_MS,
            None => false,
        }
    }

    /// Generates the next transaction id for a window.
    pub fn generate_next_txid(&mut self, wsid: WindowServerId) -> (r: TransactionId)
        ensures
            r == last_txid_of(old(self)@.records, wsid).spec_next(),
            final(self)@ == old(self)@.with_record(
                wsid,
                (TxRecord { txid: r, target: target_of(old(self)@.records, wsid) }),
            ),
    {
        self.store.next_txid(wsid)
    }

    /// Sets the last sent transaction id for a window.
    pub fn set_last_sent_txid(&mut self, wsid: WindowServerId, txid: TransactionId)
        ensures
            final(self)@ == old(self)@.with_record(
                wsid,
                (TxRecord { txid, target: target_of(old(self)@.records, wsid) }),
            ),
    {
        self.store.set_last_txid(wsid, txid);
    }

    /// Gets the last sent transaction id for a window.
    pub fn get_last_sent_txid(&self, wsid: WindowServerId) -> (r: TransactionId)
        ensures
            r == last_txid_of(self@.records, wsid),
    {
        self.store.last_txid(wsid)
    }

    /// Gets the target frame for a window's transaction, if it exists.
    pub fn get_target_frame(&self, wsid: WindowServerId) -> (r: Option<Frame>)
        ensures
            r == target_of(self@.records, wsid),
    {
        match self.store.get(wsid) {
            Some(record) => record.target,
            None => None,
        }
    }
}

/// Storing entries for other windows leaves a window's record alone, and the last entry for a
/// window is the one that counts.
pub proof fn stored_keeps_the_last_entry(
    records: Map<WindowServerId, TxRecord>,
    entries: Seq<TxEntry>,
    wsid: WindowServerId,
)
    ensures
        (forall|i: int| 0 <= i < entries.len() ==> (#[trigger] entries[i]).wsid != wsid) ==> {
            &&& last_txid_of(stored(records, entries), wsid) == last_txid_of(records, wsid)
            &&& target_of(stored(records, entries), wsid) == target_of(records, wsid)
        },
        forall|i: int|
            0 <= i < entries.len() && (#[trigger] entries[i]).wsid == wsid && (forall|j: int|
                i < j < entries.len() ==> (#[trigger] entries[j]).wsid != wsid) ==> {
                &&& last_txid_of(stored(records, entries), wsid) == entries[i].txid
                &&& target_of(stored(records, entries), wsid) == Some(entries[i].target)
            },
    decreases entries.len(),
{
    if entries.len() > 0 {
        let head = entries.drop_last();
        stored_keeps_the_last_entry(records, head, wsid);
        assert(forall|i: int| 0 <= i < head.len() ==> head[i] == entries[i]);
        assert forall|i: int|
            0 <= i < entries.len() && (#[trigger] entries[i]).wsid == wsid && (forall|j: int|
                i < j < entries.len() ==> (#[trigger] entries[j]).wsid != wsid) implies {
                &&& last_txid_of(stored(records, entries), wsid) == entries[i].txid
                &&& target_of(stored(records, entries), wsid) == Some(entries[i].target)
            } by {
            if i < head.len() {
                assert(entries[entries.len() - 1].wsid != wsid);
                assert(head[i].wsid == wsid);
                assert(forall|j: int| i < j < head.len() ==> (#[trigger] head[j]).wsid != wsid);
            }
        }
        if forall|i: int| 0 <= i < entries.len() ==> (#[trigger] entries[i]).wsid != wsid {
            assert(entries[entries.len() - 1].wsid != wsid);
            assert(forall|i: int| 0 <= i < head.len() ==> (#[trigger] head[i]).wsid != wsid);
        }
    }
}

/// A generated id differs from the one before it.
pub proof fn next_txid_is_new(t: TransactionId)
    ensures
        t.spec_next() != t,
{
}

/// A window whose target was cleared at `now` keeps its transaction id, has nothing pending and
/// settles for exactly the settle duration; other windows are left alone.
pub proof fn clearing_starts_the_cooldown(
    before: Transactions,
    wsid: WindowServerId,
    now: u64,
    later: u64,
    other: WindowServerId,
)
    ensures
        before.cleared(wsid, now).settling(wsid, later) <==> later < now + SETTLE_DURATION_MS,
        target_of(before.cleared(wsid, now).records, wsid) is None,
        last_txid_of(before.cleared(wsid, now).records, wsid) == last_txid_of(
            before.records,
            wsid,
        ),
        other != wsid ==> {
            let after = before.cleared(wsid, now);
            &&& after.settling(other, later) == before.settling(other, later)
            &&& target_of(after.records, other) == target_of(before.records, other)
            &&& last_txid_of(after.records, other) == last_txid_of(before.records, other)
        },
{
}

/// A call on the transaction manager that changes what it knows.
pub enum TxCall {
    Store(WindowServerId, TransactionId, Frame),
    Update(Seq<TxEntry>),
    Remove(WindowServerId),
    ClearTarget(WindowServerId, u64),
    GenerateNext(WindowServerId),
    SetLastSent(WindowServerId, TransactionId),
}

impl Transactions {
    /// What is known after one call.
    pub open spec fn called(self, call: TxCall) -> Transactions {
        match call {
            TxCall::Store(wsid, txid, target) => self.with_record(
                wsid,
                TxRecord { txid, target: Some(target) },
            ),
            TxCall::Update(entries) => Transactions {
                records: stored(self.records, entries),
                ..self
            },
            TxCall::Remove(wsid) => Transactions { records: self.records.remove(wsid), ..self },
            TxCall::ClearTarget(wsid, now) => self.cleared(wsid, now),
            TxCall::GenerateNext(wsid) => self.with_record(
                wsid,
                TxRecord {
                    txid: last_txid_of(self.records, wsid).spec_next(),
                    target: target_of(self.records, wsid),
                },
            ),
            TxCall::SetLastSent(wsid, txid) => self.with_record(
                wsid,
                TxRecord { txid, target: target_of(self.records, wsid) },
            ),
        }
    }

    /// What is known after `calls`, one after the other.
    pub open spec fn after(self, calls: Seq<TxCall>) -> Transactions
        decreases calls.len(),
    {
        if calls.len() == 0 {
            self
        } else {
            self.after(calls.drop_last()).called(calls.last())
        }
    }
}

/// When `calls` last cleared the target of `wsid`.
pub open spec fn last_cleared(calls: Seq<TxCall>, wsid: WindowServerId) -> Option<u64>
    decreases calls.len(),
{
    if calls.len() == 0 {
        None
    } else {
        match calls.last() {
            TxCall::ClearTarget(id, now) if id == wsid => Some(now),
            _ => last_cleared(calls.drop_last(), wsid),
        }
    }
}

/// Whatever is called on a new manager, a window settles exactly if its target was cleared and
/// less than the settle duration has passed since it was cleared last.
pub proof fn a_window_settles_only_after_its_target_was_cleared(
    records: Map<WindowServerId, TxRecord>,
    calls: Seq<TxCall>,
    wsid: WindowServerId,
    now: u64,
)
    ensures
        ({
            let fresh = Transactions { records, cleared_at: Map::empty() };
            fresh.after(calls).settling(wsid, now) <==> match last_cleared(calls, wsid) {
                Some(cleared) => now < cleared + SETTLE_DURATION_MS,
                None => false,
            }
        }),
    decreases calls.len(),
{
    if calls.len() > 0 {
        a_window_settles_only_after_its_target_was_cleared(records, calls.drop_last(), wsid, now);
    }
}

/// Clearing a target that was just stored leaves nothing pending, keeps the transaction id and
/// starts the cooldown.
pub proof fn a_cleared_target_is_no_longer_pending(
    before: Transactions,
    wsid: WindowServerId,
    txid: TransactionId,
    target: Frame,
    now: u64,
)
    ensures
        ({
            let after = before.called(TxCall::Store(wsid, txid, target)).called(
                TxCall::ClearTarget(wsid, now),
            );
            &&& target_of(after.records, wsid) is None
            &&& last_txid_of(after.records, wsid) == txid
            &&& after.settling(wsid, now)
        }),
{
}

/// What is stored is what is read back, and other windows are left alone.
pub proof fn stored_records_are_read_back(
    before: Transactions,
    wsid: WindowServerId,
    record: TxRecord,
    other: WindowServerId,
)
    ensures
        last_txid_of(before.with_record(wsid, record).records, wsid) == record.txid,
        target_of(before.with_record(wsid, record).records, wsid) == record.target,
        other != wsid ==> last_txid_of(before.with_record(wsid, record).records, other)
            == last_txid_of(before.records, other),
        other != wsid ==> target_of(before.with_record(wsid, record).records, other) == target_of(
            before.records,
            other,
        ),
{
}

/// Transactions of a window are numbered one after the other, from zero, and a window settles for
/// a tenth of a second.
pub proof fn transactions_are_numbered_in_turn(
    known: Transactions,
    wsid: WindowServerId,
    now: u64,
    t: TransactionId,
)
    ensures
        t.0 < u32::MAX ==> t.spec_next().0 == t.0 + 1,
        t.0 == u32::MAX ==> t.spec_next().0 == 0,
        !known.records.dom().contains(wsid) ==> last_txid_of(known.records, wsid).0 == 0
            && target_of(known.records, wsid) is None,
        known.records.dom().contains(wsid) ==> last_txid_of(known.records, wsid)
            == known.records[wsid].txid && target_of(known.records, wsid)
            == known.records[wsid].target,
        known.settling(wsid, now) ==> known.cleared_at.dom().contains(wsid) && now
            < known.cleared_at[wsid] + 100,
        known.cleared_at.dom().contains(wsid) && now < known.cleared_at[wsid] + 100
            ==> known.settling(wsid, now),
{
}

} // verus!
