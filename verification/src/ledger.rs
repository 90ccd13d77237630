//! The flag ledger: one record per distinct flag, with its lifecycle
//! status, points and timestamps.
//!
//! The ledger is the single place the scheduler reports captures to and the
//! submission clients write outcomes to.  Insertion is idempotent: a flag's
//! identity is its exact byte string, and a second capture of the same
//! string changes nothing.  Callers that want the ledger durable mirror
//! every mutation to their store and rebuild the ledger from it with
//! [`Ledger::restore_entry`] on startup.

use vstd::prelude::*;

use crate::flag::FlagStatus;
use crate::text::bytes_eq;

verus! {

/// One ledger record.
#[derive(Debug, Clone)]
pub struct LedgerEntry {
    /// The flag's exact text: the record's identity.
    pub flag: Vec<u8>,
    pub status: FlagStatus,
    /// Points awarded for the flag, in thousandths of a point.
    pub points_milli: u64,
    /// When the flag was first captured, in seconds since the epoch.
    pub captured_at: u64,
    /// When the flag's status was last written by a submission attempt.
    pub submitted_at: Option<u64>,
    /// The scoring service's reason text, for rejected and errored flags.
    pub error: Option<Vec<u8>>,
}

/// The mathematical image of one ledger record.
pub struct EntryModel {
    pub flag: Seq<u8>,
    pub status: FlagStatus,
    pub points_milli: u64,
    pub captured_at: u64,
    pub submitted_at: Option<u64>,
    pub error: Option<Seq<u8>>,
}

impl View for LedgerEntry {
    type V = EntryModel;

    open spec fn view(&self) -> EntryModel {
        EntryModel {
            flag: self.flag@,
            status: self.status,
            points_milli: self.points_milli,
            captured_at: self.captured_at,
            submitted_at: self.submitted_at,
            error: match self.error {
                Some(e) => Some(e@),
                None => None,
            },
        }
    }
}

/// Some row holds flag `f`.
pub open spec fn has_flag(rows: Seq<EntryModel>, f: Seq<u8>) -> bool {
    exists|i: int| 0 <= i < rows.len() && rows[i].flag == f
}

/// No two rows hold the same flag.
pub open spec fn rows_wf(rows: Seq<EntryModel>) -> bool {
    forall|i: int, j: int| 0 <= i < j < rows.len() ==> rows[i].flag != rows[j].flag
}

/// The set of flags the rows hold.
pub open spec fn flag_set(rows: Seq<EntryModel>) -> Set<Seq<u8>> {
    Set::new(|f: Seq<u8>| has_flag(rows, f))
}

/// The freshly captured record for flag `f`.
pub open spec fn fresh_entry(f: Seq<u8>, now: u64) -> EntryModel {
    EntryModel {
        flag: f,
        status: FlagStatus::Pending,
        points_milli: 0,
        captured_at: now,
        submitted_at: None,
        error: None,
    }
}

/// Storing one flag: appended as a fresh `Pending` record if absent,
/// ignored if a record with the same text already exists.
pub open spec fn store_one(rows: Seq<EntryModel>, f: Seq<u8>, now: u64) -> Seq<EntryModel> {
    if has_flag(rows, f) {
        rows
    } else {
        rows.push(fresh_entry(f, now))
    }
}

/// Storing a list of flags, in order.
pub open spec fn store_spec(rows: Seq<EntryModel>, flags: Seq<Seq<u8>>, now: u64) -> Seq<
    EntryModel,
>
    decreases flags.len(),
{
    if flags.len() == 0 {
        rows
    } else {
        store_one(store_spec(rows, flags.drop_last(), now), flags.last(), now)
    }
}

/// How many of the flags are stored as new records.
pub open spec fn store_count(rows: Seq<EntryModel>, flags: Seq<Seq<u8>>, now: u64) -> nat
    decreases flags.len(),
{
    if flags.len() == 0 {
        0
    } else {
        store_count(rows, flags.drop_last(), now) + (if has_flag(
            store_spec(rows, flags.drop_last(), now),
            flags.last(),
        ) {
            0nat
        } else {
            1nat
        })
    }
}

/// The flags of all `Pending` rows, in insertion order.
pub open spec fn pending_of(rows: Seq<EntryModel>) -> Seq<Seq<u8>>
    decreases rows.len(),
{
    if rows.len() == 0 {
        Seq::empty()
    } else {
        pending_of(rows.drop_last()) + (if rows.last().status == FlagStatus::Pending {
            seq![rows.last().flag]
        } else {
            Seq::empty()
        })
    }
}

/// The sum, in thousandths of a point, over all `Accepted` rows.
pub open spec fn points_sum(rows: Seq<EntryModel>) -> nat
    decreases rows.len(),
{
    if rows.len() == 0 {
        0
    } else {
        points_sum(rows.drop_last()) + (if rows.last().status == FlagStatus::Accepted {
            rows.last().points_milli as nat
        } else {
            0nat
        })
    }
}

/// The rows after a submission attempt wrote an outcome for flag `f`:
/// the row holding `f` gets the new status, points and reason and records
/// the attempt time; every other row is untouched.
pub open spec fn update_spec(
    rows: Seq<EntryModel>,
    f: Seq<u8>,
    status: FlagStatus,
    points_milli: u64,
    error: Option<Seq<u8>>,
    now: u64,
) -> Seq<EntryModel> {
    Seq::new(
        rows.len(),
        |i: int|
            if rows[i].flag == f {
                EntryModel {
                    flag: rows[i].flag,
                    status: status,
                    points_milli: points_milli,
                    captured_at: rows[i].captured_at,
                    submitted_at: Some(now),
                    error: error,
                }
            } else {
                rows[i]
            },
    )
}

/// The ledger: a well-formed sequence of records, one per distinct flag.
pub struct Ledger {
    entries: Vec<LedgerEntry>,
}

impl View for Ledger {
    type V = Seq<EntryModel>;

    closed spec fn view(&self) -> Seq<EntryModel> {
        self.entries@.map_values(|e: LedgerEntry| e@)
    }
}

impl Ledger {
    /// Every flag occurs in at most one record.
    pub open spec fn wf(self) -> bool {
        rows_wf(self@)
    }

    /// An empty ledger.
    pub fn new() -> (r: Ledger)
        ensures
            r@ =~= Seq::<EntryModel>::empty(),
            r.wf(),
    {
        Ledger { entries: Vec::new() }
    }

    /// How many records the ledger holds.
    pub fn len(&self) -> (r: usize)
        ensures
            r == self@.len(),
    {
        self.entries.len()
    }

    /// The record at position `i`, in insertion order.
    pub fn entry_at(&self, i: usize) -> (r: &LedgerEntry)
        requires
            i < self@.len(),
        ensures
            r@ == self@[i as int],
    {
        &self.entries[i]
    }

    /// The position of the record holding `flag`, if any.
    pub fn find(&self, flag: &[u8]) -> (r: Option<usize>)
        ensures
            match r {
                Some(i) => i < self@.len() && self@[i as int].flag == flag@,
                None => !has_flag(self@, flag@),
            },
    {
        let mut i: usize = 0;
        while i < self.entries.len()
            invariant
                i <= self@.len(),
                forall|j: int| 0 <= j < i ==> self@[j].flag != flag@,
            decreases self@.len() - i,
        {
            if bytes_eq(self.entries[i].flag.as_slice(), flag) {
                return Some(i);
            }
            i += 1;
        }
        None
    }

    /// Reinstates a record read back from a durable mirror of the ledger.
    /// The record is appended as it stands; one whose flag is already
    /// present is ignored.
    pub fn restore_entry(&mut self, entry: LedgerEntry) -> (added: bool)
        requires
            old(self).wf(),
        ensures
            final(self).wf(),
            added == !has_flag(old(self)@, entry.flag@),
            added ==> final(self)@ == old(self)@.push(entry@),
            !added ==> final(self)@ == old(self)@,
    {
        let dup = self.find(entry.flag.as_slice());
        let ghost em = entry@;
        match dup {
            Some(_) => false,
            None => {
                self.entries.push(entry);
                proof {
                    assert(self@ =~= old(self)@.push(em));
                }
                true
            },
        }
    }

    /// Stores captured flags: each flag not yet present becomes a fresh
    /// `Pending` record captured at `now`; flags already present (in the
    /// ledger or earlier in the same list) are silently ignored.  Returns
    /// how many records were newly created.
    pub fn store_flags(&mut self, flags: &Vec<Vec<u8>>, now: u64) -> (inserted: usize)
        requires
            old(self).wf(),
        ensures
            final(self).wf(),
            final(self)@ == store_spec(old(self)@, flags.deep_view(), now),
            inserted == store_count(old(self)@, flags.deep_view(), now),
    {
        let ghost orig = self@;
        let ghost fs = flags.deep_view();
        let mut inserted: usize = 0;
        let mut i: usize = 0;
        proof {
            assert(fs.take(0) =~= Seq::<Seq<u8>>::empty());
        }
        while i < flags.len()
            invariant
                old(self).wf(),
                i <= fs.len(),
                fs.len() == flags@.len(),
                forall|j: int| 0 <= j < fs.len() ==> fs[j] == flags@[j]@,
                inserted <= i,
                self.wf(),
                self@ == store_spec(orig, fs.take(i as int), now),
                inserted == store_count(orig, fs.take(i as int), now),
            decreases fs.len() - i,
        {
            let ghost pre = self@;
            proof {
                assert(fs.take(i + 1).drop_last() =~= fs.take(i as int));
                assert(fs.take(i + 1).last() == fs[i as int]);
            }
            let f = &flags[i];
            let dup = self.find(f.as_slice());
            match dup {
                Some(_) => {
                    assert(has_flag(pre, fs[i as int]));
                },
                None => {
                    let entry = LedgerEntry {
                        flag: vstd::slice::slice_to_vec(f.as_slice()),
                        status: FlagStatus::Pending,
                        points_milli: 0,
                        captured_at: now,
                        submitted_at: None,
                        error: None,
                    };
                    proof {
                        assert(entry@ == fresh_entry(fs[i as int], now));
                    }
                    self.entries.push(entry);
                    proof {
                        assert(self@ =~= pre.push(fresh_entry(fs[i as int], now)));
                        assert forall|a: int, b: int| 0 <= a < b < self@.len() implies self@[a].flag
                            != self@[b].flag by {
                            if b == self@.len() - 1 {
                                assert(!has_flag(pre, fs[i as int]));
                                assert(self@[a] == pre[a]);
                            }
                        }
                    }
                    inserted += 1;
                },
            }
            i += 1;
        }
        proof {
            assert(fs.take(fs.len() as int) =~= fs);
        }
        inserted
    }

    /// All `Pending` flags, in insertion order.
    pub fn get_pending_flags(&self) -> (r: Vec<Vec<u8>>)
        ensures
            r.deep_view() == pending_of(self@),
    {
        let mut r: Vec<Vec<u8>> = Vec::new();
        let mut i: usize = 0;
        proof {
            assert(self@.take(0) =~= Seq::<EntryModel>::empty());
            assert(r.deep_view() =~= pending_of(self@.take(0)));
        }
        while i < self.entries.len()
            invariant
                i <= self@.len(),
                self@.len() == self.entries@.len(),
                r.deep_view() == pending_of(self@.take(i as int)),
            decreases self@.len() - i,
        {
            let ghost pre = r.deep_view();
            proof {
                assert(self@.take(i + 1).drop_last() =~= self@.take(i as int));
                assert(self@.take(i + 1).last() == self@[i as int]);
            }
            let e = &self.entries[i];
            if matches!(e.status, FlagStatus::Pending) {
                r.push(vstd::slice::slice_to_vec(e.flag.as_slice()));
                proof {
                    assert(r.deep_view() =~~= pre.push(self@[i as int].flag));
                    assert(pending_of(self@.take(i + 1)) =~= pending_of(self@.take(i as int)) + seq![self@[i as int].flag]);
                    assert(pre.push(self@[i as int].flag) =~= pre + seq![self@[i as int].flag]);
                }
            } else {
                proof {
                    assert(pending_of(self@.take(i + 1)) =~= pending_of(self@.take(i as int)) + Seq::<Seq<u8>>::empty());
                    assert(pending_of(self@.take(i as int)) + Seq::<Seq<u8>>::empty() =~= pre);
                }
            }
            i += 1;
        }
        proof {
            assert(self@.take(self@.len() as int) =~= self@);
        }
        r
    }

    /// Writes a submission outcome into the record holding `flag`.
    /// Returns false, changing nothing, if no such record exists.
    pub fn update_flag_status(
        &mut self,
        flag: &[u8],
        status: FlagStatus,
        points_milli: u64,
        error: Option<Vec<u8>>,
        now: u64,
    ) -> (updated: bool)
        requires
            old(self).wf(),
        ensures
            final(self).wf(),
            updated == has_flag(old(self)@, flag@),
            updated ==> final(self)@ == update_spec(
                old(self)@,
                flag@,
                status,
                points_milli,
                match error {
                    Some(e) => Some(e@),
                    None => None,
                },
                now,
            ),
            !updated ==> final(self)@ == old(self)@,
    {
        let ghost orig = self@;
        let ghost err = match error {
            Some(ref e) => Some(e@),
            None => None,
        };
        let found = self.find(flag);
        match found {
            None => false,
            Some(idx) => {
                let e = &mut self.entries[idx];
                e.status = status;
                e.points_milli = points_milli;
                e.submitted_at = Some(now);
                e.error = error;
                proof {
                    assert forall|i: int| 0 <= i < orig.len() implies self@[i] == update_spec(
                        orig,
                        flag@,
                        status,
                        points_milli,
                        err,
                        now,
                    )[i] by {
                        if i != idx {
                            assert(orig[i].flag != orig[idx as int].flag);
                        }
                    }
                    assert(self@ =~= update_spec(orig, flag@, status, points_milli, err, now));
                    assert forall|i: int, j: int| 0 <= i < j < self@.len() implies self@[i].flag
                        != self@[j].flag by {
                        assert(self@[i].flag == orig[i].flag);
                        assert(self@[j].flag == orig[j].flag);
                    }
                }
                true
            },
        }
    }

    /// The total points of all `Accepted` records, in thousandths of a
    /// point, saturating at the largest representable value.
    pub fn get_points_summary(&self) -> (r: u64)
        ensures
            points_sum(self@) <= u64::MAX ==> r == points_sum(self@),
            points_sum(self@) > u64::MAX ==> r == u64::MAX,
    {
        let mut total: u64 = 0;
        let mut i: usize = 0;
        proof {
            assert(self@.take(0) =~= Seq::<EntryModel>::empty());
        }
        while i < self.entries.len()
            invariant
                i <= self@.len(),
                self@.len() == self.entries@.len(),
                points_sum(self@.take(i as int)) <= u64::MAX ==> total == points_sum(
                    self@.take(i as int),
                ),
                points_sum(self@.take(i as int)) > u64::MAX ==> total == u64::MAX,
            decreases self@.len() - i,
        {
            proof {
                assert(self@.take(i + 1).drop_last() =~= self@.take(i as int));
                assert(self@.take(i + 1).last() == self@[i as int]);
            }
            let e = &self.entries[i];
            if matches!(e.status, FlagStatus::Accepted) {
                total = total.saturating_add(e.points_milli);
            }
            i += 1;
        }
        proof {
            assert(self@.take(self@.len() as int) =~= self@);
        }
        total
    }
}

/// A pending flag is a recorded flag.
pub proof fn lemma_pending_contains(rows: Seq<EntryModel>, f: Seq<u8>)
    requires
        pending_of(rows).contains(f),
    ensures
        has_flag(rows, f),
    decreases rows.len(),
{
    if rows.len() > 0 {
        let prev = pending_of(rows.drop_last());
        if rows.last().status == FlagStatus::Pending && f == rows.last().flag {
            assert(rows[rows.len() - 1].flag == f);
        } else {
            assert(prev.contains(f)) by {
                let i = choose|i: int| 0 <= i < pending_of(rows).len() && pending_of(rows)[i] == f;
                if i < prev.len() {
                    assert(prev[i] == f);
                } else {
                    assert(pending_of(rows)[i] == rows.last().flag);
                }
            }
            lemma_pending_contains(rows.drop_last(), f);
            let i = choose|i: int| 0 <= i < rows.drop_last().len() && rows.drop_last()[i].flag == f;
            assert(rows[i].flag == f);
        }
    }
}

/// In a well-formed ledger the pending flags are pairwise distinct.
pub proof fn lemma_pending_distinct(rows: Seq<EntryModel>)
    requires
        rows_wf(rows),
    ensures
        forall|a: int, b: int|
            0 <= a < b < pending_of(rows).len() ==> pending_of(rows)[a] != pending_of(rows)[b],
    decreases rows.len(),
{
    if rows.len() > 0 {
        let prev = pending_of(rows.drop_last());
        assert(rows_wf(rows.drop_last()));
        lemma_pending_distinct(rows.drop_last());
        if rows.last().status == FlagStatus::Pending {
            let f = rows.last().flag;
            assert forall|a: int| 0 <= a < prev.len() implies prev[a] != f by {
                if prev[a] == f {
                    lemma_pending_contains(rows.drop_last(), f);
                    let i = choose|i: int|
                        0 <= i < rows.drop_last().len() && rows.drop_last()[i].flag == f;
                    assert(rows[i].flag == rows[rows.len() - 1].flag);
                }
            }
            assert forall|a: int, b: int|
                0 <= a < b < pending_of(rows).len() implies pending_of(rows)[a] != pending_of(
                rows,
            )[b] by {
                if b < prev.len() {
                    assert(pending_of(rows)[a] == prev[a]);
                    assert(pending_of(rows)[b] == prev[b]);
                } else {
                    assert(pending_of(rows)[a] == prev[a]);
                    assert(pending_of(rows)[b] == f);
                }
            }
        }
    }
}

/// After storing, a flag is present exactly when it was present before or
/// stands in the stored list.
pub proof fn lemma_store_has_flag(rows: Seq<EntryModel>, flags: Seq<Seq<u8>>, now: u64, f: Seq<u8>)
    ensures
        has_flag(store_spec(rows, flags, now), f) <==> (has_flag(rows, f) || flags.contains(f)),
    decreases flags.len(),
{
    if flags.len() == 0 {
    } else {
        let prev = store_spec(rows, flags.drop_last(), now);
        lemma_store_has_flag(rows, flags.drop_last(), now, f);
        assert(flags.contains(f) <==> (flags.drop_last().contains(f) || flags.last() == f)) by {
            if flags.contains(f) {
                let i = choose|i: int| 0 <= i < flags.len() && flags[i] == f;
                if i < flags.len() - 1 {
                    assert(flags.drop_last()[i] == f);
                }
            }
            if flags.drop_last().contains(f) {
                let i = choose|i: int| 0 <= i < flags.drop_last().len() && flags.drop_last()[i] == f;
                assert(flags[i] == f);
            }
        }
        if has_flag(prev, f) {
            let i = choose|i: int| 0 <= i < prev.len() && prev[i].flag == f;
            assert(store_one(prev, flags.last(), now)[i].flag == f);
        }
        if !has_flag(prev, flags.last()) {
            let pushed = prev.push(fresh_entry(flags.last(), now));
            if flags.last() == f {
                assert(pushed[pushed.len() - 1].flag == f);
            }
            if has_flag(pushed, f) && flags.last() != f {
                let i = choose|i: int| 0 <= i < pushed.len() && pushed[i].flag == f;
                assert(i < prev.len());
                assert(prev[i].flag == f);
            }
        }
    }
}

/// Storing preserves well-formedness: records stay unique by flag.
pub proof fn lemma_store_wf(rows: Seq<EntryModel>, flags: Seq<Seq<u8>>, now: u64)
    requires
        rows_wf(rows),
    ensures
        rows_wf(store_spec(rows, flags, now)),
    decreases flags.len(),
{
    if flags.len() == 0 {
    } else {
        let prev = store_spec(rows, flags.drop_last(), now);
        lemma_store_wf(rows, flags.drop_last(), now);
        if !has_flag(prev, flags.last()) {
            let pushed = prev.push(fresh_entry(flags.last(), now));
            assert forall|i: int, j: int| 0 <= i < j < pushed.len() implies pushed[i].flag
                != pushed[j].flag by {
                if j == pushed.len() - 1 {
                    assert(pushed[i] == prev[i]);
                }
            }
        }
    }
}

/// Storing the same flags again changes nothing and stores no record:
/// the ledger's insert is idempotent.
pub proof fn lemma_store_idempotent(
    rows: Seq<EntryModel>,
    flags: Seq<Seq<u8>>,
    now1: u64,
    now2: u64,
)
    ensures
        store_spec(store_spec(rows, flags, now1), flags, now2) == store_spec(rows, flags, now1),
        store_count(store_spec(rows, flags, now1), flags, now2) == 0,
{
    let stored = store_spec(rows, flags, now1);
    assert forall|f: Seq<u8>| flags.contains(f) implies has_flag(stored, f) by {
        lemma_store_has_flag(rows, flags, now1, f);
    }
    lemma_store_on_present(stored, flags, now2);
}

/// Storing flags that are all already present changes nothing.
proof fn lemma_store_on_present(rows: Seq<EntryModel>, flags: Seq<Seq<u8>>, now: u64)
    requires
        forall|f: Seq<u8>| flags.contains(f) ==> has_flag(rows, f),
    ensures
        store_spec(rows, flags, now) == rows,
        store_count(rows, flags, now) == 0,
    decreases flags.len(),
{
    if flags.len() == 0 {
    } else {
        assert forall|f: Seq<u8>| flags.drop_last().contains(f) implies has_flag(rows, f) by {
            let i = choose|i: int|
                0 <= i < flags.drop_last().len() && flags.drop_last()[i] == f;
            assert(flags[i] == f);
        }
        lemma_store_on_present(rows, flags.drop_last(), now);
        assert(flags.contains(flags.last())) by {
            assert(flags[flags.len() - 1] == flags.last());
        }
    }
}

/// The set of flags after a store is the old set joined with the stored
/// flags, whatever order they arrived in.
pub proof fn lemma_store_flag_set(rows: Seq<EntryModel>, flags: Seq<Seq<u8>>, now: u64)
    ensures
        flag_set(store_spec(rows, flags, now)) == flag_set(rows).union(flags.to_set()),
{
    assert forall|f: Seq<u8>|
        flag_set(store_spec(rows, flags, now)).contains(f) <==> flag_set(rows).union(
            flags.to_set(),
        ).contains(f) by {
        lemma_store_has_flag(rows, flags, now, f);
    }
    assert(flag_set(store_spec(rows, flags, now)) =~= flag_set(rows).union(flags.to_set()));
}

/// Concurrent cycles lose and duplicate nothing: storing two batches of
/// captured flags leaves the same set of recorded flags in either order,
/// and the records stay unique however the batches interleave.
pub proof fn lemma_store_order_independent(
    rows: Seq<EntryModel>,
    a: Seq<Seq<u8>>,
    b: Seq<Seq<u8>>,
    t1: u64,
    t2: u64,
    t3: u64,
    t4: u64,
)
    ensures
        flag_set(store_spec(store_spec(rows, a, t1), b, t2)) == flag_set(
            store_spec(store_spec(rows, b, t3), a, t4),
        ),
{
    lemma_store_flag_set(rows, a, t1);
    lemma_store_flag_set(store_spec(rows, a, t1), b, t2);
    lemma_store_flag_set(rows, b, t3);
    lemma_store_flag_set(store_spec(rows, b, t3), a, t4);
    assert(flag_set(rows).union(a.to_set()).union(b.to_set()) =~= flag_set(rows).union(
        b.to_set(),
    ).union(a.to_set()));
}

} // verus!
