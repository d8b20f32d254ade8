use vstd::prelude::*;

use crate::entity::{GachaRecordEntity, GachaUpdateLogEntity, RecordView};

verus! {

/// A stored pull together with the batch that last wrote it.
#[derive(Debug, Clone)]
pub struct LedgerRow {
    pub batch_id: u32,
    pub record: GachaRecordEntity,
}

/// What the ledger holds under one record id: the writing batch and the pull's values.
pub type StoredRow = (u32, RecordView);

/// The ledger's contents as a map from record id.
pub type LedgerMap = Map<i64, StoredRow>;

/// Rows ordered by strictly increasing record id.
pub open spec fn ids_sorted(rows: Seq<LedgerRow>) -> bool {
    forall|i: int, j: int|
        0 <= i < j < rows.len() ==> #[trigger] rows[i].record.id < #[trigger] rows[j].record.id
}

pub open spec fn stored(row: LedgerRow) -> StoredRow {
    (row.batch_id, row.record@)
}

/// The map that a sequence of rows stands for.
pub open spec fn ledger_map(rows: Seq<LedgerRow>) -> LedgerMap {
    Map::new(
        |id: i64| exists|i: int| 0 <= i < rows.len() && rows[i].record.id == id,
        |id: i64|
            stored(rows[choose|i: int| 0 <= i < rows.len() && rows[i].record.id == id]),
    )
}

/// Provenance rows ordered by strictly increasing batch id; ids may have gaps where rows
/// were deleted.
pub open spec fn batches_increasing(batches: Seq<GachaUpdateLogEntity>) -> bool {
    forall|i: int, j: int| 0 <= i < j < batches.len() ==> #[trigger] batches[i].batch_id < #[trigger] batches[j].batch_id
}

/// Whether another provenance row can be numbered after the last one.
pub open spec fn batch_id_available(batches: Seq<GachaUpdateLogEntity>) -> bool {
    batches.len() == 0 || batches.last().batch_id < u32::MAX
}

/// The id of the next provenance row: one past the last, 1 for the first.
pub open spec fn next_batch_id(batches: Seq<GachaUpdateLogEntity>) -> u32 {
    if batches.len() == 0 {
        1
    } else {
        (batches.last().batch_id + 1) as u32
    }
}

/// The effect of one record on the ledger: kept out when its id is known and existing
/// rows are preserved, written otherwise.
pub open spec fn apply_record(m: LedgerMap, r: RecordView, batch: u32, replace: bool) -> LedgerMap {
    if !replace && m.contains_key(r.id) {
        m
    } else {
        m.insert(r.id, (batch, r))
    }
}

/// The number of rows one record changes: zero when it is kept out, one otherwise.
pub open spec fn record_changes(m: LedgerMap, r: RecordView, replace: bool) -> nat {
    if !replace && m.contains_key(r.id) {
        0
    } else {
        1
    }
}

/// The effect of records applied one after another, in order.
pub open spec fn apply_records(
    m: LedgerMap,
    rs: Seq<RecordView>,
    batch: u32,
    replace: bool,
) -> LedgerMap
    decreases rs.len(),
{
    if rs.len() == 0 {
        m
    } else {
        apply_record(apply_records(m, rs.drop_last(), batch, replace), rs.last(), batch, replace)
    }
}

/// The number of rows that records applied in order change.
pub open spec fn count_changes(m: LedgerMap, rs: Seq<RecordView>, batch: u32, replace: bool) -> nat
    decreases rs.len(),
{
    if rs.len() == 0 {
        0
    } else {
        count_changes(m, rs.drop_last(), batch, replace) + record_changes(
            apply_records(m, rs.drop_last(), batch, replace),
            rs.last(),
            replace,
        )
    }
}

/// The stored pulls of one account, in increasing id order.
pub open spec fn account_records(rows: Seq<LedgerRow>, uid: Seq<char>) -> Seq<RecordView>
    decreases rows.len(),
{
    if rows.len() == 0 {
        Seq::empty()
    } else if rows.last().record.uid@ == uid {
        account_records(rows.drop_last(), uid).push(rows.last().record@)
    } else {
        account_records(rows.drop_last(), uid)
    }
}

pub open spec fn views_of(rs: Seq<GachaRecordEntity>) -> Seq<RecordView> {
    rs.map_values(|r: GachaRecordEntity| r@)
}

pub proof fn lemma_lookup(rows: Seq<LedgerRow>, i: int)
    requires
        ids_sorted(rows),
        0 <= i < rows.len(),
    ensures
        ledger_map(rows).contains_key(rows[i].record.id),
        ledger_map(rows)[rows[i].record.id] == stored(rows[i]),
{
    let id = rows[i].record.id;
    assert(0 <= i < rows.len() && rows[i].record.id == id);
    let j = choose|j: int| 0 <= j < rows.len() && rows[j].record.id == id;
    if j < i {
        assert(rows[j].record.id < rows[i].record.id);
    } else if j > i {
        assert(rows[i].record.id < rows[j].record.id);
    }
}

proof fn lemma_insert_at(rows: Seq<LedgerRow>, p: int, row: LedgerRow)
    requires
        ids_sorted(rows),
        0 <= p <= rows.len(),
        forall|k: int| 0 <= k < p ==> #[trigger] rows[k].record.id < row.record.id,
        forall|k: int| p <= k < rows.len() ==> #[trigger] rows[k].record.id > row.record.id,
    ensures
        ids_sorted(rows.insert(p, row)),
        ledger_map(rows.insert(p, row)) == ledger_map(rows).insert(row.record.id, stored(row)),
{
    let new = rows.insert(p, row);
    assert forall|i: int, j: int| 0 <= i < j < new.len() implies #[trigger] new[i].record.id
        < #[trigger] new[j].record.id by {
        if i < p && j < p {
        } else if i < p && j == p {
        } else if i < p {
            assert(new[j] == rows[j - 1]);
        } else if i == p {
            assert(new[j] == rows[j - 1]);
        } else {
            assert(new[i] == rows[i - 1]);
            assert(new[j] == rows[j - 1]);
        }
    }
    let a = ledger_map(new);
    let b = ledger_map(rows).insert(row.record.id, stored(row));
    assert forall|id: i64| a.contains_key(id) <==> b.contains_key(id) by {
        if a.contains_key(id) {
            let i = choose|i: int| 0 <= i < new.len() && new[i].record.id == id;
            if i < p {
                assert(rows[i].record.id == id);
            } else if i > p {
                assert(rows[i - 1].record.id == id);
            }
        }
        if b.contains_key(id) && id != row.record.id {
            let i = choose|i: int| 0 <= i < rows.len() && rows[i].record.id == id;
            if i < p {
                assert(new[i].record.id == id);
            } else {
                assert(new[i + 1].record.id == id);
            }
        }
        if id == row.record.id {
            assert(new[p].record.id == id);
        }
    }
    assert forall|id: i64| a.contains_key(id) implies a[id] == b[id] by {
        let i = choose|i: int| 0 <= i < new.len() && new[i].record.id == id;
        lemma_lookup(new, i);
        if i < p {
            assert(new[i] == rows[i]);
            lemma_lookup(rows, i);
        } else if i > p {
            assert(new[i] == rows[i - 1]);
            lemma_lookup(rows, i - 1);
        }
    }
    assert(a =~= b);
}

proof fn lemma_replace_at(rows: Seq<LedgerRow>, p: int, row: LedgerRow)
    requires
        ids_sorted(rows),
        0 <= p < rows.len(),
        rows[p].record.id == row.record.id,
    ensures
        ids_sorted(rows.update(p, row)),
        ledger_map(rows.update(p, row)) == ledger_map(rows).insert(row.record.id, stored(row)),
{
    let new = rows.update(p, row);
    assert forall|i: int, j: int| 0 <= i < j < new.len() implies #[trigger] new[i].record.id
        < #[trigger] new[j].record.id by {
        assert(rows[i].record.id < rows[j].record.id);
    }
    let a = ledger_map(new);
    let b = ledger_map(rows).insert(row.record.id, stored(row));
    assert forall|id: i64| a.contains_key(id) <==> b.contains_key(id) by {
        if a.contains_key(id) {
            let i = choose|i: int| 0 <= i < new.len() && new[i].record.id == id;
            assert(rows[i].record.id == id);
        }
        if b.contains_key(id) && id != row.record.id {
            let i = choose|i: int| 0 <= i < rows.len() && rows[i].record.id == id;
            assert(new[i].record.id == id);
        }
        if id == row.record.id {
            assert(new[p].record.id == id);
        }
    }
    assert forall|id: i64| a.contains_key(id) implies a[id] == b[id] by {
        let i = choose|i: int| 0 <= i < new.len() && new[i].record.id == id;
        lemma_lookup(new, i);
        if i != p {
            lemma_lookup(rows, i);
        }
    }
    assert(a =~= b);
}

proof fn lemma_apply_keeps_ids(m: LedgerMap, rs: Seq<RecordView>, batch: u32, replace: bool)
    ensures
        forall|k: int| 0 <= k < rs.len() ==> apply_records(m, rs, batch, replace).contains_key(
            #[trigger] rs[k].id,
        ),
        forall|id: i64| m.contains_key(id) ==> #[trigger] apply_records(m, rs, batch, replace).contains_key(id),
    decreases rs.len(),
{
    if rs.len() > 0 {
        lemma_apply_keeps_ids(m, rs.drop_last(), batch, replace);
        assert forall|k: int| 0 <= k < rs.len() implies apply_records(m, rs, batch, replace).contains_key(
            #[trigger] rs[k].id,
        ) by {
            if k < rs.len() - 1 {
                assert(rs.drop_last()[k] == rs[k]);
            }
        }
        assert forall|id: i64| m.contains_key(id) implies #[trigger] apply_records(m, rs, batch, replace).contains_key(id) by {
            assert(apply_records(m, rs.drop_last(), batch, replace).contains_key(id));
        }
    }
}

proof fn lemma_known_ids_change_nothing(m: LedgerMap, rs: Seq<RecordView>, batch: u32)
    requires
        forall|k: int| 0 <= k < rs.len() ==> m.contains_key(#[trigger] rs[k].id),
    ensures
        apply_records(m, rs, batch, false) == m,
        count_changes(m, rs, batch, false) == 0,
    decreases rs.len(),
{
    if rs.len() > 0 {
        assert forall|k: int| 0 <= k < rs.drop_last().len() implies m.contains_key(
            #[trigger] rs.drop_last()[k].id,
        ) by {
            assert(rs.drop_last()[k] == rs[k]);
        }
        lemma_known_ids_change_nothing(m, rs.drop_last(), batch);
        assert(m.contains_key(rs[rs.len() - 1].id));
    }
}

proof fn lemma_no_change_means_known(m: LedgerMap, rs: Seq<RecordView>, batch: u32)
    requires
        count_changes(m, rs, batch, false) == 0,
    ensures
        apply_records(m, rs, batch, false) == m,
        forall|k: int| 0 <= k < rs.len() ==> m.contains_key(#[trigger] rs[k].id),
    decreases rs.len(),
{
    if rs.len() > 0 {
        lemma_no_change_means_known(m, rs.drop_last(), batch);
        assert forall|k: int| 0 <= k < rs.len() implies m.contains_key(#[trigger] rs[k].id) by {
            if k < rs.len() - 1 {
                assert(rs.drop_last()[k] == rs[k]);
            }
        }
    }
}

/// Merging the same records twice while preserving stored rows: whatever the first merge did,
/// the second changes no row and leaves the ledger's contents as the first left them.
pub proof fn lemma_merge_idempotent(m: LedgerMap, rs: Seq<RecordView>, b1: u32, b2: u32)
    ensures
        ({
            let m1 = if count_changes(m, rs, b1, false) == 0 {
                m
            } else {
                apply_records(m, rs, b1, false)
            };
            &&& count_changes(m1, rs, b2, false) == 0
            &&& apply_records(m1, rs, b2, false) == m1
        }),
{
    if count_changes(m, rs, b1, false) == 0 {
        lemma_no_change_means_known(m, rs, b1);
        lemma_known_ids_change_nothing(m, rs, b2);
    } else {
        let m1 = apply_records(m, rs, b1, false);
        lemma_apply_keeps_ids(m, rs, b1, false);
        lemma_known_ids_change_nothing(m1, rs, b2);
    }
}

/// The pulls of an account are the stored rows that it owns.
pub proof fn lemma_account_records_members(rows: Seq<LedgerRow>, uid: Seq<char>)
    ensures
        forall|r: RecordView| account_records(rows, uid).contains(r) <==> exists|i: int|
            0 <= i < rows.len() && (#[trigger] rows[i]).record@ == r && r.uid == uid,
    decreases rows.len(),
{
    if rows.len() > 0 {
        let d = rows.drop_last();
        let a = account_records(d, uid);
        let last = rows[rows.len() - 1];
        lemma_account_records_members(d, uid);
        assert forall|r: RecordView| account_records(rows, uid).contains(r) <==> exists|i: int|
            0 <= i < rows.len() && (#[trigger] rows[i]).record@ == r && r.uid == uid by {
            if account_records(rows, uid).contains(r) {
                if last.record.uid@ == uid {
                    let k = choose|k: int| 0 <= k < a.len() + 1 && a.push(last.record@)[k] == r;
                    if k < a.len() {
                        assert(a[k] == r);
                        assert(a.contains(r));
                        let i = choose|i: int| 0 <= i < d.len() && (#[trigger] d[i]).record@ == r && r.uid == uid;
                        assert(rows[i] == d[i]);
                    } else {
                        assert(rows[rows.len() - 1].record@ == r);
                    }
                } else {
                    assert(a.contains(r));
                    let i = choose|i: int| 0 <= i < d.len() && (#[trigger] d[i]).record@ == r && r.uid == uid;
                    assert(rows[i] == d[i]);
                }
            }
            if exists|i: int| 0 <= i < rows.len() && (#[trigger] rows[i]).record@ == r && r.uid == uid {
                let i = choose|i: int| 0 <= i < rows.len() && (#[trigger] rows[i]).record@ == r && r.uid == uid;
                if i < rows.len() - 1 {
                    assert(d[i] == rows[i]);
                    assert(a.contains(r));
                    let k = choose|k: int| 0 <= k < a.len() && a[k] == r;
                    if last.record.uid@ == uid {
                        assert(a.push(last.record@)[k] == r);
                    }
                } else {
                    assert(last.record.uid@ == uid);
                    assert(a.push(last.record@)[a.len() as int] == r);
                }
            }
        }
    }
}

/// Record ids strictly increasing.
pub open spec fn views_ascending(vs: Seq<RecordView>) -> bool {
    forall|i: int, j: int| 0 <= i < j < vs.len() ==> (#[trigger] vs[i]).id < (#[trigger] vs[j]).id
}

/// In a ledger whose rows are ordered by id, the pulls of an account are too.
pub proof fn lemma_account_records_ascending(rows: Seq<LedgerRow>, uid: Seq<char>)
    requires
        ids_sorted(rows),
    ensures
        views_ascending(account_records(rows, uid)),
    decreases rows.len(),
{
    if rows.len() > 0 {
        let d = rows.drop_last();
        assert forall|i: int, j: int| 0 <= i < j < d.len() implies #[trigger] d[i].record.id < #[trigger] d[j].record.id by {
            assert(d[i] == rows[i] && d[j] == rows[j]);
        }
        lemma_account_records_ascending(d, uid);
        lemma_account_records_members(d, uid);
        let a = account_records(d, uid);
        let last = rows[rows.len() - 1];
        if last.record.uid@ == uid {
            let n = account_records(rows, uid);
            assert(n == a.push(last.record@));
            assert forall|i: int, j: int| 0 <= i < j < n.len() implies (#[trigger] n[i]).id < (#[trigger] n[j]).id by {
                if j == a.len() {
                    assert(a.contains(a[i]));
                    let x = choose|x: int| 0 <= x < d.len() && (#[trigger] d[x]).record@ == a[i] && a[i].uid == uid;
                    assert(rows[x].record.id < rows[rows.len() - 1].record.id);
                } else {
                    assert(n[i] == a[i] && n[j] == a[j]);
                }
            }
        }
    }
}

/// The durable ledger of pulls of all accounts, with its provenance rows.
pub struct GachaLedger {
    rows: Vec<LedgerRow>,
    batches: Vec<GachaUpdateLogEntity>,
}

impl GachaLedger {
    pub closed spec fn rows_view(&self) -> Seq<LedgerRow> {
        self.rows@
    }

    /// The ledger's pulls as a map from record id.
    pub open spec fn contents(&self) -> LedgerMap {
        ledger_map(self.rows_view())
    }

    pub closed spec fn batches_view(&self) -> Seq<GachaUpdateLogEntity> {
        self.batches@
    }

    pub open spec fn wf(&self) -> bool {
        &&& ids_sorted(self.rows_view())
        &&& batches_increasing(self.batches_view())
    }

    pub fn new() -> (r: Self)
        ensures
            r.wf(),
            r.rows_view().len() == 0,
            r.batches_view().len() == 0,
            r.contents() == Map::<i64, StoredRow>::empty(),
    {
        let r = GachaLedger { rows: Vec::new(), batches: Vec::new() };
        assert(r.contents() =~= Map::<i64, StoredRow>::empty());
        r
    }

    /// A ledger over rows read back from storage, if they are ordered by strictly increasing id
    /// and the provenance rows are numbered 1, 2, ... in order.
    pub fn load(rows: Vec<LedgerRow>, batches: Vec<GachaUpdateLogEntity>) -> (r: Option<Self>)
        ensures
            r is Some <==> (ids_sorted(rows@) && batches_increasing(batches@)),
            r matches Some(l) ==> l.wf() && l.rows_view() == rows@ && l.batches_view() == batches@,
    {
        let mut i: usize = 1;
        while i < rows.len()
            invariant
                1 <= i,
                rows@.len() == 0 || i <= rows@.len(),
                forall|a: int, b: int| 0 <= a < b < i && b < rows@.len() ==> #[trigger] rows@[a].record.id < #[trigger] rows@[b].record.id,
            decreases rows@.len() - i,
        {
            if rows[i - 1].record.id >= rows[i].record.id {
                assert(!ids_sorted(rows@)) by {
                    assert(rows@[i - 1].record.id >= rows@[i as int].record.id);
                }
                return None;
            }
            proof {
                assert forall|a: int, b: int| 0 <= a < b < i + 1 && b < rows@.len() implies #[trigger] rows@[a].record.id < #[trigger] rows@[b].record.id by {
                    if b == i && a < i - 1 {
                        assert(rows@[a].record.id < rows@[i - 1].record.id);
                    }
                }
            }
            i = i + 1;
        }
        let mut k: usize = 1;
        while k < batches.len()
            invariant
                1 <= k,
                batches@.len() == 0 || k <= batches@.len(),
                forall|a: int, b: int| 0 <= a < b < k && b < batches@.len() ==> #[trigger] batches@[a].batch_id < #[trigger] batches@[b].batch_id,
            decreases batches@.len() - k,
        {
            if batches[k - 1].batch_id >= batches[k].batch_id {
                assert(!batches_increasing(batches@)) by {
                    assert(batches@[k - 1].batch_id >= batches@[k as int].batch_id);
                }
                return None;
            }
            proof {
                assert forall|a: int, b: int| 0 <= a < b < k + 1 && b < batches@.len() implies #[trigger] batches@[a].batch_id < #[trigger] batches@[b].batch_id by {
                    if b == k && a < k - 1 {
                        assert(batches@[a].batch_id < batches@[k - 1].batch_id);
                    }
                }
            }
            k = k + 1;
        }
        Some(GachaLedger { rows, batches })
    }

    /// Whether another provenance row can still be numbered.
    pub fn can_add_batch(&self) -> (r: bool)
        ensures
            r == batch_id_available(self.batches_view()),
    {
        self.batches.len() == 0 || self.batches[self.batches.len() - 1].batch_id < u32::MAX
    }

    pub fn rows(&self) -> (r: &Vec<LedgerRow>)
        ensures
            r@ == self.rows_view(),
    {
        &self.rows
    }

    pub fn batches(&self) -> (r: &Vec<GachaUpdateLogEntity>)
        ensures
            r@ == self.batches_view(),
    {
        &self.batches
    }

    /// Writes one record: inserted at its place when its id is new; when the id is known,
    /// replaced if `replace`, kept out otherwise. Returns the number of rows changed.
    fn write_record(&mut self, record: GachaRecordEntity, batch_id: u32, replace: bool) -> (r: usize)
        requires
            ids_sorted(old(self).rows_view()),
        ensures
            ids_sorted(final(self).rows_view()),
            final(self).batches_view() == old(self).batches_view(),
            final(self).contents() == apply_record(old(self).contents(), record@, batch_id, replace),
            r == record_changes(old(self).contents(), record@, replace),
            r == 0 ==> final(self).rows_view() == old(self).rows_view(),
    {
        let id = record.id;
        let mut p: usize = 0;
        while p < self.rows.len() && self.rows[p].record.id < id
            invariant
                p <= self.rows@.len(),
                forall|k: int| 0 <= k < p ==> #[trigger] self.rows@[k].record.id < id,
            decreases self.rows@.len() - p,
        {
            p = p + 1;
        }
        let ghost rows = self.rows@;
        let row = LedgerRow { batch_id, record };
        if p < self.rows.len() && self.rows[p].record.id == id {
            proof {
                lemma_lookup(rows, p as int);
            }
            if replace {
                self.rows.set(p, row);
                proof {
                    lemma_replace_at(rows, p as int, row);
                }
                1
            } else {
                0
            }
        } else {
            proof {
                assert forall|k: int| p <= k < rows.len() implies #[trigger] rows[k].record.id > id by {
                    if k > p {
                        assert(rows[p as int].record.id < rows[k].record.id);
                    }
                }
                assert(!ledger_map(rows).contains_key(id)) by {
                    if ledger_map(rows).contains_key(id) {
                        let i = choose|i: int| 0 <= i < rows.len() && rows[i].record.id == id;
                        assert(rows[i].record.id == id);
                    }
                }
                lemma_insert_at(rows, p as int, row);
            }
            self.rows.insert(p, row);
            1
        }
    }

    /// Merges records into the ledger under one new provenance row. With `replace` false a
    /// record whose id is stored already is kept out; with `replace` true it overwrites the
    /// stored row. When no row changes, nothing is written, the provenance row included.
    /// Returns the number of rows changed.
    pub fn insert_or_update_records(
        &mut self,
        uid: &str,
        gacha_records: Vec<GachaRecordEntity>,
        source: &str,
        time: &str,
        replace: bool,
    ) -> (r: usize)
        requires
            old(self).wf(),
            batch_id_available(old(self).batches_view()),
        ensures
            final(self).wf(),
            r == count_changes(
                old(self).contents(),
                views_of(gacha_records@),
                next_batch_id(old(self).batches_view()),
                replace,
            ),
            r == 0 ==> final(self).contents() == old(self).contents() && final(self).batches_view()
                == old(self).batches_view(),
            r > 0 ==> final(self).contents() == apply_records(
                old(self).contents(),
                views_of(gacha_records@),
                next_batch_id(old(self).batches_view()),
                replace,
            ),
            r > 0 ==> final(self).batches_view().len() == old(self).batches_view().len() + 1,
            r > 0 ==> final(self).batches_view().drop_last() == old(self).batches_view(),
            r > 0 ==> ({
                let b = final(self).batches_view().last();
                &&& b.batch_id == next_batch_id(old(self).batches_view())
                &&& b.uid@ == uid@
                &&& b.source@ == source@
                &&& b.time@ == time@
            }),
    {
        let ghost all = views_of(gacha_records@);
        let ghost start = self.contents();
        if gacha_records.len() == 0 {
            assert(all.len() == 0);
            return 0;
        }
        let batch_id: u32 = if self.batches.len() == 0 {
            1
        } else {
            self.batches[self.batches.len() - 1].batch_id + 1
        };
        let n = gacha_records.len();
        let mut rest = gacha_records;
        let mut count: usize = 0;
        let mut done: usize = 0;
        while done < n
            invariant
                n == all.len(),
                done <= n,
                rest@.len() + done == n,
                views_of(rest@) == all.skip(done as int),
                ids_sorted(self.rows@),
                self.batches@ == old(self).batches@,
                self.contents() == apply_records(start, all.take(done as int), batch_id, replace),
                count == count_changes(start, all.take(done as int), batch_id, replace),
                count <= done,
                count == 0 ==> self.rows@ == old(self).rows@,
            decreases n - done,
        {
            let ghost before = rest@;
            let record = rest.remove(0);
            proof {
                assert(record@ == views_of(before)[0]);
                assert(all.take(done + 1).drop_last() =~= all.take(done as int));
                assert(all.take(done + 1).last() == all[done as int]);
                assert(rest@ =~= before.skip(1));
                assert(views_of(before.skip(1)) =~= views_of(before).skip(1));
                assert(all.skip(done as int).skip(1) =~= all.skip(done + 1));
            }
            let c = self.write_record(record, batch_id, replace);
            count = count + c;
            done = done + 1;
        }
        assert(all.take(n as int) =~= all);
        if count == 0 {
            return 0;
        }
        let log = GachaUpdateLogEntity {
            batch_id,
            uid: uid.to_owned(),
            time: time.to_owned(),
            source: source.to_owned(),
        };
        self.batches.push(log);
        proof {
            assert(self.batches@.drop_last() =~= old(self).batches@);
            assert forall|i: int, j: int| 0 <= i < j < self.batches@.len() implies #[trigger] self.batches@[i].batch_id < #[trigger] self.batches@[j].batch_id by {
                if j == self.batches@.len() - 1 && i < j {
                    if i < old(self).batches@.len() - 1 {
                        assert(old(self).batches@[i].batch_id < old(self).batches@[old(self).batches@.len() - 1].batch_id);
                    }
                }
            }
        }
        count
    }

    /// The stored pulls of one account, in increasing id order.
    pub fn select_all(&self, uid: &str) -> (r: Vec<GachaRecordEntity>)
        ensures
            views_of(r@) == account_records(self.rows_view(), uid@),
            self.wf() ==> views_ascending(views_of(r@)),
    {
        proof {
            if self.wf() {
                lemma_account_records_ascending(self.rows@, uid@);
            }
        }
        let mut out: Vec<GachaRecordEntity> = Vec::new();
        let mut i: usize = 0;
        while i < self.rows.len()
            invariant
                i <= self.rows@.len(),
                views_of(out@) == account_records(self.rows@.take(i as int), uid@),
            decreases self.rows@.len() - i,
        {
            let row = &self.rows[i];
            proof {
                assert(self.rows@.take(i + 1).drop_last() =~= self.rows@.take(i as int));
            }
            if str_eq_string(&row.record.uid, uid) {
                let ghost before = out@;
                out.push(row.record.duplicate());
                proof {
                    assert(views_of(out@) =~= views_of(before).push(row.record@));
                }
            }
            i = i + 1;
        }
        assert(self.rows@.take(self.rows@.len() as int) =~= self.rows@);
        out
    }

    /// The largest stored record id of one account, if it has any pull.
    pub fn select_latest_gacha_id(&self, uid: &str) -> (r: Option<i64>)
        requires
            self.wf(),
        ensures
            account_records(self.rows_view(), uid@).len() == 0 ==> r is None,
            account_records(self.rows_view(), uid@).len() > 0 ==> r == Some(
                account_records(self.rows_view(), uid@).last().id,
            ),
    {
        let mut i: usize = self.rows.len();
        assert(self.rows@.take(i as int) =~= self.rows@);
        while i > 0
            invariant
                i <= self.rows@.len(),
                account_records(self.rows@, uid@) == account_records(self.rows@.take(i as int), uid@),
            decreases i,
        {
            let row = &self.rows[i - 1];
            proof {
                assert(self.rows@.take(i as int).drop_last() =~= self.rows@.take(i - 1));
            }
            if str_eq_string(&row.record.uid, uid) {
                return Some(row.record.id);
            }
            i = i - 1;
        }
        assert(self.rows@.take(0) =~= Seq::<LedgerRow>::empty());
        None
    }
}

fn str_eq_string(a: &String, b: &str) -> (r: bool)
    ensures
        r == (a@ == b@),
{
    crate::text::str_equals(a.as_str(), b)
}

} // verus!
