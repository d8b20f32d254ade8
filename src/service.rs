use vstd::prelude::*;

use crate::analysis::analyze_gacha_records;
use crate::entity::{item_entity_view, GachaAnalysisResult, GachaRecordEntity, GachaRecordItem, RecordView};
use crate::error::{AppError, ErrorKey, Result};
use crate::ledger::{account_records, apply_records, count_changes, views_of, GachaLedger};

verus! {

/// The stored values of fetched pulls.
pub open spec fn fetched_views(items: Seq<GachaRecordItem>) -> Seq<RecordView> {
    items.map_values(|i: GachaRecordItem| item_entity_view(&i))
}

pub struct GachaService;

impl GachaService {
    /// Checks that an authorization URL belongs to the account being synced: `origin` is the
    /// account its newest pull names, if it has any pull.
    pub fn check_fetched_uid(uid: &str, origin: Option<String>) -> (r: Result<()>)
        ensures
            origin is None ==> (r matches Err(e) && e.key() == ErrorKey::GachaRecordIsEmpty),
            origin matches Some(o) ==> (o@ == uid@ <==> r is Ok),
            origin matches Some(o) ==> (o@ != uid@ ==> (r matches Err(e) && e.key() == ErrorKey::GachaUidMismatch)),
    {
        match origin {
            None => Err(AppError::of(ErrorKey::GachaRecordIsEmpty)),
            Some(o) => {
                if crate::text::str_equals(o.as_str(), uid) {
                    Ok(())
                } else {
                    Err(AppError::of(ErrorKey::GachaUidMismatch))
                }
            },
        }
    }

    /// The incremental boundary: none for a full resync, else the account's newest stored id.
    pub fn stop_id(ledger: &GachaLedger, uid: &str, fetch_all: bool) -> (r: Option<i64>)
        requires
            ledger.wf(),
        ensures
            fetch_all ==> r is None,
            !fetch_all && account_records(ledger.rows_view(), uid@).len() == 0 ==> r is None,
            !fetch_all && account_records(ledger.rows_view(), uid@).len() > 0 ==> r == Some(
                account_records(ledger.rows_view(), uid@).last().id,
            ),
    {
        if fetch_all {
            None
        } else {
            ledger.select_latest_gacha_id(uid)
        }
    }

    /// The provenance label of a sync: the tool's name and version joined by `_`.
    pub fn source_label(app_name: &str, app_version: &str) -> (r: String)
        ensures
            r@ == app_name@ + "_"@ + app_version@,
    {
        let mut s = app_name.to_owned();
        s.append("_");
        s.append(app_version);
        s
    }

    /// Stores fetched pulls: a full resync overwrites stored rows, an incremental one keeps
    /// them. Returns the number of rows changed.
    pub fn save_fetched_records(
        ledger: &mut GachaLedger,
        uid: &str,
        records: Vec<GachaRecordItem>,
        source: &str,
        time: &str,
        fetch_all: bool,
    ) -> (r: usize)
        requires
            old(ledger).wf(),
            crate::ledger::batch_id_available(old(ledger).batches_view()),
        ensures
            final(ledger).wf(),
            r == count_changes(old(ledger).contents(), fetched_views(records@), crate::ledger::next_batch_id(old(ledger).batches_view()), fetch_all),
            r == 0 ==> final(ledger).contents() == old(ledger).contents() && final(ledger).batches_view() == old(ledger).batches_view(),
            r > 0 ==> final(ledger).contents() == apply_records(old(ledger).contents(), fetched_views(records@), crate::ledger::next_batch_id(old(ledger).batches_view()), fetch_all),
            r > 0 ==> final(ledger).batches_view().len() == old(ledger).batches_view().len() + 1,
    {
        let ghost all = records@;
        let n = records.len();
        let mut entities: Vec<GachaRecordEntity> = Vec::new();
        let mut rest = records;
        let mut i: usize = 0;
        while i < n
            invariant
                n == all.len(),
                i <= n,
                rest@ == all.skip(i as int),
                views_of(entities@) == fetched_views(all.take(i as int)),
                entities@.len() == i,
            decreases n - i,
        {
            let item = rest.remove(0);
            proof {
                assert(item == all[i as int]);
                assert(rest@ =~= all.skip(i + 1));
            }
            let ghost before = entities@;
            entities.push(GachaRecordEntity::from_item(item));
            proof {
                assert(all.take(i + 1) =~= all.take(i as int).push(all[i as int]));
                assert forall|k: int| 0 <= k < i + 1 implies #[trigger] views_of(entities@)[k] == fetched_views(all.take(i + 1))[k] by {
                    if k < i {
                        assert(entities@[k] == before[k]);
                        assert(views_of(before)[k] == fetched_views(all.take(i as int))[k]);
                    }
                }
                assert(views_of(entities@) =~= fetched_views(all.take(i + 1)));
            }
            i = i + 1;
        }
        assert(all.take(n as int) =~= all);
        ledger.insert_or_update_records(uid, entities, source, time, fetch_all)
    }

    /// The analysis of every pool of one account, recomputed from the ledger.
    pub fn update_analysis(ledger: &GachaLedger, uid: &str) -> (r: GachaAnalysisResult)
        requires
            ledger.wf(),
            ledger.rows_view().len() < 4294967295,
        ensures
            crate::ledger::views_ascending(account_records(ledger.rows_view(), uid@)),
            r@.dom() == crate::types::pool_codes().to_set(),
            forall|c: u8| #[trigger] r@.contains_key(c) ==> crate::analysis::analysis_matches(
                r@[c],
                uid@,
                c,
                crate::analysis::pool_records(account_records(ledger.rows_view(), uid@), c),
            ),
    {
        analyze_gacha_records(ledger, uid)
    }
}

} // verus!
