use vstd::prelude::*;

use crate::entity::{
    GachaAnalysisEntity, GachaAnalysisResult, GachaPullInfoEntity, GachaRecordEntity, RecordView,
};
use crate::ledger::{account_records, lemma_account_records_ascending, views_ascending, views_of, GachaLedger};
use crate::types::{pool_codes, pool_order, GachaType};

verus! {

broadcast use vstd::std_specs::hash::group_hash_axioms;

/// The top rarity.
pub const TOP_RARITY: u8 = 5;

/// The pulls of one pool, in the order given.
pub open spec fn pool_records(rs: Seq<RecordView>, code: u8) -> Seq<RecordView>
    decreases rs.len(),
{
    if rs.len() == 0 {
        Seq::empty()
    } else if rs.last().gacha_type == code {
        pool_records(rs.drop_last(), code).push(rs.last())
    } else {
        pool_records(rs.drop_last(), code)
    }
}

pub open spec fn rarities(rs: Seq<RecordView>) -> Seq<u8> {
    rs.map_values(|r: RecordView| r.rank_type)
}

/// The 1-based positions of the top-rarity pulls in a sequence of rarities, increasing.
pub open spec fn top_positions(rs: Seq<u8>) -> Seq<int>
    decreases rs.len(),
{
    if rs.len() == 0 {
        Seq::empty()
    } else if rs.last() == TOP_RARITY {
        top_positions(rs.drop_last()).push(rs.len() as int)
    } else {
        top_positions(rs.drop_last())
    }
}

/// The position of the last top-rarity pull, or 0 when there is none.
pub open spec fn last_top_position(rs: Seq<u8>) -> int {
    let ps = top_positions(rs);
    if ps.len() == 0 {
        0
    } else {
        ps.last()
    }
}

/// Pulls since the last top-rarity pull: all of them when there is none.
pub open spec fn pity_of(rs: Seq<u8>) -> int {
    rs.len() - last_top_position(rs)
}

/// The distance of each position from the one before it, the first from 0.
pub open spec fn gaps(ps: Seq<int>) -> Seq<int> {
    Seq::new(ps.len(), |k: int| if k == 0 { ps[0] } else { ps[k] - ps[k - 1] })
}

/// For every top-rarity pull, the pulls it took since the previous one, itself included.
pub open spec fn gap_history(rs: Seq<u8>) -> Seq<int> {
    gaps(top_positions(rs))
}

/// A history entry that describes pull `r` reached after `gap` pulls.
pub open spec fn pull_info_matches(info: GachaPullInfoEntity, r: RecordView, gap: int) -> bool {
    &&& info.gacha_type == r.gacha_type
    &&& info.id == r.id
    &&& info.item_id == r.item_id
    &&& info.time@ == r.time
    &&& info.pull_index == gap
}

/// The analysis of pool `code` of account `uid`, whose pulls in order are `pool`.
pub open spec fn analysis_matches(
    e: GachaAnalysisEntity,
    uid: Seq<char>,
    code: u8,
    pool: Seq<RecordView>,
) -> bool {
    let ps = top_positions(rarities(pool));
    &&& e.uid@ == uid
    &&& e.gacha_type == code
    &&& e.total_count == pool.len()
    &&& e.pity_count == pity_of(rarities(pool))
    &&& e.rank5@.len() == ps.len()
    &&& forall|k: int|
        0 <= k < ps.len() ==> pull_info_matches(
            #[trigger] e.rank5@[k],
            pool[ps[k] - 1],
            gap_history(rarities(pool))[k],
        )
}

proof fn lemma_positions_in_range(rs: Seq<u8>)
    ensures
        forall|k: int|
            0 <= k < top_positions(rs).len() ==> 1 <= #[trigger] top_positions(rs)[k] <= rs.len(),
        forall|k: int|
            0 <= k < top_positions(rs).len() ==> rs[#[trigger] top_positions(rs)[k] - 1] == TOP_RARITY,
        forall|i: int, j: int|
            0 <= i < j < top_positions(rs).len() ==> #[trigger] top_positions(rs)[i] < #[trigger] top_positions(rs)[j],
    decreases rs.len(),
{
    if rs.len() > 0 {
        let s = rs.drop_last();
        lemma_positions_in_range(s);
        assert forall|k: int| 0 <= k < top_positions(s).len() implies rs[#[trigger] top_positions(s)[k] - 1] == TOP_RARITY by {
            assert(s[top_positions(s)[k] - 1] == TOP_RARITY);
        }
    }
}

/// The pulls of a pool, counted: total, pity and the history of top-rarity pulls.
pub fn calc_pool(uid: &str, gacha_type: u8, records: &Vec<GachaRecordEntity>) -> (r: GachaAnalysisEntity)
    requires
        records@.len() < 4294967295,
    ensures
        analysis_matches(r, uid@, gacha_type, pool_records(views_of(records@), gacha_type)),
{
    let ghost all = views_of(records@);
    let mut rank5: Vec<GachaPullInfoEntity> = Vec::new();
    let mut count: u32 = 0;
    let mut last_top: u32 = 0;
    let mut i: usize = 0;
    while i < records.len()
        invariant
            records@.len() < 4294967295,
            all == views_of(records@),
            i <= records@.len(),
            ({
                let pool = pool_records(all.take(i as int), gacha_type);
                let ps = top_positions(rarities(pool));
                &&& count == pool.len()
                &&& last_top == last_top_position(rarities(pool))
                &&& rank5@.len() == ps.len()
                &&& forall|k: int|
                    0 <= k < ps.len() ==> pull_info_matches(
                        #[trigger] rank5@[k],
                        pool[ps[k] - 1],
                        gaps(ps)[k],
                    )
            }),
            count <= i,
            last_top <= count,
        decreases records@.len() - i,
    {
        let ghost pool = pool_records(all.take(i as int), gacha_type);
        let ghost ps = top_positions(rarities(pool));
        proof {
            assert(all.take(i + 1).drop_last() =~= all.take(i as int));
            assert(all.take(i + 1).last() == all[i as int]);
            lemma_positions_in_range(rarities(pool));
        }
        let r = &records[i];
        if r.gacha_type == gacha_type {
            let ghost npool = pool.push(r@);
            proof {
                assert(rarities(npool) =~= rarities(pool).push(r.rank_type));
                assert(rarities(npool).drop_last() =~= rarities(pool));
            }
            count = count + 1;
            if r.rank_type == TOP_RARITY {
                let info = GachaPullInfoEntity {
                    gacha_type: r.gacha_type,
                    id: r.id,
                    item_id: r.item_id,
                    time: r.time.clone(),
                    pull_index: count - last_top,
                };
                let ghost before = rank5@;
                rank5.push(info);
                proof {
                    let nps = top_positions(rarities(npool));
                    assert(nps == ps.push(count as int));
                    assert forall|k: int| 0 <= k < nps.len() implies pull_info_matches(
                        #[trigger] rank5@[k],
                        npool[nps[k] - 1],
                        gaps(nps)[k],
                    ) by {
                        if k < ps.len() {
                            assert(rank5@[k] == before[k]);
                            assert(npool[nps[k] - 1] == pool[ps[k] - 1]);
                        }
                    }
                }
                last_top = count;
            } else {
                proof {
                    let nps = top_positions(rarities(npool));
                    assert(nps == ps);
                    assert forall|k: int| 0 <= k < nps.len() implies pull_info_matches(
                        #[trigger] rank5@[k],
                        npool[nps[k] - 1],
                        gaps(nps)[k],
                    ) by {
                        assert(npool[nps[k] - 1] == pool[ps[k] - 1]);
                    }
                }
            }
        }
        i = i + 1;
    }
    assert(all.take(records@.len() as int) =~= all);
    GachaAnalysisEntity {
        uid: uid.to_owned(),
        gacha_type,
        pity_count: count - last_top,
        total_count: count,
        rank5,
    }
}

/// The analysis of every pool, from the pulls of one account in increasing id order.
pub fn analyze_records(uid: &str, records: &Vec<GachaRecordEntity>) -> (r: GachaAnalysisResult)
    requires
        records@.len() < 4294967295,
    ensures
        r@.dom() == pool_codes().to_set(),
        forall|c: u8| #[trigger] r@.contains_key(c) ==> analysis_matches(
            r@[c],
            uid@,
            c,
            pool_records(views_of(records@), c),
        ),
{
    let types = GachaType::as_array();
    let mut result = GachaAnalysisResult::empty();
    let mut k: usize = 0;
    while k < 6
        invariant
            types@ == pool_order(),
            records@.len() < 4294967295,
            k <= 6,
            result@.dom() == pool_codes().take(k as int).to_set(),
            forall|c: u8| #[trigger] result@.contains_key(c) ==> analysis_matches(
                result@[c],
                uid@,
                c,
                pool_records(views_of(records@), c),
            ),
        decreases 6 - k,
    {
        let code = types[k].code();
        let e = calc_pool(uid, code, records);
        let ghost before = result@;
        result.insert(e);
        proof {
            assert(code == pool_codes()[k as int]);
            let now = pool_codes().take(k + 1);
            let was = pool_codes().take(k as int);
            assert forall|x: u8| result@.dom().contains(x) <==> now.to_set().contains(x) by {
                if x == code {
                    assert(now[k as int] == code);
                } else {
                    if now.contains(x) {
                        let j = choose|j: int| 0 <= j < now.len() && now[j] == x;
                        assert(was[j] == x);
                        assert(before.dom().contains(x));
                    }
                    if was.contains(x) {
                        let j = choose|j: int| 0 <= j < was.len() && was[j] == x;
                        assert(now[j] == x);
                    }
                }
            }
            assert(result@.dom() =~= now.to_set());
        }
        k = k + 1;
    }
    assert(pool_codes().take(6) =~= pool_codes());
    result
}

/// The analysis of every pool of one account, from the ledger's contents, whose pulls it
/// reads in increasing id order.
pub fn analyze_gacha_records(ledger: &GachaLedger, uid: &str) -> (r: GachaAnalysisResult)
    requires
        ledger.wf(),
        ledger.rows_view().len() < 4294967295,
    ensures
        views_ascending(account_records(ledger.rows_view(), uid@)),
        r@.dom() == pool_codes().to_set(),
        forall|c: u8| #[trigger] r@.contains_key(c) ==> analysis_matches(
            r@[c],
            uid@,
            c,
            pool_records(account_records(ledger.rows_view(), uid@), c),
        ),
{
    let records = ledger.select_all(uid);
    proof {
        lemma_account_records_ascending(ledger.rows_view(), uid@);
        lemma_account_records_len(ledger.rows_view(), uid@);
    }
    analyze_records(uid, &records)
}

proof fn lemma_account_records_len(rows: Seq<crate::ledger::LedgerRow>, uid: Seq<char>)
    ensures
        account_records(rows, uid).len() <= rows.len(),
    decreases rows.len(),
{
    if rows.len() > 0 {
        lemma_account_records_len(rows.drop_last(), uid);
    }
}

/// For pulls whose top-rarity hits stand at the increasing 1-based positions `ps`, the pity
/// count is the number of pulls after the last hit (all of them when there is none) and the
/// gap history is the first position followed by the differences of successive positions.
pub proof fn lemma_pity_by_positions(rs: Seq<u8>, ps: Seq<int>)
    requires
        forall|k: int| 0 <= k < ps.len() ==> 1 <= #[trigger] ps[k] <= rs.len(),
        forall|i: int, j: int| 0 <= i < j < ps.len() ==> #[trigger] ps[i] < #[trigger] ps[j],
        forall|j: int| 1 <= j <= rs.len() ==> (rs[j - 1] == TOP_RARITY <==> ps.contains(j)),
    ensures
        top_positions(rs) == ps,
        pity_of(rs) == rs.len() - (if ps.len() == 0 { 0 } else { ps.last() }),
        gap_history(rs) == gaps(ps),
    decreases rs.len(),
{
    if rs.len() == 0 {
        if ps.len() > 0 {
            assert(1 <= ps[0] <= 0);
        }
        assert(ps =~= Seq::<int>::empty());
    } else {
        let n = rs.len() as int;
        let s = rs.drop_last();
        if rs.last() == TOP_RARITY {
            assert(ps.contains(n));
            let w = choose|w: int| 0 <= w < ps.len() && ps[w] == n;
            assert(w == ps.len() - 1) by {
                if w < ps.len() - 1 {
                    assert(ps[w] < ps[ps.len() - 1]);
                }
            }
            let q = ps.drop_last();
            assert forall|j: int| 1 <= j <= s.len() implies (s[j - 1] == TOP_RARITY <==> q.contains(j)) by {
                assert(s[j - 1] == rs[j - 1]);
                if ps.contains(j) {
                    let v = choose|v: int| 0 <= v < ps.len() && ps[v] == j;
                    assert(v < ps.len() - 1);
                    assert(q[v] == j);
                }
                if q.contains(j) {
                    let v = choose|v: int| 0 <= v < q.len() && q[v] == j;
                    assert(ps[v] == j);
                }
            }
            assert forall|k: int| 0 <= k < q.len() implies 1 <= #[trigger] q[k] <= s.len() by {
                assert(ps[k] < ps[ps.len() - 1]);
            }
            lemma_pity_by_positions(s, q);
            assert(ps =~= q.push(n));
        } else {
            assert forall|k: int| 0 <= k < ps.len() implies 1 <= #[trigger] ps[k] <= s.len() by {
                if ps[k] == n {
                    assert(ps.contains(n));
                }
            }
            assert forall|j: int| 1 <= j <= s.len() implies (s[j - 1] == TOP_RARITY <==> ps.contains(j)) by {
                assert(s[j - 1] == rs[j - 1]);
            }
            lemma_pity_by_positions(s, ps);
        }
    }
}

} // verus!
