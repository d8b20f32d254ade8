use srt::analysis::{analyze_records, calc_pool};
use srt::entity::{GachaRecordEntity, GachaUpdateLogEntity};
use srt::ledger::GachaLedger;

fn record(id: i64, gacha_type: u8, rank: u8) -> GachaRecordEntity {
    GachaRecordEntity {
        id,
        uid: "610000000".to_string(),
        gacha_id: 1,
        gacha_type,
        item_id: 1000 + id as u32,
        time: "2024-01-01 00:00:00".to_string(),
        rank_type: rank,
    }
}

#[test]
fn merging_twice_preserving_changes_nothing_the_second_time() {
    let mut ledger = GachaLedger::new();
    let rs = vec![record(200, 1, 3), record(100, 1, 5), record(150, 1, 3)];
    let first = ledger.insert_or_update_records("610000000", rs.clone(), "tool_1", "t", false);
    assert_eq!(first, 3);
    assert_eq!(ledger.batches().len(), 1);
    let second = ledger.insert_or_update_records("610000000", rs, "tool_1", "t", false);
    assert_eq!(second, 0);
    assert_eq!(ledger.batches().len(), 1);
    let ids: Vec<i64> = ledger.rows().iter().map(|r| r.record.id).collect();
    assert_eq!(ids, vec![100, 150, 200]);
}

#[test]
fn overwrite_replaces_content_but_not_id() {
    let mut ledger = GachaLedger::new();
    ledger.insert_or_update_records("610000000", vec![record(100, 1, 3)], "a", "t", false);
    let changed = ledger.insert_or_update_records("610000000", vec![record(100, 1, 4)], "b", "t", true);
    assert_eq!(changed, 1);
    assert_eq!(ledger.rows().len(), 1);
    assert_eq!(ledger.rows()[0].record.rank_type, 4);
    assert_eq!(ledger.rows()[0].batch_id, 2);
    assert_eq!(ledger.batches()[1].source, "b");
}

#[test]
fn empty_merge_writes_no_batch() {
    let mut ledger = GachaLedger::new();
    assert_eq!(ledger.insert_or_update_records("610000000", vec![], "a", "t", false), 0);
    assert_eq!(ledger.batches().len(), 0);
}

#[test]
fn latest_id_is_largest_of_account() {
    let mut ledger = GachaLedger::new();
    assert_eq!(ledger.select_latest_gacha_id("610000000"), None);
    ledger.insert_or_update_records("610000000", vec![record(150, 1, 3), record(100, 11, 3)], "a", "t", false);
    let mut other = record(300, 1, 3);
    other.uid = "100000001".to_string();
    ledger.insert_or_update_records("100000001", vec![other], "a", "t", false);
    assert_eq!(ledger.select_latest_gacha_id("610000000"), Some(150));
    assert_eq!(ledger.select_all("610000000").len(), 2);
}

#[test]
fn pity_and_gap_history_for_five_pulls() {
    let rs = vec![record(100, 1, 3), record(150, 1, 5), record(200, 1, 3), record(250, 1, 3), record(300, 1, 5)];
    let a = calc_pool("610000000", 1, &rs);
    assert_eq!(a.pity_count, 0);
    assert_eq!(a.total_count, 5);
    let gaps: Vec<u32> = a.rank5.iter().map(|p| p.pull_index).collect();
    assert_eq!(gaps, vec![2, 3]);
    assert_eq!(a.rank5[0].id, 150);
    assert_eq!(a.rank5[1].id, 300);
}

#[test]
fn pity_counts_pulls_after_last_hit() {
    let rs = vec![record(100, 1, 3), record(150, 1, 5), record(200, 1, 3), record(250, 1, 3), record(300, 1, 5), record(350, 1, 3)];
    let a = calc_pool("610000000", 1, &rs);
    assert_eq!(a.pity_count, 1);
    assert_eq!(a.total_count, 6);
}

#[test]
fn pity_without_hit_is_total() {
    let rs = vec![record(1, 2, 3), record(2, 2, 4), record(3, 1, 5)];
    let a = calc_pool("610000000", 2, &rs);
    assert_eq!(a.pity_count, 2);
    assert!(a.rank5.is_empty());
}

#[test]
fn analysis_covers_every_pool() {
    let rs = vec![record(1, 11, 5), record(2, 12, 3)];
    let result = analyze_records("610000000", &rs);
    for code in [1u8, 2, 11, 12, 21, 22] {
        assert!(result.get(code).is_some());
    }
    assert_eq!(result.get(11).unwrap().pity_count, 0);
    assert_eq!(result.get(12).unwrap().pity_count, 1);
    assert_eq!(result.get(21).unwrap().total_count, 0);
}

#[test]
fn batch_ids_with_gaps_load_and_continue_after_the_last() {
    let log = |batch_id: u32| GachaUpdateLogEntity {
        batch_id,
        uid: "610000000".to_string(),
        time: "t".to_string(),
        source: "s".to_string(),
    };
    assert!(GachaLedger::load(vec![], vec![log(3), log(1)]).is_none());
    let mut ledger = GachaLedger::load(vec![], vec![log(1), log(3)]).unwrap();
    assert!(ledger.can_add_batch());
    ledger.insert_or_update_records("610000000", vec![record(5, 1, 3)], "s", "t", false);
    assert_eq!(ledger.batches()[2].batch_id, 4);
    assert_eq!(ledger.rows()[0].batch_id, 4);
}
