use srt::entity::{GachaMetadataEntity, GachaRecordItem, Metadata};
use srt::error::ErrorKey;
use srt::export::{ExportService, ItemTypeLabels};
use srt::import::{convert_time_zone, GachaFile, GachaFileFormat, ImportService};
use srt::ledger::GachaLedger;
use srt::uigf::{Srgf, SrgfInfo, Uigf, UigfGameData, UigfInfo};

fn item(id: i64, item_id: u32, rank: u8, time: &str) -> GachaRecordItem {
    GachaRecordItem {
        gacha_id: 1,
        gacha_type: 11,
        item_id,
        time: time.to_string(),
        id,
        count: 1,
        name: String::new(),
        rank_type: rank,
        uid: "610000000".to_string(),
        lang: String::new(),
        item_type: String::new(),
    }
}

fn catalogue() -> Metadata {
    let mut m = Metadata::new();
    m.insert(GachaMetadataEntity {
        item_id: 1001,
        rarity: 5,
        item_type: "character".to_string(),
        names: vec![("zh-cn".to_string(), "A".to_string()), ("en-us".to_string(), "Alpha".to_string())],
    });
    m.insert(GachaMetadataEntity {
        item_id: 2002,
        rarity: 3,
        item_type: "lightcone".to_string(),
        names: vec![("en-us".to_string(), "Beta".to_string())],
    });
    m
}

fn uigf(uid: &str, tz: i8, list: Vec<GachaRecordItem>) -> Uigf {
    Uigf {
        info: UigfInfo {
            export_time: String::new(),
            export_timestamp: 0,
            export_app: "tool".to_string(),
            export_app_version: "1.0".to_string(),
            version: "v4.1".to_string(),
        },
        hkrpg: vec![UigfGameData { uid: uid.to_string(), timezone: tz, lang: "en-us".to_string(), list }],
    }
}

fn labels() -> ItemTypeLabels {
    ItemTypeLabels { character: "Character".to_string(), light_cone: "Light Cone".to_string() }
}

#[test]
fn detects_both_formats() {
    assert_eq!(ImportService::detect_format("{\"info\":{},\"hkrpg\":[]}").unwrap(), GachaFileFormat::Uigf);
    assert_eq!(
        ImportService::detect_format("{\"info\":{\"srgf_version\":\"v1\"},\"list\":[]}").unwrap(),
        GachaFileFormat::Srgf
    );
    let e = ImportService::detect_format("{\"list\":[]}").unwrap_err();
    assert_eq!(e.msg.key, ErrorKey::InvalidUIGFFormat);
}

#[test]
fn unset_rarity_is_backfilled() {
    let v = ImportService::convert_to_entities("610000000", &vec![item(1, 1001, 0, "2024-01-01 00:00:00")], &catalogue()).unwrap();
    assert_eq!(v[0].rank_type, 5);
}

#[test]
fn unknown_item_fails_import_and_leaves_ledger_unchanged() {
    let mut ledger = GachaLedger::new();
    let doc = GachaFile::Uigf(uigf("610000000", -5, vec![item(1, 1001, 0, "2024-01-01 00:00:00")]));
    assert_eq!(ImportService::import_document(&mut ledger, "610000000", &doc, &catalogue(), "now").unwrap(), 1);
    let bad = GachaFile::Uigf(uigf(
        "610000000",
        -5,
        vec![item(2, 1001, 0, "2024-01-01 00:00:00"), item(3, 9999, 0, "2024-01-01 00:00:00")],
    ));
    let e = ImportService::import_document(&mut ledger, "610000000", &bad, &catalogue(), "now").unwrap_err();
    assert_eq!(e.msg.key, ErrorKey::MetadataItemNotFound);
    assert_eq!(e.msg.args, vec!["9999".to_string()]);
    assert_eq!(ledger.rows().len(), 1);
    assert_eq!(ledger.batches().len(), 1);
}

#[test]
fn uid_mismatch_is_an_error() {
    let mut ledger = GachaLedger::new();
    let doc = GachaFile::Uigf(uigf("100000001", 8, vec![item(1, 1001, 5, "2024-01-01 00:00:00")]));
    let e = ImportService::import_document(&mut ledger, "610000000", &doc, &catalogue(), "now").unwrap_err();
    assert_eq!(e.msg.key, ErrorKey::GachaUidMismatch);
}

#[test]
fn empty_list_imports_nothing() {
    let mut ledger = GachaLedger::new();
    let doc = GachaFile::Uigf(uigf("610000000", -5, vec![]));
    assert_eq!(ImportService::import_document(&mut ledger, "610000000", &doc, &catalogue(), "now").unwrap(), 0);
}

#[test]
fn empty_catalogue_is_an_error() {
    let mut ledger = GachaLedger::new();
    let doc = GachaFile::Uigf(uigf("610000000", -5, vec![]));
    let e = ImportService::import_document(&mut ledger, "610000000", &doc, &Metadata::new(), "now").unwrap_err();
    assert_eq!(e.msg.key, ErrorKey::MetadataNotAvailable);
}

#[test]
fn times_are_rewritten_to_server_offset() {
    let mut ledger = GachaLedger::new();
    let doc = GachaFile::Uigf(uigf("610000000", 8, vec![item(1, 1001, 5, "2024-01-02 03:00:00")]));
    ImportService::import_document(&mut ledger, "610000000", &doc, &catalogue(), "now").unwrap();
    assert_eq!(ledger.rows()[0].record.time, "2024-01-01 14:00:00");
}

#[test]
fn srgf_without_tool_name_is_labelled_unknown() {
    let doc = Srgf {
        info: SrgfInfo {
            uid: "610000000".to_string(),
            lang: "en-us".to_string(),
            region_time_zone: -5,
            export_timestamp: 0,
            export_app: String::new(),
            export_app_version: String::new(),
            srgf_version: "v1.0".to_string(),
        },
        list: vec![item(1, 1001, 5, "2024-01-01 00:00:00")],
    };
    let data = ImportService::parse_srgf("610000000", &doc, &catalogue()).unwrap().unwrap();
    assert_eq!(data.source, "unknown");
    assert_eq!(data.time_zone, -5);
}

#[test]
fn convert_time_zone_rejects_bad_offsets_and_text() {
    assert_eq!(convert_time_zone("2024-01-01 00:00:00", 30, 8).unwrap_err().msg.key, ErrorKey::InvalidTimeOffset);
    assert_eq!(convert_time_zone("yesterday", 1, 8).unwrap_err().msg.key, ErrorKey::TimeParseError);
    assert_eq!(convert_time_zone("2024-01-01 00:00:00", 1, 8).unwrap(), "2024-01-01 07:00:00");
}

#[test]
fn export_reproduces_imported_records() {
    let mut ledger = GachaLedger::new();
    let doc = GachaFile::Uigf(uigf(
        "610000000",
        -5,
        vec![item(20, 2002, 3, "2024-01-01 00:00:01"), item(10, 1001, 0, "2024-01-01 00:00:00")],
    ));
    ImportService::import_document(&mut ledger, "610000000", &doc, &catalogue(), "now").unwrap();
    let out = ExportService::export_to_uigf(&ledger, "610000000", "en-us", &catalogue(), &labels(), "t".to_string(), 7, "srt", "0.1").unwrap();
    assert_eq!(out.hkrpg.len(), 1);
    assert_eq!(out.hkrpg[0].timezone, -5);
    assert_eq!(out.info.version, "v4.1");
    let list = &out.hkrpg[0].list;
    let got: Vec<(i64, u8, u32, u8)> = list.iter().map(|i| (i.id, i.gacha_type, i.item_id, i.rank_type)).collect();
    assert_eq!(got, vec![(10, 11, 1001, 5), (20, 11, 2002, 3)]);
    assert_eq!(list[0].name, "Alpha");
    assert_eq!(list[1].item_type, "Light Cone");
}

#[test]
fn export_fails_when_name_is_missing() {
    let mut ledger = GachaLedger::new();
    let doc = GachaFile::Uigf(uigf("610000000", -5, vec![item(20, 2002, 3, "2024-01-01 00:00:01")]));
    ImportService::import_document(&mut ledger, "610000000", &doc, &catalogue(), "now").unwrap();
    let e = ExportService::export_to_uigf(&ledger, "610000000", "zh-cn", &catalogue(), &labels(), "t".to_string(), 7, "srt", "0.1").unwrap_err();
    assert_eq!(e.msg.key, ErrorKey::MetadataItemNotFound);
    assert_eq!(e.msg.args, vec!["2002".to_string()]);
}

#[test]
fn export_file_name_follows_uid() {
    assert_eq!(ExportService::export_file_name("610000000"), "GachaRecord_UIGF_610000000.json");
}

#[test]
fn duplicate_language_names_are_detected() {
    let dup = GachaMetadataEntity {
        item_id: 1,
        rarity: 5,
        item_type: "character".to_string(),
        names: vec![("en-us".to_string(), "A".to_string()), ("en-us".to_string(), "B".to_string())],
    };
    assert!(!dup.has_unique_names());
    let merged = srt::metadata::MetadataApiClient::merge_metadata_items(vec![], vec![], srt::types::GachaItemType::Character);
    assert!(merged.is_empty());
}
