use srt::entity::GachaRecordItem;
use srt::error::ErrorKey;
use srt::fetcher::{FetchAllRecords, FetchUid, Fetcher, DEFAULT_PAGE_SIZE};
use srt::gacha_url::{UrlLocator, UrlValidator};
use srt::service::GachaService;
use srt::types::GachaType;

fn item(id: i64) -> GachaRecordItem {
    GachaRecordItem {
        gacha_id: 1,
        gacha_type: 11,
        item_id: 1,
        time: String::new(),
        id,
        count: 1,
        name: String::new(),
        rank_type: 3,
        uid: "610000000".to_string(),
        lang: String::new(),
        item_type: String::new(),
    }
}

/// Serves pages of a history ordered newest first, `end_id` 0 meaning the newest.
fn serve(history: &[i64], end_id: i64, size: usize) -> Vec<GachaRecordItem> {
    history
        .iter()
        .filter(|id| end_id == 0 || **id < end_id)
        .take(size)
        .map(|id| item(*id))
        .collect()
}

fn run(history: &[i64], stop: Option<i64>) -> Vec<i64> {
    let mut st = FetchAllRecords::new(stop);
    while let Some(req) = st.next_request() {
        let page = if req.gacha_type == GachaType::CharacterEventWarp {
            serve(history, req.end_id, req.size)
        } else {
            vec![]
        };
        st.on_page(Some(page));
    }
    st.into_records().iter().map(|r| r.id).collect()
}

#[test]
fn incremental_fetch_returns_records_newer_than_stop() {
    let history: Vec<i64> = (1..=55).rev().collect();
    let got = run(&history, Some(30));
    let want: Vec<i64> = (31..=55).rev().collect();
    assert_eq!(got, want);
    assert_eq!(run(&history, None).len(), 55);
}

#[test]
fn page_requests_carry_cursor_and_size() {
    let st = FetchAllRecords::new(None);
    let req = st.next_request().unwrap();
    assert_eq!(req.size, DEFAULT_PAGE_SIZE);
    assert_eq!(req.end_id, 0);
    assert_eq!(req.path, "common/gacha_record/api/getGachaLog");
    let pairs = req.query_pairs();
    assert_eq!(pairs[1], ("gacha_type".to_string(), "11".to_string()));
    assert_eq!(Fetcher::page_path(GachaType::LightConeCollaborationWarp), "common/gacha_record/api/getLdGachaLog");
}

#[test]
fn uid_probe_stops_at_first_non_empty_pool() {
    let mut st = FetchUid::new();
    st.on_page(None);
    let req = st.next_request().unwrap();
    assert_eq!(req.gacha_type, GachaType::LightConeEventWarp);
    assert_eq!(req.size, 1);
    st.on_page(Some(vec![item(5)]));
    assert!(st.next_request().is_none());
    assert_eq!(st.result(), Some("610000000".to_string()));
    assert_eq!(GachaService::check_fetched_uid("610000000", st.result()).is_ok(), true);
    assert_eq!(GachaService::check_fetched_uid("123456789", st.result()).unwrap_err().msg.key, ErrorKey::GachaUidMismatch);
    assert_eq!(GachaService::check_fetched_uid("123456789", None).unwrap_err().msg.key, ErrorKey::GachaRecordIsEmpty);
}

fn pairs(q: &[(&str, &str)]) -> Vec<(String, String)> {
    q.iter().map(|(k, v)| (k.to_string(), v.to_string())).collect()
}

#[test]
fn url_is_rewritten_to_canonical_host() {
    let u = UrlValidator::validate_and_normalize(
        "https://example.com/x?foo=1&authkey=a%2Bb&lang=en&game_biz=HKRPG_GLOBAL&authkey_ver=1&track=2".to_string(),
    )
    .unwrap();
    assert_eq!(u.host, "https://public-operation-hkrpg-sg.hoyoverse.com/");
    assert_eq!(u.params, pairs(&[("authkey", "a+b"), ("lang", "en"), ("game_biz", "HKRPG_GLOBAL"), ("authkey_ver", "1")]));
}

#[test]
fn missing_parameters_are_all_named() {
    let e = UrlValidator::normalize_query(&pairs(&[("lang", "en")])).unwrap_err();
    assert_eq!(e.msg.key, ErrorKey::UrlMissingRequiredParameters);
    assert_eq!(e.msg.args, vec!["authkey".to_string(), "game_biz".to_string(), "authkey_ver".to_string()]);
    let e = UrlValidator::normalize_query(&pairs(&[("authkey", "a"), ("lang", "en"), ("game_biz", "x"), ("authkey_ver", "1")])).unwrap_err();
    assert_eq!(e.msg.key, ErrorKey::InvalidGameBizParameter);
    assert_eq!(UrlValidator::validate_and_normalize("not a url".to_string()).unwrap_err().msg.key, ErrorKey::UrlParseError);
}

#[test]
fn cache_text_yields_last_url() {
    let text = "xx https://a.b/?x=1&auth_appid=webview_gacha&y=2&authkey=K1&game_biz=hkrpg_cn zz https://c.d/?x=1&auth_appid=webview_gacha&y=2&authkey=K2&game_biz=hkrpg_global";
    let url = UrlLocator::parse_cache_text(text).unwrap();
    assert!(url.starts_with("https://c.d/"));
    assert!(UrlLocator::parse_cache_text("nothing").is_none());
    let log = "Loading C:/Games/Star Rail/Game/StarRail_Data/x\nD:/other/StarRail_Data";
    assert_eq!(UrlLocator::parse_game_path(log).unwrap(), "C:/Games/Star Rail/Game/StarRail_Data");
    assert_eq!(UrlLocator::parse_game_path("none").unwrap_err().msg.key, ErrorKey::GameInstallPathNotFound);
}

#[test]
fn newest_cache_file_wins() {
    let c = vec![("a".to_string(), 5u64), ("b".to_string(), 9), ("c".to_string(), 9), ("d".to_string(), 1)];
    assert_eq!(UrlLocator::find_latest_cache_file(&c).unwrap(), "c");
    assert_eq!(UrlLocator::find_latest_cache_file(&vec![]).unwrap_err().msg.key, ErrorKey::GameCacheFileNotFound);
    assert_eq!(UrlLocator::log_dir_name("610000000").unwrap(), "Cognosphere/Star Rail/");
}
