use srt::account::{AcountUid, Account};
use srt::config::{AppConfig, ConfigItem, Lang, LogLevel};
use srt::entity::MihoyoApiResponse;
use srt::error::ErrorKey;
use srt::game_biz::GameBiz;
use srt::notification::{Notification, NotificationManager, NotificationType};
use srt::text::{i64_decimal, str_contains};
use srt::types::{GachaItemType, GachaType};
use srt::widgets::{GachaDataWidget, HelpWidget, SettingWidget};

#[test]
fn six_prefix_account_is_global_at_minus_five() {
    assert_eq!(GameBiz::from_uid("61000000"), GameBiz::GLOBAL);
    assert_eq!(Account::calc_server_time_zone("61000000"), -5);
    let a = Account::new("610000000").unwrap();
    assert_eq!(a.game_biz, GameBiz::GLOBAL);
    assert_eq!(a.server_time_zone, -5);
}

#[test]
fn regions_and_offsets_by_first_digit() {
    let cn = Account::new("123456789").unwrap();
    assert_eq!(cn.game_biz, GameBiz::CN);
    assert_eq!(cn.server_time_zone, 8);
    let eu = Account::new("712345678").unwrap();
    assert_eq!(eu.game_biz, GameBiz::GLOBAL);
    assert_eq!(eu.server_time_zone, 1);
}

#[test]
fn malformed_uids_are_rejected() {
    assert!(!AcountUid::is_valid("61000000"));
    assert!(!AcountUid::is_valid("012345678"));
    assert!(!AcountUid::is_valid("12345678a"));
    assert!(AcountUid::is_valid("123456789"));
    assert_eq!(Account::new("abc").unwrap_err().msg.key, ErrorKey::InvalidUidFormat);
    assert_eq!(AcountUid::new("123456789").unwrap().as_str(), "123456789");
}

#[test]
fn game_biz_text() {
    assert_eq!(GameBiz::from_str("hkrpg_cn").unwrap(), GameBiz::CN);
    assert_eq!(GameBiz::from_str("hkrpg_global").unwrap(), GameBiz::GLOBAL);
    assert_eq!(GameBiz::from_str("x").unwrap_err().0, "x");
}

#[test]
fn pool_codes_and_names() {
    assert_eq!(GachaType::LightConeCollaborationWarp.as_str(), "22");
    assert_eq!(GachaType::RegularWarp.as_str(), "1");
    assert_eq!(GachaType::StarterWarp.name(), "StarterWarp");
    assert_eq!(GachaType::as_array()[0], GachaType::CharacterEventWarp);
    assert_eq!(GachaType::from_code(12), Some(GachaType::LightConeEventWarp));
    assert_eq!(GachaItemType::from_str("lightcone"), GachaItemType::LightCone);
    assert_eq!(GachaItemType::Character.as_str(), "character");
}

#[test]
fn api_return_codes_map_to_errors() {
    let ok: MihoyoApiResponse<u8> = MihoyoApiResponse { data: Some(3), retcode: 0, message: "OK".to_string() };
    assert_eq!(ok.into_result().unwrap(), Some(3));
    let cases = [
        (-108, ErrorKey::MihoyoApiInvalidLanguage),
        (-101, ErrorKey::MihoyoApiAuthkeyExpired),
        (-100, ErrorKey::MihoyoApiInvalidAuthkey),
        (-110, ErrorKey::MihoyoApiRequestTooFrequent),
        (-111, ErrorKey::MihoyoApiInvalidGameBiz),
        (-1, ErrorKey::MihoyoApiUnknownError),
    ];
    for (code, key) in cases {
        let r: MihoyoApiResponse<u8> = MihoyoApiResponse { data: None, retcode: code, message: "m".to_string() };
        let e = r.into_result().unwrap_err();
        assert_eq!(e.msg.key, key);
        assert_eq!(e.msg.args, vec![code.to_string(), "m".to_string()]);
    }
}

#[test]
fn decimal_text_and_search() {
    assert_eq!(i64_decimal(i64::MIN), "-9223372036854775808");
    assert_eq!(i64_decimal(0), "0");
    assert_eq!(i64_decimal(1234), "1234");
    assert!(str_contains("abcdef", "cde"));
    assert!(!str_contains("abc", "abcd"));
}

#[test]
fn settings_round_trip_through_rows() {
    let config = AppConfig { log_level: LogLevel::Warn, language: Lang::EnUs, check_update: false };
    let rows = AppConfig::save_config(&config);
    assert_eq!(rows[0], ("LOG_LEVEL".to_string(), "WARN".to_string()));
    assert_eq!(AppConfig::load_config(&rows), config);
    assert_eq!(AppConfig::load_config(&vec![]), AppConfig::default());
    assert_eq!(ConfigItem::Language.as_str(), "LANGUAGE");
    assert_eq!(LogLevel::parse("2"), Some(LogLevel::Warn));
    assert_eq!(LogLevel::parse("dEbUg"), Some(LogLevel::Debug));
    assert_eq!(LogLevel::parse("6"), None);
}

#[test]
fn notifications_keep_five_newest() {
    let mut m = NotificationManager::new();
    for i in 0..7u64 {
        m.add(Notification::new(&format!("n{}", i), NotificationType::Info, i));
    }
    assert_eq!(m.notifications.len(), 5);
    assert_eq!(m.notifications[0].message, "n6");
    let e = Notification::new("e", NotificationType::Error, 0);
    assert!(!e.is_expired(9_999));
    assert!(e.is_expired(10_000));
    m.remove_expired(5_003);
    assert_eq!(m.notifications.len(), 3);
}

#[test]
fn widgets_scroll_and_cycle() {
    let mut h = HelpWidget { scroll_offset: 0, total_lines: 12, view_height: 5 };
    h.scroll_down();
    assert_eq!(h.scroll_offset, 5);
    h.scroll_down();
    assert_eq!(h.scroll_offset, 7);
    h.scroll_up();
    assert_eq!(h.scroll_offset, 2);
    let mut g = GachaDataWidget::new();
    g.prev_tab();
    assert_eq!(g.tab_index, 5);
    g.next_tab();
    assert_eq!(g.tab_index, 0);
    g.max_scroll_offset[0] = 3;
    g.scroll_down(10);
    assert_eq!(g.scroll_row_offset[0], 3);
    let mut s = SettingWidget::new();
    s.select_prev();
    assert_eq!(s.selected_index, 2);
    s.increase_value();
    assert_eq!(s.temp_config.log_level, LogLevel::Warn);
    s.decrease_value();
    s.decrease_value();
    assert_eq!(s.temp_config.log_level, LogLevel::Debug);
    s.select_next();
    s.increase_value();
    assert_eq!(s.temp_config.language, Lang::EnUs);
    assert_eq!(s.get_language_display(), "English");
}
