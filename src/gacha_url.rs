use vstd::prelude::*;

use crate::account::{is_uid, Account};
use crate::error::{AppError, ErrorKey, Result};
use crate::game_biz::{region_of_biz, region_of_first_digit, GameBiz};
use crate::text::str_equals;

verus! {

/// The key-value pairs of a URL's query, percent-decoded and in order, as the url crate reads
/// them; `None` where the text is no valid absolute URL.
pub uninterp spec fn url_query_of(s: Seq<char>) -> Option<Seq<(Seq<char>, Seq<char>)>>;

/// The plain values of key-value pairs.
pub open spec fn pair_views(p: Seq<(String, String)>) -> Seq<(Seq<char>, Seq<char>)> {
    p.map_values(|x: (String, String)| (x.0@, x.1@))
}

/// Relies on url's `Url::parse` and `Url::query_pairs`: the decoded query pairs of an absolute
/// URL, which depend on the text alone.
#[verifier::external_body]
fn parse_query(url: &str) -> (r: Option<Vec<(String, String)>>)
    ensures
        match r {
            Some(v) => url_query_of(url@) == Some(pair_views(v@)),
            None => url_query_of(url@) is None,
        },
{
    let u = url::Url::parse(url).ok()?;
    Some(u.query_pairs().map(|(k, v)| (k.into_owned(), v.into_owned())).collect())
}

/// The lower-case form of a text, as std's `str::to_lowercase` computes it.
pub uninterp spec fn lower_of(s: Seq<char>) -> Seq<char>;

/// Relies on std's `str::to_lowercase`, whose result depends on the characters alone.
#[verifier::external_body]
fn lowercase(s: &str) -> (r: String)
    ensures
        r@ == lower_of(s@),
{
    s.to_lowercase()
}

/// The first match of `pattern`'s first capture group in `text`, as the regex crate finds it;
/// `None` also where the pattern does not compile.
pub uninterp spec fn regex_first_capture(pattern: Seq<char>, text: Seq<char>) -> Option<Seq<char>>;

/// The successive non-overlapping matches of `pattern` in `text`, in order, as the regex
/// crate finds them; none where the pattern does not compile.
pub uninterp spec fn regex_all_matches(pattern: Seq<char>, text: Seq<char>) -> Seq<Seq<char>>;

/// Relies on regex's `Regex::new` and `Regex::captures`: the text of capture group 1 of the
/// leftmost-first match.
#[verifier::external_body]
fn first_capture(pattern: &str, text: &str) -> (r: Option<String>)
    ensures
        match r {
            Some(s) => regex_first_capture(pattern@, text@) == Some(s@),
            None => regex_first_capture(pattern@, text@) is None,
        },
{
    let re = regex::Regex::new(pattern).ok()?;
    re.captures(text)?.get(1).map(|m| m.as_str().to_string())
}

/// Relies on regex's `Regex::new` and `Regex::find_iter`: the text of every match, in order.
#[verifier::external_body]
fn all_matches(pattern: &str, text: &str) -> (r: Vec<String>)
    ensures
        r@.map_values(|s: String| s@) == regex_all_matches(pattern@, text@),
{
    match regex::Regex::new(pattern) {
        Ok(re) => re.find_iter(text).map(|m| m.as_str().to_string()).collect(),
        Err(_) => Vec::new(),
    }
}

/// A validated authorization URL: the region's canonical host and the four required
/// parameters, in the order `authkey`, `lang`, `game_biz`, `authkey_ver`.
#[derive(Debug, Clone)]
pub struct GachaUrl {
    pub host: String,
    pub params: Vec<(String, String)>,
}

/// The four required query parameters, in canonical order.
pub open spec fn required_params() -> Seq<Seq<char>> {
    seq!["authkey"@, "lang"@, "game_biz"@, "authkey_ver"@]
}

/// The value of the last pair with key `key`: the one that a map built from the pairs keeps.
pub open spec fn last_value(pairs: Seq<(Seq<char>, Seq<char>)>, key: Seq<char>) -> Option<Seq<char>>
    decreases pairs.len(),
{
    if pairs.len() == 0 {
        None
    } else if pairs.last().0 == key {
        Some(pairs.last().1)
    } else {
        last_value(pairs.drop_last(), key)
    }
}

/// The required parameters absent from the pairs, in canonical order.
pub open spec fn missing_params(pairs: Seq<(Seq<char>, Seq<char>)>) -> Seq<Seq<char>> {
    required_params().filter(|k: Seq<char>| last_value(pairs, k) is None)
}

/// What validating decoded query pairs `q` gives: every missing required parameter named, in
/// canonical order; else a `game_biz` naming no region rejected; else the region's host with the
/// four required parameters, each with its last value.
pub open spec fn normalized_outcome(q: Seq<(Seq<char>, Seq<char>)>, r: Result<GachaUrl>) -> bool {
    &&& missing_params(q).len() > 0 ==> (r matches Err(e)
        && e.key() == ErrorKey::UrlMissingRequiredParameters
        && e.msg.args@.map_values(|s: String| s@) == missing_params(q))
    &&& missing_params(q).len() == 0 ==> match region_of_biz(lower_of(last_value(q, "game_biz"@)->Some_0)) {
        None => r matches Err(e) && e.key() == ErrorKey::InvalidGameBizParameter,
        Some(g) => r matches Ok(u) && u.host@ == host_of(g) && u.params@.len() == 4
            && forall|k: int| 0 <= k < 4 ==> (#[trigger] u.params@[k]).0@ == required_params()[k]
                && Some(u.params@[k].1@) == last_value(q, required_params()[k]),
    }
}

pub open spec fn host_of(g: GameBiz) -> Seq<char> {
    match g {
        GameBiz::CN => "https://public-operation-hkrpg.mihoyo.com/"@,
        GameBiz::GLOBAL => "https://public-operation-hkrpg-sg.hoyoverse.com/"@,
    }
}

pub struct UrlValidator;

impl UrlValidator {
    pub const URL_HOST_CN: &'static str = "https://public-operation-hkrpg.mihoyo.com/";

    pub const URL_HOST_GLOBAL: &'static str = "https://public-operation-hkrpg-sg.hoyoverse.com/";

    /// The value of the last pair with the given key.
    fn find_last(pairs: &Vec<(String, String)>, key: &str) -> (r: Option<String>)
        ensures
            match r {
                Some(v) => last_value(pair_views(pairs@), key@) == Some(v@),
                None => last_value(pair_views(pairs@), key@) is None,
            },
    {
        let mut i: usize = pairs.len();
        assert(pair_views(pairs@.take(i as int)) =~= pair_views(pairs@));
        while i > 0
            invariant
                i <= pairs@.len(),
                last_value(pair_views(pairs@), key@) == last_value(pair_views(pairs@.take(i as int)), key@),
            decreases i,
        {
            assert(pair_views(pairs@.take(i as int)).drop_last() =~= pair_views(pairs@.take(i - 1)));
            assert(pair_views(pairs@.take(i as int)).last() == (pairs@[i - 1].0@, pairs@[i - 1].1@));
            let pair = &pairs[i - 1];
            if str_equals(pair.0.as_str(), key) {
                return Some(pair.1.clone());
            }
            i = i - 1;
        }
        None
    }

    /// The canonical URL for decoded query pairs: the region that `game_biz` names selects the
    /// host, and only the four required parameters are kept. Fails naming every missing
    /// required parameter, or on a `game_biz` that names no region.
    pub fn normalize_query(pairs: &Vec<(String, String)>) -> (r: Result<GachaUrl>)
        ensures
            normalized_outcome(pair_views(pairs@), r),
    {
        proof {
            reveal_strlit("authkey");
            reveal_strlit("lang");
            reveal_strlit("game_biz");
            reveal_strlit("authkey_ver");
        }
        let keys: [&str; 4] = ["authkey", "lang", "game_biz", "authkey_ver"];
        assert(keys@.map_values(|k: &str| k@) =~= required_params());
        let mut found: Vec<(String, String)> = Vec::new();
        let mut missing: Vec<String> = Vec::new();
        let mut i: usize = 0;
        while i < 4
            invariant
                keys@.map_values(|k: &str| k@) == required_params(),
                i <= 4,
                missing@.map_values(|s: String| s@) == required_params().take(i as int).filter(|k: Seq<char>| last_value(pair_views(pairs@), k) is None),
                missing@.len() == 0 ==> found@.len() == i,
                missing@.len() == 0 ==> forall|k: int| 0 <= k < i ==> (#[trigger] found@[k]).0@ == required_params()[k]
                        && Some(found@[k].1@) == last_value(pair_views(pairs@), required_params()[k]),
            decreases 4 - i,
        {
            let key = keys[i];
            assert(key@ == required_params()[i as int]);
            let ghost before = required_params().take(i as int);
            assert(required_params().take(i + 1) =~= before.push(key@));
            proof {
                reveal(Seq::filter);
                assert(before.push(key@).drop_last() =~= before);
            }
            match Self::find_last(pairs, key) {
                Some(v) => {
                    found.push((key.to_owned(), v));
                },
                None => {
                    let ghost old_missing = missing@;
                    missing.push(key.to_owned());
                    assert(missing@.map_values(|s: String| s@) =~= old_missing.map_values(|s: String| s@).push(key@));
                },
            }
            i = i + 1;
        }
        assert(required_params().take(4) =~= required_params());
        if missing.len() > 0 {
            return Err(AppError::new(ErrorKey::UrlMissingRequiredParameters, missing));
        }
        assert(found@[2].0@ == "game_biz"@);
        let biz_text = lowercase(found[2].1.as_str());
        let game_biz = match GameBiz::from_str(biz_text.as_str()) {
            Ok(g) => g,
            Err(_) => {
                return Err(AppError::of(ErrorKey::InvalidGameBizParameter));
            },
        };
        let host = match game_biz {
            GameBiz::CN => Self::URL_HOST_CN.to_owned(),
            GameBiz::GLOBAL => Self::URL_HOST_GLOBAL.to_owned(),
        };
        proof {
            reveal_strlit("https://public-operation-hkrpg.mihoyo.com/");
            reveal_strlit("https://public-operation-hkrpg-sg.hoyoverse.com/");
        }
        Ok(GachaUrl { host, params: found })
    }

    /// Validates and canonicalizes a raw authorization URL: it must parse, and its decoded
    /// query must pass `normalize_query`.
    pub fn validate_and_normalize(url: String) -> (r: Result<GachaUrl>)
        ensures
            url_query_of(url@) is None ==> (r matches Err(e) && e.key() == ErrorKey::UrlParseError),
            url_query_of(url@) matches Some(q) ==> normalized_outcome(q, r),
    {
        match parse_query(url.as_str()) {
            Some(pairs) => Self::normalize_query(&pairs),
            None => Err(AppError::of(ErrorKey::UrlParseError)),
        }
    }
}

/// The pattern of the installation path recorded in the player log.
pub const GAME_PATH_PATTERN: &'static str = "([A-Z]:/.+StarRail_Data)";

/// The pattern of an authorization URL in the web cache.
pub const GACHA_URL_PATTERN: &'static str = "https://.+?&auth_appid=webview_gacha&.+?authkey=.+?&game_biz=hkrpg_(?:cn|global)";

pub open spec fn log_dir_of(g: GameBiz) -> Seq<char> {
    match g {
        GameBiz::CN => "miHoYo/\u{5d29}\u{574f}\u{ff1a}\u{661f}\u{7a79}\u{94c1}\u{9053}/"@,
        GameBiz::GLOBAL => "Cognosphere/Star Rail/"@,
    }
}

pub struct UrlLocator;

impl UrlLocator {
    pub const LOG_PATH_CN: &'static str = "miHoYo/\u{5d29}\u{574f}\u{ff1a}\u{661f}\u{7a79}\u{94c1}\u{9053}/";

    pub const LOG_PATH_GLOBAL: &'static str = "Cognosphere/Star Rail/";

    /// The directory, under the user's `AppData/LocalLow`, that holds the account's player log.
    pub fn log_dir_name(uid: &str) -> (r: Result<&'static str>)
        ensures
            r is Ok <==> is_uid(uid@),
            r matches Ok(d) ==> d@ == log_dir_of(region_of_first_digit(uid@[0])),
            r matches Err(e) ==> e.key() == ErrorKey::InvalidUidFormat,
    {
        let user = Account::new(uid)?;
        proof {
            reveal_strlit("miHoYo/\u{5d29}\u{574f}\u{ff1a}\u{661f}\u{7a79}\u{94c1}\u{9053}/");
            reveal_strlit("Cognosphere/Star Rail/");
        }
        match user.game_biz {
            GameBiz::CN => Ok(Self::LOG_PATH_CN),
            GameBiz::GLOBAL => Ok(Self::LOG_PATH_GLOBAL),
        }
    }

    /// The installation path recorded in the player log's text: the first match wins, since
    /// the log only grows and its earliest entry is authoritative.
    pub fn parse_game_path(log_content: &str) -> (r: Result<String>)
        ensures
            match regex_first_capture(GAME_PATH_PATTERN@, log_content@) {
                Some(p) => r matches Ok(s) && s@ == p,
                None => r matches Err(e) && e.key() == ErrorKey::GameInstallPathNotFound,
            },
    {
        match first_capture(GAME_PATH_PATTERN, log_content) {
            Some(p) => Ok(p),
            None => Err(AppError::of(ErrorKey::GameInstallPathNotFound)),
        }
    }

    /// The authorization URL in the cache file's text: the last match, since newer writes tend
    /// to land near the end.
    pub fn parse_cache_text(content: &str) -> (r: Option<String>)
        ensures
            match r {
                Some(s) => regex_all_matches(GACHA_URL_PATTERN@, content@).len() > 0
                    && s@ == regex_all_matches(GACHA_URL_PATTERN@, content@).last(),
                None => regex_all_matches(GACHA_URL_PATTERN@, content@).len() == 0,
            },
    {
        let mut found = all_matches(GACHA_URL_PATTERN, content);
        proof {
            let m = regex_all_matches(GACHA_URL_PATTERN@, content@);
            if found@.len() > 0 {
                assert(m.last() == found@.last()@);
            }
        }
        found.pop()
    }

    /// Among cache files and their creation times, the newest; of equally new ones, the last
    /// listed. Fails when there is none.
    pub fn find_latest_cache_file(candidates: &Vec<(String, u64)>) -> (r: Result<String>)
        ensures
            candidates@.len() == 0 ==> (r matches Err(e) && e.key() == ErrorKey::GameCacheFileNotFound),
            candidates@.len() > 0 ==> (r matches Ok(p) && exists|k: int| 0 <= k < candidates@.len()
                && p@ == (#[trigger] candidates@[k]).0@
                && (forall|j: int| 0 <= j < candidates@.len() ==> (#[trigger] candidates@[j]).1 <= candidates@[k].1)
                && (forall|j: int| k < j < candidates@.len() ==> (#[trigger] candidates@[j]).1 < candidates@[k].1)),
    {
        if candidates.len() == 0 {
            return Err(AppError::of(ErrorKey::GameCacheFileNotFound));
        }
        let mut best: usize = 0;
        let mut i: usize = 1;
        while i < candidates.len()
            invariant
                1 <= i <= candidates@.len(),
                best < i,
                forall|j: int| 0 <= j < i ==> (#[trigger] candidates@[j]).1 <= candidates@[best as int].1,
                forall|j: int| best < j < i ==> (#[trigger] candidates@[j]).1 < candidates@[best as int].1,
            decreases candidates@.len() - i,
        {
            if candidates[i].1 >= candidates[best].1 {
                best = i;
            }
            i = i + 1;
        }
        Ok(candidates[best].0.clone())
    }
}

} // verus!
