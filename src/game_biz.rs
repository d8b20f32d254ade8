use vstd::prelude::*;

use crate::text::str_equals;

verus! {

/// The two server regions an account can belong to.
#[derive(Debug, Clone, Copy, PartialEq, Eq, Structural)]
pub enum GameBiz {
    GLOBAL,
    CN,
}

/// A `game_biz` value that names no region; it holds the rejected text.
#[derive(Debug, Clone)]
pub struct ParseGameBizError(pub String);

/// The region of an account whose identifier starts with `first`.
pub open spec fn region_of_first_digit(first: char) -> GameBiz {
    if '1' <= first && first <= '5' {
        GameBiz::CN
    } else {
        GameBiz::GLOBAL
    }
}

/// The region that a `game_biz` query value names, if any.
pub open spec fn region_of_biz(s: Seq<char>) -> Option<GameBiz> {
    if s == "hkrpg_global"@ {
        Some(GameBiz::GLOBAL)
    } else if s == "hkrpg_cn"@ {
        Some(GameBiz::CN)
    } else {
        None
    }
}

impl GameBiz {
    /// Reads a `game_biz` query value.
    pub fn from_str(s: &str) -> (r: core::result::Result<GameBiz, ParseGameBizError>)
        ensures
            region_of_biz(s@) matches Some(g) ==> r == Ok::<GameBiz, ParseGameBizError>(g),
            region_of_biz(s@) is None ==> (r matches Err(e) && e.0@ == s@),
    {
        if str_equals(s, "hkrpg_global") {
            Ok(GameBiz::GLOBAL)
        } else if str_equals(s, "hkrpg_cn") {
            Ok(GameBiz::CN)
        } else {
            Err(ParseGameBizError(s.to_owned()))
        }
    }

    /// The region of an account, from the first digit of its identifier.
    pub fn from_uid(uid: &str) -> (r: GameBiz)
        requires
            uid@.len() > 0,
            '1' <= uid@[0] <= '9',
        ensures
            r == region_of_first_digit(uid@[0]),
    {
        let first = uid.get_char(0);
        if '1' <= first && first <= '5' {
            GameBiz::CN
        } else {
            GameBiz::GLOBAL
        }
    }
}

} // verus!
