use vstd::prelude::*;

use crate::error::{AppError, ErrorKey, Result};
use crate::game_biz::{region_of_first_digit, GameBiz};

verus! {

/// The pattern of an account identifier: nine decimal digits, the first of them not zero.
pub const UID_PATTERN: &'static str = "^[1-9][0-9]{8}$";

/// Whether the regex crate finds a match of `pattern` in `text`; false where the pattern does
/// not compile.
pub uninterp spec fn regex_matches(pattern: Seq<char>, text: Seq<char>) -> bool;

/// Relies on regex's `Regex::new` and `Regex::is_match`, whose result depends on the pattern and
/// the text alone.
#[verifier::external_body]
fn is_match(pattern: &str, text: &str) -> (r: bool)
    ensures
        r == regex_matches(pattern@, text@),
{
    match regex::Regex::new(pattern) {
        Ok(re) => re.is_match(text),
        Err(_) => false,
    }
}

/// An account identifier: text that `UID_PATTERN` matches, whose first character, the region
/// digit, is 1 to 9.
pub open spec fn is_uid(s: Seq<char>) -> bool {
    &&& regex_matches(UID_PATTERN@, s)
    &&& s.len() > 0
    &&& '1' <= s[0] <= '9'
}

/// The server's UTC offset in hours for an account whose identifier starts with `first`.
pub open spec fn server_offset_of_first_digit(first: char) -> i8 {
    if first == '6' {
        -5i8
    } else if first == '7' {
        1i8
    } else {
        8i8
    }
}

/// A validated account identifier.
#[derive(Debug, Clone)]
pub struct AcountUid {
    inner: String,
}

impl View for AcountUid {
    type V = Seq<char>;

    closed spec fn view(&self) -> Seq<char> {
        self.inner@
    }
}

impl AcountUid {
    pub fn new(uid: &str) -> (r: Result<Self>)
        ensures
            r matches Ok(u) ==> u@ == uid@,
            r is Ok <==> is_uid(uid@),
            r matches Err(e) ==> e.key() == ErrorKey::InvalidUidFormat,
    {
        if !Self::is_valid(uid) {
            return Err(AppError::of(ErrorKey::InvalidUidFormat));
        }
        Ok(AcountUid { inner: uid.to_owned() })
    }

    pub fn is_valid(uid: &str) -> (r: bool)
        ensures
            r == is_uid(uid@),
    {
        if !is_match(UID_PATTERN, uid) {
            return false;
        }
        if uid.unicode_len() == 0 {
            return false;
        }
        let first = uid.get_char(0);
        '1' <= first && first <= '9'
    }

    pub fn as_str(&self) -> (r: &str)
        ensures
            r@ == self@,
    {
        self.inner.as_str()
    }
}

/// An account: its identifier with the region and server time zone derived from it.
#[derive(Debug, Clone)]
pub struct Account {
    pub uid: AcountUid,
    pub game_biz: GameBiz,
    pub server_time_zone: i8,
}

impl Account {
    /// Whether the region and time zone are those that the identifier determines.
    pub open spec fn wf(&self) -> bool {
        &&& is_uid(self.uid@)
        &&& self.game_biz == region_of_first_digit(self.uid@[0])
        &&& self.server_time_zone == server_offset_of_first_digit(self.uid@[0])
    }

    pub fn new(uid: &str) -> (r: Result<Self>)
        ensures
            r is Ok <==> is_uid(uid@),
            r matches Ok(a) ==> a.wf() && a.uid@ == uid@,
            r matches Err(e) ==> e.key() == ErrorKey::InvalidUidFormat,
    {
        if !AcountUid::is_valid(uid) {
            return Err(AppError::of(ErrorKey::InvalidUidFormat));
        }
        let game_biz = GameBiz::from_uid(uid);
        let server_time_zone = Self::calc_server_time_zone(uid);
        let uid = AcountUid::new(uid)?;
        Ok(Account { uid, game_biz, server_time_zone })
    }

    /// The server's UTC offset, from the first digit of the identifier.
    pub fn calc_server_time_zone(uid: &str) -> (r: i8)
        requires
            uid@.len() > 0,
        ensures
            r == server_offset_of_first_digit(uid@[0]),
    {
        let first = uid.get_char(0);
        if first == '6' {
            -5
        } else if first == '7' {
            1
        } else {
            8
        }
    }
}

} // verus!
