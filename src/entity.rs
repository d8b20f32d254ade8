use std::collections::HashMap;

use vstd::prelude::*;

use crate::error::{AppError, ErrorKey, Result};
use crate::text::{i64_decimal, int_decimal, str_equals};

verus! {

broadcast use vstd::std_specs::hash::group_hash_axioms;

/// One pull as the remote service and the interchange formats carry it.
#[derive(Debug, Clone)]
pub struct GachaRecordItem {
    pub gacha_id: u32,
    pub gacha_type: u8,
    pub item_id: u32,
    pub time: String,
    pub id: i64,
    pub count: u8,
    pub name: String,
    pub rank_type: u8,
    pub uid: String,
    pub lang: String,
    pub item_type: String,
}

/// One pull as the ledger stores it.
#[derive(Debug, Clone)]
pub struct GachaRecordEntity {
    pub id: i64,
    pub uid: String,
    pub gacha_id: u32,
    pub gacha_type: u8,
    pub item_id: u32,
    pub time: String,
    pub rank_type: u8,
}

/// The plain values of a stored pull.
pub struct RecordView {
    pub id: i64,
    pub uid: Seq<char>,
    pub gacha_id: u32,
    pub gacha_type: u8,
    pub item_id: u32,
    pub time: Seq<char>,
    pub rank_type: u8,
}

impl View for GachaRecordEntity {
    type V = RecordView;

    open spec fn view(&self) -> RecordView {
        RecordView {
            id: self.id,
            uid: self.uid@,
            gacha_id: self.gacha_id,
            gacha_type: self.gacha_type,
            item_id: self.item_id,
            time: self.time@,
            rank_type: self.rank_type,
        }
    }
}

impl GachaRecordEntity {
    /// A copy with the same values.
    pub fn duplicate(&self) -> (r: Self)
        ensures
            r@ == self@,
    {
        GachaRecordEntity {
            id: self.id,
            uid: self.uid.clone(),
            gacha_id: self.gacha_id,
            gacha_type: self.gacha_type,
            item_id: self.item_id,
            time: self.time.clone(),
            rank_type: self.rank_type,
        }
    }

    /// The stored form of a fetched pull: the fields the ledger keeps.
    pub fn from_item(item: GachaRecordItem) -> (r: Self)
        ensures
            r@ == item_entity_view(&item),
    {
        GachaRecordEntity {
            id: item.id,
            uid: item.uid,
            gacha_id: item.gacha_id,
            gacha_type: item.gacha_type,
            item_id: item.item_id,
            time: item.time,
            rank_type: item.rank_type,
        }
    }
}

/// The values that the ledger keeps of a fetched pull.
pub open spec fn item_entity_view(item: &GachaRecordItem) -> RecordView {
    RecordView {
        id: item.id,
        uid: item.uid@,
        gacha_id: item.gacha_id,
        gacha_type: item.gacha_type,
        item_id: item.item_id,
        time: item.time@,
        rank_type: item.rank_type,
    }
}

/// The envelope of every response of the remote service.
#[derive(Debug)]
pub struct MihoyoApiResponse<T> {
    pub data: Option<T>,
    pub retcode: i32,
    pub message: String,
}

/// The error classification of a non-zero return code of the remote service.
pub open spec fn api_error_key(retcode: i32) -> ErrorKey {
    if retcode == -108 {
        ErrorKey::MihoyoApiInvalidLanguage
    } else if retcode == -101 {
        ErrorKey::MihoyoApiAuthkeyExpired
    } else if retcode == -100 {
        ErrorKey::MihoyoApiInvalidAuthkey
    } else if retcode == -110 {
        ErrorKey::MihoyoApiRequestTooFrequent
    } else if retcode == -111 {
        ErrorKey::MihoyoApiInvalidGameBiz
    } else {
        ErrorKey::MihoyoApiUnknownError
    }
}

impl<T> MihoyoApiResponse<T> {
    /// The payload of a successful response, or the error that its return code names,
    /// carrying the raw code and message.
    pub fn into_result(self) -> (r: Result<Option<T>>)
        ensures
            self.retcode == 0 ==> (r matches Ok(d) && d == self.data),
            self.retcode != 0 ==> (r matches Err(e) && e.key() == api_error_key(self.retcode)
                && e.msg.args@.len() == 2 && e.msg.args@[0]@ == int_decimal(self.retcode as int)
                && e.msg.args@[1]@ == self.message@),
    {
        if self.retcode == 0 {
            return Ok(self.data);
        }
        let key = if self.retcode == -108 {
            ErrorKey::MihoyoApiInvalidLanguage
        } else if self.retcode == -101 {
            ErrorKey::MihoyoApiAuthkeyExpired
        } else if self.retcode == -100 {
            ErrorKey::MihoyoApiInvalidAuthkey
        } else if self.retcode == -110 {
            ErrorKey::MihoyoApiRequestTooFrequent
        } else if self.retcode == -111 {
            ErrorKey::MihoyoApiInvalidGameBiz
        } else {
            ErrorKey::MihoyoApiUnknownError
        };
        let mut args: Vec<String> = Vec::new();
        args.push(i64_decimal(self.retcode as i64));
        args.push(self.message);
        Err(AppError::new(key, args))
    }
}

/// One provenance row: a successful ingestion call that changed the ledger.
#[derive(Debug, Clone)]
pub struct GachaUpdateLogEntity {
    pub batch_id: u32,
    pub uid: String,
    pub time: String,
    pub source: String,
}

/// One top-rarity pull in the analysis, with the pulls it took since the previous one.
#[derive(Debug, Clone)]
pub struct GachaPullInfoEntity {
    pub gacha_type: u8,
    pub id: i64,
    pub item_id: u32,
    pub time: String,
    pub pull_index: u32,
}

/// The analysis of one pool of one account.
#[derive(Debug, Clone)]
pub struct GachaAnalysisEntity {
    pub uid: String,
    pub gacha_type: u8,
    pub pity_count: u32,
    pub total_count: u32,
    pub rank5: Vec<GachaPullInfoEntity>,
}

/// One catalogue entry: rarity, kind, and the item's name in each language.
#[derive(Debug, Clone)]
pub struct GachaMetadataEntity {
    pub item_id: u32,
    pub rarity: u8,
    pub item_type: String,
    /// Pairs of language code and name, at most one per language.
    pub names: Vec<(String, String)>,
}

/// Language codes held at most once.
pub open spec fn names_unique(names: Seq<(String, String)>) -> bool {
    forall|i: int, j: int| 0 <= i < j < names.len() ==> (#[trigger] names[i]).0@ != (#[trigger] names[j]).0@
}

/// The name of an entry in a language: the first pair whose language matches.
pub open spec fn name_in(names: Seq<(String, String)>, lang: Seq<char>) -> Option<String>
    decreases names.len(),
{
    if names.len() == 0 {
        None
    } else if names[0].0@ == lang {
        Some(names[0].1)
    } else {
        name_in(names.drop_first(), lang)
    }
}

impl GachaMetadataEntity {
    /// At most one name per language.
    pub open spec fn wf(&self) -> bool {
        names_unique(self.names@)
    }

    /// Whether no language has two names.
    pub fn has_unique_names(&self) -> (r: bool)
        ensures
            r == self.wf(),
    {
        let n = self.names.len();
        let mut i: usize = 0;
        while i < n
            invariant
                n == self.names@.len(),
                i <= n,
                forall|a: int, b: int| 0 <= a < i && a < b < n ==> (#[trigger] self.names@[a]).0@ != (#[trigger] self.names@[b]).0@,
            decreases n - i,
        {
            let mut j: usize = i + 1;
            while j < n
                invariant
                    n == self.names@.len(),
                    i < n,
                    i + 1 <= j <= n,
                    forall|a: int, b: int| 0 <= a < i && a < b < n ==> (#[trigger] self.names@[a]).0@ != (#[trigger] self.names@[b]).0@,
                    forall|b: int| i < b < j ==> self.names@[i as int].0@ != (#[trigger] self.names@[b]).0@,
                decreases n - j,
            {
                if str_equals(self.names[i].0.as_str(), self.names[j].0.as_str()) {
                    return false;
                }
                j = j + 1;
            }
            i = i + 1;
        }
        true
    }
    pub fn name(&self, lang: &str) -> (r: Option<&String>)
        ensures
            r == match name_in(self.names@, lang@) {
                Some(n) => Some(&n),
                None => None::<&String>,
            },
    {
        let mut i: usize = 0;
        assert(self.names@.skip(0) =~= self.names@);
        while i < self.names.len()
            invariant
                i <= self.names@.len(),
                name_in(self.names@, lang@) == name_in(self.names@.skip(i as int), lang@),
            decreases self.names@.len() - i,
        {
            let pair = &self.names[i];
            assert(self.names@.skip(i as int).drop_first() =~= self.names@.skip(i + 1));
            if str_equals(pair.0.as_str(), lang) {
                return Some(&pair.1);
            }
            i = i + 1;
        }
        None
    }
}

/// The item catalogue, keyed by item id. Read-only once loaded.
pub struct Metadata {
    inner: HashMap<u32, GachaMetadataEntity>,
}

impl View for Metadata {
    type V = Map<u32, GachaMetadataEntity>;

    closed spec fn view(&self) -> Map<u32, GachaMetadataEntity> {
        self.inner@
    }
}

impl Metadata {
    /// Every entry holds at most one name per language.
    pub open spec fn wf(&self) -> bool {
        forall|id: u32| #[trigger] self@.contains_key(id) ==> self@[id].wf()
    }

    pub fn new() -> (r: Self)
        ensures
            r.wf(),
            r@ == Map::<u32, GachaMetadataEntity>::empty(),
    {
        Metadata { inner: HashMap::new() }
    }

    /// Adds or replaces the entry of `entity.item_id`.
    pub fn insert(&mut self, entity: GachaMetadataEntity)
        requires
            old(self).wf(),
            entity.wf(),
        ensures
            final(self).wf(),
            final(self)@ == old(self)@.insert(entity.item_id, entity),
    {
        let id = entity.item_id;
        let ghost e = entity;
        self.inner.insert(id, entity);
        assert forall|k: u32| #[trigger] self@.contains_key(k) implies self@[k].wf() by {
            if k != id {
                assert(old(self)@.contains_key(k));
            }
        }
    }

    /// A catalogue holding the given entries; a later entry replaces an earlier one.
    pub fn from_entities(entities: Vec<GachaMetadataEntity>) -> (r: Self)
        requires
            forall|k: int| 0 <= k < entities@.len() ==> (#[trigger] entities@[k]).wf(),
        ensures
            r.wf(),
            forall|k: int| 0 <= k < entities@.len() ==> r@.contains_key(#[trigger] entities@[k].item_id),
            forall|id: u32| r@.contains_key(id) ==> exists|k: int| 0 <= k < entities@.len() && #[trigger] entities@[k].item_id == id,
            forall|k: int| 0 <= k < entities@.len() && (forall|j: int| k < j < entities@.len() ==> (#[trigger] entities@[j]).item_id != entities@[k].item_id)
                ==> r@[#[trigger] entities@[k].item_id] == entities@[k],
    {
        let mut m = Metadata::new();
        let mut rest = entities;
        let ghost all = rest@;
        let mut done: usize = 0;
        let n = rest.len();
        while done < n
            invariant
                n == all.len(),
                done <= n,
                done + rest@.len() == all.len(),
                rest@ == all.skip(done as int),
                forall|k: int| 0 <= k < all.len() ==> (#[trigger] all[k]).wf(),
                m.wf(),
                forall|k: int| 0 <= k < done ==> m@.contains_key(#[trigger] all[k].item_id),
                forall|id: u32| m@.contains_key(id) ==> exists|k: int| 0 <= k < done && #[trigger] all[k].item_id == id,
                forall|k: int| 0 <= k < done && (forall|j: int| k < j < done ==> (#[trigger] all[j]).item_id != all[k].item_id)
                    ==> m@[#[trigger] all[k].item_id] == all[k],
            decreases rest@.len(),
        {
            let e = rest.remove(0);
            proof {
                assert(e == all[done as int]);
                assert(all[done as int].wf());
            }
            m.insert(e);
            proof {
                assert(rest@ =~= all.skip(done + 1));
                assert forall|k: int| 0 <= k < done + 1 && (forall|j: int| k < j < done + 1 ==> (#[trigger] all[j]).item_id != all[k].item_id)
                    implies m@[#[trigger] all[k].item_id] == all[k] by {
                    if k < done {
                        assert(all[done as int].item_id != all[k].item_id);
                    }
                }
                assert forall|id: u32| m@.contains_key(id) implies exists|k: int| 0 <= k < done + 1 && #[trigger] all[k].item_id == id by {
                    if id != all[done as int].item_id {
                        let k = choose|k: int| 0 <= k < done && #[trigger] all[k].item_id == id;
                        assert(0 <= k < done + 1);
                    }
                }
            }
            done = done + 1;
        }
        m
    }

    pub fn get(&self, item_id: u32) -> (r: Option<&GachaMetadataEntity>)
        ensures
            r == if self@.contains_key(item_id) { Some(&self@[item_id]) } else { None },
    {
        self.inner.get(&item_id)
    }

    pub fn is_empty(&self) -> (r: bool)
        ensures
            r == (self@.dom().len() == 0),
    {
        self.inner.is_empty()
    }

    /// The name of an item in a language, if the catalogue has both.
    pub fn get_item_name(&self, item_id: u32, lang: &str) -> (r: Option<&String>)
        ensures
            !self@.contains_key(item_id) ==> r is None,
            self@.contains_key(item_id) ==> r == match name_in(self@[item_id].names@, lang@) {
                Some(n) => Some(&n),
                None => None::<&String>,
            },
    {
        match self.get(item_id) {
            Some(entity) => entity.name(lang),
            None => None,
        }
    }
}

/// The analysis of every pool of one account, keyed by pool code.
pub struct GachaAnalysisResult {
    inner: HashMap<u8, GachaAnalysisEntity>,
}

impl View for GachaAnalysisResult {
    type V = Map<u8, GachaAnalysisEntity>;

    closed spec fn view(&self) -> Map<u8, GachaAnalysisEntity> {
        self.inner@
    }
}

impl GachaAnalysisResult {
    pub fn new(data: HashMap<u8, GachaAnalysisEntity>) -> (r: Self)
        ensures
            r@ == data@,
    {
        GachaAnalysisResult { inner: data }
    }

    pub fn empty() -> (r: Self)
        ensures
            r@ == Map::<u8, GachaAnalysisEntity>::empty(),
    {
        GachaAnalysisResult { inner: HashMap::new() }
    }

    pub fn insert(&mut self, analysis: GachaAnalysisEntity)
        ensures
            final(self)@ == old(self)@.insert(analysis.gacha_type, analysis),
    {
        let key = analysis.gacha_type;
        self.inner.insert(key, analysis);
    }

    pub fn get(&self, gacha_type: u8) -> (r: Option<&GachaAnalysisEntity>)
        ensures
            r == if self@.contains_key(gacha_type) { Some(&self@[gacha_type]) } else { None },
    {
        self.inner.get(&gacha_type)
    }
}

} // verus!
