use vstd::prelude::*;

use crate::account::{is_uid, server_offset_of_first_digit, Account};
use crate::entity::{GachaRecordEntity, GachaRecordItem, Metadata, GachaMetadataEntity, RecordView};
use crate::error::{AppError, ErrorKey, Result};
use crate::ledger::{apply_records, count_changes, GachaLedger};
use crate::text::{contains_text, i64_decimal, str_contains, u64_decimal};
use crate::uigf::{Srgf, Uigf, UigfGameData};

verus! {

/// The wall-clock layout of every stored and interchanged timestamp.
pub const TIME_FORMAT: &'static str = "[year]-[month]-[day] [hour]:[minute]:[second]";

/// The text `t`, a wall-clock time in layout `format` at UTC offset `src_hours`, rewritten as
/// the same instant at offset `dst_hours`; `None` where the time crate rejects any part.
pub uninterp spec fn time_in_offset(
    t: Seq<char>,
    format: Seq<char>,
    src_hours: int,
    dst_hours: int,
) -> Option<Seq<char>>;

/// Relies on the time crate's `format_description::parse`, `UtcOffset::from_hms`,
/// `PrimitiveDateTime::parse`, `assume_offset`, `checked_to_offset` and `OffsetDateTime::format`
/// to rewrite a wall-clock time from one UTC offset to another.
#[verifier::external_body]
fn shift_offset(t: &str, format: &str, src_hours: i8, dst_hours: i8) -> (r: Option<String>)
    ensures
        match r {
            Some(s) => time_in_offset(t@, format@, src_hours as int, dst_hours as int) == Some(s@),
            None => time_in_offset(t@, format@, src_hours as int, dst_hours as int) is None,
        },
{
    let items = time::format_description::parse(format).ok()?;
    let src = time::UtcOffset::from_hms(src_hours, 0, 0).ok()?;
    let dst = time::UtcOffset::from_hms(dst_hours, 0, 0).ok()?;
    let local = time::PrimitiveDateTime::parse(t, &items).ok()?;
    local.assume_offset(src).checked_to_offset(dst)?.format(&items).ok()
}

/// Whether the time crate accepts `h` as a whole-hour UTC offset.
pub open spec fn valid_offset(h: int) -> bool {
    -25 <= h <= 25
}

/// Rewrites a wall-clock time from one UTC offset to another.
pub fn convert_time_zone(time: &str, src_offset: i8, dst_offset: i8) -> (r: Result<String>)
    ensures
        !valid_offset(src_offset as int) ==> (r matches Err(e) && e.key() == ErrorKey::InvalidTimeOffset),
        valid_offset(src_offset as int) && !valid_offset(dst_offset as int) ==> (r matches Err(e)
            && e.key() == ErrorKey::InvalidTimeOffset),
        valid_offset(src_offset as int) && valid_offset(dst_offset as int) ==> match time_in_offset(
            time@,
            TIME_FORMAT@,
            src_offset as int,
            dst_offset as int,
        ) {
            Some(s) => r matches Ok(o) && o@ == s,
            None => r matches Err(e) && e.key() == ErrorKey::TimeParseError,
        },
{
    if !(-25 <= src_offset && src_offset <= 25) {
        let mut args: Vec<String> = Vec::new();
        args.push(i64_decimal(src_offset as i64));
        return Err(AppError::new(ErrorKey::InvalidTimeOffset, args));
    }
    if !(-25 <= dst_offset && dst_offset <= 25) {
        let mut args: Vec<String> = Vec::new();
        args.push(i64_decimal(dst_offset as i64));
        return Err(AppError::new(ErrorKey::InvalidTimeOffset, args));
    }
    match shift_offset(time, TIME_FORMAT, src_offset, dst_offset) {
        Some(s) => Ok(s),
        None => Err(AppError::of(ErrorKey::TimeParseError)),
    }
}

/// The two interchange formats.
#[derive(Debug, Clone, Copy, PartialEq, Eq, Structural)]
pub enum GachaFileFormat {
    Uigf,
    Srgf,
}

/// A parsed interchange document of either format.
pub enum GachaFile {
    Uigf(Uigf),
    Srgf(Srgf),
}

/// The format whose field signature a document's text carries, if any.
pub open spec fn format_of(content: Seq<char>) -> Option<GachaFileFormat> {
    if contains_text(content, "\"info\""@) && contains_text(content, "\"hkrpg\""@) {
        Some(GachaFileFormat::Uigf)
    } else if contains_text(content, "\"info\""@) && contains_text(content, "\"srgf_version\""@)
        && contains_text(content, "\"list\""@) {
        Some(GachaFileFormat::Srgf)
    } else {
        None
    }
}

/// Pulls read from a document for one account, ready to be merged.
pub struct ImportData {
    pub uid: String,
    pub source: String,
    pub time_zone: i8,
    pub list: Vec<GachaRecordEntity>,
}

/// Whether the rarity of an imported pull can be settled: it is set, or the catalogue knows it.
pub open spec fn rarity_resolvable(item: GachaRecordItem, meta: Map<u32, GachaMetadataEntity>) -> bool {
    item.rank_type != 0 || meta.contains_key(item.item_id)
}

/// Whether `k` is the first pull whose rarity cannot be settled.
pub open spec fn first_unresolvable(items: Seq<GachaRecordItem>, meta: Map<u32, GachaMetadataEntity>, k: int) -> bool {
    &&& 0 <= k < items.len()
    &&& !rarity_resolvable(items[k], meta)
    &&& forall|j: int| 0 <= j < k ==> rarity_resolvable(#[trigger] items[j], meta)
}

/// Whether an error carries, as its one argument, the item id of the first pull whose rarity
/// cannot be settled.
pub open spec fn names_first_unresolvable(e: AppError, items: Seq<GachaRecordItem>, meta: Map<u32, GachaMetadataEntity>) -> bool {
    exists|k: int| #[trigger] first_unresolvable(items, meta, k) && e.msg.args@.len() == 1
        && e.msg.args@[0]@ == crate::text::nat_decimal(items[k].item_id as nat)
}

/// The stored values of an imported pull: owned by `uid`, with an unset rarity taken from the
/// catalogue.
pub open spec fn imported_view(
    item: GachaRecordItem,
    uid: Seq<char>,
    meta: Map<u32, GachaMetadataEntity>,
) -> RecordView {
    RecordView {
        id: item.id,
        uid,
        gacha_id: item.gacha_id,
        gacha_type: item.gacha_type,
        item_id: item.item_id,
        time: item.time@,
        rank_type: if item.rank_type == 0 { meta[item.item_id].rarity } else { item.rank_type },
    }
}

/// The label of a document's exporting tool: its name and version joined by `_`.
pub open spec fn source_label(app: Seq<char>, version: Seq<char>) -> Seq<char> {
    app + "_"@ + version
}

/// The text under which an imported time is stored: as written when the document and the
/// account share a UTC offset, else rewritten to the account's offset; `None` where it cannot be.
pub open spec fn stored_time(t: Seq<char>, file_zone: i8, account_zone: i8) -> Option<Seq<char>> {
    if file_zone == account_zone {
        Some(t)
    } else if valid_offset(file_zone as int) && valid_offset(account_zone as int) {
        time_in_offset(t, TIME_FORMAT@, file_zone as int, account_zone as int)
    } else {
        None
    }
}

/// Whether block `k` is the first block of account `uid`.
pub open spec fn is_first_block(blocks: Seq<UigfGameData>, uid: Seq<char>, k: int) -> bool {
    &&& 0 <= k < blocks.len()
    &&& blocks[k].uid@ == uid
    &&& forall|j: int| 0 <= j < k ==> (#[trigger] blocks[j]).uid@ != uid
}

/// The pulls and the UTC offset that a document holds for account `uid`, if it holds any.
pub open spec fn doc_selection(doc: GachaFile, uid: Seq<char>) -> Option<(Seq<GachaRecordItem>, i8)> {
    match doc {
        GachaFile::Uigf(u) => if exists|k: int| is_first_block(u.hkrpg@, uid, k) {
            let k = choose|k: int| is_first_block(u.hkrpg@, uid, k);
            Some((u.hkrpg@[k].list@, u.hkrpg@[k].timezone))
        } else {
            None
        },
        GachaFile::Srgf(s) => if s.info.uid@ == uid {
            Some((s.list@, s.info.region_time_zone))
        } else {
            None
        },
    }
}

/// The stored values of the pulls an import writes: rarities settled, times rewritten to the
/// account's server offset.
pub open spec fn import_views(
    items: Seq<GachaRecordItem>,
    uid: Seq<char>,
    meta: Map<u32, GachaMetadataEntity>,
    file_zone: i8,
    account_zone: i8,
) -> Seq<RecordView> {
    Seq::new(
        items.len(),
        |k: int|
            {
                let v = imported_view(items[k], uid, meta);
                RecordView { time: stored_time(v.time, file_zone, account_zone)->Some_0, ..v }
            },
    )
}

proof fn lemma_first_block_unique(blocks: Seq<UigfGameData>, uid: Seq<char>, a: int, b: int)
    requires
        is_first_block(blocks, uid, a),
        is_first_block(blocks, uid, b),
    ensures
        a == b,
{
    if a < b {
        assert(blocks[a].uid@ != uid);
    } else if b < a {
        assert(blocks[b].uid@ != uid);
    }
}

proof fn lemma_has_first_block(blocks: Seq<UigfGameData>, uid: Seq<char>, k: int)
    requires
        0 <= k < blocks.len(),
        blocks[k].uid@ == uid,
    ensures
        exists|a: int| is_first_block(blocks, uid, a),
    decreases k,
{
    if exists|j: int| 0 <= j < k && (#[trigger] blocks[j]).uid@ == uid {
        let j = choose|j: int| 0 <= j < k && (#[trigger] blocks[j]).uid@ == uid;
        lemma_has_first_block(blocks, uid, j);
    } else {
        assert(is_first_block(blocks, uid, k));
    }
}

pub struct ImportService;

impl ImportService {
    /// Detects the format of a document from the fields its text names.
    pub fn detect_format(content: &str) -> (r: Result<GachaFileFormat>)
        ensures
            match format_of(content@) {
                Some(f) => r == Ok::<GachaFileFormat, AppError>(f),
                None => r matches Err(e) && e.key() == ErrorKey::InvalidUIGFFormat,
            },
    {
        proof {
            reveal_strlit("\"info\"");
            reveal_strlit("\"hkrpg\"");
            reveal_strlit("\"srgf_version\"");
            reveal_strlit("\"list\"");
        }
        let has_info = str_contains(content, "\"info\"");
        if has_info && str_contains(content, "\"hkrpg\"") {
            return Ok(GachaFileFormat::Uigf);
        }
        if has_info && str_contains(content, "\"srgf_version\"") && str_contains(content, "\"list\"") {
            return Ok(GachaFileFormat::Srgf);
        }
        Err(AppError::of(ErrorKey::InvalidUIGFFormat))
    }

    /// The stored form of imported pulls, owned by `uid`, with unset rarities taken from the
    /// catalogue. Fails on the first pull whose rarity is unset and whose item the catalogue
    /// lacks, naming that item.
    pub fn convert_to_entities(uid: &str, items: &Vec<GachaRecordItem>, metadata: &Metadata) -> (r: Result<Vec<GachaRecordEntity>>)
        ensures
            r is Ok <==> forall|k: int| 0 <= k < items@.len() ==> rarity_resolvable(#[trigger] items@[k], metadata@),
            r matches Ok(v) ==> v@.len() == items@.len() && forall|k: int| 0 <= k < items@.len() ==> #[trigger] v@[k]@ == imported_view(items@[k], uid@, metadata@),
            r matches Err(e) ==> e.key() == ErrorKey::MetadataItemNotFound && names_first_unresolvable(e, items@, metadata@),
    {
        let mut result: Vec<GachaRecordEntity> = Vec::new();
        let mut i: usize = 0;
        while i < items.len()
            invariant
                i <= items@.len(),
                result@.len() == i,
                forall|k: int| 0 <= k < i ==> rarity_resolvable(#[trigger] items@[k], metadata@),
                forall|k: int| 0 <= k < i ==> #[trigger] result@[k]@ == imported_view(items@[k], uid@, metadata@),
            decreases items@.len() - i,
        {
            let item = &items[i];
            let rank_type = if item.rank_type == 0 {
                match metadata.get(item.item_id) {
                    Some(m) => m.rarity,
                    None => {
                        let mut args: Vec<String> = Vec::new();
                        args.push(u64_decimal(item.item_id as u64));
                        assert(!rarity_resolvable(items@[i as int], metadata@));
                        assert(first_unresolvable(items@, metadata@, i as int));
                        return Err(AppError::new(ErrorKey::MetadataItemNotFound, args));
                    },
                }
            } else {
                item.rank_type
            };
            result.push(GachaRecordEntity {
                id: item.id,
                uid: uid.to_owned(),
                gacha_id: item.gacha_id,
                gacha_type: item.gacha_type,
                item_id: item.item_id,
                time: item.time.clone(),
                rank_type,
            });
            i = i + 1;
        }
        Ok(result)
    }

    /// The pulls of account `uid` in a multi-account document, ready to be merged.
    /// `Ok(None)` when the account's block holds no pull.
    pub fn parse_uigf(uid: &str, uigf: &Uigf, metadata: &Metadata) -> (r: Result<Option<ImportData>>)
        ensures
            (forall|k: int| 0 <= k < uigf.hkrpg@.len() ==> (#[trigger] uigf.hkrpg@[k]).uid@ != uid@) ==> (r matches Err(e) && e.key() == ErrorKey::GachaUidMismatch),
            forall|k: int| #[trigger] is_first_block(uigf.hkrpg@, uid@, k) ==> ({
                let items = uigf.hkrpg@[k].list@;
                &&& items.len() == 0 ==> (r matches Ok(None))
                &&& items.len() > 0 ==> !(r matches Ok(None))
                &&& items.len() > 0 ==> (r is Ok <==> forall|j: int| 0 <= j < items.len() ==> rarity_resolvable(#[trigger] items[j], metadata@))
                &&& items.len() > 0 ==> (r is Err ==> r->Err_0.key() == ErrorKey::MetadataItemNotFound
                    && names_first_unresolvable(r->Err_0, items, metadata@))
                &&& (r matches Ok(Some(d)) ==> d.uid@ == uid@
                    && d.source@ == source_label(uigf.info.export_app@, uigf.info.export_app_version@)
                    && d.time_zone == uigf.hkrpg@[k].timezone
                    && d.list@.len() == items.len()
                    && forall|j: int| 0 <= j < items.len() ==> #[trigger] d.list@[j]@ == imported_view(items[j], uid@, metadata@))
            }),
    {
        let mut k: usize = 0;
        while k < uigf.hkrpg.len()
            invariant
                k <= uigf.hkrpg@.len(),
                forall|j: int| 0 <= j < k ==> (#[trigger] uigf.hkrpg@[j]).uid@ != uid@,
            decreases uigf.hkrpg@.len() - k,
        {
            let block = &uigf.hkrpg[k];
            if crate::text::str_equals(block.uid.as_str(), uid) {
                proof {
                    assert(is_first_block(uigf.hkrpg@, uid@, k as int));
                    assert forall|a: int| #[trigger] is_first_block(uigf.hkrpg@, uid@, a) implies a == k by {
                        lemma_first_block_unique(uigf.hkrpg@, uid@, a, k as int);
                    }
                }
                if block.list.len() == 0 {
                    return Ok(None);
                }
                let mut source = uigf.info.export_app.clone();
                source.append("_");
                source.append(uigf.info.export_app_version.as_str());
                proof {
                    reveal_strlit("_");
                }
                let list = Self::convert_to_entities(uid, &block.list, metadata)?;
                return Ok(Some(ImportData { uid: block.uid.clone(), source, time_zone: block.timezone, list }));
            }
            k = k + 1;
        }
        Err(AppError::of(ErrorKey::GachaUidMismatch))
    }

    /// The pulls of a single-account document, ready to be merged. `Ok(None)` when it holds
    /// no pull.
    pub fn parse_srgf(uid: &str, srgf: &Srgf, metadata: &Metadata) -> (r: Result<Option<ImportData>>)
        ensures
            srgf.info.uid@ != uid@ ==> (r matches Err(e) && e.key() == ErrorKey::GachaUidMismatch),
            srgf.info.uid@ == uid@ ==> ({
                let items = srgf.list@;
                &&& items.len() == 0 ==> (r matches Ok(None))
                &&& items.len() > 0 ==> !(r matches Ok(None))
                &&& items.len() > 0 ==> (r is Ok <==> forall|j: int| 0 <= j < items.len() ==> rarity_resolvable(#[trigger] items[j], metadata@))
                &&& items.len() > 0 ==> (r is Err ==> r->Err_0.key() == ErrorKey::MetadataItemNotFound
                    && names_first_unresolvable(r->Err_0, items, metadata@))
                &&& (r matches Ok(Some(d)) ==> d.uid@ == uid@
                    && d.source@ == (if srgf.info.export_app@.len() == 0 { "unknown"@ } else {
                        source_label(srgf.info.export_app@, srgf.info.export_app_version@)
                    })
                    && d.time_zone == srgf.info.region_time_zone
                    && d.list@.len() == items.len()
                    && forall|j: int| 0 <= j < items.len() ==> #[trigger] d.list@[j]@ == imported_view(items[j], uid@, metadata@))
            }),
    {
        if !crate::text::str_equals(srgf.info.uid.as_str(), uid) {
            return Err(AppError::of(ErrorKey::GachaUidMismatch));
        }
        if srgf.list.len() == 0 {
            return Ok(None);
        }
        proof {
            reveal_strlit("_");
            reveal_strlit("unknown");
        }
        let source = if srgf.info.export_app.as_str().is_empty() {
            "unknown".to_owned()
        } else {
            let mut s = srgf.info.export_app.clone();
            s.append("_");
            s.append(srgf.info.export_app_version.as_str());
            s
        };
        let list = Self::convert_to_entities(uid, &srgf.list, metadata)?;
        Ok(Some(ImportData { uid: srgf.info.uid.clone(), source, time_zone: srgf.info.region_time_zone, list }))
    }

    /// Imports the pulls that a parsed document holds for account `uid` into the ledger,
    /// keeping every pull whose id is stored already. Nothing is written unless the whole
    /// import succeeds. Returns the number of pulls written.
    pub fn import_document(
        ledger: &mut GachaLedger,
        uid: &str,
        doc: &GachaFile,
        metadata: &Metadata,
        time: &str,
    ) -> (r: Result<usize>)
        requires
            old(ledger).wf(),
            crate::ledger::batch_id_available(old(ledger).batches_view()),
        ensures
            final(ledger).wf(),
            r is Err ==> *final(ledger) == *old(ledger),
            metadata@.dom().len() == 0 ==> (r matches Err(e) && e.key() == ErrorKey::MetadataNotAvailable),
            metadata@.dom().len() > 0 && doc_selection(*doc, uid@) is None ==> (r matches Err(e) && e.key() == ErrorKey::GachaUidMismatch),
            metadata@.dom().len() > 0 ==> match doc_selection(*doc, uid@) {
                None => true,
                Some((items, zone)) => {
                    let batch = crate::ledger::next_batch_id(old(ledger).batches_view());
                    &&& items.len() == 0 ==> (r == Ok::<usize, AppError>(0) && *final(ledger) == *old(ledger))
                    &&& items.len() > 0 && (exists|j: int| 0 <= j < items.len() && !rarity_resolvable(#[trigger] items[j], metadata@)) ==> (r matches Err(e) && e.key() == ErrorKey::MetadataItemNotFound
                        && names_first_unresolvable(e, items, metadata@))
                    &&& items.len() > 0 ==> (r is Ok <==> (
                        (forall|j: int| 0 <= j < items.len() ==> rarity_resolvable(#[trigger] items[j], metadata@))
                        && is_uid(uid@)
                        && forall|j: int| 0 <= j < items.len() ==> (#[trigger] stored_time(items[j].time@, zone, server_offset_of_first_digit(uid@[0]))) is Some))
                    &&& items.len() > 0 ==> (r matches Ok(c) ==> ({
                        let vs = import_views(items, uid@, metadata@, zone, server_offset_of_first_digit(uid@[0]));
                        &&& c == count_changes(old(ledger).contents(), vs, batch, false)
                        &&& c == 0 ==> final(ledger).contents() == old(ledger).contents()
                        &&& c > 0 ==> final(ledger).contents() == apply_records(old(ledger).contents(), vs, batch, false)
                    }))
                },
            },
    {
        if metadata.is_empty() {
            return Err(AppError::of(ErrorKey::MetadataNotAvailable));
        }
        let parsed = match doc {
            GachaFile::Uigf(u) => {
                let r = Self::parse_uigf(uid, u, metadata);
                proof {
                    if exists|k: int| is_first_block(u.hkrpg@, uid@, k) {
                        let k = choose|k: int| is_first_block(u.hkrpg@, uid@, k);
                        assert(is_first_block(u.hkrpg@, uid@, k));
                    } else {
                        assert forall|k: int| 0 <= k < u.hkrpg@.len() implies (#[trigger] u.hkrpg@[k]).uid@ != uid@ by {
                            if u.hkrpg@[k].uid@ == uid@ {
                                lemma_has_first_block(u.hkrpg@, uid@, k);
                            }
                        }
                    }
                }
                r
            },
            GachaFile::Srgf(s) => Self::parse_srgf(uid, s, metadata),
        };
        let mut data = match parsed {
            Ok(Some(d)) => d,
            Ok(None) => {
                return Ok(0);
            },
            Err(e) => {
                return Err(e);
            },
        };
        let ghost sel = doc_selection(*doc, uid@)->Some_0;
        let ghost converted = data.list@;
        let ghost file_zone = data.time_zone;
        match Self::try_convert_time_zone(&mut data) {
            Ok(()) => {},
            Err(e) => {
                proof {
                    if is_uid(uid@) {
                        let zone = server_offset_of_first_digit(uid@[0]);
                        let k = choose|k: int| 0 <= k < converted.len() && !((#[trigger] stored_time(converted[k].time@, file_zone, zone)) is Some);
                        assert(converted[k]@ == imported_view(sel.0[k], uid@, metadata@));
                        assert(!((stored_time(sel.0[k].time@, sel.1, zone)) is Some));
                    }
                }
                return Err(e);
            },
        }
        let ghost vs = import_views(sel.0, uid@, metadata@, sel.1, server_offset_of_first_digit(uid@[0]));
        proof {
            assert(file_zone == sel.1);
            assert(converted.len() == sel.0.len());
            assert(data.uid@ == uid@);
            assert forall|k: int| 0 <= k < vs.len() implies #[trigger] crate::ledger::views_of(data.list@)[k] == vs[k] by {
                assert(converted[k]@ == imported_view(sel.0[k], uid@, metadata@));
            }
            assert(crate::ledger::views_of(data.list@) =~= vs);
            let zone = server_offset_of_first_digit(uid@[0]);
            assert forall|j: int| 0 <= j < sel.0.len() implies (#[trigger] stored_time(sel.0[j].time@, sel.1, zone)) is Some by {
                assert(converted[j]@ == imported_view(sel.0[j], uid@, metadata@));
                assert(stored_time(converted[j].time@, file_zone, zone) is Some);
            }
        }
        let count = ledger.insert_or_update_records(data.uid.as_str(), data.list, data.source.as_str(), time, false);
        Ok(count)
    }

    /// Rewrites every pull's time from the document's UTC offset to the account's server
    /// offset, unless the two agree.
    pub fn try_convert_time_zone(data: &mut ImportData) -> (r: Result<()>)
        ensures
            !is_uid(old(data).uid@) ==> (r matches Err(e) && e.key() == ErrorKey::InvalidUidFormat),
            is_uid(old(data).uid@) ==> ({
                let zone = server_offset_of_first_digit(old(data).uid@[0]);
                &&& r is Ok <==> forall|k: int| 0 <= k < old(data).list@.len()
                    ==> (#[trigger] stored_time(old(data).list@[k].time@, old(data).time_zone, zone)) is Some
                &&& r is Ok ==> final(data).list@.len() == old(data).list@.len()
                    && final(data).uid@ == old(data).uid@
                    && final(data).source@ == old(data).source@
                    && final(data).time_zone == old(data).time_zone
                    && forall|k: int| 0 <= k < old(data).list@.len() ==> ({
                        let was = #[trigger] old(data).list@[k]@;
                        final(data).list@[k]@ == RecordView {
                            time: stored_time(was.time, old(data).time_zone, zone)->Some_0,
                            ..was
                        }
                    })
            }),
    {
        let user = Account::new(data.uid.as_str())?;
        let target = user.server_time_zone;
        let ghost zone = target;
        if target == data.time_zone {
            assert forall|k: int| 0 <= k < data.list@.len() implies ({
                let was = #[trigger] data.list@[k]@;
                data.list@[k]@ == RecordView { time: stored_time(was.time, data.time_zone, zone)->Some_0, ..was }
            }) by {}
            return Ok(());
        }
        let n = data.list.len();
        let mut i: usize = 0;
        let ghost start = data.list@;
        while i < n
            invariant
                n == start.len(),
                i <= n,
                data.list@.len() == n,
                data.uid@ == old(data).uid@,
                data.source@ == old(data).source@,
                data.time_zone == old(data).time_zone,
                start == old(data).list@,
                is_uid(old(data).uid@),
                target == zone,
                target != data.time_zone,
                zone == server_offset_of_first_digit(old(data).uid@[0]),
                forall|k: int| 0 <= k < i ==> (#[trigger] stored_time(start[k].time@, data.time_zone, zone)) is Some,
                forall|k: int| 0 <= k < i ==> ({
                    let was = #[trigger] start[k]@;
                    data.list@[k]@ == RecordView { time: stored_time(was.time, data.time_zone, zone)->Some_0, ..was }
                }),
                forall|k: int| i <= k < n ==> #[trigger] data.list@[k] == start[k],
            decreases n - i,
        {
            let converted = convert_time_zone(data.list[i].time.as_str(), data.time_zone, target);
            match converted {
                Ok(t) => {
                    let mut item = data.list[i].duplicate();
                    item.time = t;
                    let ghost before = data.list@;
                    data.list.set(i, item);
                    proof {
                        assert(stored_time(start[i as int].time@, data.time_zone, zone) == Some(item.time@));
                        assert(data.list@[i as int]@ == RecordView { time: item.time@, ..start[i as int]@ });
                        assert forall|k: int| 0 <= k < i + 1 implies ({
                            let was = #[trigger] start[k]@;
                            data.list@[k]@ == RecordView { time: stored_time(was.time, data.time_zone, zone)->Some_0, ..was }
                        }) by {
                            if k < i {
                                assert(data.list@[k] == before[k]);
                            }
                        }
                    }
                },
                Err(e) => {
                    return Err(e);
                },
            }
            i = i + 1;
        }
        Ok(())
    }
}

} // verus!
