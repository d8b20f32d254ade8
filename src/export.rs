use vstd::prelude::*;

use crate::account::{is_uid, server_offset_of_first_digit, Account};
use crate::entity::{name_in, GachaMetadataEntity, GachaRecordItem, Metadata, RecordView};
use crate::error::{AppError, ErrorKey, Result};
use crate::ledger::{account_records, apply_records, ids_sorted, ledger_map, views_of, GachaLedger, LedgerRow, StoredRow};
use crate::text::{nat_decimal, str_equals, u64_decimal};
use crate::uigf::{Uigf, UigfGameData, UigfInfo, UIGF_VERSION};

verus! {

/// The display labels of the two item kinds, in the language of the exported document.
pub struct ItemTypeLabels {
    pub character: String,
    pub light_cone: String,
}

/// Whether the catalogue resolves a stored pull for export in language `lang`: it knows the
/// item, its kind, and its name in that language.
pub open spec fn export_resolvable(r: RecordView, meta: Map<u32, GachaMetadataEntity>, lang: Seq<char>) -> bool {
    &&& meta.contains_key(r.item_id)
    &&& name_in(meta[r.item_id].names@, lang) is Some
    &&& (meta[r.item_id].item_type@ == "character"@ || meta[r.item_id].item_type@ == "lightcone"@)
}

/// Whether `k` is the first stored pull that the catalogue cannot resolve for export.
pub open spec fn first_unexportable(records: Seq<RecordView>, meta: Map<u32, GachaMetadataEntity>, lang: Seq<char>, k: int) -> bool {
    &&& 0 <= k < records.len()
    &&& !export_resolvable(records[k], meta, lang)
    &&& forall|j: int| 0 <= j < k ==> export_resolvable(#[trigger] records[j], meta, lang)
}

/// Whether an error carries, as its one argument, the item id of the first stored pull that
/// cannot be resolved for export.
pub open spec fn names_first_unexportable(e: AppError, records: Seq<RecordView>, meta: Map<u32, GachaMetadataEntity>, lang: Seq<char>) -> bool {
    exists|k: int| #[trigger] first_unexportable(records, meta, lang, k) && e.msg.args@.len() == 1
        && e.msg.args@[0]@ == nat_decimal(records[k].item_id as nat)
}

/// Whether `item` is the exported form of stored pull `r`.
pub open spec fn exported_item_matches(
    item: GachaRecordItem,
    r: RecordView,
    meta: Map<u32, GachaMetadataEntity>,
    lang: Seq<char>,
    labels: ItemTypeLabels,
) -> bool {
    let entry = meta[r.item_id];
    &&& item.id == r.id
    &&& item.uid@ == r.uid
    &&& item.gacha_id == r.gacha_id
    &&& item.gacha_type == r.gacha_type
    &&& item.item_id == r.item_id
    &&& item.time@ == r.time
    &&& item.rank_type == r.rank_type
    &&& item.count == 1
    &&& item.name@ == name_in(entry.names@, lang)->Some_0@
    &&& item.item_type@ == (if entry.item_type@ == "character"@ {
        labels.character@
    } else {
        labels.light_cone@
    })
    &&& item.lang@ == lang
}

/// The file name of an account's exported document.
pub open spec fn export_file_name_of(uid: Seq<char>) -> Seq<char> {
    "GachaRecord_UIGF_"@ + uid + ".json"@
}

/// Record ids held at most once.
pub open spec fn view_ids_unique(vs: Seq<RecordView>) -> bool {
    forall|a: int, b: int| 0 <= a < b < vs.len() ==> (#[trigger] vs[a]).id != (#[trigger] vs[b]).id
}

proof fn lemma_apply_fresh(m: Map<i64, StoredRow>, vs: Seq<RecordView>, b: u32)
    requires
        view_ids_unique(vs),
        forall|k: int| 0 <= k < vs.len() ==> !m.contains_key(#[trigger] vs[k].id),
    ensures
        forall|id: i64| apply_records(m, vs, b, false).contains_key(id)
            <==> (m.contains_key(id) || exists|k: int| 0 <= k < vs.len() && (#[trigger] vs[k]).id == id),
        forall|k: int| 0 <= k < vs.len() ==> apply_records(m, vs, b, false)[(#[trigger] vs[k]).id] == (b, vs[k]),
        forall|id: i64| #[trigger] m.contains_key(id) ==> apply_records(m, vs, b, false)[id] == m[id],
    decreases vs.len(),
{
    if vs.len() > 0 {
        let d = vs.drop_last();
        assert forall|x: int, y: int| 0 <= x < y < d.len() implies (#[trigger] d[x]).id != (#[trigger] d[y]).id by {
            assert(d[x] == vs[x] && d[y] == vs[y]);
        }
        assert forall|k: int| 0 <= k < d.len() implies !m.contains_key(#[trigger] d[k].id) by {
            assert(d[k] == vs[k]);
        }
        lemma_apply_fresh(m, d, b);
        let md = apply_records(m, d, b, false);
        let v = vs.last();
        assert(!md.contains_key(v.id)) by {
            assert(!m.contains_key(vs[vs.len() - 1].id));
            if exists|k: int| 0 <= k < d.len() && (#[trigger] d[k]).id == v.id {
                let k = choose|k: int| 0 <= k < d.len() && (#[trigger] d[k]).id == v.id;
                assert(vs[k].id != vs[vs.len() - 1].id);
            }
        }
        assert forall|id: i64| apply_records(m, vs, b, false).contains_key(id)
            <==> (m.contains_key(id) || exists|k: int| 0 <= k < vs.len() && (#[trigger] vs[k]).id == id) by {
            if exists|k: int| 0 <= k < d.len() && (#[trigger] d[k]).id == id {
                let k = choose|k: int| 0 <= k < d.len() && (#[trigger] d[k]).id == id;
                assert(vs[k].id == id);
            }
            if exists|k: int| 0 <= k < vs.len() && (#[trigger] vs[k]).id == id {
                let k = choose|k: int| 0 <= k < vs.len() && (#[trigger] vs[k]).id == id;
                if k < vs.len() - 1 {
                    assert(d[k].id == id);
                }
            }
        }
        assert forall|k: int| 0 <= k < vs.len() implies apply_records(m, vs, b, false)[(#[trigger] vs[k]).id] == (b, vs[k]) by {
            if k < vs.len() - 1 {
                assert(d[k] == vs[k]);
                assert(vs[k].id != vs[vs.len() - 1].id);
            }
        }
        assert forall|id: i64| #[trigger] m.contains_key(id) implies apply_records(m, vs, b, false)[id] == m[id] by {
            assert(id != v.id);
        }
    }
}

/// Importing pulls of one account, ids held once, into a ledger that holds no pull of that
/// account and none of those ids, and reading the account back, yields exactly the imported
/// pulls: the same ids, pools, items, rarities and stored times.
pub proof fn lemma_export_reproduces_import(
    before: Map<i64, StoredRow>,
    rows: Seq<LedgerRow>,
    vs: Seq<RecordView>,
    uid: Seq<char>,
    b: u32,
)
    requires
        forall|id: i64| #[trigger] before.contains_key(id) ==> before[id].1.uid != uid,
        forall|k: int| 0 <= k < vs.len() ==> !before.contains_key(#[trigger] vs[k].id),
        ids_sorted(rows),
        ledger_map(rows) == apply_records(before, vs, b, false),
        view_ids_unique(vs),
        forall|k: int| 0 <= k < vs.len() ==> (#[trigger] vs[k]).uid == uid,
    ensures
        forall|r: RecordView| account_records(rows, uid).contains(r) <==> vs.contains(r),
{
    lemma_apply_fresh(before, vs, b);
    crate::ledger::lemma_account_records_members(rows, uid);
    assert forall|r: RecordView| account_records(rows, uid).contains(r) <==> vs.contains(r) by {
        if account_records(rows, uid).contains(r) {
            let i = choose|i: int| 0 <= i < rows.len() && (#[trigger] rows[i]).record@ == r && r.uid == uid;
            crate::ledger::lemma_lookup(rows, i);
            if before.contains_key(r.id) {
                let k0 = choose|k: int| 0 <= k < vs.len() && (#[trigger] vs[k]).id == r.id;
                if exists|k: int| 0 <= k < vs.len() && (#[trigger] vs[k]).id == r.id {
                    assert(!before.contains_key(vs[k0].id));
                }
                assert(apply_records(before, vs, b, false)[r.id] == before[r.id]);
            }
            let k = choose|k: int| 0 <= k < vs.len() && (#[trigger] vs[k]).id == r.id;
            assert(vs[k] == r);
        }
        if vs.contains(r) {
            let k = choose|k: int| 0 <= k < vs.len() && vs[k] == r;
            assert(vs[k].id == r.id);
            assert(ledger_map(rows).contains_key(r.id));
            let i = choose|i: int| 0 <= i < rows.len() && rows[i].record.id == r.id;
            crate::ledger::lemma_lookup(rows, i);
            assert(rows[i].record@ == r);
        }
    }
}

pub struct ExportService;

impl ExportService {
    /// The exported form of every stored pull, in the order given. Fails on the first pull the
    /// catalogue cannot resolve, naming its item.
    pub fn export_items(
        records: &Vec<crate::entity::GachaRecordEntity>,
        export_lang: &str,
        metadata: &Metadata,
        labels: &ItemTypeLabels,
    ) -> (r: Result<Vec<GachaRecordItem>>)
        ensures
            r is Ok <==> forall|k: int| 0 <= k < records@.len() ==> export_resolvable(#[trigger] records@[k]@, metadata@, export_lang@),
            r matches Ok(v) ==> v@.len() == records@.len() && forall|k: int| 0 <= k < records@.len() ==> exported_item_matches(#[trigger] v@[k], records@[k]@, metadata@, export_lang@, *labels),
            r matches Err(e) ==> e.key() == ErrorKey::MetadataItemNotFound && names_first_unexportable(e, views_of(records@), metadata@, export_lang@),
    {
        proof {
            reveal_strlit("character");
            reveal_strlit("lightcone");
        }
        let mut out: Vec<GachaRecordItem> = Vec::new();
        let mut i: usize = 0;
        while i < records.len()
            invariant
                i <= records@.len(),
                out@.len() == i,
                forall|k: int| 0 <= k < i ==> export_resolvable(#[trigger] records@[k]@, metadata@, export_lang@),
                forall|k: int| 0 <= k < i ==> exported_item_matches(#[trigger] out@[k], records@[k]@, metadata@, export_lang@, *labels),
            decreases records@.len() - i,
        {
            let r = &records[i];
            let mut args: Vec<String> = Vec::new();
            args.push(u64_decimal(r.item_id as u64));
            let meta = match metadata.get(r.item_id) {
                Some(m) => m,
                None => {
                    assert(!export_resolvable(records@[i as int]@, metadata@, export_lang@));
                    assert(first_unexportable(views_of(records@), metadata@, export_lang@, i as int));
                    return Err(AppError::new(ErrorKey::MetadataItemNotFound, args));
                },
            };
            let name = match meta.name(export_lang) {
                Some(n) => n,
                None => {
                    assert(!export_resolvable(records@[i as int]@, metadata@, export_lang@));
                    assert(first_unexportable(views_of(records@), metadata@, export_lang@, i as int));
                    return Err(AppError::new(ErrorKey::MetadataItemNotFound, args));
                },
            };
            let item_type = if str_equals(meta.item_type.as_str(), "character") {
                labels.character.clone()
            } else if str_equals(meta.item_type.as_str(), "lightcone") {
                labels.light_cone.clone()
            } else {
                assert(!export_resolvable(records@[i as int]@, metadata@, export_lang@));
                assert(first_unexportable(views_of(records@), metadata@, export_lang@, i as int));
                return Err(AppError::new(ErrorKey::MetadataItemNotFound, args));
            };
            out.push(GachaRecordItem {
                id: r.id,
                uid: r.uid.clone(),
                gacha_id: r.gacha_id,
                gacha_type: r.gacha_type,
                item_id: r.item_id,
                time: r.time.clone(),
                count: 1,
                name: name.clone(),
                rank_type: r.rank_type,
                lang: export_lang.to_owned(),
                item_type,
            });
            i = i + 1;
        }
        Ok(out)
    }

    /// The document exporting every stored pull of account `uid` in increasing id order, with
    /// item names in `export_lang`. Nothing is produced unless every pull resolves.
    pub fn export_to_uigf(
        ledger: &GachaLedger,
        uid: &str,
        export_lang: &str,
        metadata: &Metadata,
        labels: &ItemTypeLabels,
        export_time: String,
        export_timestamp: u64,
        export_app: &str,
        export_app_version: &str,
    ) -> (r: Result<Uigf>)
        ensures
            !is_uid(uid@) ==> (r matches Err(e) && e.key() == ErrorKey::InvalidUidFormat),
            is_uid(uid@) ==> ({
                let records = account_records(ledger.rows_view(), uid@);
                &&& r is Ok <==> forall|k: int| 0 <= k < records.len() ==> export_resolvable(#[trigger] records[k], metadata@, export_lang@)
                &&& r is Err ==> r->Err_0.key() == ErrorKey::MetadataItemNotFound
                    && names_first_unexportable(r->Err_0, records, metadata@, export_lang@)
                &&& (r matches Ok(doc) ==> {
                    &&& doc.info.export_time@ == export_time@
                    &&& doc.info.export_timestamp == export_timestamp
                    &&& doc.info.export_app@ == export_app@
                    &&& doc.info.export_app_version@ == export_app_version@
                    &&& doc.info.version@ == UIGF_VERSION@
                    &&& doc.hkrpg@.len() == 1
                    &&& doc.hkrpg@[0].uid@ == uid@
                    &&& doc.hkrpg@[0].timezone == server_offset_of_first_digit(uid@[0])
                    &&& doc.hkrpg@[0].lang@ == export_lang@
                    &&& doc.hkrpg@[0].list@.len() == records.len()
                    &&& forall|k: int| 0 <= k < records.len() ==> exported_item_matches(#[trigger] doc.hkrpg@[0].list@[k], records[k], metadata@, export_lang@, *labels)
                })
            }),
    {
        let user = Account::new(uid)?;
        let records = ledger.select_all(uid);
        proof {
            assert forall|k: int| 0 <= k < records@.len() implies #[trigger] views_of(records@)[k] == records@[k]@ by {}
        }
        let list = match Self::export_items(&records, export_lang, metadata, labels) {
            Ok(list) => list,
            Err(e) => {
                proof {
                    let k = choose|k: int| 0 <= k < records@.len() && !export_resolvable(#[trigger] records@[k]@, metadata@, export_lang@);
                    assert(views_of(records@)[k] == records@[k]@);
                }
                return Err(e);
            },
        };
        let info = UigfInfo {
            export_time,
            export_timestamp,
            export_app: export_app.to_owned(),
            export_app_version: export_app_version.to_owned(),
            version: UIGF_VERSION.to_owned(),
        };
        let data = UigfGameData {
            uid: uid.to_owned(),
            timezone: user.server_time_zone,
            lang: export_lang.to_owned(),
            list,
        };
        let mut hkrpg: Vec<UigfGameData> = Vec::new();
        hkrpg.push(data);
        Ok(Uigf { info, hkrpg })
    }

    /// The file name under which an account's document is written.
    pub fn export_file_name(uid: &str) -> (r: String)
        ensures
            r@ == export_file_name_of(uid@),
    {
        let mut name = "GachaRecord_UIGF_".to_owned();
        name.append(uid);
        name.append(".json");
        proof {
            reveal_strlit("GachaRecord_UIGF_");
            reveal_strlit(".json");
        }
        name
    }
}

} // verus!
