use vstd::prelude::*;

use crate::entity::{GachaMetadataEntity, Metadata};
use crate::text::u64_decimal;
use crate::types::{item_type_text, GachaItemType, MetadataItemType};

verus! {

/// One catalogue entry as the remote listings carry it.
#[derive(Debug, Clone)]
pub struct GachaConfigApiItem {
    pub item_id: u32,
    pub rarity: u8,
    pub item_name: String,
}

/// The name of the last listed entry with id `id`: the one that a map built from the listing
/// keeps.
pub open spec fn last_name(items: Seq<GachaConfigApiItem>, id: u32) -> Option<Seq<char>>
    decreases items.len(),
{
    if items.len() == 0 {
        None
    } else if items.last().item_id == id {
        Some(items.last().item_name@)
    } else {
        last_name(items.drop_last(), id)
    }
}

/// Whether `e` is the catalogue entry merged from English entry `en`.
pub open spec fn merged_entry(e: GachaMetadataEntity, en: GachaConfigApiItem, cn: Seq<GachaConfigApiItem>, kind: GachaItemType) -> bool {
    &&& e.item_id == en.item_id
    &&& e.rarity == en.rarity
    &&& e.item_type@ == item_type_text(kind)
    &&& e.names@.len() == 2
    &&& e.names@[0].0@ == "zh-cn"@
    &&& e.names@[0].1@ == match last_name(cn, en.item_id) {
        Some(n) => n,
        None => Seq::<char>::empty(),
    }
    &&& e.names@[1].0@ == "en-us"@
    &&& e.names@[1].1@ == en.item_name@
}

pub struct MetadataApiClient;

impl MetadataApiClient {
    /// The global listing's page size.
    pub const GLOBAL_PAGE_SIZE: usize = 100;

    fn cn_name(cn_items: &Vec<GachaConfigApiItem>, id: u32) -> (r: String)
        ensures
            r@ == match last_name(cn_items@, id) {
                Some(n) => n,
                None => Seq::<char>::empty(),
            },
    {
        let mut i: usize = cn_items.len();
        assert(cn_items@.take(i as int) =~= cn_items@);
        while i > 0
            invariant
                i <= cn_items@.len(),
                last_name(cn_items@, id) == last_name(cn_items@.take(i as int), id),
            decreases i,
        {
            assert(cn_items@.take(i as int).drop_last() =~= cn_items@.take(i - 1));
            if cn_items[i - 1].item_id == id {
                return cn_items[i - 1].item_name.clone();
            }
            i = i - 1;
        }
        String::new()
    }

    /// Catalogue entries for the English listing, each named in both languages; an entry
    /// missing from the Chinese listing gets an empty Chinese name.
    pub fn merge_metadata_items(
        cn_items: Vec<GachaConfigApiItem>,
        en_items: Vec<GachaConfigApiItem>,
        item_type: GachaItemType,
    ) -> (r: Vec<GachaMetadataEntity>)
        ensures
            r@.len() == en_items@.len(),
            forall|k: int| 0 <= k < en_items@.len() ==> merged_entry(#[trigger] r@[k], en_items@[k], cn_items@, item_type),
            forall|k: int| 0 <= k < en_items@.len() ==> (#[trigger] r@[k]).wf(),
    {
        proof {
            reveal_strlit("zh-cn");
            reveal_strlit("en-us");
            assert("zh-cn"@[0] != "en-us"@[0]);
        }
        let mut out: Vec<GachaMetadataEntity> = Vec::new();
        let mut i: usize = 0;
        while i < en_items.len()
            invariant
                i <= en_items@.len(),
                out@.len() == i,
                forall|k: int| 0 <= k < i ==> merged_entry(#[trigger] out@[k], en_items@[k], cn_items@, item_type),
                forall|k: int| 0 <= k < i ==> (#[trigger] out@[k]).wf(),
                "zh-cn"@ != "en-us"@,
            decreases en_items@.len() - i,
        {
            let en = &en_items[i];
            let mut names: Vec<(String, String)> = Vec::new();
            names.push(("zh-cn".to_owned(), Self::cn_name(&cn_items, en.item_id)));
            names.push(("en-us".to_owned(), en.item_name.clone()));
            out.push(GachaMetadataEntity {
                item_id: en.item_id,
                rarity: en.rarity,
                item_type: item_type.as_str().to_owned(),
                names,
            });
            i = i + 1;
        }
        out
    }

    /// The address of one page of the global listing of a kind.
    pub fn global_metadata_url(fetch_type: MetadataItemType, page: u32, size: usize) -> (r: String)
        ensures
            r@ == "https://sg-public-api.hoyolab.com/event/rpgcalc/"@ + (if fetch_type == MetadataItemType::Character {
                "avatar"@
            } else {
                "equipment"@
            }) + "/list?game=hkrpg&lang=en-us&tab_from=TabAll&page="@ + crate::text::nat_decimal(page as nat)
                + "&size="@ + crate::text::nat_decimal(size as nat),
    {
        let mut s = "https://sg-public-api.hoyolab.com/event/rpgcalc/".to_owned();
        s.append(fetch_type.as_str());
        s.append("/list?game=hkrpg&lang=en-us&tab_from=TabAll&page=");
        let p = u64_decimal(page as u64);
        s.append(p.as_str());
        s.append("&size=");
        let z = u64_decimal(size as u64);
        s.append(z.as_str());
        proof {
            reveal_strlit("https://sg-public-api.hoyolab.com/event/rpgcalc/");
            reveal_strlit("/list?game=hkrpg&lang=en-us&tab_from=TabAll&page=");
            reveal_strlit("&size=");
        }
        s
    }
}

/// Progress of reading the paged global listing: pages are read from 1 until one is short.
pub struct GlobalMetadataPaging {
    page: u32,
    done: bool,
    items: Vec<GachaConfigApiItem>,
}

impl GlobalMetadataPaging {
    pub closed spec fn page_view(&self) -> nat {
        self.page as nat
    }

    pub closed spec fn is_done(&self) -> bool {
        self.done
    }

    pub closed spec fn collected(&self) -> Seq<GachaConfigApiItem> {
        self.items@
    }

    pub fn new() -> (r: Self)
        ensures
            r.page_view() == 1,
            !r.is_done(),
            r.collected().len() == 0,
    {
        GlobalMetadataPaging { page: 1, done: false, items: Vec::new() }
    }

    /// The page to read next, or `None` once the listing is exhausted.
    pub fn next_page(&self) -> (r: Option<u32>)
        ensures
            self.is_done() ==> r is None,
            !self.is_done() ==> r == Some(self.page_view() as u32),
    {
        if self.done {
            None
        } else {
            Some(self.page)
        }
    }

    /// Takes in one page: its entries are added, and a short page ends the listing.
    pub fn on_page(&mut self, list: Vec<GachaConfigApiItem>)
        requires
            !old(self).is_done(),
            old(self).page_view() < 4294967295,
        ensures
            final(self).collected() == old(self).collected() + list@,
            final(self).is_done() == (list@.len() < MetadataApiClient::GLOBAL_PAGE_SIZE),
            final(self).page_view() == if list@.len() < MetadataApiClient::GLOBAL_PAGE_SIZE {
                old(self).page_view()
            } else {
                old(self).page_view() + 1
            },
    {
        let short = list.len() < MetadataApiClient::GLOBAL_PAGE_SIZE;
        let mut list = list;
        self.items.append(&mut list);
        if short {
            self.done = true;
        } else {
            self.page = self.page + 1;
        }
    }

    pub fn into_items(self) -> (r: Vec<GachaConfigApiItem>)
        ensures
            r@ == self.collected(),
    {
        self.items
    }
}

pub struct MetadataService;

impl MetadataService {
    /// The catalogue over stored entries.
    pub fn load_metadata(entities: Vec<GachaMetadataEntity>) -> (r: Metadata)
        requires
            forall|k: int| 0 <= k < entities@.len() ==> (#[trigger] entities@[k]).wf(),
        ensures
            r.wf(),
            forall|k: int| 0 <= k < entities@.len() ==> r@.contains_key(#[trigger] entities@[k].item_id),
            forall|id: u32| r@.contains_key(id) ==> exists|k: int| 0 <= k < entities@.len() && #[trigger] entities@[k].item_id == id,
            forall|k: int| 0 <= k < entities@.len() && (forall|j: int| k < j < entities@.len() ==> (#[trigger] entities@[j]).item_id != entities@[k].item_id)
                ==> r@[#[trigger] entities@[k].item_id] == entities@[k],
    {
        Metadata::from_entities(entities)
    }
}

} // verus!
