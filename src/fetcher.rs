use vstd::prelude::*;

use crate::entity::GachaRecordItem;
use crate::text::{i64_decimal, int_decimal, u64_decimal, nat_decimal};
use crate::types::{code_of, pool_order, GachaType};

verus! {

/// Rows asked for per page when fetching every pull.
pub const DEFAULT_PAGE_SIZE: usize = 20;

/// The pulls of a page that are kept: those newer than the stop id, when one is set.
pub open spec fn kept(list: Seq<GachaRecordItem>, stop: Option<i64>) -> Seq<GachaRecordItem>
    decreases list.len(),
{
    if list.len() == 0 {
        Seq::empty()
    } else if stop matches Some(x) && list.last().id <= x {
        kept(list.drop_last(), stop)
    } else {
        kept(list.drop_last(), stop).push(list.last())
    }
}

/// Whether a page ends its pool: the source is exhausted, or the stop id has been reached.
pub open spec fn pool_done(list: Seq<GachaRecordItem>, stop: Option<i64>) -> bool {
    list.len() < DEFAULT_PAGE_SIZE || (stop matches Some(x) && list.len() > 0 && list.last().id <= x)
}

/// One page request: the pool, the endpoint path, the page size and the cursor.
#[derive(Debug, Clone, Copy)]
pub struct PageRequest {
    pub gacha_type: GachaType,
    pub path: &'static str,
    pub size: usize,
    pub end_id: i64,
}

impl PageRequest {
    /// The query parameters the request adds to the validated URL.
    pub fn query_pairs(&self) -> (r: Vec<(String, String)>)
        ensures
            r@.len() == 3,
            r@[0].0@ == "size"@ && r@[0].1@ == nat_decimal(self.size as nat),
            r@[1].0@ == "gacha_type"@ && r@[1].1@ == nat_decimal(code_of(self.gacha_type) as nat),
            r@[2].0@ == "end_id"@ && r@[2].1@ == int_decimal(self.end_id as int),
    {
        proof {
            reveal_strlit("size");
            reveal_strlit("gacha_type");
            reveal_strlit("end_id");
        }
        let mut r: Vec<(String, String)> = Vec::new();
        r.push(("size".to_owned(), u64_decimal(self.size as u64)));
        r.push(("gacha_type".to_owned(), u64_decimal(self.gacha_type.code() as u64)));
        r.push(("end_id".to_owned(), i64_decimal(self.end_id)));
        r
    }
}

/// The pulls of a history, newest first, older than the cursor; all of them for cursor 0.
pub open spec fn older_than(h: Seq<GachaRecordItem>, cursor: i64) -> Seq<GachaRecordItem>
    decreases h.len(),
{
    if h.len() == 0 {
        Seq::empty()
    } else if cursor == 0 || h.last().id < cursor {
        older_than(h.drop_last(), cursor).push(h.last())
    } else {
        older_than(h.drop_last(), cursor)
    }
}

/// The page that a service holding history `h` of one pool answers for a cursor: the
/// `DEFAULT_PAGE_SIZE` newest pulls older than it.
pub open spec fn server_page(h: Seq<GachaRecordItem>, cursor: i64) -> Seq<GachaRecordItem> {
    let o = older_than(h, cursor);
    if o.len() < DEFAULT_PAGE_SIZE { o } else { o.take(DEFAULT_PAGE_SIZE as int) }
}

/// Ids strictly decreasing and positive: a pool's history as the service pages it.
pub open spec fn newest_first(h: Seq<GachaRecordItem>) -> bool {
    &&& forall|i: int, j: int| 0 <= i < j < h.len() ==> (#[trigger] h[i]).id > (#[trigger] h[j]).id
    &&& forall|i: int| 0 <= i < h.len() ==> (#[trigger] h[i]).id > 0
}

/// What `on_page` collects from one pool when each request is answered by `server_page`:
/// the kept part of each page, until a page ends the pool. `taken` counts pulls paged past.
pub open spec fn pool_run(h: Seq<GachaRecordItem>, stop: Option<i64>, cursor: i64, taken: nat) -> Seq<GachaRecordItem>
    decreases (if taken >= h.len() { 0 } else { h.len() - taken }),
{
    let page = server_page(h, cursor);
    if taken >= h.len() || pool_done(page, stop) {
        kept(page, stop)
    } else {
        kept(page, stop) + pool_run(h, stop, page.last().id, taken + DEFAULT_PAGE_SIZE as nat)
    }
}

proof fn lemma_older_all(h: Seq<GachaRecordItem>)
    ensures
        older_than(h, 0) == h,
    decreases h.len(),
{
    if h.len() > 0 {
        lemma_older_all(h.drop_last());
        assert(h.drop_last().push(h.last()) =~= h);
    }
}

proof fn lemma_older_split(h: Seq<GachaRecordItem>, c: i64, j: int)
    requires
        c != 0,
        0 <= j <= h.len(),
        forall|i: int| 0 <= i < j ==> (#[trigger] h[i]).id >= c,
        forall|i: int| j <= i < h.len() ==> (#[trigger] h[i]).id < c,
    ensures
        older_than(h, c) == h.skip(j),
    decreases h.len(),
{
    if h.len() > 0 {
        let d = h.drop_last();
        let n = h.len() as int;
        if n - 1 >= j {
            lemma_older_split(d, c, j);
            assert(d.skip(j).push(h.last()) =~= h.skip(j));
        } else {
            lemma_older_split(d, c, n - 1);
            assert(d.skip(n - 1) =~= h.skip(n));
        }
    } else {
        assert(h.skip(j) =~= Seq::<GachaRecordItem>::empty());
    }
}

proof fn lemma_kept_concat(a: Seq<GachaRecordItem>, b: Seq<GachaRecordItem>, stop: Option<i64>)
    ensures
        kept(a + b, stop) == kept(a, stop) + kept(b, stop),
    decreases b.len(),
{
    if b.len() == 0 {
        assert(a + b =~= a);
        assert(kept(a, stop) + kept(b, stop) =~= kept(a, stop));
    } else {
        lemma_kept_concat(a, b.drop_last(), stop);
        assert((a + b).drop_last() =~= a + b.drop_last());
        assert((a + b).last() == b.last());
        if !(stop matches Some(x) && b.last().id <= x) {
            assert(kept(a, stop) + kept(b.drop_last(), stop).push(b.last()) =~= (kept(a, stop) + kept(b.drop_last(), stop)).push(b.last()));
        }
    }
}

proof fn lemma_kept_none_newer(b: Seq<GachaRecordItem>, x: i64)
    requires
        forall|i: int| 0 <= i < b.len() ==> (#[trigger] b[i]).id <= x,
    ensures
        kept(b, Some(x)) == Seq::<GachaRecordItem>::empty(),
    decreases b.len(),
{
    if b.len() > 0 {
        assert forall|i: int| 0 <= i < b.drop_last().len() implies (#[trigger] b.drop_last()[i]).id <= x by {
            assert(b.drop_last()[i] == b[i]);
        }
        lemma_kept_none_newer(b.drop_last(), x);
    }
}

proof fn lemma_kept_all(h: Seq<GachaRecordItem>)
    ensures
        kept(h, None) == h,
    decreases h.len(),
{
    if h.len() > 0 {
        lemma_kept_all(h.drop_last());
        assert(h.drop_last().push(h.last()) =~= h);
    }
}

proof fn lemma_pool_run_from(h: Seq<GachaRecordItem>, stop: Option<i64>, j: int)
    requires
        newest_first(h),
        0 <= j <= h.len(),
    ensures
        pool_run(h, stop, if j == 0 { 0 } else { h[j - 1].id }, j as nat) == kept(h.skip(j), stop),
    decreases h.len() - j,
{
    let c: i64 = if j == 0 { 0 } else { h[j - 1].id };
    if j == 0 {
        lemma_older_all(h);
        assert(h.skip(0) =~= h);
    } else {
        assert forall|i: int| 0 <= i < j implies (#[trigger] h[i]).id >= c by {
            if i < j - 1 {
                assert(h[i].id > h[j - 1].id);
            }
        }
        assert forall|i: int| j <= i < h.len() implies (#[trigger] h[i]).id < c by {
            assert(h[j - 1].id > h[i].id);
        }
        lemma_older_split(h, c, j);
    }
    let rest = h.skip(j);
    let page = server_page(h, c);
    if j >= h.len() {
        assert(rest.len() == 0);
    } else if rest.len() < DEFAULT_PAGE_SIZE {
        assert(page == rest);
    } else {
        let next = h.skip(j + DEFAULT_PAGE_SIZE);
        assert(page == rest.take(DEFAULT_PAGE_SIZE as int));
        assert(rest =~= page + next);
        lemma_kept_concat(page, next, stop);
        assert(page.last() == h[j + DEFAULT_PAGE_SIZE - 1]);
        if pool_done(page, stop) {
            let x = stop->Some_0;
            assert forall|i: int| 0 <= i < next.len() implies (#[trigger] next[i]).id <= x by {
                assert(next[i] == h[j + DEFAULT_PAGE_SIZE + i]);
                assert(h[j + DEFAULT_PAGE_SIZE - 1].id > h[j + DEFAULT_PAGE_SIZE + i].id);
            }
            lemma_kept_none_newer(next, x);
            assert(kept(page, stop) + kept(next, stop) =~= kept(page, stop));
        } else {
            lemma_pool_run_from(h, stop, j + DEFAULT_PAGE_SIZE);
        }
    }
}

/// Fetching one pool whose history the service pages newest first: with a stop id, exactly
/// the pulls newer than it are collected, in order; without one, every pull.
pub proof fn lemma_incremental_boundary(h: Seq<GachaRecordItem>, stop: Option<i64>)
    requires
        newest_first(h),
    ensures
        pool_run(h, stop, 0, 0) == kept(h, stop),
        stop is None ==> pool_run(h, stop, 0, 0) == h,
        stop matches Some(x) ==> forall|r: GachaRecordItem| #[trigger] pool_run(h, stop, 0, 0).contains(r) <==> (h.contains(r) && r.id > x),
{
    lemma_pool_run_from(h, stop, 0);
    assert(h.skip(0) =~= h);
    lemma_kept_all(h);
    if stop is Some {
        lemma_kept_members(h, stop->Some_0);
    }
}

proof fn lemma_kept_members(h: Seq<GachaRecordItem>, x: i64)
    ensures
        forall|r: GachaRecordItem| #[trigger] kept(h, Some(x)).contains(r) <==> (h.contains(r) && r.id > x),
    decreases h.len(),
{
    if h.len() > 0 {
        let d = h.drop_last();
        lemma_kept_members(d, x);
        assert forall|r: GachaRecordItem| #[trigger] kept(h, Some(x)).contains(r) <==> (h.contains(r) && r.id > x) by {
            let kd = kept(d, Some(x));
            if kept(h, Some(x)).contains(r) {
                let k = choose|k: int| 0 <= k < kept(h, Some(x)).len() && kept(h, Some(x))[k] == r;
                if h.last().id > x && k == kd.len() {
                    assert(h[h.len() - 1] == r);
                } else {
                    assert(kd[k] == r);
                    assert(kd.contains(r));
                    let i = choose|i: int| 0 <= i < d.len() && d[i] == r;
                    assert(h[i] == r);
                }
            }
            if h.contains(r) && r.id > x {
                let i = choose|i: int| 0 <= i < h.len() && h[i] == r;
                if i == h.len() - 1 {
                    assert(kept(h, Some(x))[kd.len() as int] == r);
                } else {
                    assert(d[i] == r);
                    assert(kd.contains(r));
                    let k = choose|k: int| 0 <= k < kd.len() && kd[k] == r;
                    if h.last().id > x {
                        assert(kept(h, Some(x))[k] == r);
                    }
                }
            }
        }
    }
}

pub struct Fetcher;

impl Fetcher {
    pub const COLLABORATION_WARP_PATH: &'static str = "common/gacha_record/api/getLdGachaLog";

    pub const WARP_PATH: &'static str = "common/gacha_record/api/getGachaLog";

    /// The endpoint of a pool: collaboration pools have their own.
    pub fn page_path(gacha_type: GachaType) -> (r: &'static str)
        ensures
            (gacha_type == GachaType::CharacterCollaborationWarp || gacha_type == GachaType::LightConeCollaborationWarp)
                ==> r@ == "common/gacha_record/api/getLdGachaLog"@,
            !(gacha_type == GachaType::CharacterCollaborationWarp || gacha_type == GachaType::LightConeCollaborationWarp)
                ==> r@ == "common/gacha_record/api/getGachaLog"@,
    {
        match gacha_type {
            GachaType::CharacterCollaborationWarp => Self::COLLABORATION_WARP_PATH,
            GachaType::LightConeCollaborationWarp => Self::COLLABORATION_WARP_PATH,
            _ => Self::WARP_PATH,
        }
    }

    pub fn page_request(gacha_type: GachaType, size: usize, end_id: i64) -> (r: PageRequest)
        ensures
            r.gacha_type == gacha_type,
            r.size == size,
            r.end_id == end_id,
            (gacha_type == GachaType::CharacterCollaborationWarp || gacha_type == GachaType::LightConeCollaborationWarp)
                ==> r.path@ == "common/gacha_record/api/getLdGachaLog"@,
            !(gacha_type == GachaType::CharacterCollaborationWarp || gacha_type == GachaType::LightConeCollaborationWarp)
                ==> r.path@ == "common/gacha_record/api/getGachaLog"@,
    {
        PageRequest { gacha_type, path: Self::page_path(gacha_type), size, end_id }
    }
}

/// Progress of fetching every pull: pools are walked in `pool_order`, each paged backward
/// from its newest pull.
pub struct FetchAllRecords {
    stop_id: Option<i64>,
    type_index: usize,
    end_id: i64,
    records: Vec<GachaRecordItem>,
}

impl FetchAllRecords {
    pub closed spec fn stop(&self) -> Option<i64> {
        self.stop_id
    }

    /// The position in `pool_order` of the pool being fetched; 6 once all are done.
    pub closed spec fn pool_index(&self) -> nat {
        self.type_index as nat
    }

    /// The cursor: 0 for the newest page, else the id of the last pull received.
    pub closed spec fn cursor(&self) -> i64 {
        self.end_id
    }

    pub closed spec fn collected(&self) -> Seq<GachaRecordItem> {
        self.records@
    }

    /// With `stop_id` set, only pulls newer than it are fetched; without, every pull.
    pub fn new(stop_id: Option<i64>) -> (r: Self)
        ensures
            r.stop() == stop_id,
            r.pool_index() == 0,
            r.cursor() == 0,
            r.collected().len() == 0,
    {
        FetchAllRecords { stop_id, type_index: 0, end_id: 0, records: Vec::new() }
    }

    pub fn is_finished(&self) -> (r: bool)
        ensures
            r == (self.pool_index() >= 6),
    {
        self.type_index >= 6
    }

    /// The next page to ask for, or `None` once every pool is done.
    pub fn next_request(&self) -> (r: Option<PageRequest>)
        ensures
            self.pool_index() >= 6 ==> r is None,
            self.pool_index() < 6 ==> (r matches Some(q) && q.gacha_type == pool_order()[self.pool_index() as int]
                && q.size == DEFAULT_PAGE_SIZE && q.end_id == self.cursor()),
    {
        if self.type_index >= 6 {
            return None;
        }
        let types = GachaType::as_array();
        Some(Fetcher::page_request(types[self.type_index], DEFAULT_PAGE_SIZE, self.end_id))
    }

    /// Takes in the response to `next_request`: `None` when the service returned no data.
    /// The kept pulls are added; the pool ends on an empty response or a short page or once
    /// the stop id is reached, else the cursor moves to the page's last pull.
    pub fn on_page(&mut self, page: Option<Vec<GachaRecordItem>>)
        requires
            old(self).pool_index() < 6,
        ensures
            final(self).stop() == old(self).stop(),
            page is None ==> final(self).collected() == old(self).collected()
                && final(self).pool_index() == old(self).pool_index() + 1 && final(self).cursor() == 0,
            page matches Some(list) ==> final(self).collected() == old(self).collected() + kept(list@, old(self).stop()),
            page matches Some(list) ==> (pool_done(list@, old(self).stop()) ==> final(self).pool_index()
                == old(self).pool_index() + 1 && final(self).cursor() == 0),
            page matches Some(list) ==> (!pool_done(list@, old(self).stop()) ==> final(self).pool_index()
                == old(self).pool_index() && final(self).cursor() == list@.last().id),
    {
        match page {
            None => {
                self.type_index = self.type_index + 1;
                self.end_id = 0;
            },
            Some(list) => {
                let n = list.len();
                let last_id: Option<i64> = if n > 0 { Some(list[n - 1].id) } else { None };
                let ghost all = list@;
                let ghost start = self.records@;
                let mut rest = list;
                let mut i: usize = 0;
                while i < n
                    invariant
                        n == all.len(),
                        i <= n,
                        rest@ == all.skip(i as int),
                        self.records@ == start + kept(all.take(i as int), self.stop_id),
                        self.type_index == old(self).type_index,
                        self.end_id == old(self).end_id,
                        self.stop_id == old(self).stop_id,
                    decreases n - i,
                {
                    let item = rest.remove(0);
                    proof {
                        assert(all.take(i + 1).drop_last() =~= all.take(i as int));
                        assert(all.take(i + 1).last() == all[i as int]);
                        assert(rest@ =~= all.skip(i + 1));
                    }
                    let keep = match self.stop_id {
                        Some(x) => item.id > x,
                        None => true,
                    };
                    if keep {
                        self.records.push(item);
                        proof {
                            assert(self.records@ =~= start + kept(all.take(i + 1), self.stop_id));
                        }
                    }
                    i = i + 1;
                }
                assert(all.take(n as int) =~= all);
                let done = n < DEFAULT_PAGE_SIZE || match (self.stop_id, last_id) {
                    (Some(x), Some(l)) => l <= x,
                    _ => false,
                };
                if done {
                    self.type_index = self.type_index + 1;
                    self.end_id = 0;
                } else {
                    self.end_id = match last_id {
                        Some(l) => l,
                        None => 0,
                    };
                }
            },
        }
    }

    /// Every pull fetched, in the order received.
    pub fn into_records(self) -> (r: Vec<GachaRecordItem>)
        ensures
            r@ == self.collected(),
    {
        self.records
    }
}

/// Progress of finding which account a URL belongs to: each pool is asked for its newest
/// pull until one has any.
pub struct FetchUid {
    type_index: usize,
    found: Option<String>,
}

impl FetchUid {
    pub closed spec fn pool_index(&self) -> nat {
        self.type_index as nat
    }

    pub closed spec fn found_uid(&self) -> Option<Seq<char>> {
        match self.found {
            Some(s) => Some(s@),
            None => None,
        }
    }

    pub fn new() -> (r: Self)
        ensures
            r.pool_index() == 0,
            r.found_uid() is None,
    {
        FetchUid { type_index: 0, found: None }
    }

    /// The next probe: the newest pull of the next pool; `None` once an account is found or
    /// every pool has been asked.
    pub fn next_request(&self) -> (r: Option<PageRequest>)
        ensures
            (self.found_uid() is Some || self.pool_index() >= 6) ==> r is None,
            (self.found_uid() is None && self.pool_index() < 6) ==> (r matches Some(q)
                && q.gacha_type == pool_order()[self.pool_index() as int] && q.size == 1 && q.end_id == 0),
    {
        if self.found.is_some() || self.type_index >= 6 {
            return None;
        }
        let types = GachaType::as_array();
        Some(Fetcher::page_request(types[self.type_index], 1, 0))
    }

    /// Takes in the response to `next_request`: the first pull of a non-empty page names the
    /// account.
    pub fn on_page(&mut self, page: Option<Vec<GachaRecordItem>>)
        requires
            old(self).found_uid() is None,
            old(self).pool_index() < 6,
        ensures
            final(self).pool_index() == old(self).pool_index() + 1,
            match page {
                Some(list) => if list@.len() > 0 {
                    final(self).found_uid() == Some(list@[0].uid@)
                } else {
                    final(self).found_uid() is None
                },
                None => final(self).found_uid() is None,
            },
    {
        self.type_index = self.type_index + 1;
        if let Some(list) = page {
            if list.len() > 0 {
                self.found = Some(list[0].uid.clone());
            }
        }
    }

    /// The account found, if any.
    pub fn result(&self) -> (r: Option<String>)
        ensures
            match r {
                Some(s) => self.found_uid() == Some(s@),
                None => self.found_uid() is None,
            },
    {
        match &self.found {
            Some(s) => Some(s.clone()),
            None => None,
        }
    }
}

} // verus!
