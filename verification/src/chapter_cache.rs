//! The chapter-text cache, keyed by novel and chapter id. Text the
//! download pipeline already wrote to disk takes precedence over the
//! transient cache; a miss on both commands a fetch whose normalized text
//! is then stored with a timestamp and swept like the other caches.
use vstd::prelude::*;

use vstd::string::StringExecFns;

use crate::queue::DownloadQueue;
use crate::strutil::{novel_dir, str_eq};
use crate::Status;

verus! {

/// One cached chapter text.
#[derive(Debug)]
pub struct ChapterCacheEntry {
    pub aid: String,
    pub cid: String,
    pub content: String,
    pub download_time: i64,
}

impl ChapterCacheEntry {
    /// A field-for-field copy of the entry.
    pub fn duplicate(&self) -> (r: Self)
        ensures
            r == *self,
    {
        ChapterCacheEntry {
            aid: self.aid.clone(),
            cid: self.cid.clone(),
            content: self.content.clone(),
            download_time: self.download_time,
        }
    }
}

/// Predicate satisfied by the rows a sweep at cutoff `t` keeps.
pub open spec fn chapter_live(t: i64) -> spec_fn(ChapterCacheEntry) -> bool {
    |e: ChapterCacheEntry| e.download_time >= t
}

/// The cache holds a row for this chapter.
pub open spec fn chapter_cached(s: Seq<ChapterCacheEntry>, aid: Seq<char>, cid: Seq<char>) -> bool {
    exists|k: int| 0 <= k < s.len() && (#[trigger] s[k]).aid@ == aid && s[k].cid@ == cid
}

/// The pipeline already downloaded this chapter.
pub open spec fn chapter_materialized(q: DownloadQueue, cid: Seq<char>) -> bool {
    exists|k: int|
        0 <= k < q.chapters@.len() && (#[trigger] q.chapters@[k]).id@ == cid
            && q.chapters@[k].download_status is Success
}

/// The keyed store of chapter-text rows.
pub struct ChapterCache {
    pub entries: Vec<ChapterCacheEntry>,
}

/// Where a requested chapter's text is, or that it must be fetched.
#[derive(Debug)]
pub enum ChapterLookup {
    /// The pipeline already downloaded this chapter: read this file.
    DownloadedFile(String),
    /// The transient cache holds the text.
    Cached(String),
    /// Not held anywhere: fetch, normalize, store.
    NeedsFetch,
}

impl ChapterCache {
    /// Row keys `(aid, cid)` are unique.
    pub open spec fn wf(self) -> bool {
        forall|i: int, j: int|
            0 <= i < j < self.entries@.len() ==> !(self.entries@[i].aid@ == self.entries@[j].aid@
                && self.entries@[i].cid@ == self.entries@[j].cid@)
    }

    /// An empty cache.
    pub fn new() -> (c: ChapterCache)
        ensures
            c.entries@.len() == 0,
            c.wf(),
    {
        ChapterCache { entries: Vec::new() }
    }

    /// The row cached for this chapter, if any.
    pub fn get_chapter_content(&self, aid: &str, cid: &str) -> (r: Option<&ChapterCacheEntry>)
        ensures
            match r {
                Some(e) => exists|k: int|
                    0 <= k < self.entries@.len() && #[trigger] self.entries@[k] == *e && e.aid@
                        == aid@ && e.cid@ == cid@,
                None => forall|i: int|
                    0 <= i < self.entries@.len() ==> !((#[trigger] self.entries@[i]).aid@ == aid@
                        && self.entries@[i].cid@ == cid@),
            },
    {
        let mut k: usize = 0;
        while k < self.entries.len()
            invariant
                0 <= k <= self.entries@.len(),
                forall|i: int|
                    0 <= i < k ==> !((#[trigger] self.entries@[i]).aid@ == aid@
                        && self.entries@[i].cid@ == cid@),
            decreases self.entries@.len() - k,
        {
            let e = &self.entries[k];
            if str_eq(e.aid.as_str(), aid) && str_eq(e.cid.as_str(), cid) {
                return Some(&self.entries[k]);
            }
            k += 1;
        }
        None
    }

    /// Insert or refresh the row for one chapter.
    pub fn save_chapter_content(&mut self, aid: &str, cid: &str, content: &str, now: i64)
        requires
            old(self).wf(),
        ensures
            final(self).wf(),
            final(self).entries@.len() == (if chapter_cached(old(self).entries@, aid@, cid@) {
                old(self).entries@.len() as int
            } else {
                old(self).entries@.len() + 1int
            }),
            exists|k: int|
                0 <= k < final(self).entries@.len() && (#[trigger] final(self).entries@[k]).aid@
                    == aid@ && final(self).entries@[k].cid@ == cid@ && final(self).entries@[k].content@
                    == content@ && final(self).entries@[k].download_time == now,
            forall|i: int|
                0 <= i < old(self).entries@.len() && old(self).entries@[i].aid@ == aid@ && old(
                    self,
                ).entries@[i].cid@ == cid@ ==> (#[trigger] final(self).entries@[i]).aid@ == aid@
                    && final(self).entries@[i].cid@ == cid@ && final(self).entries@[i].content@
                    == content@ && final(self).entries@[i].download_time == now,
            forall|i: int|
                0 <= i < old(self).entries@.len() && !(old(self).entries@[i].aid@ == aid@ && old(
                    self,
                ).entries@[i].cid@ == cid@) ==> #[trigger] final(self).entries@[i] == old(
                    self,
                ).entries@[i],
            !chapter_cached(old(self).entries@, aid@, cid@) ==> final(self).entries@.take(
                old(self).entries@.len() as int,
            ) == old(self).entries@,
    {
        let mut k: usize = 0;
        while k < self.entries.len()
            invariant
                0 <= k <= self.entries@.len(),
                old(self) == self,
                old(self).wf(),
                forall|i: int|
                    0 <= i < k ==> !((#[trigger] self.entries@[i]).aid@ == aid@
                        && self.entries@[i].cid@ == cid@),
            decreases self.entries@.len() - k,
        {
            let matched = str_eq(self.entries[k].aid.as_str(), aid) && str_eq(
                self.entries[k].cid.as_str(),
                cid,
            );
            if matched {
                let row = ChapterCacheEntry {
                    aid: aid.to_owned(),
                    cid: cid.to_owned(),
                    content: content.to_owned(),
                    download_time: now,
                };
                let ghost prev = self.entries@;
                self.entries.set(k, row);
                proof {
                    assert((#[trigger] prev[k as int]).aid@ == aid@ && prev[k as int].cid@
                        == cid@);
                    assert(chapter_cached(prev, aid@, cid@));
                    assert((#[trigger] self.entries@[k as int]).aid@ == aid@);
                    assert forall|i: int, j: int|
                        0 <= i < j < self.entries@.len() implies !((#[trigger] self.entries@[
                        i
                    ]).aid@ == (#[trigger] self.entries@[j]).aid@ && self.entries@[i].cid@
                        == self.entries@[j].cid@) by {
                        assert(!(prev[i].aid@ == prev[j].aid@ && prev[i].cid@ == prev[j].cid@));
                        if i != k {
                            assert(self.entries@[i] == prev[i]);
                        }
                        if j != k {
                            assert(self.entries@[j] == prev[j]);
                        }
                        if i == k {
                            assert(prev[i].aid@ == aid@ && prev[i].cid@ == cid@);
                        }
                        if j == k {
                            assert(prev[j].aid@ == aid@ && prev[j].cid@ == cid@);
                        }
                    }
                }
                return ;
            }
            k += 1;
        }
        let row = ChapterCacheEntry {
            aid: aid.to_owned(),
            cid: cid.to_owned(),
            content: content.to_owned(),
            download_time: now,
        };
        let ghost prev = self.entries@;
        self.entries.push(row);
        proof {
            let n = self.entries@.len() as int;
            assert((#[trigger] self.entries@[n - 1]).aid@ == aid@);
            assert(self.entries@.take(n - 1) =~= prev);
            if chapter_cached(prev, aid@, cid@) {
                let w = choose|w: int|
                    0 <= w < prev.len() && (#[trigger] prev[w]).aid@ == aid@ && prev[w].cid@
                        == cid@;
                assert(false);
            }
        }
    }

    /// Drop every row written before the cutoff; younger rows survive in
    /// order.
    pub fn delete_expired_chapters(&mut self, cutoff: i64)
        requires
            old(self).wf(),
        ensures
            final(self).wf(),
            final(self).entries@ == old(self).entries@.filter(chapter_live(cutoff)),
    {
        let ghost p = chapter_live(cutoff);
        let mut kept: Vec<ChapterCacheEntry> = Vec::new();
        let mut k: usize = 0;
        while k < self.entries.len()
            invariant
                0 <= k <= self.entries@.len(),
                p == chapter_live(cutoff),
                kept@ == self.entries@.take(k as int).filter(p),
                old(self) == self,
            decreases self.entries@.len() - k,
        {
            proof {
                let s = self.entries@;
                let x = s[k as int];
                assert(s.take(k + 1) =~= s.take(k as int).push(x));
                s.take(k as int).lemma_filter_push(x, p);
                assert(p(x) == (x.download_time >= cutoff));
            }
            if self.entries[k].download_time >= cutoff {
                kept.push(self.entries[k].duplicate());
            }
            k += 1;
        }
        proof {
            assert(self.entries@.take(self.entries@.len() as int) =~= self.entries@);
            crate::seqext::lemma_filter_keeps_distinct(
                self.entries@,
                p,
                |en: ChapterCacheEntry| (en.aid@, en.cid@),
            );
        }
        self.entries = kept;
    }
}

/// Index of a chapter row with this id whose download succeeded.
fn find_materialized_chapter(q: &DownloadQueue, cid: &str) -> (r: Option<usize>)
    ensures
        match r {
            Some(k) => k < q.chapters@.len() && q.chapters@[k as int].id@ == cid@
                && q.chapters@[k as int].download_status is Success,
            None => !chapter_materialized(*q, cid@),
        },
{
    let mut k: usize = 0;
    while k < q.chapters.len()
        invariant
            0 <= k <= q.chapters@.len(),
            forall|i: int|
                0 <= i < k ==> !((#[trigger] q.chapters@[i]).id@ == cid@
                    && q.chapters@[i].download_status is Success),
        decreases q.chapters@.len() - k,
    {
        let c = &q.chapters[k];
        if str_eq(c.id.as_str(), cid) && matches!(c.download_status, Status::Success) {
            return Some(k);
        }
        k += 1;
    }
    None
}

/// Decide where a requested chapter's text is, without fetching, in the
/// order the engine serves it: a chapter the pipeline already downloaded
/// is read from its file; only otherwise does the transient cache serve
/// its row; and only with neither must the caller fetch. Each variant also
/// says that no earlier source applied.
pub fn resolve_chapter(
    queue: &DownloadQueue,
    cache: &ChapterCache,
    download_folder: &str,
    aid: &str,
    cid: &str,
) -> (r: ChapterLookup)
    ensures
        match r {
            ChapterLookup::DownloadedFile(p) => exists|k: int|
                0 <= k < queue.chapters@.len() && (#[trigger] queue.chapters@[k]).id@ == cid@
                    && queue.chapters@[k].download_status is Success && p@ == download_folder@
                    + "/"@ + queue.chapters@[k].aid@ + "/"@ + "chapter_"@ + cid@,
            ChapterLookup::Cached(text) => !chapter_materialized(*queue, cid@) && exists|k: int|
                0 <= k < cache.entries@.len() && (#[trigger] cache.entries@[k]).aid@ == aid@
                    && cache.entries@[k].cid@ == cid@ && text@ == cache.entries@[k].content@,
            ChapterLookup::NeedsFetch => !chapter_materialized(*queue, cid@) && !chapter_cached(
                cache.entries@,
                aid@,
                cid@,
            ),
        },
{
    if let Some(k) = find_materialized_chapter(queue, cid) {
        let row = &queue.chapters[k];
        let dir = novel_dir(download_folder, row.aid.as_str());
        let mut p = dir;
        p.append("/");
        p.append("chapter_");
        p.append(cid);
        return ChapterLookup::DownloadedFile(p);
    }
    if let Some(e) = cache.get_chapter_content(aid, cid) {
        return ChapterLookup::Cached(e.content.clone());
    }
    ChapterLookup::NeedsFetch
}

} // verus!
