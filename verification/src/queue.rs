//! The persistent download queue: one row per novel, volume, chapter and
//! picture, each carrying a download status. A single background driver
//! walks this state and drives every queued novel toward completion; the
//! queue itself only records state and enforces the status-aggregation
//! rules.
use vstd::prelude::*;

use crate::models::{NovelInfo, Volume};
use crate::strutil::{join_comma, joined_comma, str_eq};
use crate::Status;

verus! {

/// One queued novel, with its descriptive metadata and aggregate counters.
#[derive(Debug)]
pub struct NovelDownload {
    pub novel_id: String,
    pub novel_name: String,
    pub download_status: Status,
    pub cover_url: String,
    pub cover_download_status: Status,
    pub author: String,
    pub tags: String,
    pub choose_chapter_count: i32,
    pub download_chapter_count: i32,
    pub create_time: i64,
    pub download_time: i64,
    pub introduce: String,
    pub trending: String,
    pub is_animated: bool,
    pub fin_update: String,
    pub status: String,
}

/// One volume of a queued novel.
#[derive(Debug)]
pub struct NovelDownloadVolume {
    pub id: String,
    pub novel_id: String,
    pub volume_idx: i32,
    pub title: String,
    pub download_status: Status,
    pub create_time: i64,
}

/// One chapter of a queued volume; `id` is the remote chapter id.
#[derive(Debug)]
pub struct NovelDownloadChapter {
    pub id: String,
    pub title: String,
    pub url: String,
    pub aid: String,
    pub volume_id: String,
    pub download_status: Status,
    pub total_picture: i32,
    pub chapter_idx: i32,
}

/// One illustration of a queued chapter, keyed by
/// `(aid, volume_id, chapter_id, picture_idx)`.
#[derive(Debug)]
pub struct NovelDownloadPicture {
    pub aid: String,
    pub volume_id: String,
    pub chapter_id: String,
    pub picture_idx: i32,
    pub url: String,
    pub url_md5: String,
    pub download_status: Status,
}

impl NovelDownload {
    /// A field-for-field copy of the row.
    pub fn duplicate(&self) -> (r: Self)
        ensures
            r == *self,
    {
        NovelDownload {
            novel_id: self.novel_id.clone(),
            novel_name: self.novel_name.clone(),
            download_status: self.download_status,
            cover_url: self.cover_url.clone(),
            cover_download_status: self.cover_download_status,
            author: self.author.clone(),
            tags: self.tags.clone(),
            choose_chapter_count: self.choose_chapter_count,
            download_chapter_count: self.download_chapter_count,
            create_time: self.create_time,
            download_time: self.download_time,
            introduce: self.introduce.clone(),
            trending: self.trending.clone(),
            is_animated: self.is_animated,
            fin_update: self.fin_update.clone(),
            status: self.status.clone(),
        }
    }
}

impl NovelDownloadVolume {
    /// A field-for-field copy of the row.
    pub fn duplicate(&self) -> (r: Self)
        ensures
            r == *self,
    {
        NovelDownloadVolume {
            id: self.id.clone(),
            novel_id: self.novel_id.clone(),
            volume_idx: self.volume_idx,
            title: self.title.clone(),
            download_status: self.download_status,
            create_time: self.create_time,
        }
    }
}

impl NovelDownloadChapter {
    /// A field-for-field copy of the row.
    pub fn duplicate(&self) -> (r: Self)
        ensures
            r == *self,
    {
        NovelDownloadChapter {
            id: self.id.clone(),
            title: self.title.clone(),
            url: self.url.clone(),
            aid: self.aid.clone(),
            volume_id: self.volume_id.clone(),
            download_status: self.download_status,
            total_picture: self.total_picture,
            chapter_idx: self.chapter_idx,
        }
    }
}

impl NovelDownloadPicture {
    /// A field-for-field copy of the row.
    pub fn duplicate(&self) -> (r: Self)
        ensures
            r == *self,
    {
        NovelDownloadPicture {
            aid: self.aid.clone(),
            volume_id: self.volume_id.clone(),
            chapter_id: self.chapter_id.clone(),
            picture_idx: self.picture_idx,
            url: self.url.clone(),
            url_md5: self.url_md5.clone(),
            download_status: self.download_status,
        }
    }
}

/// Predicate satisfied by the novel rows that survive deleting `aid`.
pub open spec fn novel_survives(aid: Seq<char>) -> spec_fn(NovelDownload) -> bool {
    |n: NovelDownload| n.novel_id@ != aid
}

/// Predicate satisfied by the volume rows that survive deleting `aid`.
pub open spec fn volume_survives(aid: Seq<char>) -> spec_fn(NovelDownloadVolume) -> bool {
    |v: NovelDownloadVolume| v.novel_id@ != aid
}

/// Predicate satisfied by the chapter rows that survive deleting `aid`.
pub open spec fn chapter_survives(aid: Seq<char>) -> spec_fn(NovelDownloadChapter) -> bool {
    |c: NovelDownloadChapter| c.aid@ != aid
}

/// Predicate satisfied by the picture rows that survive deleting `aid`.
pub open spec fn picture_survives(aid: Seq<char>) -> spec_fn(NovelDownloadPicture) -> bool {
    |p: NovelDownloadPicture| p.aid@ != aid
}

/// Predicate satisfied by a chapter row of novel `aid` that has succeeded.
pub open spec fn chapter_succeeded(aid: Seq<char>) -> spec_fn(NovelDownloadChapter) -> bool {
    |c: NovelDownloadChapter| c.aid@ == aid && c.download_status is Success
}

/// Clamp a non-negative mathematical integer into an `i32` counter.
pub open spec fn saturated_i32(n: int) -> i32 {
    if n > i32::MAX {
        i32::MAX
    } else {
        n as i32
    }
}

/// Is the chapter id part of the requested selection? An empty request
/// selects every chapter of the novel's volume tree.
pub open spec fn cid_selected(cid_list: Seq<String>, volumes: Seq<Volume>, cid: Seq<char>) -> bool {
    if cid_list.len() == 0 {
        exists|v: int, c: int|
            0 <= v < volumes.len() && 0 <= c < volumes[v].chapters@.len() && (
            #[trigger] volumes[v].chapters@[c]).cid@ == cid
    } else {
        exists|i: int| 0 <= i < cid_list.len() && (#[trigger] cid_list[i])@ == cid
    }
}

/// Number of chapters in the whole volume tree.
pub open spec fn total_chapter_count(volumes: Seq<Volume>) -> int
    decreases volumes.len(),
{
    if volumes.len() == 0 {
        0
    } else {
        total_chapter_count(volumes.drop_last()) + volumes.last().chapters@.len()
    }
}

/// How many chapters a download request asks for.
pub open spec fn effective_chapter_count(cid_list: Seq<String>, volumes: Seq<Volume>) -> int {
    if cid_list.len() == 0 {
        total_chapter_count(volumes)
    } else {
        cid_list.len() as int
    }
}

/// The chapter row copies one chapter of the volume tree: same id, title
/// and source address, owned by that chapter's volume, at that chapter's
/// position.
pub open spec fn chapter_row_from(r: NovelDownloadChapter, volumes: Seq<Volume>) -> bool {
    exists|v: int, c: int|
        0 <= v < volumes.len() && 0 <= c < volumes[v].chapters@.len() && (
        #[trigger] volumes[v].chapters@[c]).cid@ == r.id@ && r.title@
            == volumes[v].chapters@[c].title@ && r.url@ == volumes[v].chapters@[c].url@
            && r.volume_id@ == volumes[v].id@ && r.chapter_idx == c
}

/// The volume row copies one volume of the tree: same id and title, at
/// that volume's position.
pub open spec fn volume_row_from(r: NovelDownloadVolume, volumes: Seq<Volume>) -> bool {
    exists|v: int|
        0 <= v < volumes.len() && (#[trigger] volumes[v]).id@ == r.id@ && r.title@
            == volumes[v].title@ && r.volume_idx == v
}

/// A queued novel together with its volume and chapter rows, as handed to
/// the client when it asks for the detail of one download.
#[derive(Debug)]
pub struct ExistsDownload {
    pub novel_download: NovelDownload,
    pub novel_download_volume: Vec<NovelDownloadVolume>,
    pub novel_download_chapter: Vec<NovelDownloadChapter>,
}

/// The whole download queue, plus the cooperative restart flag that external
/// mutations raise to interrupt the driver at its checkpoints.
pub struct DownloadQueue {
    pub novels: Vec<NovelDownload>,
    pub volumes: Vec<NovelDownloadVolume>,
    pub chapters: Vec<NovelDownloadChapter>,
    pub pictures: Vec<NovelDownloadPicture>,
    pub restart: bool,
}

impl DownloadQueue {
    /// Row keys are unique in every table.
    pub open spec fn wf(self) -> bool {
        &&& forall|i: int, j: int|
            0 <= i < j < self.novels@.len() ==> self.novels@[i].novel_id@
                != self.novels@[j].novel_id@
        &&& forall|i: int, j: int|
            0 <= i < j < self.volumes@.len() ==> self.volumes@[i].id@ != self.volumes@[j].id@
        &&& forall|i: int, j: int|
            0 <= i < j < self.chapters@.len() ==> self.chapters@[i].id@ != self.chapters@[j].id@
        &&& forall|i: int, j: int|
            0 <= i < j < self.pictures@.len() ==> !(self.pictures@[i].aid@
                == self.pictures@[j].aid@ && self.pictures@[i].volume_id@
                == self.pictures@[j].volume_id@ && self.pictures@[i].chapter_id@
                == self.pictures@[j].chapter_id@ && self.pictures@[i].picture_idx
                == self.pictures@[j].picture_idx)
    }

    /// Every child row names an existing parent row.
    pub open spec fn owners_linked(self) -> bool {
        &&& forall|i: int|
            0 <= i < self.volumes@.len() ==> exists|k: int|
                0 <= k < self.novels@.len() && self.novels@[k].novel_id@
                    == #[trigger] self.volumes@[i].novel_id@
        &&& forall|i: int|
            0 <= i < self.chapters@.len() ==> exists|k: int|
                0 <= k < self.novels@.len() && self.novels@[k].novel_id@
                    == #[trigger] self.chapters@[i].aid@
        &&& forall|i: int|
            0 <= i < self.pictures@.len() ==> exists|k: int|
                0 <= k < self.novels@.len() && self.novels@[k].novel_id@
                    == #[trigger] self.pictures@[i].aid@
    }

    /// An empty queue with the restart flag down.
    pub fn new() -> (q: DownloadQueue)
        ensures
            q.novels@.len() == 0,
            q.volumes@.len() == 0,
            q.chapters@.len() == 0,
            q.pictures@.len() == 0,
            !q.restart,
            q.wf(),
            q.owners_linked(),
    {
        DownloadQueue {
            novels: Vec::new(),
            volumes: Vec::new(),
            chapters: Vec::new(),
            pictures: Vec::new(),
            restart: false,
        }
    }

    /// Raise the restart flag; the driver will abandon its current pass at
    /// the next checkpoint. The queue's rows are untouched.
    pub fn request_restart(&mut self)
        ensures
            final(self).restart,
            final(self).novels@ == old(self).novels@,
            final(self).volumes@ == old(self).volumes@,
            final(self).chapters@ == old(self).chapters@,
            final(self).pictures@ == old(self).pictures@,
    {
        self.restart = true;
    }

    /// Observe the restart flag and clear it, as the driver does at the top
    /// of each pass.
    pub fn take_restart(&mut self) -> (was_set: bool)
        ensures
            was_set == old(self).restart,
            !final(self).restart,
            final(self).novels@ == old(self).novels@,
            final(self).volumes@ == old(self).volumes@,
            final(self).chapters@ == old(self).chapters@,
            final(self).pictures@ == old(self).pictures@,
    {
        let was = self.restart;
        self.restart = false;
        was
    }

    /// Index of the novel row with the given id, if any.
    pub fn find_novel(&self, novel_id: &str) -> (r: Option<usize>)
        ensures
            match r {
                Some(i) => i < self.novels@.len() && self.novels@[i as int].novel_id@
                    == novel_id@,
                None => forall|i: int|
                    0 <= i < self.novels@.len() ==> self.novels@[i].novel_id@ != novel_id@,
            },
    {
        let mut k: usize = 0;
        while k < self.novels.len()
            invariant
                0 <= k <= self.novels@.len(),
                forall|i: int| 0 <= i < k ==> self.novels@[i].novel_id@ != novel_id@,
            decreases self.novels@.len() - k,
        {
            if str_eq(self.novels[k].novel_id.as_str(), novel_id) {
                return Some(k);
            }
            k += 1;
        }
        None
    }

    /// Index of the picture row with the given composite key, if any.
    pub fn find_picture(&self, aid: &str, volume_id: &str, chapter_id: &str, picture_idx: i32) -> (r:
        Option<usize>)
        ensures
            match r {
                Some(i) => i < self.pictures@.len() && self.pictures@[i as int].aid@ == aid@
                    && self.pictures@[i as int].volume_id@ == volume_id@ && self.pictures@[
                    i as int
                ].chapter_id@ == chapter_id@ && self.pictures@[i as int].picture_idx
                    == picture_idx,
                None => forall|i: int|
                    0 <= i < self.pictures@.len() ==> !(self.pictures@[i].aid@ == aid@
                        && self.pictures@[i].volume_id@ == volume_id@
                        && self.pictures@[i].chapter_id@ == chapter_id@
                        && self.pictures@[i].picture_idx == picture_idx),
            },
    {
        let mut k: usize = 0;
        while k < self.pictures.len()
            invariant
                0 <= k <= self.pictures@.len(),
                forall|i: int|
                    0 <= i < k ==> !(self.pictures@[i].aid@ == aid@ && self.pictures@[i].volume_id@
                        == volume_id@ && self.pictures@[i].chapter_id@ == chapter_id@
                        && self.pictures@[i].picture_idx == picture_idx),
            decreases self.pictures@.len() - k,
        {
            let p = &self.pictures[k];
            if str_eq(p.aid.as_str(), aid) && str_eq(p.volume_id.as_str(), volume_id) && str_eq(
                p.chapter_id.as_str(),
                chapter_id,
            ) && p.picture_idx == picture_idx {
                return Some(k);
            }
            k += 1;
        }
        None
    }

    /// Set a novel's download status and record the time of the change.
    /// Rows of other novels, and all other tables, are untouched.
    pub fn update_novel_status(&mut self, novel_id: &str, st: Status, now: i64)
        requires
            old(self).wf(),
        ensures
            final(self).wf(),
            final(self).volumes@ == old(self).volumes@,
            final(self).chapters@ == old(self).chapters@,
            final(self).pictures@ == old(self).pictures@,
            final(self).restart == old(self).restart,
            final(self).novels@.len() == old(self).novels@.len(),
            forall|i: int|
                0 <= i < old(self).novels@.len() ==> final(self).novels@[i] == (if old(self).novels@[i].novel_id@ == novel_id@ {
                    (NovelDownload {
                        download_status: st,
                        download_time: now,
                        ..old(self).novels@[i]
                    })
                } else {
                    old(self).novels@[i]
                }),
    {
        match self.find_novel(novel_id) {
            Some(k) => {
                let mut row = self.novels[k].duplicate();
                row.download_status = st;
                row.download_time = now;
                self.novels.set(k, row);
            },
            None => {},
        }
    }

    /// Set a novel's cover download status; everything else is untouched.
    pub fn update_cover_download_status(&mut self, novel_id: &str, st: Status)
        requires
            old(self).wf(),
        ensures
            final(self).wf(),
            final(self).volumes@ == old(self).volumes@,
            final(self).chapters@ == old(self).chapters@,
            final(self).pictures@ == old(self).pictures@,
            final(self).restart == old(self).restart,
            final(self).novels@.len() == old(self).novels@.len(),
            forall|i: int|
                0 <= i < old(self).novels@.len() ==> final(self).novels@[i] == (if old(self).novels@[i].novel_id@ == novel_id@ {
                    (NovelDownload { cover_download_status: st, ..old(self).novels@[i] })
                } else {
                    old(self).novels@[i]
                }),
    {
        match self.find_novel(novel_id) {
            Some(k) => {
                let mut row = self.novels[k].duplicate();
                row.cover_download_status = st;
                self.novels.set(k, row);
            },
            None => {},
        }
    }

    /// Set a volume's download status; everything else is untouched.
    pub fn update_volume_status(&mut self, volume_id: &str, st: Status)
        requires
            old(self).wf(),
        ensures
            final(self).wf(),
            final(self).novels@ == old(self).novels@,
            final(self).chapters@ == old(self).chapters@,
            final(self).pictures@ == old(self).pictures@,
            final(self).restart == old(self).restart,
            final(self).volumes@.len() == old(self).volumes@.len(),
            forall|i: int|
                0 <= i < old(self).volumes@.len() ==> final(self).volumes@[i] == (if old(self).volumes@[i].id@ == volume_id@ {
                    (NovelDownloadVolume { download_status: st, ..old(self).volumes@[i] })
                } else {
                    old(self).volumes@[i]
                }),
    {
        match self.find_volume(volume_id) {
            Some(k) => {
                let mut row = self.volumes[k].duplicate();
                row.download_status = st;
                self.volumes.set(k, row);
            },
            None => {},
        }
    }

    /// Set a chapter's download status; everything else is untouched.
    pub fn update_chapter_status(&mut self, chapter_id: &str, st: Status)
        requires
            old(self).wf(),
        ensures
            final(self).wf(),
            final(self).novels@ == old(self).novels@,
            final(self).volumes@ == old(self).volumes@,
            final(self).pictures@ == old(self).pictures@,
            final(self).restart == old(self).restart,
            final(self).chapters@.len() == old(self).chapters@.len(),
            forall|i: int|
                0 <= i < old(self).chapters@.len() ==> final(self).chapters@[i] == (if old(self).chapters@[i].id@ == chapter_id@ {
                    (NovelDownloadChapter { download_status: st, ..old(self).chapters@[i] })
                } else {
                    old(self).chapters@[i]
                }),
    {
        match self.find_chapter(chapter_id) {
            Some(k) => {
                let mut row = self.chapters[k].duplicate();
                row.download_status = st;
                self.chapters.set(k, row);
            },
            None => {},
        }
    }

    /// Set a picture's download status; everything else is untouched.
    pub fn update_picture_status(
        &mut self,
        aid: &str,
        volume_id: &str,
        chapter_id: &str,
        picture_idx: i32,
        st: Status,
    )
        requires
            old(self).wf(),
        ensures
            final(self).wf(),
            final(self).novels@ == old(self).novels@,
            final(self).volumes@ == old(self).volumes@,
            final(self).chapters@ == old(self).chapters@,
            final(self).restart == old(self).restart,
            final(self).pictures@.len() == old(self).pictures@.len(),
            forall|i: int|
                0 <= i < old(self).pictures@.len() ==> final(self).pictures@[i] == (if old(self).pictures@[i].aid@ == aid@ && old(self).pictures@[i].volume_id@ == volume_id@
                    && old(self).pictures@[i].chapter_id@ == chapter_id@ && old(self).pictures@[i].picture_idx == picture_idx {
                    (NovelDownloadPicture { download_status: st, ..old(self).pictures@[i] })
                } else {
                    old(self).pictures@[i]
                }),
    {
        match self.find_picture(aid, volume_id, chapter_id, picture_idx) {
            Some(k) => {
                let mut row = self.pictures[k].duplicate();
                row.download_status = st;
                self.pictures.set(k, row);
            },
            None => {},
        }
    }

    /// Insert or refresh one picture row under its composite key.
    pub fn upsert_picture(
        &mut self,
        aid: &str,
        volume_id: &str,
        chapter_id: &str,
        picture_idx: i32,
        url: &str,
        url_md5: &str,
        st: Status,
    )
        requires
            old(self).wf(),
        ensures
            final(self).wf(),
            final(self).novels@ == old(self).novels@,
            final(self).volumes@ == old(self).volumes@,
            final(self).chapters@ == old(self).chapters@,
            final(self).restart == old(self).restart,
            final(self).pictures@.len() == (if has_picture_row(
                old(self).pictures@,
                aid@,
                volume_id@,
                chapter_id@,
                picture_idx,
            ) {
                old(self).pictures@.len() as int
            } else {
                old(self).pictures@.len() + 1int
            }),
            exists|k: int|
                0 <= k < final(self).pictures@.len() && (#[trigger] final(self).pictures@[k]).aid@
                    == aid@ && final(self).pictures@[k].volume_id@ == volume_id@ && final(self).pictures@[k].chapter_id@ == chapter_id@ && final(self).pictures@[k].picture_idx
                    == picture_idx && final(self).pictures@[k].url@ == url@ && final(self).pictures@[k].url_md5@ == url_md5@ && final(self).pictures@[k].download_status
                    == st,
            forall|i: int|
                0 <= i < old(self).pictures@.len() && old(self).pictures@[i].aid@ == aid@ && old(self).pictures@[i].volume_id@ == volume_id@ && old(self).pictures@[i].chapter_id@
                    == chapter_id@ && old(self).pictures@[i].picture_idx == picture_idx ==> (
                #[trigger] final(self).pictures@[i]).aid@ == aid@ && final(self).pictures@[i].volume_id@
                    == volume_id@ && final(self).pictures@[i].chapter_id@ == chapter_id@ && final(self).pictures@[i].picture_idx == picture_idx && final(self).pictures@[i].url@ == url@
                    && final(self).pictures@[i].url_md5@ == url_md5@ && final(self).pictures@[i].download_status
                    == st,
            forall|i: int|
                0 <= i < old(self).pictures@.len() && !(old(self).pictures@[i].aid@ == aid@ && old(self).pictures@[i].volume_id@ == volume_id@ && old(self).pictures@[i].chapter_id@
                    == chapter_id@ && old(self).pictures@[i].picture_idx == picture_idx)
                    ==> #[trigger] final(self).pictures@[i] == old(self).pictures@[i],
            !has_picture_row(old(self).pictures@, aid@, volume_id@, chapter_id@, picture_idx)
                ==> final(self).pictures@.take(old(self).pictures@.len() as int) == old(self).pictures@,
    {
        let row = NovelDownloadPicture {
            aid: aid.to_owned(),
            volume_id: volume_id.to_owned(),
            chapter_id: chapter_id.to_owned(),
            picture_idx,
            url: url.to_owned(),
            url_md5: url_md5.to_owned(),
            download_status: st,
        };
        let ghost prev = self.pictures@;
        match self.find_picture(aid, volume_id, chapter_id, picture_idx) {
            Some(k) => {
                self.pictures.set(k, row);
                proof {
                    assert((#[trigger] prev[k as int]).aid@ == aid@ && prev[k as int].volume_id@
                        == volume_id@ && prev[k as int].chapter_id@ == chapter_id@ && prev[
                        k as int
                    ].picture_idx == picture_idx);
                    assert(has_picture_row(prev, aid@, volume_id@, chapter_id@, picture_idx));
                    assert((#[trigger] self.pictures@[k as int]).aid@ == aid@);
                    assert forall|i: int, j: int|
                        0 <= i < j < self.pictures@.len() implies !((#[trigger] self.pictures@[
                        i
                    ]).aid@ == (#[trigger] self.pictures@[j]).aid@ && self.pictures@[i].volume_id@
                        == self.pictures@[j].volume_id@ && self.pictures@[i].chapter_id@
                        == self.pictures@[j].chapter_id@ && self.pictures@[i].picture_idx
                        == self.pictures@[j].picture_idx) by {
                        assert(!(prev[i].aid@ == prev[j].aid@ && prev[i].volume_id@
                            == prev[j].volume_id@ && prev[i].chapter_id@ == prev[j].chapter_id@
                            && prev[i].picture_idx == prev[j].picture_idx));
                        if i != k {
                            assert(self.pictures@[i] == prev[i]);
                        }
                        if j != k {
                            assert(self.pictures@[j] == prev[j]);
                        }
                        if i == k {
                            assert(prev[i].aid@ == aid@ && prev[i].volume_id@ == volume_id@
                                && prev[i].chapter_id@ == chapter_id@ && prev[i].picture_idx
                                == picture_idx);
                        }
                        if j == k {
                            assert(prev[j].aid@ == aid@ && prev[j].volume_id@ == volume_id@
                                && prev[j].chapter_id@ == chapter_id@ && prev[j].picture_idx
                                == picture_idx);
                        }
                    }
                }
            },
            None => {
                self.pictures.push(row);
                proof {
                    let n = self.pictures@.len() as int;
                    assert((#[trigger] self.pictures@[n - 1]).aid@ == aid@);
                    assert(self.pictures@.take(n - 1) =~= prev);
                    if has_picture_row(prev, aid@, volume_id@, chapter_id@, picture_idx) {
                        let w = choose|w: int|
                            0 <= w < prev.len() && (#[trigger] prev[w]).aid@ == aid@ && prev[w].volume_id@
                                == volume_id@ && prev[w].chapter_id@ == chapter_id@
                                && prev[w].picture_idx == picture_idx;
                        assert(false);
                    }
                }
            },
        }
    }

    /// Raise a novel's completed-chapter counter by one, saturating at the
    /// counter type's maximum. The driver calls this exactly when a chapter
    /// first turns to success, so the counter only ever grows.
    pub fn add_one_download_chapter_count(&mut self, novel_id: &str)
        requires
            old(self).wf(),
        ensures
            final(self).wf(),
            final(self).volumes@ == old(self).volumes@,
            final(self).chapters@ == old(self).chapters@,
            final(self).pictures@ == old(self).pictures@,
            final(self).restart == old(self).restart,
            final(self).novels@.len() == old(self).novels@.len(),
            forall|i: int|
                0 <= i < old(self).novels@.len() ==> final(self).novels@[i] == (if old(self).novels@[i].novel_id@ == novel_id@ {
                    (NovelDownload {
                        download_chapter_count: if old(self).novels@[i].download_chapter_count
                            < i32::MAX {
                            (old(self).novels@[i].download_chapter_count + 1) as i32
                        } else {
                            old(self).novels@[i].download_chapter_count
                        },
                        ..old(self).novels@[i]
                    })
                } else {
                    old(self).novels@[i]
                }),
    {
        match self.find_novel(novel_id) {
            Some(k) => {
                let mut row = self.novels[k].duplicate();
                if row.download_chapter_count < i32::MAX {
                    row.download_chapter_count = row.download_chapter_count + 1;
                }
                self.novels.set(k, row);
            },
            None => {},
        }
    }

    /// Mark a novel for deletion. This is entered directly on user request,
    /// whatever the novel's current state; the driver's deletion pass picks
    /// it up with the highest priority.
    pub fn request_delete(&mut self, novel_id: &str, now: i64)
        requires
            old(self).wf(),
        ensures
            final(self).wf(),
            final(self).volumes@ == old(self).volumes@,
            final(self).chapters@ == old(self).chapters@,
            final(self).pictures@ == old(self).pictures@,
            final(self).restart == old(self).restart,
            final(self).novels@.len() == old(self).novels@.len(),
            forall|i: int|
                0 <= i < old(self).novels@.len() ==> final(self).novels@[i] == (if old(self).novels@[i].novel_id@ == novel_id@ {
                    (NovelDownload {
                        download_status: Status::Deleting,
                        download_time: now,
                        ..old(self).novels@[i]
                    })
                } else {
                    old(self).novels@[i]
                }),
    {
        self.update_novel_status(novel_id, Status::Deleting, now);
    }

    /// Remove a novel's row together with every volume, chapter and picture
    /// row that references it; rows of other novels keep their order. This
    /// is the database half of the deletion pass; the caller removes the
    /// novel's directory from disk.
    pub fn remove_download_data(&mut self, novel_id: &str)
        requires
            old(self).wf(),
        ensures
            final(self).wf(),
            final(self).restart == old(self).restart,
            final(self).novels@ == old(self).novels@.filter(novel_survives(novel_id@)),
            final(self).volumes@ == old(self).volumes@.filter(volume_survives(novel_id@)),
            final(self).chapters@ == old(self).chapters@.filter(chapter_survives(novel_id@)),
            final(self).pictures@ == old(self).pictures@.filter(picture_survives(novel_id@)),
            old(self).owners_linked() ==> final(self).owners_linked(),
    {
        broadcast use vstd::seq_lib::group_filter_ensures, Seq::lemma_filter_push, Seq::lemma_filter_contains_rev;

        let ghost np = novel_survives(novel_id@);
        let mut kept_n: Vec<NovelDownload> = Vec::new();
        let mut k: usize = 0;
        while k < self.novels.len()
            invariant
                0 <= k <= self.novels@.len(),
                kept_n@ == self.novels@.take(k as int).filter(np),
                np == novel_survives(novel_id@),
                *old(self) == *self,
            decreases self.novels@.len() - k,
        {
            proof {
                let s = self.novels@;
                let x = s[k as int];
                assert(s.take(k + 1) =~= s.take(k as int).push(x));
                s.take(k as int).lemma_filter_push(x, np);
                assert(s.take(k as int).push(x).filter(np) == (if np(x) {
                    s.take(k as int).filter(np).push(x)
                } else {
                    s.take(k as int).filter(np)
                }));
                assert(np(x) == (x.novel_id@ != novel_id@));
            }
            if !str_eq(self.novels[k].novel_id.as_str(), novel_id) {
                kept_n.push(self.novels[k].duplicate());
            }
            k += 1;
        }
        proof {
            assert(self.novels@.take(self.novels@.len() as int) =~= self.novels@);
        }

        let ghost vp = volume_survives(novel_id@);
        let mut kept_v: Vec<NovelDownloadVolume> = Vec::new();
        let mut k: usize = 0;
        while k < self.volumes.len()
            invariant
                0 <= k <= self.volumes@.len(),
                kept_v@ == self.volumes@.take(k as int).filter(vp),
                vp == volume_survives(novel_id@),
                *old(self) == *self,
            decreases self.volumes@.len() - k,
        {
            proof {
                let s = self.volumes@;
                let x = s[k as int];
                assert(s.take(k + 1) =~= s.take(k as int).push(x));
                s.take(k as int).lemma_filter_push(x, vp);
                assert(s.take(k as int).push(x).filter(vp) == (if vp(x) {
                    s.take(k as int).filter(vp).push(x)
                } else {
                    s.take(k as int).filter(vp)
                }));
                assert(vp(x) == (x.novel_id@ != novel_id@));
            }
            if !str_eq(self.volumes[k].novel_id.as_str(), novel_id) {
                kept_v.push(self.volumes[k].duplicate());
            }
            k += 1;
        }
        proof {
            assert(self.volumes@.take(self.volumes@.len() as int) =~= self.volumes@);
        }

        let ghost cp = chapter_survives(novel_id@);
        let mut kept_c: Vec<NovelDownloadChapter> = Vec::new();
        let mut k: usize = 0;
        while k < self.chapters.len()
            invariant
                0 <= k <= self.chapters@.len(),
                kept_c@ == self.chapters@.take(k as int).filter(cp),
                cp == chapter_survives(novel_id@),
                *old(self) == *self,
            decreases self.chapters@.len() - k,
        {
            proof {
                let s = self.chapters@;
                let x = s[k as int];
                assert(s.take(k + 1) =~= s.take(k as int).push(x));
                s.take(k as int).lemma_filter_push(x, cp);
                assert(s.take(k as int).push(x).filter(cp) == (if cp(x) {
                    s.take(k as int).filter(cp).push(x)
                } else {
                    s.take(k as int).filter(cp)
                }));
                assert(cp(x) == (x.aid@ != novel_id@));
            }
            if !str_eq(self.chapters[k].aid.as_str(), novel_id) {
                kept_c.push(self.chapters[k].duplicate());
            }
            k += 1;
        }
        proof {
            assert(self.chapters@.take(self.chapters@.len() as int) =~= self.chapters@);
        }

        let ghost pp = picture_survives(novel_id@);
        let mut kept_p: Vec<NovelDownloadPicture> = Vec::new();
        let mut k: usize = 0;
        while k < self.pictures.len()
            invariant
                0 <= k <= self.pictures@.len(),
                kept_p@ == self.pictures@.take(k as int).filter(pp),
                pp == picture_survives(novel_id@),
                *old(self) == *self,
            decreases self.pictures@.len() - k,
        {
            proof {
                let s = self.pictures@;
                let x = s[k as int];
                assert(s.take(k + 1) =~= s.take(k as int).push(x));
                s.take(k as int).lemma_filter_push(x, pp);
                assert(s.take(k as int).push(x).filter(pp) == (if pp(x) {
                    s.take(k as int).filter(pp).push(x)
                } else {
                    s.take(k as int).filter(pp)
                }));
                assert(pp(x) == (x.aid@ != novel_id@));
            }
            if !str_eq(self.pictures[k].aid.as_str(), novel_id) {
                kept_p.push(self.pictures[k].duplicate());
            }
            k += 1;
        }
        proof {
            assert(self.pictures@.take(self.pictures@.len() as int) =~= self.pictures@);
        }

        self.novels = kept_n;
        self.volumes = kept_v;
        self.chapters = kept_c;
        self.pictures = kept_p;

        proof {
            let o = *old(self);
            crate::seqext::lemma_filter_keeps_distinct(
                o.novels@,
                np,
                |n: NovelDownload| n.novel_id@,
            );
            crate::seqext::lemma_filter_keeps_distinct(
                o.volumes@,
                vp,
                |v: NovelDownloadVolume| v.id@,
            );
            crate::seqext::lemma_filter_keeps_distinct(
                o.chapters@,
                cp,
                |c: NovelDownloadChapter| c.id@,
            );
            crate::seqext::lemma_filter_keeps_distinct(
                o.pictures@,
                pp,
                |p: NovelDownloadPicture| (p.aid@, p.volume_id@, p.chapter_id@, p.picture_idx),
            );
            if o.owners_linked() {
                assert forall|i: int| 0 <= i < self.volumes@.len() implies exists|k2: int|
                    0 <= k2 < self.novels@.len() && self.novels@[k2].novel_id@
                        == #[trigger] self.volumes@[i].novel_id@ by {
                    let v = self.volumes@[i];
                    assert(o.volumes@.filter(vp).contains(v));
                    assert(o.volumes@.contains(v));
                    let m = choose|m: int| 0 <= m < o.volumes@.len() && o.volumes@[m] == v;
                    assert(o.volumes@[m].novel_id@ == v.novel_id@);
                    let kn = choose|kn: int|
                        0 <= kn < o.novels@.len() && o.novels@[kn].novel_id@ == v.novel_id@;
                    assert(vp(v));
                    assert(np(o.novels@[kn]));
                    assert(self.novels@.contains(o.novels@[kn]));
                    let w = choose|w: int|
                        0 <= w < self.novels@.len() && self.novels@[w] == o.novels@[kn];
                    assert(0 <= w < self.novels@.len() && self.novels@[w].novel_id@
                        == v.novel_id@);
                }
                assert forall|i: int| 0 <= i < self.chapters@.len() implies exists|k2: int|
                    0 <= k2 < self.novels@.len() && self.novels@[k2].novel_id@
                        == #[trigger] self.chapters@[i].aid@ by {
                    let c = self.chapters@[i];
                    assert(o.chapters@.filter(cp).contains(c));
                    assert(o.chapters@.contains(c));
                    let m = choose|m: int| 0 <= m < o.chapters@.len() && o.chapters@[m] == c;
                    assert(o.chapters@[m].aid@ == c.aid@);
                    let kn = choose|kn: int|
                        0 <= kn < o.novels@.len() && o.novels@[kn].novel_id@ == c.aid@;
                    assert(cp(c));
                    assert(np(o.novels@[kn]));
                    assert(self.novels@.contains(o.novels@[kn]));
                    let w = choose|w: int|
                        0 <= w < self.novels@.len() && self.novels@[w] == o.novels@[kn];
                    assert(0 <= w < self.novels@.len() && self.novels@[w].novel_id@ == c.aid@);
                }
                assert forall|i: int| 0 <= i < self.pictures@.len() implies exists|k2: int|
                    0 <= k2 < self.novels@.len() && self.novels@[k2].novel_id@
                        == #[trigger] self.pictures@[i].aid@ by {
                    let p = self.pictures@[i];
                    assert(o.pictures@.filter(pp).contains(p));
                    assert(o.pictures@.contains(p));
                    let m = choose|m: int| 0 <= m < o.pictures@.len() && o.pictures@[m] == p;
                    assert(o.pictures@[m].aid@ == p.aid@);
                    let kn = choose|kn: int|
                        0 <= kn < o.novels@.len() && o.novels@[kn].novel_id@ == p.aid@;
                    assert(pp(p));
                    assert(np(o.novels@[kn]));
                    assert(self.novels@.contains(o.novels@[kn]));
                    let w = choose|w: int|
                        0 <= w < self.novels@.len() && self.novels@[w] == o.novels@[kn];
                    assert(0 <= w < self.novels@.len() && self.novels@[w].novel_id@ == p.aid@);
                }
            }
        }
    }

    /// Flip every failed row - novels, covers, volumes, chapters and
    /// pictures - back to not-started and raise the restart flag, so that
    /// the driver re-attempts them on its next pass. Successful rows are
    /// untouched.
    pub fn reset_fail_downloads(&mut self)
        requires
            old(self).wf(),
        ensures
            final(self).wf(),
            final(self).restart,
            final(self).novels@.len() == old(self).novels@.len(),
            final(self).volumes@.len() == old(self).volumes@.len(),
            final(self).chapters@.len() == old(self).chapters@.len(),
            final(self).pictures@.len() == old(self).pictures@.len(),
            forall|i: int|
                0 <= i < old(self).novels@.len() ==> final(self).novels@[i] == (NovelDownload {
                    download_status: if old(self).novels@[i].download_status is Failed {
                        Status::NotStarted
                    } else {
                        old(self).novels@[i].download_status
                    },
                    cover_download_status: if old(self).novels@[i].cover_download_status
                        is Failed {
                        Status::NotStarted
                    } else {
                        old(self).novels@[i].cover_download_status
                    },
                    ..old(self).novels@[i]
                }),
            forall|i: int|
                0 <= i < old(self).volumes@.len() ==> final(self).volumes@[i] == (
                NovelDownloadVolume {
                    download_status: if old(self).volumes@[i].download_status is Failed {
                        Status::NotStarted
                    } else {
                        old(self).volumes@[i].download_status
                    },
                    ..old(self).volumes@[i]
                }),
            forall|i: int|
                0 <= i < old(self).chapters@.len() ==> final(self).chapters@[i] == (
                NovelDownloadChapter {
                    download_status: if old(self).chapters@[i].download_status is Failed {
                        Status::NotStarted
                    } else {
                        old(self).chapters@[i].download_status
                    },
                    ..old(self).chapters@[i]
                }),
            forall|i: int|
                0 <= i < old(self).pictures@.len() ==> final(self).pictures@[i] == (
                NovelDownloadPicture {
                    download_status: if old(self).pictures@[i].download_status is Failed {
                        Status::NotStarted
                    } else {
                        old(self).pictures@[i].download_status
                    },
                    ..old(self).pictures@[i]
                }),
    {
        let mut new_n: Vec<NovelDownload> = Vec::new();
        let mut k: usize = 0;
        while k < self.novels.len()
            invariant
                0 <= k <= self.novels@.len(),
                new_n@.len() == k,
                forall|i: int|
                    0 <= i < k ==> new_n@[i] == (NovelDownload {
                        download_status: if self.novels@[i].download_status is Failed {
                            Status::NotStarted
                        } else {
                            self.novels@[i].download_status
                        },
                        cover_download_status: if self.novels@[i].cover_download_status
                            is Failed {
                            Status::NotStarted
                        } else {
                            self.novels@[i].cover_download_status
                        },
                        ..self.novels@[i]
                    }),
                *old(self) == *self,
            decreases self.novels@.len() - k,
        {
            let mut row = self.novels[k].duplicate();
            if matches!(row.download_status, Status::Failed) {
                row.download_status = Status::NotStarted;
            }
            if matches!(row.cover_download_status, Status::Failed) {
                row.cover_download_status = Status::NotStarted;
            }
            new_n.push(row);
            k += 1;
        }

        let mut new_v: Vec<NovelDownloadVolume> = Vec::new();
        let mut k: usize = 0;
        while k < self.volumes.len()
            invariant
                0 <= k <= self.volumes@.len(),
                new_v@.len() == k,
                forall|i: int|
                    0 <= i < k ==> new_v@[i] == (NovelDownloadVolume {
                        download_status: if self.volumes@[i].download_status is Failed {
                            Status::NotStarted
                        } else {
                            self.volumes@[i].download_status
                        },
                        ..self.volumes@[i]
                    }),
                *old(self) == *self,
            decreases self.volumes@.len() - k,
        {
            let mut row = self.volumes[k].duplicate();
            if matches!(row.download_status, Status::Failed) {
                row.download_status = Status::NotStarted;
            }
            new_v.push(row);
            k += 1;
        }

        let mut new_c: Vec<NovelDownloadChapter> = Vec::new();
        let mut k: usize = 0;
        while k < self.chapters.len()
            invariant
                0 <= k <= self.chapters@.len(),
                new_c@.len() == k,
                forall|i: int|
                    0 <= i < k ==> new_c@[i] == (NovelDownloadChapter {
                        download_status: if self.chapters@[i].download_status is Failed {
                            Status::NotStarted
                        } else {
                            self.chapters@[i].download_status
                        },
                        ..self.chapters@[i]
                    }),
                *old(self) == *self,
            decreases self.chapters@.len() - k,
        {
            let mut row = self.chapters[k].duplicate();
            if matches!(row.download_status, Status::Failed) {
                row.download_status = Status::NotStarted;
            }
            new_c.push(row);
            k += 1;
        }

        let mut new_p: Vec<NovelDownloadPicture> = Vec::new();
        let mut k: usize = 0;
        while k < self.pictures.len()
            invariant
                0 <= k <= self.pictures@.len(),
                new_p@.len() == k,
                forall|i: int|
                    0 <= i < k ==> new_p@[i] == (NovelDownloadPicture {
                        download_status: if self.pictures@[i].download_status is Failed {
                            Status::NotStarted
                        } else {
                            self.pictures@[i].download_status
                        },
                        ..self.pictures@[i]
                    }),
                *old(self) == *self,
            decreases self.pictures@.len() - k,
        {
            let mut row = self.pictures[k].duplicate();
            if matches!(row.download_status, Status::Failed) {
                row.download_status = Status::NotStarted;
            }
            new_p.push(row);
            k += 1;
        }

        self.novels = new_n;
        self.volumes = new_v;
        self.chapters = new_c;
        self.pictures = new_p;
        self.restart = true;
    }

    /// Index of the volume row with the given id, if any.
    pub fn find_volume(&self, volume_id: &str) -> (r: Option<usize>)
        ensures
            match r {
                Some(i) => i < self.volumes@.len() && self.volumes@[i as int].id@ == volume_id@,
                None => forall|i: int|
                    0 <= i < self.volumes@.len() ==> self.volumes@[i].id@ != volume_id@,
            },
    {
        let mut k: usize = 0;
        while k < self.volumes.len()
            invariant
                0 <= k <= self.volumes@.len(),
                forall|i: int| 0 <= i < k ==> self.volumes@[i].id@ != volume_id@,
            decreases self.volumes@.len() - k,
        {
            if str_eq(self.volumes[k].id.as_str(), volume_id) {
                return Some(k);
            }
            k += 1;
        }
        None
    }

    /// Index of the chapter row with the given id, if any.
    pub fn find_chapter(&self, chapter_id: &str) -> (r: Option<usize>)
        ensures
            match r {
                Some(i) => i < self.chapters@.len() && self.chapters@[i as int].id@
                    == chapter_id@,
                None => forall|i: int|
                    0 <= i < self.chapters@.len() ==> self.chapters@[i].id@ != chapter_id@,
            },
    {
        let mut k: usize = 0;
        while k < self.chapters.len()
            invariant
                0 <= k <= self.chapters@.len(),
                forall|i: int| 0 <= i < k ==> self.chapters@[i].id@ != chapter_id@,
            decreases self.chapters@.len() - k,
        {
            if str_eq(self.chapters[k].id.as_str(), chapter_id) {
                return Some(k);
            }
            k += 1;
        }
        None
    }
}

impl DownloadQueue {
    /// Some chapter of the volume has failed.
    pub open spec fn volume_has_failed_chapter(self, vid: Seq<char>) -> bool {
        exists|i: int|
            0 <= i < self.chapters@.len() && (#[trigger] self.chapters@[i]).volume_id@ == vid
                && self.chapters@[i].download_status is Failed
    }

    /// Some chapter of the volume is still waiting to be fetched.
    pub open spec fn volume_has_pending_chapter(self, vid: Seq<char>) -> bool {
        exists|i: int|
            0 <= i < self.chapters@.len() && (#[trigger] self.chapters@[i]).volume_id@ == vid
                && self.chapters@[i].download_status is NotStarted
    }

    /// Every chapter of the volume has succeeded.
    pub open spec fn volume_chapters_all_success(self, vid: Seq<char>) -> bool {
        forall|i: int|
            0 <= i < self.chapters@.len() && (#[trigger] self.chapters@[i]).volume_id@ == vid
                ==> self.chapters@[i].download_status is Success
    }

    /// Some volume of the novel has failed.
    pub open spec fn novel_has_failed_volume(self, aid: Seq<char>) -> bool {
        exists|i: int|
            0 <= i < self.volumes@.len() && (#[trigger] self.volumes@[i]).novel_id@ == aid
                && self.volumes@[i].download_status is Failed
    }

    /// Every volume of the novel has succeeded.
    pub open spec fn novel_volumes_all_success(self, aid: Seq<char>) -> bool {
        forall|i: int|
            0 <= i < self.volumes@.len() && (#[trigger] self.volumes@[i]).novel_id@ == aid
                ==> self.volumes@[i].download_status is Success
    }

    /// Some picture of the novel has failed.
    pub open spec fn novel_has_failed_picture(self, aid: Seq<char>) -> bool {
        exists|i: int|
            0 <= i < self.pictures@.len() && (#[trigger] self.pictures@[i]).aid@ == aid
                && self.pictures@[i].download_status is Failed
    }

    /// Every picture of the novel has succeeded.
    pub open spec fn novel_pictures_all_success(self, aid: Seq<char>) -> bool {
        forall|i: int|
            0 <= i < self.pictures@.len() && (#[trigger] self.pictures@[i]).aid@ == aid
                ==> self.pictures@[i].download_status is Success
    }

    /// Some chapter of the novel has failed.
    pub open spec fn novel_has_failed_chapter(self, aid: Seq<char>) -> bool {
        exists|i: int|
            0 <= i < self.chapters@.len() && (#[trigger] self.chapters@[i]).aid@ == aid
                && self.chapters@[i].download_status is Failed
    }

    /// Every chapter of the novel has succeeded.
    pub open spec fn novel_chapters_all_success(self, aid: Seq<char>) -> bool {
        forall|i: int|
            0 <= i < self.chapters@.len() && (#[trigger] self.chapters@[i]).aid@ == aid
                ==> self.chapters@[i].download_status is Success
    }

    /// How many chapters of the novel have succeeded.
    pub open spec fn success_chapter_count(self, aid: Seq<char>) -> int {
        self.chapters@.filter(chapter_succeeded(aid)).len() as int
    }

    /// Failed / all-success summary of one volume's chapters.
    fn volume_chapter_summary(&self, volume_id: &str) -> (r: (bool, bool))
        ensures
            r.0 == self.volume_has_failed_chapter(volume_id@),
            r.1 == self.volume_chapters_all_success(volume_id@),
    {
        let mut any_failed = false;
        let mut all_success = true;
        let mut k: usize = 0;
        while k < self.chapters.len()
            invariant
                0 <= k <= self.chapters@.len(),
                any_failed == exists|i: int|
                    0 <= i < k && (#[trigger] self.chapters@[i]).volume_id@ == volume_id@
                        && self.chapters@[i].download_status is Failed,
                all_success == forall|i: int|
                    0 <= i < k && (#[trigger] self.chapters@[i]).volume_id@ == volume_id@
                        ==> self.chapters@[i].download_status is Success,
            decreases self.chapters@.len() - k,
        {
            let c = &self.chapters[k];
            if str_eq(c.volume_id.as_str(), volume_id) {
                if matches!(c.download_status, Status::Failed) {
                    any_failed = true;
                }
                if !matches!(c.download_status, Status::Success) {
                    all_success = false;
                }
            }
            k += 1;
        }
        (any_failed, all_success)
    }

    /// Failed / all-success summary of one novel's volumes.
    fn novel_volume_summary(&self, novel_id: &str) -> (r: (bool, bool))
        ensures
            r.0 == self.novel_has_failed_volume(novel_id@),
            r.1 == self.novel_volumes_all_success(novel_id@),
    {
        let mut any_failed = false;
        let mut all_success = true;
        let mut k: usize = 0;
        while k < self.volumes.len()
            invariant
                0 <= k <= self.volumes@.len(),
                any_failed == exists|i: int|
                    0 <= i < k && (#[trigger] self.volumes@[i]).novel_id@ == novel_id@
                        && self.volumes@[i].download_status is Failed,
                all_success == forall|i: int|
                    0 <= i < k && (#[trigger] self.volumes@[i]).novel_id@ == novel_id@
                        ==> self.volumes@[i].download_status is Success,
            decreases self.volumes@.len() - k,
        {
            let v = &self.volumes[k];
            if str_eq(v.novel_id.as_str(), novel_id) {
                if matches!(v.download_status, Status::Failed) {
                    any_failed = true;
                }
                if !matches!(v.download_status, Status::Success) {
                    all_success = false;
                }
            }
            k += 1;
        }
        (any_failed, all_success)
    }

    /// Failed / all-success summary of one novel's pictures.
    fn novel_picture_summary(&self, novel_id: &str) -> (r: (bool, bool))
        ensures
            r.0 == self.novel_has_failed_picture(novel_id@),
            r.1 == self.novel_pictures_all_success(novel_id@),
    {
        let mut any_failed = false;
        let mut all_success = true;
        let mut k: usize = 0;
        while k < self.pictures.len()
            invariant
                0 <= k <= self.pictures@.len(),
                any_failed == exists|i: int|
                    0 <= i < k && (#[trigger] self.pictures@[i]).aid@ == novel_id@
                        && self.pictures@[i].download_status is Failed,
                all_success == forall|i: int|
                    0 <= i < k && (#[trigger] self.pictures@[i]).aid@ == novel_id@
                        ==> self.pictures@[i].download_status is Success,
            decreases self.pictures@.len() - k,
        {
            let p = &self.pictures[k];
            if str_eq(p.aid.as_str(), novel_id) {
                if matches!(p.download_status, Status::Failed) {
                    any_failed = true;
                }
                if !matches!(p.download_status, Status::Success) {
                    all_success = false;
                }
            }
            k += 1;
        }
        (any_failed, all_success)
    }

    /// Failed / all-success summary of one novel's chapters.
    fn novel_chapter_summary(&self, novel_id: &str) -> (r: (bool, bool))
        ensures
            r.0 == self.novel_has_failed_chapter(novel_id@),
            r.1 == self.novel_chapters_all_success(novel_id@),
    {
        let mut any_failed = false;
        let mut all_success = true;
        let mut k: usize = 0;
        while k < self.chapters.len()
            invariant
                0 <= k <= self.chapters@.len(),
                any_failed == exists|i: int|
                    0 <= i < k && (#[trigger] self.chapters@[i]).aid@ == novel_id@
                        && self.chapters@[i].download_status is Failed,
                all_success == forall|i: int|
                    0 <= i < k && (#[trigger] self.chapters@[i]).aid@ == novel_id@
                        ==> self.chapters@[i].download_status is Success,
            decreases self.chapters@.len() - k,
        {
            let c = &self.chapters[k];
            if str_eq(c.aid.as_str(), novel_id) {
                if matches!(c.download_status, Status::Failed) {
                    any_failed = true;
                }
                if !matches!(c.download_status, Status::Success) {
                    all_success = false;
                }
            }
            k += 1;
        }
        (any_failed, all_success)
    }

    /// Count the novel's successful chapters.
    fn count_success_chapters(&self, novel_id: &str) -> (cnt: usize)
        ensures
            cnt == self.success_chapter_count(novel_id@),
    {
        let ghost pred = chapter_succeeded(novel_id@);
        let mut cnt: usize = 0;
        let mut k: usize = 0;
        while k < self.chapters.len()
            invariant
                0 <= k <= self.chapters@.len(),
                pred == chapter_succeeded(novel_id@),
                cnt == self.chapters@.take(k as int).filter(pred).len(),
                cnt <= k,
            decreases self.chapters@.len() - k,
        {
            proof {
                let s = self.chapters@;
                let x = s[k as int];
                assert(s.take(k + 1) =~= s.take(k as int).push(x));
                s.take(k as int).lemma_filter_push(x, pred);
                assert(pred(x) == (x.aid@ == novel_id@ && x.download_status is Success));
            }
            let c = &self.chapters[k];
            if str_eq(c.aid.as_str(), novel_id) && matches!(c.download_status, Status::Success) {
                cnt += 1;
            }
            k += 1;
        }
        proof {
            assert(self.chapters@.take(self.chapters@.len() as int) =~= self.chapters@);
        }
        cnt
    }

    /// Mark a novel finished: success status, completion time, and the
    /// completed-chapter counter.
    fn mark_novel_success(&mut self, novel_id: &str, count: i32, now: i64)
        requires
            old(self).wf(),
        ensures
            final(self).wf(),
            final(self).volumes@ == old(self).volumes@,
            final(self).chapters@ == old(self).chapters@,
            final(self).pictures@ == old(self).pictures@,
            final(self).restart == old(self).restart,
            final(self).novels@.len() == old(self).novels@.len(),
            forall|i: int|
                0 <= i < old(self).novels@.len() ==> final(self).novels@[i] == (if old(self).novels@[i].novel_id@ == novel_id@ {
                    (NovelDownload {
                        download_status: Status::Success,
                        download_chapter_count: count,
                        download_time: now,
                        ..old(self).novels@[i]
                    })
                } else {
                    old(self).novels@[i]
                }),
    {
        match self.find_novel(novel_id) {
            Some(k) => {
                let mut row = self.novels[k].duplicate();
                row.download_status = Status::Success;
                row.download_chapter_count = count;
                row.download_time = now;
                self.novels.set(k, row);
            },
            None => {},
        }
    }

    /// The chapter's completion would be its first success: the fetch
    /// succeeded and the row had not already reached success before.
    pub open spec fn chapter_first_success(self, cid: Seq<char>, ok: bool) -> bool {
        ok && exists|j: int|
            0 <= j < self.chapters@.len() && (#[trigger] self.chapters@[j]).id@ == cid && !(
            self.chapters@[j].download_status is Success)
    }

    /// Record the outcome of fetching one chapter: its row turns to success
    /// or failure, and on a chapter's first transition into success the
    /// owning novel's completed-chapter counter grows by one. Sibling
    /// chapters, volumes and pictures are untouched.
    pub fn record_chapter_result(&mut self, novel_id: &str, chapter_id: &str, ok: bool)
        requires
            old(self).wf(),
        ensures
            final(self).wf(),
            final(self).volumes@ == old(self).volumes@,
            final(self).pictures@ == old(self).pictures@,
            final(self).restart == old(self).restart,
            final(self).chapters@.len() == old(self).chapters@.len(),
            final(self).novels@.len() == old(self).novels@.len(),
            forall|i: int|
                0 <= i < old(self).chapters@.len() ==> final(self).chapters@[i] == (if old(self).chapters@[i].id@ == chapter_id@ {
                    (NovelDownloadChapter {
                        download_status: if ok {
                            Status::Success
                        } else {
                            Status::Failed
                        },
                        ..old(self).chapters@[i]
                    })
                } else {
                    old(self).chapters@[i]
                }),
            forall|i: int|
                0 <= i < old(self).novels@.len() ==> final(self).novels@[i] == (if old(self).novels@[i].novel_id@ == novel_id@ && old(self).chapter_first_success(
                    chapter_id@,
                    ok,
                ) {
                    (NovelDownload {
                        download_chapter_count: if old(self).novels@[i].download_chapter_count
                            < i32::MAX {
                            (old(self).novels@[i].download_chapter_count + 1) as i32
                        } else {
                            old(self).novels@[i].download_chapter_count
                        },
                        ..old(self).novels@[i]
                    })
                } else {
                    old(self).novels@[i]
                }),
    {
        let k = match self.find_chapter(chapter_id) {
            Some(k) => k,
            None => {
                return ;
            },
        };
        let was_success = matches!(self.chapters[k].download_status, Status::Success);
        self.update_chapter_status(
            chapter_id,
            if ok {
                Status::Success
            } else {
                Status::Failed
            },
        );
        if ok && !was_success {
            self.add_one_download_chapter_count(novel_id);
        }
    }

    /// Some novel row whose cover comes from this address, if any.
    pub fn find_by_image_url(&self, img_url: &str) -> (r: Option<&NovelDownload>)
        ensures
            match r {
                Some(n) => exists|k: int|
                    0 <= k < self.novels@.len() && #[trigger] self.novels@[k] == *n
                        && n.cover_url@ == img_url@,
                None => forall|i: int|
                    0 <= i < self.novels@.len() ==> (#[trigger] self.novels@[i]).cover_url@
                        != img_url@,
            },
    {
        let mut k: usize = 0;
        while k < self.novels.len()
            invariant
                0 <= k <= self.novels@.len(),
                forall|i: int| 0 <= i < k ==> (#[trigger] self.novels@[i]).cover_url@ != img_url@,
            decreases self.novels@.len() - k,
        {
            if str_eq(self.novels[k].cover_url.as_str(), img_url) {
                return Some(&self.novels[k]);
            }
            k += 1;
        }
        None
    }

    /// Some picture row with this source address, if any.
    pub fn find_picture_by_url(&self, url: &str) -> (r: Option<&NovelDownloadPicture>)
        ensures
            match r {
                Some(p) => exists|k: int|
                    0 <= k < self.pictures@.len() && #[trigger] self.pictures@[k] == *p && p.url@
                        == url@,
                None => forall|i: int|
                    0 <= i < self.pictures@.len() ==> (#[trigger] self.pictures@[i]).url@ != url@,
            },
    {
        let mut k: usize = 0;
        while k < self.pictures.len()
            invariant
                0 <= k <= self.pictures@.len(),
                forall|i: int| 0 <= i < k ==> (#[trigger] self.pictures@[i]).url@ != url@,
            decreases self.pictures@.len() - k,
        {
            if str_eq(self.pictures[k].url.as_str(), url) {
                return Some(&self.pictures[k]);
            }
            k += 1;
        }
        None
    }

    /// First novel row marked for deletion, if any.
    pub fn find_first_deleting(&self) -> (r: Option<NovelDownload>)
        ensures
            match r {
                Some(n) => exists|k: int|
                    0 <= k < self.novels@.len() && #[trigger] self.novels@[k] == n
                        && n.download_status is Deleting && (forall|j: int|
                        0 <= j < k ==> !(self.novels@[j].download_status is Deleting)),
                None => forall|i: int|
                    0 <= i < self.novels@.len() ==> !(self.novels@[i].download_status
                        is Deleting),
            },
    {
        let mut k: usize = 0;
        while k < self.novels.len()
            invariant
                0 <= k <= self.novels@.len(),
                forall|j: int| 0 <= j < k ==> !(self.novels@[j].download_status is Deleting),
            decreases self.novels@.len() - k,
        {
            if matches!(self.novels[k].download_status, Status::Deleting) {
                return Some(self.novels[k].duplicate());
            }
            k += 1;
        }
        None
    }

    /// First novel row still waiting to be processed, if any.
    pub fn find_first_not_started(&self) -> (r: Option<NovelDownload>)
        ensures
            match r {
                Some(n) => exists|k: int|
                    0 <= k < self.novels@.len() && #[trigger] self.novels@[k] == n
                        && n.download_status is NotStarted && (forall|j: int|
                        0 <= j < k ==> !(self.novels@[j].download_status is NotStarted)),
                None => forall|i: int|
                    0 <= i < self.novels@.len() ==> !(self.novels@[i].download_status
                        is NotStarted),
            },
    {
        let mut k: usize = 0;
        while k < self.novels.len()
            invariant
                0 <= k <= self.novels@.len(),
                forall|j: int| 0 <= j < k ==> !(self.novels@[j].download_status is NotStarted),
            decreases self.novels@.len() - k,
        {
            if matches!(self.novels[k].download_status, Status::NotStarted) {
                return Some(self.novels[k].duplicate());
            }
            k += 1;
        }
        None
    }

    /// First volume of the novel still waiting to be completed, if any.
    pub fn find_incomplete_volume(&self, novel_id: &str) -> (r: Option<NovelDownloadVolume>)
        ensures
            match r {
                Some(v) => exists|k: int|
                    0 <= k < self.volumes@.len() && #[trigger] self.volumes@[k] == v
                        && v.novel_id@ == novel_id@ && v.download_status is NotStarted && (
                    forall|j: int|
                        0 <= j < k ==> !(self.volumes@[j].novel_id@ == novel_id@
                            && self.volumes@[j].download_status is NotStarted)),
                None => forall|i: int|
                    0 <= i < self.volumes@.len() ==> !(self.volumes@[i].novel_id@ == novel_id@
                        && self.volumes@[i].download_status is NotStarted),
            },
    {
        let mut k: usize = 0;
        while k < self.volumes.len()
            invariant
                0 <= k <= self.volumes@.len(),
                forall|j: int|
                    0 <= j < k ==> !(self.volumes@[j].novel_id@ == novel_id@
                        && self.volumes@[j].download_status is NotStarted),
            decreases self.volumes@.len() - k,
        {
            let v = &self.volumes[k];
            if str_eq(v.novel_id.as_str(), novel_id) && matches!(
                v.download_status,
                Status::NotStarted,
            ) {
                return Some(self.volumes[k].duplicate());
            }
            k += 1;
        }
        None
    }

    /// First chapter of the volume still waiting to be fetched, if any.
    pub fn find_pending_chapter(&self, volume_id: &str) -> (r: Option<NovelDownloadChapter>)
        ensures
            match r {
                Some(c) => exists|k: int|
                    0 <= k < self.chapters@.len() && #[trigger] self.chapters@[k] == c
                        && c.volume_id@ == volume_id@ && c.download_status is NotStarted && (
                    forall|j: int|
                        0 <= j < k ==> !(self.chapters@[j].volume_id@ == volume_id@
                            && self.chapters@[j].download_status is NotStarted)),
                None => !self.volume_has_pending_chapter(volume_id@),
            },
    {
        let mut k: usize = 0;
        while k < self.chapters.len()
            invariant
                0 <= k <= self.chapters@.len(),
                forall|j: int|
                    0 <= j < k ==> !(self.chapters@[j].volume_id@ == volume_id@
                        && self.chapters@[j].download_status is NotStarted),
            decreases self.chapters@.len() - k,
        {
            let c = &self.chapters[k];
            if str_eq(c.volume_id.as_str(), volume_id) && matches!(
                c.download_status,
                Status::NotStarted,
            ) {
                return Some(self.chapters[k].duplicate());
            }
            k += 1;
        }
        None
    }

    /// A pending picture of the novel with the smallest picture index, if
    /// any is still waiting to be fetched.
    pub fn find_pending_picture(&self, novel_id: &str) -> (r: Option<NovelDownloadPicture>)
        ensures
            match r {
                Some(p) => exists|k: int|
                    0 <= k < self.pictures@.len() && #[trigger] self.pictures@[k] == p
                        && p.aid@ == novel_id@ && p.download_status is NotStarted && (forall|
                        j: int,
                    |
                        0 <= j < self.pictures@.len() && (#[trigger] self.pictures@[j]).aid@
                            == novel_id@ && self.pictures@[j].download_status is NotStarted
                            ==> p.picture_idx <= self.pictures@[j].picture_idx),
                None => forall|i: int|
                    0 <= i < self.pictures@.len() ==> !(self.pictures@[i].aid@ == novel_id@
                        && self.pictures@[i].download_status is NotStarted),
            },
    {
        let mut best: Option<usize> = None;
        let mut k: usize = 0;
        while k < self.pictures.len()
            invariant
                0 <= k <= self.pictures@.len(),
                match best {
                    Some(b) => 0 <= b < k && self.pictures@[b as int].aid@ == novel_id@
                        && self.pictures@[b as int].download_status is NotStarted && (forall|
                        j: int,
                    |
                        0 <= j < k && (#[trigger] self.pictures@[j]).aid@ == novel_id@
                            && self.pictures@[j].download_status is NotStarted ==> self.pictures@[
                            b as int
                        ].picture_idx <= self.pictures@[j].picture_idx),
                    None => forall|j: int|
                        0 <= j < k ==> !(self.pictures@[j].aid@ == novel_id@
                            && self.pictures@[j].download_status is NotStarted),
                },
            decreases self.pictures@.len() - k,
        {
            let p = &self.pictures[k];
            if str_eq(p.aid.as_str(), novel_id) && matches!(
                p.download_status,
                Status::NotStarted,
            ) {
                best = match best {
                    None => Some(k),
                    Some(b) => if self.pictures[k].picture_idx < self.pictures[b].picture_idx {
                        Some(k)
                    } else {
                        Some(b)
                    },
                };
            }
            k += 1;
        }
        match best {
            Some(b) => Some(self.pictures[b].duplicate()),
            None => None,
        }
    }

    /// The novel row as it stands after one aggregation pass over its
    /// children. A row that already reached success or failure is never
    /// regressed; an in-progress row fails as soon as any child failed, and
    /// succeeds only once every volume, picture and chapter succeeded.
    pub open spec fn novel_after_finalize(self, n: NovelDownload, now: i64) -> NovelDownload {
        let aid = n.novel_id@;
        if !(n.download_status is NotStarted) {
            n
        } else if self.novel_has_failed_volume(aid) {
            NovelDownload { download_status: Status::Failed, download_time: now, ..n }
        } else if !self.novel_volumes_all_success(aid) {
            n
        } else if self.novel_has_failed_picture(aid) {
            NovelDownload { download_status: Status::Failed, download_time: now, ..n }
        } else if !self.novel_pictures_all_success(aid) {
            n
        } else if self.novel_has_failed_chapter(aid) {
            NovelDownload { download_status: Status::Failed, download_time: now, ..n }
        } else if !self.novel_chapters_all_success(aid) {
            n
        } else {
            NovelDownload {
                download_status: Status::Success,
                download_time: now,
                download_chapter_count: saturated_i32(self.success_chapter_count(aid)),
                ..n
            }
        }
    }

    /// Aggregate one volume's status from its chapters: any failed chapter
    /// fails the volume, all-successful chapters complete it, and an
    /// in-progress set leaves it untouched. Volumes that already reached
    /// success or failure are never regressed, and no chapter row is
    /// altered.
    pub fn apply_volume_aggregation(&mut self, volume_id: &str)
        requires
            old(self).wf(),
        ensures
            final(self).wf(),
            final(self).novels@ == old(self).novels@,
            final(self).chapters@ == old(self).chapters@,
            final(self).pictures@ == old(self).pictures@,
            final(self).restart == old(self).restart,
            final(self).volumes@.len() == old(self).volumes@.len(),
            forall|i: int|
                0 <= i < old(self).volumes@.len() ==> final(self).volumes@[i] == (
                {
                    let v = old(self).volumes@[i];
                    if v.id@ == volume_id@ && v.download_status is NotStarted {
                        if old(self).volume_has_failed_chapter(volume_id@) {
                            (NovelDownloadVolume { download_status: Status::Failed, ..v })
                        } else if old(self).volume_chapters_all_success(volume_id@) {
                            (NovelDownloadVolume { download_status: Status::Success, ..v })
                        } else {
                            v
                        }
                    } else {
                        v
                    }
                }),
    {
        let k = match self.find_volume(volume_id) {
            Some(k) => k,
            None => {
                return ;
            },
        };
        if !matches!(self.volumes[k].download_status, Status::NotStarted) {
            return ;
        }
        let (any_failed, all_success) = self.volume_chapter_summary(volume_id);
        if any_failed {
            self.update_volume_status(volume_id, Status::Failed);
        } else if all_success {
            self.update_volume_status(volume_id, Status::Success);
        }
    }

    /// Aggregate one novel's status from its volumes, pictures and
    /// chapters, per `novel_after_finalize`. Rows of other novels and all
    /// child tables are untouched; in particular a novel that has already
    /// succeeded stays successful, whatever its children say.
    pub fn finalize_novel(&mut self, novel_id: &str, now: i64)
        requires
            old(self).wf(),
        ensures
            final(self).wf(),
            final(self).volumes@ == old(self).volumes@,
            final(self).chapters@ == old(self).chapters@,
            final(self).pictures@ == old(self).pictures@,
            final(self).restart == old(self).restart,
            final(self).novels@.len() == old(self).novels@.len(),
            forall|i: int|
                0 <= i < old(self).novels@.len() ==> final(self).novels@[i] == (if old(self).novels@[i].novel_id@ == novel_id@ {
                    old(self).novel_after_finalize(old(self).novels@[i], now)
                } else {
                    old(self).novels@[i]
                }),
            forall|i: int|
                0 <= i < old(self).novels@.len() && old(self).novels@[i].download_status
                    is Success ==> final(self).novels@[i] == old(self).novels@[i],
    {
        let k = match self.find_novel(novel_id) {
            Some(k) => k,
            None => {
                return ;
            },
        };
        if !matches!(self.novels[k].download_status, Status::NotStarted) {
            return ;
        }
        let (vol_failed, vols_ok) = self.novel_volume_summary(novel_id);
        if vol_failed {
            self.update_novel_status(novel_id, Status::Failed, now);
            return ;
        }
        if !vols_ok {
            return ;
        }
        let (pic_failed, pics_ok) = self.novel_picture_summary(novel_id);
        if pic_failed {
            self.update_novel_status(novel_id, Status::Failed, now);
            return ;
        }
        if !pics_ok {
            return ;
        }
        let (ch_failed, chs_ok) = self.novel_chapter_summary(novel_id);
        if ch_failed {
            self.update_novel_status(novel_id, Status::Failed, now);
            return ;
        }
        if !chs_ok {
            return ;
        }
        let cnt = self.count_success_chapters(novel_id);
        let count32: i32 = if cnt > i32::MAX as usize {
            i32::MAX
        } else {
            cnt as i32
        };
        self.mark_novel_success(novel_id, count32, now);
    }
}

/// Predicate satisfied by the volume rows that belong to novel `aid`.
pub open spec fn volume_owned_by(aid: Seq<char>) -> spec_fn(NovelDownloadVolume) -> bool {
    |v: NovelDownloadVolume| v.novel_id@ == aid
}

/// Predicate satisfied by the chapter rows that belong to novel `aid`.
pub open spec fn chapter_owned_by(aid: Seq<char>) -> spec_fn(NovelDownloadChapter) -> bool {
    |c: NovelDownloadChapter| c.aid@ == aid
}

/// There is a novel row with the given id.
pub open spec fn has_novel_row(s: Seq<NovelDownload>, id: Seq<char>) -> bool {
    exists|m: int| 0 <= m < s.len() && (#[trigger] s[m]).novel_id@ == id
}

/// There is a volume row with the given id.
pub open spec fn has_volume_row(s: Seq<NovelDownloadVolume>, id: Seq<char>) -> bool {
    exists|m: int| 0 <= m < s.len() && (#[trigger] s[m]).id@ == id
}

/// There is a chapter row with the given id.
pub open spec fn has_chapter_row(s: Seq<NovelDownloadChapter>, id: Seq<char>) -> bool {
    exists|m: int| 0 <= m < s.len() && (#[trigger] s[m]).id@ == id
}

/// There is a picture row with the given composite key.
pub open spec fn has_picture_row(
    s: Seq<NovelDownloadPicture>,
    aid: Seq<char>,
    vid: Seq<char>,
    cid: Seq<char>,
    idx: i32,
) -> bool {
    exists|m: int|
        0 <= m < s.len() && (#[trigger] s[m]).aid@ == aid && s[m].volume_id@ == vid
            && s[m].chapter_id@ == cid && s[m].picture_idx == idx
}

impl DownloadQueue {
    /// Insert a chapter row for every selected chapter of the volume tree
    /// that is not queued yet; chapters already queued are left exactly as
    /// they are.
    fn insert_chapter_rows(&mut self, aid: &str, cid_list: &Vec<String>, volumes: &Vec<Volume>)
        requires
            old(self).wf(),
            volumes@.len() <= i32::MAX,
            forall|v: int|
                0 <= v < volumes@.len() ==> (#[trigger] volumes@[v]).chapters@.len() <= i32::MAX,
        ensures
            final(self).wf(),
            final(self).novels@ == old(self).novels@,
            final(self).volumes@ == old(self).volumes@,
            final(self).pictures@ == old(self).pictures@,
            final(self).restart == old(self).restart,
            final(self).chapters@.len() >= old(self).chapters@.len(),
            final(self).chapters@.take(old(self).chapters@.len() as int) == old(self).chapters@,
            forall|m: int|
                old(self).chapters@.len() <= m < final(self).chapters@.len() ==> (
                #[trigger] final(self).chapters@[m]).aid@ == aid@ && final(self).chapters@[m].download_status
                    is NotStarted && final(self).chapters@[m].total_picture == 0 && cid_selected(
                    cid_list@,
                    volumes@,
                    final(self).chapters@[m].id@,
                ) && chapter_row_from(final(self).chapters@[m], volumes@) && (forall|j: int|
                    0 <= j < old(self).chapters@.len() ==> old(self).chapters@[j].id@ != final(self).chapters@[m].id@),
            forall|v: int, c: int|
                0 <= v < volumes@.len() && 0 <= c < volumes@[v].chapters@.len() && cid_selected(
                    cid_list@,
                    volumes@,
                    (#[trigger] volumes@[v].chapters@[c]).cid@,
                ) ==> has_chapter_row(final(self).chapters@, volumes@[v].chapters@[c].cid@),
    {
        let ghost n0 = old(self).chapters@.len() as int;
        let mut v: usize = 0;
        while v < volumes.len()
            invariant
                0 <= v <= volumes@.len(),
                volumes@.len() <= i32::MAX,
                forall|vv: int|
                    0 <= vv < volumes@.len() ==> (#[trigger] volumes@[vv]).chapters@.len()
                        <= i32::MAX,
                n0 == old(self).chapters@.len(),
                self.wf(),
                self.novels@ == old(self).novels@,
                self.volumes@ == old(self).volumes@,
                self.pictures@ == old(self).pictures@,
                self.restart == old(self).restart,
                self.chapters@.len() >= n0,
                self.chapters@.take(n0) == old(self).chapters@,
                forall|m: int|
                    n0 <= m < self.chapters@.len() ==> (#[trigger] self.chapters@[m]).aid@ == aid@
                        && self.chapters@[m].download_status is NotStarted
                        && self.chapters@[m].total_picture == 0 && cid_selected(
                        cid_list@,
                        volumes@,
                        self.chapters@[m].id@,
                    ) && chapter_row_from(self.chapters@[m], volumes@) && (forall|j: int|
                        0 <= j < n0 ==> old(self).chapters@[j].id@ != self.chapters@[m].id@),
                forall|vv: int, cc: int|
                    0 <= vv < v && 0 <= cc < volumes@[vv].chapters@.len() && cid_selected(
                        cid_list@,
                        volumes@,
                        (#[trigger] volumes@[vv].chapters@[cc]).cid@,
                    ) ==> has_chapter_row(self.chapters@, volumes@[vv].chapters@[cc].cid@),
            decreases volumes@.len() - v,
        {
            let vol = &volumes[v];
            let mut c: usize = 0;
            while c < vol.chapters.len()
                invariant
                    0 <= v < volumes@.len(),
                    0 <= c <= vol.chapters@.len(),
                    vol == &volumes[v as int],
                    volumes@.len() <= i32::MAX,
                    forall|vv: int|
                        0 <= vv < volumes@.len() ==> (#[trigger] volumes@[vv]).chapters@.len()
                            <= i32::MAX,
                    n0 == old(self).chapters@.len(),
                    self.wf(),
                    self.novels@ == old(self).novels@,
                    self.volumes@ == old(self).volumes@,
                    self.pictures@ == old(self).pictures@,
                    self.restart == old(self).restart,
                    self.chapters@.len() >= n0,
                    self.chapters@.take(n0) == old(self).chapters@,
                    forall|m: int|
                        n0 <= m < self.chapters@.len() ==> (#[trigger] self.chapters@[m]).aid@
                            == aid@ && self.chapters@[m].download_status is NotStarted
                            && self.chapters@[m].total_picture == 0 && cid_selected(
                            cid_list@,
                            volumes@,
                            self.chapters@[m].id@,
                        ) && chapter_row_from(self.chapters@[m], volumes@) && (forall|j: int|
                            0 <= j < n0 ==> old(self).chapters@[j].id@ != self.chapters@[m].id@),
                    forall|vv: int, cc: int|
                        0 <= vv < volumes@.len() && 0 <= cc < volumes@[vv].chapters@.len() && (vv
                            < v || (vv == v && cc < c)) && cid_selected(
                            cid_list@,
                            volumes@,
                            (#[trigger] volumes@[vv].chapters@[cc]).cid@,
                        ) ==> has_chapter_row(self.chapters@, volumes@[vv].chapters@[cc].cid@),
                decreases vol.chapters@.len() - c,
            {
                let ch = &vol.chapters[c];
                let selected = cid_list.len() == 0 || crate::strutil::contains_str(
                    cid_list,
                    ch.cid.as_str(),
                );
                proof {
                    if cid_list@.len() == 0 {
                        assert((#[trigger] volumes@[v as int].chapters@[c as int]).cid@ == ch.cid@);
                        assert(cid_selected(cid_list@, volumes@, ch.cid@));
                    } else if selected {
                        assert(cid_selected(cid_list@, volumes@, ch.cid@));
                    }
                }
                if selected {
                    let ghost prev = self.chapters@;
                    match self.find_chapter(ch.cid.as_str()) {
                        Some(k) => {
                            proof {
                                assert(self.chapters@[k as int].id@ == ch.cid@);
                                assert(has_chapter_row(self.chapters@, ch.cid@));
                            }
                        },
                        None => {
                            let row = NovelDownloadChapter {
                                id: ch.cid.clone(),
                                title: ch.title.clone(),
                                url: ch.url.clone(),
                                aid: aid.to_owned(),
                                volume_id: vol.id.clone(),
                                download_status: Status::NotStarted,
                                total_picture: 0,
                                chapter_idx: c as i32,
                            };
                            self.chapters.push(row);
                            proof {
                                let len = self.chapters@.len() as int;
                                assert(self.chapters@.take(n0) =~= prev.take(n0));
                                assert(self.chapters@[len - 1].id@ == (#[trigger] volumes@[
                                    v as int
                                ].chapters@[c as int]).cid@);
                                assert(chapter_row_from(self.chapters@[len - 1], volumes@));
                                assert(has_chapter_row(self.chapters@, ch.cid@));
                                assert forall|vv: int, cc: int|
                                    0 <= vv < volumes@.len() && 0 <= cc < volumes@[vv].chapters@.len()
                                        && (vv < v || (vv == v && cc < c)) && cid_selected(
                                        cid_list@,
                                        volumes@,
                                        (#[trigger] volumes@[vv].chapters@[cc]).cid@,
                                    ) implies has_chapter_row(
                                    self.chapters@,
                                    volumes@[vv].chapters@[cc].cid@,
                                ) by {
                                    let id = volumes@[vv].chapters@[cc].cid@;
                                    assert(has_chapter_row(prev, id));
                                    let m = choose|m: int|
                                        0 <= m < prev.len() && (#[trigger] prev[m]).id@ == id;
                                    assert(self.chapters@[m] == prev[m]);
                                }
                            }
                        },
                    }
                }
                c += 1;
            }
            v += 1;
        }
        proof {
            assert(self.chapters@.take(n0) == old(self).chapters@);
        }
    }

    /// Insert a volume row for every volume of the tree that is not queued
    /// yet, and reset the status of those already queued, so the driver
    /// revisits them.
    fn upsert_volume_rows(&mut self, aid: &str, volumes: &Vec<Volume>, now: i64)
        requires
            old(self).wf(),
            volumes@.len() <= i32::MAX,
        ensures
            final(self).wf(),
            final(self).novels@ == old(self).novels@,
            final(self).chapters@ == old(self).chapters@,
            final(self).pictures@ == old(self).pictures@,
            final(self).restart == old(self).restart,
            final(self).volumes@.len() >= old(self).volumes@.len(),
            forall|i: int|
                0 <= i < old(self).volumes@.len() ==> final(self).volumes@[i] == (if exists|v: int|
                    0 <= v < volumes@.len() && (#[trigger] volumes@[v]).id@ == old(self).volumes@[i].id@ {
                    (NovelDownloadVolume {
                        download_status: Status::NotStarted,
                        ..old(self).volumes@[i]
                    })
                } else {
                    old(self).volumes@[i]
                }),
            forall|m: int|
                old(self).volumes@.len() <= m < final(self).volumes@.len() ==> (#[trigger] final(self).volumes@[m]).novel_id@
                    == aid@ && final(self).volumes@[m].download_status is NotStarted && final(self).volumes@[m].create_time
                    == now && volume_row_from(final(self).volumes@[m], volumes@) && (forall|j: int|
                    0 <= j < old(self).volumes@.len() ==> old(self).volumes@[j].id@ != final(self).volumes@[m].id@),
            forall|v: int|
                0 <= v < volumes@.len() ==> has_volume_row(
                    final(self).volumes@,
                    (#[trigger] volumes@[v]).id@,
                ),
    {
        let ghost n0 = old(self).volumes@.len() as int;
        let mut v: usize = 0;
        while v < volumes.len()
            invariant
                0 <= v <= volumes@.len(),
                volumes@.len() <= i32::MAX,
                n0 == old(self).volumes@.len(),
                self.wf(),
                self.novels@ == old(self).novels@,
                self.chapters@ == old(self).chapters@,
                self.pictures@ == old(self).pictures@,
                self.restart == old(self).restart,
                self.volumes@.len() >= n0,
                forall|i: int|
                    0 <= i < n0 ==> self.volumes@[i] == (if exists|vv: int|
                        0 <= vv < v && (#[trigger] volumes@[vv]).id@ == old(self).volumes@[i].id@ {
                        (NovelDownloadVolume {
                            download_status: Status::NotStarted,
                            ..old(self).volumes@[i]
                        })
                    } else {
                        old(self).volumes@[i]
                    }),
                forall|m: int|
                    n0 <= m < self.volumes@.len() ==> (#[trigger] self.volumes@[m]).novel_id@
                        == aid@,
                forall|m: int|
                    n0 <= m < self.volumes@.len() ==> (#[trigger] self.volumes@[m]).download_status
                        is NotStarted,
                forall|m: int|
                    n0 <= m < self.volumes@.len() ==> (#[trigger] self.volumes@[m]).create_time
                        == now,
                forall|m: int|
                    n0 <= m < self.volumes@.len() ==> volume_row_from(
                        #[trigger] self.volumes@[m],
                        volumes@,
                    ),
                forall|m: int, j: int|
                    n0 <= m < self.volumes@.len() && 0 <= j < n0 ==> (#[trigger] old(self).volumes@[j]).id@
                        != (#[trigger] self.volumes@[m]).id@,
                forall|vv: int|
                    0 <= vv < v ==> has_volume_row(self.volumes@, (#[trigger] volumes@[vv]).id@),
            decreases volumes@.len() - v,
        {
            let vol = &volumes[v];
            let ghost prev = self.volumes@;
            match self.find_volume(vol.id.as_str()) {
                Some(k) => {
                    let mut row = self.volumes[k].duplicate();
                    row.download_status = Status::NotStarted;
                    self.volumes.set(k, row);
                    proof {
                        if k as int >= n0 {
                            assert(prev[k as int].novel_id@ == aid@);
                            assert(prev[k as int].download_status is NotStarted);
                            assert(self.volumes@[k as int] == prev[k as int]);
                        }
                        assert forall|m: int| n0 <= m < self.volumes@.len() implies
                            #[trigger] self.volumes@[m] == prev[m] by {
                            if m != k {
                                assert(self.volumes@[m] == prev[m]);
                            }
                        }
                        assert forall|m: int| 0 <= m < self.volumes@.len() implies (
                        #[trigger] self.volumes@[m]).id@ == prev[m].id@ by {
                            if m != k {
                                assert(self.volumes@[m] == prev[m]);
                            }
                        }
                        assert(self.volumes@[k as int].id@ == (#[trigger] volumes@[v as int]).id@);
                        assert(has_volume_row(self.volumes@, volumes@[v as int].id@));
                        assert forall|vv: int| 0 <= vv < v implies has_volume_row(
                            self.volumes@,
                            (#[trigger] volumes@[vv]).id@,
                        ) by {
                            assert(has_volume_row(prev, volumes@[vv].id@));
                            let m = choose|m: int|
                                0 <= m < prev.len() && (#[trigger] prev[m]).id@
                                    == volumes@[vv].id@;
                            assert(self.volumes@[m].id@ == volumes@[vv].id@);
                        }
                        assert forall|i: int| 0 <= i < n0 implies #[trigger] self.volumes@[i] == (
                        if exists|vv: int|
                            0 <= vv < v + 1 && (#[trigger] volumes@[vv]).id@ == old(self).volumes@[i].id@ {
                            (NovelDownloadVolume {
                                download_status: Status::NotStarted,
                                ..old(self).volumes@[i]
                            })
                        } else {
                            old(self).volumes@[i]
                        }) by {
                            assert(prev[i].id@ == old(self).volumes@[i].id@);
                            if i == k {
                                assert(volumes@[v as int].id@ == old(self).volumes@[i].id@);
                            } else {
                                assert(self.volumes@[i] == prev[i]);
                                if k < n0 {
                                    assert(prev[k as int].id@ == old(self).volumes@[k as int].id@);
                                }
                                if old(self).volumes@[i].id@ == volumes@[v as int].id@ {
                                    assert(prev[i].id@ == prev[k as int].id@);
                                    assert(false);
                                }
                            }
                        }
                    }
                },
                None => {
                    let row = NovelDownloadVolume {
                        id: vol.id.clone(),
                        novel_id: aid.to_owned(),
                        volume_idx: v as i32,
                        title: vol.title.clone(),
                        download_status: Status::NotStarted,
                        create_time: now,
                    };
                    self.volumes.push(row);
                    proof {
                        let len = self.volumes@.len() as int;
                        assert(self.volumes@[len - 1].id@ == (#[trigger] volumes@[v as int]).id@);
                        assert(volume_row_from(self.volumes@[len - 1], volumes@));
                        assert(has_volume_row(self.volumes@, volumes@[v as int].id@));
                        assert forall|j: int| 0 <= j < n0 implies (#[trigger] old(self).volumes@[
                            j
                        ]).id@ != self.volumes@[len - 1].id@ by {
                            assert(prev[j].id@ == old(self).volumes@[j].id@);
                            assert(prev[j].id@ != self.volumes@[len - 1].id@);
                        }
                        assert forall|vv: int| 0 <= vv < v implies has_volume_row(
                            self.volumes@,
                            (#[trigger] volumes@[vv]).id@,
                        ) by {
                            assert(has_volume_row(prev, volumes@[vv].id@));
                            let m = choose|m: int|
                                0 <= m < prev.len() && (#[trigger] prev[m]).id@
                                    == volumes@[vv].id@;
                            assert(self.volumes@[m] == prev[m]);
                        }
                        assert forall|i: int| 0 <= i < n0 implies #[trigger] self.volumes@[i] == (
                        if exists|vv: int|
                            0 <= vv < v + 1 && (#[trigger] volumes@[vv]).id@ == old(self).volumes@[i].id@ {
                            (NovelDownloadVolume {
                                download_status: Status::NotStarted,
                                ..old(self).volumes@[i]
                            })
                        } else {
                            old(self).volumes@[i]
                        }) by {
                            assert(self.volumes@[i] == prev[i]);
                            assert(prev[i].id@ == old(self).volumes@[i].id@);
                            if old(self).volumes@[i].id@ == volumes@[v as int].id@ {
                                assert(prev[i].id@ == volumes@[v as int].id@);
                                assert(false);
                            }
                        }
                    }
                },
            }
            v += 1;
        }
    }

    /// Insert or refresh the novel's own row: metadata from the fetched
    /// info, both statuses reset, the requested-chapter counter set and the
    /// completed-chapter counter cleared. The creation time is kept on a
    /// refresh and set to `now` on a first insert.
    fn upsert_novel_row(&mut self, aid: &str, info: &NovelInfo, count: i32, now: i64)
        requires
            old(self).wf(),
        ensures
            final(self).wf(),
            final(self).volumes@ == old(self).volumes@,
            final(self).chapters@ == old(self).chapters@,
            final(self).pictures@ == old(self).pictures@,
            final(self).restart == old(self).restart,
            has_novel_row(final(self).novels@, aid@),
            final(self).novels@.len() == (if has_novel_row(old(self).novels@, aid@) {
                old(self).novels@.len() as int
            } else {
                old(self).novels@.len() + 1int
            }),
            forall|i: int|
                0 <= i < final(self).novels@.len() ==> ((#[trigger] final(self).novels@[i]).novel_id@
                    == aid@ ==> final(self).novels@[i].novel_name == info.title && final(self).novels@[i].download_status
                    is NotStarted && final(self).novels@[i].cover_url == info.img_url && final(self).novels@[i].cover_download_status
                    is NotStarted && final(self).novels@[i].author == info.author && final(self).novels@[i].tags@
                    == joined_comma(info.tags@) && final(self).novels@[i].choose_chapter_count
                    == count && final(self).novels@[i].download_chapter_count == 0 && final(self).novels@[i].download_time
                    == now && final(self).novels@[i].introduce == info.introduce && final(self).novels@[i].trending
                    == info.trending && final(self).novels@[i].is_animated == info.is_animated
                    && final(self).novels@[i].fin_update == info.fin_update && final(self).novels@[i].status
                    == info.status),
            forall|i: int|
                0 <= i < old(self).novels@.len() ==> final(self).novels@[i].novel_id == old(self).novels@[i].novel_id
                    && (old(self).novels@[i].novel_id@ == aid@ ==> final(self).novels@[i].create_time
                    == old(self).novels@[i].create_time) && (old(self).novels@[i].novel_id@ != aid@
                    ==> final(self).novels@[i] == old(self).novels@[i]),
            !has_novel_row(old(self).novels@, aid@) ==> final(self).novels@[old(self).novels@.len() as int].novel_id@
                == aid@ && final(self).novels@[old(self).novels@.len() as int].create_time == now,
    {
        let tags = join_comma(&info.tags);
        match self.find_novel(aid) {
            Some(k) => {
                let mut row = self.novels[k].duplicate();
                row.novel_name = info.title.clone();
                row.download_status = Status::NotStarted;
                row.cover_url = info.img_url.clone();
                row.cover_download_status = Status::NotStarted;
                row.author = info.author.clone();
                row.tags = tags;
                row.choose_chapter_count = count;
                row.download_chapter_count = 0;
                row.download_time = now;
                row.introduce = info.introduce.clone();
                row.trending = info.trending.clone();
                row.is_animated = info.is_animated;
                row.fin_update = info.fin_update.clone();
                row.status = info.status.clone();
                self.novels.set(k, row);
                proof {
                    assert(self.novels@[k as int].novel_id@ == aid@);
                    assert(has_novel_row(self.novels@, aid@));
                    assert(old(self).novels@[k as int].novel_id@ == aid@);
                    assert(has_novel_row(old(self).novels@, aid@));
                }
            },
            None => {
                let row = NovelDownload {
                    novel_id: aid.to_owned(),
                    novel_name: info.title.clone(),
                    download_status: Status::NotStarted,
                    cover_url: info.img_url.clone(),
                    cover_download_status: Status::NotStarted,
                    author: info.author.clone(),
                    tags,
                    choose_chapter_count: count,
                    download_chapter_count: 0,
                    create_time: now,
                    download_time: now,
                    introduce: info.introduce.clone(),
                    trending: info.trending.clone(),
                    is_animated: info.is_animated,
                    fin_update: info.fin_update.clone(),
                    status: info.status.clone(),
                };
                self.novels.push(row);
                proof {
                    let len = self.novels@.len() as int;
                    assert(self.novels@[len - 1].novel_id@ == aid@);
                    assert(has_novel_row(self.novels@, aid@));
                    if has_novel_row(old(self).novels@, aid@) {
                        let m = choose|m: int|
                            0 <= m < old(self).novels@.len() && (#[trigger] old(self).novels@[m]).novel_id@
                                == aid@;
                        assert(false);
                    }
                }
            },
        }
    }

    /// Number of chapters the request selects, clamped into the counter's
    /// range.
    fn effective_count(cid_list: &Vec<String>, volumes: &Vec<Volume>) -> (r: i32)
        requires
            forall|v: int|
                0 <= v < volumes@.len() ==> (#[trigger] volumes@[v]).chapters@.len() <= i32::MAX,
        ensures
            r == saturated_i32(effective_chapter_count(cid_list@, volumes@)),
    {
        if cid_list.len() > 0 {
            if cid_list.len() > i32::MAX as usize {
                i32::MAX
            } else {
                cid_list.len() as i32
            }
        } else {
            let mut cnt: u64 = 0;
            let mut v: usize = 0;
            while v < volumes.len()
                invariant
                    0 <= v <= volumes@.len(),
                    forall|vv: int|
                        0 <= vv < volumes@.len() ==> (#[trigger] volumes@[vv]).chapters@.len()
                            <= i32::MAX,
                    cnt == (if total_chapter_count(volumes@.take(v as int)) > i32::MAX {
                        i32::MAX as int
                    } else {
                        total_chapter_count(volumes@.take(v as int))
                    }),
                    cnt <= i32::MAX,
                decreases volumes@.len() - v,
            {
                proof {
                    let t = volumes@.take(v + 1);
                    assert(t.drop_last() =~= volumes@.take(v as int));
                    assert(t.last() == volumes@[v as int]);
                    assert(total_chapter_count(t) == total_chapter_count(volumes@.take(v as int))
                        + volumes@[v as int].chapters@.len());
                }
                let len = volumes[v].chapters.len() as u64;
                if cnt + len > i32::MAX as u64 {
                    cnt = i32::MAX as u64;
                } else {
                    cnt = cnt + len;
                }
                v += 1;
            }
            proof {
                assert(volumes@.take(volumes@.len() as int) =~= volumes@);
            }
            cnt as i32
        }
    }

    /// Every queued novel, newest first by creation time. The result holds
    /// exactly the queue's novel rows, reordered.
    pub fn all_downloads(&self) -> (r: Vec<NovelDownload>)
        ensures
            r@.len() == self.novels@.len(),
            r@.to_multiset() == self.novels@.to_multiset(),
            forall|i: int, j: int|
                0 <= i < j < r@.len() ==> #[trigger] r@[i].create_time >= #[trigger] r@[j].create_time,
    {
        broadcast use vstd::seq_lib::group_to_multiset_ensures;

        let mut r: Vec<NovelDownload> = Vec::new();
        let mut k: usize = 0;
        while k < self.novels.len()
            invariant
                0 <= k <= self.novels@.len(),
                r@.to_multiset() == self.novels@.take(k as int).to_multiset(),
                r@.len() == k,
                forall|i: int, j: int|
                    0 <= i < j < r@.len() ==> #[trigger] r@[i].create_time >= #[trigger] r@[
                        j
                    ].create_time,
            decreases self.novels@.len() - k,
        {
            let row = self.novels[k].duplicate();
            let mut p: usize = 0;
            while p < r.len() && r[p].create_time >= row.create_time
                invariant
                    0 <= p <= r@.len(),
                    forall|q: int| 0 <= q < p ==> #[trigger] r@[q].create_time >= row.create_time,
                decreases r@.len() - p,
            {
                p += 1;
            }
            let ghost prev = r@;
            proof {
                crate::seqext::lemma_insert_to_multiset(prev, p as int, row);
                assert(self.novels@.take(k + 1) =~= self.novels@.take(k as int).push(
                    self.novels@[k as int],
                ));
                self.novels@.take(k as int).to_multiset_ensures();
                assert(self.novels@.take(k as int).push(self.novels@[k as int]).to_multiset()
                    =~= self.novels@.take(k as int).to_multiset().insert(
                    self.novels@[k as int],
                ));
            }
            r.insert(p, row);
            proof {
                assert forall|i: int, j: int| 0 <= i < j < r@.len() implies #[trigger] r@[
                    i
                ].create_time >= #[trigger] r@[j].create_time by {
                    prev.insert_ensures(p as int, row);
                    if j < p {
                        assert(r@[i] == prev[i] && r@[j] == prev[j]);
                    } else if i > p {
                        assert(r@[i] == prev[i - 1] && r@[j] == prev[j - 1]);
                    } else if i == p && j > p {
                        assert(r@[j] == prev[j - 1]);
                        assert(p < prev.len() ==> prev[p as int].create_time < row.create_time);
                        assert(prev[j - 1].create_time <= row.create_time);
                    } else if j == p {
                        assert(r@[i] == prev[i]);
                    } else if i < p && j > p {
                        assert(r@[i] == prev[i] && r@[j] == prev[j - 1]);
                        assert(prev[j - 1].create_time <= row.create_time);
                    }
                }
            }
            k += 1;
        }
        proof {
            assert(self.novels@.take(self.novels@.len() as int) =~= self.novels@);
        }
        r
    }

    /// One queued novel's full detail: its row together with exactly its
    /// volume rows, ascending by volume index, and its chapter rows in
    /// stored order; nothing if the novel is not queued.
    pub fn exists_download(&self, novel_id: &str) -> (r: Option<ExistsDownload>)
        requires
            self.wf(),
        ensures
            match r {
                Some(d) => d.novel_download.novel_id@ == novel_id@ && (exists|i: int|
                    0 <= i < self.novels@.len() && #[trigger] self.novels@[i]
                        == d.novel_download) && d.novel_download_volume@.to_multiset()
                    == self.volumes@.filter(volume_owned_by(novel_id@)).to_multiset() && (forall|
                    i: int,
                    j: int,
                |
                    0 <= i < j < d.novel_download_volume@.len()
                        ==> #[trigger] d.novel_download_volume@[i].volume_idx
                        <= #[trigger] d.novel_download_volume@[j].volume_idx)
                    && d.novel_download_chapter@ == self.chapters@.filter(
                    chapter_owned_by(novel_id@),
                ),
                None => !has_novel_row(self.novels@, novel_id@),
            },
    {
        let k = match self.find_novel(novel_id) {
            Some(k) => k,
            None => {
                proof {
                    if has_novel_row(self.novels@, novel_id@) {
                        let m = choose|m: int|
                            0 <= m < self.novels@.len() && (#[trigger] self.novels@[m]).novel_id@
                                == novel_id@;
                        assert(false);
                    }
                }
                return None;
            },
        };
        let novel = self.novels[k].duplicate();

        broadcast use vstd::seq_lib::group_to_multiset_ensures;

        let ghost vp = volume_owned_by(novel_id@);
        let mut vols: Vec<NovelDownloadVolume> = Vec::new();
        let mut i: usize = 0;
        while i < self.volumes.len()
            invariant
                0 <= i <= self.volumes@.len(),
                vp == volume_owned_by(novel_id@),
                vols@.to_multiset() == self.volumes@.take(i as int).filter(vp).to_multiset(),
                forall|a: int, b: int|
                    0 <= a < b < vols@.len() ==> #[trigger] vols@[a].volume_idx
                        <= #[trigger] vols@[b].volume_idx,
            decreases self.volumes@.len() - i,
        {
            proof {
                let s = self.volumes@;
                let x = s[i as int];
                assert(s.take(i + 1) =~= s.take(i as int).push(x));
                s.take(i as int).lemma_filter_push(x, vp);
                assert(vp(x) == (x.novel_id@ == novel_id@));
                s.take(i as int).filter(vp).to_multiset_ensures();
            }
            if str_eq(self.volumes[i].novel_id.as_str(), novel_id) {
                let row = self.volumes[i].duplicate();
                let mut p: usize = 0;
                while p < vols.len() && vols[p].volume_idx <= row.volume_idx
                    invariant
                        0 <= p <= vols@.len(),
                        forall|q: int|
                            0 <= q < p ==> #[trigger] vols@[q].volume_idx <= row.volume_idx,
                    decreases vols@.len() - p,
                {
                    p += 1;
                }
                let ghost prev = vols@;
                proof {
                    crate::seqext::lemma_insert_to_multiset(prev, p as int, row);
                }
                vols.insert(p, row);
                proof {
                    assert forall|a: int, b: int| 0 <= a < b < vols@.len() implies
                        #[trigger] vols@[a].volume_idx <= #[trigger] vols@[b].volume_idx by {
                        prev.insert_ensures(p as int, row);
                        if b < p {
                            assert(vols@[a] == prev[a] && vols@[b] == prev[b]);
                        } else if a > p {
                            assert(vols@[a] == prev[a - 1] && vols@[b] == prev[b - 1]);
                        } else if a == p && b > p {
                            assert(vols@[b] == prev[b - 1]);
                            assert(p < prev.len() ==> prev[p as int].volume_idx
                                > row.volume_idx);
                        } else if b == p {
                            assert(vols@[a] == prev[a]);
                        } else if a < p && b > p {
                            assert(vols@[a] == prev[a] && vols@[b] == prev[b - 1]);
                            assert(prev[b - 1].volume_idx > row.volume_idx);
                        }
                    }
                }
            }
            i += 1;
        }
        proof {
            assert(self.volumes@.take(self.volumes@.len() as int) =~= self.volumes@);
        }

        let ghost cp = chapter_owned_by(novel_id@);
        let mut chs: Vec<NovelDownloadChapter> = Vec::new();
        let mut i: usize = 0;
        while i < self.chapters.len()
            invariant
                0 <= i <= self.chapters@.len(),
                cp == chapter_owned_by(novel_id@),
                chs@ == self.chapters@.take(i as int).filter(cp),
            decreases self.chapters@.len() - i,
        {
            proof {
                let s = self.chapters@;
                let x = s[i as int];
                assert(s.take(i + 1) =~= s.take(i as int).push(x));
                s.take(i as int).lemma_filter_push(x, cp);
                assert(cp(x) == (x.aid@ == novel_id@));
            }
            if str_eq(self.chapters[i].aid.as_str(), novel_id) {
                chs.push(self.chapters[i].duplicate());
            }
            i += 1;
        }
        proof {
            assert(self.chapters@.take(self.chapters@.len() as int) =~= self.chapters@);
        }

        Some(
            ExistsDownload {
                novel_download: novel,
                novel_download_volume: vols,
                novel_download_chapter: chs,
            },
        )
    }

    /// Queue a novel for download: every selected chapter of the volume
    /// tree gets a pending chapter row (rows already queued are kept),
    /// every volume gets a pending row or has its status reset, and the
    /// novel's own row is inserted or refreshed with pending statuses and
    /// cleared counters. An empty selection means the whole novel.
    pub fn enqueue_novel(
        &mut self,
        aid: &str,
        cid_list: &Vec<String>,
        volumes: &Vec<Volume>,
        info: &NovelInfo,
        now: i64,
    )
        requires
            old(self).wf(),
            volumes@.len() <= i32::MAX,
            forall|v: int|
                0 <= v < volumes@.len() ==> (#[trigger] volumes@[v]).chapters@.len() <= i32::MAX,
        ensures
            final(self).wf(),
            final(self).restart == old(self).restart,
            final(self).pictures@ == old(self).pictures@,
            final(self).volumes@.len() >= old(self).volumes@.len(),
            final(self).novels@.len() == (if has_novel_row(old(self).novels@, aid@) {
                old(self).novels@.len() as int
            } else {
                old(self).novels@.len() + 1int
            }),
            // chapter rows: old ones kept verbatim, selected missing ones appended as pending
            final(self).chapters@.len() >= old(self).chapters@.len(),
            final(self).chapters@.take(old(self).chapters@.len() as int) == old(self).chapters@,
            forall|m: int|
                old(self).chapters@.len() <= m < final(self).chapters@.len() ==> (
                #[trigger] final(self).chapters@[m]).aid@ == aid@ && final(self).chapters@[m].download_status
                    is NotStarted && cid_selected(
                    cid_list@,
                    volumes@,
                    final(self).chapters@[m].id@,
                ) && chapter_row_from(final(self).chapters@[m], volumes@),
            forall|v: int, c: int|
                0 <= v < volumes@.len() && 0 <= c < volumes@[v].chapters@.len() && cid_selected(
                    cid_list@,
                    volumes@,
                    (#[trigger] volumes@[v].chapters@[c]).cid@,
                ) ==> has_chapter_row(final(self).chapters@, volumes@[v].chapters@[c].cid@),
            // volume rows: present for every volume of the tree
            forall|v: int|
                0 <= v < volumes@.len() ==> has_volume_row(
                    final(self).volumes@,
                    (#[trigger] volumes@[v]).id@,
                ),
            forall|m: int|
                old(self).volumes@.len() <= m < final(self).volumes@.len() ==> (#[trigger] final(self).volumes@[m]).novel_id@
                    == aid@ && final(self).volumes@[m].download_status is NotStarted
                    && volume_row_from(final(self).volumes@[m], volumes@),
            forall|i: int|
                0 <= i < old(self).volumes@.len() ==> final(self).volumes@[i] == (if exists|v: int|
                    0 <= v < volumes@.len() && (#[trigger] volumes@[v]).id@ == old(self).volumes@[i].id@ {
                    (NovelDownloadVolume {
                        download_status: Status::NotStarted,
                        ..old(self).volumes@[i]
                    })
                } else {
                    old(self).volumes@[i]
                }),
            // the novel row itself
            has_novel_row(final(self).novels@, aid@),
            forall|i: int|
                0 <= i < final(self).novels@.len() ==> ((#[trigger] final(self).novels@[i]).novel_id@
                    == aid@ ==> final(self).novels@[i].novel_name == info.title && final(self).novels@[i].download_status
                    is NotStarted && final(self).novels@[i].cover_url == info.img_url && final(self).novels@[i].cover_download_status
                    is NotStarted && final(self).novels@[i].author == info.author && final(self).novels@[i].tags@
                    == joined_comma(info.tags@) && final(self).novels@[i].choose_chapter_count
                    == saturated_i32(effective_chapter_count(cid_list@, volumes@)) && final(self).novels@[i].download_chapter_count
                    == 0 && final(self).novels@[i].download_time == now && final(self).novels@[i].introduce
                    == info.introduce && final(self).novels@[i].trending == info.trending && final(self).novels@[i].is_animated == info.is_animated && final(self).novels@[i].fin_update
                    == info.fin_update && final(self).novels@[i].status == info.status),
            forall|i: int|
                0 <= i < old(self).novels@.len() && old(self).novels@[i].novel_id@ == aid@
                    ==> (#[trigger] final(self).novels@[i]).create_time == old(self).novels@[i].create_time,
            !has_novel_row(old(self).novels@, aid@) ==> final(self).novels@[old(self).novels@.len() as int].novel_id@
                == aid@ && final(self).novels@[old(self).novels@.len() as int].create_time == now,
            forall|i: int|
                0 <= i < old(self).novels@.len() && old(self).novels@[i].novel_id@ != aid@
                    ==> #[trigger] final(self).novels@[i] == old(self).novels@[i],
            old(self).owners_linked() ==> final(self).owners_linked(),
    {
        let count = Self::effective_count(cid_list, volumes);
        let ghost s0 = *self;
        self.insert_chapter_rows(aid, cid_list, volumes);
        let ghost s1 = *self;
        self.upsert_volume_rows(aid, volumes, now);
        let ghost s2 = *self;
        self.upsert_novel_row(aid, info, count, now);
        proof {
            if s0.owners_linked() {
                assert forall|i: int| 0 <= i < self.volumes@.len() implies exists|k2: int|
                    0 <= k2 < self.novels@.len() && self.novels@[k2].novel_id@
                        == #[trigger] self.volumes@[i].novel_id@ by {
                    let x = self.volumes@[i].novel_id@;
                    if x == aid@ {
                        let w = choose|w: int|
                            0 <= w < self.novels@.len() && (#[trigger] self.novels@[w]).novel_id@
                                == aid@;
                        assert(0 <= w < self.novels@.len() && self.novels@[w].novel_id@ == x);
                    } else {
                        assert(i < s0.volumes@.len());
                        assert(s2.volumes@[i].novel_id@ == s0.volumes@[i].novel_id@);
                        assert(s0.volumes@[i].novel_id@ == x);
                        let kn = choose|kn: int|
                            0 <= kn < s0.novels@.len() && s0.novels@[kn].novel_id@ == x;
                        assert(s1.novels@[kn] == s0.novels@[kn]);
                        assert(s2.novels@[kn] == s1.novels@[kn]);
                        assert(self.novels@[kn].novel_id == s2.novels@[kn].novel_id);
                        assert(0 <= kn < self.novels@.len() && self.novels@[kn].novel_id@ == x);
                    }
                }
                assert forall|i: int| 0 <= i < self.chapters@.len() implies exists|k2: int|
                    0 <= k2 < self.novels@.len() && self.novels@[k2].novel_id@
                        == #[trigger] self.chapters@[i].aid@ by {
                    let x = self.chapters@[i].aid@;
                    if x == aid@ {
                        let w = choose|w: int|
                            0 <= w < self.novels@.len() && (#[trigger] self.novels@[w]).novel_id@
                                == aid@;
                        assert(0 <= w < self.novels@.len() && self.novels@[w].novel_id@ == x);
                    } else {
                        assert(i < s0.chapters@.len());
                        assert(s1.chapters@.take(s0.chapters@.len() as int)[i]
                            == s0.chapters@[i]);
                        assert(self.chapters@[i] == s0.chapters@[i]);
                        let kn = choose|kn: int|
                            0 <= kn < s0.novels@.len() && s0.novels@[kn].novel_id@ == x;
                        assert(s2.novels@[kn] == s0.novels@[kn]);
                        assert(self.novels@[kn].novel_id == s2.novels@[kn].novel_id);
                        assert(0 <= kn < self.novels@.len() && self.novels@[kn].novel_id@ == x);
                    }
                }
                assert forall|i: int| 0 <= i < self.pictures@.len() implies exists|k2: int|
                    0 <= k2 < self.novels@.len() && self.novels@[k2].novel_id@
                        == #[trigger] self.pictures@[i].aid@ by {
                    let x = self.pictures@[i].aid@;
                    assert(self.pictures@[i] == s0.pictures@[i]);
                    if x == aid@ {
                        let w = choose|w: int|
                            0 <= w < self.novels@.len() && (#[trigger] self.novels@[w]).novel_id@
                                == aid@;
                        assert(0 <= w < self.novels@.len() && self.novels@[w].novel_id@ == x);
                    } else {
                        let kn = choose|kn: int|
                            0 <= kn < s0.novels@.len() && s0.novels@[kn].novel_id@ == x;
                        assert(s2.novels@[kn] == s0.novels@[kn]);
                        assert(self.novels@[kn].novel_id == s2.novels@[kn].novel_id);
                        assert(0 <= kn < self.novels@.len() && self.novels@[kn].novel_id@ == x);
                    }
                }
            }
        }
    }
}

} // verus!
