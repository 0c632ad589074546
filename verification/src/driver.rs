//! The download driver's decision step. The driver runs as one background
//! task: each turn it asks the queue what to do next, performs the outside
//! work (a fetch, a directory removal), and records the outcome back into
//! the queue. Everything that can be decided from the queue alone is
//! decided here; the caller only executes commands and reports results,
//! re-checking the restart flag between steps as its checkpoints.
use vstd::prelude::*;

use crate::queue::DownloadQueue;
use crate::Status;

verus! {

/// What the driver should do next. Deletion outranks everything; then the
/// first waiting novel is driven: cover first, then its volumes chapter by
/// chapter with an aggregation once a volume has no pending chapter, then
/// its pictures, and finally the novel-level aggregation.
#[derive(Debug)]
pub enum DriverCommand {
    /// Nothing to do; sleep briefly and ask again.
    Idle,
    /// Remove the novel's directory from disk, then its rows.
    DeleteNovel { novel_id: String },
    /// Fetch the novel's cover image and write it into the novel's
    /// directory, then record the outcome.
    FetchCover { novel_id: String, url: String },
    /// Fetch one chapter's text and write it into the novel's directory,
    /// then record the outcome. One such fetch per second at most.
    FetchChapter { novel_id: String, volume_id: String, chapter_id: String },
    /// No chapter of this volume is pending: fold the chapter outcomes into
    /// the volume's status.
    AggregateVolume { novel_id: String, volume_id: String },
    /// Fetch one picture and write it into the novel's directory, then
    /// record the outcome.
    FetchPicture {
        aid: String,
        volume_id: String,
        chapter_id: String,
        picture_idx: i32,
        url: String,
        url_md5: String,
    },
    /// Nothing of this novel is pending: fold the children's outcomes into
    /// the novel's status.
    FinalizeNovel { novel_id: String },
}

impl DownloadQueue {
    /// Some novel row is marked for deletion.
    #[verifier::opaque]
    pub open spec fn any_deleting(self) -> bool {
        exists|i: int|
            0 <= i < self.novels@.len() && (#[trigger] self.novels@[i]).download_status
                is Deleting
    }

    /// Some novel row is still waiting to be processed.
    #[verifier::opaque]
    pub open spec fn any_not_started_novel(self) -> bool {
        exists|i: int|
            0 <= i < self.novels@.len() && (#[trigger] self.novels@[i]).download_status
                is NotStarted
    }

    /// The first waiting novel row is at index `k`.
    #[verifier::opaque]
    pub open spec fn selected_at(self, k: int) -> bool {
        0 <= k < self.novels@.len() && self.novels@[k].download_status is NotStarted && (forall|
            j: int,
        | 0 <= j < k ==> !(self.novels@[j].download_status is NotStarted))
    }

    /// The first waiting volume row of novel `aid` is at index `k`.
    #[verifier::opaque]
    pub open spec fn incomplete_volume_at(self, aid: Seq<char>, k: int) -> bool {
        0 <= k < self.volumes@.len() && self.volumes@[k].novel_id@ == aid
            && self.volumes@[k].download_status is NotStarted && (forall|j: int|
            0 <= j < k ==> !(self.volumes@[j].novel_id@ == aid && self.volumes@[j].download_status
                is NotStarted))
    }

    /// The first pending chapter row of volume `vid` is at index `k`.
    #[verifier::opaque]
    pub open spec fn pending_chapter_at(self, vid: Seq<char>, k: int) -> bool {
        0 <= k < self.chapters@.len() && self.chapters@[k].volume_id@ == vid
            && self.chapters@[k].download_status is NotStarted && (forall|j: int|
            0 <= j < k ==> !(self.chapters@[j].volume_id@ == vid
                && self.chapters@[j].download_status is NotStarted))
    }

    /// The pending picture row of novel `aid` with the smallest picture
    /// index is at index `k`.
    #[verifier::opaque]
    pub open spec fn pending_picture_at(self, aid: Seq<char>, k: int) -> bool {
        0 <= k < self.pictures@.len() && self.pictures@[k].aid@ == aid
            && self.pictures@[k].download_status is NotStarted && (forall|j: int|
            0 <= j < self.pictures@.len() && (#[trigger] self.pictures@[j]).aid@ == aid
                && self.pictures@[j].download_status is NotStarted ==> self.pictures@[k].picture_idx
                <= self.pictures@[j].picture_idx)
    }

    /// No volume of novel `aid` is waiting.
    #[verifier::opaque]
    pub open spec fn no_incomplete_volume(self, aid: Seq<char>) -> bool {
        forall|i: int|
            0 <= i < self.volumes@.len() ==> !((#[trigger] self.volumes@[i]).novel_id@ == aid
                && self.volumes@[i].download_status is NotStarted)
    }

    /// No picture of novel `aid` is waiting.
    #[verifier::opaque]
    pub open spec fn no_pending_picture(self, aid: Seq<char>) -> bool {
        forall|i: int|
            0 <= i < self.pictures@.len() ==> !((#[trigger] self.pictures@[i]).aid@ == aid
                && self.pictures@[i].download_status is NotStarted)
    }

    /// Decide the driver's next step from the queue alone. Deletion comes
    /// first; otherwise the first waiting novel is driven through cover,
    /// chapters (volume by volume, with an aggregation when a volume has
    /// no pending chapter), pictures, and final aggregation; with nothing
    /// waiting the driver idles. A failed chapter never blocks its
    /// siblings: the other volumes' pending chapters are still commanded.
    #[verifier::rlimit(100)]
    #[verifier::spinoff_prover]
    pub fn next_command(&self) -> (cmd: DriverCommand)
        ensures
            match cmd {
                DriverCommand::Idle => !self.any_deleting() && !self.any_not_started_novel(),
                DriverCommand::DeleteNovel { novel_id } => exists|k: int|
                    0 <= k < self.novels@.len() && (#[trigger] self.novels@[k]).download_status
                        is Deleting && self.novels@[k].novel_id@ == novel_id@ && (forall|j: int|
                        0 <= j < k ==> !(self.novels@[j].download_status is Deleting)),
                DriverCommand::FetchCover { novel_id, url } => !self.any_deleting() && exists|
                    k: int,
                |
                    #[trigger] self.selected_at(k) && self.novels@[k].novel_id@ == novel_id@
                        && self.novels@[k].cover_download_status is NotStarted
                        && self.novels@[k].cover_url@ == url@,
                DriverCommand::FetchChapter { novel_id, volume_id, chapter_id } => !self.any_deleting()
                    && (exists|k: int|
                    #[trigger] self.selected_at(k) && self.novels@[k].novel_id@ == novel_id@ && !(
                    self.novels@[k].cover_download_status is NotStarted)) && (exists|k: int|
                    0 <= k < self.volumes@.len() && (#[trigger] self.volumes@[k]).id@ == volume_id@
                        && self.incomplete_volume_at(novel_id@, k)) && (exists|k: int|
                    0 <= k < self.chapters@.len() && (#[trigger] self.chapters@[k]).id@
                        == chapter_id@ && self.pending_chapter_at(volume_id@, k)),
                DriverCommand::AggregateVolume { novel_id, volume_id } => !self.any_deleting() && (
                exists|k: int|
                    #[trigger] self.selected_at(k) && self.novels@[k].novel_id@ == novel_id@ && !(
                    self.novels@[k].cover_download_status is NotStarted)) && (exists|k: int|
                    0 <= k < self.volumes@.len() && (#[trigger] self.volumes@[k]).id@ == volume_id@
                        && self.incomplete_volume_at(novel_id@, k))
                    && !self.volume_has_pending_chapter(volume_id@),
                DriverCommand::FetchPicture { aid, volume_id, chapter_id, picture_idx, url, url_md5 } => !self.any_deleting()
                    && (exists|k: int|
                    #[trigger] self.selected_at(k) && self.novels@[k].novel_id@ == aid@ && !(
                    self.novels@[k].cover_download_status is NotStarted))
                    && self.no_incomplete_volume(aid@) && (exists|k: int|
                    0 <= k < self.pictures@.len() && (#[trigger] self.pictures@[k]).volume_id@
                        == volume_id@ && self.pictures@[k].chapter_id@ == chapter_id@
                        && self.pictures@[k].picture_idx == picture_idx && self.pictures@[k].url@
                        == url@ && self.pictures@[k].url_md5@ == url_md5@
                        && self.pending_picture_at(aid@, k)),
                DriverCommand::FinalizeNovel { novel_id } => !self.any_deleting() && (exists|
                    k: int,
                |
                    #[trigger] self.selected_at(k) && self.novels@[k].novel_id@ == novel_id@ && !(
                    self.novels@[k].cover_download_status is NotStarted))
                    && self.no_incomplete_volume(novel_id@) && self.no_pending_picture(novel_id@),
            },
    {
        if let Some(n) = self.find_first_deleting() {
            return DriverCommand::DeleteNovel { novel_id: n.novel_id };
        }
        proof {
            reveal(DownloadQueue::any_deleting);
            assert(!self.any_deleting());
        }
        let n = match self.find_first_not_started() {
            None => {
                proof {
                    reveal(DownloadQueue::any_deleting);
                    reveal(DownloadQueue::any_not_started_novel);
                }
                return DriverCommand::Idle;
            },
            Some(n) => n,
        };
        if matches!(n.cover_download_status, Status::NotStarted) {
            proof {
                assert(exists|k: int|
                    #[trigger] self.selected_at(k) && self.novels@[k].novel_id@ == n.novel_id@
                        && self.novels@[k].cover_download_status is NotStarted
                        && self.novels@[k].cover_url@ == n.cover_url@) by {
                    let k = choose|k: int|
                        0 <= k < self.novels@.len() && #[trigger] self.novels@[k] == n
                            && n.download_status is NotStarted && (forall|j: int|
                            0 <= j < k ==> !(self.novels@[j].download_status is NotStarted));
                    reveal(DownloadQueue::selected_at);
                    assert(self.selected_at(k));
                }
            }
            return DriverCommand::FetchCover { novel_id: n.novel_id, url: n.cover_url };
        }
        proof {
            assert(exists|k: int|
                #[trigger] self.selected_at(k) && self.novels@[k].novel_id@ == n.novel_id@ && !(
                self.novels@[k].cover_download_status is NotStarted)) by {
                let k = choose|k: int|
                    0 <= k < self.novels@.len() && #[trigger] self.novels@[k] == n
                        && n.download_status is NotStarted && (forall|j: int|
                        0 <= j < k ==> !(self.novels@[j].download_status is NotStarted));
                reveal(DownloadQueue::selected_at);
                assert(self.selected_at(k));
            }
        }
        if let Some(v) = self.find_incomplete_volume(n.novel_id.as_str()) {
            proof {
                assert(exists|k: int|
                    0 <= k < self.volumes@.len() && (#[trigger] self.volumes@[k]).id@ == v.id@
                        && self.incomplete_volume_at(n.novel_id@, k)) by {
                    let k = choose|k: int|
                        0 <= k < self.volumes@.len() && #[trigger] self.volumes@[k] == v
                            && v.novel_id@ == n.novel_id@ && v.download_status is NotStarted && (
                        forall|j: int|
                            0 <= j < k ==> !(self.volumes@[j].novel_id@ == n.novel_id@
                                && self.volumes@[j].download_status is NotStarted));
                    reveal(DownloadQueue::incomplete_volume_at);
                    assert(self.incomplete_volume_at(n.novel_id@, k));
                }
            }
            if let Some(c) = self.find_pending_chapter(v.id.as_str()) {
                proof {
                    assert(exists|k: int|
                        0 <= k < self.chapters@.len() && (#[trigger] self.chapters@[k]).id@
                            == c.id@ && self.pending_chapter_at(v.id@, k)) by {
                        let k = choose|k: int|
                            0 <= k < self.chapters@.len() && #[trigger] self.chapters@[k] == c
                                && c.volume_id@ == v.id@ && c.download_status is NotStarted && (
                            forall|j: int|
                                0 <= j < k ==> !(self.chapters@[j].volume_id@ == v.id@
                                    && self.chapters@[j].download_status is NotStarted));
                        reveal(DownloadQueue::pending_chapter_at);
                        assert(self.pending_chapter_at(v.id@, k));
                    }
                }
                return DriverCommand::FetchChapter {
                    novel_id: n.novel_id,
                    volume_id: v.id,
                    chapter_id: c.id,
                };
            } else {
                return DriverCommand::AggregateVolume { novel_id: n.novel_id, volume_id: v.id };
            }
        }
        proof {
            reveal(DownloadQueue::no_incomplete_volume);
            assert(self.no_incomplete_volume(n.novel_id@));
        }
        if let Some(p) = self.find_pending_picture(n.novel_id.as_str()) {
            proof {
                assert(exists|k: int|
                    0 <= k < self.pictures@.len() && (#[trigger] self.pictures@[k]).volume_id@
                        == p.volume_id@ && self.pictures@[k].chapter_id@ == p.chapter_id@
                        && self.pictures@[k].picture_idx == p.picture_idx && self.pictures@[k].url@
                        == p.url@ && self.pictures@[k].url_md5@ == p.url_md5@
                        && self.pending_picture_at(n.novel_id@, k)) by {
                    let k = choose|k: int|
                        0 <= k < self.pictures@.len() && #[trigger] self.pictures@[k] == p
                            && p.aid@ == n.novel_id@ && p.download_status is NotStarted && (forall|
                            j: int,
                        |
                            0 <= j < self.pictures@.len() && (#[trigger] self.pictures@[j]).aid@
                                == n.novel_id@ && self.pictures@[j].download_status is NotStarted
                                ==> p.picture_idx <= self.pictures@[j].picture_idx);
                    reveal(DownloadQueue::pending_picture_at);
                    assert(self.pending_picture_at(n.novel_id@, k));
                }
            }
            return DriverCommand::FetchPicture {
                aid: p.aid,
                volume_id: p.volume_id,
                chapter_id: p.chapter_id,
                picture_idx: p.picture_idx,
                url: p.url,
                url_md5: p.url_md5,
            };
        }
        proof {
            reveal(DownloadQueue::no_pending_picture);
            assert(self.no_pending_picture(n.novel_id@));
        }
        DriverCommand::FinalizeNovel { novel_id: n.novel_id }
    }
}

} // verus!
