//! The content-addressed image cache. A remote address is hashed; the hash
//! names both the on-disk file and the lock shard. Before fetching, the
//! cache first serves assets the download pipeline already materialized -
//! a finished cover or picture - then its own rows; only then is a fetch
//! commanded. Bytes that do not decode as an image are never admitted.
use vstd::prelude::*;

use crate::hashing::{content_hash, content_hash_of};
use crate::queue::DownloadQueue;
use crate::strutil::{concat_str, novel_dir, str_eq};
use crate::{EngineError, Status};
use vstd::string::StringExecFns;

verus! {

/// One cached image: the remote address, its hash (also the file name),
/// the decoded dimensions, the byte count, and when it was fetched.
#[derive(Debug)]
pub struct ImageCacheEntry {
    pub img_url: String,
    pub url_md5: String,
    pub width: u32,
    pub height: u32,
    pub file_size: u64,
    pub download_time: i64,
}

impl ImageCacheEntry {
    /// A field-for-field copy of the entry.
    pub fn duplicate(&self) -> (r: Self)
        ensures
            r == *self,
    {
        ImageCacheEntry {
            img_url: self.img_url.clone(),
            url_md5: self.url_md5.clone(),
            width: self.width,
            height: self.height,
            file_size: self.file_size,
            download_time: self.download_time,
        }
    }
}

/// Predicate satisfied by the rows a sweep at cutoff `t` keeps.
pub open spec fn image_live(t: i64) -> spec_fn(ImageCacheEntry) -> bool {
    |e: ImageCacheEntry| e.download_time >= t
}

/// Predicate satisfied by the rows a sweep at cutoff `t` removes.
pub open spec fn image_expired(t: i64) -> spec_fn(ImageCacheEntry) -> bool {
    |e: ImageCacheEntry| e.download_time < t
}

/// The dimensions `image::load_from_memory` decodes from the bytes, or
/// nothing when the bytes are not a readable image. The outcome depends on
/// the bytes alone.
pub uninterp spec fn image_size_of(b: Seq<u8>) -> Option<(u32, u32)>;

/// Relies on `image::load_from_memory` and `GenericImageView::dimensions`:
/// decoding succeeds or fails, and yields its width and height, as a
/// function of the bytes alone.
#[verifier::external_body]
fn decode_image_size(b: &Vec<u8>) -> (r: Option<(u32, u32)>)
    ensures
        r == image_size_of(b@),
{
    match image::load_from_memory(b.as_slice()) {
        Ok(img) => Some(image::GenericImageView::dimensions(&img)),
        Err(_) => None,
    }
}

/// The keyed store of image cache rows.
pub struct ImageCache {
    pub entries: Vec<ImageCacheEntry>,
}

/// Where a cached image is to be found, or what must be fetched.
#[derive(Debug)]
pub enum ImageLookup {
    /// The pipeline already downloaded this address as a novel's cover.
    CoverPath(String),
    /// The pipeline already downloaded this address as a chapter picture.
    PicturePath(String),
    /// The cache holds the image and its backing file exists.
    CachedPath(String),
    /// Not materialized anywhere: fetch the bytes, admit them, then write
    /// them to `file_path`.
    NeedsFetch { file_path: String, url_md5: String },
}

impl ImageCache {
    /// Row keys are unique.
    pub open spec fn wf(self) -> bool {
        forall|i: int, j: int|
            0 <= i < j < self.entries@.len() ==> self.entries@[i].img_url@
                != self.entries@[j].img_url@
    }

    /// An empty cache.
    pub fn new() -> (c: ImageCache)
        ensures
            c.entries@.len() == 0,
            c.wf(),
    {
        ImageCache { entries: Vec::new() }
    }

    /// The row cached for this address, if any.
    pub fn find_by_url(&self, img_url: &str) -> (r: Option<&ImageCacheEntry>)
        ensures
            match r {
                Some(e) => exists|k: int|
                    0 <= k < self.entries@.len() && #[trigger] self.entries@[k] == *e
                        && e.img_url@ == img_url@,
                None => forall|i: int|
                    0 <= i < self.entries@.len() ==> (#[trigger] self.entries@[i]).img_url@
                        != img_url@,
            },
    {
        let mut k: usize = 0;
        while k < self.entries.len()
            invariant
                0 <= k <= self.entries@.len(),
                forall|i: int|
                    0 <= i < k ==> (#[trigger] self.entries@[i]).img_url@ != img_url@,
            decreases self.entries@.len() - k,
        {
            if str_eq(self.entries[k].img_url.as_str(), img_url) {
                return Some(&self.entries[k]);
            }
            k += 1;
        }
        None
    }

    /// Insert or refresh the row for one address.
    fn save_image_cache(
        &mut self,
        img_url: &str,
        url_md5: String,
        width: u32,
        height: u32,
        file_size: u64,
        now: i64,
    )
        requires
            old(self).wf(),
        ensures
            final(self).wf(),
            final(self).entries@.len() == (if image_row_present(old(self).entries@, img_url@) {
                old(self).entries@.len() as int
            } else {
                old(self).entries@.len() + 1int
            }),
            exists|k: int|
                0 <= k < final(self).entries@.len() && (#[trigger] final(self).entries@[k]).img_url@
                    == img_url@ && final(self).entries@[k].url_md5 == url_md5 && final(self).entries@[k].width == width && final(self).entries@[k].height == height && final(self).entries@[k].file_size == file_size && final(self).entries@[k].download_time
                    == now,
            forall|i: int|
                0 <= i < old(self).entries@.len() && old(self).entries@[i].img_url@ == img_url@
                    ==> (#[trigger] final(self).entries@[i]).img_url@ == img_url@ && final(self).entries@[i].url_md5 == url_md5 && final(self).entries@[i].width == width && final(self).entries@[i].height == height && final(self).entries@[i].file_size == file_size
                    && final(self).entries@[i].download_time == now,
            forall|i: int|
                0 <= i < old(self).entries@.len() && old(self).entries@[i].img_url@ != img_url@
                    ==> #[trigger] final(self).entries@[i] == old(self).entries@[i],
            !image_row_present(old(self).entries@, img_url@) ==> final(self).entries@.take(
                old(self).entries@.len() as int,
            ) == old(self).entries@,
    {
        let mut k: usize = 0;
        while k < self.entries.len()
            invariant
                0 <= k <= self.entries@.len(),
                old(self) == self,
                old(self).wf(),
                forall|i: int|
                    0 <= i < k ==> (#[trigger] self.entries@[i]).img_url@ != img_url@,
            decreases self.entries@.len() - k,
        {
            if str_eq(self.entries[k].img_url.as_str(), img_url) {
                let row = ImageCacheEntry {
                    img_url: img_url.to_owned(),
                    url_md5,
                    width,
                    height,
                    file_size,
                    download_time: now,
                };
                let ghost prev = self.entries@;
                self.entries.set(k, row);
                proof {
                    assert((#[trigger] prev[k as int]).img_url@ == img_url@);
                    assert(image_row_present(prev, img_url@));
                    assert((#[trigger] self.entries@[k as int]).img_url@ == img_url@);
                    assert forall|i: int, j: int|
                        0 <= i < j < self.entries@.len() implies (#[trigger] self.entries@[
                        i
                    ]).img_url@ != (#[trigger] self.entries@[j]).img_url@ by {
                        assert(prev[i].img_url@ != prev[j].img_url@);
                        if i != k {
                            assert(self.entries@[i] == prev[i]);
                        }
                        if j != k {
                            assert(self.entries@[j] == prev[j]);
                        }
                        if i == k {
                            assert(prev[i].img_url@ == img_url@);
                        }
                        if j == k {
                            assert(prev[j].img_url@ == img_url@);
                        }
                    }
                }
                return ;
            }
            k += 1;
        }
        let row = ImageCacheEntry {
            img_url: img_url.to_owned(),
            url_md5,
            width,
            height,
            file_size,
            download_time: now,
        };
        let ghost prev = self.entries@;
        self.entries.push(row);
        proof {
            let n = self.entries@.len() as int;
            assert((#[trigger] self.entries@[n - 1]).img_url@ == img_url@);
            assert(self.entries@.take(n - 1) =~= prev);
            if image_row_present(prev, img_url@) {
                let w = choose|w: int|
                    0 <= w < prev.len() && (#[trigger] prev[w]).img_url@ == img_url@;
                assert(false);
            }
        }
    }

    /// Admit fetched bytes: decode them, and on success record the row for
    /// this address, hashed, measured and stamped with `now`. Bytes that do
    /// not decode are rejected and nothing is cached.
    pub fn admit_image_bytes(&mut self, img_url: &str, bytes: &Vec<u8>, now: i64) -> (r: Result<
        (u32, u32),
        EngineError,
    >)
        requires
            old(self).wf(),
        ensures
            final(self).wf(),
            match r {
                Ok(d) => image_size_of(bytes@) == Some(d) && final(self).entries@.len() == (
                if image_row_present(old(self).entries@, img_url@) {
                    old(self).entries@.len() as int
                } else {
                    old(self).entries@.len() + 1int
                }) && (exists|k: int|
                    0 <= k < final(self).entries@.len() && (#[trigger] final(self).entries@[k]).img_url@
                        == img_url@ && final(self).entries@[k].url_md5@ == content_hash_of(
                        img_url@,
                    ) && final(self).entries@[k].width == d.0 && final(self).entries@[k].height
                        == d.1 && final(self).entries@[k].file_size == bytes@.len() && final(self).entries@[k].download_time == now) && (forall|i: int|
                    0 <= i < old(self).entries@.len() && old(self).entries@[i].img_url@ != img_url@
                        ==> #[trigger] final(self).entries@[i] == old(self).entries@[i]) && (
                !image_row_present(old(self).entries@, img_url@) ==> final(self).entries@.take(
                    old(self).entries@.len() as int,
                ) == old(self).entries@),
                Err(e) => e == EngineError::Decode && image_size_of(bytes@) is None && final(self).entries@ == old(self).entries@,
            },
    {
        let dims = match decode_image_size(bytes) {
            Some(d) => d,
            None => {
                return Err(EngineError::Decode);
            },
        };
        let md5 = content_hash(img_url);
        self.save_image_cache(img_url, md5, dims.0, dims.1, bytes.len() as u64, now);
        Ok(dims)
    }

    /// Sweep the cache: rows older than the cutoff are removed and handed
    /// back, so the caller can delete their backing files; younger rows
    /// survive untouched, in order.
    pub fn cleanup_image_cache(&mut self, cutoff: i64) -> (removed: Vec<ImageCacheEntry>)
        requires
            old(self).wf(),
        ensures
            final(self).wf(),
            final(self).entries@ == old(self).entries@.filter(image_live(cutoff)),
            removed@ == old(self).entries@.filter(image_expired(cutoff)),
    {
        let ghost lp = image_live(cutoff);
        let ghost xp = image_expired(cutoff);
        let mut kept: Vec<ImageCacheEntry> = Vec::new();
        let mut gone: Vec<ImageCacheEntry> = Vec::new();
        let mut k: usize = 0;
        while k < self.entries.len()
            invariant
                0 <= k <= self.entries@.len(),
                lp == image_live(cutoff),
                xp == image_expired(cutoff),
                kept@ == self.entries@.take(k as int).filter(lp),
                gone@ == self.entries@.take(k as int).filter(xp),
                old(self) == self,
            decreases self.entries@.len() - k,
        {
            proof {
                let s = self.entries@;
                let x = s[k as int];
                assert(s.take(k + 1) =~= s.take(k as int).push(x));
                s.take(k as int).lemma_filter_push(x, lp);
                s.take(k as int).lemma_filter_push(x, xp);
                assert(lp(x) == (x.download_time >= cutoff));
                assert(xp(x) == (x.download_time < cutoff));
            }
            if self.entries[k].download_time >= cutoff {
                kept.push(self.entries[k].duplicate());
            } else {
                gone.push(self.entries[k].duplicate());
            }
            k += 1;
        }
        proof {
            assert(self.entries@.take(self.entries@.len() as int) =~= self.entries@);
            crate::seqext::lemma_filter_keeps_distinct(
                self.entries@,
                lp,
                |en: ImageCacheEntry| en.img_url@,
            );
        }
        self.entries = kept;
        gone
    }
}

/// Some novel's cover is this address and its download already succeeded.
pub open spec fn cover_materialized(q: DownloadQueue, url: Seq<char>) -> bool {
    exists|k: int|
        0 <= k < q.novels@.len() && (#[trigger] q.novels@[k]).cover_url@ == url
            && q.novels@[k].cover_download_status is Success
}

/// Some queued picture has this address and its download already succeeded.
pub open spec fn picture_materialized(q: DownloadQueue, url: Seq<char>) -> bool {
    exists|k: int|
        0 <= k < q.pictures@.len() && (#[trigger] q.pictures@[k]).url@ == url
            && q.pictures@[k].download_status is Success
}

/// The image cache holds a row for this address.
pub open spec fn image_row_present(s: Seq<ImageCacheEntry>, url: Seq<char>) -> bool {
    exists|k: int| 0 <= k < s.len() && (#[trigger] s[k]).img_url@ == url
}

/// Index of a novel row whose cover is this address and already succeeded.
fn find_materialized_cover(q: &DownloadQueue, img_url: &str) -> (r: Option<usize>)
    ensures
        match r {
            Some(k) => k < q.novels@.len() && q.novels@[k as int].cover_url@ == img_url@
                && q.novels@[k as int].cover_download_status is Success,
            None => !cover_materialized(*q, img_url@),
        },
{
    let mut k: usize = 0;
    while k < q.novels.len()
        invariant
            0 <= k <= q.novels@.len(),
            forall|i: int|
                0 <= i < k ==> !((#[trigger] q.novels@[i]).cover_url@ == img_url@
                    && q.novels@[i].cover_download_status is Success),
        decreases q.novels@.len() - k,
    {
        let n = &q.novels[k];
        if str_eq(n.cover_url.as_str(), img_url) && matches!(
            n.cover_download_status,
            Status::Success,
        ) {
            return Some(k);
        }
        k += 1;
    }
    None
}

/// Index of a picture row with this address whose download succeeded.
fn find_materialized_picture(q: &DownloadQueue, img_url: &str) -> (r: Option<usize>)
    ensures
        match r {
            Some(k) => k < q.pictures@.len() && q.pictures@[k as int].url@ == img_url@
                && q.pictures@[k as int].download_status is Success,
            None => !picture_materialized(*q, img_url@),
        },
{
    let mut k: usize = 0;
    while k < q.pictures.len()
        invariant
            0 <= k <= q.pictures@.len(),
            forall|i: int|
                0 <= i < k ==> !((#[trigger] q.pictures@[i]).url@ == img_url@
                    && q.pictures@[i].download_status is Success),
        decreases q.pictures@.len() - k,
    {
        let p = &q.pictures[k];
        if str_eq(p.url.as_str(), img_url) && matches!(p.download_status, Status::Success) {
            return Some(k);
        }
        k += 1;
    }
    None
}

/// Decide where a requested image is, without fetching, in the order the
/// engine serves assets: a downloaded cover with this address wins, then a
/// downloaded picture, then a cached row whose backing file exists, and
/// failing everything the caller is told to fetch into the hash-named
/// cache file. Each variant also says that no earlier source applied.
pub fn resolve_image(
    queue: &DownloadQueue,
    images: &ImageCache,
    download_folder: &str,
    image_cache_dir: &str,
    img_url: &str,
    cached_file_exists: bool,
) -> (r: ImageLookup)
    ensures
        match r {
            ImageLookup::CoverPath(p) => exists|k: int|
                0 <= k < queue.novels@.len() && (#[trigger] queue.novels@[k]).cover_url@
                    == img_url@ && queue.novels@[k].cover_download_status is Success && p@
                    == download_folder@ + "/"@ + queue.novels@[k].novel_id@ + "/"@ + "cover"@,
            ImageLookup::PicturePath(p) => !cover_materialized(*queue, img_url@) && exists|k: int|
                0 <= k < queue.pictures@.len() && (#[trigger] queue.pictures@[k]).url@ == img_url@
                    && queue.pictures@[k].download_status is Success && p@ == download_folder@
                    + "/"@ + queue.pictures@[k].aid@ + "/"@ + "picture_"@ + queue.pictures@[
                    k
                ].url_md5@,
            ImageLookup::CachedPath(p) => !cover_materialized(*queue, img_url@)
                && !picture_materialized(*queue, img_url@) && cached_file_exists
                && image_row_present(images.entries@, img_url@) && p@ == image_cache_dir@ + "/"@
                + content_hash_of(img_url@),
            ImageLookup::NeedsFetch { file_path, url_md5 } => !cover_materialized(
                *queue,
                img_url@,
            ) && !picture_materialized(*queue, img_url@) && !(cached_file_exists
                && image_row_present(images.entries@, img_url@)) && file_path@ == image_cache_dir@
                + "/"@ + content_hash_of(img_url@) && url_md5@ == content_hash_of(img_url@),
        },
{
    if let Some(k) = find_materialized_cover(queue, img_url) {
        let dir = novel_dir(download_folder, queue.novels[k].novel_id.as_str());
        let mut p = dir;
        p.append("/");
        p.append("cover");
        return ImageLookup::CoverPath(p);
    }
    if let Some(k) = find_materialized_picture(queue, img_url) {
        let pic = &queue.pictures[k];
        let dir = novel_dir(download_folder, pic.aid.as_str());
        let mut p = dir;
        p.append("/");
        p.append("picture_");
        p.append(pic.url_md5.as_str());
        return ImageLookup::PicturePath(p);
    }
    let md5 = content_hash(img_url);
    let mut file_path = concat_str(image_cache_dir, "/");
    file_path.append(md5.as_str());
    if cached_file_exists {
        if images.find_by_url(img_url).is_some() {
            return ImageLookup::CachedPath(file_path);
        }
    }
    ImageLookup::NeedsFetch { file_path, url_md5: md5 }
}

} // verus!
