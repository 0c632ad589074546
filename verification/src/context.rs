//! The engine's per-process context: the root directory and the two
//! directories derived from it, built once at startup and passed into
//! every component instead of living in process-wide globals. The startup
//! cache sweep and the client identity string live here too.
use vstd::prelude::*;

use crate::cache::{cache_live, WebCache, RETENTION_SECS};
use crate::chapter_cache::{chapter_live, ChapterCache};
use crate::image_cache::{image_expired, image_live, ImageCache, ImageCacheEntry};
use crate::strutil::concat_str;
use vstd::string::StringExecFns;

verus! {

/// The directories the engine works in: everything lives under one root,
/// with the image cache and the finished downloads in subdirectories of
/// it.
pub struct AppContext {
    pub root: String,
    pub image_cache_dir: String,
    pub download_folder: String,
}

impl AppContext {
    /// Derive the context from the root directory. The caller creates the
    /// three directories on disk before using the context.
    pub fn new(root: String) -> (ctx: AppContext)
        ensures
            ctx.root@ == root@,
            ctx.image_cache_dir@ == root@ + "/"@ + "image_cache"@,
            ctx.download_folder@ == root@ + "/"@ + "download"@,
    {
        let mut icd = concat_str(root.as_str(), "/");
        icd.append("image_cache");
        let mut df = concat_str(root.as_str(), "/");
        df.append("download");
        AppContext { root, image_cache_dir: icd, download_folder: df }
    }
}

/// The directory that caches fetched images, named by content hash.
pub fn get_image_cache_dir(ctx: &AppContext) -> (r: &String)
    ensures
        r@ == ctx.image_cache_dir@,
{
    &ctx.image_cache_dir
}

/// Relies on `chrono::Utc::now`: the current Unix timestamp in seconds.
/// Nothing is assumed about the clock's value.
#[verifier::external_body]
fn now_timestamp() -> i64 {
    chrono::Utc::now().timestamp()
}

/// The oldest write time the retention window keeps at time `now`.
pub fn retention_cutoff(now: i64) -> (r: i64)
    ensures
        r == if now - RETENTION_SECS >= i64::MIN {
            now - RETENTION_SECS
        } else {
            i64::MIN as int
        },
{
    let d = (now as i128) - (RETENTION_SECS as i128);
    if d < i64::MIN as i128 {
        i64::MIN
    } else {
        d as i64
    }
}

/// The startup sweep: reading the clock once, drop every web-cache,
/// image-cache and chapter-cache row older than the retention window, and
/// hand back the removed image rows so the caller can delete their backing
/// files. Whatever the clock said, each store is left holding exactly its
/// rows young enough for that reading.
pub fn startup_sweep(
    web: &mut WebCache,
    images: &mut ImageCache,
    chapters: &mut ChapterCache,
) -> (removed: Vec<ImageCacheEntry>)
    requires
        old(web).wf(),
        old(images).wf(),
        old(chapters).wf(),
    ensures
        final(web).wf(),
        final(images).wf(),
        final(chapters).wf(),
        exists|cutoff: i64|
            final(web).entries@ == old(web).entries@.filter(#[trigger] cache_live(cutoff))
                && final(images).entries@ == old(images).entries@.filter(image_live(cutoff))
                && removed@ == old(images).entries@.filter(image_expired(cutoff))
                && final(chapters).entries@ == old(chapters).entries@.filter(
                chapter_live(cutoff),
            ),
{
    let now = now_timestamp();
    let cutoff = retention_cutoff(now);
    web.delete_expired_cache(cutoff);
    let removed = images.cleanup_image_cache(cutoff);
    chapters.delete_expired_chapters(cutoff);
    removed
}

/// The client identity string handed to the remote source.
pub fn random_android_ua() -> (r: String)
    ensures
        r@ == "Dalvik/2.1.0 (Linux; U; Android 15; 23114RD76B Build/AQ3A.240912.001)"@,
{
    "Dalvik/2.1.0 (Linux; U; Android 15; 23114RD76B Build/AQ3A.240912.001)".to_owned()
}

/// The user-agent the engine presents; one fixed Android identity.
pub fn random_user_agent() -> (r: String)
    ensures
        r@ == "Dalvik/2.1.0 (Linux; U; Android 15; 23114RD76B Build/AQ3A.240912.001)"@,
{
    random_android_ua()
}

} // verus!
