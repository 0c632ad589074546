use std::io::Cursor;

use offline_engine::image_cache::{resolve_image, ImageCache, ImageLookup};
use offline_engine::models::{NovelInfo, Volume};
use offline_engine::queue::DownloadQueue;
use offline_engine::Status;

const DAY: i64 = 86400;

fn png_bytes(w: u32, h: u32) -> Vec<u8> {
    let img = image::RgbImage::new(w, h);
    let mut out = Cursor::new(Vec::new());
    image::DynamicImage::ImageRgb8(img)
        .write_to(&mut out, image::ImageFormat::Png)
        .unwrap();
    out.into_inner()
}

fn info_with_cover(url: &str) -> NovelInfo {
    NovelInfo {
        title: "The Novel".to_string(),
        author: "someone".to_string(),
        status: "done".to_string(),
        fin_update: "today".to_string(),
        img_url: url.to_string(),
        introduce: "a novel".to_string(),
        tags: Vec::new(),
        heat: "hot".to_string(),
        trending: "up".to_string(),
        is_animated: false,
    }
}

#[test]
fn admitted_bytes_are_measured_and_cached() {
    let mut cache = ImageCache::new();
    let bytes = png_bytes(5, 3);
    let dims = cache
        .admit_image_bytes("https://example.test/a.png", &bytes, 1000)
        .unwrap();
    assert_eq!(dims, (5, 3));
    let e = cache.find_by_url("https://example.test/a.png").unwrap();
    assert_eq!(e.width, 5);
    assert_eq!(e.height, 3);
    assert_eq!(e.file_size, bytes.len() as u64);
    assert_eq!(e.download_time, 1000);
    assert_eq!(
        e.url_md5,
        hex::encode(md5::compute("https://example.test/a.png".as_bytes()).0)
    );
}

#[test]
fn undecodable_bytes_are_never_cached() {
    let mut cache = ImageCache::new();
    let junk: Vec<u8> = b"this is no image at all".to_vec();
    let r = cache.admit_image_bytes("https://example.test/x.bin", &junk, 1000);
    assert_eq!(r, Err(offline_engine::EngineError::Decode));
    assert!(cache.find_by_url("https://example.test/x.bin").is_none());
    assert_eq!(cache.entries.len(), 0);
}

#[test]
fn eviction_sweeps_rows_past_retention_and_keeps_young_ones() {
    // a row cached eight days ago is removed, one cached a day ago survives
    let now: i64 = 100 * DAY;
    let mut cache = ImageCache::new();
    let bytes = png_bytes(1, 1);
    cache.admit_image_bytes("https://example.test/old.png", &bytes, now - 8 * DAY).unwrap();
    cache.admit_image_bytes("https://example.test/new.png", &bytes, now - DAY).unwrap();

    let removed = cache.cleanup_image_cache(now - 7 * DAY);
    assert_eq!(removed.len(), 1);
    assert_eq!(removed[0].img_url, "https://example.test/old.png");
    assert!(cache.find_by_url("https://example.test/old.png").is_none());
    assert!(cache.find_by_url("https://example.test/new.png").is_some());
}

#[test]
fn resolve_prefers_pipeline_artifacts_over_cache() {
    let cover_url = "https://example.test/cover.jpg";
    let mut q = DownloadQueue::new();
    q.enqueue_novel("42", &Vec::new(), &Vec::<Volume>::new(), &info_with_cover(cover_url), 1000);
    let images = ImageCache::new();

    // cover not yet downloaded: fetch into the hash-named cache file
    let md5 = offline_engine::hashing::content_hash(cover_url);
    match resolve_image(&q, &images, "dl", "icd", cover_url, false) {
        ImageLookup::NeedsFetch { file_path, url_md5 } => {
            assert_eq!(file_path, format!("icd/{}", md5));
            assert_eq!(url_md5, md5);
        }
        other => panic!("expected a fetch, got {:?}", other),
    }

    // once the pipeline downloaded the cover, its file is served
    q.update_cover_download_status("42", Status::Success);
    match resolve_image(&q, &images, "dl", "icd", cover_url, false) {
        ImageLookup::CoverPath(p) => assert_eq!(p, "dl/42/cover"),
        other => panic!("expected the cover path, got {:?}", other),
    }
}

#[test]
fn resolve_serves_downloaded_pictures_and_cached_files() {
    let pic_url = "https://example.test/p1.jpg";
    let mut q = DownloadQueue::new();
    q.upsert_picture("42", "v1", "c1", 0, pic_url, "feed", Status::Success);
    let mut images = ImageCache::new();

    match resolve_image(&q, &images, "dl", "icd", pic_url, false) {
        ImageLookup::PicturePath(p) => assert_eq!(p, "dl/42/picture_feed"),
        other => panic!("expected the picture path, got {:?}", other),
    }

    // an unrelated cached image is served from the cache directory only
    // while its backing file exists
    let other_url = "https://example.test/banner.png";
    images.admit_image_bytes(other_url, &png_bytes(1, 1), 1000).unwrap();
    let md5 = offline_engine::hashing::content_hash(other_url);
    match resolve_image(&q, &images, "dl", "icd", other_url, true) {
        ImageLookup::CachedPath(p) => assert_eq!(p, format!("icd/{}", md5)),
        other => panic!("expected the cached path, got {:?}", other),
    }
    match resolve_image(&q, &images, "dl", "icd", other_url, false) {
        ImageLookup::NeedsFetch { file_path, .. } => {
            assert_eq!(file_path, format!("icd/{}", md5))
        }
        other => panic!("expected a fetch, got {:?}", other),
    }
}

#[test]
fn pipeline_artifacts_win_even_over_a_live_cache_row() {
    // the shortcut order of the engine: a downloaded cover outranks a
    // cached row with an existing backing file
    let cover_url = "https://example.test/cover.jpg";
    let mut q = DownloadQueue::new();
    q.enqueue_novel("42", &Vec::new(), &Vec::<Volume>::new(), &info_with_cover(cover_url), 1000);
    q.update_cover_download_status("42", Status::Success);
    let mut images = ImageCache::new();
    images.admit_image_bytes(cover_url, &png_bytes(1, 1), 1000).unwrap();

    match resolve_image(&q, &images, "dl", "icd", cover_url, true) {
        ImageLookup::CoverPath(p) => assert_eq!(p, "dl/42/cover"),
        other => panic!("expected the cover path, got {:?}", other),
    }

    // likewise a downloaded picture outranks the cache
    let pic_url = "https://example.test/p9.jpg";
    q.upsert_picture("42", "v1", "c1", 0, pic_url, "cafe", Status::Success);
    images.admit_image_bytes(pic_url, &png_bytes(1, 1), 1000).unwrap();
    match resolve_image(&q, &images, "dl", "icd", pic_url, true) {
        ImageLookup::PicturePath(p) => assert_eq!(p, "dl/42/picture_cafe"),
        other => panic!("expected the picture path, got {:?}", other),
    }
}
