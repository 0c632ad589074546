use offline_engine::chapter_cache::{resolve_chapter, ChapterCache, ChapterLookup};
use offline_engine::models::{Chapter, NovelInfo, Volume};
use offline_engine::queue::DownloadQueue;
use offline_engine::text::normalize_content;
use offline_engine::Status;

const DAY: i64 = 86400;

#[test]
fn normalize_collapses_blank_runs_within_a_line() {
    assert_eq!(normalize_content("a  b"), "a b");
    assert_eq!(normalize_content("a \t b"), "a b");
    assert_eq!(normalize_content("  a"), " a");
    assert_eq!(normalize_content("a"), "a");
    assert_eq!(normalize_content(""), "");
}

#[test]
fn normalize_keeps_one_paragraph_break() {
    assert_eq!(normalize_content("a\nb"), "a\nb");
    assert_eq!(normalize_content("a\n\nb"), "a\n\nb");
    assert_eq!(normalize_content("a\n\n\n\nb"), "a\n\nb");
    // a line of blanks counts as a blank line
    assert_eq!(normalize_content("a\n \t \nb"), "a\n\nb");
}

#[test]
fn normalize_handles_ideographic_spaces() {
    // the full-width space used as paragraph indent collapses like any
    // other blank
    assert_eq!(normalize_content("\u{3000}\u{3000}first"), " first");
    assert_eq!(normalize_content("one\u{3000}two"), "one two");
}

#[test]
fn chapter_cache_serves_and_sweeps() {
    let mut cache = ChapterCache::new();
    cache.save_chapter_content("42", "c1", "hello", 1000);
    let e = cache.get_chapter_content("42", "c1").unwrap();
    assert_eq!(e.content, "hello");
    assert!(cache.get_chapter_content("42", "c2").is_none());
    assert!(cache.get_chapter_content("43", "c1").is_none());

    // replacing keeps one row per key
    cache.save_chapter_content("42", "c1", "hello again", 2000);
    assert_eq!(cache.entries.len(), 1);
    assert_eq!(cache.get_chapter_content("42", "c1").unwrap().content, "hello again");

    let now: i64 = 100 * DAY;
    cache.save_chapter_content("42", "c2", "young", now - DAY);
    cache.save_chapter_content("42", "c3", "old", now - 8 * DAY);
    cache.delete_expired_chapters(now - 7 * DAY);
    assert!(cache.get_chapter_content("42", "c2").is_some());
    assert!(cache.get_chapter_content("42", "c3").is_none());
}

#[test]
fn resolve_chapter_prefers_downloaded_files() {
    let mut q = DownloadQueue::new();
    let mut cache = ChapterCache::new();

    // nothing known: fetch
    assert!(matches!(
        resolve_chapter(&q, &cache, "dl", "42", "c1"),
        ChapterLookup::NeedsFetch
    ));

    // cached text is served
    cache.save_chapter_content("42", "c1", "cached text", 1000);
    match resolve_chapter(&q, &cache, "dl", "42", "c1") {
        ChapterLookup::Cached(t) => assert_eq!(t, "cached text"),
        other => panic!("expected the cached text, got {:?}", other),
    }

    // a chapter the pipeline finished is read from its file instead
    let volumes = vec![Volume {
        id: "v1".to_string(),
        title: "volume one".to_string(),
        chapters: vec![Chapter {
            title: "chapter one".to_string(),
            url: "https://example.test/42/c1".to_string(),
            cid: "c1".to_string(),
            aid: "42".to_string(),
        }],
    }];
    let info = NovelInfo {
        title: "The Novel".to_string(),
        author: "someone".to_string(),
        status: "done".to_string(),
        fin_update: "today".to_string(),
        img_url: "https://example.test/cover.jpg".to_string(),
        introduce: "a novel".to_string(),
        tags: Vec::new(),
        heat: "hot".to_string(),
        trending: "up".to_string(),
        is_animated: false,
    };
    q.enqueue_novel("42", &Vec::new(), &volumes, &info, 1000);
    q.record_chapter_result("42", "c1", true);
    match resolve_chapter(&q, &cache, "dl", "42", "c1") {
        ChapterLookup::DownloadedFile(p) => assert_eq!(p, "dl/42/chapter_c1"),
        other => panic!("expected the downloaded file, got {:?}", other),
    }
}
