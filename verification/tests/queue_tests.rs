use offline_engine::models::{Chapter, NovelInfo, Volume};
use offline_engine::queue::DownloadQueue;
use offline_engine::Status;

fn chapter(cid: &str, aid: &str) -> Chapter {
    Chapter {
        title: format!("chapter {}", cid),
        url: format!("https://example.test/{}/{}", aid, cid),
        cid: cid.to_string(),
        aid: aid.to_string(),
    }
}

fn tree(aid: &str) -> Vec<Volume> {
    vec![
        Volume {
            id: "v1".to_string(),
            title: "volume one".to_string(),
            chapters: vec![chapter("c1", aid), chapter("c2", aid)],
        },
        Volume {
            id: "v2".to_string(),
            title: "volume two".to_string(),
            chapters: vec![chapter("c3", aid)],
        },
    ]
}

fn info(title: &str) -> NovelInfo {
    NovelInfo {
        title: title.to_string(),
        author: "someone".to_string(),
        status: "serializing".to_string(),
        fin_update: "yesterday".to_string(),
        img_url: "https://example.test/cover.jpg".to_string(),
        introduce: "a novel".to_string(),
        tags: vec!["fantasy".to_string(), "comedy".to_string()],
        heat: "hot".to_string(),
        trending: "up".to_string(),
        is_animated: false,
    }
}

#[test]
fn enqueue_creates_all_rows_pending() {
    let mut q = DownloadQueue::new();
    q.enqueue_novel("42", &Vec::new(), &tree("42"), &info("The Novel"), 1000);

    assert_eq!(q.novels.len(), 1);
    let n = &q.novels[0];
    assert_eq!(n.novel_id, "42");
    assert_eq!(n.novel_name, "The Novel");
    assert_eq!(n.download_status, Status::NotStarted);
    assert_eq!(n.cover_download_status, Status::NotStarted);
    assert_eq!(n.tags, "fantasy,comedy");
    assert_eq!(n.choose_chapter_count, 3);
    assert_eq!(n.download_chapter_count, 0);
    assert_eq!(n.create_time, 1000);

    assert_eq!(q.volumes.len(), 2);
    assert_eq!(q.volumes[0].id, "v1");
    assert_eq!(q.volumes[0].volume_idx, 0);
    assert_eq!(q.volumes[1].id, "v2");
    assert_eq!(q.volumes[1].volume_idx, 1);

    assert_eq!(q.chapters.len(), 3);
    assert_eq!(q.chapters[0].id, "c1");
    assert_eq!(q.chapters[0].volume_id, "v1");
    assert_eq!(q.chapters[0].chapter_idx, 0);
    assert_eq!(q.chapters[1].id, "c2");
    assert_eq!(q.chapters[1].chapter_idx, 1);
    assert_eq!(q.chapters[2].id, "c3");
    assert_eq!(q.chapters[2].volume_id, "v2");
    for c in &q.chapters {
        assert_eq!(c.download_status, Status::NotStarted);
        assert_eq!(c.aid, "42");
    }
}

#[test]
fn enqueue_with_selection_only_queues_chosen_chapters() {
    let mut q = DownloadQueue::new();
    let selection = vec!["c1".to_string(), "c3".to_string()];
    q.enqueue_novel("42", &selection, &tree("42"), &info("The Novel"), 1000);
    assert_eq!(q.chapters.len(), 2);
    assert_eq!(q.chapters[0].id, "c1");
    assert_eq!(q.chapters[1].id, "c3");
    assert_eq!(q.novels[0].choose_chapter_count, 2);
}

#[test]
fn enqueue_twice_keeps_existing_chapter_rows() {
    let mut q = DownloadQueue::new();
    q.enqueue_novel("42", &Vec::new(), &tree("42"), &info("The Novel"), 1000);
    q.record_chapter_result("42", "c1", true);
    q.enqueue_novel("42", &Vec::new(), &tree("42"), &info("The Novel Again"), 2000);
    // the finished chapter row survives; the novel row is refreshed
    assert_eq!(q.chapters.len(), 3);
    let k = q.find_chapter("c1").unwrap();
    assert_eq!(q.chapters[k].download_status, Status::Success);
    assert_eq!(q.novels.len(), 1);
    assert_eq!(q.novels[0].novel_name, "The Novel Again");
    assert_eq!(q.novels[0].download_status, Status::NotStarted);
    assert_eq!(q.novels[0].download_chapter_count, 0);
    assert_eq!(q.novels[0].create_time, 1000);
    assert_eq!(q.novels[0].download_time, 2000);
    // volumes reset to pending
    assert_eq!(q.volumes[0].download_status, Status::NotStarted);
}

#[test]
fn chapter_success_raises_the_counter_once() {
    let mut q = DownloadQueue::new();
    q.enqueue_novel("42", &Vec::new(), &tree("42"), &info("The Novel"), 1000);
    q.record_chapter_result("42", "c1", true);
    assert_eq!(q.novels[0].download_chapter_count, 1);
    // a repeated success of the same chapter does not count again
    q.record_chapter_result("42", "c1", true);
    assert_eq!(q.novels[0].download_chapter_count, 1);
    // a failure counts nothing
    q.record_chapter_result("42", "c2", false);
    assert_eq!(q.novels[0].download_chapter_count, 1);
}

#[test]
fn failure_isolation_within_a_volume() {
    // chapter c2 fails while its sibling c1 succeeds: the volume fails,
    // c1 keeps its success, and the other volume is untouched
    let mut q = DownloadQueue::new();
    q.enqueue_novel("42", &Vec::new(), &tree("42"), &info("The Novel"), 1000);
    q.record_chapter_result("42", "c1", true);
    q.record_chapter_result("42", "c2", false);
    q.apply_volume_aggregation("v1");

    let kv = q.find_volume("v1").unwrap();
    assert_eq!(q.volumes[kv].download_status, Status::Failed);
    let kc = q.find_chapter("c1").unwrap();
    assert_eq!(q.chapters[kc].download_status, Status::Success);
    let kv2 = q.find_volume("v2").unwrap();
    assert_eq!(q.volumes[kv2].download_status, Status::NotStarted);
    let kc3 = q.find_chapter("c3").unwrap();
    assert_eq!(q.chapters[kc3].download_status, Status::NotStarted);
}

#[test]
fn volume_aggregation_completes_on_all_success() {
    let mut q = DownloadQueue::new();
    q.enqueue_novel("42", &Vec::new(), &tree("42"), &info("The Novel"), 1000);
    q.record_chapter_result("42", "c1", true);
    q.record_chapter_result("42", "c2", true);
    q.apply_volume_aggregation("v1");
    let kv = q.find_volume("v1").unwrap();
    assert_eq!(q.volumes[kv].download_status, Status::Success);
}

#[test]
fn aggregation_never_regresses_a_successful_novel() {
    // aggregation monotonicity: once the novel is successful, later
    // aggregation passes leave it successful
    let mut q = DownloadQueue::new();
    q.enqueue_novel("42", &Vec::new(), &tree("42"), &info("The Novel"), 1000);
    for cid in ["c1", "c2", "c3"] {
        q.record_chapter_result("42", cid, true);
    }
    q.apply_volume_aggregation("v1");
    q.apply_volume_aggregation("v2");
    q.finalize_novel("42", 5000);
    assert_eq!(q.novels[0].download_status, Status::Success);
    assert_eq!(q.novels[0].download_chapter_count, 3);
    q.finalize_novel("42", 6000);
    q.finalize_novel("42", 7000);
    assert_eq!(q.novels[0].download_status, Status::Success);
    assert_eq!(q.novels[0].download_time, 5000);
}

#[test]
fn deletion_cascade_removes_every_row_of_the_novel() {
    // two volumes of two and one chapters; after the cascade no row of
    // novel 42 remains while another novel's rows survive
    let mut q = DownloadQueue::new();
    q.enqueue_novel("42", &Vec::new(), &tree("42"), &info("The Novel"), 1000);
    let other = vec![Volume {
        id: "w1".to_string(),
        title: "other volume".to_string(),
        chapters: vec![chapter("d1", "77")],
    }];
    q.enqueue_novel("77", &Vec::new(), &other, &info("Other"), 2000);

    q.request_delete("42", 3000);
    assert_eq!(q.novels[q.find_novel("42").unwrap()].download_status, Status::Deleting);

    q.remove_download_data("42");
    assert!(q.find_novel("42").is_none());
    assert!(q.volumes.iter().all(|v| v.novel_id != "42"));
    assert!(q.chapters.iter().all(|c| c.aid != "42"));
    assert!(q.pictures.iter().all(|p| p.aid != "42"));
    assert!(q.find_novel("77").is_some());
    assert!(q.find_chapter("d1").is_some());
}

#[test]
fn reset_failed_flips_failures_and_raises_restart() {
    let mut q = DownloadQueue::new();
    q.enqueue_novel("42", &Vec::new(), &tree("42"), &info("The Novel"), 1000);
    q.record_chapter_result("42", "c1", true);
    q.record_chapter_result("42", "c2", false);
    q.apply_volume_aggregation("v1");
    q.update_novel_status("42", Status::Failed, 1500);
    q.update_cover_download_status("42", Status::Failed);
    assert!(!q.restart);

    q.reset_fail_downloads();
    assert!(q.restart);
    assert_eq!(q.novels[0].download_status, Status::NotStarted);
    assert_eq!(q.novels[0].cover_download_status, Status::NotStarted);
    let kv = q.find_volume("v1").unwrap();
    assert_eq!(q.volumes[kv].download_status, Status::NotStarted);
    let kc2 = q.find_chapter("c2").unwrap();
    assert_eq!(q.chapters[kc2].download_status, Status::NotStarted);
    // the success is kept, not reset
    let kc1 = q.find_chapter("c1").unwrap();
    assert_eq!(q.chapters[kc1].download_status, Status::Success);

    assert!(q.take_restart());
    assert!(!q.restart);
    assert!(!q.take_restart());

    q.request_restart();
    assert!(q.restart);
    assert!(q.take_restart());
}

#[test]
fn all_downloads_lists_newest_first() {
    let mut q = DownloadQueue::new();
    q.enqueue_novel("1", &Vec::new(), &Vec::new(), &info("first"), 100);
    q.enqueue_novel("2", &Vec::new(), &Vec::new(), &info("second"), 300);
    q.enqueue_novel("3", &Vec::new(), &Vec::new(), &info("third"), 200);
    let all = q.all_downloads();
    assert_eq!(all.len(), 3);
    assert_eq!(all[0].novel_id, "2");
    assert_eq!(all[1].novel_id, "3");
    assert_eq!(all[2].novel_id, "1");
}

#[test]
fn exists_download_collects_the_novel_tree() {
    let mut q = DownloadQueue::new();
    q.enqueue_novel("42", &Vec::new(), &tree("42"), &info("The Novel"), 1000);
    q.enqueue_novel("77", &Vec::new(), &Vec::new(), &info("Other"), 2000);

    let d = q.exists_download("42").unwrap();
    assert_eq!(d.novel_download.novel_id, "42");
    assert_eq!(d.novel_download_volume.len(), 2);
    assert_eq!(d.novel_download_volume[0].id, "v1");
    assert_eq!(d.novel_download_volume[1].id, "v2");
    assert_eq!(d.novel_download_chapter.len(), 3);
    assert!(d.novel_download_chapter.iter().all(|c| c.aid == "42"));
    assert!(q.exists_download("99").is_none());
}

#[test]
fn pending_pictures_come_in_index_order() {
    let mut q = DownloadQueue::new();
    q.upsert_picture("9", "v1", "c1", 2, "https://example.test/p2.jpg", "cc", Status::NotStarted);
    q.upsert_picture("9", "v1", "c1", 0, "https://example.test/p0.jpg", "aa", Status::NotStarted);
    q.upsert_picture("9", "v1", "c1", 1, "https://example.test/p1.jpg", "bb", Status::NotStarted);

    let p = q.find_pending_picture("9").unwrap();
    assert_eq!(p.picture_idx, 0);
    q.update_picture_status("9", "v1", "c1", 0, Status::Success);
    let p = q.find_pending_picture("9").unwrap();
    assert_eq!(p.picture_idx, 1);
    q.update_picture_status("9", "v1", "c1", 1, Status::Failed);
    let p = q.find_pending_picture("9").unwrap();
    assert_eq!(p.picture_idx, 2);
    q.update_picture_status("9", "v1", "c1", 2, Status::Success);
    assert!(q.find_pending_picture("9").is_none());
}

#[test]
fn exists_download_sorts_volumes_by_index() {
    // a re-enqueue with a tree that grew at the front appends the new
    // volume after the old rows; the detail still comes out ascending
    let mut q = DownloadQueue::new();
    q.enqueue_novel("42", &Vec::new(), &tree("42"), &info("The Novel"), 1000);
    let grown = vec![
        Volume {
            id: "v0".to_string(),
            title: "prologue".to_string(),
            chapters: vec![chapter("c0", "42")],
        },
        Volume {
            id: "v1".to_string(),
            title: "volume one".to_string(),
            chapters: vec![chapter("c1", "42"), chapter("c2", "42")],
        },
        Volume {
            id: "v2".to_string(),
            title: "volume two".to_string(),
            chapters: vec![chapter("c3", "42")],
        },
    ];
    q.enqueue_novel("42", &Vec::new(), &grown, &info("The Novel"), 2000);
    // storage order now ends with the appended v0
    assert_eq!(q.volumes.last().unwrap().id, "v0");

    let d = q.exists_download("42").unwrap();
    assert_eq!(d.novel_download_volume.len(), 3);
    for w in d.novel_download_volume.windows(2) {
        assert!(w[0].volume_idx <= w[1].volume_idx);
    }
    assert_eq!(d.novel_download_volume[0].volume_idx, 0);
    assert_eq!(d.novel_download_volume[2].volume_idx, 1);
}
