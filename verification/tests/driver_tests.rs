use offline_engine::driver::DriverCommand;
use offline_engine::models::{Chapter, NovelInfo, Volume};
use offline_engine::queue::DownloadQueue;
use offline_engine::strutil::{chapter_file_name, novel_dir};
use offline_engine::Status;

fn chapter(cid: &str, aid: &str) -> Chapter {
    Chapter {
        title: format!("chapter {}", cid),
        url: format!("https://example.test/{}/{}", aid, cid),
        cid: cid.to_string(),
        aid: aid.to_string(),
    }
}

fn info() -> NovelInfo {
    NovelInfo {
        title: "The Novel".to_string(),
        author: "someone".to_string(),
        status: "done".to_string(),
        fin_update: "today".to_string(),
        img_url: "https://example.test/cover.jpg".to_string(),
        introduce: "a novel".to_string(),
        tags: vec!["fantasy".to_string()],
        heat: "hot".to_string(),
        trending: "up".to_string(),
        is_animated: false,
    }
}

fn tree(aid: &str) -> Vec<Volume> {
    vec![
        Volume {
            id: "v1".to_string(),
            title: "volume one".to_string(),
            chapters: vec![chapter("c1", aid), chapter("c2", aid)],
        },
        Volume {
            id: "v2".to_string(),
            title: "volume two".to_string(),
            chapters: vec![chapter("c3", aid)],
        },
    ]
}

/// Run the driver loop against an in-memory file map until it idles;
/// `fails` names the chapters whose fetch should fail.
fn run_driver(q: &mut DownloadQueue, files: &mut Vec<(String, String)>, fails: &[&str]) {
    let folder = "download".to_string();
    let mut steps: u32 = 0;
    loop {
        steps += 1;
        assert!(steps < 1000, "driver did not settle");
        match q.next_command() {
            DriverCommand::Idle => break,
            DriverCommand::DeleteNovel { novel_id } => {
                let prefix = format!("{}/", novel_dir(&folder, &novel_id));
                files.retain(|f| !f.0.starts_with(&prefix));
                q.remove_download_data(&novel_id);
            }
            DriverCommand::FetchCover { novel_id, url: _ } => {
                let path = format!("{}/cover", novel_dir(&folder, &novel_id));
                files.push((path, "cover bytes".to_string()));
                q.update_cover_download_status(&novel_id, Status::Success);
            }
            DriverCommand::FetchChapter { novel_id, volume_id: _, chapter_id } => {
                if fails.contains(&chapter_id.as_str()) {
                    q.record_chapter_result(&novel_id, &chapter_id, false);
                } else {
                    let path = format!(
                        "{}/{}",
                        novel_dir(&folder, &novel_id),
                        chapter_file_name(&chapter_id)
                    );
                    files.push((path, format!("text of {}", chapter_id)));
                    q.record_chapter_result(&novel_id, &chapter_id, true);
                }
            }
            DriverCommand::AggregateVolume { novel_id: _, volume_id } => {
                q.apply_volume_aggregation(&volume_id);
            }
            DriverCommand::FetchPicture { aid, volume_id, chapter_id, picture_idx, url: _, url_md5 } => {
                let path = format!("{}/picture_{}", novel_dir(&folder, &aid), url_md5);
                files.push((path, "picture bytes".to_string()));
                q.update_picture_status(&aid, &volume_id, &chapter_id, picture_idx, Status::Success);
            }
            DriverCommand::FinalizeNovel { novel_id } => {
                q.finalize_novel(&novel_id, 9000);
            }
        }
    }
}

#[test]
fn full_download_completes_the_novel() {
    // enqueue novel "42" with volumes v1 -> [c1, c2] and v2 -> [c3], run
    // the driver until idle: three chapters downloaded, count 3, success
    let mut q = DownloadQueue::new();
    q.enqueue_novel("42", &Vec::new(), &tree("42"), &info(), 1000);
    let mut files: Vec<(String, String)> = Vec::new();
    run_driver(&mut q, &mut files, &[]);

    let n = &q.novels[q.find_novel("42").unwrap()];
    assert_eq!(n.download_status, Status::Success);
    assert_eq!(n.cover_download_status, Status::Success);
    assert_eq!(n.download_chapter_count, 3);

    for cid in ["c1", "c2", "c3"] {
        let path = format!("download/42/chapter_{}", cid);
        let f = files.iter().find(|f| f.0 == path).expect("chapter file missing");
        assert!(!f.1.is_empty());
    }
    assert!(files.iter().any(|f| f.0 == "download/42/cover"));
}

#[test]
fn failed_chapter_fails_its_volume_but_not_its_siblings() {
    // c2 fails: v1 fails and so does the novel, but c1 keeps its success
    // and v2 is still fully processed
    let mut q = DownloadQueue::new();
    q.enqueue_novel("42", &Vec::new(), &tree("42"), &info(), 1000);
    let mut files: Vec<(String, String)> = Vec::new();
    run_driver(&mut q, &mut files, &["c2"]);

    let n = &q.novels[q.find_novel("42").unwrap()];
    assert_eq!(n.download_status, Status::Failed);
    assert_eq!(q.volumes[q.find_volume("v1").unwrap()].download_status, Status::Failed);
    assert_eq!(q.chapters[q.find_chapter("c1").unwrap()].download_status, Status::Success);
    assert_eq!(q.volumes[q.find_volume("v2").unwrap()].download_status, Status::Success);
    assert!(files.iter().any(|f| f.0 == "download/42/chapter_c3"));
    assert!(!files.iter().any(|f| f.0 == "download/42/chapter_c2"));
}

#[test]
fn reset_after_failure_lets_the_driver_finish() {
    let mut q = DownloadQueue::new();
    q.enqueue_novel("42", &Vec::new(), &tree("42"), &info(), 1000);
    let mut files: Vec<(String, String)> = Vec::new();
    run_driver(&mut q, &mut files, &["c2"]);
    assert_eq!(q.novels[0].download_status, Status::Failed);

    q.reset_fail_downloads();
    assert!(q.take_restart());
    run_driver(&mut q, &mut files, &[]);

    let n = &q.novels[q.find_novel("42").unwrap()];
    assert_eq!(n.download_status, Status::Success);
    assert_eq!(n.download_chapter_count, 3);
    assert!(files.iter().any(|f| f.0 == "download/42/chapter_c2"));
}

#[test]
fn deletion_outranks_downloading_and_empties_the_tree() {
    let mut q = DownloadQueue::new();
    q.enqueue_novel("42", &Vec::new(), &tree("42"), &info(), 1000);
    let mut files: Vec<(String, String)> = Vec::new();
    run_driver(&mut q, &mut files, &[]);
    assert!(!files.is_empty());

    q.request_delete("42", 2000);
    match q.next_command() {
        DriverCommand::DeleteNovel { ref novel_id } => assert_eq!(novel_id, "42"),
        other => panic!("expected a deletion command, got {:?}", other),
    }
    run_driver(&mut q, &mut files, &[]);
    assert!(q.find_novel("42").is_none());
    assert!(files.iter().all(|f| !f.0.starts_with("download/42/")));
}

#[test]
fn pictures_are_fetched_and_counted_into_success() {
    let mut q = DownloadQueue::new();
    q.enqueue_novel("9", &Vec::new(), &Vec::new(), &info(), 1000);
    q.upsert_picture("9", "v1", "c1", 0, "https://example.test/p0.jpg", "aaaa", Status::NotStarted);
    q.upsert_picture("9", "v1", "c1", 1, "https://example.test/p1.jpg", "bbbb", Status::NotStarted);
    let mut files: Vec<(String, String)> = Vec::new();
    run_driver(&mut q, &mut files, &[]);

    let n = &q.novels[q.find_novel("9").unwrap()];
    assert_eq!(n.download_status, Status::Success);
    assert!(files.iter().any(|f| f.0 == "download/9/picture_aaaa"));
    assert!(files.iter().any(|f| f.0 == "download/9/picture_bbbb"));
    assert!(q.pictures.iter().all(|p| p.download_status == Status::Success));
}

#[test]
fn idle_queue_commands_nothing() {
    let q = DownloadQueue::new();
    assert!(matches!(q.next_command(), DriverCommand::Idle));
}
