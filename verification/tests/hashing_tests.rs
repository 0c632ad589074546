use offline_engine::context::{get_image_cache_dir, random_android_ua, random_user_agent, AppContext};
use offline_engine::hashing::{content_hash, shard_of, SHARD_COUNT};
use offline_engine::strutil::{
    chapter_file_name, concat_str, contains_str, cover_file_name, join_comma, novel_dir,
    picture_file_name, str_eq,
};

#[test]
fn content_hash_matches_md5_hex() {
    // the wrapper must hand back the hex digest, not its input
    let url = "https://example.test/cover.jpg";
    let expected = hex::encode(md5::compute(url.as_bytes()).0);
    assert_eq!(content_hash(url), expected);
    assert_eq!(content_hash(url).len(), 32);
    assert_ne!(content_hash(url), url);
}

#[test]
fn shard_choice_is_stable_and_bounded() {
    let key = "NOVEL_INFO$42";
    let s1 = shard_of(key);
    let s2 = shard_of(key);
    assert_eq!(s1, s2);
    assert!(s1 < SHARD_COUNT);
    let digest = md5::compute(key.as_bytes()).0;
    assert_eq!(s1, (digest[15] % 64) as usize);
}

#[test]
fn path_names_follow_the_layout() {
    assert_eq!(novel_dir("/data/download", "42"), "/data/download/42");
    assert_eq!(chapter_file_name("c1"), "chapter_c1");
    assert_eq!(picture_file_name("abcd"), "picture_abcd");
    assert_eq!(cover_file_name(), "cover");
    assert_eq!(concat_str("a", "b"), "ab");
}

#[test]
fn string_helpers() {
    assert!(str_eq("abc", "abc"));
    assert!(!str_eq("abc", "abd"));
    assert!(!str_eq("abc", "ab"));
    let v = vec!["one".to_string(), "two".to_string()];
    assert!(contains_str(&v, "two"));
    assert!(!contains_str(&v, "three"));
    assert_eq!(join_comma(&v), "one,two");
    assert_eq!(join_comma(&Vec::new()), "");
    assert_eq!(join_comma(&vec!["solo".to_string()]), "solo");
}

#[test]
fn context_derives_directories() {
    let ctx = AppContext::new("/data/app".to_string());
    assert_eq!(ctx.root, "/data/app");
    assert_eq!(ctx.image_cache_dir, "/data/app/image_cache");
    assert_eq!(ctx.download_folder, "/data/app/download");
    assert_eq!(get_image_cache_dir(&ctx), "/data/app/image_cache");
}

#[test]
fn user_agent_is_the_fixed_identity() {
    let ua = random_user_agent();
    assert_eq!(ua, random_android_ua());
    assert!(ua.starts_with("Dalvik"));
}
