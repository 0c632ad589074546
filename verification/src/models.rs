//! Plain data carried between the engine and its callers: novel listings,
//! user details, reading and search history entries, and the volume /
//! chapter tree that a download request selects from.
use vstd::prelude::*;

verus! {

/// A novel as listed by the remote source.
#[derive(Debug)]
pub struct Novel {
    pub id: String,
    pub title: String,
    pub author: String,
    pub cover_url: String,
    pub last_chapter: String,
    pub tags: Vec<String>,
}

/// One shelf entry: a novel and when it was last read.
#[derive(Debug)]
pub struct BookshelfItem {
    pub novel: Novel,
    pub last_read: String,
}

/// The logged-in user's profile fields.
#[derive(Debug)]
pub struct UserDetail {
    pub username: String,
    pub user_id: String,
    pub nickname: String,
    pub level: String,
    pub title: String,
    pub sex: String,
    pub email: String,
    pub qq: String,
    pub msn: String,
    pub web: String,
    pub register_date: String,
    pub contribute_point: String,
    pub experience_value: String,
    pub holding_points: String,
    pub quantity_of_friends: String,
    pub quantity_of_mail: String,
    pub quantity_of_collection: String,
    pub quantity_of_recommend_daily: String,
    pub personalized_signature: String,
    pub personalized_description: String,
}

/// Descriptive metadata of one novel.
#[derive(Debug)]
pub struct NovelInfo {
    pub title: String,
    pub author: String,
    pub status: String,
    pub fin_update: String,
    pub img_url: String,
    pub introduce: String,
    pub tags: Vec<String>,
    pub heat: String,
    pub trending: String,
    pub is_animated: bool,
}

/// One block of the start page: a title and its covers.
#[derive(Debug)]
pub struct HomeBlock {
    pub title: String,
    pub list: Vec<NovelCover>,
}

/// A cover tile in a listing.
#[derive(Debug)]
pub struct NovelCover {
    pub title: String,
    pub img: String,
    pub detail_url: String,
    pub aid: String,
}

/// One page of a paginated listing.
#[derive(Debug)]
pub struct PageStats<T> {
    pub current_page: i32,
    pub max_page: i32,
    pub records: Vec<T>,
}

/// A cover reference without an image.
#[derive(Debug)]
pub struct SimpleNovelCover {
    pub title: String,
    pub aid: String,
}

/// One chapter of a novel's reading tree.
#[derive(Debug)]
pub struct Chapter {
    pub title: String,
    pub url: String,
    pub cid: String,
    pub aid: String,
}

/// One volume of a novel's reading tree, with its chapters in order.
#[derive(Debug)]
pub struct Volume {
    pub id: String,
    pub title: String,
    pub chapters: Vec<Chapter>,
}

/// A novel's full detail: metadata plus its volume tree.
#[derive(Debug)]
pub struct NovelDetail {
    pub aid: String,
    pub title: String,
    pub author: String,
    pub cover_url: String,
    pub last_chapter: String,
    pub tags: Vec<String>,
    pub status: String,
    pub fin_update: String,
    pub img_url: String,
    pub introduce: String,
    pub heat: String,
    pub trending: String,
    pub is_animated: bool,
    pub volumes: Vec<Volume>,
}

/// A named group of browse tags.
#[derive(Debug)]
pub struct TagGroup {
    pub title: String,
    pub tags: Vec<String>,
}

/// One bookcase of the user's shelf.
#[derive(Debug)]
pub struct Bookcase {
    pub id: String,
    pub title: String,
}

/// One novel inside a bookcase.
#[derive(Debug)]
pub struct BookcaseItem {
    pub aid: String,
    pub bid: String,
    pub title: String,
    pub author: String,
    pub cid: String,
    pub chapter_name: String,
}

/// A bookcase listing together with the page's tip line.
#[derive(Debug)]
pub struct BookcaseDto {
    pub items: Vec<BookcaseItem>,
    pub tip: String,
}

/// One review of a novel.
#[derive(Debug)]
pub struct Review {
    pub rid: String,
    pub content: String,
    pub reply_count: i32,
    pub uid: String,
    pub uname: String,
    pub time: String,
}

/// One reading-history record, newest first in listings.
#[derive(Debug)]
pub struct ReadingHistory {
    pub novel_id: String,
    pub novel_name: String,
    pub volume_id: String,
    pub volume_name: String,
    pub chapter_id: String,
    pub chapter_title: String,
    pub last_read_at: i64,
    pub progress: i32,
    pub progress_page: i32,
    pub cover: String,
    pub author: String,
}

/// One remembered search.
#[derive(Debug)]
pub struct SearchHistory {
    pub search_type: String,
    pub search_key: String,
    pub search_time: i64,
}

/// One page of novel covers, as the paginated browse endpoints hand it out.
#[derive(Debug)]
pub struct PageStatsNovelCover {
    pub current_page: i32,
    pub max_page: i32,
    pub records: Vec<NovelCover>,
}

} // verus!
