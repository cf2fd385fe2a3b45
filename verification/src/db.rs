//! The store of feeds, articles and settings, with the constraints of its
//! schema: unique feed ids and urls, unique article ids, one article per
//! (feed, entry), every article belonging to a stored feed, unique setting keys.

pub mod article_repo;
pub mod feed_repo;
pub mod settings_repo;

use vstd::prelude::*;

use crate::models::{Article, Feed};
use crate::text::str_eq;

verus! {

/// One key/value row of the settings table.
#[derive(Debug, Clone)]
pub struct Setting {
    pub key: String,
    pub value: String,
}

/// The three tables, each in the order its rows were first inserted.
#[derive(Debug)]
pub struct Database {
    pub feeds: Vec<Feed>,
    pub articles: Vec<Article>,
    pub settings: Vec<Setting>,
}

/// Row `i` of `feeds` has id `id`.
pub open spec fn feed_at(feeds: Seq<Feed>, id: Seq<char>, i: int) -> bool {
    0 <= i < feeds.len() && feeds[i].id@ == id
}

/// Some row of `feeds` has id `id`.
pub open spec fn has_feed(feeds: Seq<Feed>, id: Seq<char>) -> bool {
    exists|i: int| feed_at(feeds, id, i)
}

/// Row `i` of `feeds` has url `url`.
pub open spec fn url_at(feeds: Seq<Feed>, url: Seq<char>, i: int) -> bool {
    0 <= i < feeds.len() && feeds[i].url@ == url
}

/// Some row of `feeds` has url `url`.
pub open spec fn has_url(feeds: Seq<Feed>, url: Seq<char>) -> bool {
    exists|i: int| url_at(feeds, url, i)
}

/// Row `i` of `articles` has id `id`.
pub open spec fn article_at(articles: Seq<Article>, id: Seq<char>, i: int) -> bool {
    0 <= i < articles.len() && articles[i].id@ == id
}

/// Some row of `articles` has id `id`.
pub open spec fn has_article(articles: Seq<Article>, id: Seq<char>) -> bool {
    exists|i: int| article_at(articles, id, i)
}

/// Row `i` of `articles` is entry `entry_id` of feed `feed_id`.
pub open spec fn entry_at(articles: Seq<Article>, feed_id: Seq<char>, entry_id: Seq<char>, i: int) -> bool {
    0 <= i < articles.len() && articles[i].feed_id@ == feed_id && articles[i].entry_id@ == entry_id
}

/// Some row of `articles` is entry `entry_id` of feed `feed_id`.
pub open spec fn has_entry(articles: Seq<Article>, feed_id: Seq<char>, entry_id: Seq<char>) -> bool {
    exists|i: int| entry_at(articles, feed_id, entry_id, i)
}

/// Row `i` of `settings` has key `key`.
pub open spec fn setting_at(settings: Seq<Setting>, key: Seq<char>, i: int) -> bool {
    0 <= i < settings.len() && settings[i].key@ == key
}

/// Some row of `settings` has key `key`.
pub open spec fn has_setting(settings: Seq<Setting>, key: Seq<char>) -> bool {
    exists|i: int| setting_at(settings, key, i)
}

/// The feed whose id is `id` (meaningful when there is one).
pub open spec fn the_feed(feeds: Seq<Feed>, id: Seq<char>) -> Feed {
    feeds[choose|i: int| feed_at(feeds, id, i)]
}

/// The title of the feed with id `id`, as the article listing joins it in.
pub open spec fn joined_feed_title(feeds: Seq<Feed>, id: Seq<char>) -> Option<String> {
    if has_feed(feeds, id) {
        Some(the_feed(feeds, id).title)
    } else {
        None
    }
}

/// A stored article as it is read back: with the title of its feed.
pub open spec fn shown(feeds: Seq<Feed>, a: Article) -> Article {
    Article { feed_title: joined_feed_title(feeds, a.feed_id@), ..a }
}

/// The value stored under `key` (meaningful when there is one).
pub open spec fn setting_value(settings: Seq<Setting>, key: Seq<char>) -> Option<Seq<char>> {
    if has_setting(settings, key) {
        Some(settings[choose|i: int| setting_at(settings, key, i)].value@)
    } else {
        None
    }
}

/// The constraints of the schema.
pub open spec fn tables_wf(feeds: Seq<Feed>, articles: Seq<Article>, settings: Seq<Setting>) -> bool {
    &&& forall|i: int, j: int|
        0 <= i < j < feeds.len() ==> feeds[i].id@ != feeds[j].id@ && feeds[i].url@ != feeds[j].url@
    &&& forall|i: int, j: int|
        0 <= i < j < articles.len() ==> articles[i].id@ != articles[j].id@ && !(
        articles[i].feed_id@ == articles[j].feed_id@ && articles[i].entry_id@
            == articles[j].entry_id@)
    &&& forall|i: int|
        0 <= i < articles.len() ==> has_feed(feeds, #[trigger] articles[i].feed_id@)
    &&& forall|i: int|
        0 <= i < articles.len() ==> (#[trigger] articles[i]).feed_title is None
            && articles[i].categories is None
    &&& forall|i: int, j: int| 0 <= i < j < settings.len() ==> settings[i].key@ != settings[j].key@
}

impl Database {
    /// The store satisfies the constraints of its schema.
    pub open spec fn wf(&self) -> bool {
        tables_wf(self.feeds@, self.articles@, self.settings@)
    }

    /// An empty store.
    pub fn new() -> (db: Database)
        ensures
            db.wf(),
            db.feeds@.len() == 0,
            db.articles@.len() == 0,
            db.settings@.len() == 0,
    {
        Database { feeds: Vec::new(), articles: Vec::new(), settings: Vec::new() }
    }
}

/// The position of the feed with id `id`.
pub fn find_feed(feeds: &Vec<Feed>, id: &str) -> (r: Option<usize>)
    ensures
        match r {
            Some(i) => feed_at(feeds@, id@, i as int),
            None => !has_feed(feeds@, id@),
        },
{
    let mut i: usize = 0;
    while i < feeds.len()
        invariant
            i <= feeds.len(),
            forall|j: int| 0 <= j < i ==> feeds@[j].id@ != id@,
        decreases feeds.len() - i,
    {
        if str_eq(feeds[i].id.as_str(), id) {
            return Some(i);
        }
        i = i + 1;
    }
    None
}

/// The position of the feed with url `url`.
pub fn find_feed_url(feeds: &Vec<Feed>, url: &str) -> (r: Option<usize>)
    ensures
        match r {
            Some(i) => url_at(feeds@, url@, i as int),
            None => !has_url(feeds@, url@),
        },
{
    let mut i: usize = 0;
    while i < feeds.len()
        invariant
            i <= feeds.len(),
            forall|j: int| 0 <= j < i ==> feeds@[j].url@ != url@,
        decreases feeds.len() - i,
    {
        if str_eq(feeds[i].url.as_str(), url) {
            return Some(i);
        }
        i = i + 1;
    }
    None
}

/// The position of the article with id `id`.
pub fn find_article(articles: &Vec<Article>, id: &str) -> (r: Option<usize>)
    ensures
        match r {
            Some(i) => article_at(articles@, id@, i as int),
            None => !has_article(articles@, id@),
        },
{
    let mut i: usize = 0;
    while i < articles.len()
        invariant
            i <= articles.len(),
            forall|j: int| 0 <= j < i ==> articles@[j].id@ != id@,
        decreases articles.len() - i,
    {
        if str_eq(articles[i].id.as_str(), id) {
            return Some(i);
        }
        i = i + 1;
    }
    None
}

/// The position of entry `entry_id` of feed `feed_id`.
pub fn find_entry(articles: &Vec<Article>, feed_id: &str, entry_id: &str) -> (r: Option<usize>)
    ensures
        match r {
            Some(i) => entry_at(articles@, feed_id@, entry_id@, i as int),
            None => !has_entry(articles@, feed_id@, entry_id@),
        },
{
    let mut i: usize = 0;
    while i < articles.len()
        invariant
            i <= articles.len(),
            forall|j: int|
                0 <= j < i ==> !(articles@[j].feed_id@ == feed_id@ && articles@[j].entry_id@
                    == entry_id@),
        decreases articles.len() - i,
    {
        if str_eq(articles[i].feed_id.as_str(), feed_id) && str_eq(
            articles[i].entry_id.as_str(),
            entry_id,
        ) {
            return Some(i);
        }
        i = i + 1;
    }
    None
}

/// The position of the setting with key `key`.
pub fn find_setting(settings: &Vec<Setting>, key: &str) -> (r: Option<usize>)
    ensures
        match r {
            Some(i) => setting_at(settings@, key@, i as int),
            None => !has_setting(settings@, key@),
        },
{
    let mut i: usize = 0;
    while i < settings.len()
        invariant
            i <= settings.len(),
            forall|j: int| 0 <= j < i ==> settings@[j].key@ != key@,
        decreases settings.len() - i,
    {
        if str_eq(settings[i].key.as_str(), key) {
            return Some(i);
        }
        i = i + 1;
    }
    None
}

/// A stored article as it is read back, with the title of its feed joined in.
pub fn row_to_article(feeds: &Vec<Feed>, row: &Article) -> (r: Article)
    requires
        forall|i: int, j: int| 0 <= i < j < feeds@.len() ==> feeds@[i].id@ != feeds@[j].id@,
    ensures
        r == shown(feeds@, *row),
{
    let mut a = row.duplicate();
    match find_feed(feeds, row.feed_id.as_str()) {
        Some(i) => {
            proof {
                let c = choose|k: int| feed_at(feeds@, row.feed_id@, k);
                assert(feed_at(feeds@, row.feed_id@, i as int));
                if c != i {
                    if c < i {
                        assert(feeds@[c].id@ != feeds@[i as int].id@);
                    } else {
                        assert(feeds@[i as int].id@ != feeds@[c].id@);
                    }
                }
            }
            a.feed_title = Some(feeds[i].title.clone());
        },
        None => {
            a.feed_title = None;
        },
    }
    a
}

} // verus!
