//! What the app's commands decide: adding a feed, refreshing feeds and
//! storing their entries, listing articles, and keeping Open Graph outcomes.
//! The network and the window stay with the app, which hands over what it
//! fetched.

use vstd::prelude::*;

use crate::clock::utc_now_rfc3339;
use crate::db::article_repo::{upsert_article, upsert_refused, upserted};
use crate::db::entry_at;
use crate::db::feed_repo::{get_feed_by_url, insert_feed, unique_failed, update_feed};
use crate::db::{has_entry, has_url, Database};
use crate::error::{concat_str, AppError};
use crate::feed::fetcher::FetchResult;
use crate::feed::parser::{parse_feed, ParsedEntry, ParsedFeed};
use crate::models::{Article, Feed};
use crate::text::{clone_opt, opt_text, push_char};

verus! {

/// A fresh random identifier, `uuid::Uuid::new_v4()` written out.
///
/// Trusted: a UUID is written as 32 hexadecimal digits in five groups joined by
/// hyphens, so the text is 36 characters long; its value is random and not
/// stated.
#[verifier::external_body]
pub(crate) fn new_uuid() -> (r: String)
    ensures
        r@.len() == 36,
{
    uuid::Uuid::new_v4().to_string()
}

/// The names of `cats` joined by commas.
pub open spec fn comma_joined(cats: Seq<Seq<char>>) -> Seq<char>
    decreases cats.len(),
{
    if cats.len() <= 1 {
        if cats.len() == 0 {
            Seq::empty()
        } else {
            cats[0]
        }
    } else {
        comma_joined(cats.drop_last()) + ","@ + cats.last()
    }
}

/// The categories column of an entry: none where it has no categories, else
/// their names joined by commas.
pub open spec fn categories_column(cats: Seq<Seq<char>>) -> Option<Seq<char>> {
    if cats.len() == 0 {
        None
    } else {
        Some(comma_joined(cats))
    }
}

/// The categories column of an entry with the categories `cats`.
pub fn join_categories(cats: &Vec<String>) -> (r: Option<String>)
    ensures
        opt_text(r) == categories_column(crate::feed::parser::texts_of(cats@)),
{
    let ghost names = crate::feed::parser::texts_of(cats@);
    if cats.len() == 0 {
        return None;
    }
    let mut out = cats[0].clone();
    let mut i: usize = 1;
    proof {
        reveal_strlit(",");
        assert(names.take(1) =~= seq![names[0]]);
    }
    while i < cats.len()
        invariant
            1 <= i <= cats@.len(),
            names == crate::feed::parser::texts_of(cats@),
            out@ == comma_joined(names.take(i as int)),
        decreases cats@.len() - i,
    {
        let with_comma = out.concat(",");
        out = with_comma.concat(cats[i].as_str());
        proof {
            assert(names.take(i + 1).drop_last() =~= names.take(i as int));
            assert(names.take(i + 1).last() == cats@[i as int]@);
        }
        i = i + 1;
    }
    proof {
        assert(names.take(i as int) =~= names);
    }
    Some(out)
}

/// `a` is the new article that the entry `e` of feed `feed_id` becomes, with
/// id `id`, stored at `now`: unread, without Open Graph data.
pub open spec fn is_entry_article(a: Article, e: ParsedEntry, id: Seq<char>, feed_id: Seq<char>, now: Seq<char>) -> bool {
    &&& a.id@ == id
    &&& a.feed_id@ == feed_id
    &&& a.entry_id@ == e.entry_id@
    &&& a.title@ == e.title@
    &&& opt_text(a.url) == opt_text(e.url)
    &&& opt_text(a.summary) == opt_text(e.summary)
    &&& opt_text(a.content) == opt_text(e.content)
    &&& opt_text(a.author) == opt_text(e.author)
    &&& opt_text(a.published_at) == opt_text(e.published_at)
    &&& !a.is_read
    &&& a.read_at is None
    &&& a.og_image_url is None
    &&& a.og_image_local is None
    &&& a.og_description is None
    &&& !a.og_fetched
    &&& a.created_at@ == now
    &&& a.feed_title is None
    &&& opt_text(a.categories) == categories_column(crate::feed::parser::texts_of(e.categories@))
}

/// The new article that the entry `e` of feed `feed_id` becomes.
pub fn entry_article(e: &ParsedEntry, id: &str, feed_id: &str, now: &str) -> (a: Article)
    ensures
        is_entry_article(a, *e, id@, feed_id@, now@),
{
    Article {
        id: id.to_string(),
        feed_id: feed_id.to_string(),
        entry_id: e.entry_id.clone(),
        title: e.title.clone(),
        url: clone_opt(&e.url),
        summary: clone_opt(&e.summary),
        content: clone_opt(&e.content),
        author: clone_opt(&e.author),
        published_at: clone_opt(&e.published_at),
        is_read: false,
        read_at: None,
        og_image_url: None,
        og_image_local: None,
        og_description: None,
        og_fetched: false,
        created_at: now.to_string(),
        feed_title: None,
        categories: join_categories(&e.categories),
    }
}

/// The article table after upserting each of `list` in turn.
pub open spec fn upserted_all(articles: Seq<Article>, list: Seq<Article>) -> Seq<Article>
    decreases list.len(),
{
    if list.len() == 0 {
        articles
    } else {
        upserted(upserted_all(articles, list.drop_last()), list.last())
    }
}

/// `list` holds the articles that the entries `entries` of feed `feed_id`
/// become, with the ids `ids`, stored at `now`.
pub open spec fn are_entry_articles(
    list: Seq<Article>,
    entries: Seq<ParsedEntry>,
    ids: Seq<String>,
    feed_id: Seq<char>,
    now: Seq<char>,
) -> bool {
    &&& list.len() <= entries.len()
    &&& list.len() <= ids.len()
    &&& forall|i: int|
        0 <= i < list.len() ==> is_entry_article(#[trigger] list[i], entries[i], ids[i]@, feed_id, now)
}

/// The entries were stored in turn, all of them, or up to the first that was
/// refused.
pub open spec fn stored_entries(
    feeds: Seq<Feed>,
    before: Seq<Article>,
    after: Seq<Article>,
    entries: Seq<ParsedEntry>,
    ids: Seq<String>,
    feed_id: Seq<char>,
    now: Seq<char>,
    ok: bool,
) -> bool {
    exists|list: Seq<Article>|
        #![trigger are_entry_articles(list, entries, ids, feed_id, now)]
        {
            &&& are_entry_articles(list, entries, ids, feed_id, now)
            &&& ok ==> list.len() == entries.len() && after == upserted_all(before, list)
            &&& !ok ==> list.len() > 0 && after == upserted_all(before, list.drop_last())
                && upsert_refused(feeds, after, list.last())
        }
}

/// An upsert keeps every (feed, entry) pair that the table had.
pub proof fn lemma_upserted_keeps_entries(articles: Seq<Article>, a: Article, feed_id: Seq<char>, entry_id: Seq<char>)
    requires
        has_entry(articles, feed_id, entry_id),
    ensures
        has_entry(upserted(articles, a), feed_id, entry_id),
{
    let k = choose|k: int| entry_at(articles, feed_id, entry_id, k);
    assert(entry_at(upserted(articles, a), feed_id, entry_id, k));
}

/// The ids `ids` are new to the article table `articles` and differ from
/// each other.
pub open spec fn fresh_ids(ids: Seq<String>, articles: Seq<Article>) -> bool {
    &&& forall|i: int, j: int| 0 <= i < j < ids.len() ==> ids[i]@ != ids[j]@
    &&& forall|i: int| 0 <= i < ids.len() ==> !crate::db::has_article(articles, #[trigger] ids[i]@)
}

/// An upsert adds no id but that of the article upserted.
proof fn lemma_upserted_ids(articles: Seq<Article>, a: Article, x: Seq<char>)
    requires
        crate::db::has_article(upserted(articles, a), x),
    ensures
        crate::db::has_article(articles, x) || a.id@ == x,
{
    let k = choose|k: int| crate::db::article_at(upserted(articles, a), x, k);
    if has_entry(articles, a.feed_id@, a.entry_id@) {
        assert(crate::db::article_at(articles, x, k));
    } else if k < articles.len() {
        assert(crate::db::article_at(articles, x, k));
    }
}

/// After an upsert the table has the upserted entry.
proof fn lemma_upserted_has_entry(articles: Seq<Article>, a: Article)
    ensures
        has_entry(upserted(articles, a), a.feed_id@, a.entry_id@),
{
    if has_entry(articles, a.feed_id@, a.entry_id@) {
        let i = choose|i: int| entry_at(articles, a.feed_id@, a.entry_id@, i);
        assert(entry_at(upserted(articles, a), a.feed_id@, a.entry_id@, i));
    } else {
        assert(entry_at(upserted(articles, a), a.feed_id@, a.entry_id@, articles.len() as int));
    }
}

/// Upserting `list` in turn adds no id but those of `list`.
proof fn lemma_upserted_all_ids(before: Seq<Article>, list: Seq<Article>, x: Seq<char>)
    requires
        crate::db::has_article(upserted_all(before, list), x),
    ensures
        crate::db::has_article(before, x) || exists|j: int| 0 <= j < list.len() && (#[trigger] list[j]).id@ == x,
    decreases list.len(),
{
    if list.len() > 0 {
        let prev = upserted_all(before, list.drop_last());
        lemma_upserted_ids(prev, list.last(), x);
        if crate::db::has_article(prev, x) {
            lemma_upserted_all_ids(before, list.drop_last(), x);
            if !crate::db::has_article(before, x) {
                let j = choose|j: int| 0 <= j < list.drop_last().len() && (#[trigger] list.drop_last()[j]).id@ == x;
                assert(list[j].id@ == x);
            }
        } else {
            assert(list[list.len() - 1].id@ == x);
        }
    }
}

/// Upserting `list` in turn leaves the table with every entry of `list`.
proof fn lemma_upserted_all_has_entries(before: Seq<Article>, list: Seq<Article>, feed_id: Seq<char>)
    requires
        forall|j: int| 0 <= j < list.len() ==> (#[trigger] list[j]).feed_id@ == feed_id,
    ensures
        forall|k: int| 0 <= k < list.len() ==> has_entry(upserted_all(before, list), feed_id, (#[trigger] list[k]).entry_id@),
    decreases list.len(),
{
    if list.len() > 0 {
        let prev = upserted_all(before, list.drop_last());
        let a = list.last();
        lemma_upserted_all_has_entries(before, list.drop_last(), feed_id);
        lemma_upserted_has_entry(prev, a);
        assert forall|k: int| 0 <= k < list.len() implies has_entry(upserted_all(before, list), feed_id, (#[trigger] list[k]).entry_id@) by {
            if k < list.len() - 1 {
                assert(list.drop_last()[k] == list[k]);
                lemma_upserted_keeps_entries(prev, a, feed_id, list[k].entry_id@);
            }
        }
    }
}

/// Entries stored in full are all in the table afterwards: feed `feed_id` has
/// an article for each of them.
pub proof fn lemma_stored_entries_present(
    feeds: Seq<Feed>,
    before: Seq<Article>,
    after: Seq<Article>,
    entries: Seq<ParsedEntry>,
    ids: Seq<String>,
    feed_id: Seq<char>,
    now: Seq<char>,
)
    requires
        stored_entries(feeds, before, after, entries, ids, feed_id, now, true),
    ensures
        forall|k: int| 0 <= k < entries.len() ==> has_entry(after, feed_id, (#[trigger] entries[k]).entry_id@),
{
    let list = choose|list: Seq<Article>|
        #![trigger are_entry_articles(list, entries, ids, feed_id, now)]
        {
            &&& are_entry_articles(list, entries, ids, feed_id, now)
            &&& true ==> list.len() == entries.len() && after == upserted_all(before, list)
            &&& !true ==> list.len() > 0 && after == upserted_all(before, list.drop_last())
                && upsert_refused(feeds, after, list.last())
        };
    assert forall|j: int| 0 <= j < list.len() implies (#[trigger] list[j]).feed_id@ == feed_id by {
        assert(is_entry_article(list[j], entries[j], ids[j]@, feed_id, now));
    }
    lemma_upserted_all_has_entries(before, list, feed_id);
    assert forall|k: int| 0 <= k < entries.len() implies has_entry(after, feed_id, (#[trigger] entries[k]).entry_id@) by {
        assert(is_entry_article(list[k], entries[k], ids[k]@, feed_id, now));
    }
}

/// Entries of a stored feed given fresh ids are never refused: storing them
/// cannot stop part-way.
pub proof fn lemma_fresh_ids_not_refused(
    feeds: Seq<Feed>,
    before: Seq<Article>,
    after: Seq<Article>,
    entries: Seq<ParsedEntry>,
    ids: Seq<String>,
    feed_id: Seq<char>,
    now: Seq<char>,
)
    requires
        crate::db::has_feed(feeds, feed_id),
        fresh_ids(ids, before),
    ensures
        !stored_entries(feeds, before, after, entries, ids, feed_id, now, false),
{
    if stored_entries(feeds, before, after, entries, ids, feed_id, now, false) {
        let list = choose|list: Seq<Article>|
            #![trigger are_entry_articles(list, entries, ids, feed_id, now)]
            {
                &&& are_entry_articles(list, entries, ids, feed_id, now)
                &&& false ==> list.len() == entries.len() && after == upserted_all(before, list)
                &&& !false ==> list.len() > 0 && after == upserted_all(before, list.drop_last())
                    && upsert_refused(feeds, after, list.last())
            };
        let n = list.len() - 1;
        assert(is_entry_article(list[n], entries[n], ids[n]@, feed_id, now));
        assert(list.last() == list[n]);
        if crate::db::has_article(after, ids[n]@) {
            lemma_upserted_all_ids(before, list.drop_last(), ids[n]@);
            assert(!crate::db::has_article(before, ids[n]@));
            let j = choose|j: int| 0 <= j < list.drop_last().len() && (#[trigger] list.drop_last()[j]).id@ == ids[n]@;
            assert(list.drop_last()[j] == list[j]);
            assert(is_entry_article(list[j], entries[j], ids[j]@, feed_id, now));
            assert(ids[j]@ != ids[n]@);
        }
    }
}

/// An id that no row of `articles` has and that is none of `taken`: a fresh
/// UUID, or, where that one is already in use, the UUID lengthened with `x`s
/// past every id in use.
pub fn fresh_article_id(articles: &Vec<Article>, taken: &Vec<String>) -> (r: String)
    ensures
        !crate::db::has_article(articles@, r@),
        forall|k: int| 0 <= k < taken@.len() ==> (#[trigger] taken@[k])@ != r@,
{
    let u = new_uuid();
    if !crate::text::list_contains(taken.as_slice(), u.as_str()) && crate::db::find_article(articles, u.as_str()).is_none() {
        return u;
    }
    let mut longest: usize = 0;
    let mut k: usize = 0;
    while k < articles.len()
        invariant
            k <= articles@.len(),
            forall|j: int| 0 <= j < k ==> (#[trigger] articles@[j]).id@.len() <= longest,
        decreases articles@.len() - k,
    {
        let n = articles[k].id.as_str().unicode_len();
        if n > longest {
            longest = n;
        }
        k = k + 1;
    }
    let mut k: usize = 0;
    while k < taken.len()
        invariant
            k <= taken@.len(),
            forall|j: int| 0 <= j < articles@.len() ==> (#[trigger] articles@[j]).id@.len() <= longest,
            forall|j: int| 0 <= j < k ==> (#[trigger] taken@[j])@.len() <= longest,
        decreases taken@.len() - k,
    {
        let n = taken[k].as_str().unicode_len();
        if n > longest {
            longest = n;
        }
        k = k + 1;
    }
    let mut v = u;
    while v.as_str().unicode_len() <= longest
        invariant
            v@.len() <= longest + 1,
        decreases longest + 1 - v@.len(),
    {
        push_char(&mut v, 'x');
    }
    proof {
        assert forall|j: int| !crate::db::article_at(articles@, v@, j) by {
            if 0 <= j < articles@.len() {
                assert(articles@[j].id@.len() <= longest);
            }
        }
    }
    v
}

/// `n` ids new to `articles` and differing from each other.
pub fn fresh_article_ids(articles: &Vec<Article>, n: usize) -> (ids: Vec<String>)
    ensures
        ids@.len() == n,
        fresh_ids(ids@, articles@),
{
    let mut ids: Vec<String> = Vec::new();
    while ids.len() < n
        invariant
            ids@.len() <= n,
            fresh_ids(ids@, articles@),
        decreases n - ids@.len(),
    {
        let id = fresh_article_id(articles, &ids);
        let ghost before = ids@;
        ids.push(id);
        proof {
            assert forall|i: int, j: int| 0 <= i < j < ids@.len() implies ids@[i]@ != ids@[j]@ by {
                if j == before.len() {
                    assert(before[i] == ids@[i]);
                } else {
                    assert(before[i] == ids@[i] && before[j] == ids@[j]);
                }
            }
            assert forall|i: int| 0 <= i < ids@.len() implies !crate::db::has_article(articles@, #[trigger] ids@[i]@) by {
                if i < before.len() {
                    assert(before[i] == ids@[i]);
                }
            }
        }
    }
    ids
}

/// An id that no stored feed has: a fresh UUID, or, where that one is in use,
/// the UUID lengthened with `x`s past every feed id.
pub fn fresh_feed_id(feeds: &Vec<Feed>) -> (r: String)
    ensures
        !crate::db::has_feed(feeds@, r@),
{
    let u = new_uuid();
    if crate::db::find_feed(feeds, u.as_str()).is_none() {
        return u;
    }
    let mut longest: usize = 0;
    let mut k: usize = 0;
    while k < feeds.len()
        invariant
            k <= feeds@.len(),
            forall|j: int| 0 <= j < k ==> (#[trigger] feeds@[j]).id@.len() <= longest,
        decreases feeds@.len() - k,
    {
        let n = feeds[k].id.as_str().unicode_len();
        if n > longest {
            longest = n;
        }
        k = k + 1;
    }
    let mut v = u;
    while v.as_str().unicode_len() <= longest
        invariant
            v@.len() <= longest + 1,
        decreases longest + 1 - v@.len(),
    {
        push_char(&mut v, 'x');
    }
    proof {
        assert forall|j: int| !crate::db::feed_at(feeds@, v@, j) by {
            if 0 <= j < feeds@.len() {
                assert(feeds@[j].id@.len() <= longest);
            }
        }
    }
    v
}

/// Stores the entries of feed `feed_id` as articles (with the ids `ids`,
/// stored at `now`), one upsert each, in order; stops at the first refused.
pub fn store_entries(
    db: &mut Database,
    feed_id: &str,
    entries: &Vec<ParsedEntry>,
    ids: &Vec<String>,
    now: &str,
) -> (r: Result<(), AppError>)
    requires
        old(db).wf(),
        ids@.len() == entries@.len(),
    ensures
        final(db).wf(),
        final(db).feeds@ == old(db).feeds@,
        final(db).settings@ == old(db).settings@,
        stored_entries(
            old(db).feeds@,
            old(db).articles@,
            final(db).articles@,
            entries@,
            ids@,
            feed_id@,
            now@,
            r is Ok,
        ),
        (forall|k: int|
            0 <= k < entries@.len() ==> has_entry(old(db).articles@, feed_id@, #[trigger] entries@[k].entry_id@))
            ==> r is Ok,
        crate::db::has_feed(old(db).feeds@, feed_id@) && fresh_ids(ids@, old(db).articles@) ==> r is Ok,
        r is Ok ==> forall|k: int|
            0 <= k < entries@.len() ==> has_entry(final(db).articles@, feed_id@, #[trigger] entries@[k].entry_id@),
{
    let ghost before = db.articles@;
    let ghost known = forall|k: int|
        0 <= k < entries@.len() ==> has_entry(before, feed_id@, #[trigger] entries@[k].entry_id@);
    let ghost mut list: Seq<Article> = Seq::empty();
    let mut i: usize = 0;
    while i < entries.len()
        invariant
            db.wf(),
            db.feeds@ == old(db).feeds@,
            db.settings@ == old(db).settings@,
            before == old(db).articles@,
            ids@.len() == entries@.len(),
            i <= entries@.len(),
            list.len() == i,
            are_entry_articles(list, entries@, ids@, feed_id@, now@),
            db.articles@ == upserted_all(before, list),
            known == forall|k: int|
                0 <= k < entries@.len() ==> has_entry(before, feed_id@, #[trigger] entries@[k].entry_id@),
            known ==> forall|k: int|
                0 <= k < entries@.len() ==> has_entry(db.articles@, feed_id@, #[trigger] entries@[k].entry_id@),
        decreases entries@.len() - i,
    {
        let a = entry_article(&entries[i], ids[i].as_str(), feed_id, now);
        let ghost prev = db.articles@;
        let res = upsert_article(db, &a);
        let ghost old_list = list;
        proof {
            if known {
                assert(has_entry(prev, feed_id@, entries@[i as int].entry_id@));
                assert forall|k: int|
                    0 <= k < entries@.len() implies has_entry(db.articles@, feed_id@, #[trigger] entries@[k].entry_id@) by {
                    if res is Ok {
                        lemma_upserted_keeps_entries(prev, a, feed_id@, entries@[k].entry_id@);
                    }
                }
            }
            list = list.push(a);
            assert(list.drop_last() =~= old_list);
            assert(list.last() == a);
        }
        match res {
            Ok(()) => {},
            Err(e) => {
                proof {
                    assert(are_entry_articles(list, entries@, ids@, feed_id@, now@));
                    assert(db.articles@ == prev);
                    assert(upsert_refused(db.feeds@, prev, a));
                    assert(prev == upserted_all(before, list.drop_last()));
                    assert(upsert_refused(old(db).feeds@, db.articles@, list.last()));
                    assert(stored_entries(
                        old(db).feeds@,
                        before,
                        db.articles@,
                        entries@,
                        ids@,
                        feed_id@,
                        now@,
                        false,
                    ));
                    if crate::db::has_feed(old(db).feeds@, feed_id@) && fresh_ids(ids@, before) {
                        lemma_fresh_ids_not_refused(old(db).feeds@, before, db.articles@, entries@, ids@, feed_id@, now@);
                    }
                }
                return Err(e);
            },
        }
        i = i + 1;
    }
    proof {
        assert(stored_entries(old(db).feeds@, before, db.articles@, entries@, ids@, feed_id@, now@, true));
        lemma_stored_entries_present(old(db).feeds@, before, db.articles@, entries@, ids@, feed_id@, now@);
    }
    Ok(())
}

} // verus!

verus! {

/// The message of a feed that is subscribed to already.
pub open spec fn feed_exists_message(url: Seq<char>) -> Seq<char> {
    "Feed already exists: "@ + url
}

/// Refuses an address that a stored feed has already.
pub fn check_new_feed_url(db: &Database, feed_url: &str) -> (r: Result<(), AppError>)
    requires
        db.wf(),
    ensures
        r is Ok <==> !has_url(db.feeds@, feed_url@),
        r matches Err(e) ==> (e matches AppError::Duplicate(m) && m@ == feed_exists_message(feed_url@)),
{
    match get_feed_by_url(db, feed_url) {
        Ok(Some(existing)) => Err(AppError::Duplicate(concat_str("Feed already exists: ", existing.url.as_str()))),
        Ok(None) => Ok(()),
        Err(e) => Err(e),
    }
}

/// `f` is the record of a feed fetched from `url` (with the validators
/// `etag` and `last_modified`) and read as `p`, under id `id`, at `now`.
pub open spec fn is_new_feed(
    f: Feed,
    p: ParsedFeed,
    url: Seq<char>,
    id: Seq<char>,
    now: Seq<char>,
    etag: Option<Seq<char>>,
    last_modified: Option<Seq<char>>,
) -> bool {
    &&& f.id@ == id
    &&& f.url@ == url
    &&& f.created_at@ == now
    &&& f.updated_at@ == now
    &&& opt_text(f.last_fetched_at) == Some(now)
    &&& opt_text(f.etag) == etag
    &&& opt_text(f.last_modified) == last_modified
    &&& has_details(f, p)
}

/// `f` carries the details of the document read as `p`.
pub open spec fn has_details(f: Feed, p: ParsedFeed) -> bool {
    &&& f.title@ == p.title@
    &&& opt_text(f.feed_type) == Some(p.feed_type@)
    &&& opt_text(f.site_url) == opt_text(p.site_url)
    &&& opt_text(f.description) == opt_text(p.description)
    &&& opt_text(f.icon_url) == opt_text(p.icon_url)
}

/// `f` carries the details `d` of a document fetched from `url`, as reading
/// it gives them.
pub open spec fn record_details(f: Feed, d: crate::feed::parser::DetailsOutline, url: Seq<char>) -> bool {
    &&& f.title@ == crate::feed::parser::or_text(d.title, url)
    &&& opt_text(f.feed_type) == Some(crate::feed::parser::kind_name(d.kind))
    &&& opt_text(f.site_url) == crate::feed::parser::first_of(d.links)
    &&& opt_text(f.description) == d.description
    &&& opt_text(f.icon_url) == crate::feed::parser::or_else(d.icon, d.logo)
}

/// The record of a new feed.
pub fn new_feed_record(
    p: &ParsedFeed,
    url: &str,
    id: &str,
    now: &str,
    etag: &Option<String>,
    last_modified: &Option<String>,
) -> (f: Feed)
    ensures
        is_new_feed(f, *p, url@, id@, now@, opt_text(*etag), opt_text(*last_modified)),
{
    Feed {
        id: id.to_string(),
        title: p.title.clone(),
        url: url.to_string(),
        feed_type: Some(p.feed_type.clone()),
        site_url: clone_opt(&p.site_url),
        description: clone_opt(&p.description),
        icon_url: clone_opt(&p.icon_url),
        created_at: now.to_string(),
        updated_at: now.to_string(),
        last_fetched_at: Some(now.to_string()),
        etag: clone_opt(etag),
        last_modified: clone_opt(last_modified),
    }
}

/// `f` is the record of a new feed fetched from `url` and read as `p`, under
/// id `feed_id` at `now`: refused, with nothing stored, where the id or the
/// address is taken; else `f` is stored and the entries of `p` are stored in
/// turn (with the ids `ids`), all where `r` is `Ok`, else up to the first the
/// store refused; `r` gives `f` where it is `Ok`.
pub open spec fn new_feed_outcome(
    f: Feed,
    p: ParsedFeed,
    url: Seq<char>,
    etag: Option<String>,
    last_modified: Option<String>,
    now: Seq<char>,
    feed_id: Seq<char>,
    ids: Seq<String>,
    before: Database,
    after: Database,
    r: Result<Feed, AppError>,
) -> bool {
    &&& is_new_feed(f, p, url, feed_id, now, opt_text(etag), opt_text(last_modified))
    &&& crate::db::has_feed(before.feeds@, feed_id) || has_url(before.feeds@, url) ==> (r is Err && after
        == before)
    &&& !crate::db::has_feed(before.feeds@, feed_id) && !has_url(before.feeds@, url) ==> {
        &&& after.feeds@ == before.feeds@.push(f)
        &&& stored_entries(after.feeds@, before.articles@, after.articles@, p.entries@, ids, feed_id, now, r is Ok)
    }
    &&& r matches Ok(g) ==> g == f
}

/// Stores a feed fetched from `url` and read as `p`, under id `feed_id` at
/// `now`, and its entries as articles with the ids `ids`. Refused, with
/// nothing stored, where the id or the address is taken; the entries are
/// stored in turn up to the first refused.
pub fn store_new_feed(
    db: &mut Database,
    p: &ParsedFeed,
    url: &str,
    etag: &Option<String>,
    last_modified: &Option<String>,
    now: &str,
    feed_id: &str,
    ids: &Vec<String>,
) -> (r: Result<Feed, AppError>)
    requires
        old(db).wf(),
        ids@.len() == p.entries@.len(),
    ensures
        final(db).wf(),
        final(db).settings@ == old(db).settings@,
        exists|f: Feed|
            #![trigger new_feed_outcome(f, *p, url@, *etag, *last_modified, now@, feed_id@, ids@, *old(db), *final(db), r)]
            new_feed_outcome(f, *p, url@, *etag, *last_modified, now@, feed_id@, ids@, *old(db), *final(db), r),
{
    let record = new_feed_record(p, url, feed_id, now, etag, last_modified);
    if let Err(e) = insert_feed(db, &record) {
        let r: Result<Feed, AppError> = Err(e);
        assert(new_feed_outcome(record, *p, url@, *etag, *last_modified, now@, feed_id@, ids@, *old(db), *db, r));
        return r;
    }
    let stored = store_entries(db, feed_id, &p.entries, ids, now);
    let r = match stored {
        Ok(()) => Ok(record.duplicate()),
        Err(e) => Err(e),
    };
    assert(new_feed_outcome(record, *p, url@, *etag, *last_modified, now@, feed_id@, ids@, *old(db), *db, r));
    r
}

/// Adds the feed at `feed_url` from what fetching it brought back: refused as
/// a duplicate where a stored feed has that address, and where nothing came
/// back or feed-rs cannot read it; else a record of the feed, under a new id
/// and the current time, is stored with its entries as new unread articles,
/// the entries in turn up to the first the store refuses; or, where the new id
/// is taken, nothing is stored.
pub fn add_feed(db: &mut Database, feed_url: &str, fetched: Option<FetchResult>) -> (r: Result<Feed, AppError>)
    requires
        old(db).wf(),
    ensures
        final(db).wf(),
        final(db).settings@ == old(db).settings@,
        has_url(old(db).feeds@, feed_url@) ==> (r matches Err(AppError::Duplicate(m)) && m@
            == feed_exists_message(feed_url@) && *final(db) == *old(db)),
        !has_url(old(db).feeds@, feed_url@) && fetched is None ==> (r matches Err(AppError::Other(m))
            && m@ == "No content returned from feed"@ && *final(db) == *old(db)),
        fetched matches Some(fr) ==> !has_url(old(db).feeds@, feed_url@) ==> if crate::feed::parser::reader_may_panic(fr.body@) {
            r matches Err(AppError::FeedParse(x)) && x@ == crate::feed::parser::unreadable_document()
                && *final(db) == *old(db)
        } else {
            match crate::feed::parser::parsed_document(fr.body@) {
            Err(m) => r matches Err(AppError::FeedParse(x)) && x@ == m && *final(db) == *old(db),
            Ok(o) => exists|f: Feed, p: ParsedFeed|
                #![trigger crate::feed::parser::reads_as(p, o, feed_url@), record_details(f, o.details, feed_url@)]
                {
                &&& crate::feed::parser::reads_as(p, o, feed_url@)
                &&& f.url@ == feed_url@
                &&& record_details(f, o.details, feed_url@)
                &&& opt_text(f.etag) == opt_text(fr.etag)
                &&& opt_text(f.last_modified) == opt_text(fr.last_modified)
                &&& f.updated_at@ == f.created_at@
                &&& opt_text(f.last_fetched_at) == Some(f.created_at@)
                &&& crate::db::has_feed(old(db).feeds@, f.id@) ==> r is Err && *final(db) == *old(db)
                &&& !crate::db::has_feed(old(db).feeds@, f.id@) ==> {
                    &&& final(db).feeds@ == old(db).feeds@.push(f)
                    &&& exists|ids: Seq<String>|
                        #![trigger stored_entries(final(db).feeds@, old(db).articles@, final(db).articles@, p.entries@, ids, f.id@, f.created_at@, r is Ok)]
                        stored_entries(
                            final(db).feeds@,
                            old(db).articles@,
                            final(db).articles@,
                            p.entries@,
                            ids,
                            f.id@,
                            f.created_at@,
                            r is Ok,
                        )
                }
                &&& r matches Ok(g) ==> g == f
                &&& !crate::db::has_feed(old(db).feeds@, f.id@)
                &&& r is Ok
                &&& forall|k: int|
                    0 <= k < o.entries.len() && (#[trigger] o.entries[k]).id is Some ==> has_entry(
                        final(db).articles@,
                        f.id@,
                        o.entries[k].id->Some_0,
                    )
            },
        }
        },
{
    check_new_feed_url(db, feed_url)?;
    let fr = match fetched {
        Some(fr) => fr,
        None => return Err(AppError::Other("No content returned from feed".to_string())),
    };
    let parsed = parse_feed(fr.body.as_slice(), feed_url)?;
    let now = utc_now_rfc3339();
    let feed_id = fresh_feed_id(&db.feeds);
    let ids = fresh_article_ids(&db.articles, parsed.entries.len());
    let r = store_new_feed(db, &parsed, feed_url, &fr.etag, &fr.last_modified, now.as_str(), feed_id.as_str(), &ids);
    proof {
        let o = crate::feed::parser::parsed_document(fr.body@)->Ok_0;
        let f = choose|f: Feed|
            new_feed_outcome(f, parsed, feed_url@, fr.etag, fr.last_modified, now@, feed_id@, ids@, *old(db), *final(db), r);
        assert(crate::feed::parser::reads_as(parsed, o, feed_url@));
        assert(record_details(f, o.details, feed_url@));
        assert(stored_entries(final(db).feeds@, old(db).articles@, final(db).articles@, parsed.entries@, ids@, f.id@, f.created_at@, r is Ok));
        assert(crate::db::feed_at(final(db).feeds@, f.id@, old(db).feeds@.len() as int));
        lemma_fresh_ids_not_refused(final(db).feeds@, old(db).articles@, final(db).articles@, parsed.entries@, ids@, f.id@, f.created_at@);
        assert(r is Ok);
        lemma_stored_entries_present(final(db).feeds@, old(db).articles@, final(db).articles@, parsed.entries@, ids@, f.id@, f.created_at@);
        assert forall|k: int|
            0 <= k < o.entries.len() && (#[trigger] o.entries[k]).id is Some implies has_entry(
            final(db).articles@,
            f.id@,
            o.entries[k].id->Some_0,
        ) by {
            assert(has_entry(final(db).articles@, f.id@, parsed.entries@[k].entry_id@));
        }
    }
    r
}

} // verus!

verus! {

/// `new` is the record of feed `id` (at `url`, added at `created_at`) after a
/// refresh that read its document as `p` at `now`, with the validators `etag`
/// and `last_modified`: the document's details and the new fetch time and
/// validators.
pub open spec fn is_refreshed(
    new: Feed,
    id: Seq<char>,
    url: Seq<char>,
    created_at: Seq<char>,
    p: ParsedFeed,
    now: Seq<char>,
    etag: Option<Seq<char>>,
    last_modified: Option<Seq<char>>,
) -> bool {
    &&& new.id@ == id
    &&& new.url@ == url
    &&& new.created_at@ == created_at
    &&& new.updated_at@ == now
    &&& opt_text(new.last_fetched_at) == Some(now)
    &&& opt_text(new.etag) == etag
    &&& opt_text(new.last_modified) == last_modified
    &&& has_details(new, p)
}

/// The record of `feed` after a refresh that read its document as `p`.
pub fn refreshed_record(
    feed: &Feed,
    p: &ParsedFeed,
    now: &str,
    etag: &Option<String>,
    last_modified: &Option<String>,
) -> (f: Feed)
    ensures
        is_refreshed(
            f,
            feed.id@,
            feed.url@,
            feed.created_at@,
            *p,
            now@,
            opt_text(*etag),
            opt_text(*last_modified),
        ),
{
    let mut f = feed.duplicate();
    f.title = p.title.clone();
    f.feed_type = Some(p.feed_type.clone());
    f.site_url = clone_opt(&p.site_url);
    f.description = clone_opt(&p.description);
    f.icon_url = clone_opt(&p.icon_url);
    f.updated_at = now.to_string();
    f.last_fetched_at = Some(now.to_string());
    f.etag = clone_opt(etag);
    f.last_modified = clone_opt(last_modified);
    f
}

/// The store went from (`feeds`, `articles`) to (`new_feeds`, `new_articles`)
/// by a refresh of `feed` whose document has the outline `o` and came with the
/// validators `etag` and `last_modified`: at some time `now`, the stored
/// record of the feed took the document's details and the new fetch time and
/// validators, every other feed stayed, and the document's entries were stored
/// in turn as articles of the feed (under some fresh ids), all of them where
/// `ok`, else up to the first that the store refused.
pub open spec fn refresh_done(
    feeds: Seq<Feed>,
    articles: Seq<Article>,
    new_feeds: Seq<Feed>,
    new_articles: Seq<Article>,
    feed: Feed,
    etag: Option<Seq<char>>,
    last_modified: Option<Seq<char>>,
    o: crate::feed::parser::FeedOutline,
    ok: bool,
) -> bool {
    exists|p: ParsedFeed, ids: Seq<String>, now: Seq<char>|
        #![trigger crate::feed::parser::reads_as(p, o, feed.url@), stored_entries(new_feeds, articles, new_articles, p.entries@, ids, feed.id@, now, ok)]
        {
            &&& crate::feed::parser::reads_as(p, o, feed.url@)
            &&& new_feeds.len() == feeds.len()
            &&& forall|i: int|
                0 <= i < feeds.len() && !crate::db::feed_at(feeds, feed.id@, i) ==> #[trigger] new_feeds[i]
                    == feeds[i]
            &&& forall|i: int|
                crate::db::feed_at(feeds, feed.id@, i) ==> is_refreshed(
                    #[trigger] new_feeds[i],
                    feed.id@,
                    feed.url@,
                    feeds[i].created_at@,
                    p,
                    now,
                    etag,
                    last_modified,
                )
            &&& stored_entries(new_feeds, articles, new_articles, p.entries@, ids, feed.id@, now, ok)
        }
}

/// The store refuses to update the record of feed `id` with the address
/// `url`: the feed is stored and another stored feed has that address.
pub open spec fn update_refused(feeds: Seq<Feed>, id: Seq<char>, url: Seq<char>) -> bool {
    exists|i: int, j: int| crate::db::feed_at(feeds, id, i) && crate::db::url_at(feeds, url, j) && j != i
}

/// Every entry of the outline `o` has an id of its own, under which feed
/// `feed_id` already has an article.
pub open spec fn entries_known(articles: Seq<Article>, feed_id: Seq<char>, o: crate::feed::parser::FeedOutline) -> bool {
    forall|i: int|
        0 <= i < o.entries.len() ==> ((#[trigger] o.entries[i]).id matches Some(x) && has_entry(
            articles,
            feed_id,
            x,
        ))
}

/// Refreshes `feed` from what fetching it brought back: nothing to do where
/// it had not changed; refused where feed-rs cannot read it; refused, with
/// nothing changed, where another stored feed has its address; else its record
/// (where it is stored) takes the document's details and the new fetch time
/// and validators, and its entries are stored in turn (new ones added, known
/// ones updated), up to the first the store refuses. Gives the number of
/// entries the document holds. Succeeds wherever every entry is one the feed
/// already has.
pub fn apply_refresh(db: &mut Database, feed: &Feed, fetched: Option<FetchResult>) -> (r: Result<u32, AppError>)
    requires
        old(db).wf(),
    ensures
        final(db).wf(),
        final(db).settings@ == old(db).settings@,
        fetched is None ==> r == Ok::<u32, AppError>(0) && *final(db) == *old(db),
        fetched matches Some(fr) ==> if crate::feed::parser::reader_may_panic(fr.body@) {
            r matches Err(AppError::FeedParse(x)) && x@ == crate::feed::parser::unreadable_document()
                && *final(db) == *old(db)
        } else {
            match crate::feed::parser::parsed_document(fr.body@) {
                Err(m) => r matches Err(AppError::FeedParse(x)) && x@ == m && *final(db) == *old(db),
                Ok(o) => {
                    &&& update_refused(old(db).feeds@, feed.id@, feed.url@) ==> (r matches Err(
                        AppError::Database(m),
                    ) && m@ == unique_failed("url"@) && *final(db) == *old(db))
                    &&& !update_refused(old(db).feeds@, feed.id@, feed.url@) ==> refresh_done(
                        old(db).feeds@,
                        old(db).articles@,
                        final(db).feeds@,
                        final(db).articles@,
                        *feed,
                        opt_text(fr.etag),
                        opt_text(fr.last_modified),
                        o,
                        r is Ok,
                    )
                    &&& r matches Ok(n) ==> n == o.entries.len() as u32
                    &&& !update_refused(old(db).feeds@, feed.id@, feed.url@) && entries_known(
                        old(db).articles@,
                        feed.id@,
                        o,
                    ) ==> r is Ok
                    &&& !update_refused(old(db).feeds@, feed.id@, feed.url@) && crate::db::has_feed(
                        old(db).feeds@,
                        feed.id@,
                    ) ==> r is Ok
                    &&& r is Ok ==> forall|k: int|
                        0 <= k < o.entries.len() && (#[trigger] o.entries[k]).id is Some ==> has_entry(
                            final(db).articles@,
                            feed.id@,
                            o.entries[k].id->Some_0,
                        )
                },
            }
        },
{
    let fr = match fetched {
        Some(fr) => fr,
        None => return Ok(0),
    };
    let parsed = parse_feed(fr.body.as_slice(), feed.url.as_str())?;
    let ghost o = crate::feed::parser::parsed_document(fr.body@)->Ok_0;
    let count = parsed.entries.len() as u32;
    let now = utc_now_rfc3339();
    let updated = refreshed_record(feed, &parsed, now.as_str(), &fr.etag, &fr.last_modified);
    proof {
        if update_refused(old(db).feeds@, feed.id@, feed.url@) {
            let (i, j) = choose|i: int, j: int|
                crate::db::feed_at(old(db).feeds@, feed.id@, i) && crate::db::url_at(old(db).feeds@, feed.url@, j)
                    && j != i;
            assert(crate::db::feed_at(old(db).feeds@, updated.id@, i));
            assert(crate::db::url_at(old(db).feeds@, updated.url@, j));
        }
    }
    let up = update_feed(db, &updated);
    if let Err(e) = up {
        proof {
            assert(crate::db::has_feed(old(db).feeds@, updated.id@));
            let i = choose|i: int| crate::db::feed_at(old(db).feeds@, updated.id@, i);
            let j = choose|j: int| crate::db::url_at(old(db).feeds@, updated.url@, j) && j != i;
            assert(crate::db::feed_at(old(db).feeds@, feed.id@, i) && crate::db::url_at(old(db).feeds@, feed.url@, j));
            assert(update_refused(old(db).feeds@, feed.id@, feed.url@));
        }
        return Err(e);
    }
    let ids = fresh_article_ids(&db.articles, parsed.entries.len());
    proof {
        assert(crate::feed::parser::reads_as(parsed, o, feed.url@));
        if crate::db::has_feed(old(db).feeds@, feed.id@) {
            let i = choose|i: int| crate::db::feed_at(old(db).feeds@, feed.id@, i);
            assert(crate::db::feed_at(db.feeds@, feed.id@, i));
        }
        if entries_known(old(db).articles@, feed.id@, o) {
            assert forall|k: int|
                0 <= k < parsed.entries@.len() implies has_entry(
                db.articles@,
                feed.id@,
                #[trigger] parsed.entries@[k].entry_id@,
            ) by {
                assert(o.entries[k].id is Some);
            }
        }
    }
    let stored = store_entries(db, feed.id.as_str(), &parsed.entries, &ids, now.as_str());
    proof {
        if stored is Ok {
            assert forall|k: int|
                0 <= k < o.entries.len() && (#[trigger] o.entries[k]).id is Some implies has_entry(
                db.articles@,
                feed.id@,
                o.entries[k].id->Some_0,
            ) by {
                assert(has_entry(db.articles@, feed.id@, parsed.entries@[k].entry_id@));
            }
        }
    }
    match stored {
        Ok(()) => Ok(count),
        Err(e) => Err(e),
    }
}

/// A refresh of every feed in turn, in the order of the feed list: the feeds,
/// which is next, and how many entries the refreshed ones held in all
/// (counted modulo 2^32).
pub struct RefreshAll {
    pub feeds: Vec<Feed>,
    pub next: usize,
    pub total: u32,
}

impl RefreshAll {
    /// A refresh of every stored feed, none refreshed yet.
    pub fn start(db: &Database) -> (r: Result<RefreshAll, AppError>)
        requires
            db.wf(),
        ensures
            r matches Ok(run) && crate::db::feed_repo::is_title_order(db.feeds@, run.feeds@)
                && run.next == 0 && run.total == 0,
    {
        let feeds = crate::db::feed_repo::list_feeds(db)?;
        Ok(RefreshAll { feeds, next: 0, total: 0 })
    }

    /// The feed to fetch next, if any is left.
    pub fn current(&self) -> (r: Option<Feed>)
        ensures
            self.next < self.feeds@.len() ==> r == Some(self.feeds@[self.next as int]),
            self.next >= self.feeds@.len() ==> r is None,
    {
        if self.next < self.feeds.len() {
            Some(self.feeds[self.next].duplicate())
        } else {
            None
        }
    }

    /// Applies what fetching the current feed brought back and moves on: as
    /// `apply_refresh` does it to the current feed, adding the number of its
    /// entries to the total. Where it is refused, nothing moves on.
    pub fn record(&mut self, db: &mut Database, fetched: Option<FetchResult>) -> (r: Result<(), AppError>)
        requires
            old(db).wf(),
            old(self).next < old(self).feeds@.len(),
        ensures
            final(db).wf(),
            final(db).settings@ == old(db).settings@,
            r is Ok ==> final(self).feeds@ == old(self).feeds@ && final(self).next == old(self).next + 1,
            r is Err ==> *final(self) == *old(self),
            fetched is None ==> r is Ok && final(self).total == old(self).total && *final(db) == *old(db),
            fetched matches Some(fr) ==> {
                let feed = old(self).feeds@[old(self).next as int];
                if crate::feed::parser::reader_may_panic(fr.body@) {
                    r matches Err(AppError::FeedParse(x)) && x@ == crate::feed::parser::unreadable_document()
                        && *final(db) == *old(db)
                } else {
                    match crate::feed::parser::parsed_document(fr.body@) {
                        Err(m) => r matches Err(AppError::FeedParse(x)) && x@ == m && *final(db) == *old(db),
                        Ok(o) => {
                            &&& update_refused(old(db).feeds@, feed.id@, feed.url@) ==> (r matches Err(
                                AppError::Database(m),
                            ) && m@ == unique_failed("url"@) && *final(db) == *old(db))
                            &&& !update_refused(old(db).feeds@, feed.id@, feed.url@) ==> refresh_done(
                                old(db).feeds@,
                                old(db).articles@,
                                final(db).feeds@,
                                final(db).articles@,
                                feed,
                                opt_text(fr.etag),
                                opt_text(fr.last_modified),
                                o,
                                r is Ok,
                            )
                            &&& r is Ok ==> final(self).total == (old(self).total + (o.entries.len() as u32))
                                % 4294967296
                            &&& !update_refused(old(db).feeds@, feed.id@, feed.url@) && entries_known(
                                old(db).articles@,
                                feed.id@,
                                o,
                            ) ==> r is Ok
                            &&& !update_refused(old(db).feeds@, feed.id@, feed.url@) && crate::db::has_feed(
                                old(db).feeds@,
                                feed.id@,
                            ) ==> r is Ok
                            &&& r is Ok ==> forall|k: int|
                                0 <= k < o.entries.len() && (#[trigger] o.entries[k]).id is Some ==> has_entry(
                                    final(db).articles@,
                                    feed.id@,
                                    o.entries[k].id->Some_0,
                                )
                        },
                    }
                }
            },
    {
        let len = self.feeds.len();
        let n = apply_refresh(db, &self.feeds[self.next], fetched)?;
        self.total = self.total.wrapping_add(n);
        self.next = self.next + 1;
        Ok(())
    }
}

} // verus!

verus! {

/// The Open Graph values that keeping `result` stores: its data's, or none.
pub open spec fn kept_ogp(result: crate::ogp::OgpResult) -> (Option<Seq<char>>, Option<Seq<char>>, Option<Seq<char>>) {
    match result.data {
        Some(d) => (opt_text(d.og_image_url), opt_text(d.og_image_local), opt_text(d.og_description)),
        None => (None, None, None),
    }
}

/// `row` is `before` with the Open Graph values that keeping `result`
/// stores, marked fetched; nothing else changed.
pub open spec fn ogp_kept(before: Article, row: Article, result: crate::ogp::OgpResult) -> bool {
    &&& row == Article {
        og_image_url: row.og_image_url,
        og_image_local: row.og_image_local,
        og_description: row.og_description,
        og_fetched: true,
        ..before
    }
    &&& (opt_text(row.og_image_url), opt_text(row.og_image_local), opt_text(row.og_description))
        == kept_ogp(result)
}

/// `row` is `before` but for its Open Graph values and mark.
pub open spec fn same_but_ogp(before: Article, row: Article) -> bool {
    row == Article {
        og_image_url: row.og_image_url,
        og_image_local: row.og_image_local,
        og_description: row.og_description,
        og_fetched: row.og_fetched,
        ..before
    }
}

/// The article table went from `before` to `after` by keeping `result`: the
/// row with the outcome's article id (not empty) took its values and was
/// marked fetched, every other row stayed; with no such row, nothing changed.
pub open spec fn one_kept(result: crate::ogp::OgpResult, before: Seq<Article>, after: Seq<Article>) -> bool {
    &&& result.article_id@.len() == 0 || !crate::db::has_article(before, result.article_id@) ==> after
        == before
    &&& forall|i: int|
        result.article_id@.len() > 0 && crate::db::article_at(before, result.article_id@, i) ==> {
            &&& after.len() == before.len()
            &&& forall|j: int| 0 <= j < before.len() && j != i ==> after[j] == before[j]
            &&& ogp_kept(before[i], #[trigger] after[i], result)
        }
}

/// Keeps the outcome of a fetch of Open Graph data: the article's data is
/// stored (none where the fetch failed) and it is marked fetched, so that a
/// broken page is not fetched again. An outcome for no article, or for an
/// article that is not stored, changes nothing.
pub fn persist_ogp_result(db: &mut Database, result: &crate::ogp::OgpResult)
    requires
        old(db).wf(),
    ensures
        final(db).wf(),
        final(db).feeds@ == old(db).feeds@,
        final(db).settings@ == old(db).settings@,
        one_kept(*result, old(db).articles@, final(db).articles@),
{
    if result.article_id.as_str().unicode_len() == 0 {
        return;
    }
    let _ = match &result.data {
        Some(d) => crate::db::article_repo::update_ogp(
            db,
            result.article_id.as_str(),
            crate::text::opt_as_str(&d.og_image_url),
            crate::text::opt_as_str(&d.og_image_local),
            crate::text::opt_as_str(&d.og_description),
        ),
        None => crate::db::article_repo::update_ogp(db, result.article_id.as_str(), None, None, None),
    };
}

/// Outcome `k` of `results` is for the article with id `id` (and names one).
pub open spec fn result_for(results: Seq<crate::ogp::OgpResult>, k: int, id: Seq<char>) -> bool {
    0 <= k < results.len() && results[k].article_id@.len() > 0 && results[k].article_id@ == id
}

/// Outcome `k` is the last of the first `n` of `results` for article `id`.
pub open spec fn last_result_for(results: Seq<crate::ogp::OgpResult>, n: int, k: int, id: Seq<char>) -> bool {
    &&& k < n
    &&& result_for(results, k, id)
    &&& forall|m: int| k < m < n ==> !#[trigger] result_for(results, m, id)
}

/// The article table went from `before` to `after` by keeping the first `n`
/// of `results` in turn: only Open Graph values and marks changed; a row with
/// no outcome among them is unchanged, and a row with some holds what the
/// last of them keeps, marked fetched.
pub open spec fn ogp_batch_kept(
    results: Seq<crate::ogp::OgpResult>,
    n: int,
    before: Seq<Article>,
    after: Seq<Article>,
) -> bool {
    &&& after.len() == before.len()
    &&& forall|i: int|
        #![trigger after[i]]
        0 <= i < before.len() ==> {
            &&& same_but_ogp(before[i], after[i])
            &&& (forall|k: int| 0 <= k < n ==> !#[trigger] result_for(results, k, before[i].id@)) ==> after[i]
                == before[i]
            &&& forall|k: int|
                #[trigger] last_result_for(results, n, k, before[i].id@) ==> ogp_kept(
                    before[i],
                    after[i],
                    results[k],
                )
        }
}

/// One more outcome kept extends a batch by it.
proof fn lemma_batch_step(
    results: Seq<crate::ogp::OgpResult>,
    k: int,
    before: Seq<Article>,
    prev: Seq<Article>,
    next: Seq<Article>,
)
    requires
        0 <= k < results.len(),
        ogp_batch_kept(results, k, before, prev),
        one_kept(results[k], prev, next),
    ensures
        ogp_batch_kept(results, k + 1, before, next),
{
    let x = results[k].article_id@;
    assert forall|i: int| 0 <= i < before.len() implies prev[i].id@ == before[i].id@ by {
        assert(same_but_ogp(before[i], prev[i]));
    }
    if x.len() > 0 && crate::db::has_article(prev, x) {
        let i0 = choose|i: int| crate::db::article_at(prev, x, i);
        assert(ogp_kept(prev[i0], next[i0], results[k]));
        assert(next.len() == prev.len());
        assert forall|i: int|
            #![trigger next[i]]
            0 <= i < before.len() implies {
            &&& same_but_ogp(before[i], next[i])
            &&& (forall|m: int| 0 <= m < k + 1 ==> !#[trigger] result_for(results, m, before[i].id@))
                ==> next[i] == before[i]
            &&& forall|m: int|
                #[trigger] last_result_for(results, k + 1, m, before[i].id@) ==> ogp_kept(
                    before[i],
                    next[i],
                    results[m],
                )
        } by {
            assert(prev[i] == before[i] || same_but_ogp(before[i], prev[i]));
            if before[i].id@ == x {
                assert(crate::db::article_at(prev, x, i));
                assert(ogp_kept(prev[i], next[i], results[k]));
                assert(result_for(results, k, before[i].id@));
                assert forall|m: int| #[trigger] last_result_for(results, k + 1, m, before[i].id@) implies m == k by {
                    if m < k {
                        assert(result_for(results, k, before[i].id@));
                    }
                }
            } else {
                assert(i != i0);
                assert(next[i] == prev[i]);
                assert(!result_for(results, k, before[i].id@));
                assert forall|m: int| #[trigger] last_result_for(results, k + 1, m, before[i].id@) implies last_result_for(
                    results,
                    k,
                    m,
                    before[i].id@,
                ) by {}
            }
        }
    } else {
        assert(next == prev);
        assert forall|i: int|
            #![trigger next[i]]
            0 <= i < before.len() implies {
            &&& same_but_ogp(before[i], next[i])
            &&& (forall|m: int| 0 <= m < k + 1 ==> !#[trigger] result_for(results, m, before[i].id@))
                ==> next[i] == before[i]
            &&& forall|m: int|
                #[trigger] last_result_for(results, k + 1, m, before[i].id@) ==> ogp_kept(
                    before[i],
                    next[i],
                    results[m],
                )
        } by {
            if x.len() > 0 && before[i].id@ == x {
                assert(crate::db::article_at(prev, x, i));
            }
            assert(!result_for(results, k, before[i].id@));
            assert forall|m: int| #[trigger] last_result_for(results, k + 1, m, before[i].id@) implies last_result_for(
                results,
                k,
                m,
                before[i].id@,
            ) by {}
        }
    }
}

/// Keeps the outcomes of a batch of Open Graph fetches, in turn: each article
/// with an outcome holds what its last outcome keeps and is marked fetched,
/// every other article is unchanged.
pub fn persist_ogp_results(db: &mut Database, results: &Vec<crate::ogp::OgpResult>)
    requires
        old(db).wf(),
    ensures
        final(db).wf(),
        final(db).feeds@ == old(db).feeds@,
        final(db).settings@ == old(db).settings@,
        ogp_batch_kept(results@, results@.len() as int, old(db).articles@, final(db).articles@),
{
    let ghost before = db.articles@;
    let mut k: usize = 0;
    while k < results.len()
        invariant
            db.wf(),
            db.feeds@ == old(db).feeds@,
            db.settings@ == old(db).settings@,
            before == old(db).articles@,
            k <= results@.len(),
            ogp_batch_kept(results@, k as int, before, db.articles@),
        decreases results@.len() - k,
    {
        let ghost prev = db.articles@;
        persist_ogp_result(db, &results[k]);
        proof {
            lemma_batch_step(results@, k as int, before, prev, db.articles@);
        }
        k = k + 1;
    }
}

/// Once the outcomes of a batch are kept, where every article that awaited
/// its Open Graph data among `ids` has an outcome in the batch, none awaits it
/// any more: listing them again gives nothing to fetch.
pub proof fn lemma_kept_batch_leaves_nothing_to_fetch(
    results: Seq<crate::ogp::OgpResult>,
    before: Seq<Article>,
    after: Seq<Article>,
    ids: Seq<String>,
)
    requires
        ogp_batch_kept(results, results.len() as int, before, after),
        forall|i: int|
            0 <= i < before.len() && crate::db::article_repo::awaits_ogp(ids, #[trigger] before[i]) ==> exists|
                k: int,
            | result_for(results, k, before[i].id@),
    ensures
        after.filter(|a: Article| crate::db::article_repo::awaits_ogp(ids, a)).len() == 0,
{
    let p = |a: Article| crate::db::article_repo::awaits_ogp(ids, a);
    assert forall|i: int| 0 <= i < after.len() implies !p(#[trigger] after[i]) by {
        assert(same_but_ogp(before[i], after[i]));
        if exists|k: int| result_for(results, k, before[i].id@) {
            let k0 = choose|k: int| result_for(results, k, before[i].id@);
            lemma_last_result_exists(results, results.len() as int, k0, before[i].id@);
            let k1 = choose|k: int| last_result_for(results, results.len() as int, k, before[i].id@);
            assert(ogp_kept(before[i], after[i], results[k1]));
        } else {
            assert(after[i] == before[i]);
        }
    }
    crate::db::article_repo::lemma_filter_none(after, p);
}

/// Where some of the first `n` outcomes is for article `id`, one of them is
/// the last.
proof fn lemma_last_result_exists(results: Seq<crate::ogp::OgpResult>, n: int, k: int, id: Seq<char>)
    requires
        k < n,
        result_for(results, k, id),
    ensures
        exists|m: int| last_result_for(results, n, m, id),
    decreases n - k,
{
    if exists|m: int| k < m < n && result_for(results, m, id) {
        let m = choose|m: int| k < m < n && result_for(results, m, id);
        lemma_last_result_exists(results, n, m, id);
    } else {
        assert(last_result_for(results, n, k, id));
    }
}

/// A page of the article listing, `limit` defaulting to 50 and `offset` to 0.
pub fn list_articles_page(
    db: &Database,
    feed_id: Option<&str>,
    date_from: Option<&str>,
    date_to: Option<&str>,
    limit: Option<i64>,
    offset: Option<i64>,
) -> (r: Result<Vec<Article>, AppError>)
    requires
        db.wf(),
    ensures
        r matches Ok(v) && crate::db::article_repo::is_article_page(
            db.feeds@,
            db.articles@,
            crate::text::opt_str(feed_id),
            crate::text::opt_str(date_from),
            crate::text::opt_str(date_to),
            match limit {
                Some(l) => l as int,
                None => 50,
            },
            match offset {
                Some(o) => o as int,
                None => 0,
            },
            v@,
        ),
{
    let l = match limit {
        Some(l) => l,
        None => 50,
    };
    let o = match offset {
        Some(o) => o,
        None => 0,
    };
    crate::db::article_repo::list_articles(db, feed_id, date_from, date_to, l, o)
}

} // verus!
