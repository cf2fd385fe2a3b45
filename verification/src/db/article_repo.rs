//! Reads and writes of the article table.

use vstd::prelude::*;

use crate::clock::utc_now_rfc3339;
use crate::db::{
    article_at, entry_at, feed_at, find_article, find_entry, find_feed, has_article, has_entry,
    has_feed, row_to_article, shown, Database,
};
use crate::error::{concat_str, AppError};
use crate::models::{Article, Feed};
use crate::sorting::{comes_before, is_sorted_permutation, sorted_positions, SortKey};
use crate::text::{
    bytes_less, bytes_lt, bytes_of, clone_opt, lemma_bytes_order, opt_str, opt_text, str_eq,
    text_lt,
};
use vstd::utf8::{encode_utf8, encode_utf8_decode_utf8};

verus! {

/// The message of a missing article.
pub open spec fn article_not_found(id: Seq<char>) -> Seq<char> {
    "Article not found: "@ + id
}

/// The row that inserting `a` stores: the columns of the table, so neither the
/// joined feed title nor the categories.
pub open spec fn stored(a: Article) -> Article {
    Article { feed_title: None, categories: None, ..a }
}

/// The row `row` after an upsert of `a` hits it: the entry's text columns are
/// replaced, the reading and OGP state is kept.
pub open spec fn merged(row: Article, a: Article) -> Article {
    Article {
        title: a.title,
        url: a.url,
        summary: a.summary,
        content: a.content,
        author: a.author,
        published_at: a.published_at,
        ..row
    }
}

/// The article table after an upsert of `a` that is not refused: the row of
/// the same feed and entry updated, or else `a` added.
pub open spec fn upserted(articles: Seq<Article>, a: Article) -> Seq<Article> {
    if has_entry(articles, a.feed_id@, a.entry_id@) {
        let i = choose|i: int| entry_at(articles, a.feed_id@, a.entry_id@, i);
        articles.update(i, merged(articles[i], a))
    } else {
        articles.push(stored(a))
    }
}

/// An upsert of `a` is refused: it would add a row whose id is taken or whose
/// feed is not stored.
pub open spec fn upsert_refused(feeds: Seq<Feed>, articles: Seq<Article>, a: Article) -> bool {
    !has_entry(articles, a.feed_id@, a.entry_id@) && (has_article(articles, a.id@) || !has_feed(
        feeds,
        a.feed_id@,
    ))
}

/// Inserts `a`, or, when its feed already has an article for the same entry,
/// updates that article's title, url, summary, content, author and
/// publication date. A new row is refused when its id is taken or its feed is
/// not stored.
pub fn upsert_article(db: &mut Database, a: &Article) -> (r: Result<(), AppError>)
    requires
        old(db).wf(),
    ensures
        final(db).wf(),
        final(db).feeds@ == old(db).feeds@,
        final(db).settings@ == old(db).settings@,
        r is Ok <==> !upsert_refused(old(db).feeds@, old(db).articles@, *a),
        r is Ok ==> final(db).articles@ == upserted(old(db).articles@, *a),
        forall|i: int|
            entry_at(old(db).articles@, a.feed_id@, a.entry_id@, i) ==> r is Ok
                && final(db).articles@ == old(db).articles@.update(i, merged(old(db).articles@[i], *a)),
        !has_entry(old(db).articles@, a.feed_id@, a.entry_id@) ==> {
            &&& (r is Ok <==> !has_article(old(db).articles@, a.id@) && has_feed(old(db).feeds@, a.feed_id@))
            &&& r is Ok ==> final(db).articles@ == old(db).articles@.push(stored(*a))
            &&& r is Err ==> final(db).articles@ == old(db).articles@
            &&& r matches Err(e) ==> has_article(old(db).articles@, a.id@) ==> (e matches AppError::Database(m)
                && m@ == "UNIQUE constraint failed: articles.id"@)
            &&& r matches Err(e) ==> !has_article(old(db).articles@, a.id@) ==> (e matches AppError::Database(m)
                && m@ == "FOREIGN KEY constraint failed"@)
        },
{
    let ghost old_articles = db.articles@;
    match find_entry(&db.articles, a.feed_id.as_str(), a.entry_id.as_str()) {
        Some(i) => {
            let mut row = db.articles[i].duplicate();
            row.title = a.title.clone();
            row.url = clone_opt(&a.url);
            row.summary = clone_opt(&a.summary);
            row.content = clone_opt(&a.content);
            row.author = clone_opt(&a.author);
            row.published_at = clone_opt(&a.published_at);
            db.articles.set(i, row);
            proof {
                let na = db.articles@;
                assert forall|x: int, y: int| 0 <= x < y < na.len() implies na[x].id@ != na[y].id@
                    && !(na[x].feed_id@ == na[y].feed_id@ && na[x].entry_id@ == na[y].entry_id@) by {
                    assert(old_articles[x].id@ != old_articles[y].id@);
                }
                assert forall|x: int| 0 <= x < na.len() implies has_feed(db.feeds@, #[trigger] na[x].feed_id@) by {
                    assert(has_feed(db.feeds@, old_articles[x].feed_id@));
                }
                assert forall|x: int| 0 <= x < na.len() implies (#[trigger] na[x]).feed_title is None
                    && na[x].categories is None by {
                    assert(old_articles[x].feed_title is None);
                }
                assert forall|k: int| entry_at(old_articles, a.feed_id@, a.entry_id@, k) implies k == i by {
                    if k < i {
                        assert(!(old_articles[k].feed_id@ == old_articles[i as int].feed_id@
                            && old_articles[k].entry_id@ == old_articles[i as int].entry_id@));
                    } else if k > i {
                        assert(!(old_articles[i as int].feed_id@ == old_articles[k].feed_id@
                            && old_articles[i as int].entry_id@ == old_articles[k].entry_id@));
                    }
                }
            }
            Ok(())
        },
        None => {
            if find_article(&db.articles, a.id.as_str()).is_some() {
                return Err(AppError::Database("UNIQUE constraint failed: articles.id".to_string()));
            }
            let f = find_feed(&db.feeds, a.feed_id.as_str());
            if f.is_none() {
                return Err(AppError::Database("FOREIGN KEY constraint failed".to_string()));
            }
            let mut row = a.duplicate();
            row.feed_title = None;
            row.categories = None;
            db.articles.push(row);
            proof {
                let na = db.articles@;
                assert forall|x: int, y: int| 0 <= x < y < na.len() implies na[x].id@ != na[y].id@
                    && !(na[x].feed_id@ == na[y].feed_id@ && na[x].entry_id@ == na[y].entry_id@) by {
                    if y == na.len() - 1 {
                        assert(!article_at(old_articles, a.id@, x));
                        assert(!entry_at(old_articles, a.feed_id@, a.entry_id@, x));
                    } else {
                        assert(old_articles[x].id@ != old_articles[y].id@);
                    }
                }
                assert forall|x: int| 0 <= x < na.len() implies has_feed(db.feeds@, #[trigger] na[x].feed_id@) by {
                    if x < old_articles.len() {
                        assert(has_feed(db.feeds@, old_articles[x].feed_id@));
                    } else {
                        assert(feed_at(db.feeds@, a.feed_id@, f.unwrap() as int));
                    }
                }
                assert forall|x: int| 0 <= x < na.len() implies (#[trigger] na[x]).feed_title is None
                    && na[x].categories is None by {
                    if x < old_articles.len() {
                        assert(old_articles[x].feed_title is None);
                    }
                }
            }
            Ok(())
        },
    }
}

/// The article with id `id`, with the title of its feed.
pub fn get_article_by_id(db: &Database, id: &str) -> (r: Result<Article, AppError>)
    requires
        db.wf(),
    ensures
        r is Ok <==> has_article(db.articles@, id@),
        r matches Ok(v) ==> exists|i: int|
            article_at(db.articles@, id@, i) && v == shown(db.feeds@, db.articles@[i]),
        r matches Err(e) ==> e matches AppError::NotFound(m) && m@ == article_not_found(id@),
{
    match find_article(&db.articles, id) {
        Some(i) => Ok(row_to_article(&db.feeds, &db.articles[i])),
        None => Err(AppError::NotFound(concat_str("Article not found: ", id))),
    }
}

/// Marks the article with id `id` read at the time `now`.
pub fn mark_as_read_at(db: &mut Database, id: &str, now: &str) -> (r: Result<(), AppError>)
    requires
        old(db).wf(),
    ensures
        final(db).wf(),
        final(db).feeds@ == old(db).feeds@,
        final(db).settings@ == old(db).settings@,
        r is Ok <==> has_article(old(db).articles@, id@),
        r is Err ==> final(db).articles@ == old(db).articles@,
        r matches Err(e) ==> e matches AppError::NotFound(m) && m@ == article_not_found(id@),
        forall|i: int|
            article_at(old(db).articles@, id@, i) ==> {
                &&& final(db).articles@.len() == old(db).articles@.len()
                &&& forall|j: int| 0 <= j < old(db).articles@.len() && j != i ==> final(db).articles@[j] == old(db).articles@[j]
                &&& final(db).articles@[i] == Article {
                    is_read: true,
                    read_at: final(db).articles@[i].read_at,
                    ..old(db).articles@[i]
                }
                &&& final(db).articles@[i].read_at matches Some(t) && t@ == now@
            },
{
    match find_article(&db.articles, id) {
        Some(i) => {
            let ghost old_articles = db.articles@;
            let mut row = db.articles[i].duplicate();
            row.is_read = true;
            row.read_at = Some(now.to_string());
            db.articles.set(i, row);
            proof {
                lemma_unique_article(old_articles, id@, i as int);
                lemma_same_keys_wf(db.feeds@, old_articles, db.articles@, db.settings@, i as int);
            }
            Ok(())
        },
        None => Err(AppError::NotFound(concat_str("Article not found: ", id))),
    }
}

/// Marks the article with id `id` read now.
pub fn mark_as_read(db: &mut Database, id: &str) -> (r: Result<(), AppError>)
    requires
        old(db).wf(),
    ensures
        final(db).wf(),
        final(db).feeds@ == old(db).feeds@,
        final(db).settings@ == old(db).settings@,
        r is Ok <==> has_article(old(db).articles@, id@),
        r is Err ==> final(db).articles@ == old(db).articles@,
        r matches Err(e) ==> e matches AppError::NotFound(m) && m@ == article_not_found(id@),
        forall|i: int|
            article_at(old(db).articles@, id@, i) ==> {
                &&& final(db).articles@.len() == old(db).articles@.len()
                &&& forall|j: int| 0 <= j < old(db).articles@.len() && j != i ==> final(db).articles@[j] == old(db).articles@[j]
                &&& final(db).articles@[i] == Article {
                    is_read: true,
                    read_at: final(db).articles@[i].read_at,
                    ..old(db).articles@[i]
                }
                &&& final(db).articles@[i].read_at is Some
                &&& final(db).articles@[i].read_at matches Some(t) && crate::clock::is_utc_time_text(t@)
            },
{
    let now = utc_now_rfc3339();
    mark_as_read_at(db, id, now.as_str())
}

/// With unique article ids, only row `i` has the id of row `i`.
pub proof fn lemma_unique_article(articles: Seq<Article>, id: Seq<char>, i: int)
    requires
        article_at(articles, id, i),
        forall|x: int, y: int| 0 <= x < y < articles.len() ==> articles[x].id@ != articles[y].id@,
    ensures
        forall|k: int| article_at(articles, id, k) ==> k == i,
{
    assert forall|k: int| article_at(articles, id, k) implies k == i by {
        if k < i {
            assert(articles[k].id@ != articles[i].id@);
        } else if k > i {
            assert(articles[i].id@ != articles[k].id@);
        }
    }
}

/// Changing one row without changing its id, feed, entry or its absent joined
/// columns keeps the schema's constraints.
pub proof fn lemma_same_keys_wf(
    feeds: Seq<crate::models::Feed>,
    old_articles: Seq<Article>,
    new_articles: Seq<Article>,
    settings: Seq<crate::db::Setting>,
    i: int,
)
    requires
        crate::db::tables_wf(feeds, old_articles, settings),
        0 <= i < old_articles.len(),
        new_articles.len() == old_articles.len(),
        forall|j: int| 0 <= j < old_articles.len() && j != i ==> new_articles[j] == old_articles[j],
        new_articles[i].id == old_articles[i].id,
        new_articles[i].feed_id == old_articles[i].feed_id,
        new_articles[i].entry_id == old_articles[i].entry_id,
        new_articles[i].feed_title is None,
        new_articles[i].categories is None,
    ensures
        crate::db::tables_wf(feeds, new_articles, settings),
{
    assert forall|x: int, y: int| 0 <= x < y < new_articles.len() implies new_articles[x].id@
        != new_articles[y].id@ && !(new_articles[x].feed_id@ == new_articles[y].feed_id@
        && new_articles[x].entry_id@ == new_articles[y].entry_id@) by {
        assert(old_articles[x].id@ != old_articles[y].id@);
    }
    assert forall|x: int| 0 <= x < new_articles.len() implies has_feed(feeds, #[trigger] new_articles[x].feed_id@) by {
        assert(has_feed(feeds, old_articles[x].feed_id@));
    }
    assert forall|x: int| 0 <= x < new_articles.len() implies (#[trigger] new_articles[x]).feed_title is None
        && new_articles[x].categories is None by {
        assert(old_articles[x].feed_title is None);
    }
}

} // verus!

verus! {

/// Records the OGP data of the article with id `article_id` and marks it fetched.
pub fn update_ogp(
    db: &mut Database,
    article_id: &str,
    og_image_url: Option<&str>,
    og_image_local: Option<&str>,
    og_description: Option<&str>,
) -> (r: Result<(), AppError>)
    requires
        old(db).wf(),
    ensures
        final(db).wf(),
        final(db).feeds@ == old(db).feeds@,
        final(db).settings@ == old(db).settings@,
        r is Ok <==> has_article(old(db).articles@, article_id@),
        r is Err ==> final(db).articles@ == old(db).articles@,
        r matches Err(e) ==> e matches AppError::NotFound(m) && m@ == article_not_found(article_id@),
        forall|i: int|
            article_at(old(db).articles@, article_id@, i) ==> {
                let row = final(db).articles@[i];
                &&& final(db).articles@.len() == old(db).articles@.len()
                &&& forall|j: int| 0 <= j < old(db).articles@.len() && j != i ==> final(db).articles@[j] == old(db).articles@[j]
                &&& row == Article {
                    og_image_url: row.og_image_url,
                    og_image_local: row.og_image_local,
                    og_description: row.og_description,
                    og_fetched: true,
                    ..old(db).articles@[i]
                }
                &&& crate::text::opt_text(row.og_image_url) == crate::text::opt_str(og_image_url)
                &&& crate::text::opt_text(row.og_image_local) == crate::text::opt_str(og_image_local)
                &&& crate::text::opt_text(row.og_description) == crate::text::opt_str(og_description)
            },
{
    match find_article(&db.articles, article_id) {
        Some(i) => {
            let ghost old_articles = db.articles@;
            let mut row = db.articles[i].duplicate();
            row.og_image_url = crate::text::to_opt_string(og_image_url);
            row.og_image_local = crate::text::to_opt_string(og_image_local);
            row.og_description = crate::text::to_opt_string(og_description);
            row.og_fetched = true;
            db.articles.set(i, row);
            proof {
                lemma_unique_article(old_articles, article_id@, i as int);
                lemma_same_keys_wf(db.feeds@, old_articles, db.articles@, db.settings@, i as int);
            }
            Ok(())
        },
        None => Err(AppError::NotFound(concat_str("Article not found: ", article_id))),
    }
}

/// An article among `ids` whose OGP data has not been fetched yet.
pub open spec fn awaits_ogp(ids: Seq<String>, a: Article) -> bool {
    crate::text::contains_text(ids, a.id@) && !a.og_fetched
}

/// The articles among `article_ids` whose OGP data has not been fetched, in the
/// order of the table, with the titles of their feeds.
pub fn list_unfetched_ogp_articles(db: &Database, article_ids: &[String]) -> (r: Result<Vec<Article>, AppError>)
    requires
        db.wf(),
    ensures
        r matches Ok(v) && v@ == db.articles@.filter(|a: Article| awaits_ogp(article_ids@, a)).map_values(
            |a: Article| shown(db.feeds@, a),
        ),
{
    let ghost pred = |a: Article| awaits_ogp(article_ids@, a);
    let ghost f = |a: Article| shown(db.feeds@, a);
    let n = db.articles.len();
    let mut out: Vec<Article> = Vec::new();
    if article_ids.len() == 0 {
        proof {
            assert forall|k: int| 0 <= k <= n implies #[trigger] db.articles@.take(k).filter(pred).len() == 0 by {
                lemma_filter_none(db.articles@.take(k), pred);
            }
            assert(db.articles@.take(n as int) =~= db.articles@);
            assert(out@ =~= db.articles@.filter(pred).map_values(f));
        }
        return Ok(out);
    }
    let mut k: usize = 0;
    while k < n
        invariant
            n == db.articles.len(),
            db.wf(),
            pred == (|a: Article| awaits_ogp(article_ids@, a)),
            f == (|a: Article| shown(db.feeds@, a)),
            k <= n,
            out@ == db.articles@.take(k as int).filter(pred).map_values(f),
        decreases n - k,
    {
        let keep = !db.articles[k].og_fetched && crate::text::list_contains(
            article_ids,
            db.articles[k].id.as_str(),
        );
        let ghost prev = out@;
        if keep {
            out.push(row_to_article(&db.feeds, &db.articles[k]));
        }
        proof {
            reveal(Seq::filter);
            let t1 = db.articles@.take(k + 1);
            assert(t1.drop_last() =~= db.articles@.take(k as int));
            assert(t1.last() == db.articles@[k as int]);
            assert(pred(db.articles@[k as int]) == keep);
            if keep {
                assert(t1.filter(pred) == t1.drop_last().filter(pred).push(t1.last()));
                assert(out@ =~= t1.filter(pred).map_values(f));
            } else {
                assert(t1.filter(pred) == t1.drop_last().filter(pred));
            }
        }
        k = k + 1;
    }
    proof {
        assert(db.articles@.take(n as int) =~= db.articles@);
    }
    Ok(out)
}

/// Nothing of a sequence passes a filter whose predicate keeps nothing of it.
pub proof fn lemma_filter_none(s: Seq<Article>, pred: spec_fn(Article) -> bool)
    requires
        forall|i: int| 0 <= i < s.len() ==> !pred(s[i]),
    ensures
        s.filter(pred).len() == 0,
    decreases s.len(),
{
    reveal(Seq::filter);
    if s.len() > 0 {
        lemma_filter_none(s.drop_last(), pred);
    }
}

} // verus!

verus! {

/// The date by which an article is filtered: its publication date, or, when it
/// has none, the time it was stored.
pub open spec fn effective_date(a: Article) -> Seq<char> {
    match a.published_at {
        Some(p) => p@,
        None => a.created_at@,
    }
}

/// Article `a` passes the listing's filters: it belongs to feed `feed_id`, and
/// its effective date is at or after `date_from` and before `date_to`, each
/// filter applying where it is given. Dates compare as text, byte by byte.
pub open spec fn passes_filters(
    a: Article,
    feed_id: Option<Seq<char>>,
    date_from: Option<Seq<char>>,
    date_to: Option<Seq<char>>,
) -> bool {
    &&& (feed_id matches Some(f) ==> a.feed_id@ == f)
    &&& (date_from matches Some(d) ==> !text_lt(effective_date(a), d))
    &&& (date_to matches Some(d) ==> text_lt(effective_date(a), d))
}

/// `a` is listed before `b` by its dates: the later publication date first,
/// articles without one after all that have one, then the later storage time
/// first.
pub open spec fn newer(a: Article, b: Article) -> bool {
    match (a.published_at, b.published_at) {
        (Some(x), Some(y)) => text_lt(y@, x@) || (x@ == y@ && text_lt(
            b.created_at@,
            a.created_at@,
        )),
        (Some(_), None) => true,
        (None, Some(_)) => false,
        (None, None) => text_lt(b.created_at@, a.created_at@),
    }
}

/// `a` and `b` have the same publication date and storage time.
pub open spec fn same_date(a: Article, b: Article) -> bool {
    opt_text(a.published_at) == opt_text(b.published_at) && a.created_at@ == b.created_at@
}

/// Row `i` of `articles` is listed before row `j`: it is newer, or it has the
/// same dates and is the earlier row.
pub open spec fn article_listed_before(articles: Seq<Article>, i: int, j: int) -> bool {
    newer(articles[i], articles[j]) || (same_date(articles[i], articles[j]) && i < j)
}

/// `p` holds, once each and in listing order, the positions of exactly the
/// rows of `articles` that pass the filters.
pub open spec fn is_listing_order(
    articles: Seq<Article>,
    feed_id: Option<Seq<char>>,
    date_from: Option<Seq<char>>,
    date_to: Option<Seq<char>>,
    p: Seq<usize>,
) -> bool {
    &&& forall|a: int|
        0 <= a < p.len() ==> p[a] < articles.len() && passes_filters(
            #[trigger] articles[p[a] as int],
            feed_id,
            date_from,
            date_to,
        )
    &&& forall|a: int, b: int| 0 <= a < b < p.len() ==> p[a] != p[b]
    &&& forall|i: int|
        0 <= i < articles.len() && #[trigger] passes_filters(articles[i], feed_id, date_from, date_to)
            ==> exists|a: int| 0 <= a < p.len() && p[a] == i
    &&& forall|a: int, b: int|
        0 <= a < b < p.len() ==> #[trigger] article_listed_before(articles, p[a] as int, p[b] as int)
}

/// Where a page starts in a listing of `n` rows: a negative offset counts as none.
pub open spec fn page_start(n: int, offset: int) -> int {
    if offset <= 0 {
        0
    } else if offset >= n {
        n
    } else {
        offset
    }
}

/// Where a page that starts at `start` ends in a listing of `n` rows: a
/// negative limit means no limit.
pub open spec fn page_end(n: int, start: int, limit: int) -> int {
    if limit < 0 || start + limit >= n {
        n
    } else {
        start + limit
    }
}

/// `r` is the page at `offset`, of at most `limit` rows, of the listing of the
/// articles that pass the filters, each with the title of its feed.
pub open spec fn is_article_page(
    feeds: Seq<Feed>,
    articles: Seq<Article>,
    feed_id: Option<Seq<char>>,
    date_from: Option<Seq<char>>,
    date_to: Option<Seq<char>>,
    limit: int,
    offset: int,
    r: Seq<Article>,
) -> bool {
    exists|p: Seq<usize>|
        #![trigger is_listing_order(articles, feed_id, date_from, date_to, p)]
        {
            let s = page_start(p.len() as int, offset);
            let e = page_end(p.len() as int, s, limit);
            &&& is_listing_order(articles, feed_id, date_from, date_to, p)
            &&& r == p.subrange(s, e).map_values(|i: usize| shown(feeds, articles[i as int]))
        }
}

/// The key by which articles are listed.
pub struct DateKey {
    /// The article has a publication date.
    pub dated: bool,
    /// The bytes of the publication date (none when there is no date).
    pub published: Vec<u8>,
    /// The bytes of the storage time.
    pub created: Vec<u8>,
}

impl SortKey for DateKey {
    open spec fn key_lt(&self, other: &Self) -> bool {
        (self.dated && !other.dated) || (self.dated == other.dated && (bytes_lt(
            other.published@,
            self.published@,
        ) || (other.published@ == self.published@ && bytes_lt(other.created@, self.created@))))
    }

    open spec fn key_eq(&self, other: &Self) -> bool {
        self.dated == other.dated && self.published@ == other.published@ && self.created@
            == other.created@
    }

    fn less_than(&self, other: &Self) -> (r: bool) {
        if self.dated != other.dated {
            return self.dated;
        }
        if bytes_less(other.published.as_slice(), self.published.as_slice()) {
            return true;
        }
        if bytes_less(self.published.as_slice(), other.published.as_slice()) {
            return false;
        }
        proof {
            lemma_bytes_order(self.published@, other.published@, self.published@);
        }
        bytes_less(other.created.as_slice(), self.created.as_slice())
    }

    proof fn lemma_total_order(a: &Self, b: &Self, c: &Self) {
        lemma_bytes_order(a.published@, b.published@, c.published@);
        lemma_bytes_order(b.published@, a.published@, c.published@);
        lemma_bytes_order(c.published@, b.published@, a.published@);
        lemma_bytes_order(a.created@, b.created@, c.created@);
        lemma_bytes_order(b.created@, a.created@, c.created@);
        lemma_bytes_order(c.created@, b.created@, a.created@);
    }
}

/// `k` is the listing key of article `a`.
pub open spec fn is_date_key(k: DateKey, a: Article) -> bool {
    &&& k.dated == a.published_at is Some
    &&& k.published@ == match a.published_at {
        Some(p) => encode_utf8(p@),
        None => Seq::empty(),
    }
    &&& k.created@ == encode_utf8(a.created_at@)
}

/// Keys order articles as `newer` and `same_date` do.
pub proof fn lemma_date_key(k1: DateKey, k2: DateKey, a1: Article, a2: Article)
    requires
        is_date_key(k1, a1),
        is_date_key(k2, a2),
    ensures
        k1.key_lt(&k2) == newer(a1, a2),
        k1.key_eq(&k2) == same_date(a1, a2),
{
    encode_utf8_decode_utf8(a1.created_at@);
    encode_utf8_decode_utf8(a2.created_at@);
    if let Some(x) = a1.published_at {
        encode_utf8_decode_utf8(x@);
    }
    if let Some(y) = a2.published_at {
        encode_utf8_decode_utf8(y@);
    }
}

/// The listing key of `a`.
pub fn date_key(a: &Article) -> (k: DateKey)
    ensures
        is_date_key(k, *a),
{
    match &a.published_at {
        Some(p) => DateKey { dated: true, published: bytes_of(p.as_str()), created: bytes_of(a.created_at.as_str()) },
        None => DateKey { dated: false, published: Vec::new(), created: bytes_of(a.created_at.as_str()) },
    }
}

/// Whether `a` passes the listing's filters.
pub fn check_filters(
    a: &Article,
    feed_id: Option<&str>,
    date_from: Option<&str>,
    date_to: Option<&str>,
) -> (r: bool)
    ensures
        r == passes_filters(*a, opt_str(feed_id), opt_str(date_from), opt_str(date_to)),
{
    if let Some(f) = feed_id {
        if !str_eq(a.feed_id.as_str(), f) {
            return false;
        }
    }
    let eff = match &a.published_at {
        Some(p) => bytes_of(p.as_str()),
        None => bytes_of(a.created_at.as_str()),
    };
    if let Some(d) = date_from {
        let db = bytes_of(d);
        if bytes_less(eff.as_slice(), db.as_slice()) {
            return false;
        }
    }
    if let Some(d) = date_to {
        let db = bytes_of(d);
        if !bytes_less(eff.as_slice(), db.as_slice()) {
            return false;
        }
    }
    true
}

/// Where a page starts in a listing of `n` rows.
pub fn page_bounds(n: usize, limit: i64, offset: i64) -> (r: (usize, usize))
    ensures
        r.0 == page_start(n as int, offset as int),
        r.1 == page_end(n as int, r.0 as int, limit as int),
{
    let start: usize = if offset <= 0 {
        0
    } else if offset as u64 >= n as u64 {
        n
    } else {
        offset as usize
    };
    let end: usize = if limit < 0 {
        n
    } else if limit as u64 >= (n - start) as u64 {
        n
    } else {
        start + limit as usize
    };
    (start, end)
}

/// The articles that pass the filters, newest first (by publication date, then
/// by storage time, then by row), the page at `offset` of at most `limit` of
/// them, each with the title of its feed. A negative `limit` means no limit,
/// a negative `offset` none.
pub fn list_articles(
    db: &Database,
    feed_id: Option<&str>,
    date_from: Option<&str>,
    date_to: Option<&str>,
    limit: i64,
    offset: i64,
) -> (r: Result<Vec<Article>, AppError>)
    requires
        db.wf(),
    ensures
        r matches Ok(v) && is_article_page(
            db.feeds@,
            db.articles@,
            opt_str(feed_id),
            opt_str(date_from),
            opt_str(date_to),
            limit as int,
            offset as int,
            v@,
        ),
{
    let ghost fid = opt_str(feed_id);
    let ghost dfrom = opt_str(date_from);
    let ghost dto = opt_str(date_to);
    let n = db.articles.len();
    let mut idx: Vec<usize> = Vec::new();
    let mut keys: Vec<DateKey> = Vec::new();
    let mut k: usize = 0;
    while k < n
        invariant
            n == db.articles.len(),
            fid == opt_str(feed_id),
            dfrom == opt_str(date_from),
            dto == opt_str(date_to),
            k <= n,
            idx.len() == keys.len(),
            forall|x: int| 0 <= x < idx.len() ==> idx@[x] < k,
            forall|x: int, y: int| 0 <= x < y < idx.len() ==> idx@[x] < idx@[y],
            forall|x: int|
                0 <= x < idx.len() ==> passes_filters(
                    #[trigger] db.articles@[idx@[x] as int],
                    fid,
                    dfrom,
                    dto,
                ),
            forall|x: int|
                0 <= x < idx.len() ==> is_date_key(#[trigger] keys@[x], db.articles@[idx@[x] as int]),
            forall|i: int|
                0 <= i < k && #[trigger] passes_filters(db.articles@[i], fid, dfrom, dto) ==> exists|x: int|
                    0 <= x < idx.len() && idx@[x] == i,
        decreases n - k,
    {
        if check_filters(&db.articles[k], feed_id, date_from, date_to) {
            let ghost before = idx@;
            idx.push(k);
            keys.push(date_key(&db.articles[k]));
            proof {
                assert forall|i: int|
                    0 <= i < k + 1 && #[trigger] passes_filters(db.articles@[i], fid, dfrom, dto) implies exists|x: int|
                    0 <= x < idx.len() && idx@[x] == i by {
                    if i == k {
                        assert(idx@[idx.len() - 1] == i);
                    } else {
                        let x = choose|x: int| 0 <= x < before.len() && before[x] == i;
                        assert(idx@[x] == i);
                    }
                }
            }
        }
        k = k + 1;
    }
    let q = sorted_positions(&keys);
    let m = idx.len();
    let ghost p: Seq<usize> = q@.map_values(|x: usize| idx@[x as int]);
    proof {
        lemma_listing_order(db.articles@, fid, dfrom, dto, idx@, keys@, q@, p);
    }
    let (start, end) = page_bounds(m, limit, offset);
    let mut out: Vec<Article> = Vec::new();
    let mut j: usize = start;
    while j < end
        invariant
            start <= j <= end,
            end <= m,
            m == idx.len(),
            q.len() == m,
            p.len() == m,
            db.wf(),
            forall|a: int| 0 <= a < m ==> q@[a] < m,
            forall|a: int| 0 <= a < m ==> #[trigger] p[a] == idx@[q@[a] as int],
            forall|x: int| 0 <= x < m ==> idx@[x] < db.articles.len(),
            out.len() == j - start,
            forall|t: int|
                0 <= t < out.len() ==> #[trigger] out@[t] == shown(db.feeds@, db.articles@[p[start + t] as int]),
        decreases end - j,
    {
        out.push(row_to_article(&db.feeds, &db.articles[idx[q[j]]]));
        j = j + 1;
    }
    proof {
        assert(out@ =~= p.subrange(start as int, end as int).map_values(
            |i: usize| shown(db.feeds@, db.articles@[i as int]),
        ));
    }
    Ok(out)
}

/// The positions `idx` of the rows that pass the filters, in table order, sorted
/// by their keys into `q`, give the listing order.
pub proof fn lemma_listing_order(
    articles: Seq<Article>,
    fid: Option<Seq<char>>,
    dfrom: Option<Seq<char>>,
    dto: Option<Seq<char>>,
    idx: Seq<usize>,
    keys: Seq<DateKey>,
    q: Seq<usize>,
    p: Seq<usize>,
)
    requires
        idx.len() == keys.len(),
        idx.len() <= usize::MAX,
        forall|x: int| 0 <= x < idx.len() ==> idx[x] < articles.len(),
        forall|x: int, y: int| 0 <= x < y < idx.len() ==> idx[x] < idx[y],
        forall|x: int|
            0 <= x < idx.len() ==> passes_filters(#[trigger] articles[idx[x] as int], fid, dfrom, dto),
        forall|x: int| 0 <= x < idx.len() ==> is_date_key(#[trigger] keys[x], articles[idx[x] as int]),
        forall|i: int|
            0 <= i < articles.len() && #[trigger] passes_filters(articles[i], fid, dfrom, dto) ==> exists|x: int|
                0 <= x < idx.len() && idx[x] == i,
        is_sorted_permutation(keys, q),
        p == q.map_values(|x: usize| idx[x as int]),
    ensures
        is_listing_order(articles, fid, dfrom, dto, p),
{
    assert forall|a: int| 0 <= a < p.len() implies p[a] < articles.len() && passes_filters(
        #[trigger] articles[p[a] as int],
        fid,
        dfrom,
        dto,
    ) by {
        assert(p[a] == idx[q[a] as int]);
    }
    assert forall|a: int, b: int| 0 <= a < b < p.len() implies p[a] != p[b] by {
        let x = q[a] as int;
        let y = q[b] as int;
        assert(x != y);
        if x < y {
            assert(idx[x] < idx[y]);
        } else {
            assert(idx[y] < idx[x]);
        }
    }
    assert forall|i: int|
        0 <= i < articles.len() && #[trigger] passes_filters(articles[i], fid, dfrom, dto) implies exists|a: int|
        0 <= a < p.len() && p[a] == i by {
        let x = choose|x: int| 0 <= x < idx.len() && idx[x] == i;
        assert(0 <= x < idx.len());
        let xu = x as usize;
        assert(xu as int == x);
        assert(q.contains(xu));
        let a = choose|a: int| 0 <= a < q.len() && q[a] == xu;
        assert(p[a] == idx[q[a] as int]);
        assert(p[a] == i);
    }
    assert forall|a: int, b: int| 0 <= a < b < p.len() implies #[trigger] article_listed_before(
        articles,
        p[a] as int,
        p[b] as int,
    ) by {
        let x = q[a] as int;
        let y = q[b] as int;
        assert(comes_before(keys, x, y));
        lemma_date_key(keys[x], keys[y], articles[idx[x] as int], articles[idx[y] as int]);
        if x < y {
            assert(idx[x] < idx[y]);
        } else if y < x {
            assert(idx[y] < idx[x]);
        }
    }
}

} // verus!

verus! {

/// Storing an entry twice keeps one row for it: in a table with one row per
/// feed and entry, after an upsert of `a` that was not refused, an upsert of
/// `b` for the same feed and entry is not refused either, adds no row, and
/// merges `b`'s texts into the entry's row.
pub proof fn lemma_upsert_same_entry_keeps_one_row(feeds: Seq<Feed>, articles: Seq<Article>, a: Article, b: Article)
    requires
        forall|x: int, y: int|
            0 <= x < y < articles.len() ==> !(articles[x].feed_id@ == articles[y].feed_id@
                && articles[x].entry_id@ == articles[y].entry_id@),
        !upsert_refused(feeds, articles, a),
        b.feed_id@ == a.feed_id@,
        b.entry_id@ == a.entry_id@,
    ensures
        has_entry(upserted(articles, a), a.feed_id@, a.entry_id@),
        !upsert_refused(feeds, upserted(articles, a), b),
        upserted(upserted(articles, a), b).len() == upserted(articles, a).len(),
        forall|i: int|
            entry_at(upserted(articles, a), b.feed_id@, b.entry_id@, i) ==> upserted(
                upserted(articles, a),
                b,
            ) == upserted(articles, a).update(i, merged(upserted(articles, a)[i], b)),
{
    let once = upserted(articles, a);
    let mut at: int = 0;
    if has_entry(articles, a.feed_id@, a.entry_id@) {
        let i = choose|i: int| entry_at(articles, a.feed_id@, a.entry_id@, i);
        assert(entry_at(once, a.feed_id@, a.entry_id@, i));
        at = i;
        assert forall|k: int| entry_at(once, a.feed_id@, a.entry_id@, k) implies k == i by {
            if k != i {
                assert(entry_at(articles, a.feed_id@, a.entry_id@, k));
                if k < i {
                    assert(!(articles[k].feed_id@ == articles[i].feed_id@ && articles[k].entry_id@
                        == articles[i].entry_id@));
                } else {
                    assert(!(articles[i].feed_id@ == articles[k].feed_id@ && articles[i].entry_id@
                        == articles[k].entry_id@));
                }
            }
        }
    } else {
        at = articles.len() as int;
        assert(entry_at(once, a.feed_id@, a.entry_id@, at));
        assert forall|k: int| entry_at(once, a.feed_id@, a.entry_id@, k) implies k == at by {
            if k != at {
                assert(entry_at(articles, a.feed_id@, a.entry_id@, k));
            }
        }
    }
}

/// An article whose Open Graph data has been kept is not listed for fetching
/// again: a row marked fetched never awaits its data.
pub proof fn lemma_fetched_article_not_listed(ids: Seq<String>, row: Article)
    requires
        row.og_fetched,
    ensures
        !awaits_ogp(ids, row),
{
}

} // verus!

verus! {

/// Of two articles, at most one is newer, and a newer one has other dates.
pub proof fn lemma_newer_asymmetric(a: Article, b: Article)
    ensures
        newer(a, b) ==> !newer(b, a) && !same_date(b, a),
{
    let ca = encode_utf8(a.created_at@);
    let cb = encode_utf8(b.created_at@);
    lemma_bytes_order(ca, cb, ca);
    lemma_bytes_order(cb, ca, cb);
    match (a.published_at, b.published_at) {
        (Some(x), Some(y)) => {
            lemma_bytes_order(encode_utf8(x@), encode_utf8(y@), encode_utf8(x@));
            lemma_bytes_order(encode_utf8(y@), encode_utf8(x@), encode_utf8(y@));
        },
        _ => {},
    }
}

/// The listing order is asymmetric: of two rows, at most one is listed
/// before the other.
pub proof fn lemma_listed_before_asymmetric(articles: Seq<Article>, i: int, j: int)
    ensures
        !(article_listed_before(articles, i, j) && article_listed_before(articles, j, i)),
{
    lemma_newer_asymmetric(articles[i], articles[j]);
    lemma_newer_asymmetric(articles[j], articles[i]);
}

/// Two listing orders of the same filters agree on their first `k` positions.
pub proof fn lemma_listing_prefix(
    articles: Seq<Article>,
    feed_id: Option<Seq<char>>,
    date_from: Option<Seq<char>>,
    date_to: Option<Seq<char>>,
    p: Seq<usize>,
    q: Seq<usize>,
    k: int,
)
    requires
        is_listing_order(articles, feed_id, date_from, date_to, p),
        is_listing_order(articles, feed_id, date_from, date_to, q),
        0 <= k <= p.len(),
        k <= q.len(),
    ensures
        forall|j: int| 0 <= j < k ==> p[j] == q[j],
    decreases k,
{
    if k > 0 {
        let t = k - 1;
        lemma_listing_prefix(articles, feed_id, date_from, date_to, p, q, t);
        if p[t] != q[t] {
            assert(passes_filters(articles[p[t] as int], feed_id, date_from, date_to));
            assert(passes_filters(articles[q[t] as int], feed_id, date_from, date_to));
            let m = choose|a: int| 0 <= a < q.len() && q[a] == p[t] as int;
            let n = choose|a: int| 0 <= a < p.len() && p[a] == q[t] as int;
            if m < t {
                assert(p[m] == q[m]);
                assert(p[m] != p[t]);
            }
            if n < t {
                assert(p[n] == q[n]);
                assert(q[n] != q[t]);
            }
            assert(article_listed_before(articles, q[t] as int, q[m] as int));
            assert(article_listed_before(articles, p[t] as int, p[n] as int));
            lemma_listed_before_asymmetric(articles, p[t] as int, q[t] as int);
        }
    }
}

/// The listing order of a set of filters is unique: the articles that pass
/// them are listed in one order only.
pub proof fn lemma_listing_unique(
    articles: Seq<Article>,
    feed_id: Option<Seq<char>>,
    date_from: Option<Seq<char>>,
    date_to: Option<Seq<char>>,
    p: Seq<usize>,
    q: Seq<usize>,
)
    requires
        is_listing_order(articles, feed_id, date_from, date_to, p),
        is_listing_order(articles, feed_id, date_from, date_to, q),
    ensures
        p == q,
{
    let n = if p.len() < q.len() {
        p.len() as int
    } else {
        q.len() as int
    };
    lemma_listing_prefix(articles, feed_id, date_from, date_to, p, q, n);
    if p.len() < q.len() {
        let x = q[n];
        assert(passes_filters(articles[x as int], feed_id, date_from, date_to));
        let j = choose|a: int| 0 <= a < p.len() && p[a] == x as int;
        assert(q[j] == p[j]);
    }
    if q.len() < p.len() {
        let x = p[n];
        assert(passes_filters(articles[x as int], feed_id, date_from, date_to));
        let j = choose|a: int| 0 <= a < q.len() && q[a] == x as int;
        assert(q[j] == p[j]);
    }
    assert(p =~= q);
}

/// Pages follow one another: for offsets and limits that are not negative,
/// the page of `a` rows at `offset` followed by the page of `b` rows at
/// `offset + a` is the page of `a + b` rows at `offset`.
pub proof fn lemma_pages_concatenate(
    feeds: Seq<Feed>,
    articles: Seq<Article>,
    feed_id: Option<Seq<char>>,
    date_from: Option<Seq<char>>,
    date_to: Option<Seq<char>>,
    offset: int,
    a: int,
    b: int,
    first: Seq<Article>,
    second: Seq<Article>,
    both: Seq<Article>,
)
    requires
        offset >= 0,
        a >= 0,
        b >= 0,
        is_article_page(feeds, articles, feed_id, date_from, date_to, a, offset, first),
        is_article_page(feeds, articles, feed_id, date_from, date_to, b, offset + a, second),
        is_article_page(feeds, articles, feed_id, date_from, date_to, a + b, offset, both),
    ensures
        both == first + second,
{
    let p1 = choose|p: Seq<usize>|
        #![trigger is_listing_order(articles, feed_id, date_from, date_to, p)]
        {
            let s = page_start(p.len() as int, offset);
            let e = page_end(p.len() as int, s, a);
            &&& is_listing_order(articles, feed_id, date_from, date_to, p)
            &&& first == p.subrange(s, e).map_values(|i: usize| shown(feeds, articles[i as int]))
        };
    let p2 = choose|p: Seq<usize>|
        #![trigger is_listing_order(articles, feed_id, date_from, date_to, p)]
        {
            let s = page_start(p.len() as int, offset + a);
            let e = page_end(p.len() as int, s, b);
            &&& is_listing_order(articles, feed_id, date_from, date_to, p)
            &&& second == p.subrange(s, e).map_values(|i: usize| shown(feeds, articles[i as int]))
        };
    let p3 = choose|p: Seq<usize>|
        #![trigger is_listing_order(articles, feed_id, date_from, date_to, p)]
        {
            let s = page_start(p.len() as int, offset);
            let e = page_end(p.len() as int, s, a + b);
            &&& is_listing_order(articles, feed_id, date_from, date_to, p)
            &&& both == p.subrange(s, e).map_values(|i: usize| shown(feeds, articles[i as int]))
        };
    lemma_listing_unique(articles, feed_id, date_from, date_to, p1, p2);
    lemma_listing_unique(articles, feed_id, date_from, date_to, p1, p3);
    let n = p1.len() as int;
    let s = page_start(n, offset);
    let m = page_end(n, s, a);
    let e = page_end(n, s, a + b);
    assert(page_start(n, offset + a) == m);
    assert(page_end(n, m, b) == e);
    assert(p1.subrange(s, e) =~= p1.subrange(s, m) + p1.subrange(m, e));
    let f = |i: usize| shown(feeds, articles[i as int]);
    assert(p1.subrange(s, e).map_values(f) =~= p1.subrange(s, m).map_values(f) + p1.subrange(
        m,
        e,
    ).map_values(f));
}

} // verus!

verus! {

/// An article that was added reads back as it was stored: after an upsert of
/// `a` for an entry its feed did not have, that was not refused, the table has
/// a row with `a`'s id, and it is `a` as stored (without the joined title and
/// categories).
pub proof fn lemma_added_article_is_found(feeds: Seq<Feed>, articles: Seq<Article>, a: Article)
    requires
        !upsert_refused(feeds, articles, a),
        !has_entry(articles, a.feed_id@, a.entry_id@),
    ensures
        has_article(upserted(articles, a), a.id@),
        forall|i: int| article_at(upserted(articles, a), a.id@, i) ==> upserted(articles, a)[i] == stored(a),
{
    let after = upserted(articles, a);
    assert(article_at(after, a.id@, articles.len() as int));
    assert forall|i: int| article_at(after, a.id@, i) implies after[i] == stored(a) by {
        if i < articles.len() {
            assert(article_at(articles, a.id@, i));
        }
    }
}

} // verus!
