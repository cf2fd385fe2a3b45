//! Reads and writes of the feed table.

use vstd::prelude::*;

use crate::db::{
    feed_at, has_feed, has_url, the_feed, url_at, find_feed, find_feed_url,
    Database,
};
use crate::error::{concat_str, AppError};
use crate::models::{Article, Feed};
use crate::sorting::{is_sorted_permutation, sorted_positions, SortKey};
use crate::text::{bytes_less, bytes_lt, bytes_of, lemma_bytes_order, text_lt};
use vstd::utf8::encode_utf8;

verus! {

/// The message of a missing feed.
pub open spec fn feed_not_found(id: Seq<char>) -> Seq<char> {
    "Feed not found: "@ + id
}

/// The message of a unique constraint of the feed table.
pub open spec fn unique_failed(column: Seq<char>) -> Seq<char> {
    "UNIQUE constraint failed: feeds."@ + column
}

/// A feed present in `feeds` is present in `feeds` with one more row.
pub proof fn lemma_has_feed_push(feeds: Seq<Feed>, f: Feed, id: Seq<char>)
    requires
        has_feed(feeds, id),
    ensures
        has_feed(feeds.push(f), id),
{
    let i = choose|i: int| feed_at(feeds, id, i);
    assert(feed_at(feeds.push(f), id, i));
}

/// Adds `feed` as a new row; refused when its id or its url is taken.
pub fn insert_feed(db: &mut Database, feed: &Feed) -> (r: Result<(), AppError>)
    requires
        old(db).wf(),
    ensures
        final(db).wf(),
        r is Ok <==> !has_feed(old(db).feeds@, feed.id@) && !has_url(old(db).feeds@, feed.url@),
        r is Ok ==> final(db).feeds@ == old(db).feeds@.push(*feed),
        r is Ok ==> final(db).articles@ == old(db).articles@,
        r is Ok ==> final(db).settings@ == old(db).settings@,
        r is Err ==> *final(db) == *old(db),
        r matches Err(e) ==> has_feed(old(db).feeds@, feed.id@) ==> (e matches AppError::Database(m)
            && m@ == unique_failed("id"@)),
        r matches Err(e) ==> !has_feed(old(db).feeds@, feed.id@) ==> (e matches AppError::Database(
            m,
        ) && m@ == unique_failed("url"@)),
{
    if find_feed(&db.feeds, feed.id.as_str()).is_some() {
        return Err(AppError::Database(concat_str("UNIQUE constraint failed: feeds.", "id")));
    }
    if find_feed_url(&db.feeds, feed.url.as_str()).is_some() {
        return Err(AppError::Database(concat_str("UNIQUE constraint failed: feeds.", "url")));
    }
    let ghost old_feeds = db.feeds@;
    db.feeds.push(feed.duplicate());
    proof {
        assert forall|i: int| 0 <= i < old_feeds.len() implies old_feeds[i].id@ != feed.id@
            && old_feeds[i].url@ != feed.url@ by {
            assert(!feed_at(old_feeds, feed.id@, i));
            assert(!url_at(old_feeds, feed.url@, i));
        }
        assert forall|i: int| 0 <= i < db.articles@.len() implies has_feed(
            db.feeds@,
            #[trigger] db.articles@[i].feed_id@,
        ) by {
            lemma_has_feed_push(old_feeds, *feed, db.articles@[i].feed_id@);
        }
    }
    Ok(())
}

/// The feed with id `id`.
pub fn get_feed_by_id(db: &Database, id: &str) -> (r: Result<Feed, AppError>)
    requires
        db.wf(),
    ensures
        r is Ok <==> has_feed(db.feeds@, id@),
        r matches Ok(f) ==> f == the_feed(db.feeds@, id@),
        r matches Err(e) ==> e matches AppError::NotFound(m) && m@ == feed_not_found(id@),
{
    match find_feed(&db.feeds, id) {
        Some(i) => {
            proof {
                lemma_the_feed(db.feeds@, id@, i as int);
            }
            Ok(db.feeds[i].duplicate())
        },
        None => Err(AppError::NotFound(concat_str("Feed not found: ", id))),
    }
}

/// With unique ids, `the_feed` is the row that has the id.
pub proof fn lemma_the_feed(feeds: Seq<Feed>, id: Seq<char>, i: int)
    requires
        feed_at(feeds, id, i),
        forall|a: int, b: int| 0 <= a < b < feeds.len() ==> feeds[a].id@ != feeds[b].id@,
    ensures
        the_feed(feeds, id) == feeds[i],
{
    let c = choose|k: int| feed_at(feeds, id, k);
    assert(feed_at(feeds, id, c));
    if c != i {
        if c < i {
            assert(feeds[c].id@ != feeds[i].id@);
        } else {
            assert(feeds[i].id@ != feeds[c].id@);
        }
    }
}

/// The feed with url `url`, if any.
pub fn get_feed_by_url(db: &Database, url: &str) -> (r: Result<Option<Feed>, AppError>)
    requires
        db.wf(),
    ensures
        r matches Ok(o) && (o is Some <==> has_url(db.feeds@, url@)),
        r matches Ok(Some(f)) ==> exists|i: int| url_at(db.feeds@, url@, i) && f == db.feeds@[i],
{
    match find_feed_url(&db.feeds, url) {
        Some(i) => Ok(Some(db.feeds[i].duplicate())),
        None => Ok(None),
    }
}

/// The key by which feeds are listed: the bytes of the title.
pub struct TitleKey {
    pub bytes: Vec<u8>,
}

impl SortKey for TitleKey {
    open spec fn key_lt(&self, other: &Self) -> bool {
        bytes_lt(self.bytes@, other.bytes@)
    }

    open spec fn key_eq(&self, other: &Self) -> bool {
        self.bytes@ == other.bytes@
    }

    fn less_than(&self, other: &Self) -> (r: bool) {
        bytes_less(self.bytes.as_slice(), other.bytes.as_slice())
    }

    proof fn lemma_total_order(a: &Self, b: &Self, c: &Self) {
        lemma_bytes_order(a.bytes@, b.bytes@, c.bytes@);
        lemma_bytes_order(b.bytes@, a.bytes@, c.bytes@);
        lemma_bytes_order(b.bytes@, c.bytes@, a.bytes@);
    }
}

/// Row `i` of `feeds` is listed before row `j`: a smaller title, or the same
/// title and an earlier row.
pub open spec fn feed_listed_before(feeds: Seq<Feed>, i: int, j: int) -> bool {
    text_lt(feeds[i].title@, feeds[j].title@) || (feeds[i].title@ == feeds[j].title@ && i < j)
}

/// `r` is `feeds` in title order.
pub open spec fn is_title_order(feeds: Seq<Feed>, r: Seq<Feed>) -> bool {
    exists|p: Seq<usize>|
        {
            &&& p.len() == feeds.len()
            &&& r.len() == feeds.len()
            &&& forall|a: int| 0 <= a < p.len() ==> p[a] < feeds.len() && r[a] == feeds[p[a] as int]
            &&& forall|a: int, b: int| 0 <= a < b < p.len() ==> p[a] != p[b]
            &&& forall|a: int, b: int|
                0 <= a < b < p.len() ==> feed_listed_before(feeds, p[a] as int, p[b] as int)
        }
}

/// Every feed, ordered by title.
pub fn list_feeds(db: &Database) -> (r: Result<Vec<Feed>, AppError>)
    requires
        db.wf(),
    ensures
        r matches Ok(v) && is_title_order(db.feeds@, v@),
{
    let n = db.feeds.len();
    let mut keys: Vec<TitleKey> = Vec::new();
    let mut i: usize = 0;
    while i < n
        invariant
            n == db.feeds.len(),
            i <= n,
            keys.len() == i,
            forall|k: int| 0 <= k < i ==> keys@[k].bytes@ == encode_utf8(#[trigger] db.feeds@[k].title@),
        decreases n - i,
    {
        keys.push(TitleKey { bytes: bytes_of(db.feeds[i].title.as_str()) });
        i = i + 1;
    }
    let p = sorted_positions(&keys);
    let mut out: Vec<Feed> = Vec::new();
    let mut k: usize = 0;
    while k < n
        invariant
            n == db.feeds.len(),
            p.len() == n,
            k <= n,
            is_sorted_permutation(keys@, p@),
            out.len() == k,
            forall|a: int| 0 <= a < k ==> out@[a] == db.feeds@[p@[a] as int],
        decreases n - k,
    {
        out.push(db.feeds[p[k]].duplicate());
        k = k + 1;
    }
    proof {
        assert forall|a: int, b: int| 0 <= a < b < p@.len() implies feed_listed_before(
            db.feeds@,
            p@[a] as int,
            p@[b] as int,
        ) by {
            assert(crate::sorting::comes_before(keys@, p@[a] as int, p@[b] as int));
            let x = db.feeds@[p@[a] as int].title@;
            let y = db.feeds@[p@[b] as int].title@;
            assert(keys@[p@[a] as int].bytes@ == encode_utf8(x));
            assert(keys@[p@[b] as int].bytes@ == encode_utf8(y));
            if encode_utf8(x) == encode_utf8(y) {
                vstd::utf8::encode_utf8_decode_utf8(x);
                vstd::utf8::encode_utf8_decode_utf8(y);
            }
        }
        assert(is_title_order(db.feeds@, out@));
    }
    Ok(out)
}

/// Rewrites the row whose id is `feed.id` with the fields of `feed` (all but
/// `id` and `created_at`); no row has that id: nothing changes. Refused when the
/// new url is another row's.
pub fn update_feed(db: &mut Database, feed: &Feed) -> (r: Result<(), AppError>)
    requires
        old(db).wf(),
    ensures
        final(db).wf(),
        final(db).articles@ == old(db).articles@,
        final(db).settings@ == old(db).settings@,
        !has_feed(old(db).feeds@, feed.id@) ==> r is Ok && final(db).feeds@ == old(db).feeds@,
        r is Err ==> *final(db) == *old(db),
        forall|i: int|
            feed_at(old(db).feeds@, feed.id@, i) ==> {
                let taken = exists|j: int| url_at(old(db).feeds@, feed.url@, j) && j != i;
                &&& (r is Ok <==> !taken)
                &&& r is Ok ==> final(db).feeds@ == old(db).feeds@.update(
                    i,
                    Feed { id: old(db).feeds@[i].id, created_at: old(db).feeds@[i].created_at, ..*feed },
                )
                &&& r is Err ==> final(db).feeds@ == old(db).feeds@
                &&& r matches Err(e) ==> e matches AppError::Database(m) && m@ == unique_failed("url"@)
            },
{
    let i = match find_feed(&db.feeds, feed.id.as_str()) {
        Some(i) => i,
        None => {
            return Ok(());
        },
    };
    proof {
        assert forall|k: int| feed_at(old(db).feeds@, feed.id@, k) implies k == i by {
            if k < i {
                assert(old(db).feeds@[k].id@ != old(db).feeds@[i as int].id@);
            } else if k > i {
                assert(old(db).feeds@[i as int].id@ != old(db).feeds@[k].id@);
            }
        }
    }
    let mut j: usize = 0;
    while j < db.feeds.len()
        invariant
            *db == *old(db),
            db.feeds@ == old(db).feeds@,
            db.articles@ == old(db).articles@,
            db.settings@ == old(db).settings@,
            old(db).wf(),
            feed_at(old(db).feeds@, feed.id@, i as int),
            i < db.feeds.len(),
            j <= db.feeds.len(),
            forall|k: int| 0 <= k < j && k != i ==> db.feeds@[k].url@ != feed.url@,
        decreases db.feeds.len() - j,
    {
        if j != i && crate::text::str_eq(db.feeds[j].url.as_str(), feed.url.as_str()) {
            proof {
                assert(url_at(db.feeds@, feed.url@, j as int));
            }
            return Err(AppError::Database(concat_str("UNIQUE constraint failed: feeds.", "url")));
        }
        j = j + 1;
    }
    let ghost old_feeds = db.feeds@;
    let mut row = feed.duplicate();
    row.id = db.feeds[i].id.clone();
    row.created_at = db.feeds[i].created_at.clone();
    db.feeds.set(i, row);
    proof {
        assert forall|a: int, b: int| 0 <= a < b < db.feeds@.len() implies db.feeds@[a].id@
            != db.feeds@[b].id@ && db.feeds@[a].url@ != db.feeds@[b].url@ by {
            assert(old_feeds[a].id@ != old_feeds[b].id@);
        }
        assert forall|k: int| 0 <= k < db.articles@.len() implies has_feed(
            db.feeds@,
            #[trigger] db.articles@[k].feed_id@,
        ) by {
            let id = db.articles@[k].feed_id@;
            let w = choose|w: int| feed_at(old_feeds, id, w);
            assert(feed_at(db.feeds@, id, w));
        }
    }
    Ok(())
}

} // verus!

verus! {

/// Removes the feed with id `id` and, by the cascade of the schema, every
/// article of that feed.
pub fn delete_feed(db: &mut Database, id: &str) -> (r: Result<(), AppError>)
    requires
        old(db).wf(),
    ensures
        final(db).wf(),
        r is Ok <==> has_feed(old(db).feeds@, id@),
        r is Ok ==> exists|i: int|
            feed_at(old(db).feeds@, id@, i) && final(db).feeds@ == old(db).feeds@.remove(i),
        r is Ok ==> final(db).articles@ == without_feed(old(db).articles@, id@),
        r is Ok ==> final(db).settings@ == old(db).settings@,
        r is Err ==> *final(db) == *old(db),
        r matches Err(e) ==> e matches AppError::NotFound(m) && m@ == feed_not_found(id@),
{
    let i = match find_feed(&db.feeds, id) {
        Some(i) => i,
        None => {
            return Err(AppError::NotFound(concat_str("Feed not found: ", id)));
        },
    };
    let ghost pred = |a: Article| a.feed_id@ != id@;
    let ghost old_feeds = db.feeds@;
    let ghost old_articles = db.articles@;
    let n = db.articles.len();
    let mut kept: Vec<Article> = Vec::new();
    let ghost mut idx: Seq<int> = Seq::empty();
    let mut k: usize = 0;
    while k < n
        invariant
            n == db.articles.len(),
            db.articles@ == old_articles,
            pred == (|a: Article| a.feed_id@ != id@),
            k <= n,
            kept@ == old_articles.take(k as int).filter(pred),
            kept@.len() == idx.len(),
            forall|t: int| 0 <= t < idx.len() ==> 0 <= #[trigger] idx[t] < k,
            forall|t: int| 0 <= t < idx.len() ==> #[trigger] kept@[t] == old_articles[idx[t]],
            forall|t1: int, t2: int| 0 <= t1 < t2 < idx.len() ==> idx[t1] < idx[t2],
            forall|t: int| 0 <= t < kept@.len() ==> (#[trigger] kept@[t]).feed_id@ != id@,
        decreases n - k,
    {
        let keep = !crate::text::str_eq(db.articles[k].feed_id.as_str(), id);
        let ghost prev_kept = kept@;
        if keep {
            let row = db.articles[k].duplicate();
            assert(row == old_articles[k as int]);
            kept.push(row);
            proof {
                let old_idx = idx;
                idx = idx.push(k as int);
                assert(kept@ == prev_kept.push(old_articles[k as int]));
                assert forall|t: int| 0 <= t < old_idx.len() implies idx[t] == old_idx[t]
                    && kept@[t] == prev_kept[t] by {}
                assert(idx[old_idx.len() as int] == k);
                assert(kept@[old_idx.len() as int] == old_articles[k as int]);
            }
        }
        proof {
            reveal(Seq::filter);
            let t1 = old_articles.take(k + 1);
            assert(t1.drop_last() =~= old_articles.take(k as int));
            assert(t1.last() == old_articles[k as int]);
            assert(keep == (old_articles[k as int].feed_id@ != id@));
            assert(pred(old_articles[k as int]) == (old_articles[k as int].feed_id@ != id@));
            assert(t1.filter(pred) == if pred(t1.last()) {
                t1.drop_last().filter(pred).push(t1.last())
            } else {
                t1.drop_last().filter(pred)
            });
            assert forall|t: int| 0 <= t < idx.len() implies 0 <= idx[t] < k + 1 && kept@[t]
                == old_articles[idx[t]] by {
                if t < prev_kept.len() {
                    assert(kept@[t] == prev_kept[t]);
                }
            }
        }
        k = k + 1;
    }
    proof {
        assert(old_articles.take(n as int) =~= old_articles);
    }
    db.feeds.remove(i);
    db.articles = kept;
    proof {
        let nf = db.feeds@;
        assert forall|a: int, b: int| 0 <= a < b < nf.len() implies nf[a].id@ != nf[b].id@
            && nf[a].url@ != nf[b].url@ by {
            let oa = if a < i { a } else { a + 1 };
            let ob = if b < i { b } else { b + 1 };
            assert(nf[a] == old_feeds[oa] && nf[b] == old_feeds[ob]);
        }
        assert forall|a: int, b: int| 0 <= a < b < kept@.len() implies kept@[a].id@
            != kept@[b].id@ && !(kept@[a].feed_id@ == kept@[b].feed_id@ && kept@[a].entry_id@
            == kept@[b].entry_id@) by {
            assert(idx[a] < idx[b]);
        }
        assert forall|t: int| 0 <= t < kept@.len() implies has_feed(
            nf,
            #[trigger] kept@[t].feed_id@,
        ) by {
            let fid = kept@[t].feed_id@;
            assert(old_articles[idx[t]].feed_id@ == fid);
            assert(has_feed(old_feeds, old_articles[idx[t]].feed_id@));
            let w = choose|w: int| feed_at(old_feeds, fid, w);
            assert(w != i);
            if w < i {
                assert(feed_at(nf, fid, w));
            } else {
                assert(nf[w - 1] == old_feeds[w]);
                assert(feed_at(nf, fid, w - 1));
            }
        }
        assert forall|t: int| 0 <= t < kept@.len() implies (#[trigger] kept@[t]).feed_title is None
            && kept@[t].categories is None by {
            assert(kept@[t] == old_articles[idx[t]]);
        }
    }
    Ok(())
}

} // verus!

verus! {

/// A feed that was added is found by its id, as it was added: in a table of
/// unique ids without `f`'s id, the table with `f` added gives `f` for it.
pub proof fn lemma_added_feed_is_found(feeds: Seq<Feed>, f: Feed)
    requires
        forall|a: int, b: int| 0 <= a < b < feeds.len() ==> feeds[a].id@ != feeds[b].id@,
        !has_feed(feeds, f.id@),
    ensures
        has_feed(feeds.push(f), f.id@),
        the_feed(feeds.push(f), f.id@) == f,
{
    let all = feeds.push(f);
    assert(feed_at(all, f.id@, feeds.len() as int));
    assert forall|a: int, b: int| 0 <= a < b < all.len() implies all[a].id@ != all[b].id@ by {
        if b == feeds.len() {
            assert(!feed_at(feeds, f.id@, a));
        }
    }
    lemma_the_feed(all, f.id@, feeds.len() as int);
}

/// The articles of `articles` that do not belong to feed `id`, in order.
pub open spec fn without_feed(articles: Seq<Article>, id: Seq<char>) -> Seq<Article> {
    articles.filter(|a: Article| a.feed_id@ != id)
}

/// Removing a feed removes its articles: no article of feed `id` is left in
/// the table that the removal leaves, and every other article stays.
pub proof fn lemma_removal_leaves_no_article(articles: Seq<Article>, id: Seq<char>)
    ensures
        forall|i: int|
            0 <= i < without_feed(articles, id).len() ==> (#[trigger] without_feed(articles, id)[i]).feed_id@
                != id,
        forall|i: int|
            0 <= i < articles.len() && (#[trigger] articles[i]).feed_id@ != id ==> without_feed(
                articles,
                id,
            ).contains(articles[i]),
{
    let keep = |a: Article| a.feed_id@ != id;
    assert forall|i: int| 0 <= i < articles.filter(keep).len() implies (#[trigger] articles.filter(
        keep,
    )[i]).feed_id@ != id by {
        articles.lemma_filter_pred(keep, i);
    }
    assert forall|i: int| 0 <= i < articles.len() && (#[trigger] articles[i]).feed_id@ != id implies articles.filter(
        keep,
    ).contains(articles[i]) by {
        articles.lemma_filter_contains(keep, i);
    }
}

} // verus!
