use vstd::prelude::*;

use crate::text::clone_opt;

verus! {

/// An article of a feed, as stored and as shown (with the feed's title joined in).
#[derive(Debug, Clone)]
pub struct Article {
    pub id: String,
    pub feed_id: String,
    pub entry_id: String,
    pub title: String,
    pub url: Option<String>,
    pub summary: Option<String>,
    pub content: Option<String>,
    pub author: Option<String>,
    pub published_at: Option<String>,
    pub is_read: bool,
    pub read_at: Option<String>,
    pub og_image_url: Option<String>,
    pub og_image_local: Option<String>,
    pub og_description: Option<String>,
    pub og_fetched: bool,
    pub created_at: String,
    pub feed_title: Option<String>,
    pub categories: Option<String>,
}

impl Article {
    /// A field-by-field copy.
    pub fn duplicate(&self) -> (r: Article)
        ensures
            r == *self,
    {
        Article {
            id: self.id.clone(),
            feed_id: self.feed_id.clone(),
            entry_id: self.entry_id.clone(),
            title: self.title.clone(),
            url: clone_opt(&self.url),
            summary: clone_opt(&self.summary),
            content: clone_opt(&self.content),
            author: clone_opt(&self.author),
            published_at: clone_opt(&self.published_at),
            is_read: self.is_read,
            read_at: clone_opt(&self.read_at),
            og_image_url: clone_opt(&self.og_image_url),
            og_image_local: clone_opt(&self.og_image_local),
            og_description: clone_opt(&self.og_description),
            og_fetched: self.og_fetched,
            created_at: self.created_at.clone(),
            feed_title: clone_opt(&self.feed_title),
            categories: clone_opt(&self.categories),
        }
    }
}

} // verus!
