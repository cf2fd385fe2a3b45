use vstd::prelude::*;

use crate::text::clone_opt;

verus! {

/// A subscribed feed, one row of the feed table.
#[derive(Debug, Clone)]
pub struct Feed {
    pub id: String,
    pub title: String,
    pub url: String,
    pub feed_type: Option<String>,
    pub site_url: Option<String>,
    pub description: Option<String>,
    pub icon_url: Option<String>,
    pub created_at: String,
    pub updated_at: String,
    pub last_fetched_at: Option<String>,
    pub etag: Option<String>,
    pub last_modified: Option<String>,
}

impl Feed {
    /// A field-by-field copy.
    pub fn duplicate(&self) -> (r: Feed)
        ensures
            r == *self,
    {
        Feed {
            id: self.id.clone(),
            title: self.title.clone(),
            url: self.url.clone(),
            feed_type: clone_opt(&self.feed_type),
            site_url: clone_opt(&self.site_url),
            description: clone_opt(&self.description),
            icon_url: clone_opt(&self.icon_url),
            created_at: self.created_at.clone(),
            updated_at: self.updated_at.clone(),
            last_fetched_at: clone_opt(&self.last_fetched_at),
            etag: clone_opt(&self.etag),
            last_modified: clone_opt(&self.last_modified),
        }
    }
}

} // verus!
