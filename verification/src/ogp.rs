//! Open Graph data of the pages that articles link to: what a page declares,
//! the local copy of its image, and the outcome of fetching them.

pub mod fetcher;
pub mod image_cache;

use vstd::prelude::*;

use crate::error::{concat_str, error_message, AppError};
use crate::text::opt_text;

verus! {

/// The Open Graph data kept for an article.
#[derive(Debug, Clone)]
pub struct OgpResultData {
    pub og_image_url: Option<String>,
    pub og_image_local: Option<String>,
    pub og_description: Option<String>,
}

/// The outcome of fetching the Open Graph data of an article's page.
#[derive(Debug, Clone)]
pub struct OgpResult {
    pub article_id: String,
    pub success: bool,
    pub data: Option<OgpResultData>,
    pub error: Option<String>,
}


/// The outcome for article `article_id` of fetching its page's Open Graph
/// data: the data where it was fetched, else the error's message.
pub fn ogp_result(article_id: &str, outcome: Result<OgpResultData, AppError>) -> (r: OgpResult)
    ensures
        r.article_id@ == article_id@,
        r.success == outcome is Ok,
        outcome matches Ok(d) ==> r.data == Some(d) && r.error is None,
        outcome matches Err(e) ==> r.data is None && opt_text(r.error) == Some(error_message(e)),
{
    match outcome {
        Ok(d) => OgpResult { article_id: article_id.to_string(), success: true, data: Some(d), error: None },
        Err(e) => OgpResult {
            article_id: article_id.to_string(),
            success: false,
            data: None,
            error: Some(e.message()),
        },
    }
}

/// The outcome for an article without an address.
pub fn missing_url_result(article_id: &str) -> (r: OgpResult)
    ensures
        r.article_id@ == article_id@,
        !r.success,
        r.data is None,
        opt_text(r.error) == Some("Article has no URL"@),
{
    OgpResult {
        article_id: article_id.to_string(),
        success: false,
        data: None,
        error: Some("Article has no URL".to_string()),
    }
}

/// The outcome of a fetch whose task failed, for no article in particular.
pub fn join_error_result(detail: &str) -> (r: OgpResult)
    ensures
        r.article_id@.len() == 0,
        !r.success,
        r.data is None,
        opt_text(r.error) == Some("Task join error: "@ + detail@),
{
    proof {
        reveal_strlit("");
    }
    OgpResult {
        article_id: "".to_string(),
        success: false,
        data: None,
        error: Some(concat_str("Task join error: ", detail)),
    }
}

} // verus!
