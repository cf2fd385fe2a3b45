//! Feeds: reading a feed document, finding the feed of a web page, and the
//! conditional requests that fetch them.

pub mod discovery;
pub mod fetcher;
pub mod parser;
