//! The daily reminder of unread articles.

pub mod scheduler;
