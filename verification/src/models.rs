//! The records that the store keeps and that the user interface shows.

pub mod article;
pub mod feed;
pub mod settings;

pub use article::Article;
pub use feed::Feed;
pub use settings::NotificationSettings;
