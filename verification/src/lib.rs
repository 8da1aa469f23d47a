//! Websites to crawl: their settings, the tasks that crawl them and listen to their pages,
//! and what a crawl has collected.
pub mod crawler;
pub mod cron;
pub mod headers;
pub mod laws;
pub mod page;
pub mod registry;
pub mod website;
