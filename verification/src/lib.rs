//! Verified core of the Mithka desktop client: the TDLib session driver,
//! notification settings, local groups and pins, and feed subscriptions.

mod textutil;
pub mod chats;
pub mod contacts;
pub mod messages;
pub mod files;
pub mod history;
pub mod search;
pub mod desktop;
pub mod database;
pub mod driver;
pub mod format;
pub mod notify;
pub mod request;
pub mod rss;
pub mod run;
pub mod shell;
mod seqs;
pub mod gpui;
pub mod gtk;

pub use textutil::is_whitespace;
