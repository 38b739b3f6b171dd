//! Core logic of a NetEase Cloud Music desktop client: lyric parsing and
//! highlighting, comment feeds, playlist bookkeeping, the web API's request
//! encoding and response parsing, and the client's navigation rules.
pub mod app_logic;
pub mod client;
pub mod comments;
pub mod dispatch;
pub mod json;
pub mod lyrics;
pub mod lyrics_page;
pub mod menu;
pub mod navigation;
pub mod song_list;
pub mod text;
pub mod theme;
pub mod weapi;

pub use theme::css;
