//! Verified logic of a terminal music client and its background daemon.

pub mod actions;
pub mod admin;
pub mod analytics;
pub mod auth_sessions;
pub mod bookmarks;
pub mod clock;
pub mod diagnostics;
pub mod doctor_text;
pub mod eq;
pub mod exchange;
pub mod failure;
pub mod library;
pub mod lyrics;
pub mod media;
pub mod paging;
pub mod playback;
pub mod playlist_plans;
pub mod playlists;
pub mod provider;
pub mod queue_merge;
pub mod queueing;
pub mod release_date;
pub mod reminders;
pub mod replies;
pub mod requests;
pub mod speed;
pub mod text;
pub mod theme;
pub mod uri;
