//! A catalog of subscribed podcasts and the controller that owns it.
//!
//! The controller takes one message at a time (a user's intent, a feed
//! worker's result, a store's answer, a download's outcome) and answers with
//! the effects that its collaborators carry out: notifications, feed
//! fetches, store writes, downloads and playback. It performs no I/O itself.
//! The download manager tracks each download from queued to finished and
//! bounds how many run at once.

pub mod types;
pub mod catalog;
pub mod downloads;
pub mod text;
pub mod controller;
