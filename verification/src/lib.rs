//! A terminal Spotify controller: the data model, the request and response
//! handling, the polling decisions and the interface rules, each with its contract.

pub mod app;
pub mod auth;
pub mod json;
pub mod model;
pub mod poller;
pub mod spotify;
pub mod text;
pub mod ui;
