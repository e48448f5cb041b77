//! Traffic-switching tunnel relay: the decisions behind routing public
//! requests either through a registered local tunnel or to a cloud backend.

pub mod auth;
pub mod cookies;
pub mod error;
pub mod hardware;
pub mod headers;
pub mod health;
pub mod protocol;
pub mod routing;
pub mod session;
pub mod text;
