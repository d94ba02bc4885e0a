//! Core of a desktop time-tracking client: the access credential and when it
//! must be renewed, the grant read from the browser's redirected request,
//! duration text, the service's records and request bodies, and the
//! coordinator that turns commands into notifications and requests, one
//! command at a time.

pub mod text;
pub mod credential;
pub mod redirect;
pub mod duration;
pub mod model;
pub mod api;
pub mod calendar;
pub mod version;
pub mod ui;
pub mod app;
pub mod order;

pub use credential::Harvest;
