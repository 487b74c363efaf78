//! Status model and provider logic of a CI pipeline monitor.

pub mod text;
pub mod model;
pub mod encoding;
pub mod gitlab;
pub mod order;
pub mod providers;
pub mod breakdown;
pub mod timing;
pub mod azure;
pub mod github;
pub mod state;
pub mod keyed;
pub mod refresh;
pub mod tray;
pub mod commands;
pub mod notch;
