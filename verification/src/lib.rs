//! State, rules and parsers of a marketplace seller dashboard.
//!
//! - [`app`]: the application state and the reducer that applies events to it.
//! - [`event`]: the events, and the actions that the state asks of the shell.
//! - [`pipeline`]: the plans of the stages of a run.
//! - [`monitor`]: the one-shot watcher for a challenge page.
//! - [`figures`], [`details`]: what the texts read from the pages mean.
//! - [`extract`]: the listing extractor; [`markup`]: the parsed page.
//! - [`store`]: the stores that the runs merge their rows into.
//! - [`listing`], [`client`]: the listings of the index and of the inventory.
//! - [`text`]: primitives over sequences of characters.

pub mod app;
pub mod cli;
pub mod client;
pub mod details;
pub mod event;
pub mod extract;
pub mod figures;
pub mod listing;
pub mod markup;
pub mod monitor;
pub mod pipeline;
pub mod scroll;
pub mod store;
pub mod text;
