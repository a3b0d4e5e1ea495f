//! Core logic of a social-feed aggregation bot: ingestion of paginated
//! follower and author-feed data, engagement scoring with a time-window
//! admission rule, reconciliation of candidate records against persisted
//! state, and rich-text span extraction for the published summary.

pub mod bench;
pub mod facets;
pub mod models;
pub mod reconcile;
pub mod score;
pub mod structs;
pub mod tasks;
pub mod util;
