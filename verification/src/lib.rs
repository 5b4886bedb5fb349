//! Aggregates game-key deals across three storefronts: a genre catalog,
//! per-store listing-page URL builders, per-item extraction and discount
//! filtering, and a merge of all stores' records into one table keyed by
//! game title.

pub mod aggregate;
pub mod catalog;
pub mod digits;
pub mod engine;
pub mod record;
pub mod url;

pub use catalog::Genre;
