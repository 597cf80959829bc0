//! Game-balance patch history: structured patch notes, change-trend
//! classification, differences between snapshots and tier rankings.
//!
//! - [`models`] holds the data model and its mathematical views.
//! - [`text`], [`decimal`], [`lexical`] and [`order`] are the ground the rest
//!   stands on: texts as sequences of characters, exact decimal numbers, the
//!   order of texts, and stable sorting.
//! - [`trend`] classifies change lines and whole entries.
//! - [`extractor`] turns the nodes of a patch-notes document into entries.
//! - [`analyzer`] compares two snapshots.
//! - [`tier`] tallies and ranks the changes of a window of snapshots, and
//!   remembers the ranking.
//! - [`scraper`], [`db`], [`supabase`], [`supabase_client`], [`commands`] and
//!   [`workflow`] hold what is computed around the web pages, the history
//!   store, the statistics service and the commands of an application.
//!
//! Rates are fixed-point numbers in hundredths of a percentage point, and
//! times are microseconds since the Unix epoch, so that every result is exact.

pub mod models;
pub mod text;
pub mod decimal;
pub mod lexical;
pub mod order;
pub mod trend;
pub mod extractor;
pub mod analyzer;
pub mod tier;
pub mod scraper;
pub mod db;
pub mod supabase;
pub mod supabase_client;
pub mod commands;
pub mod workflow;
