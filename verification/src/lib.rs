//! Fuzzy subsequence matching with a boundary-aware score.
//!
//! A query matches a text when its characters occur in the text in order.
//! `matcher::fuzzy_match` finds the earliest span of the text that holds
//! the query and rates the tightest occurrence that ends with it: matches
//! at word boundaries and in runs earn more, gaps cost. `search::search`
//! rates many candidates and hands back the best few.

pub mod bonus;
pub mod char_class;
pub mod config;
pub mod filter;
pub mod matcher;
pub mod ranking;
pub mod scan;
pub mod score;
pub mod search;
pub mod subsequence;
