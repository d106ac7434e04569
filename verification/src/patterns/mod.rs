//! Enterprise integration patterns: the predicate language, filters,
//! correlation and aggregation.
pub mod apl;
pub mod jsonpath;
pub mod filter;
pub mod correlation;
pub mod aggregator;
pub mod router;
