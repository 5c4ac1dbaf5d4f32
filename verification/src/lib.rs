//! A verified HTTP request router.
//!
//! Route patterns are `/`-separated templates whose pieces are literals,
//! `:name` parameters, or a final `*` wildcard.  A router owns one table of
//! patterns per HTTP method plus an any-method table; dispatching a request
//! selects the most specific matching pattern and hands back its handler
//! together with the captured path segments, or synthesizes a not-found or
//! method-not-allowed response.

pub mod matcher;
pub mod params;
pub mod pattern;
pub mod router;
pub mod segments;
