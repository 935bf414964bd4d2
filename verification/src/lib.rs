//! A verified core for a two-level feed crawler: a seed list of syndication
//! feeds is parsed into feed entries, every linked article is planned for
//! processing exactly once, and the results are accumulated into an index
//! mapping each site to its articles and their word lists.
//!
//! The crawl's decisions (validation, deduplication, admission under
//! concurrency ceilings, queueing, and index updates) live here and are
//! verified; blocking, threads and network traffic live with the caller.

use vstd::prelude::*;

pub mod common;
pub mod crawl;
pub mod multi;
pub mod threadpool;

verus! {

/// The ways a crawl can fail.
#[derive(Clone, Copy, Debug, PartialEq, Eq, Structural)]
pub enum RssIndexError {
    /// The seed file could not be read.
    IOError,
    /// A feed's bytes are not a well-formed feed document.
    ParseError,
    /// A seed-level feed entry lacks its link or its title.
    MissingFieldError,
    /// A network fetch failed.
    FetchError,
    /// A URL could not be parsed.
    UrlError,
}

/// The result type every fallible operation of this crate returns.
pub type RssIndexResult<T> = Result<T, RssIndexError>;

} // verus!
