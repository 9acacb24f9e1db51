//! Error types of the watcher.
use vstd::prelude::*;

verus! {

/// Why a response body could not be interpreted as a feed.
///
/// Each variant carries the reporting parser's description of its failure.
/// When both formats fail, the RSS failure is the one reported: the Atom
/// failure is diagnostic only and not part of the error returned to the
/// caller.
#[derive(Debug)]
pub enum FeedParseError {
    RssError(String),
    AtomError(String),
}

/// Everything that can go wrong inside the watcher core.
#[derive(Debug)]
pub enum Error {
    /// Neither Atom nor RSS could interpret a response body.
    FeedParseError(FeedParseError),
    /// The underlying store failed; the payload is the store's description of
    /// the failure.
    RusqliteError(String),
    /// An ingest cycle ran for a URL that no successful probe registered; the
    /// payload is that URL.
    FeedNotFound(String),
}

} // verus!
