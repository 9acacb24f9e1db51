//! Watch an RSS or Atom feed and run configured programs for new entries.
//!
//! The crate is organised around a durable dedup store, a format
//! auto-detecting feed parser, an entry differ and a delivery engine, all
//! driven by a watcher that a thin binary wires to the network and to child
//! processes.
use vstd::prelude::*;

pub mod database;
pub mod error;
pub mod feed;
pub mod watcher;

pub use database::Database;
pub use error::Error;
pub use error::FeedParseError;
pub use feed::Entry;
pub use feed::Feed;
pub use feed::FeedExt;
pub use feed::parse_feed;
pub use watcher::DeliverySession;
pub use watcher::Launch;
pub use watcher::Watcher;

verus! {

/// Decides whether a file mode (as reported by the file's metadata) carries
/// any execute bit, which is the pre-flight test applied to every configured
/// script path before the watcher starts.
pub fn is_executable(mode: u32) -> (r: bool)
    ensures
        r == (mode & 0o111 != 0),
{
    mode & 0o111 != 0
}

} // verus!
