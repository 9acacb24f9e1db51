//! The watcher: prober, differ and delivery engine over one feed.
//!
//! A thin driver around the library fetches the feed body and runs child
//! processes; everything the watcher decides — classification, diffing,
//! what to launch with which environment, and what to record — lives here.
//! Delivery works as a state machine: [`Watcher::process_feed`] turns a body
//! into a [`DeliverySession`] of new entries, [`Watcher::next_launch`] says
//! which program to run next with which environment, and
//! [`Watcher::report_outcome`] consumes one observed exit, recording the
//! entry as delivered exactly when the exit was successful.
use vstd::prelude::*;

use crate::database::Database;
use crate::database::missing_from;
use crate::database::query_entry_exists;
use crate::error::Error;
use crate::feed::Entry;
use crate::feed::EntryView;
use crate::feed::Feed;
use crate::feed::atom_parse_of;
use crate::feed::clone_entry;
use crate::feed::norm_atom_entry;
use crate::feed::norm_rss_item;
use crate::feed::parse_feed;
use crate::feed::rss_parse_of;

verus! {

/// The normalized entries a body yields: those of the format that accepted it
/// (Atom is attempted first), or none when neither format did — a steady
/// cycle with an unparseable body processes no entries.
pub open spec fn body_entries(body: Seq<char>) -> Seq<EntryView> {
    if atom_parse_of(body) is Some {
        Seq::new(atom_parse_of(body)->0.len(), |i: int| norm_atom_entry(atom_parse_of(body)->0[i]))
    } else if rss_parse_of(body) is Some {
        Seq::new(rss_parse_of(body)->0.len(), |i: int| norm_rss_item(rss_parse_of(body)->0[i]))
    } else {
        Seq::empty()
    }
}

/// The entries of `entries`, in document order, that carry a GUID whose pair
/// with `feed_id` is not in `delivered`: what the Entry Differ returns.
/// GUID-less entries are dropped here, before anything downstream sees them.
pub open spec fn missing_entries(
    delivered: Set<(int, Seq<char>)>,
    feed_id: int,
    entries: Seq<EntryView>,
) -> Seq<EntryView>
    decreases entries.len(),
{
    if entries.len() == 0 {
        Seq::empty()
    } else {
        let rest = missing_entries(delivered, feed_id, entries.drop_last());
        match entries.last().guid {
            None => rest,
            Some(g) => if delivered.contains((feed_id, g)) {
                rest
            } else {
                rest.push(entries.last())
            },
        }
    }
}

/// The candidate GUIDs of the given entries: those present, in document
/// order. GUID-less entries contribute nothing.
pub open spec fn candidate_guids(entries: Seq<EntryView>) -> Seq<Seq<char>>
    decreases entries.len(),
{
    if entries.len() == 0 {
        Seq::empty()
    } else {
        let rest = candidate_guids(entries.drop_last());
        match entries.last().guid {
            None => rest,
            Some(g) => rest.push(g),
        }
    }
}

/// The differ is GUID extraction followed by the store's anti-join: the GUIDs
/// of the entries it returns are exactly what `missing_from` makes of the
/// candidate GUIDs, so the full-entry and the GUID-level views of one cycle
/// always agree.
pub proof fn lemma_differ_is_antijoin_of_candidates(
    delivered: Set<(int, Seq<char>)>,
    feed_id: int,
    entries: Seq<EntryView>,
)
    ensures
        candidate_guids(missing_entries(delivered, feed_id, entries)) == missing_from(
            delivered,
            feed_id,
            candidate_guids(entries),
        ),
    decreases entries.len(),
{
    if entries.len() == 0 {
        assert(candidate_guids(missing_entries(delivered, feed_id, entries)) =~= missing_from(
            delivered,
            feed_id,
            candidate_guids(entries),
        ));
    } else {
        lemma_differ_is_antijoin_of_candidates(delivered, feed_id, entries.drop_last());
        let rest = missing_entries(delivered, feed_id, entries.drop_last());
        let cg_rest = candidate_guids(entries.drop_last());
        match entries.last().guid {
            None => {
                assert(missing_entries(delivered, feed_id, entries) == rest);
                assert(candidate_guids(entries) == cg_rest);
            },
            Some(g) => {
                assert(candidate_guids(entries) == cg_rest.push(g));
                assert(cg_rest.push(g).drop_last() =~= cg_rest);
                assert(cg_rest.push(g).last() == g);
                if delivered.contains((feed_id, g)) {
                    assert(missing_entries(delivered, feed_id, entries) == rest);
                    assert(missing_from(delivered, feed_id, cg_rest.push(g)) == missing_from(
                        delivered,
                        feed_id,
                        cg_rest,
                    ));
                } else {
                    assert(missing_entries(delivered, feed_id, entries) == rest.push(
                        entries.last(),
                    ));
                    assert(rest.push(entries.last()).drop_last() =~= rest);
                    assert(candidate_guids(rest.push(entries.last())) == candidate_guids(rest).push(
                        g,
                    ));
                    assert(missing_from(delivered, feed_id, cg_rest.push(g)) == missing_from(
                        delivered,
                        feed_id,
                        cg_rest,
                    ).push(g));
                }
            },
        }
    }
}

/// The (feed identity, GUID) pairs the given entries would record: one pair
/// per GUID-carrying entry; GUID-less entries contribute nothing.
pub open spec fn entry_pairs(feed_id: int, entries: Seq<EntryView>) -> Set<(int, Seq<char>)> {
    Set::new(
        |p: (int, Seq<char>)|
            p.0 == feed_id && exists|i: int|
                0 <= i < entries.len() && (#[trigger] entries[i]).guid == Some(p.1),
    )
}

/// Undiffable entries are excluded and only undelivered candidates survive:
/// every entry the differ returns came from the input, carries a GUID, and
/// that GUID was not yet recorded delivered. In particular an entry with no
/// GUID is never passed to the delivery engine and never recorded.
pub proof fn lemma_differ_excludes_guidless(
    delivered: Set<(int, Seq<char>)>,
    feed_id: int,
    entries: Seq<EntryView>,
    j: int,
)
    requires
        0 <= j < missing_entries(delivered, feed_id, entries).len(),
    ensures
        missing_entries(delivered, feed_id, entries)[j].guid is Some,
        entries.contains(missing_entries(delivered, feed_id, entries)[j]),
        !delivered.contains((feed_id, missing_entries(delivered, feed_id, entries)[j].guid->0)),
    decreases entries.len(),
{
    let result = missing_entries(delivered, feed_id, entries);
    let rest = missing_entries(delivered, feed_id, entries.drop_last());
    if j < rest.len() {
        lemma_differ_excludes_guidless(delivered, feed_id, entries.drop_last(), j);
        assert(result[j] == rest[j]);
        let k = choose|k: int|
            0 <= k < entries.drop_last().len() && entries.drop_last()[k] == rest[j];
        assert(entries[k] == rest[j]);
    } else {
        assert(result[j] == entries.last());
        assert(entries[entries.len() - 1] == entries.last());
    }
}

/// Retry eligibility: a candidate whose GUID is not recorded delivered always
/// survives the differ, so an entry for which every configured executable
/// failed (and which was therefore never recorded) is offered again, intact,
/// on the next cycle.
pub proof fn lemma_missing_entries_complete(
    delivered: Set<(int, Seq<char>)>,
    feed_id: int,
    entries: Seq<EntryView>,
    i: int,
)
    requires
        0 <= i < entries.len(),
        entries[i].guid is Some,
        !delivered.contains((feed_id, entries[i].guid->0)),
    ensures
        exists|j: int|
            0 <= j < missing_entries(delivered, feed_id, entries).len() && missing_entries(
                delivered,
                feed_id,
                entries,
            )[j] == entries[i],
    decreases entries.len(),
{
    let result = missing_entries(delivered, feed_id, entries);
    let rest = missing_entries(delivered, feed_id, entries.drop_last());
    if i == entries.len() - 1 {
        assert(entries.last() == entries[i]);
        assert(result == rest.push(entries[i]));
        assert(result[rest.len() as int] == entries[i]);
    } else {
        assert(entries.drop_last()[i] == entries[i]);
        lemma_missing_entries_complete(delivered, feed_id, entries.drop_last(), i);
        let j = choose|j: int| 0 <= j < rest.len() && rest[j] == entries[i];
        assert(result[j] == entries[i]);
    }
}

/// No re-delivery across restarts: a GUID recorded delivered never appears on
/// any entry the differ lets through, so no executable is ever invoked for it
/// by any later cycle, in this process instance or a fresh one reading the
/// same store.
pub proof fn lemma_no_redelivery(
    delivered: Set<(int, Seq<char>)>,
    feed_id: int,
    entries: Seq<EntryView>,
    guid: Seq<char>,
    j: int,
)
    requires
        delivered.contains((feed_id, guid)),
        0 <= j < missing_entries(delivered, feed_id, entries).len(),
    ensures
        missing_entries(delivered, feed_id, entries)[j].guid != Some(guid),
{
    lemma_differ_excludes_guidless(delivered, feed_id, entries, j);
}

/// Order preservation: when every entry carries a GUID and none is yet
/// delivered (all new), the differ returns the entries exactly as given, in
/// document order — and the delivery engine walks its session in that order.
pub proof fn lemma_missing_entries_all_new(
    delivered: Set<(int, Seq<char>)>,
    feed_id: int,
    entries: Seq<EntryView>,
)
    requires
        forall|i: int|
            0 <= i < entries.len() ==> (#[trigger] entries[i]).guid is Some && !delivered.contains(
                (feed_id, entries[i].guid->0),
            ),
    ensures
        missing_entries(delivered, feed_id, entries) == entries,
    decreases entries.len(),
{
    if entries.len() == 0 {
        assert(missing_entries(delivered, feed_id, entries) =~= entries);
    } else {
        assert forall|i: int| 0 <= i < entries.drop_last().len() implies (#[trigger] entries.drop_last()[i]).guid is Some
            && !delivered.contains((feed_id, entries.drop_last()[i].guid->0)) by {
            assert(entries.drop_last()[i] == entries[i]);
        }
        lemma_missing_entries_all_new(delivered, feed_id, entries.drop_last());
        assert(entries[entries.len() - 1] == entries.last());
        assert(entries.last().guid is Some && !delivered.contains(
            (feed_id, entries.last().guid->0),
        ));
        assert(missing_entries(delivered, feed_id, entries) =~= entries.drop_last().push(
            entries.last(),
        ));
        assert(entries.drop_last().push(entries.last()) =~= entries);
    }
}

/// Import-only seeding covers every candidate: recording exactly what the
/// differ returns leaves the store as if every GUID-carrying entry of the
/// document had been recorded — entries already delivered add nothing, and
/// GUID-less entries are never recorded at all.
pub proof fn lemma_import_covers(
    delivered: Set<(int, Seq<char>)>,
    feed_id: int,
    entries: Seq<EntryView>,
)
    ensures
        delivered + entry_pairs(feed_id, missing_entries(delivered, feed_id, entries)) == delivered
            + entry_pairs(feed_id, entries),
{
    let missing = missing_entries(delivered, feed_id, entries);
    let lhs = delivered + entry_pairs(feed_id, missing);
    let rhs = delivered + entry_pairs(feed_id, entries);
    assert forall|p: (int, Seq<char>)| lhs.contains(p) implies rhs.contains(p) by {
        if entry_pairs(feed_id, missing).contains(p) {
            let j = choose|j: int| 0 <= j < missing.len() && (#[trigger] missing[j]).guid == Some(
                p.1,
            );
            lemma_differ_excludes_guidless(delivered, feed_id, entries, j);
            let k = choose|k: int| 0 <= k < entries.len() && entries[k] == missing[j];
            assert((#[trigger] entries[k]).guid == Some(p.1));
        }
    }
    assert forall|p: (int, Seq<char>)| rhs.contains(p) implies lhs.contains(p) by {
        if !delivered.contains(p) && entry_pairs(feed_id, entries).contains(p) {
            let i = choose|i: int| 0 <= i < entries.len() && (#[trigger] entries[i]).guid == Some(
                p.1,
            );
            assert(p == (feed_id, p.1));
            lemma_missing_entries_complete(delivered, feed_id, entries, i);
            let j = choose|j: int| 0 <= j < missing.len() && missing[j] == entries[i];
            assert((#[trigger] missing[j]).guid == Some(p.1));
        }
    }
    assert(lhs =~= rhs);
}

/// One launch request of the delivery engine: the program to run and the
/// values of the four environment variables it must observe. A missing link
/// or title has already been rendered as the empty string, never left absent.
pub struct Launch {
    pub program: String,
    pub url: String,
    pub guid: String,
    pub link: String,
    pub title: String,
}

impl Launch {
    /// The environment to set for the launched program, in order: exactly the
    /// four variables of the delivery contract.
    pub fn env(&self) -> (r: Vec<(String, String)>)
        ensures
            r.deep_view() == seq![
                ("FEED_URL"@, self.url@),
                ("FEED_GUID"@, self.guid@),
                ("FEED_LINK"@, self.link@),
                ("FEED_TITLE"@, self.title@),
            ],
    {
        let mut v: Vec<(String, String)> = Vec::new();
        v.push(("FEED_URL".to_owned(), self.url.clone()));
        v.push(("FEED_GUID".to_owned(), self.guid.clone()));
        v.push(("FEED_LINK".to_owned(), self.link.clone()));
        v.push(("FEED_TITLE".to_owned(), self.title.clone()));
        proof {
            assert(v.deep_view() =~= seq![
                ("FEED_URL"@, self.url@),
                ("FEED_GUID"@, self.guid@),
                ("FEED_LINK"@, self.link@),
                ("FEED_TITLE"@, self.title@),
            ]);
        }
        v
    }
}

/// The delivery engine's state for one poll cycle: the new entries, in
/// document order, and how far the engine has come — which entry is current
/// and which configured executable comes next for it.
pub struct DeliverySession {
    feed_id: i64,
    entries: Vec<Entry>,
    entry_idx: usize,
    prog_idx: usize,
}

impl DeliverySession {
    /// The identity of the feed the cycle ran for.
    pub closed spec fn spec_feed_id(&self) -> int {
        self.feed_id as int
    }

    /// The new entries of the cycle, in document order.
    pub closed spec fn spec_entries(&self) -> Seq<EntryView> {
        self.entries.deep_view()
    }

    /// The index of the entry currently being delivered.
    pub closed spec fn spec_entry_idx(&self) -> int {
        self.entry_idx as int
    }

    /// The index of the configured executable to run next for that entry.
    pub closed spec fn spec_prog_idx(&self) -> int {
        self.prog_idx as int
    }

    /// Whether the cycle is over: every entry handled — immediately, when no
    /// executable is configured.
    pub open spec fn spec_done(&self, programs: Seq<Seq<char>>) -> bool {
        self.spec_entry_idx() >= self.spec_entries().len() || programs.len() == 0
    }

    /// The feed identity the cycle resolved.
    pub fn feed_id(&self) -> (r: i64)
        ensures
            r as int == self.spec_feed_id(),
    {
        self.feed_id
    }
}

/// The watcher: polls one feed and delivers its new entries to the configured
/// executables, deduplicating against the store it owns.
pub struct Watcher {
    url: String,
    executables: Vec<String>,
    interval: u64,
    database: Option<Database>,
}

impl Watcher {
    /// The canonical feed URL.
    pub closed spec fn spec_url(&self) -> Seq<char> {
        self.url@
    }

    /// The configured executables, in command-line order.
    pub closed spec fn spec_executables(&self) -> Seq<Seq<char>> {
        self.executables.deep_view()
    }

    /// The refresh interval in milliseconds.
    pub closed spec fn spec_interval(&self) -> u64 {
        self.interval
    }

    /// The store, once opened.
    pub closed spec fn db(&self) -> Option<Database> {
        self.database
    }

    /// Whether a store has been opened.
    pub open spec fn has_database(&self) -> bool {
        self.db() is Some
    }

    /// The registered feeds of the store.
    pub open spec fn feeds(&self) -> Map<Seq<char>, (int, int)> {
        self.db()->0.feeds()
    }

    /// The delivery records of the store.
    pub open spec fn delivered(&self) -> Set<(int, Seq<char>)> {
        self.db()->0.delivered()
    }

    /// Well-formedness of a session under this watcher's configuration:
    /// indices in range, and every pending entry carries a GUID.
    pub open spec fn session_wf(&self, s: DeliverySession) -> bool {
        &&& s.spec_entry_idx() <= s.spec_entries().len()
        &&& (self.spec_executables().len() == 0 ==> s.spec_prog_idx() == 0)
        &&& (self.spec_executables().len() > 0 ==> s.spec_prog_idx()
            < self.spec_executables().len())
        &&& forall|i: int|
            0 <= i < s.spec_entries().len() ==> (#[trigger] s.spec_entries()[i]).guid is Some
    }

    /// Creates a watcher for `url`, polled every `update_interval`
    /// milliseconds, delivering to `executables` in the order given. No store
    /// is opened yet.
    pub fn new(url: String, update_interval: u64, executables: Vec<String>) -> (w: Watcher)
        ensures
            w.spec_url() == url@,
            w.spec_interval() == update_interval,
            w.spec_executables() == executables.deep_view(),
            !w.has_database(),
    {
        Watcher { url, executables, interval: update_interval, database: None }
    }

    /// Returns the refresh interval in milliseconds.
    pub fn interval(&self) -> (r: u64)
        ensures
            r == self.spec_interval(),
    {
        self.interval
    }

    /// Opens (creating if missing) the store at `database_path` and applies
    /// the self-migrating schema; on success the watcher holds that store,
    /// with whatever feeds and delivery records an earlier instance left.
    pub fn open_database(&mut self, database_path: &str) -> (r: Result<(), Error>)
        ensures
            final(self).spec_url() == old(self).spec_url(),
            final(self).spec_interval() == old(self).spec_interval(),
            final(self).spec_executables() == old(self).spec_executables(),
            r is Ok ==> final(self).has_database(),
            r matches Err(e) ==> e is RusqliteError && *final(self) == *old(self),
    {
        match Database::open(database_path) {
            Ok(mut database) => match database.init() {
                Ok(()) => {
                    self.database = Some(database);
                    Ok(())
                },
                Err(e) => Err(e),
            },
            Err(e) => Err(e),
        }
    }

    /// The one-time startup step: classifies the already-fetched body and
    /// registers the feed under the detected kind, 1 for RSS and 2 for Atom —
    /// stable discriminators, fixed at the first successful probe and never
    /// changed by a later one (registration is idempotent). When neither
    /// format accepts the body, nothing is registered and the parse error is
    /// returned, so startup aborts: the poll loop never runs against a feed
    /// that could not be typed at least once.
    pub fn probe(&mut self, body: &str) -> (r: Result<(), Error>)
        requires
            old(self).has_database(),
        ensures
            final(self).spec_url() == old(self).spec_url(),
            final(self).spec_interval() == old(self).spec_interval(),
            final(self).spec_executables() == old(self).spec_executables(),
            final(self).has_database(),
            final(self).delivered() == old(self).delivered(),
            r is Ok ==> (atom_parse_of(body@) is Some || rss_parse_of(body@) is Some)
                && final(self).feeds().dom().contains(old(self).spec_url()),
            r is Ok && old(self).feeds().dom().contains(old(self).spec_url())
                ==> final(self).feeds() == old(self).feeds(),
            r is Ok && !old(self).feeds().dom().contains(old(self).spec_url()) && atom_parse_of(
                body@,
            ) is Some ==> (exists|id: int|
                final(self).feeds() == #[trigger] old(self).feeds().insert(
                    old(self).spec_url(),
                    (id, 2int),
                )),
            r is Ok && !old(self).feeds().dom().contains(old(self).spec_url()) && atom_parse_of(
                body@,
            ) is None ==> (exists|id: int|
                final(self).feeds() == #[trigger] old(self).feeds().insert(
                    old(self).spec_url(),
                    (id, 1int),
                )),
            r is Err ==> final(self).feeds() == old(self).feeds(),
            r matches Err(e) ==> e is RusqliteError || (e matches Error::FeedParseError(
                crate::error::FeedParseError::RssError(_),
            ) && atom_parse_of(body@) is None && rss_parse_of(body@) is None),
    {
        match parse_feed(body) {
            Err(e) => Err(e),
            Ok(feed) => {
                let kind: i64 = match &feed {
                    Feed::Rss(_) => 1,
                    Feed::Atom(_) => 2,
                };
                let mut database = self.database.take().unwrap();
                let r = database.try_create_feed(self.url.as_str(), kind);
                self.database = Some(database);
                r
            },
        }
    }

    /// The Entry Differ: of the given normalized entries, in document order,
    /// those whose GUID is not yet recorded delivered for `feed_id`. Entries
    /// with no GUID are never eligible for delivery and are dropped here,
    /// before this watcher's delivery engine can see them.
    pub fn filter_missing_entries(&self, feed_id: i64, entries: &Vec<Entry>) -> (r: Result<
        Vec<Entry>,
        Error,
    >)
        requires
            self.has_database(),
        ensures
            r matches Ok(v) ==> v.deep_view() == missing_entries(
                self.delivered(),
                feed_id as int,
                entries.deep_view(),
            ),
            r matches Err(e) ==> e is RusqliteError,
    {
        match &self.database {
            Some(database) => filter_missing(database, feed_id, entries),
            None => {
                proof {
                    assert(false);
                }
                Err(Error::RusqliteError(String::new()))
            },
        }
    }

    /// One ingest cycle against an already-fetched body. The feed must have
    /// been registered by a probe; an unregistered URL is the distinct
    /// `FeedNotFound` error. A body neither format accepts yields no entries
    /// (the cycle is skipped, not failed). With `process_entries` the result
    /// is a session holding exactly the new entries, in document order, and
    /// nothing recorded yet; without it (import-only) every new entry is
    /// recorded directly and the session is empty, so no launch ever happens.
    pub fn process_feed(&mut self, body: &str, process_entries: bool) -> (r: Result<
        DeliverySession,
        Error,
    >)
        requires
            old(self).has_database(),
        ensures
            final(self).spec_url() == old(self).spec_url(),
            final(self).spec_interval() == old(self).spec_interval(),
            final(self).spec_executables() == old(self).spec_executables(),
            final(self).has_database(),
            final(self).feeds() == old(self).feeds(),
            old(self).delivered().subset_of(final(self).delivered()),
            r matches Ok(s) ==> {
                &&& old(self).feeds().dom().contains(old(self).spec_url())
                &&& s.spec_feed_id() == old(self).feeds()[old(self).spec_url()].0
                &&& s.spec_entry_idx() == 0
                &&& s.spec_prog_idx() == 0
                &&& final(self).session_wf(s)
                &&& (process_entries ==> s.spec_entries() == missing_entries(
                    old(self).delivered(),
                    s.spec_feed_id(),
                    body_entries(body@),
                ) && final(self).delivered() == old(self).delivered())
                &&& (!process_entries ==> s.spec_entries() == Seq::<EntryView>::empty() && final(self).delivered() == old(self).delivered() + entry_pairs(
                    s.spec_feed_id(),
                    body_entries(body@),
                ))
            },
            r matches Err(e) ==> {
                &&& (e is RusqliteError || e is FeedNotFound)
                &&& (e is FeedNotFound ==> !old(self).feeds().dom().contains(old(self).spec_url())
                    && final(self).delivered() == old(self).delivered())
                &&& (process_entries ==> final(self).delivered() == old(self).delivered())
            },
    {
        let mut database = self.database.take().unwrap();
        let r = run_cycle(&mut database, &self.url, body, process_entries);
        self.database = Some(database);
        proof {
            if r is Ok && process_entries {
                let s = r->Ok_0;
                assert forall|i: int| 0 <= i < s.spec_entries().len() implies (#[trigger] s.spec_entries()[i]).guid is Some by {
                    lemma_differ_excludes_guidless(
                        old(self).delivered(),
                        s.spec_feed_id(),
                        body_entries(body@),
                        i,
                    );
                }
            }
        }
        r
    }

    /// What the delivery engine does next: `None` when the cycle is over,
    /// else the program to launch — the executables walked in command-line
    /// order for the current entry — together with the exact environment of
    /// the delivery contract: the feed URL, the entry's GUID, and its link
    /// and title with absence rendered as the empty string.
    pub fn next_launch(&self, session: &DeliverySession) -> (r: Option<Launch>)
        requires
            self.session_wf(*session),
        ensures
            r is Some <==> !session.spec_done(self.spec_executables()),
            r matches Some(l) ==> {
                let entry = session.spec_entries()[session.spec_entry_idx()];
                &&& l.program@ == self.spec_executables()[session.spec_prog_idx()]
                &&& l.url@ == self.spec_url()
                &&& Some(l.guid@) == entry.guid
                &&& l.link@ == (match entry.link {
                    Some(s) => s,
                    None => Seq::<char>::empty(),
                })
                &&& l.title@ == (match entry.title {
                    Some(s) => s,
                    None => Seq::<char>::empty(),
                })
            },
    {
        if session.entry_idx >= session.entries.len() || self.executables.len() == 0 {
            return None;
        }
        let entry = &session.entries[session.entry_idx];
        proof {
            assert(session.spec_entries()[session.spec_entry_idx()].guid is Some);
        }
        let guid = match &entry.guid {
            Some(g) => g.clone(),
            None => {
                proof {
                    assert(false);
                }
                String::new()
            },
        };
        let link = match &entry.link {
            Some(l) => l.clone(),
            None => String::new(),
        };
        let title = match &entry.title {
            Some(t) => t.clone(),
            None => String::new(),
        };
        Some(
            Launch {
                program: self.executables[session.prog_idx].clone(),
                url: self.url.clone(),
                guid,
                link,
                title,
            },
        )
    }

    /// Advances the delivery engine by one observed outcome for the current
    /// entry and executable. A successful exit records the entry as delivered
    /// at once — idempotently, so a second success for the same entry is a
    /// no-op, and a later failure in the same list does not revert it. Any
    /// failure records nothing: an entry none of whose executables succeeds
    /// stays unrecorded and is re-offered on the next cycle. Either way the
    /// engine moves to the next configured executable, and past the last one
    /// to the next entry. Only a storage error fails the call, recording and
    /// advancing nothing.
    pub fn report_outcome(&mut self, session: &mut DeliverySession, success: bool) -> (r: Result<
        (),
        Error,
    >)
        requires
            old(self).has_database(),
            old(self).session_wf(*old(session)),
            !old(session).spec_done(old(self).spec_executables()),
        ensures
            final(self).spec_url() == old(self).spec_url(),
            final(self).spec_interval() == old(self).spec_interval(),
            final(self).spec_executables() == old(self).spec_executables(),
            final(self).has_database(),
            final(self).feeds() == old(self).feeds(),
            final(session).spec_entries() == old(session).spec_entries(),
            final(session).spec_feed_id() == old(session).spec_feed_id(),
            r is Ok ==> final(self).session_wf(*final(session)),
            r is Ok ==> (if old(session).spec_prog_idx() + 1 < old(self).spec_executables().len() {
                final(session).spec_prog_idx() == old(session).spec_prog_idx() + 1 && final(session).spec_entry_idx() == old(session).spec_entry_idx()
            } else {
                final(session).spec_prog_idx() == 0 && final(session).spec_entry_idx() == old(session).spec_entry_idx() + 1
            }),
            success && r is Ok ==> final(self).delivered() == old(self).delivered().insert(
                (
                    old(session).spec_feed_id(),
                    old(session).spec_entries()[old(session).spec_entry_idx()].guid->0,
                ),
            ),
            !success ==> r is Ok && final(self).delivered() == old(self).delivered(),
            r matches Err(e) ==> e is RusqliteError && final(self).delivered() == old(self).delivered() && *final(session) == *old(session),
    {
        if success {
            proof {
                assert(old(session).spec_entries()[old(session).spec_entry_idx()].guid is Some);
            }
            let mut database = self.database.take().unwrap();
            let outcome = database.try_create_feed_entry(
                session.feed_id,
                session.entries[session.entry_idx].guid_str(),
            );
            self.database = Some(database);
            match outcome {
                Ok(()) => {},
                Err(e) => {
                    return Err(e);
                },
            }
        }
        let programs_len = self.executables.len();
        let _entries_len = session.entries.len();
        session.prog_idx = session.prog_idx + 1;
        if session.prog_idx >= programs_len {
            session.prog_idx = 0;
            session.entry_idx = session.entry_idx + 1;
        }
        Ok(())
    }
}

/// One ingest cycle: resolve the feed identity, parse the body, diff against
/// the store, then either seed the store (import-only) or hand the new
/// entries to the delivery engine.
#[verifier::loop_isolation(false)]
fn run_cycle(database: &mut Database, url: &String, body: &str, process_entries: bool) -> (r:
    Result<DeliverySession, Error>)
    ensures
        final(database).feeds() == old(database).feeds(),
        old(database).delivered().subset_of(final(database).delivered()),
        r matches Ok(s) ==> {
            &&& old(database).feeds().dom().contains(url@)
            &&& s.spec_feed_id() == old(database).feeds()[url@].0
            &&& s.spec_entry_idx() == 0
            &&& s.spec_prog_idx() == 0
            &&& (process_entries ==> s.spec_entries() == missing_entries(
                old(database).delivered(),
                s.spec_feed_id(),
                body_entries(body@),
            ) && final(database).delivered() == old(database).delivered())
            &&& (!process_entries ==> s.spec_entries() == Seq::<EntryView>::empty() && final(database).delivered() == old(database).delivered() + entry_pairs(
                s.spec_feed_id(),
                body_entries(body@),
            ))
        },
        r matches Err(e) ==> {
            &&& (e is RusqliteError || e is FeedNotFound)
            &&& (e is FeedNotFound ==> !old(database).feeds().dom().contains(url@) && final(database).delivered() == old(database).delivered())
            &&& (process_entries ==> final(database).delivered() == old(database).delivered())
        },
{
    let feed_id: i64 = match database.get_feed_id_by_url(url.as_str()) {
        Ok(Some(id)) => id,
        Ok(None) => {
            return Err(Error::FeedNotFound(url.clone()));
        },
        Err(e) => {
            return Err(e);
        },
    };
    let entries: Vec<Entry> = match parse_feed(body) {
        Ok(feed) => {
            let es = feed.entries();
            proof {
                assert(es.deep_view() =~= body_entries(body@));
            }
            es
        },
        Err(_) => {
            let es: Vec<Entry> = Vec::new();
            proof {
                assert(es.deep_view() =~= body_entries(body@));
            }
            es
        },
    };
    let missing: Vec<Entry> = match filter_missing(database, feed_id, &entries) {
        Ok(v) => v,
        Err(e) => {
            return Err(e);
        },
    };
    if !process_entries {
        let ghost d0 = database.delivered();
        let mut i: usize = 0;
        while i < missing.len()
            invariant
                i <= missing.len(),
                database.feeds() == old(database).feeds(),
                database.delivered() == d0 + entry_pairs(
                    feed_id as int,
                    missing.deep_view().take(i as int),
                ),
            decreases missing.len() - i,
        {
            proof {
                lemma_differ_excludes_guidless(d0, feed_id as int, entries.deep_view(), i as int);
            }
            let guid = missing[i].guid_str();
            match database.try_create_feed_entry(feed_id, guid) {
                Ok(()) => {},
                Err(e) => {
                    return Err(e);
                },
            }
            proof {
                let prefix = missing.deep_view().take(i as int);
                let next = missing.deep_view().take(i as int + 1);
                assert forall|p: (int, Seq<char>)|
                    entry_pairs(feed_id as int, next).contains(p) implies entry_pairs(
                    feed_id as int,
                    prefix,
                ).insert((feed_id as int, guid@)).contains(p) by {
                    let j = choose|j: int|
                        0 <= j < next.len() && (#[trigger] next[j]).guid == Some(p.1);
                    if j < i as int {
                        assert(prefix[j] == next[j]);
                        assert(entry_pairs(feed_id as int, prefix).contains(p));
                    } else {
                        assert(next[j] == missing.deep_view()[i as int]);
                        assert(p.1 == guid@);
                    }
                }
                assert forall|p: (int, Seq<char>)|
                    entry_pairs(feed_id as int, prefix).insert((feed_id as int, guid@)).contains(
                        p,
                    ) implies entry_pairs(feed_id as int, next).contains(p) by {
                    if entry_pairs(feed_id as int, prefix).contains(p) {
                        let j = choose|j: int|
                            0 <= j < prefix.len() && (#[trigger] prefix[j]).guid == Some(p.1);
                        assert(next[j] == prefix[j]);
                        assert((#[trigger] next[j]).guid == Some(p.1));
                    } else {
                        assert(p == (feed_id as int, guid@));
                        assert((#[trigger] next[i as int]).guid == Some(p.1));
                    }
                }
                assert(entry_pairs(feed_id as int, next) =~= entry_pairs(
                    feed_id as int,
                    prefix,
                ).insert((feed_id as int, guid@)));
                assert(database.delivered() =~= d0 + entry_pairs(feed_id as int, next));
            }
            i = i + 1;
        }
        proof {
            assert(missing.deep_view().take(missing.len() as int) =~= missing.deep_view());
            lemma_import_covers(d0, feed_id as int, entries.deep_view());
        }
        Ok(DeliverySession { feed_id, entries: Vec::new(), entry_idx: 0, prog_idx: 0 })
    } else {
        Ok(DeliverySession { feed_id, entries: missing, entry_idx: 0, prog_idx: 0 })
    }
}

/// The differ's query loop: one read-only existence check per candidate,
/// GUID-less candidates skipped.
#[verifier::loop_isolation(false)]
fn filter_missing(database: &Database, feed_id: i64, entries: &Vec<Entry>) -> (r: Result<
    Vec<Entry>,
    Error,
>)
    ensures
        r matches Ok(v) ==> v.deep_view() == missing_entries(
            database.delivered(),
            feed_id as int,
            entries.deep_view(),
        ),
        r matches Err(e) ==> e is RusqliteError,
{
    let mut missing: Vec<Entry> = Vec::new();
    let mut i: usize = 0;
    while i < entries.len()
        invariant
            i <= entries.len(),
            missing.deep_view() == missing_entries(
                database.delivered(),
                feed_id as int,
                entries.deep_view().take(i as int),
            ),
        decreases entries.len() - i,
    {
        let entry = &entries[i];
        let ghost prefix = entries.deep_view().take(i as int);
        let ghost pre = missing.deep_view();
        match &entry.guid {
            None => {},
            Some(guid) => {
                match query_entry_exists(database.connection(), feed_id, guid.as_str()) {
                    Ok(present) => {
                        if !present {
                            missing.push(clone_entry(entry));
                            proof {
                                assert(missing.deep_view() =~= pre.push(entry.deep_view()));
                            }
                        }
                    },
                    Err(m) => {
                        return Err(Error::RusqliteError(m));
                    },
                }
            },
        }
        proof {
            let next = entries.deep_view().take(i as int + 1);
            assert(next.drop_last() =~= prefix);
            assert(next.last() == entry.deep_view());
        }
        i = i + 1;
    }
    proof {
        assert(entries.deep_view().take(entries.len() as int) =~= entries.deep_view());
    }
    Ok(missing)
}

} // verus!
