//! The durable dedup store.
//!
//! The store persists two facts: which feed URL was registered with which
//! kind, and which (feed identity, GUID) pairs have already been delivered.
//! Both live in a sqlite database behind [`Database`]; the contents are
//! modelled by two spec-level names, [`feeds_of`] and [`entries_of`], and
//! every operation states how it reads or grows them. Delivery records are
//! append-only: no operation ever removes one.
use vstd::prelude::*;

use crate::error::Error;

verus! {

/// A sqlite database handle of the `rusqlite` crate; opaque to the verifier,
/// described only through [`feeds_of`] and [`entries_of`].
#[verifier::external_type_specification]
#[verifier::external_body]
pub struct ExConnection(rusqlite::Connection);

/// The feed rows stored behind a connection: each registered feed URL maps to
/// the pair (identity, kind discriminator).
pub uninterp spec fn feeds_of(c: rusqlite::Connection) -> Map<Seq<char>, (int, int)>;

/// The delivery records stored behind a connection: the set of
/// (feed identity, GUID) pairs already recorded as delivered.
pub uninterp spec fn entries_of(c: rusqlite::Connection) -> Set<(int, Seq<char>)>;

/// Relies on `rusqlite::Connection::open`: opens the sqlite database at
/// `path`, creating the file if it does not exist. Nothing is assumed about
/// the contents found there; they are whatever an earlier process left.
#[verifier::external_body]
fn open_connection(path: &str) -> (r: Result<rusqlite::Connection, String>) {
    rusqlite::Connection::open(path).map_err(|e| format!("{e}"))
}

/// Relies on `rusqlite::Connection::execute_batch` running two
/// `CREATE TABLE IF NOT EXISTS` statements: tables are created only when
/// absent, and no row is ever written or removed, so the contents are kept.
#[verifier::external_body]
fn create_schema(conn: &mut rusqlite::Connection) -> (r: Result<(), String>)
    ensures
        feeds_of(*final(conn)) == feeds_of(*old(conn)),
        entries_of(*final(conn)) == entries_of(*old(conn)),
{
    conn.execute_batch(
        "CREATE TABLE IF NOT EXISTS feeds (\
             id INTEGER PRIMARY KEY, url TEXT NOT NULL UNIQUE, type INTEGER NOT NULL);\
         CREATE TABLE IF NOT EXISTS entries (\
             id INTEGER PRIMARY KEY, feed_id INTEGER NOT NULL, guid TEXT NOT NULL,\
             UNIQUE (feed_id, guid));",
    )
    .map_err(|e| format!("{e}"))
}

/// Relies on `rusqlite::Connection::execute` with `INSERT OR IGNORE` on the
/// feeds table, whose url column is unique: a URL already registered is left
/// exactly as it was, and a new URL gets a fresh primary key. A failed
/// statement changes nothing (sqlite statements apply atomically).
#[verifier::external_body]
fn insert_feed(conn: &mut rusqlite::Connection, url: &str, kind: i64) -> (r: Result<(), String>)
    ensures
        entries_of(*final(conn)) == entries_of(*old(conn)),
        r is Err ==> feeds_of(*final(conn)) == feeds_of(*old(conn)),
        r is Ok && feeds_of(*old(conn)).dom().contains(url@) ==> feeds_of(*final(conn))
            == feeds_of(*old(conn)),
        r is Ok && !feeds_of(*old(conn)).dom().contains(url@) ==> (exists|id: int|
            feeds_of(*final(conn)) == feeds_of(*old(conn)).insert(url@, (id, kind as int))
                && (forall|u: Seq<char>|
                feeds_of(*old(conn)).dom().contains(u) ==> feeds_of(*old(conn))[u].0 != id)),
{
    conn.execute(
        "INSERT OR IGNORE INTO feeds (url, type) VALUES (?1, ?2)",
        &[&url as &dyn rusqlite::types::ToSql, &kind],
    )
    .map(|_| ())
    .map_err(|e| format!("{e}"))
}

/// Relies on `rusqlite::Connection::query_row` on the feeds table, whose url
/// column is unique: a returned row holds the feed's primary key, and
/// `QueryReturnedNoRows` means the URL is not registered.
#[verifier::external_body]
fn query_feed_id(conn: &rusqlite::Connection, url: &str) -> (r: Result<Option<i64>, String>)
    ensures
        r matches Ok(Some(id)) ==> feeds_of(*conn).dom().contains(url@) && feeds_of(*conn)[url@].0
            == id as int,
        r matches Ok(None) ==> !feeds_of(*conn).dom().contains(url@),
{
    match conn.query_row("SELECT id FROM feeds WHERE url = ?1", [url], |row| row.get(0)) {
        Ok(id) => Ok(Some(id)),
        Err(rusqlite::Error::QueryReturnedNoRows) => Ok(None),
        Err(e) => Err(format!("{e}")),
    }
}

/// Relies on `rusqlite::Connection::query_row` on the entries table: a
/// returned row means the (feed identity, GUID) pair is recorded delivered,
/// and `QueryReturnedNoRows` means it is not.
#[verifier::external_body]
pub(crate) fn query_entry_exists(conn: &rusqlite::Connection, feed_id: i64, guid: &str) -> (r: Result<
    bool,
    String,
>)
    ensures
        r matches Ok(b) ==> b == entries_of(*conn).contains((feed_id as int, guid@)),
{
    match conn.query_row(
        "SELECT 1 FROM entries WHERE feed_id = ?1 AND guid = ?2",
        &[&feed_id as &dyn rusqlite::types::ToSql, &guid],
        |row| row.get::<_, i64>(0),
    ) {
        Ok(_) => Ok(true),
        Err(rusqlite::Error::QueryReturnedNoRows) => Ok(false),
        Err(e) => Err(format!("{e}")),
    }
}

/// Relies on `rusqlite::Connection::execute` with `INSERT OR IGNORE` on the
/// entries table, whose (feed_id, guid) pair is unique: recording adds the
/// pair to the stored set, which is a no-op when it is already present. A
/// failed statement changes nothing (sqlite statements apply atomically).
#[verifier::external_body]
fn insert_entry(conn: &mut rusqlite::Connection, feed_id: i64, guid: &str) -> (r: Result<
    (),
    String,
>)
    ensures
        feeds_of(*final(conn)) == feeds_of(*old(conn)),
        r is Ok ==> entries_of(*final(conn)) == entries_of(*old(conn)).insert(
            (feed_id as int, guid@),
        ),
        r is Err ==> entries_of(*final(conn)) == entries_of(*old(conn)),
{
    conn.execute(
        "INSERT OR IGNORE INTO entries (feed_id, guid) VALUES (?1, ?2)",
        &[&feed_id as &dyn rusqlite::types::ToSql, &guid],
    )
    .map(|_| ())
    .map_err(|e| format!("{e}"))
}

/// The GUIDs of `guids`, in input order, whose pair with `feed_id` is not in
/// `delivered`: the anti-join the differ performs. Each occurrence of a
/// duplicate GUID is checked independently.
pub open spec fn missing_from(
    delivered: Set<(int, Seq<char>)>,
    feed_id: int,
    guids: Seq<Seq<char>>,
) -> Seq<Seq<char>>
    decreases guids.len(),
{
    if guids.len() == 0 {
        Seq::empty()
    } else {
        let rest = missing_from(delivered, feed_id, guids.drop_last());
        if delivered.contains((feed_id, guids.last())) {
            rest
        } else {
            rest.push(guids.last())
        }
    }
}

/// A GUID already recorded delivered for a feed is never reported missing for
/// that feed, whatever candidate list a later cycle offers: an entry present
/// in the store when a fresh process instance polls the feed is never
/// re-offered for delivery.
pub proof fn lemma_delivered_guid_never_missing(
    delivered: Set<(int, Seq<char>)>,
    feed_id: int,
    guids: Seq<Seq<char>>,
    guid: Seq<char>,
)
    requires
        delivered.contains((feed_id, guid)),
    ensures
        !missing_from(delivered, feed_id, guids).contains(guid),
    decreases guids.len(),
{
    if guids.len() > 0 {
        lemma_delivered_guid_never_missing(delivered, feed_id, guids.drop_last(), guid);
        let rest = missing_from(delivered, feed_id, guids.drop_last());
        if !delivered.contains((feed_id, guids.last())) {
            assert(guids.last() != guid);
            assert forall|j: int|
                0 <= j < rest.push(guids.last()).len() implies rest.push(guids.last())[j]
                != guid by {
                if j < rest.len() {
                    assert(!rest.contains(guid));
                }
            }
        }
    }
}

/// Idempotent delivery: recording a delivery twice yields the same store
/// state as recording it once, and a recorded GUID is never again reported
/// missing.
pub proof fn lemma_record_delivery_idempotent(
    delivered: Set<(int, Seq<char>)>,
    feed_id: int,
    guid: Seq<char>,
)
    ensures
        delivered.insert((feed_id, guid)).insert((feed_id, guid)) == delivered.insert(
            (feed_id, guid),
        ),
        forall|guids: Seq<Seq<char>>|
            !(#[trigger] missing_from(delivered.insert((feed_id, guid)), feed_id, guids)).contains(
                guid,
            ),
{
    assert(delivered.insert((feed_id, guid)).insert((feed_id, guid)) =~= delivered.insert(
        (feed_id, guid),
    ));
    assert forall|guids: Seq<Seq<char>>|
        !(#[trigger] missing_from(delivered.insert((feed_id, guid)), feed_id, guids)).contains(
            guid,
        ) by {
        lemma_delivered_guid_never_missing(
            delivered.insert((feed_id, guid)),
            feed_id,
            guids,
            guid,
        );
    }
}

/// Retry eligibility: a candidate GUID not recorded delivered is always
/// reported missing, so an entry whose every executable failed (and which was
/// therefore never recorded) is offered again on the next cycle.
pub proof fn lemma_undelivered_guid_still_missing(
    delivered: Set<(int, Seq<char>)>,
    feed_id: int,
    guids: Seq<Seq<char>>,
    i: int,
)
    requires
        0 <= i < guids.len(),
        !delivered.contains((feed_id, guids[i])),
    ensures
        missing_from(delivered, feed_id, guids).contains(guids[i]),
    decreases guids.len(),
{
    let result = missing_from(delivered, feed_id, guids);
    let rest = missing_from(delivered, feed_id, guids.drop_last());
    if i == guids.len() - 1 {
        assert(result == rest.push(guids.last()));
        assert(result[result.len() - 1] == guids[i]);
    } else {
        lemma_undelivered_guid_still_missing(delivered, feed_id, guids.drop_last(), i);
        assert(guids.drop_last()[i] == guids[i]);
        let j = choose|j: int| 0 <= j < rest.len() && rest[j] == guids[i];
        if !delivered.contains((feed_id, guids.last())) {
            assert(result[j] == guids[i]);
        }
    }
}

/// Order preservation over concatenation: candidates surviving from an
/// earlier part of the document always precede, in the differ's output, those
/// surviving from a later part.
pub proof fn lemma_missing_from_append(
    delivered: Set<(int, Seq<char>)>,
    feed_id: int,
    a: Seq<Seq<char>>,
    b: Seq<Seq<char>>,
)
    ensures
        missing_from(delivered, feed_id, a + b) == missing_from(delivered, feed_id, a)
            + missing_from(delivered, feed_id, b),
    decreases b.len(),
{
    if b.len() == 0 {
        assert(a + b =~= a);
        assert(missing_from(delivered, feed_id, b) =~= Seq::<Seq<char>>::empty());
        assert(missing_from(delivered, feed_id, a) + missing_from(delivered, feed_id, b)
            =~= missing_from(delivered, feed_id, a));
    } else {
        lemma_missing_from_append(delivered, feed_id, a, b.drop_last());
        assert((a + b).drop_last() =~= a + b.drop_last());
        assert((a + b).last() == b.last());
        if !delivered.contains((feed_id, b.last())) {
            assert(missing_from(delivered, feed_id, a) + missing_from(delivered, feed_id, b)
                =~= (missing_from(delivered, feed_id, a) + missing_from(
                delivered,
                feed_id,
                b.drop_last(),
            )).push(b.last()));
        }
    }
}

/// Order preservation, concretely: when no candidate is yet delivered (all
/// entries new), the differ returns the candidate GUIDs exactly as given, in
/// document order.
pub proof fn lemma_missing_from_all_new(
    delivered: Set<(int, Seq<char>)>,
    feed_id: int,
    guids: Seq<Seq<char>>,
)
    requires
        forall|i: int| 0 <= i < guids.len() ==> !delivered.contains((feed_id, #[trigger] guids[i])),
    ensures
        missing_from(delivered, feed_id, guids) == guids,
    decreases guids.len(),
{
    if guids.len() == 0 {
        assert(missing_from(delivered, feed_id, guids) =~= guids);
    } else {
        assert forall|i: int| 0 <= i < guids.drop_last().len() implies !delivered.contains(
            (feed_id, #[trigger] guids.drop_last()[i]),
        ) by {
            assert(guids.drop_last()[i] == guids[i]);
        }
        lemma_missing_from_all_new(delivered, feed_id, guids.drop_last());
        assert(guids[guids.len() - 1] == guids.last());
        assert(!delivered.contains((feed_id, guids.last())));
        assert(missing_from(delivered, feed_id, guids) =~= guids.drop_last().push(guids.last()));
        assert(guids.drop_last().push(guids.last()) =~= guids);
    }
}

/// The durable dedup store: a mapping from (feed identity, entry GUID) to
/// "delivered" that survives restarts, plus the registered feeds.
pub struct Database {
    connection: rusqlite::Connection,
}

impl Database {
    /// The registered feeds: each canonical URL maps to (identity, kind).
    pub closed spec fn feeds(&self) -> Map<Seq<char>, (int, int)> {
        feeds_of(self.connection)
    }

    /// The delivery records: the (feed identity, GUID) pairs recorded so far.
    pub closed spec fn delivered(&self) -> Set<(int, Seq<char>)> {
        entries_of(self.connection)
    }

    /// Opens (or creates) the store file at `path`. The contents are whatever
    /// an earlier process instance persisted there.
    pub fn open(path: &str) -> (r: Result<Database, Error>)
        ensures
            r matches Err(e) ==> e is RusqliteError,
    {
        match open_connection(path) {
            Ok(connection) => Ok(Database { connection }),
            Err(m) => Err(Error::RusqliteError(m)),
        }
    }

    /// Applies the schema unconditionally and idempotently, creating the two
    /// tables only when absent: registrations and delivery records already
    /// persisted are kept.
    pub fn init(&mut self) -> (r: Result<(), Error>)
        ensures
            final(self).feeds() == old(self).feeds(),
            final(self).delivered() == old(self).delivered(),
            r matches Err(e) ==> e is RusqliteError,
    {
        match create_schema(&mut self.connection) {
            Ok(()) => Ok(()),
            Err(m) => Err(Error::RusqliteError(m)),
        }
    }

    /// The underlying sqlite connection.
    pub fn connection(&self) -> (r: &rusqlite::Connection)
        ensures
            feeds_of(*r) == self.feeds(),
            entries_of(*r) == self.delivered(),
    {
        &self.connection
    }

    /// Idempotent feed registration: a URL not yet registered is stored under
    /// a fresh identity with the given kind; a URL already registered is left
    /// exactly as it was, whatever kind it holds (the kind is immutable once
    /// set). Fails only on a storage error, which changes nothing.
    pub fn try_create_feed(&mut self, feed_url: &str, kind: i64) -> (r: Result<(), Error>)
        ensures
            final(self).delivered() == old(self).delivered(),
            r matches Err(e) ==> e is RusqliteError && final(self).feeds() == old(self).feeds(),
            r is Ok ==> final(self).feeds().dom().contains(feed_url@),
            r is Ok && old(self).feeds().dom().contains(feed_url@) ==> final(self).feeds() == old(
                self,
            ).feeds(),
            r is Ok && !old(self).feeds().dom().contains(feed_url@) ==> (exists|id: int|
                final(self).feeds() == old(self).feeds().insert(feed_url@, (id, kind as int))
                    && (forall|u: Seq<char>|
                    old(self).feeds().dom().contains(u) ==> old(self).feeds()[u].0 != id)),
    {
        match insert_feed(&mut self.connection, feed_url, kind) {
            Ok(()) => Ok(()),
            Err(m) => Err(Error::RusqliteError(m)),
        }
    }

    /// Feed identity lookup. `Ok(Some(id))` is the identity registered for
    /// `feed_url`; `Ok(None)` means no probe ever registered the URL, a
    /// normal outcome distinct from a storage error.
    pub fn get_feed_id_by_url(&self, feed_url: &str) -> (r: Result<Option<i64>, Error>)
        ensures
            r matches Ok(Some(id)) ==> self.feeds().dom().contains(feed_url@)
                && self.feeds()[feed_url@].0 == id as int,
            r matches Ok(None) ==> !self.feeds().dom().contains(feed_url@),
            r matches Err(e) ==> e is RusqliteError,
    {
        match query_feed_id(&self.connection, feed_url) {
            Ok(found) => Ok(found),
            Err(m) => Err(Error::RusqliteError(m)),
        }
    }

    /// The anti-join of the differ: of the candidate GUIDs, in input order,
    /// exactly those not yet recorded delivered for `feed_id`. Duplicate
    /// candidates are each checked independently against the same store.
    pub fn find_missing_guids(&self, feed_id: i64, guids: &Vec<String>) -> (r: Result<
        Vec<String>,
        Error,
    >)
        ensures
            r matches Ok(v) ==> v.deep_view() == missing_from(
                self.delivered(),
                feed_id as int,
                guids.deep_view(),
            ),
            r matches Err(e) ==> e is RusqliteError,
    {
        let mut missing: Vec<String> = Vec::new();
        let mut i: usize = 0;
        while i < guids.len()
            invariant
                i <= guids.len(),
                missing.deep_view() == missing_from(
                    self.delivered(),
                    feed_id as int,
                    guids.deep_view().take(i as int),
                ),
            decreases guids.len() - i,
        {
            let guid = &guids[i];
            let ghost prefix = guids.deep_view().take(i as int);
            let ghost pre_missing = missing.deep_view();
            match query_entry_exists(&self.connection, feed_id, guid.as_str()) {
                Ok(present) => {
                    if !present {
                        missing.push(guid.clone());
                        proof {
                            assert(missing.deep_view() =~= pre_missing.push(guid@));
                        }
                    }
                },
                Err(m) => {
                    return Err(Error::RusqliteError(m));
                },
            }
            proof {
                let next = guids.deep_view().take(i as int + 1);
                assert(next.drop_last() =~= prefix);
                assert(next.last() == guid@);
            }
            i = i + 1;
        }
        proof {
            assert(guids.deep_view().take(guids.len() as int) =~= guids.deep_view());
        }
        Ok(missing)
    }

    /// Idempotent delivery record: after success the pair
    /// (`feed_id`, `guid`) is in the store, and recording a pair already
    /// present is a no-op, never an error. Records are never removed. Fails
    /// only on a storage error, which changes nothing.
    pub fn try_create_feed_entry(&mut self, feed_id: i64, guid: &str) -> (r: Result<(), Error>)
        ensures
            final(self).feeds() == old(self).feeds(),
            r is Ok ==> final(self).delivered() == old(self).delivered().insert(
                (feed_id as int, guid@),
            ),
            r matches Err(e) ==> e is RusqliteError && final(self).delivered() == old(
                self,
            ).delivered(),
    {
        match insert_entry(&mut self.connection, feed_id, guid) {
            Ok(()) => Ok(()),
            Err(m) => Err(Error::RusqliteError(m)),
        }
    }
}

} // verus!
