//! Tests of the watcher: probing, diffing and the delivery state machine.
use rss_watch::DeliverySession;
use rss_watch::Error;
use rss_watch::Launch;
use rss_watch::Watcher;
use rss_watch::is_executable;

const FEED_URL: &str = "https://feed.example/rss";

fn rss_body() -> &'static str {
    r#"<?xml version="1.0" encoding="utf-8"?>
<rss version="2.0"><channel><title>t</title><link>u</link><description>d</description>
<item><guid>abc-123</guid><title>Hello</title><link>https://x/1</link></item>
<item><title>undeliverable: no guid</title></item>
<item><guid>g2</guid></item>
<item><guid>g3</guid><title>Third</title></item>
</channel></rss>"#
}

fn five_entry_body() -> &'static str {
    r#"<?xml version="1.0" encoding="utf-8"?>
<rss version="2.0"><channel><title>t</title><link>u</link><description>d</description>
<item><guid>s1</guid></item>
<item><guid>s2</guid></item>
<item><guid>s3</guid></item>
<item><guid>s4</guid></item>
<item><guid>s5</guid></item>
</channel></rss>"#
}

fn ready_watcher(path: &str, body: &str, scripts: Vec<String>) -> Watcher {
    let mut watcher = Watcher::new(FEED_URL.to_string(), 60_000, scripts);
    watcher.open_database(path).expect("open store");
    watcher.probe(body).expect("probe");
    watcher
}

/// Walks a whole session, reporting the given outcome for every launch, and
/// returns the (program, guid) pairs in launch order.
fn drain(watcher: &mut Watcher, session: &mut DeliverySession, success: bool) -> Vec<(String, String)> {
    let mut seen: Vec<(String, String)> = Vec::new();
    while let Some(launch) = watcher.next_launch(session) {
        seen.push((launch.program.clone(), launch.guid.clone()));
        watcher.report_outcome(session, success).expect("report");
    }
    seen
}

#[test]
fn watcher_reports_its_interval() {
    let watcher = Watcher::new(FEED_URL.to_string(), 1234, vec![]);
    assert_eq!(watcher.interval(), 1234);
}

#[test]
fn process_feed_requires_a_probed_feed() {
    let mut watcher = Watcher::new(FEED_URL.to_string(), 1000, vec!["/bin/x".to_string()]);
    watcher.open_database(":memory:").expect("open store");
    // no probe ran: the feed is not registered, a distinct error
    let r = watcher.process_feed(rss_body(), true);
    assert!(matches!(r, Err(Error::FeedNotFound(u)) if u == FEED_URL));
}

#[test]
fn probe_registers_the_feed_once() {
    let mut watcher = ready_watcher(":memory:", rss_body(), vec![]);
    // a second probe is idempotent
    watcher.probe(rss_body()).expect("probe again");
    let session = watcher.process_feed(rss_body(), true).expect("cycle");
    assert!(session.feed_id() > 0);
}

#[test]
fn probe_failure_aborts() {
    let mut watcher = Watcher::new(FEED_URL.to_string(), 1000, vec![]);
    watcher.open_database(":memory:").expect("open store");
    let r = watcher.probe("no feed of any format");
    assert!(matches!(r, Err(Error::FeedParseError(_))));
    // nothing was registered
    let r = watcher.process_feed(rss_body(), true);
    assert!(matches!(r, Err(Error::FeedNotFound(_))));
}

#[test]
fn guidless_entries_are_never_offered() {
    let mut watcher = ready_watcher(
        ":memory:",
        rss_body(),
        vec!["/bin/a".to_string()],
    );
    let mut session = watcher.process_feed(rss_body(), true).expect("cycle");
    let seen = drain(&mut watcher, &mut session, true);
    let guids: Vec<String> = seen.into_iter().map(|(_, g)| g).collect();
    // three deliverable entries; the GUID-less one is absent
    assert_eq!(
        guids,
        vec!["abc-123".to_string(), "g2".to_string(), "g3".to_string()]
    );
}

#[test]
fn environment_contract() {
    let mut watcher = ready_watcher(
        ":memory:",
        rss_body(),
        vec!["/bin/notify".to_string()],
    );
    let mut session = watcher.process_feed(rss_body(), true).expect("cycle");
    let launch: Launch = watcher.next_launch(&session).expect("first launch");
    assert_eq!(launch.program, "/bin/notify");
    let env = launch.env();
    assert_eq!(
        env,
        vec![
            ("FEED_URL".to_string(), FEED_URL.to_string()),
            ("FEED_GUID".to_string(), "abc-123".to_string()),
            ("FEED_LINK".to_string(), "https://x/1".to_string()),
            ("FEED_TITLE".to_string(), "Hello".to_string()),
        ]
    );
    // a missing link or title renders as the empty string, not as absence
    watcher.report_outcome(&mut session, true).expect("report");
    let launch = watcher.next_launch(&session).expect("second launch");
    let env = launch.env();
    assert_eq!(env[1], ("FEED_GUID".to_string(), "g2".to_string()));
    assert_eq!(env[2], ("FEED_LINK".to_string(), String::new()));
    assert_eq!(env[3], ("FEED_TITLE".to_string(), String::new()));
}

#[test]
fn order_is_entries_outer_programs_inner() {
    let mut watcher = ready_watcher(
        ":memory:",
        rss_body(),
        vec!["/bin/a".to_string(), "/bin/b".to_string()],
    );
    let mut session = watcher.process_feed(rss_body(), true).expect("cycle");
    let seen = drain(&mut watcher, &mut session, false);
    let expect: Vec<(String, String)> = vec![
        ("/bin/a".to_string(), "abc-123".to_string()),
        ("/bin/b".to_string(), "abc-123".to_string()),
        ("/bin/a".to_string(), "g2".to_string()),
        ("/bin/b".to_string(), "g2".to_string()),
        ("/bin/a".to_string(), "g3".to_string()),
        ("/bin/b".to_string(), "g3".to_string()),
    ];
    assert_eq!(seen, expect);
}

#[test]
fn failed_entries_stay_eligible_for_retry() {
    let mut watcher = ready_watcher(
        ":memory:",
        rss_body(),
        vec!["/bin/a".to_string(), "/bin/b".to_string()],
    );
    let mut session = watcher.process_feed(rss_body(), true).expect("first cycle");
    // every configured executable fails for every entry
    let seen = drain(&mut watcher, &mut session, false);
    assert_eq!(seen.len(), 6);
    // nothing was recorded: the next cycle re-offers the whole chain
    let mut session = watcher.process_feed(rss_body(), true).expect("second cycle");
    let seen = drain(&mut watcher, &mut session, false);
    assert_eq!(seen.len(), 6);
}

#[test]
fn first_success_marks_delivered() {
    let mut watcher = ready_watcher(
        ":memory:",
        rss_body(),
        vec!["/bin/a".to_string(), "/bin/b".to_string()],
    );
    let mut session = watcher.process_feed(rss_body(), true).expect("first cycle");
    // first executable succeeds, second fails: the entry is delivered anyway
    let first = watcher.next_launch(&session).expect("launch a");
    assert_eq!(first.guid, "abc-123");
    watcher.report_outcome(&mut session, true).expect("report a");
    let second = watcher.next_launch(&session).expect("launch b");
    assert_eq!(second.guid, "abc-123");
    watcher.report_outcome(&mut session, false).expect("report b");
    // later cycles never offer abc-123 again
    let mut session = watcher.process_feed(rss_body(), true).expect("second cycle");
    let seen = drain(&mut watcher, &mut session, false);
    assert!(seen.iter().all(|(_, g)| g != "abc-123"));
    assert_eq!(seen.len(), 4);
}

#[test]
fn delivered_entries_survive_a_restart() {
    let path = "/tmp/rss_watch_test_deliver_restart.db";
    {
        let mut watcher = ready_watcher(path, rss_body(), vec!["/bin/a".to_string()]);
        let mut session = watcher.process_feed(rss_body(), true).expect("cycle");
        // deliver whatever this instance still finds new, then "crash"
        drain(&mut watcher, &mut session, true);
    }
    // a fresh instance polling the same feed, with abc-123 present in the
    // fetched document, never invokes any executable for it
    let mut watcher = ready_watcher(path, rss_body(), vec!["/bin/a".to_string()]);
    let mut session = watcher.process_feed(rss_body(), true).expect("cycle");
    let seen = drain(&mut watcher, &mut session, false);
    assert!(seen.iter().all(|(_, g)| g != "abc-123"));
    assert!(seen.is_empty());
}

#[test]
fn import_only_seeds_without_launching() {
    let mut watcher = ready_watcher(
        ":memory:",
        five_entry_body(),
        vec!["/bin/a".to_string()],
    );
    let mut session = watcher.process_feed(five_entry_body(), false).expect("import");
    // no launch at all in import mode
    assert!(watcher.next_launch(&session).is_none());
    assert!(drain(&mut watcher, &mut session, true).is_empty());
    // but every entry was recorded: a later real cycle finds nothing new
    let mut session = watcher.process_feed(five_entry_body(), true).expect("cycle");
    assert!(drain(&mut watcher, &mut session, true).is_empty());
}

fn atom_body() -> &'static str {
    r#"<?xml version="1.0" encoding="utf-8"?>
<feed xmlns="http://www.w3.org/2005/Atom">
<title>Example</title><id>urn:example:feed</id><updated>2003-12-13T18:30:02Z</updated>
<entry><id>a1</id><title>First</title><updated>2003-12-13T18:30:02Z</updated>
<link rel="alternate" href="https://x/a1"/></entry>
</feed>"#
}

#[test]
fn atom_feeds_deliver_their_alternate_links() {
    let mut watcher = ready_watcher(":memory:", atom_body(), vec!["/bin/a".to_string()]);
    let mut session = watcher.process_feed(atom_body(), true).expect("cycle");
    let launch = watcher.next_launch(&session).expect("launch");
    let env = launch.env();
    assert_eq!(env[1], ("FEED_GUID".to_string(), "a1".to_string()));
    assert_eq!(env[2], ("FEED_LINK".to_string(), "https://x/a1".to_string()));
    assert_eq!(env[3], ("FEED_TITLE".to_string(), "First".to_string()));
    watcher.report_outcome(&mut session, true).expect("report");
    assert!(watcher.next_launch(&session).is_none());
}

#[test]
fn empty_feed_yields_no_launch() {
    let body = r#"<?xml version="1.0" encoding="utf-8"?>
<rss version="2.0"><channel><title>t</title><link>u</link><description>d</description>
</channel></rss>"#;
    let mut watcher = ready_watcher(":memory:", body, vec!["/bin/a".to_string()]);
    let session = watcher.process_feed(body, true).expect("cycle");
    assert!(watcher.next_launch(&session).is_none());
}

#[test]
fn unparseable_body_skips_the_cycle() {
    // a steady-state cycle with a body neither format accepts processes no
    // entries but is not an error
    let mut watcher = ready_watcher(":memory:", rss_body(), vec!["/bin/a".to_string()]);
    let session = watcher
        .process_feed("suddenly, not xml", true)
        .expect("cycle succeeds");
    assert!(watcher.next_launch(&session).is_none());
}

#[test]
fn no_configured_executable_means_no_launch() {
    let mut watcher = ready_watcher(":memory:", rss_body(), vec![]);
    let session = watcher.process_feed(rss_body(), true).expect("cycle");
    assert!(watcher.next_launch(&session).is_none());
}

#[test]
fn executable_mode_check() {
    assert!(is_executable(0o755));
    assert!(is_executable(0o100));
    assert!(is_executable(0o010));
    assert!(is_executable(0o001));
    assert!(!is_executable(0o644));
    assert!(!is_executable(0o000));
    assert!(!is_executable(0o200));
}
