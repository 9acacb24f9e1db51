//! Feed parsing and normalization.
//!
//! A raw response body is interpreted as Atom first and as RSS second; the
//! winning format's entries are reduced to plain values ([`RssItem`],
//! [`AtomEntry`]) and then normalized into format-agnostic [`Entry`] records,
//! so that the differ and the delivery engine never branch on the feed kind.
use vstd::prelude::*;

use crate::error::Error;
use crate::error::FeedParseError;

verus! {

/// The view of an optional borrowed string.
pub open spec fn str_opt_view(o: Option<&str>) -> Option<Seq<char>> {
    match o {
        Some(s) => Some(s@),
        None => None,
    }
}

/// The shared capability set of a feed entry, whatever format supplied it: an
/// optional title, link and unique id (GUID).
pub trait FeedExt {
    /// The title of this feed entry, if any, at the spec level.
    spec fn spec_title(&self) -> Option<Seq<char>>;

    /// The link of this feed entry, if any, at the spec level.
    spec fn spec_link(&self) -> Option<Seq<char>>;

    /// The unique id (GUID) of this feed entry, if any, at the spec level.
    spec fn spec_guid(&self) -> Option<Seq<char>>;

    /// Returns the title of this feed entry, if any.
    fn title(&self) -> (r: Option<&str>)
        ensures
            str_opt_view(r) == self.spec_title(),
    ;

    /// Returns the link of this feed entry, if any.
    fn link(&self) -> (r: Option<&str>)
        ensures
            str_opt_view(r) == self.spec_link(),
    ;

    /// Returns the unique id (GUID) of this feed entry, if any.
    fn guid(&self) -> (r: Option<&str>)
        ensures
            str_opt_view(r) == self.spec_guid(),
    ;
}

/// One item of an RSS channel, reduced to the three attributes the watcher
/// reads. RSS guarantees none of them.
pub struct RssItem {
    pub guid: Option<String>,
    pub title: Option<String>,
    pub link: Option<String>,
}

/// The spec-level value of an [`RssItem`].
pub ghost struct RssItemView {
    pub guid: Option<Seq<char>>,
    pub title: Option<Seq<char>>,
    pub link: Option<Seq<char>>,
}

impl DeepView for RssItem {
    type V = RssItemView;

    open spec fn deep_view(&self) -> RssItemView {
        RssItemView {
            guid: self.guid.deep_view(),
            title: self.title.deep_view(),
            link: self.link.deep_view(),
        }
    }
}

impl FeedExt for RssItem {
    open spec fn spec_title(&self) -> Option<Seq<char>> {
        self.deep_view().title
    }

    open spec fn spec_link(&self) -> Option<Seq<char>> {
        self.deep_view().link
    }

    open spec fn spec_guid(&self) -> Option<Seq<char>> {
        self.deep_view().guid
    }

    fn title(&self) -> (r: Option<&str>) {
        match &self.title {
            Some(t) => Some(t.as_str()),
            None => None,
        }
    }

    fn link(&self) -> (r: Option<&str>) {
        match &self.link {
            Some(l) => Some(l.as_str()),
            None => None,
        }
    }

    fn guid(&self) -> (r: Option<&str>) {
        match &self.guid {
            Some(g) => Some(g.as_str()),
            None => None,
        }
    }
}

/// One link of an Atom entry: its relation and target.
pub struct AtomLink {
    pub rel: String,
    pub href: String,
}

/// The spec-level value of an [`AtomLink`].
pub ghost struct AtomLinkView {
    pub rel: Seq<char>,
    pub href: Seq<char>,
}

impl DeepView for AtomLink {
    type V = AtomLinkView;

    open spec fn deep_view(&self) -> AtomLinkView {
        AtomLinkView { rel: self.rel@, href: self.href@ }
    }
}

/// The href of the first link whose relation is "alternate", if any: the link
/// an Atom entry exposes to the watcher.
pub open spec fn alternate_link(links: Seq<AtomLinkView>) -> Option<Seq<char>>
    decreases links.len(),
{
    if links.len() == 0 {
        None
    } else if links.first().rel == "alternate"@ {
        Some(links.first().href)
    } else {
        alternate_link(links.drop_first())
    }
}

/// One entry of an Atom feed, reduced to the attributes the watcher reads.
/// Atom guarantees an id and a title; links carry a relation.
pub struct AtomEntry {
    pub id: String,
    pub title: String,
    pub links: Vec<AtomLink>,
}

/// The spec-level value of an [`AtomEntry`].
pub ghost struct AtomEntryView {
    pub id: Seq<char>,
    pub title: Seq<char>,
    pub links: Seq<AtomLinkView>,
}

impl DeepView for AtomEntry {
    type V = AtomEntryView;

    open spec fn deep_view(&self) -> AtomEntryView {
        AtomEntryView { id: self.id@, title: self.title@, links: self.links.deep_view() }
    }
}

impl FeedExt for AtomEntry {
    open spec fn spec_title(&self) -> Option<Seq<char>> {
        Some(self.title@)
    }

    open spec fn spec_link(&self) -> Option<Seq<char>> {
        alternate_link(self.links.deep_view())
    }

    open spec fn spec_guid(&self) -> Option<Seq<char>> {
        Some(self.id@)
    }

    fn title(&self) -> (r: Option<&str>) {
        Some(self.title.as_str())
    }

    #[verifier::loop_isolation(false)]
    fn link(&self) -> (r: Option<&str>) {
        let alt: String = "alternate".to_owned();
        let mut i: usize = 0;
        proof {
            assert(self.links.deep_view().skip(0) =~= self.links.deep_view());
        }
        while i < self.links.len()
            invariant
                i <= self.links.len(),
                alternate_link(self.links.deep_view()) == alternate_link(
                    self.links.deep_view().skip(i as int),
                ),
            decreases self.links.len() - i,
        {
            if self.links[i].rel == alt {
                proof {
                    let rest = self.links.deep_view().skip(i as int);
                    assert(rest.first() == self.links@[i as int].deep_view());
                    assert(rest.first().rel == "alternate"@);
                }
                return Some(self.links[i].href.as_str());
            }
            proof {
                let rest = self.links.deep_view().skip(i as int);
                assert(rest.first() == self.links@[i as int].deep_view());
                assert(rest.drop_first() =~= self.links.deep_view().skip(i as int + 1));
            }
            i = i + 1;
        }
        proof {
            assert(self.links.deep_view().skip(self.links@.len() as int)
                =~= Seq::<AtomLinkView>::empty());
        }
        None
    }

    fn guid(&self) -> (r: Option<&str>) {
        Some(self.id.as_str())
    }
}

/// A normalized feed entry: the transient record one poll cycle works with.
/// Only the GUID decides deliverability; title and link exist solely to
/// populate the execution environment.
pub struct Entry {
    pub guid: Option<String>,
    pub title: Option<String>,
    pub link: Option<String>,
}

/// The spec-level value of an [`Entry`].
pub ghost struct EntryView {
    pub guid: Option<Seq<char>>,
    pub title: Option<Seq<char>>,
    pub link: Option<Seq<char>>,
}

impl DeepView for Entry {
    type V = EntryView;

    open spec fn deep_view(&self) -> EntryView {
        EntryView {
            guid: self.guid.deep_view(),
            title: self.title.deep_view(),
            link: self.link.deep_view(),
        }
    }
}

impl FeedExt for Entry {
    open spec fn spec_title(&self) -> Option<Seq<char>> {
        self.deep_view().title
    }

    open spec fn spec_link(&self) -> Option<Seq<char>> {
        self.deep_view().link
    }

    open spec fn spec_guid(&self) -> Option<Seq<char>> {
        self.deep_view().guid
    }

    fn title(&self) -> (r: Option<&str>) {
        match &self.title {
            Some(t) => Some(t.as_str()),
            None => None,
        }
    }

    fn link(&self) -> (r: Option<&str>) {
        match &self.link {
            Some(l) => Some(l.as_str()),
            None => None,
        }
    }

    fn guid(&self) -> (r: Option<&str>) {
        match &self.guid {
            Some(g) => Some(g.as_str()),
            None => None,
        }
    }
}

/// How an RSS item normalizes: the three attributes carry over unchanged.
pub open spec fn norm_rss_item(i: RssItemView) -> EntryView {
    EntryView { guid: i.guid, title: i.title, link: i.link }
}

/// How an Atom entry normalizes: id and title are always present, and the
/// link is the one whose relation is "alternate", absent when there is none.
pub open spec fn norm_atom_entry(e: AtomEntryView) -> EntryView {
    EntryView { guid: Some(e.id), title: Some(e.title), link: alternate_link(e.links) }
}

impl Entry {
    /// The GUID of an entry known to carry one.
    pub fn guid_str(&self) -> (r: &str)
        requires
            self.deep_view().guid is Some,
        ensures
            Some(r@) == self.deep_view().guid,
    {
        match &self.guid {
            Some(g) => g.as_str(),
            None => {
                proof {
                    assert(false);
                }
                ""
            },
        }
    }
}

/// Clones a normalized entry.
pub(crate) fn clone_entry(e: &Entry) -> (r: Entry)
    ensures
        r == *e,
{
    Entry {
        guid: clone_opt_string(&e.guid),
        title: clone_opt_string(&e.title),
        link: clone_opt_string(&e.link),
    }
}

/// Clones an optional string.
fn clone_opt_string(o: &Option<String>) -> (r: Option<String>)
    ensures
        r == *o,
{
    match o {
        Some(s) => Some(s.clone()),
        None => None,
    }
}

/// What the Atom parser makes of a body: the reduced entries of the document
/// when it parses as Atom, `None` when it does not. Parsing depends on the
/// body text alone.
pub uninterp spec fn atom_parse_of(body: Seq<char>) -> Option<Seq<AtomEntryView>>;

/// Relies on `atom_syndication::Feed::from_str`, whose result depends on the
/// body text alone; each parsed entry is reduced to its id, title and links.
#[verifier::external_body]
fn parse_atom(body: &str) -> (r: Result<Vec<AtomEntry>, String>)
    ensures
        r matches Ok(v) ==> atom_parse_of(body@) == Some(v.deep_view()),
        r is Err ==> atom_parse_of(body@) is None,
{
    match body.parse::<atom_syndication::Feed>() {
        Ok(feed) => Ok(feed.entries().iter().map(|e| AtomEntry {
            id: e.id().to_string(),
            title: e.title().as_str().to_string(),
            links: e.links().iter().map(|l| AtomLink {
                rel: l.rel().to_string(),
                href: l.href().to_string(),
            }).collect(),
        }).collect()),
        Err(e) => Err(format!("{e}")),
    }
}

/// What the RSS parser makes of a body: the reduced items of the document
/// when it parses as RSS, `None` when it does not. Parsing depends on the
/// body text alone.
pub uninterp spec fn rss_parse_of(body: Seq<char>) -> Option<Seq<RssItemView>>;

/// Relies on `rss::Channel::read_from`, whose result depends on the body text
/// alone; each parsed item is reduced to its guid value, title and link.
#[verifier::external_body]
fn parse_rss(body: &str) -> (r: Result<Vec<RssItem>, String>)
    ensures
        r matches Ok(v) ==> rss_parse_of(body@) == Some(v.deep_view()),
        r is Err ==> rss_parse_of(body@) is None,
{
    match rss::Channel::read_from(std::io::BufReader::new(std::io::Cursor::new(body))) {
        Ok(channel) => Ok(channel.items().iter().map(|i| RssItem {
            guid: i.guid().map(|g| g.value().to_string()),
            title: i.title().map(|t| t.to_string()),
            link: i.link().map(|l| l.to_string()),
        }).collect()),
        Err(e) => Err(format!("{e}")),
    }
}

/// A parsed feed: the document's entries reduced to plain values, tagged with
/// the format that interpreted the document.
pub enum Feed {
    Rss(Vec<RssItem>),
    Atom(Vec<AtomEntry>),
}

impl Feed {
    /// The normalized entries of the parsed document, in document order.
    pub open spec fn spec_entries(&self) -> Seq<EntryView> {
        match self {
            Feed::Rss(items) => Seq::new(
                items.deep_view().len(),
                |i: int| norm_rss_item(items.deep_view()[i]),
            ),
            Feed::Atom(entries) => Seq::new(
                entries.deep_view().len(),
                |i: int| norm_atom_entry(entries.deep_view()[i]),
            ),
        }
    }

    /// Normalizes the parsed document into format-agnostic entries, in
    /// document order: the differ and the delivery engine never branch on the
    /// feed kind.
    #[verifier::loop_isolation(false)]
    pub fn entries(&self) -> (r: Vec<Entry>)
        ensures
            r.deep_view() == self.spec_entries(),
    {
        let mut out: Vec<Entry> = Vec::new();
        match self {
            Feed::Rss(items) => {
                let mut i: usize = 0;
                while i < items.len()
                    invariant
                        i <= items.len(),
                        out.deep_view() == self.spec_entries().take(i as int),
                    decreases items.len() - i,
                {
                    let item = &items[i];
                    let e = Entry {
                        guid: clone_opt_string(&item.guid),
                        title: clone_opt_string(&item.title),
                        link: clone_opt_string(&item.link),
                    };
                    let ghost pre = out.deep_view();
                    proof {
                        assert(e.deep_view() == norm_rss_item(items.deep_view()[i as int]));
                    }
                    out.push(e);
                    proof {
                        assert(out.deep_view() =~= pre.push(
                            norm_rss_item(items.deep_view()[i as int]),
                        ));
                        assert(out.deep_view() =~= self.spec_entries().take(i as int + 1));
                    }
                    i = i + 1;
                }
            },
            Feed::Atom(entries) => {
                let mut i: usize = 0;
                while i < entries.len()
                    invariant
                        i <= entries.len(),
                        out.deep_view() == self.spec_entries().take(i as int),
                    decreases entries.len() - i,
                {
                    let entry = &entries[i];
                    let link: Option<String> = match entry.link() {
                        Some(s) => Some(s.to_owned()),
                        None => None,
                    };
                    let e = Entry {
                        guid: Some(entry.id.clone()),
                        title: Some(entry.title.clone()),
                        link,
                    };
                    let ghost pre = out.deep_view();
                    proof {
                        assert(e.deep_view() == norm_atom_entry(entries.deep_view()[i as int]));
                    }
                    out.push(e);
                    proof {
                        assert(out.deep_view() =~= pre.push(
                            norm_atom_entry(entries.deep_view()[i as int]),
                        ));
                        assert(out.deep_view() =~= self.spec_entries().take(i as int + 1));
                    }
                    i = i + 1;
                }
            },
        }
        proof {
            assert(self.spec_entries().take(self.spec_entries().len() as int)
                =~= self.spec_entries());
        }
        out
    }
}

/// Turns a raw response body into a parsed feed, auto-detecting the format:
/// the body is attempted as Atom first, and one that Atom rejects is
/// attempted as RSS. Exactly the bodies that at least one format accepts
/// parse successfully; when both reject, the error wraps the RSS failure (the
/// Atom failure is diagnostic only, a deliberately preserved asymmetry).
pub fn parse_feed(body: &str) -> (r: Result<Feed, Error>)
    ensures
        r is Ok <==> (atom_parse_of(body@) is Some || rss_parse_of(body@) is Some),
        r matches Ok(f) ==> (match f {
            Feed::Atom(entries) => atom_parse_of(body@) == Some(entries.deep_view()),
            Feed::Rss(items) => atom_parse_of(body@) is None && rss_parse_of(body@) == Some(
                items.deep_view(),
            ),
        }),
        r matches Err(e) ==> e matches Error::FeedParseError(FeedParseError::RssError(_)),
{
    match parse_atom(body) {
        Ok(entries) => Ok(Feed::Atom(entries)),
        Err(_) => match parse_rss(body) {
            Ok(items) => Ok(Feed::Rss(items)),
            Err(m) => Err(Error::FeedParseError(FeedParseError::RssError(m))),
        },
    }
}

} // verus!
