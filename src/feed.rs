//! The syndication feed of what was published in one run.

use vstd::prelude::*;

verus! {

#[verifier::external_type_specification]
#[verifier::external_body]
pub struct ExUrlParseError(url::ParseError);

#[verifier::external_type_specification]
#[verifier::external_body]
pub struct ExRssError(rss::Error);

/// The URL that `reference` resolves to against the base URL `base`, or
/// `None` where either text is refused.
pub uninterp spec fn url_join(base: Seq<char>, reference: Seq<char>) -> Option<Seq<char>>;

/// The pretty-printed RSS document of one channel with the given title,
/// description and items (title and link each), or `None` where writing fails.
pub uninterp spec fn rss_document(
    title: Seq<char>,
    description: Seq<char>,
    items: Seq<(Seq<char>, Seq<char>)>,
) -> Option<Seq<u8>>;

/// Relies on url::Url::parse and url::Url::join: `base` is parsed as an
/// absolute URL and `reference` resolved against it, which depends on the two
/// texts alone.
#[verifier::external_body]
fn join_url(base: &str, reference: &str) -> (r: Result<String, url::ParseError>)
    ensures
        match r {
            Ok(link) => url_join(base@, reference@) == Some(link@),
            Err(_) => url_join(base@, reference@) is None,
        },
{
    url::Url::parse(base).and_then(|u| u.join(reference)).map(|u| String::from(u.as_str()))
}

/// Relies on rss::ItemBuilder, rss::ChannelBuilder and
/// rss::Channel::pretty_write_to (indented by four spaces): the document
/// depends on the channel's title, description and items alone.
#[verifier::external_body]
fn render_channel(title: &str, description: &str, entries: &Vec<FeedEntry>) -> (r: Result<
    Vec<u8>,
    rss::Error,
>)
    ensures
        match r {
            Ok(bytes) => rss_document(title@, description@, entries_view(entries@)) == Some(
                bytes@,
            ),
            Err(_) => rss_document(title@, description@, entries_view(entries@)) is None,
        },
{
    let items: Vec<rss::Item> = entries.iter().map(
        |e| rss::ItemBuilder::default().title(e.title.clone()).link(e.link.clone()).build(),
    ).collect();
    let channel = rss::ChannelBuilder::default().title(title).description(description).items(
        items,
    ).build();
    channel.pretty_write_to(Vec::new(), b' ', 4)
}

/// One item of the feed.
pub struct FeedEntry {
    /// The published file name.
    pub title: String,
    /// Where the published file is served.
    pub link: String,
}

/// Title and link of each entry.
pub open spec fn entries_view(entries: Seq<FeedEntry>) -> Seq<(Seq<char>, Seq<char>)> {
    entries.map_values(|e: FeedEntry| (e.title@, e.link@))
}

/// The channel's fixed title.
pub open spec fn channel_title() -> Seq<char> {
    "aircheq-podcast"@
}

/// The channel's fixed description.
pub open spec fn channel_description() -> Seq<char> {
    "aircheq podcast server"@
}

/// How one character of a file name stands in a link: the characters that a
/// URL would read as a query, a fragment, an escape or a separator are
/// percent-encoded.
pub open spec fn escaped_char(c: char) -> Seq<char> {
    if c == '%' {
        seq!['%', '2', '5']
    } else if c == '?' {
        seq!['%', '3', 'F']
    } else if c == '#' {
        seq!['%', '2', '3']
    } else if c == '\\' {
        seq!['%', '5', 'C']
    } else {
        seq![c]
    }
}

/// A file name with each character escaped as `escaped_char` says.
pub open spec fn escaped(name: Seq<char>) -> Seq<char>
    decreases name.len(),
{
    if name.len() == 0 {
        Seq::empty()
    } else {
        escaped(name.drop_last()) + escaped_char(name.last())
    }
}

/// The relative reference of a file name: the escaped name under `./`, so
/// that it names a file beside the base even where it holds a colon.
pub open spec fn link_reference(name: Seq<char>) -> Seq<char> {
    seq!['.', '/'] + escaped(name)
}

/// The link of a published file under `url_root`.
pub open spec fn link_of(url_root: Seq<char>, name: Seq<char>) -> Option<Seq<char>> {
    url_join(url_root, link_reference(name))
}

/// The relative reference of a file name, as `link_reference` gives it.
pub fn reference_for(name: &str) -> (r: String)
    ensures
        r@ == link_reference(name@),
{
    proof {
        reveal_strlit("./");
        reveal_strlit("%25");
        reveal_strlit("%3F");
        reveal_strlit("%23");
        reveal_strlit("%5C");
        assert("./"@ =~= seq!['.', '/']);
        assert("%25"@ =~= seq!['%', '2', '5']);
        assert("%3F"@ =~= seq!['%', '3', 'F']);
        assert("%23"@ =~= seq!['%', '2', '3']);
        assert("%5C"@ =~= seq!['%', '5', 'C']);
        assert(name@.subrange(0, 0) =~= Seq::<char>::empty());
        assert(seq!['.', '/'] + Seq::<char>::empty() =~= seq!['.', '/']);
    }
    let n = name.unicode_len();
    let mut r = String::from_str("./");
    let mut i: usize = 0;
    while i < n
        invariant
            n == name@.len(),
            i <= n,
            r@ == link_reference(name@.subrange(0, i as int)),
            "%25"@ == seq!['%', '2', '5'],
            "%3F"@ == seq!['%', '3', 'F'],
            "%23"@ == seq!['%', '2', '3'],
            "%5C"@ == seq!['%', '5', 'C'],
        decreases n - i,
    {
        let ghost prev = r@;
        let c = name.get_char(i);
        if c == '%' {
            r.append("%25");
            proof {
                assert(r@ =~= prev + escaped_char(c));
            }
        } else if c == '?' {
            r.append("%3F");
            proof {
                assert(r@ =~= prev + escaped_char(c));
            }
        } else if c == '#' {
            r.append("%23");
            proof {
                assert(r@ =~= prev + escaped_char(c));
            }
        } else if c == '\\' {
            r.append("%5C");
            proof {
                assert(r@ =~= prev + escaped_char(c));
            }
        } else {
            let one = name.substring_char(i, i + 1);
            proof {
                assert(one@ =~= seq![c]);
            }
            r.append(one);
            proof {
                assert(r@ =~= prev + escaped_char(c));
            }
        }
        proof {
            let s = name@.subrange(0, i as int + 1);
            assert(s.drop_last() =~= name@.subrange(0, i as int));
            assert(s.last() == c);
            assert(escaped(s) == escaped(name@.subrange(0, i as int)) + escaped_char(c));
            assert(r@ =~= link_reference(s));
        }
        i = i + 1;
    }
    proof {
        assert(name@.subrange(0, n as int) =~= name@);
    }
    r
}

/// The link could not be formed from the base URL and the file name.
#[derive(Debug, PartialEq, Eq, Structural)]
pub struct LinkError;

/// The feed document could not be written.
#[derive(Debug, PartialEq, Eq, Structural)]
pub struct FeedWriteError;

/// The entries added so far, with the base URL of their links.
pub struct FeedBuilder {
    url_root: String,
    entries: Vec<FeedEntry>,
}

impl View for FeedBuilder {
    type V = (Seq<char>, Seq<(Seq<char>, Seq<char>)>);

    /// The base URL and the (title, link) of each entry, in the order added.
    closed spec fn view(&self) -> Self::V {
        (self.url_root@, entries_view(self.entries@))
    }
}

/// The document that `serialize` gives for a feed, or `None` where it fails.
pub open spec fn feed_document(feed: (Seq<char>, Seq<(Seq<char>, Seq<char>)>)) -> Option<Seq<u8>> {
    rss_document(channel_title(), channel_description(), feed.1)
}

/// The bytes of a serialisation, or `None` for its error.
pub open spec fn bytes_of(r: Result<Vec<u8>, FeedWriteError>) -> Option<Seq<u8>> {
    match r {
        Ok(b) => Some(b@),
        Err(_) => None,
    }
}

impl FeedBuilder {
    /// An empty feed whose links are resolved against `url_root`.
    pub fn new(url_root: &str) -> (r: FeedBuilder)
        ensures
            r@.0 == url_root@,
            r@.1 == Seq::<(Seq<char>, Seq<char>)>::empty(),
    {
        let r = FeedBuilder { url_root: String::from_str(url_root), entries: Vec::new() };
        proof {
            assert(entries_view(r.entries@) =~= Seq::<(Seq<char>, Seq<char>)>::empty());
        }
        r
    }

    /// The number of entries.
    pub fn len(&self) -> (r: usize)
        ensures
            r == self@.1.len(),
    {
        self.entries.len()
    }

    /// Adds an entry for the file published as `file_name`: its title is the
    /// name, its link the name resolved against the base URL. Fails, adding
    /// nothing, where that link cannot be formed.
    pub fn add(&mut self, file_name: &str) -> (r: Result<String, LinkError>)
        ensures
            final(self)@.0 == old(self)@.0,
            match link_of(old(self)@.0, file_name@) {
                Some(link) => r is Ok && r->Ok_0@ == link && final(self)@.1 == old(self)@.1.push(
                    (file_name@, link),
                ),
                None => r is Err && final(self)@.1 == old(self)@.1,
            },
    {
        let reference = reference_for(file_name);
        match join_url(self.url_root.as_str(), reference.as_str()) {
            Ok(link) => {
                let entry = FeedEntry { title: String::from_str(file_name), link: link.clone() };
                self.entries.push(entry);
                proof {
                    assert(entries_view(self.entries@) =~= entries_view(old(self).entries@).push(
                        (file_name@, link@),
                    ));
                }
                Ok(link)
            },
            Err(_) => Err(LinkError),
        }
    }

    /// The complete feed document: one channel of fixed title and
    /// description, with the entries in the order added.
    pub fn serialize(&self) -> (r: Result<Vec<u8>, FeedWriteError>)
        ensures
            bytes_of(r) == feed_document(self@),
    {
        proof {
            reveal_strlit("aircheq-podcast");
            reveal_strlit("aircheq podcast server");
        }
        match render_channel("aircheq-podcast", "aircheq podcast server", &self.entries) {
            Ok(bytes) => Ok(bytes),
            Err(_) => Err(FeedWriteError),
        }
    }
}

/// Serialising a feed twice with nothing added in between gives the same
/// outcome, byte for byte.
pub proof fn lemma_serialize_idempotent(
    feed: FeedBuilder,
    first: Result<Vec<u8>, FeedWriteError>,
    second: Result<Vec<u8>, FeedWriteError>,
)
    requires
        bytes_of(first) == feed_document(feed@),
        bytes_of(second) == feed_document(feed@),
    ensures
        bytes_of(first) == bytes_of(second),
        first is Ok <==> second is Ok,
{
}

} // verus!
