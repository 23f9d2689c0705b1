//! RSS and Atom feeds of BBS threads and their replies.
use vstd::prelude::*;
use vstd::multiset::Multiset;
use crate::protocol::{Board, Post, Reply};
use crate::text::{
    chars_of, lemma_lex_after_irreflexive, lemma_lex_after_total, lemma_lex_after_transitive, lex_after,
    lex_after_exec, push_char, push_signed_decimal, signed_decimal, has_infix, has_prefix, has_suffix,
    lemma_infix, lemma_prefix, lemma_suffix,
};
use crate::time::{Timestamp, in_rfc2822_years, is_later, rfc2822_text, rfc3339_text};

verus! {

broadcast use vstd::string::group_string_axioms;

/// The site's origin, which feed links are absolute to.
pub const BASE_URL: &'static str = "https://salyut.one";

/// The most entries a feed holds.
pub const ENTRY_LIMIT: usize = 50;

/// The most threads of a board that a feed is built from.
pub const THREAD_LIMIT: u32 = 50;

/// A feed format.
#[derive(Clone, Copy, Debug, PartialEq, Eq, Structural)]
pub enum Format {
    Rss,
    Atom,
}

impl Format {
    /// The media type of a feed in this format.
    pub open spec fn content_type_text(self) -> Seq<char> {
        match self {
            Format::Rss => "application/rss+xml; charset=utf-8"@,
            Format::Atom => "application/atom+xml; charset=utf-8"@,
        }
    }

    /// The media type of a feed in this format.
    pub fn content_type(self) -> (r: &'static str)
        ensures
            r@ == self.content_type_text(),
    {
        match self {
            Format::Rss => "application/rss+xml; charset=utf-8",
            Format::Atom => "application/atom+xml; charset=utf-8",
        }
    }

    /// The file name, without `.xml`, under which a feed in this format is served.
    pub open spec fn slug_text(self) -> Seq<char> {
        match self {
            Format::Rss => "rss"@,
            Format::Atom => "atom"@,
        }
    }

    /// The file name, without `.xml`, under which a feed in this format is served.
    pub fn slug(self) -> (r: &'static str)
        ensures
            r@ == self.slug_text(),
    {
        match self {
            Format::Rss => "rss",
            Format::Atom => "atom",
        }
    }
}

/// Whether XML 1.0 allows the character in a document.
pub open spec fn xml_allowed(c: char) -> bool {
    ||| c == '\t'
    ||| c == '\n'
    ||| c == '\r'
    ||| 0x20 <= (c as u32) <= 0xd7ff
    ||| 0xe000 <= (c as u32) <= 0xfffd
    ||| 0x10000 <= (c as u32) <= 0x10ffff
}

/// The XML text that stands for one character: nothing for a character that
/// XML does not allow, a character reference for the five that are
/// significant in markup, the character itself otherwise.
pub open spec fn xml_char(c: char) -> Seq<char> {
    if !xml_allowed(c) {
        Seq::empty()
    } else if c == '&' {
        "&amp;"@
    } else if c == '<' {
        "&lt;"@
    } else if c == '>' {
        "&gt;"@
    } else if c == '"' {
        "&quot;"@
    } else if c == '\'' {
        "&apos;"@
    } else {
        seq![c]
    }
}

/// `s` as XML character data, character by character.
pub open spec fn xml_text(s: Seq<char>) -> Seq<char>
    decreases s.len(),
{
    if s.len() == 0 {
        Seq::empty()
    } else {
        xml_text(s.drop_last()) + xml_char(s.last())
    }
}

/// `value` with the characters that XML does not allow dropped and the rest
/// escaped for XML text and attribute values.
pub fn xml(value: &str) -> (r: String)
    ensures
        r@ == xml_text(value@),
{
    let cs = chars_of(value);
    let mut r = String::new();
    for i in 0..cs.len()
        invariant
            cs@ == value@,
            r@ == xml_text(cs@.take(i as int)),
    {
        let c = cs[i];
        let code = c as u32;
        let allowed = c == '\t' || c == '\n' || c == '\r' || (0x20 <= code && code <= 0xd7ff)
            || (0xe000 <= code && code <= 0xfffd) || (0x10000 <= code && code <= 0x10ffff);
        if !allowed {
        } else if c == '&' {
            r.append("&amp;");
        } else if c == '<' {
            r.append("&lt;");
        } else if c == '>' {
            r.append("&gt;");
        } else if c == '"' {
            r.append("&quot;");
        } else if c == '\'' {
            r.append("&apos;");
        } else {
            push_char(&mut r, c);
        }
        assert(cs@.take(i + 1).drop_last() =~= cs@.take(i as int));
        assert(r@ =~= xml_text(cs@.take(i + 1)));
    }
    assert(cs@.take(cs.len() as int) =~= cs@);
    r
}

/// What a feed says of one thread or reply.
pub struct EntryView {
    /// The entry's permanent URL, which also identifies it.
    pub id: Seq<char>,
    pub title: Seq<char>,
    pub author: Seq<char>,
    pub body: Seq<char>,
    pub published: (i64, u32),
    pub updated: (i64, u32),
}

/// One thread or reply, ready to be written into a feed.
pub struct Entry<'a> {
    pub id: String,
    pub title: String,
    pub author: &'a str,
    pub body: &'a str,
    pub published: Timestamp,
    pub updated: Timestamp,
}

impl View for Entry<'_> {
    type V = EntryView;

    open spec fn view(&self) -> EntryView {
        EntryView {
            id: self.id@,
            title: self.title@,
            author: self.author@,
            body: self.body@,
            published: self.published@,
            updated: self.updated@,
        }
    }
}

/// The views of a sequence of entries.
pub open spec fn views(entries: Seq<Entry>) -> Seq<EntryView> {
    entries.map_values(|e: Entry| e@)
}

/// The permanent URL of the thread with the given id.
pub open spec fn post_url_text(id: i64) -> Seq<char> {
    BASE_URL@ + "/bbs/posts/"@ + signed_decimal(id as int)
}

/// The feed title of a thread; with `include_board`, prefixed with the
/// board's name in brackets.
pub open spec fn thread_title_text(post: Post, include_board: bool) -> Seq<char> {
    if include_board {
        "["@ + post.board.name@ + "] "@ + post.title@
    } else {
        post.title@
    }
}

/// The feed title of a reply to a thread; with `include_board`, prefixed
/// with the board's name in brackets.
pub open spec fn reply_title_text(post: Post, include_board: bool) -> Seq<char> {
    if include_board {
        "["@ + post.board.name@ + "] Re: "@ + post.title@
    } else {
        "Re: "@ + post.title@
    }
}

/// The entry of a reply to `post`.
pub open spec fn reply_entry(post: Post, reply: Reply, include_board: bool) -> EntryView {
    EntryView {
        id: post_url_text(post.id) + "#reply-"@ + signed_decimal(reply.id as int),
        title: reply_title_text(post, include_board),
        author: reply.author@,
        body: reply.body@,
        published: reply.created_at@,
        updated: reply.updated_at@,
    }
}

/// The entries of a thread: the thread itself, dated at its creation, then
/// each reply in order.
pub open spec fn post_entries(post: Post, include_board: bool) -> Seq<EntryView> {
    seq![
        EntryView {
            id: post_url_text(post.id),
            title: thread_title_text(post, include_board),
            author: post.author@,
            body: post.body@,
            published: post.created_at@,
            updated: post.created_at@,
        },
    ] + post.replies@.map_values(|reply: Reply| reply_entry(post, reply, include_board))
}

/// The entries of the threads, thread by thread.
pub open spec fn entries_text(posts: Seq<Post>, include_board: bool) -> Seq<EntryView>
    decreases posts.len(),
{
    if posts.len() == 0 {
        Seq::empty()
    } else {
        entries_text(posts.drop_last(), include_board) + post_entries(posts.last(), include_board)
    }
}

fn post_url(id: i64) -> (r: String)
    ensures
        r@ == post_url_text(id),
{
    let mut r = String::new();
    r.append(BASE_URL);
    r.append("/bbs/posts/");
    push_signed_decimal(&mut r, id);
    r
}

/// The entries of the threads and their replies, in order.
pub fn entries(posts: &[Post], include_board: bool) -> (r: Vec<Entry<'_>>)
    ensures
        views(r@) == entries_text(posts@, include_board),
{
    let mut r: Vec<Entry> = Vec::new();
    for i in 0..posts.len()
        invariant
            views(r@) == entries_text(posts@.take(i as int), include_board),
    {
        let post = &posts[i];
        let url = post_url(post.id);
        let mut title = String::new();
        let mut reply_title = String::new();
        if include_board {
            title.append("[");
            title.append(post.board.name.as_str());
            title.append("] ");
            title.append(post.title.as_str());
            reply_title.append("[");
            reply_title.append(post.board.name.as_str());
            reply_title.append("] Re: ");
            reply_title.append(post.title.as_str());
        } else {
            title.append(post.title.as_str());
            reply_title.append("Re: ");
            reply_title.append(post.title.as_str());
        }
        let ghost before = views(r@);
        let root = Entry {
            id: url.clone(),
            title,
            author: post.author.as_str(),
            body: post.body.as_str(),
            published: post.created_at,
            updated: post.created_at,
        };
        assert(root@ == post_entries(*post, include_board)[0]);
        r.push(root);
        let ghost base = views(r@);
        assert(base =~= before.push(root@));
        for j in 0..post.replies.len()
            invariant
                post == posts@[i as int],
                url@ == post_url_text(post.id),
                reply_title@ == reply_title_text(*post, include_board),
                views(r@) == base + post.replies@.take(j as int).map_values(
                    |reply: Reply| reply_entry(*post, reply, include_board),
                ),
        {
            let reply = &post.replies[j];
            let mut id = url.clone();
            id.append("#reply-");
            push_signed_decimal(&mut id, reply.id);
            let entry = Entry {
                id,
                title: reply_title.clone(),
                author: reply.author.as_str(),
                body: reply.body.as_str(),
                published: reply.created_at,
                updated: reply.updated_at,
            };
            assert(entry@ == reply_entry(*post, *reply, include_board));
            let ghost prev = views(r@);
            r.push(entry);
            assert(views(r@) =~= prev.push(entry@));
            assert(post.replies@.take(j + 1).map_values(
                |reply: Reply| reply_entry(*post, reply, include_board),
            ) =~= post.replies@.take(j as int).map_values(
                |reply: Reply| reply_entry(*post, reply, include_board),
            ).push(reply_entry(*post, *reply, include_board)));
        }
        assert(post.replies@.take(post.replies@.len() as int) =~= post.replies@);
        assert(posts@.take(i + 1).drop_last() =~= posts@.take(i as int));
        assert(posts@.take(i + 1).last() == *post);
        assert(views(r@) =~= before + post_entries(*post, include_board));
    }
    assert(posts@.take(posts@.len() as int) =~= posts@);
    r
}

/// Whether entry `a` goes before entry `b` in a feed: it was updated later,
/// or at the same instant and its id sorts after `b`'s.
pub open spec fn precedes(a: EntryView, b: EntryView) -> bool {
    is_later(a.updated, b.updated) || (a.updated == b.updated && lex_after(a.id, b.id))
}

/// The position of the entry that leads `s`: the first entry that no other
/// entry of `s` goes before.
pub open spec fn lead_index(s: Seq<EntryView>) -> int
    decreases s.len(),
{
    if s.len() <= 1 {
        0
    } else {
        let k = lead_index(s.drop_last());
        if precedes(s.last(), s[k]) {
            s.len() - 1
        } else {
            k
        }
    }
}

/// The first `n` entries of `s` in feed order: newest update first, ties
/// broken by the id sorting last, and entries that tie on both kept in the
/// order of `s`.
pub open spec fn newest_first(s: Seq<EntryView>, n: nat) -> Seq<EntryView>
    decreases n,
{
    if n == 0 || s.len() == 0 {
        Seq::empty()
    } else {
        let i = lead_index(s);
        seq![s[i]] + newest_first(s.remove(i), (n - 1) as nat)
    }
}

/// The entries of a feed built from `posts`.
pub open spec fn feed_entries(posts: Seq<Post>, include_board: bool) -> Seq<EntryView> {
    newest_first(entries_text(posts, include_board), ENTRY_LIMIT as nat)
}

proof fn lemma_lead_index_bounds(s: Seq<EntryView>)
    requires
        s.len() > 0,
    ensures
        0 <= lead_index(s) < s.len(),
    decreases s.len(),
{
    if s.len() > 1 {
        lemma_lead_index_bounds(s.drop_last());
    }
}

fn goes_before(a: &Entry, b: &Entry) -> (r: bool)
    ensures
        r == precedes(a@, b@),
{
    a.updated.is_later_than(&b.updated) || (a.updated.secs() == b.updated.secs()
        && a.updated.nanos() == b.updated.nanos() && lex_after_exec(a.id.as_str(), b.id.as_str()))
}

fn lead(entries: &Vec<Entry>) -> (i: usize)
    requires
        entries.len() > 0,
    ensures
        i == lead_index(views(entries@)),
        i < entries.len(),
{
    let mut best: usize = 0;
    let mut k: usize = 1;
    assert(views(entries@).take(1).len() == 1);
    while k < entries.len()
        invariant
            1 <= k <= entries.len(),
            best < k,
            best == lead_index(views(entries@).take(k as int)),
        decreases entries.len() - k,
    {
        assert(views(entries@).take(k + 1).drop_last() =~= views(entries@).take(k as int));
        if goes_before(&entries[k], &entries[best]) {
            best = k;
        }
        k = k + 1;
    }
    assert(views(entries@).take(k as int) =~= views(entries@));
    best
}

/// The first `n` of `entries` in feed order.
pub fn newest(entries: Vec<Entry<'_>>, n: usize) -> (r: Vec<Entry<'_>>)
    ensures
        views(r@) == newest_first(views(entries@), n as nat),
{
    let ghost all = views(entries@);
    let mut rest = entries;
    let mut r: Vec<Entry> = Vec::new();
    assert(views(r@) + newest_first(all, n as nat) =~= newest_first(all, n as nat));
    while r.len() < n && rest.len() > 0
        invariant
            r.len() <= n,
            views(r@) + newest_first(views(rest@), (n - r.len()) as nat) == newest_first(
                all,
                n as nat,
            ),
        decreases n - r.len(),
    {
        let ghost before = views(rest@);
        let i = lead(&rest);
        let e = rest.remove(i);
        assert(views(rest@) =~= before.remove(i as int));
        let ghost prev = views(r@);
        r.push(e);
        assert(views(r@) =~= prev.push(e@));
        assert(views(r@) + newest_first(views(rest@), (n - r.len()) as nat) =~= prev + newest_first(
            before,
            (n - prev.len()) as nat,
        ));
    }
    assert(newest_first(views(rest@), (n - r.len()) as nat) =~= Seq::<EntryView>::empty());
    assert(views(r@) + Seq::<EntryView>::empty() =~= views(r@));
    r
}

/// What a feed says of itself.
pub struct Metadata {
    pub title: String,
    pub description: String,
    /// The page that the feed follows.
    pub page_url: String,
    /// The feed's own URL.
    pub feed_url: String,
}

/// What a feed says of itself, as text.
pub struct MetadataView {
    pub title: Seq<char>,
    pub description: Seq<char>,
    pub page_url: Seq<char>,
    pub feed_url: Seq<char>,
}

impl View for Metadata {
    type V = MetadataView;

    open spec fn view(&self) -> MetadataView {
        MetadataView {
            title: self.title@,
            description: self.description@,
            page_url: self.page_url@,
            feed_url: self.feed_url@,
        }
    }
}

/// The instant a feed was last changed: that of its first entry, or the Unix
/// epoch for an empty feed.
pub open spec fn feed_updated(entries: Seq<EntryView>) -> (i64, u32) {
    if entries.len() == 0 {
        (0i64, 0u32)
    } else {
        entries[0].updated
    }
}

/// Whether every date that an RSS feed of these entries writes in RFC 2822
/// form lies in the years 0 through 9999.
pub open spec fn rss_dates_writable(entries: Seq<EntryView>) -> bool {
    &&& forall|i: int| 0 <= i < entries.len() ==> in_rfc2822_years(#[trigger] entries[i].published.0 as int)
    &&& in_rfc2822_years(feed_updated(entries).0 as int)
}

/// One RSS item.
pub open spec fn rss_item_text(e: EntryView) -> Seq<char> {
    "<item><title>"@ + xml_text(e.title) + "</title><link>"@ + xml_text(e.id)
        + "</link><guid isPermaLink=\"true\">"@ + xml_text(e.id) + "</guid><dc:creator>"@
        + xml_text(e.author) + "</dc:creator><pubDate>"@ + rfc2822_text(e.published.0, e.published.1)
        + "</pubDate><description>"@ + xml_text(e.body) + "</description></item>"@
}

/// The RSS items of the entries, in order.
pub open spec fn rss_items_text(entries: Seq<EntryView>) -> Seq<char>
    decreases entries.len(),
{
    if entries.len() == 0 {
        Seq::empty()
    } else {
        rss_items_text(entries.drop_last()) + rss_item_text(entries.last())
    }
}

/// An RSS 2.0 document.
pub open spec fn rss_text(metadata: MetadataView, entries: Seq<EntryView>) -> Seq<char> {
    "<?xml version=\"1.0\" encoding=\"utf-8\"?><rss version=\"2.0\" xmlns:atom=\"http://www.w3.org/2005/Atom\" xmlns:dc=\"http://purl.org/dc/elements/1.1/\"><channel><title>"@
        + xml_text(metadata.title) + "</title><link>"@ + xml_text(metadata.page_url)
        + "</link><description>"@ + xml_text(metadata.description) + "</description><lastBuildDate>"@
        + rfc2822_text(feed_updated(entries).0, feed_updated(entries).1)
        + "</lastBuildDate><atom:link href=\""@ + xml_text(metadata.feed_url)
        + "\" rel=\"self\" type=\"application/rss+xml\"/>"@ + rss_items_text(entries)
        + "</channel></rss>\n"@
}

/// One Atom entry.
pub open spec fn atom_entry_text(e: EntryView) -> Seq<char> {
    "<entry><title>"@ + xml_text(e.title) + "</title><id>"@ + xml_text(e.id) + "</id><link href=\""@
        + xml_text(e.id) + "\"/><published>"@ + rfc3339_text(e.published.0, e.published.1)
        + "</published><updated>"@ + rfc3339_text(e.updated.0, e.updated.1)
        + "</updated><author><name>"@ + xml_text(e.author) + "</name></author><content type=\"text\">"@
        + xml_text(e.body) + "</content></entry>"@
}

/// The Atom entries of the entries, in order.
pub open spec fn atom_entries_text(entries: Seq<EntryView>) -> Seq<char>
    decreases entries.len(),
{
    if entries.len() == 0 {
        Seq::empty()
    } else {
        atom_entries_text(entries.drop_last()) + atom_entry_text(entries.last())
    }
}

/// An Atom document.
pub open spec fn atom_text(metadata: MetadataView, entries: Seq<EntryView>) -> Seq<char> {
    "<?xml version=\"1.0\" encoding=\"utf-8\"?><feed xmlns=\"http://www.w3.org/2005/Atom\"><title>"@
        + xml_text(metadata.title) + "</title><subtitle>"@ + xml_text(metadata.description)
        + "</subtitle><id>"@ + xml_text(metadata.page_url) + "</id><updated>"@
        + rfc3339_text(feed_updated(entries).0, feed_updated(entries).1) + "</updated><link href=\""@
        + xml_text(metadata.page_url) + "\"/><link href=\""@ + xml_text(metadata.feed_url)
        + "\" rel=\"self\" type=\"application/atom+xml\"/>"@ + atom_entries_text(entries) + "</feed>\n"@
}

/// A feed document in the given format.
pub open spec fn document_text(format: Format, metadata: MetadataView, entries: Seq<EntryView>) -> Seq<
    char,
> {
    match format {
        Format::Rss => rss_text(metadata, entries),
        Format::Atom => atom_text(metadata, entries),
    }
}

/// Whether a feed of these entries can be written in the given format: RSS
/// dates exist for the years 0 through 9999 only.
pub open spec fn writable(format: Format, entries: Seq<EntryView>) -> bool {
    format == Format::Rss ==> rss_dates_writable(entries)
}

fn updated_of(entries: &Vec<Entry>) -> (t: Timestamp)
    ensures
        t@ == feed_updated(views(entries@)),
{
    if entries.len() == 0 {
        Timestamp::epoch()
    } else {
        entries[0].updated
    }
}

fn rss_item(e: &Entry) -> (r: String)
    requires
        in_rfc2822_years(e.published@.0 as int),
    ensures
        r@ == rss_item_text(e@),
{
    let mut r = String::new();
    r.append("<item><title>");
    r.append(xml(e.title.as_str()).as_str());
    r.append("</title><link>");
    r.append(xml(e.id.as_str()).as_str());
    r.append("</link><guid isPermaLink=\"true\">");
    r.append(xml(e.id.as_str()).as_str());
    r.append("</guid><dc:creator>");
    r.append(xml(e.author).as_str());
    r.append("</dc:creator><pubDate>");
    r.append(e.published.rfc2822().as_str());
    r.append("</pubDate><description>");
    r.append(xml(e.body).as_str());
    r.append("</description></item>");
    r
}

/// An RSS 2.0 document of the entries, in the order given.
pub fn rss(metadata: &Metadata, entries: &Vec<Entry>) -> (r: String)
    requires
        rss_dates_writable(views(entries@)),
    ensures
        r@ == rss_text(metadata@, views(entries@)),
{
    let mut items = String::new();
    for i in 0..entries.len()
        invariant
            rss_dates_writable(views(entries@)),
            items@ == rss_items_text(views(entries@).take(i as int)),
    {
        assert(in_rfc2822_years(views(entries@)[i as int].published.0 as int));
        let item = rss_item(&entries[i]);
        items.append(item.as_str());
        assert(views(entries@).take(i + 1).drop_last() =~= views(entries@).take(i as int));
    }
    assert(views(entries@).take(entries.len() as int) =~= views(entries@));
    let last_build = updated_of(entries);
    let mut r = String::new();
    r.append(
        "<?xml version=\"1.0\" encoding=\"utf-8\"?><rss version=\"2.0\" xmlns:atom=\"http://www.w3.org/2005/Atom\" xmlns:dc=\"http://purl.org/dc/elements/1.1/\"><channel><title>",
    );
    r.append(xml(metadata.title.as_str()).as_str());
    r.append("</title><link>");
    r.append(xml(metadata.page_url.as_str()).as_str());
    r.append("</link><description>");
    r.append(xml(metadata.description.as_str()).as_str());
    r.append("</description><lastBuildDate>");
    r.append(last_build.rfc2822().as_str());
    r.append("</lastBuildDate><atom:link href=\"");
    r.append(xml(metadata.feed_url.as_str()).as_str());
    r.append("\" rel=\"self\" type=\"application/rss+xml\"/>");
    r.append(items.as_str());
    r.append("</channel></rss>\n");
    r
}

fn atom_entry(e: &Entry) -> (r: String)
    ensures
        r@ == atom_entry_text(e@),
{
    let mut r = String::new();
    r.append("<entry><title>");
    r.append(xml(e.title.as_str()).as_str());
    r.append("</title><id>");
    r.append(xml(e.id.as_str()).as_str());
    r.append("</id><link href=\"");
    r.append(xml(e.id.as_str()).as_str());
    r.append("\"/><published>");
    r.append(e.published.rfc3339().as_str());
    r.append("</published><updated>");
    r.append(e.updated.rfc3339().as_str());
    r.append("</updated><author><name>");
    r.append(xml(e.author).as_str());
    r.append("</name></author><content type=\"text\">");
    r.append(xml(e.body).as_str());
    r.append("</content></entry>");
    r
}

/// An Atom document of the entries, in the order given.
pub fn atom(metadata: &Metadata, entries: &Vec<Entry>) -> (r: String)
    ensures
        r@ == atom_text(metadata@, views(entries@)),
{
    let mut items = String::new();
    for i in 0..entries.len()
        invariant
            items@ == atom_entries_text(views(entries@).take(i as int)),
    {
        let item = atom_entry(&entries[i]);
        items.append(item.as_str());
        assert(views(entries@).take(i + 1).drop_last() =~= views(entries@).take(i as int));
    }
    assert(views(entries@).take(entries.len() as int) =~= views(entries@));
    let updated = updated_of(entries);
    let mut r = String::new();
    r.append(
        "<?xml version=\"1.0\" encoding=\"utf-8\"?><feed xmlns=\"http://www.w3.org/2005/Atom\"><title>",
    );
    r.append(xml(metadata.title.as_str()).as_str());
    r.append("</title><subtitle>");
    r.append(xml(metadata.description.as_str()).as_str());
    r.append("</subtitle><id>");
    r.append(xml(metadata.page_url.as_str()).as_str());
    r.append("</id><updated>");
    r.append(updated.rfc3339().as_str());
    r.append("</updated><link href=\"");
    r.append(xml(metadata.page_url.as_str()).as_str());
    r.append("\"/><link href=\"");
    r.append(xml(metadata.feed_url.as_str()).as_str());
    r.append("\" rel=\"self\" type=\"application/atom+xml\"/>");
    r.append(items.as_str());
    r.append("</feed>\n");
    r
}

/// What the feed of a board says of itself.
pub open spec fn board_metadata(format: Format, board: Board) -> MetadataView {
    let page_url = BASE_URL@ + "/bbs/boards/"@ + board.slug@;
    MetadataView {
        title: "salyut.one BBS \u{2014} "@ + board.name@,
        description: board.description@,
        page_url: page_url,
        feed_url: page_url + "/"@ + format.slug_text() + ".xml"@,
    }
}

/// What the feed of all boards says of itself.
pub open spec fn global_metadata(format: Format) -> MetadataView {
    MetadataView {
        title: "salyut.one BBS"@,
        description: "Recent posts and replies across all boards."@,
        page_url: BASE_URL@ + "/bbs"@,
        feed_url: BASE_URL@ + "/bbs/"@ + format.slug_text() + ".xml"@,
    }
}

/// A feed in the given format of the newest entries of `posts`: each
/// thread and each reply is an entry; the entries are ordered newest first
/// and cut to `ENTRY_LIMIT`. With `include_board`, entry titles name the
/// board of their thread.
pub fn render(format: Format, metadata: Metadata, posts: &[Post], include_board: bool) -> (r:
    String)
    requires
        writable(format, feed_entries(posts@, include_board)),
    ensures
        r@ == document_text(format, metadata@, feed_entries(posts@, include_board)),
{
    let all = entries(posts, include_board);
    let chosen = newest(all, ENTRY_LIMIT);
    match format {
        Format::Rss => rss(&metadata, &chosen),
        Format::Atom => atom(&metadata, &chosen),
    }
}

/// Whether a feed of `posts` can be written in the given format; `render`
/// asks this of its input.
pub fn can_render(format: Format, posts: &[Post], include_board: bool) -> (r: bool)
    ensures
        r == writable(format, feed_entries(posts@, include_board)),
{
    match format {
        Format::Atom => true,
        Format::Rss => {
            let chosen = newest(entries(posts, include_board), ENTRY_LIMIT);
            let ghost es = views(chosen@);
            assert(es == feed_entries(posts@, include_board));
            let mut i: usize = 0;
            while i < chosen.len()
                invariant
                    i <= chosen.len(),
                    es == views(chosen@),
                    es == feed_entries(posts@, include_board),
                    format == Format::Rss,
                    forall|j: int| 0 <= j < i ==> in_rfc2822_years(#[trigger] es[j].published.0 as int),
                decreases chosen.len() - i,
            {
                assert(es[i as int].published == chosen@[i as int].published@);
                if !chosen[i].published.has_rfc2822() {
                    assert(!rss_dates_writable(es));
                    return false;
                }
                i = i + 1;
            }
            updated_of(&chosen).has_rfc2822()
        },
    }
}

/// The feed of one board, built from the board's threads.
pub fn render_board(format: Format, board: &Board, posts: &[Post]) -> (r: String)
    requires
        writable(format, feed_entries(posts@, false)),
    ensures
        r@ == document_text(format, board_metadata(format, *board), feed_entries(posts@, false)),
{
    let mut page_url = String::new();
    page_url.append(BASE_URL);
    page_url.append("/bbs/boards/");
    page_url.append(board.slug.as_str());
    let mut title = String::new();
    title.append("salyut.one BBS \u{2014} ");
    title.append(board.name.as_str());
    let mut feed_url = page_url.clone();
    feed_url.append("/");
    feed_url.append(format.slug());
    feed_url.append(".xml");
    let metadata = Metadata { title, description: board.description.clone(), page_url, feed_url };
    render(format, metadata, posts, false)
}

/// The feed of all boards, built from threads of any board; entry titles
/// name the board of their thread.
pub fn render_global(format: Format, posts: &[Post]) -> (r: String)
    requires
        writable(format, feed_entries(posts@, true)),
    ensures
        r@ == document_text(format, global_metadata(format), feed_entries(posts@, true)),
{
    let mut title = String::new();
    title.append("salyut.one BBS");
    let mut description = String::new();
    description.append("Recent posts and replies across all boards.");
    let mut page_url = String::new();
    page_url.append(BASE_URL);
    page_url.append("/bbs");
    let mut feed_url = String::new();
    feed_url.append(BASE_URL);
    feed_url.append("/bbs/");
    feed_url.append(format.slug());
    feed_url.append(".xml");
    let metadata = Metadata { title, description, page_url, feed_url };
    render(format, metadata, posts, true)
}

/// The entries of `s` that `newest_first(s, n)` leaves out, in the order
/// they keep in `s`.
pub open spec fn newest_rest(s: Seq<EntryView>, n: nat) -> Seq<EntryView>
    decreases n,
{
    if n == 0 || s.len() == 0 {
        s
    } else {
        newest_rest(s.remove(lead_index(s)), (n - 1) as nat)
    }
}

/// No entry goes before itself, going before is transitive and one-sided,
/// and two entries of which neither goes before the other were updated at
/// the same instant and have the same id.
pub proof fn lemma_precedes_order(a: EntryView, b: EntryView, c: EntryView)
    ensures
        !precedes(a, a),
        precedes(a, b) && precedes(b, c) ==> precedes(a, c),
        precedes(a, b) ==> !precedes(b, a),
        !precedes(a, b) && !precedes(b, a) ==> a.updated == b.updated && a.id == b.id,
{
    lemma_lex_after_irreflexive(a.id);
    lemma_lex_after_total(a.id, b.id);
    if precedes(a, b) && precedes(b, c) && a.updated == b.updated && b.updated == c.updated {
        lemma_lex_after_transitive(a.id, b.id, c.id);
    }
}

/// The lead of `s` is an entry that no entry of `s` goes before, and that
/// goes before every entry ahead of it in `s`.
pub proof fn lemma_lead_index(s: Seq<EntryView>)
    requires
        s.len() > 0,
    ensures
        0 <= lead_index(s) < s.len(),
        forall|j: int| 0 <= j < s.len() ==> !precedes(#[trigger] s[j], s[lead_index(s)]),
        forall|j: int| 0 <= j < lead_index(s) ==> precedes(s[lead_index(s)], #[trigger] s[j]),
    decreases s.len(),
{
    if s.len() == 1 {
        lemma_precedes_order(s[0], s[0], s[0]);
    } else {
        let p = s.drop_last();
        lemma_lead_index(p);
        let k = lead_index(p);
        let last = s.last();
        if precedes(last, s[k]) {
            assert forall|j: int| 0 <= j < s.len() implies !precedes(#[trigger] s[j], last) by {
                if j < s.len() - 1 {
                    assert(p[j] == s[j]);
                    lemma_precedes_order(s[j], last, s[k]);
                } else {
                    lemma_precedes_order(last, last, last);
                }
            }
            assert forall|j: int| 0 <= j < s.len() - 1 implies precedes(last, #[trigger] s[j]) by {
                assert(p[j] == s[j]);
                lemma_precedes_order(last, s[j], s[k]);
                lemma_precedes_order(s[j], last, s[k]);
                lemma_precedes_order(s[j], s[k], last);
            }
        } else {
            assert forall|j: int| 0 <= j < s.len() implies !precedes(#[trigger] s[j], s[k]) by {
                if j < s.len() - 1 {
                    assert(p[j] == s[j]);
                }
            }
            assert forall|j: int| 0 <= j < k implies precedes(s[k], #[trigger] s[j]) by {
                assert(p[j] == s[j]);
            }
        }
    }
}

/// Feed order keeps the newest entries: `newest_first(s, n)` holds
/// `min(n, |s|)` entries, each going no later than the one before it; it and
/// the entries left out make up `s`; and no entry left out goes before an
/// entry kept.
pub proof fn lemma_newest_first(s: Seq<EntryView>, n: nat)
    ensures
        newest_first(s, n).len() == if n < s.len() { n as int } else { s.len() as int },
        forall|i: int, j: int|
            0 <= i < j < newest_first(s, n).len() ==> !precedes(
                #[trigger] newest_first(s, n)[j],
                #[trigger] newest_first(s, n)[i],
            ),
        newest_first(s, n).to_multiset().add(newest_rest(s, n).to_multiset()) =~= s.to_multiset(),
        forall|i: int, j: int|
            0 <= i < newest_first(s, n).len() && 0 <= j < newest_rest(s, n).len() ==> !precedes(
                #[trigger] newest_rest(s, n)[j],
                #[trigger] newest_first(s, n)[i],
            ),
    decreases n,
{
    broadcast use vstd::multiset::group_multiset_axioms;
    broadcast use vstd::seq_lib::to_multiset_contains;

    if n == 0 || s.len() == 0 {
        assert(newest_first(s, n) =~= Seq::<EntryView>::empty());
        assert(Seq::<EntryView>::empty().to_multiset() =~= Multiset::<EntryView>::empty());
    } else {
        let i = lead_index(s);
        lemma_lead_index(s);
        let t = s.remove(i);
        lemma_newest_first(t, (n - 1) as nat);
        let r = newest_first(s, n);
        let r1 = newest_first(t, (n - 1) as nat);
        let rest = newest_rest(s, n);
        assert(r == seq![s[i]] + r1);
        assert(rest == newest_rest(t, (n - 1) as nat));
        vstd::seq_lib::to_multiset_remove(s, i);
        assert(seq![s[i]].to_multiset() =~= Multiset::<EntryView>::empty().insert(s[i])) by {
            vstd::seq_lib::to_multiset_build(Seq::<EntryView>::empty(), s[i]);
            assert(Seq::<EntryView>::empty().push(s[i]) =~= seq![s[i]]);
        }
        vstd::seq_lib::lemma_multiset_commutative(seq![s[i]], r1);
        assert(s.to_multiset().count(s[i]) > 0) by {
            assert(s.contains(s[i]));
        }
        assert(r1.to_multiset().add(rest.to_multiset()) =~= t.to_multiset());
        assert(t.to_multiset() =~= s.to_multiset().remove(s[i]));
        assert(r.to_multiset() =~= Multiset::<EntryView>::empty().insert(s[i]).add(r1.to_multiset()));
        assert forall|y: EntryView| #[trigger] r.to_multiset().add(rest.to_multiset()).count(y)
            == s.to_multiset().count(y) by {
            assert(r.to_multiset().add(rest.to_multiset()).count(y) == r.to_multiset().count(y)
                + rest.to_multiset().count(y));
            assert(r.to_multiset().count(y) == Multiset::<EntryView>::empty().insert(s[i]).count(y)
                + r1.to_multiset().count(y));
            assert(t.to_multiset().count(y) == r1.to_multiset().count(y) + rest.to_multiset().count(y));
        }
        assert(r.to_multiset().add(rest.to_multiset()) =~= s.to_multiset());
        // Every entry of t is an entry of s, so none of them goes before s[i].
        assert forall|x: EntryView| #[trigger] t.contains(x) implies !precedes(x, s[i]) by {
            let k = choose|k: int| 0 <= k < t.len() && t[k] == x;
            if k < i {
                assert(t[k] == s[k]);
            } else {
                assert(t[k] == s[k + 1]);
            }
        }
        assert forall|a: int, b: int| 0 <= a < b < r.len() implies !precedes(
            #[trigger] r[b],
            #[trigger] r[a],
        ) by {
            if a > 0 {
                assert(r[a] == r1[a - 1]);
                assert(r[b] == r1[b - 1]);
            } else {
                assert(r[b] == r1[b - 1]);
                assert(r1.to_multiset().count(r1[b - 1]) > 0) by {
                    assert(r1.contains(r1[b - 1]));
                }
                assert(t.to_multiset().count(r1[b - 1]) > 0);
            }
        }
        assert forall|a: int, b: int| 0 <= a < r.len() && 0 <= b < rest.len() implies !precedes(
            #[trigger] rest[b],
            #[trigger] r[a],
        ) by {
            if a > 0 {
                assert(r[a] == r1[a - 1]);
            } else {
                assert(rest.to_multiset().count(rest[b]) > 0) by {
                    assert(rest.contains(rest[b]));
                }
                assert(t.to_multiset().count(rest[b]) > 0);
            }
        }
    }
}

/// A feed lists its entries newest first, holds at most `ENTRY_LIMIT` of
/// them (all when there are fewer), keeps only entries of the threads and
/// their replies, and leaves out none that is newer than one it keeps.
pub proof fn law_feed_keeps_newest_first(posts: Seq<Post>, include_board: bool)
    ensures
        ({
            let all = entries_text(posts, include_board);
            let feed = feed_entries(posts, include_board);
            let left_out = newest_rest(all, ENTRY_LIMIT as nat);
            &&& feed.len() == if all.len() < ENTRY_LIMIT { all.len() as int } else { ENTRY_LIMIT as int }
            &&& forall|i: int, j: int| 0 <= i < j < feed.len() ==> !precedes(#[trigger] feed[j], #[trigger] feed[i])
            &&& feed.to_multiset().add(left_out.to_multiset()) =~= all.to_multiset()
            &&& forall|i: int, j: int| 0 <= i < feed.len() && 0 <= j < left_out.len() ==> !precedes(
                #[trigger] left_out[j],
                #[trigger] feed[i],
            )
        }),
{
    lemma_newest_first(entries_text(posts, include_board), ENTRY_LIMIT as nat);
}

/// A feed's time of update is that of the most recently updated entry of
/// all the threads and replies it is built from (the Unix epoch when there
/// are none).
pub proof fn law_feed_updated_is_latest(posts: Seq<Post>, include_board: bool)
    ensures
        ({
            let all = entries_text(posts, include_board);
            let updated = feed_updated(feed_entries(posts, include_board));
            &&& all.len() == 0 ==> updated == (0i64, 0u32)
            &&& forall|j: int| 0 <= j < all.len() ==> !is_later(#[trigger] all[j].updated, updated)
            &&& all.len() > 0 ==> exists|j: int| 0 <= j < all.len() && #[trigger] all[j].updated == updated
        }),
{
    let all = entries_text(posts, include_board);
    if all.len() > 0 {
        lemma_lead_index(all);
        let i = lead_index(all);
        assert(feed_entries(posts, include_board)[0] == all[i]);
        assert(all[i].updated == feed_updated(feed_entries(posts, include_board)));
    }
}

/// XML text holds only characters that XML 1.0 allows, and none of `<`,
/// `>`, `"` and `'`.
pub proof fn law_xml_text_is_well_formed(s: Seq<char>)
    ensures
        forall|i: int|
            0 <= i < xml_text(s).len() ==> {
                let c = #[trigger] xml_text(s)[i];
                xml_allowed(c) && c != '<' && c != '>' && c != '"' && c != '\''
            },
    decreases s.len(),
{
    if s.len() > 0 {
        law_xml_text_is_well_formed(s.drop_last());
        reveal_strlit("&amp;");
        reveal_strlit("&lt;");
        reveal_strlit("&gt;");
        reveal_strlit("&quot;");
        reveal_strlit("&apos;");
        let prefix = xml_text(s.drop_last());
        let last = xml_char(s.last());
        assert forall|i: int| 0 <= i < xml_text(s).len() implies {
            let c = #[trigger] xml_text(s)[i];
            xml_allowed(c) && c != '<' && c != '>' && c != '"' && c != '\''
        } by {
            if i < prefix.len() {
                assert(xml_text(s)[i] == prefix[i]);
            } else {
                assert(xml_text(s)[i] == last[i - prefix.len()]);
            }
        }
    }
}

/// The number of threads and replies among `posts`.
pub open spec fn thread_and_reply_count(posts: Seq<Post>) -> int
    decreases posts.len(),
{
    if posts.len() == 0 {
        0
    } else {
        thread_and_reply_count(posts.drop_last()) + 1 + posts.last().replies@.len()
    }
}

/// A feed is built from one entry for each thread and one for each reply.
pub proof fn law_one_entry_per_thread_and_reply(posts: Seq<Post>, include_board: bool)
    ensures
        entries_text(posts, include_board).len() == thread_and_reply_count(posts),
    decreases posts.len(),
{
    if posts.len() > 0 {
        law_one_entry_per_thread_and_reply(posts.drop_last(), include_board);
    }
}

/// Each Atom entry's `<updated>` element holds the RFC 3339 text of the
/// entry's update instant, and its `<published>` element that of its
/// publication instant.
pub proof fn law_atom_entry_dates(e: EntryView)
    ensures
        has_infix(atom_entry_text(e), "<updated>"@ + rfc3339_text(e.updated.0, e.updated.1) + "</updated>"@),
        has_infix(
            atom_entry_text(e),
            "<published>"@ + rfc3339_text(e.published.0, e.published.1) + "</published>"@,
        ),
{
    reveal_strlit("\"/><published>");
    reveal_strlit("<published>");
    reveal_strlit("</published><updated>");
    reveal_strlit("<updated>");
    reveal_strlit("</published>");
    reveal_strlit("</updated><author><name>");
    reveal_strlit("</updated>");
    let u = "<updated>"@ + rfc3339_text(e.updated.0, e.updated.1) + "</updated>"@;
    let s = atom_entry_text(e);
    let i: int = ("<entry><title>"@ + xml_text(e.title) + "</title><id>"@ + xml_text(e.id) + "</id><link href=\""@
        + xml_text(e.id) + "\"/><published>"@ + rfc3339_text(e.published.0, e.published.1)).len() + 12int;
    assert(s.subrange(i, i + u.len() as int) =~= u);
    let v = "<published>"@ + rfc3339_text(e.published.0, e.published.1) + "</published>"@;
    let j: int = ("<entry><title>"@ + xml_text(e.title) + "</title><id>"@ + xml_text(e.id)
        + "</id><link href=\""@ + xml_text(e.id)).len() + 3int;
    assert(s.subrange(j, j + v.len() as int) =~= v);
}

/// Each Atom entry puts its title, id, link, author and content, all as XML
/// text, in their own elements.
pub proof fn law_atom_entry_fields(e: EntryView)
    ensures
        has_prefix(atom_entry_text(e), "<entry><title>"@ + xml_text(e.title) + "</title>"@),
        has_infix(atom_entry_text(e), "<id>"@ + xml_text(e.id) + "</id>"@),
        has_infix(atom_entry_text(e), "<link href=\""@ + xml_text(e.id) + "\"/>"@),
        has_infix(atom_entry_text(e), "<author><name>"@ + xml_text(e.author) + "</name></author>"@),
        has_suffix(
            atom_entry_text(e),
            "<content type=\"text\">"@ + xml_text(e.body) + "</content></entry>"@,
        ),
{
    reveal_strlit("<entry><title>");
    reveal_strlit("</title><id>");
    reveal_strlit("</title>");
    reveal_strlit("<id>");
    reveal_strlit("</id><link href=\"");
    reveal_strlit("</id>");
    reveal_strlit("<link href=\"");
    reveal_strlit("\"/><published>");
    reveal_strlit("\"/>");
    reveal_strlit("</updated><author><name>");
    reveal_strlit("<author><name>");
    reveal_strlit("</name></author><content type=\"text\">");
    reveal_strlit("</name></author>");
    reveal_strlit("<content type=\"text\">");
    reveal_strlit("</content></entry>");
    let s = atom_entry_text(e);
    let t0 = "<entry><title>"@ + xml_text(e.title) + "</title>"@;
    assert(s.subrange(0, t0.len() as int) =~= t0);
    let p1 = "<entry><title>"@ + xml_text(e.title);
    let t1 = "<id>"@ + xml_text(e.id) + "</id>"@;
    let i1: int = p1.len() + 8int;
    assert(s.subrange(i1, i1 + t1.len() as int) =~= t1);
    let p2 = p1 + "</title><id>"@ + xml_text(e.id);
    let t2 = "<link href=\""@ + xml_text(e.id) + "\"/>"@;
    let i2: int = p2.len() + 5int;
    assert(s.subrange(i2, i2 + t2.len() as int) =~= t2);
    let p3 = p2 + "</id><link href=\""@ + xml_text(e.id) + "\"/><published>"@ + rfc3339_text(
        e.published.0,
        e.published.1,
    ) + "</published><updated>"@ + rfc3339_text(e.updated.0, e.updated.1);
    let t3 = "<author><name>"@ + xml_text(e.author) + "</name></author>"@;
    let i3: int = p3.len() + 10int;
    assert(s.subrange(i3, i3 + t3.len() as int) =~= t3);
    let t4 = "<content type=\"text\">"@ + xml_text(e.body) + "</content></entry>"@;
    assert(s.subrange(s.len() - t4.len(), s.len() as int) =~= t4);
}

/// Each RSS item puts its title, link, permanent id, author and
/// description, all as XML text, in their own elements, and gives the
/// RFC 2822 text of the publication instant as its date.
pub proof fn law_rss_item_fields(e: EntryView)
    ensures
        has_prefix(rss_item_text(e), "<item><title>"@ + xml_text(e.title) + "</title>"@),
        has_infix(rss_item_text(e), "<link>"@ + xml_text(e.id) + "</link>"@),
        has_infix(rss_item_text(e), "<guid isPermaLink=\"true\">"@ + xml_text(e.id) + "</guid>"@),
        has_infix(rss_item_text(e), "<dc:creator>"@ + xml_text(e.author) + "</dc:creator>"@),
        has_infix(
            rss_item_text(e),
            "<pubDate>"@ + rfc2822_text(e.published.0, e.published.1) + "</pubDate>"@,
        ),
        has_suffix(rss_item_text(e), "<description>"@ + xml_text(e.body) + "</description></item>"@),
{
    reveal_strlit("<item><title>");
    reveal_strlit("</title><link>");
    reveal_strlit("</title>");
    reveal_strlit("<link>");
    reveal_strlit("</link><guid isPermaLink=\"true\">");
    reveal_strlit("</link>");
    reveal_strlit("<guid isPermaLink=\"true\">");
    reveal_strlit("</guid><dc:creator>");
    reveal_strlit("</guid>");
    reveal_strlit("<dc:creator>");
    reveal_strlit("</dc:creator><pubDate>");
    reveal_strlit("</dc:creator>");
    reveal_strlit("<pubDate>");
    reveal_strlit("</pubDate><description>");
    reveal_strlit("</pubDate>");
    reveal_strlit("<description>");
    reveal_strlit("</description></item>");
    let s = rss_item_text(e);
    let t0 = "<item><title>"@ + xml_text(e.title) + "</title>"@;
    assert(s.subrange(0, t0.len() as int) =~= t0);
    let p1 = "<item><title>"@ + xml_text(e.title);
    let t1 = "<link>"@ + xml_text(e.id) + "</link>"@;
    let i1: int = p1.len() + 8int;
    assert(s.subrange(i1, i1 + t1.len() as int) =~= t1);
    let p2 = p1 + "</title><link>"@ + xml_text(e.id);
    let t2 = "<guid isPermaLink=\"true\">"@ + xml_text(e.id) + "</guid>"@;
    let i2: int = p2.len() + 7int;
    assert(s.subrange(i2, i2 + t2.len() as int) =~= t2);
    let p3 = p2 + "</link><guid isPermaLink=\"true\">"@ + xml_text(e.id);
    let t3 = "<dc:creator>"@ + xml_text(e.author) + "</dc:creator>"@;
    let i3: int = p3.len() + 7int;
    assert(s.subrange(i3, i3 + t3.len() as int) =~= t3);
    let p4 = p3 + "</guid><dc:creator>"@ + xml_text(e.author);
    let t4 = "<pubDate>"@ + rfc2822_text(e.published.0, e.published.1) + "</pubDate>"@;
    let i4: int = p4.len() + 13int;
    assert(s.subrange(i4, i4 + t4.len() as int) =~= t4);
    let t5 = "<description>"@ + xml_text(e.body) + "</description></item>"@;
    assert(s.subrange(s.len() - t5.len(), s.len() as int) =~= t5);
}

/// Items and entries follow one another in the order of the feed's
/// entries, each written on its own.
pub proof fn law_items_in_order(a: Seq<EntryView>, b: Seq<EntryView>, e: EntryView)
    ensures
        rss_items_text(a + b) == rss_items_text(a) + rss_items_text(b),
        atom_entries_text(a + b) == atom_entries_text(a) + atom_entries_text(b),
        rss_items_text(seq![e]) == rss_item_text(e),
        atom_entries_text(seq![e]) == atom_entry_text(e),
    decreases b.len(),
{
    assert(seq![e].drop_last() =~= Seq::<EntryView>::empty());
    assert(seq![e].last() == e);
    assert(rss_items_text(Seq::<EntryView>::empty()) =~= Seq::<char>::empty());
    assert(atom_entries_text(Seq::<EntryView>::empty()) =~= Seq::<char>::empty());
    assert(rss_items_text(seq![e]) =~= rss_item_text(e));
    assert(atom_entries_text(seq![e]) =~= atom_entry_text(e));
    if b.len() == 0 {
        assert(a + b =~= a);
        assert(rss_items_text(a) + rss_items_text(b) =~= rss_items_text(a));
        assert(atom_entries_text(a) + atom_entries_text(b) =~= atom_entries_text(a));
    } else {
        law_items_in_order(a, b.drop_last(), e);
        assert((a + b).drop_last() =~= a + b.drop_last());
        assert((a + b).last() == b.last());
        assert(rss_items_text(a + b) =~= rss_items_text(a) + rss_items_text(b));
        assert(atom_entries_text(a + b) =~= atom_entries_text(a) + atom_entries_text(b));
    }
}

/// A feed document ends with its entries, in order, then the closing tags,
/// and dates itself with the update instant of its first entry (the Unix
/// epoch when it has none).
pub proof fn law_document_dates_and_entries(metadata: MetadataView, entries: Seq<EntryView>)
    ensures
        has_suffix(atom_text(metadata, entries), atom_entries_text(entries) + "</feed>\n"@),
        has_suffix(rss_text(metadata, entries), rss_items_text(entries) + "</channel></rss>\n"@),
        has_infix(
            atom_text(metadata, entries),
            "<updated>"@ + rfc3339_text(feed_updated(entries).0, feed_updated(entries).1)
                + "</updated>"@,
        ),
        has_infix(
            rss_text(metadata, entries),
            "<lastBuildDate>"@ + rfc2822_text(feed_updated(entries).0, feed_updated(entries).1)
                + "</lastBuildDate>"@,
        ),
        has_infix(atom_text(metadata, entries), "<title>"@ + xml_text(metadata.title) + "</title>"@),
        has_infix(
            atom_text(metadata, entries),
            "<link href=\""@ + xml_text(metadata.feed_url) + "\" rel=\"self\" type=\"application/atom+xml\"/>"@,
        ),
        has_infix(
            rss_text(metadata, entries),
            "<atom:link href=\""@ + xml_text(metadata.feed_url) + "\" rel=\"self\" type=\"application/rss+xml\"/>"@,
        ),
        feed_updated(entries) == if entries.len() == 0 {
            (0i64, 0u32)
        } else {
            entries[0].updated
        },
{
    reveal_strlit("</id><updated>");
    reveal_strlit("<updated>");
    reveal_strlit("</updated><link href=\"");
    reveal_strlit("</updated>");
    reveal_strlit("</description><lastBuildDate>");
    reveal_strlit("<lastBuildDate>");
    reveal_strlit("</lastBuildDate><atom:link href=\"");
    reveal_strlit("</lastBuildDate>");
    reveal_strlit("<atom:link href=\"");
    reveal_strlit("\"/><link href=\"");
    reveal_strlit("<link href=\"");
    reveal_strlit("<?xml version=\"1.0\" encoding=\"utf-8\"?><feed xmlns=\"http://www.w3.org/2005/Atom\"><title>");
    reveal_strlit("<title>");
    reveal_strlit("</title><subtitle>");
    reveal_strlit("</title>");
    let a = atom_text(metadata, entries);
    let r = rss_text(metadata, entries);
    let ta = atom_entries_text(entries) + "</feed>\n"@;
    assert(a.subrange(a.len() - ta.len(), a.len() as int) =~= ta);
    let tr = rss_items_text(entries) + "</channel></rss>\n"@;
    assert(r.subrange(r.len() - tr.len(), r.len() as int) =~= tr);
    let fu = feed_updated(entries);
    let pa = "<?xml version=\"1.0\" encoding=\"utf-8\"?><feed xmlns=\"http://www.w3.org/2005/Atom\"><title>"@
        + xml_text(metadata.title) + "</title><subtitle>"@ + xml_text(metadata.description)
        + "</subtitle><id>"@ + xml_text(metadata.page_url);
    let tu = "<updated>"@ + rfc3339_text(fu.0, fu.1) + "</updated>"@;
    let iu: int = pa.len() + 5int;
    assert(a.subrange(iu, iu + tu.len() as int) =~= tu);
    let pr = "<?xml version=\"1.0\" encoding=\"utf-8\"?><rss version=\"2.0\" xmlns:atom=\"http://www.w3.org/2005/Atom\" xmlns:dc=\"http://purl.org/dc/elements/1.1/\"><channel><title>"@
        + xml_text(metadata.title) + "</title><link>"@ + xml_text(metadata.page_url)
        + "</link><description>"@ + xml_text(metadata.description);
    let tb = "<lastBuildDate>"@ + rfc2822_text(fu.0, fu.1) + "</lastBuildDate>"@;
    let ib: int = pr.len() + 14int;
    assert(r.subrange(ib, ib + tb.len() as int) =~= tb);
    let lt = "<?xml version=\"1.0\" encoding=\"utf-8\"?><feed xmlns=\"http://www.w3.org/2005/Atom\"><title>"@.len();
    let tt = "<title>"@ + xml_text(metadata.title) + "</title>"@;
    let it: int = lt - 7int;
    assert(a.subrange(it, it + tt.len() as int) =~= tt);
    let pl = pa + "</id><updated>"@ + rfc3339_text(fu.0, fu.1) + "</updated><link href=\""@
        + xml_text(metadata.page_url);
    let tl = "<link href=\""@ + xml_text(metadata.feed_url) + "\" rel=\"self\" type=\"application/atom+xml\"/>"@;
    let il: int = pl.len() + 3int;
    assert(a.subrange(il, il + tl.len() as int) =~= tl);
    let pk = pr + "</description><lastBuildDate>"@ + rfc2822_text(fu.0, fu.1);
    let tk = "<atom:link href=\""@ + xml_text(metadata.feed_url) + "\" rel=\"self\" type=\"application/rss+xml\"/>"@;
    let ik: int = pk.len() + 16int;
    assert(r.subrange(ik, ik + tk.len() as int) =~= tk);
}

/// XML text is written a character at a time: a character that XML 1.0
/// allows stands for itself unless it is one of `&`, `<`, `>`, `"`, `'`,
/// which become references; any other character is dropped.
pub proof fn law_xml_text_by_character(a: Seq<char>, b: Seq<char>, c: char)
    ensures
        xml_text(a + b) == xml_text(a) + xml_text(b),
        ((c == '\t' || c == '\n' || c == '\r' || 0x20 <= (c as u32) <= 0xd7ff || 0xe000 <= (c as u32)
            <= 0xfffd || 0x10000 <= (c as u32) <= 0x10ffff) && c != '&' && c != '<' && c != '>' && c
            != '"' && c != '\'') ==> xml_text(seq![c]) == seq![c],
        !(c == '\t' || c == '\n' || c == '\r' || 0x20 <= (c as u32) <= 0xd7ff || 0xe000 <= (c as u32)
            <= 0xfffd || 0x10000 <= (c as u32) <= 0x10ffff) ==> xml_text(seq![c]) == Seq::<char>::empty(),
        xml_text(seq!['&']) == "&amp;"@,
        xml_text(seq!['<']) == "&lt;"@,
        xml_text(seq!['>']) == "&gt;"@,
        xml_text(seq!['"']) == "&quot;"@,
        xml_text(seq!['\'']) == "&apos;"@,
    decreases b.len(),
{
    assert(xml_text(Seq::<char>::empty()) =~= Seq::<char>::empty());
    assert forall|x: char| #[trigger] xml_text(seq![x]) == xml_char(x) by {
        assert(seq![x].drop_last() =~= Seq::<char>::empty());
        assert(seq![x].last() == x);
        assert(xml_text(seq![x]) =~= xml_char(x));
    }
    if b.len() == 0 {
        assert(a + b =~= a);
        assert(xml_text(a) + xml_text(b) =~= xml_text(a));
    } else {
        law_xml_text_by_character(a, b.drop_last(), c);
        assert((a + b).drop_last() =~= a + b.drop_last());
        assert((a + b).last() == b.last());
        assert(xml_text(a + b) =~= xml_text(a) + xml_text(b));
    }
}

/// A text of characters that XML allows, none of them `&`, `<`, `>`, `"`
/// or `'`, is its own XML text.
pub proof fn law_xml_text_keeps_plain_text(s: Seq<char>)
    requires
        forall|i: int|
            0 <= i < s.len() ==> {
                let c = #[trigger] s[i];
                &&& (c == '\t' || c == '\n' || c == '\r' || 0x20 <= (c as u32) <= 0xd7ff || 0xe000 <= (
                c as u32) <= 0xfffd || 0x10000 <= (c as u32) <= 0x10ffff)
                &&& c != '&' && c != '<' && c != '>' && c != '"' && c != '\''
            },
    ensures
        xml_text(s) == s,
    decreases s.len(),
{
    if s.len() > 0 {
        let p = s.drop_last();
        assert forall|i: int| 0 <= i < p.len() implies {
            let c = #[trigger] p[i];
            &&& (c == '\t' || c == '\n' || c == '\r' || 0x20 <= (c as u32) <= 0xd7ff || 0xe000 <= (
            c as u32) <= 0xfffd || 0x10000 <= (c as u32) <= 0x10ffff)
            &&& c != '&' && c != '<' && c != '>' && c != '"' && c != '\''
        } by {
            assert(p[i] == s[i]);
        }
        law_xml_text_keeps_plain_text(p);
        let c = s[s.len() - 1];
        law_xml_text_by_character(p, seq![c], c);
        assert(s =~= p + seq![c]);
    }
}

/// The entries of the threads come thread by thread, in order; the
/// entries of one thread are the thread, dated at its creation, then each
/// reply in order, published when created and updated when last edited.
pub proof fn law_entries_of_threads(a: Seq<Post>, b: Seq<Post>, post: Post, include_board: bool)
    ensures
        entries_text(a + b, include_board) == entries_text(a, include_board) + entries_text(b, include_board),
        entries_text(seq![post], include_board) == post_entries(post, include_board),
        post_entries(post, include_board).len() == 1 + post.replies@.len(),
        ({
            let root = post_entries(post, include_board)[0];
            &&& root.id == BASE_URL@ + "/bbs/posts/"@ + signed_decimal(post.id as int)
            &&& root.title == if include_board {
                "["@ + post.board.name@ + "] "@ + post.title@
            } else {
                post.title@
            }
            &&& root.author == post.author@
            &&& root.body == post.body@
            &&& root.published == post.created_at@
            &&& root.updated == post.created_at@
        }),
        forall|k: int|
            0 <= k < post.replies@.len() ==> {
                let e = #[trigger] post_entries(post, include_board)[k + 1];
                let reply = post.replies@[k];
                &&& e.id == BASE_URL@ + "/bbs/posts/"@ + signed_decimal(post.id as int) + "#reply-"@
                    + signed_decimal(reply.id as int)
                &&& e.title == if include_board {
                    "["@ + post.board.name@ + "] Re: "@ + post.title@
                } else {
                    "Re: "@ + post.title@
                }
                &&& e.author == reply.author@
                &&& e.body == reply.body@
                &&& e.published == reply.created_at@
                &&& e.updated == reply.updated_at@
            },
    decreases b.len(),
{
    assert(seq![post].drop_last() =~= Seq::<Post>::empty());
    assert(seq![post].last() == post);
    assert(entries_text(Seq::<Post>::empty(), include_board) =~= Seq::<EntryView>::empty());
    assert(entries_text(seq![post], include_board) =~= post_entries(post, include_board));
    if b.len() == 0 {
        assert(a + b =~= a);
        assert(entries_text(a, include_board) + entries_text(b, include_board) =~= entries_text(
            a,
            include_board,
        ));
    } else {
        law_entries_of_threads(a, b.drop_last(), post, include_board);
        assert((a + b).drop_last() =~= a + b.drop_last());
        assert((a + b).last() == b.last());
        assert(entries_text(a + b, include_board) =~= entries_text(a, include_board) + entries_text(
            b,
            include_board,
        ));
    }
}

/// One entry goes before another in a feed when it was updated at a later
/// instant (later second, or the same second and more nanoseconds), or at
/// the same instant with an id that sorts after the other's.
pub proof fn law_precedes(a: EntryView, b: EntryView)
    ensures
        precedes(a, b) <==> (a.updated.0 > b.updated.0 || (a.updated.0 == b.updated.0 && a.updated.1
            > b.updated.1) || (a.updated == b.updated && lex_after(a.id, b.id))),
{
}

/// The media types and file names of the two formats, and the URLs that
/// board and site feeds give themselves: `/bbs/boards/<slug>/rss.xml` or
/// `atom.xml`, and `/bbs/rss.xml` or `/bbs/atom.xml`.
pub proof fn law_feed_locations(board: Board)
    ensures
        Format::Rss.content_type_text() == "application/rss+xml; charset=utf-8"@,
        Format::Atom.content_type_text() == "application/atom+xml; charset=utf-8"@,
        board_metadata(Format::Rss, board).feed_url == "https://salyut.one/bbs/boards/"@ + board.slug@
            + "/rss.xml"@,
        board_metadata(Format::Atom, board).feed_url == "https://salyut.one/bbs/boards/"@ + board.slug@
            + "/atom.xml"@,
        board_metadata(Format::Atom, board).page_url == "https://salyut.one/bbs/boards/"@ + board.slug@,
        board_metadata(Format::Atom, board).title == "salyut.one BBS \u{2014} "@ + board.name@,
        board_metadata(Format::Rss, board).description == board.description@,
        global_metadata(Format::Rss).feed_url == "https://salyut.one/bbs/rss.xml"@,
        global_metadata(Format::Atom).feed_url == "https://salyut.one/bbs/atom.xml"@,
        global_metadata(Format::Atom).page_url == "https://salyut.one/bbs"@,
{
    reveal_strlit("https://salyut.one");
    reveal_strlit("/bbs/boards/");
    reveal_strlit("https://salyut.one/bbs/boards/");
    reveal_strlit("/");
    reveal_strlit("rss");
    reveal_strlit("atom");
    reveal_strlit(".xml");
    reveal_strlit("/rss.xml");
    reveal_strlit("/atom.xml");
    reveal_strlit("/bbs");
    reveal_strlit("/bbs/");
    reveal_strlit("https://salyut.one/bbs");
    reveal_strlit("https://salyut.one/bbs/rss.xml");
    reveal_strlit("https://salyut.one/bbs/atom.xml");
    assert(board_metadata(Format::Rss, board).feed_url =~= "https://salyut.one/bbs/boards/"@ + board.slug@
        + "/rss.xml"@);
    assert(board_metadata(Format::Atom, board).feed_url =~= "https://salyut.one/bbs/boards/"@
        + board.slug@ + "/atom.xml"@);
    assert(board_metadata(Format::Atom, board).page_url =~= "https://salyut.one/bbs/boards/"@
        + board.slug@);
    assert(global_metadata(Format::Rss).feed_url =~= "https://salyut.one/bbs/rss.xml"@);
    assert(global_metadata(Format::Atom).feed_url =~= "https://salyut.one/bbs/atom.xml"@);
    assert(global_metadata(Format::Atom).page_url =~= "https://salyut.one/bbs"@);
}

/// An RSS feed can be written exactly when every item's publication
/// instant and the feed's update instant fall in the years 0 through 9999
/// (from second -62167219200 up to, not including, second 253402300800);
/// an Atom feed can always be written.
pub proof fn law_writable(entries: Seq<EntryView>)
    ensures
        writable(Format::Atom, entries),
        writable(Format::Rss, entries) <==> (forall|i: int|
            0 <= i < entries.len() ==> -62167219200 <= #[trigger] entries[i].published.0
                < 253402300800) && (entries.len() > 0 ==> -62167219200 <= entries[0].updated.0
            < 253402300800),
{
}

} // verus!
