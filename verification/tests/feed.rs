use salyut_site::feed::{self, render_board, render_global, xml, Format};
use salyut_site::protocol::{Board, Post, Reply};
use salyut_site::time::Timestamp;

fn at(text: &str) -> Timestamp {
    let parsed = chrono::DateTime::parse_from_rfc3339(text).unwrap();
    Timestamp::new(parsed.timestamp(), parsed.timestamp_subsec_nanos()).unwrap()
}

fn general() -> Board {
    Board {
        slug: "general".to_owned(),
        name: "General & chat".to_owned(),
        description: "General <discussion>".to_owned(),
        write_group: None,
    }
}

fn fixture() -> (Board, Vec<Post>) {
    let post = Post {
        id: 7,
        board: general(),
        author: "alice & bob".to_owned(),
        title: "Hello <world>".to_owned(),
        body: "Root & body\u{0001}".to_owned(),
        locked: false,
        replies: vec![Reply {
            id: 9,
            author: "carol".to_owned(),
            body: "A <reply>".to_owned(),
            created_at: at("2026-07-21T12:00:00Z"),
            updated_at: at("2026-07-21T12:01:00Z"),
        }],
        poll: None,
        proposal: None,
        created_at: at("2026-07-20T10:00:00Z"),
        updated_at: at("2026-07-20T10:00:00Z"),
    };
    (general(), vec![post])
}

#[test]
fn rss_contains_stable_thread_and_reply_items() {
    let (board, posts) = fixture();
    let feed = render_board(Format::Rss, &board, &posts);
    assert!(feed.starts_with("<?xml version=\"1.0\" encoding=\"utf-8\"?>"));
    assert!(feed.contains("<title>salyut.one BBS \u{2014} General &amp; chat</title>"));
    assert!(feed.contains("https://salyut.one/bbs/posts/7#reply-9"));
    assert!(feed.contains("<title>Re: Hello &lt;world&gt;</title>"));
    assert!(feed.contains("<description>A &lt;reply&gt;</description>"));
    assert!(!feed.contains('\u{1}'));
}

#[test]
fn atom_uses_reply_time_as_feed_update() {
    let (board, posts) = fixture();
    let feed = render_board(Format::Atom, &board, &posts);
    assert!(feed.contains("<updated>2026-07-21T12:01:00Z</updated>"));
    assert!(feed.contains("<author><name>alice &amp; bob</name></author>"));
    assert!(feed.contains("<content type=\"text\">Root &amp; body</content>"));
    assert!(feed.contains(
        "<link href=\"https://salyut.one/bbs/boards/general/atom.xml\" rel=\"self\""
    ));
}

#[test]
fn global_feed_identifies_the_source_board() {
    let (_, posts) = fixture();
    let feed = render_global(Format::Atom, &posts);
    assert!(feed.contains("<id>https://salyut.one/bbs</id>"));
    assert!(feed.contains("<link href=\"https://salyut.one/bbs/atom.xml\" rel=\"self\""));
    assert!(feed.contains("<title>[General &amp; chat] Hello &lt;world&gt;</title>"));
    assert!(feed.contains("<title>[General &amp; chat] Re: Hello &lt;world&gt;</title>"));
}

#[test]
fn rss_document_is_exact() {
    let (board, posts) = fixture();
    let feed = render_board(Format::Rss, &board, &posts);
    let expected = [
        "<?xml version=\"1.0\" encoding=\"utf-8\"?>",
        "<rss version=\"2.0\" xmlns:atom=\"http://www.w3.org/2005/Atom\" ",
        "xmlns:dc=\"http://purl.org/dc/elements/1.1/\"><channel>",
        "<title>salyut.one BBS \u{2014} General &amp; chat</title>",
        "<link>https://salyut.one/bbs/boards/general</link>",
        "<description>General &lt;discussion&gt;</description>",
        "<lastBuildDate>Tue, 21 Jul 2026 12:01:00 +0000</lastBuildDate>",
        "<atom:link href=\"https://salyut.one/bbs/boards/general/rss.xml\" rel=\"self\" type=\"application/rss+xml\"/>",
        "<item><title>Re: Hello &lt;world&gt;</title>",
        "<link>https://salyut.one/bbs/posts/7#reply-9</link>",
        "<guid isPermaLink=\"true\">https://salyut.one/bbs/posts/7#reply-9</guid>",
        "<dc:creator>carol</dc:creator><pubDate>Tue, 21 Jul 2026 12:00:00 +0000</pubDate>",
        "<description>A &lt;reply&gt;</description></item>",
        "<item><title>Hello &lt;world&gt;</title>",
        "<link>https://salyut.one/bbs/posts/7</link>",
        "<guid isPermaLink=\"true\">https://salyut.one/bbs/posts/7</guid>",
        "<dc:creator>alice &amp; bob</dc:creator><pubDate>Mon, 20 Jul 2026 10:00:00 +0000</pubDate>",
        "<description>Root &amp; body</description></item>",
        "</channel></rss>\n",
    ]
    .concat();
    assert_eq!(feed, expected);
}

#[test]
fn empty_feed_is_dated_at_the_epoch() {
    let board = general();
    let atom = render_board(Format::Atom, &board, &[]);
    assert!(atom.contains("<updated>1970-01-01T00:00:00Z</updated>"));
    assert!(!atom.contains("<entry>"));
    let rss = render_board(Format::Rss, &board, &[]);
    assert!(rss.contains("<lastBuildDate>Thu, 1 Jan 1970 00:00:00 +0000</lastBuildDate>"));
}

fn thread(id: i64, created: &str, replies: Vec<Reply>) -> Post {
    Post {
        id,
        board: general(),
        author: "a".to_owned(),
        title: format!("t{id}"),
        body: String::new(),
        locked: false,
        replies,
        poll: None,
        proposal: None,
        created_at: at(created),
        updated_at: at(created),
    }
}

fn reply(id: i64, created: &str, updated: &str) -> Reply {
    Reply {
        id,
        author: "r".to_owned(),
        body: String::new(),
        created_at: at(created),
        updated_at: at(updated),
    }
}

fn entry_ids(feed: &str) -> Vec<String> {
    feed.split("<id>")
        .skip(2)
        .map(|part| part.split("</id>").next().unwrap().to_owned())
        .collect()
}

#[test]
fn feed_orders_entries_newest_first_with_id_as_tie_break() {
    let posts = vec![
        thread(9, "2026-01-01T00:00:00Z", vec![reply(1, "2026-01-05T00:00:00Z", "2026-01-05T00:00:00Z")]),
        thread(10, "2026-01-01T00:00:00Z", vec![]),
        thread(3, "2026-01-03T00:00:00Z", vec![]),
    ];
    let feed = render_global(Format::Atom, &posts);
    assert_eq!(
        entry_ids(&feed),
        vec![
            "https://salyut.one/bbs/posts/9#reply-1",
            "https://salyut.one/bbs/posts/3",
            "https://salyut.one/bbs/posts/9",
            "https://salyut.one/bbs/posts/10",
        ]
    );
    assert!(feed.contains("<updated>2026-01-05T00:00:00Z</updated><link"));
}

#[test]
fn feed_keeps_only_the_newest_fifty_entries() {
    let replies = (0..60)
        .map(|i| {
            let time = format!("2026-02-01T00:{:02}:00Z", i % 60);
            reply(i, &time, &time)
        })
        .collect();
    let posts = vec![thread(1, "2025-01-01T00:00:00Z", replies)];
    let feed = render_board(Format::Atom, &general(), &posts);
    let ids = entry_ids(&feed);
    assert_eq!(ids.len(), feed::ENTRY_LIMIT);
    assert_eq!(ids[0], "https://salyut.one/bbs/posts/1#reply-59");
    assert_eq!(ids[49], "https://salyut.one/bbs/posts/1#reply-10");
    assert!(!feed.contains("https://salyut.one/bbs/posts/1</id>"));
}

#[test]
fn negative_ids_keep_their_sign() {
    let posts = vec![thread(-4, "2026-01-01T00:00:00Z", vec![])];
    let feed = render_board(Format::Atom, &general(), &posts);
    assert!(feed.contains("<id>https://salyut.one/bbs/posts/-4</id>"));
}

#[test]
fn rss_needs_four_digit_years() {
    let old = Timestamp::new(-62167219201, 0).unwrap();
    let mut post = thread(1, "2026-01-01T00:00:00Z", vec![]);
    post.created_at = old;
    let posts = vec![post];
    assert!(!feed::can_render(Format::Rss, &posts, false));
    assert!(feed::can_render(Format::Atom, &posts, false));
    let (_, fixture_posts) = fixture();
    assert!(feed::can_render(Format::Rss, &fixture_posts, false));
    let atom = render_board(Format::Atom, &general(), &posts);
    assert!(atom.contains("<updated>-0001-12-31T23:59:59Z</updated>"));
}

#[test]
fn xml_drops_disallowed_characters_and_escapes_markup() {
    assert_eq!(xml("a\u{0}b\u{8}c\td\ne\rf"), "abc\td\ne\rf");
    assert_eq!(xml("<&>\"'"), "&lt;&amp;&gt;&quot;&apos;");
    assert_eq!(xml("\u{fffe}\u{ffff}\u{10000}"), "\u{10000}");
    assert_eq!(xml("\u{d7ff}\u{e000}"), "\u{d7ff}\u{e000}");
}

#[test]
fn formats_name_their_media_types_and_files() {
    assert_eq!(Format::Rss.content_type(), "application/rss+xml; charset=utf-8");
    assert_eq!(Format::Atom.content_type(), "application/atom+xml; charset=utf-8");
    assert_eq!(Format::Rss.slug(), "rss");
    assert_eq!(Format::Atom.slug(), "atom");
}
