use salyut_site::protocol::{
    Board, Poll, PollOption, Post, PostSummary, Proposal, ProposalEvent, ProposalState, Reply,
};
use salyut_site::time::Timestamp;
use salyut_site::view::{board, index, post, render_proposal};

fn at(text: &str) -> Timestamp {
    let parsed = chrono::DateTime::parse_from_rfc3339(text).unwrap();
    Timestamp::new(parsed.timestamp(), parsed.timestamp_subsec_nanos()).unwrap()
}

fn general() -> Board {
    Board {
        slug: "general".to_owned(),
        name: "General".to_owned(),
        description: String::new(),
        write_group: None,
    }
}

fn fixture() -> Post {
    Post {
        id: 1,
        board: general(),
        author: "alice".to_owned(),
        title: "<Hello>".to_owned(),
        body: "<script>".to_owned(),
        locked: false,
        replies: vec![Reply {
            id: 2,
            author: "bob".to_owned(),
            body: "<reply>".to_owned(),
            created_at: at("2026-07-19T12:00:00Z"),
            updated_at: at("2026-07-19T12:00:00Z"),
        }],
        poll: None,
        proposal: None,
        created_at: at("2026-07-19T12:00:00Z"),
        updated_at: at("2026-07-19T12:00:00Z"),
    }
}

#[test]
fn escapes_authored_content() {
    let fixture = fixture();
    let html = post(&fixture);
    assert!(html.contains("<title>&lt;Hello&gt; \u{b7} salyut.one BBS</title>"));
    assert!(html.contains("&lt;script&gt;"));
    assert!(html.contains("&lt;reply&gt;"));
    assert!(html.contains("href=\"/bbs\""));
}

#[test]
fn post_page_lists_replies_with_anchors_and_dates() {
    let html = post(&fixture());
    assert!(html.contains(
        "<h1>&lt;Hello&gt;</h1><p class=\"byline\">Posted by @alice in General on 2026-07-19 12:00 UTC \u{b7} #1</p><hr><pre>&lt;script&gt;</pre><section class=\"replies\"><hr><h2>Replies</h2>"
    ));
    assert!(html.contains(
        "<article class=\"reply\" id=\"reply-2\"><p class=\"byline\"><a href=\"#reply-2\">#2</a> \u{b7} @bob \u{b7} 2026-07-19 12:00 UTC</p><pre>&lt;reply&gt;</pre></article>"
    ));
    assert!(html.contains("<p>Log in over SSH and run <code>bbs</code> to reply.</p></section>"));
}

#[test]
fn locked_post_without_replies() {
    let mut thread = fixture();
    thread.locked = true;
    thread.replies = Vec::new();
    let html = post(&thread);
    assert!(html.contains("<h1>&lt;Hello&gt;</h1><p class=\"locked\">[Locked]</p>"));
    assert!(html.contains("<p>No replies yet.</p><p>Replies are closed.</p>"));
}

fn state(label: &str, voting: bool) -> ProposalState {
    ProposalState { label: label.to_owned(), voting }
}

#[test]
fn poll_shows_shares_in_whole_percent() {
    let mut thread = fixture();
    thread.poll = Some(Poll {
        options: vec![
            PollOption { label: "Yes & no".to_owned(), votes: 2 },
            PollOption { label: "No".to_owned(), votes: 1 },
        ],
        total_votes: 3,
    });
    let html = post(&thread);
    assert!(html.contains("<li>Yes &amp; no \u{2014} 2 vote(s), 66%<br><div class=\"poll-meter\" role=\"img\" aria-label=\"66 percent\"><span style=\"width: 66%\"></span></div></li>"));
    assert!(html.contains("<li>No \u{2014} 1 vote(s), 33%<br>"));
    assert!(html.contains("<p>3 total vote(s). Voting is closed.</p></section>"));
}

#[test]
fn poll_without_votes_shows_zero_percent() {
    let mut thread = fixture();
    thread.poll = Some(Poll {
        options: vec![PollOption { label: "Maybe".to_owned(), votes: 0 }],
        total_votes: 0,
    });
    thread.proposal = Some(Proposal {
        state: state("voting", true),
        closes_at: at("2026-08-01T00:00:00Z"),
        closed_at: None,
        events: Vec::new(),
    });
    let html = post(&thread);
    assert!(html.contains("<li>Maybe \u{2014} 0 vote(s), 0%<br>"));
    assert!(html.contains("<p>0 total vote(s). Log in over SSH and run bbs to vote.</p>"));
}

#[test]
fn proposal_history_names_actors_and_transitions() {
    let proposal = Proposal {
        state: state("accepted", false),
        closes_at: at("2026-08-01T00:00:00Z"),
        closed_at: Some(at("2026-08-02T09:30:00Z")),
        events: vec![
            ProposalEvent {
                actor: Some("alice".to_owned()),
                actor_uid: Some(1001),
                from_state: None,
                to_state: state("draft", false),
                reason: None,
                created_at: at("2026-07-30T08:00:00Z"),
            },
            ProposalEvent {
                actor: None,
                actor_uid: None,
                from_state: Some(state("voting", true)),
                to_state: state("accepted", false),
                reason: Some("<quorum>".to_owned()),
                created_at: at("2026-08-02T09:30:00Z"),
            },
        ],
    };
    assert_eq!(
        render_proposal(&proposal),
        "<section class=\"proposal\"><hr><h2>Proposal: accepted</h2><p>Voting closed 2026-08-02 09:30 UTC.</p><h3>History</h3><ol><li>2026-07-30 08:00 UTC \u{b7} draft \u{b7} @alice (uid 1001)</li><li>2026-08-02 09:30 UTC \u{b7} voting \u{2192} accepted \u{b7} system \u{2014} &lt;quorum&gt;</li></ol></section>"
    );
}

#[test]
fn open_proposal_says_when_voting_closes() {
    let proposal = Proposal {
        state: state("voting", true),
        closes_at: at("2026-08-01T18:45:00Z"),
        closed_at: None,
        events: vec![ProposalEvent {
            actor: Some("bob".to_owned()),
            actor_uid: None,
            from_state: None,
            to_state: state("voting", true),
            reason: None,
            created_at: at("2026-07-31T00:00:00Z"),
        }],
    };
    let html = render_proposal(&proposal);
    assert!(html.contains("<p>Voting closes 2026-08-01 18:45 UTC.</p>"));
    assert!(html.contains("\u{b7} @bob</li>"));
}

#[test]
fn index_lists_boards_with_restrictions() {
    let boards = vec![
        general(),
        Board {
            slug: "news".to_owned(),
            name: "News".to_owned(),
            description: "Announcements & <updates>".to_owned(),
            write_group: Some("staff".to_owned()),
        },
    ];
    let html = index(&boards);
    assert!(html.contains("<title>Message board \u{b7} salyut.one BBS</title>"));
    assert!(html.contains("<ul class=\"boards\"><li><a href=\"/bbs/boards/general\">[General]</a> \u{2014} </li><li><a href=\"/bbs/boards/news\">[News]</a> \u{2014} Announcements &amp; &lt;updates&gt; <small>(starting threads requires the staff group)</small></li></ul>"));
}

fn summary(id: i64, replies: u64) -> PostSummary {
    PostSummary {
        id,
        title: "Q&A".to_owned(),
        author: "carol".to_owned(),
        is_poll: true,
        proposal_state: Some(state("draft", false)),
        locked: true,
        reply_count: replies,
        updated_at: at("2026-07-21T23:59:00Z"),
    }
}

#[test]
fn board_lists_threads_with_marks_and_reply_counts() {
    let html = board(&general(), &[summary(5, 1), summary(6, 0)]);
    assert!(html.contains("<h1>General</h1><p></p><hr><h2>Posts</h2><ol class=\"posts\">"));
    assert!(html.contains("<li><a href=\"/bbs/posts/5\">Q&amp;A \u{25c9}</a> [draft] [locked] \u{2014} <span>@carol, 2026-07-21, #5 \u{b7} 1 reply</span></li>"));
    assert!(html.contains("#6 \u{b7} 0 replies</span></li></ol>"));
}

#[test]
fn empty_board_says_so() {
    let html = board(&general(), &[]);
    assert!(html.contains("<h2>Posts</h2><p class=\"empty\">No posts yet.</p>"));
}
