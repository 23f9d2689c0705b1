//! The HTML pages of the read-only BBS view.
use vstd::prelude::*;
use crate::protocol::{
    Board, Poll, PollOption, Post, PostSummary, Proposal, ProposalEvent, Reply,
};
use crate::templates::BBS_PAGE;
use crate::text::{
    decimal, has_infix, has_prefix, has_suffix, lemma_infix, lemma_prefix, lemma_suffix, push_decimal,
    push_signed_decimal, signed_decimal,
};
use crate::time::{DAY_FORMAT, MINUTE_FORMAT, Timestamp, formatted_text};
use crate::web::{escape, escaped, page_text};

verus! {

broadcast use vstd::string::group_string_axioms;

/// A date and time to the minute, as the pages show it.
pub open spec fn minute_text(t: Timestamp) -> Seq<char> {
    formatted_text(t@.0, t@.1, MINUTE_FORMAT@)
}

/// A date alone, as the pages show it.
pub open spec fn day_text(t: Timestamp) -> Seq<char> {
    formatted_text(t@.0, t@.1, DAY_FORMAT@)
}

/// A BBS page with the given title and content.
pub open spec fn bbs_page_text(title: Seq<char>, content: Seq<char>) -> Seq<char> {
    page_text(BBS_PAGE@, title, content)
}

/// Fills the BBS template with a title, which is escaped, and content.
pub fn page(title: &str, content: &str) -> (r: String)
    ensures
        r@ == bbs_page_text(title@, content@),
{
    crate::web::page(BBS_PAGE, title, content)
}

/// A board in the list of boards: a link to it, its description and, when
/// starting threads is restricted, the group that may.
pub open spec fn board_card_text(board: Board) -> Seq<char> {
    let restriction = match board.write_group {
        Some(group) => " <small>(starting threads requires the "@ + escaped(group@) + " group)</small>"@,
        None => Seq::empty(),
    };
    "<li><a href=\"/bbs/boards/"@ + escaped(board.slug@) + "\">["@ + escaped(board.name@)
        + "]</a> \u{2014} "@ + escaped(board.description@) + restriction + "</li>"@
}

/// The list items of the boards, in order.
pub open spec fn board_cards_text(boards: Seq<Board>) -> Seq<char>
    decreases boards.len(),
{
    if boards.len() == 0 {
        Seq::empty()
    } else {
        board_cards_text(boards.drop_last()) + board_card_text(boards.last())
    }
}

fn board_card(board: &Board) -> (r: String)
    ensures
        r@ == board_card_text(*board),
{
    let mut restriction = String::new();
    match &board.write_group {
        Some(group) => {
            restriction.append(" <small>(starting threads requires the ");
            restriction.append(escape(group.as_str()).as_str());
            restriction.append(" group)</small>");
        },
        None => {},
    }
    let mut r = String::new();
    r.append("<li><a href=\"/bbs/boards/");
    r.append(escape(board.slug.as_str()).as_str());
    r.append("\">[");
    r.append(escape(board.name.as_str()).as_str());
    r.append("]</a> \u{2014} ");
    r.append(escape(board.description.as_str()).as_str());
    r.append(restriction.as_str());
    r.append("</li>");
    r
}

/// The content of the page that lists the boards.
pub open spec fn index_content_text(boards: Seq<Board>) -> Seq<char> {
    "<h1>Bulletin Board System</h1><p>Browse posts here, or log in over SSH and run <code>bbs</code> to post, reply, and vote.</p><hr><h2>Boards</h2><ul class=\"boards\">"@
        + board_cards_text(boards) + "</ul>"@
}

/// The page that lists the boards.
pub fn index(boards: &[Board]) -> (r: String)
    ensures
        r@ == bbs_page_text("Message board"@, index_content_text(boards@)),
{
    let mut cards = String::new();
    for i in 0..boards.len()
        invariant
            cards@ == board_cards_text(boards@.take(i as int)),
    {
        cards.append(board_card(&boards[i]).as_str());
        assert(boards@.take(i + 1).drop_last() =~= boards@.take(i as int));
    }
    assert(boards@.take(boards@.len() as int) =~= boards@);
    let mut content = String::new();
    content.append(
        "<h1>Bulletin Board System</h1><p>Browse posts here, or log in over SSH and run <code>bbs</code> to post, reply, and vote.</p><hr><h2>Boards</h2><ul class=\"boards\">",
    );
    content.append(cards.as_str());
    content.append("</ul>");
    page("Message board", content.as_str())
}

/// A thread in a board's listing: a link to it with its title, marks for a
/// poll, a proposal's state and a lock, then its author, date, number and
/// reply count.
pub open spec fn post_row_text(post: PostSummary) -> Seq<char> {
    let poll = if post.is_poll {
        " \u{25c9}"@
    } else {
        Seq::empty()
    };
    let proposal = match post.proposal_state {
        Some(state) => " ["@ + state.label@ + "]"@,
        None => Seq::empty(),
    };
    let locked = if post.locked {
        " [locked]"@
    } else {
        Seq::empty()
    };
    let suffix = if post.reply_count == 1 {
        "y"@
    } else {
        "ies"@
    };
    "<li><a href=\"/bbs/posts/"@ + signed_decimal(post.id as int) + "\">"@ + escaped(post.title@) + poll
        + "</a>"@ + proposal + locked + " \u{2014} <span>@"@ + escaped(post.author@) + ", "@ + day_text(
        post.updated_at,
    ) + ", #"@ + signed_decimal(post.id as int) + " \u{b7} "@ + decimal(post.reply_count as nat)
        + " repl"@ + suffix + "</span></li>"@
}

/// The list items of the threads, in order.
pub open spec fn post_rows_text(posts: Seq<PostSummary>) -> Seq<char>
    decreases posts.len(),
{
    if posts.len() == 0 {
        Seq::empty()
    } else {
        post_rows_text(posts.drop_last()) + post_row_text(posts.last())
    }
}

fn post_row(post: &PostSummary) -> (r: String)
    ensures
        r@ == post_row_text(*post),
{
    let mut poll = String::new();
    if post.is_poll {
        poll.append(" \u{25c9}");
    }
    let mut proposal = String::new();
    match &post.proposal_state {
        Some(state) => {
            proposal.append(" [");
            proposal.append(state.label.as_str());
            proposal.append("]");
        },
        None => {},
    }
    let mut locked = String::new();
    if post.locked {
        locked.append(" [locked]");
    }
    let mut r = String::new();
    r.append("<li><a href=\"/bbs/posts/");
    push_signed_decimal(&mut r, post.id);
    r.append("\">");
    r.append(escape(post.title.as_str()).as_str());
    r.append(poll.as_str());
    r.append("</a>");
    r.append(proposal.as_str());
    r.append(locked.as_str());
    r.append(" \u{2014} <span>@");
    r.append(escape(post.author.as_str()).as_str());
    r.append(", ");
    r.append(post.updated_at.day().as_str());
    r.append(", #");
    push_signed_decimal(&mut r, post.id);
    r.append(" \u{b7} ");
    push_decimal(&mut r, post.reply_count);
    r.append(" repl");
    if post.reply_count == 1 {
        r.append("y");
    } else {
        r.append("ies");
    }
    r.append("</span></li>");
    r
}

/// The content of a board's page.
pub open spec fn board_content_text(board: Board, posts: Seq<PostSummary>) -> Seq<char> {
    let listing = if posts.len() == 0 {
        "<p class=\"empty\">No posts yet.</p>"@
    } else {
        "<ol class=\"posts\">"@ + post_rows_text(posts) + "</ol>"@
    };
    "<h1>"@ + escaped(board.name@) + "</h1><p>"@ + escaped(board.description@)
        + "</p><hr><h2>Posts</h2>"@ + listing
}

/// A board's page, listing its threads.
pub fn board(shown: &Board, posts: &[PostSummary]) -> (r: String)
    ensures
        r@ == bbs_page_text(shown.name@, board_content_text(*shown, posts@)),
{
    let mut listing = String::new();
    if posts.len() == 0 {
        listing.append("<p class=\"empty\">No posts yet.</p>");
    } else {
        let mut rows = String::new();
        for i in 0..posts.len()
            invariant
                rows@ == post_rows_text(posts@.take(i as int)),
        {
            rows.append(post_row(&posts[i]).as_str());
            assert(posts@.take(i + 1).drop_last() =~= posts@.take(i as int));
        }
        assert(posts@.take(posts@.len() as int) =~= posts@);
        listing.append("<ol class=\"posts\">");
        listing.append(rows.as_str());
        listing.append("</ol>");
    }
    let mut content = String::new();
    content.append("<h1>");
    content.append(escape(shown.name.as_str()).as_str());
    content.append("</h1><p>");
    content.append(escape(shown.description.as_str()).as_str());
    content.append("</p><hr><h2>Posts</h2>");
    content.append(listing.as_str());
    page(shown.name.as_str(), content.as_str())
}

/// Who caused a proposal event: `system`, or `@` and the user's name with
/// the uid when it is known.
pub open spec fn actor_text(event: ProposalEvent) -> Seq<char> {
    match event.actor {
        None => "system"@,
        Some(actor) => match event.actor_uid {
            None => "@"@ + actor@,
            Some(uid) => "@"@ + actor@ + " (uid "@ + decimal(uid as nat) + ")"@,
        },
    }
}

/// The change of state of a proposal event, such as `draft → voting`.
pub open spec fn transition_text(event: ProposalEvent) -> Seq<char> {
    match event.from_state {
        None => event.to_state.label@,
        Some(from) => from.label@ + " \u{2192} "@ + event.to_state.label@,
    }
}

/// One event in a proposal's history.
pub open spec fn event_text(event: ProposalEvent) -> Seq<char> {
    let reason = match event.reason {
        Some(reason) => " \u{2014} "@ + escaped(reason@),
        None => Seq::empty(),
    };
    "<li>"@ + minute_text(event.created_at) + " \u{b7} "@ + escaped(transition_text(event)) + " \u{b7} "@
        + escaped(actor_text(event)) + reason + "</li>"@
}

/// The events of a proposal's history, in order.
pub open spec fn events_text(events: Seq<ProposalEvent>) -> Seq<char>
    decreases events.len(),
{
    if events.len() == 0 {
        Seq::empty()
    } else {
        events_text(events.drop_last()) + event_text(events.last())
    }
}

/// When voting on a proposal closes, or closed.
pub open spec fn timing_text(proposal: Proposal) -> Seq<char> {
    if proposal.state.voting {
        "Voting closes "@ + minute_text(proposal.closes_at) + "."@
    } else {
        match proposal.closed_at {
            Some(closed_at) => "Voting closed "@ + minute_text(closed_at) + "."@,
            None => Seq::empty(),
        }
    }
}

/// The section of a thread's page that shows its proposal.
pub open spec fn proposal_text(proposal: Proposal) -> Seq<char> {
    "<section class=\"proposal\"><hr><h2>Proposal: "@ + proposal.state.label@ + "</h2><p>"@
        + timing_text(proposal) + "</p><h3>History</h3><ol>"@ + events_text(proposal.events@)
        + "</ol></section>"@
}

fn actor(event: &ProposalEvent) -> (r: String)
    ensures
        r@ == actor_text(*event),
{
    let mut r = String::new();
    match &event.actor {
        None => {
            r.append("system");
        },
        Some(name) => {
            r.append("@");
            r.append(name.as_str());
            match event.actor_uid {
                None => {},
                Some(uid) => {
                    r.append(" (uid ");
                    push_decimal(&mut r, uid as u64);
                    r.append(")");
                },
            }
        },
    }
    r
}

fn transition(event: &ProposalEvent) -> (r: String)
    ensures
        r@ == transition_text(*event),
{
    let mut r = String::new();
    match &event.from_state {
        None => {},
        Some(from) => {
            r.append(from.label.as_str());
            r.append(" \u{2192} ");
        },
    }
    r.append(event.to_state.label.as_str());
    proof {
        if event.from_state is None {
            assert(r@ =~= transition_text(*event));
        }
    }
    r
}

fn event_item(event: &ProposalEvent) -> (r: String)
    ensures
        r@ == event_text(*event),
{
    let mut reason = String::new();
    match &event.reason {
        Some(text) => {
            reason.append(" \u{2014} ");
            reason.append(escape(text.as_str()).as_str());
        },
        None => {},
    }
    let mut r = String::new();
    r.append("<li>");
    r.append(event.created_at.minute().as_str());
    r.append(" \u{b7} ");
    r.append(escape(transition(event).as_str()).as_str());
    r.append(" \u{b7} ");
    r.append(escape(actor(event).as_str()).as_str());
    r.append(reason.as_str());
    r.append("</li>");
    r
}

/// The section of a thread's page that shows its proposal: its state, when
/// voting closes or closed, and its history.
pub fn render_proposal(proposal: &Proposal) -> (r: String)
    ensures
        r@ == proposal_text(*proposal),
{
    let mut timing = String::new();
    if proposal.state.voting {
        timing.append("Voting closes ");
        timing.append(proposal.closes_at.minute().as_str());
        timing.append(".");
    } else {
        match &proposal.closed_at {
            Some(closed_at) => {
                timing.append("Voting closed ");
                timing.append(closed_at.minute().as_str());
                timing.append(".");
            },
            None => {},
        }
    }
    let mut history = String::new();
    for i in 0..proposal.events.len()
        invariant
            history@ == events_text(proposal.events@.take(i as int)),
    {
        history.append(event_item(&proposal.events[i]).as_str());
        assert(proposal.events@.take(i + 1).drop_last() =~= proposal.events@.take(i as int));
    }
    assert(proposal.events@.take(proposal.events@.len() as int) =~= proposal.events@);
    let mut r = String::new();
    r.append("<section class=\"proposal\"><hr><h2>Proposal: ");
    r.append(proposal.state.label.as_str());
    r.append("</h2><p>");
    r.append(timing.as_str());
    r.append("</p><h3>History</h3><ol>");
    r.append(history.as_str());
    r.append("</ol></section>");
    r
}

/// The share of the votes, in whole percent rounded down, that an answer
/// received; a poll without votes counts as one vote.
pub open spec fn percent(votes: u32, total_votes: u32) -> nat {
    ((votes * 100) / (if total_votes == 0 {
        1
    } else {
        total_votes as int
    })) as nat
}

/// One answer of a poll with its votes and a meter of its share.
pub open spec fn poll_option_text(option: PollOption, total_votes: u32) -> Seq<char> {
    let share = decimal(percent(option.votes, total_votes));
    "<li>"@ + escaped(option.label@) + " \u{2014} "@ + decimal(option.votes as nat) + " vote(s), "@ + share
        + "%<br><div class=\"poll-meter\" role=\"img\" aria-label=\""@ + share
        + " percent\"><span style=\"width: "@ + share + "%\"></span></div></li>"@
}

/// The answers of a poll, in order.
pub open spec fn poll_options_text(options: Seq<PollOption>, total_votes: u32) -> Seq<char>
    decreases options.len(),
{
    if options.len() == 0 {
        Seq::empty()
    } else {
        poll_options_text(options.drop_last(), total_votes) + poll_option_text(options.last(), total_votes)
    }
}

/// The section of a thread's page that shows its poll; `voting` tells
/// whether the thread's proposal is open for votes.
pub open spec fn poll_text(poll: Poll, voting: bool) -> Seq<char> {
    "<section class=\"poll\"><hr><h2>Poll results</h2><ul>"@ + poll_options_text(poll.options@, poll.total_votes)
        + "</ul><p>"@ + decimal(poll.total_votes as nat) + " total vote(s). "@ + (if voting {
        "Log in over SSH and run bbs to vote."@
    } else {
        "Voting is closed."@
    }) + "</p></section>"@
}

/// One reply on a thread's page.
pub open spec fn reply_text(reply: Reply) -> Seq<char> {
    let id = signed_decimal(reply.id as int);
    "<article class=\"reply\" id=\"reply-"@ + id + "\"><p class=\"byline\"><a href=\"#reply-"@ + id
        + "\">#"@ + id + "</a> \u{b7} @"@ + escaped(reply.author@) + " \u{b7} "@ + minute_text(
        reply.updated_at,
    ) + "</p><pre>"@ + escaped(reply.body@) + "</pre></article>"@
}

/// The replies of a thread, in order.
pub open spec fn replies_text(replies: Seq<Reply>) -> Seq<char>
    decreases replies.len(),
{
    if replies.len() == 0 {
        Seq::empty()
    } else {
        replies_text(replies.drop_last()) + reply_text(replies.last())
    }
}

/// Whether a thread's proposal is open for votes.
pub open spec fn voting_open(post: Post) -> bool {
    match post.proposal {
        Some(proposal) => proposal.state.voting,
        None => false,
    }
}

/// The content of a thread's page.
pub open spec fn post_content_text(post: Post) -> Seq<char> {
    let locked = if post.locked {
        "<p class=\"locked\">[Locked]</p>"@
    } else {
        Seq::empty()
    };
    let proposal = match post.proposal {
        Some(proposal) => proposal_text(proposal),
        None => Seq::empty(),
    };
    let poll = match post.poll {
        Some(poll) => poll_text(poll, voting_open(post)),
        None => Seq::empty(),
    };
    let replies = if post.replies.len() == 0 {
        "<p>No replies yet.</p>"@
    } else {
        replies_text(post.replies@)
    };
    let reply_status = if post.locked {
        "Replies are closed."@
    } else {
        "Log in over SSH and run <code>bbs</code> to reply."@
    };
    "<h1>"@ + escaped(post.title@) + "</h1>"@ + locked + "<p class=\"byline\">Posted by @"@ + escaped(
        post.author@,
    ) + " in "@ + escaped(post.board.name@) + " on "@ + minute_text(post.updated_at) + " \u{b7} #"@
        + signed_decimal(post.id as int) + "</p><hr><pre>"@ + escaped(post.body@) + "</pre>"@ + proposal
        + poll + "<section class=\"replies\"><hr><h2>Replies</h2>"@ + replies + "<p>"@ + reply_status
        + "</p></section>"@
}

fn poll_option(option: &PollOption, total_votes: u32) -> (r: String)
    ensures
        r@ == poll_option_text(*option, total_votes),
{
    let divisor: u64 = if total_votes == 0 {
        1
    } else {
        total_votes as u64
    };
    let share: u64 = (option.votes as u64) * 100 / divisor;
    assert(share == percent(option.votes, total_votes));
    let mut r = String::new();
    r.append("<li>");
    r.append(escape(option.label.as_str()).as_str());
    r.append(" \u{2014} ");
    push_decimal(&mut r, option.votes as u64);
    r.append(" vote(s), ");
    push_decimal(&mut r, share);
    r.append("%<br><div class=\"poll-meter\" role=\"img\" aria-label=\"");
    push_decimal(&mut r, share);
    r.append(" percent\"><span style=\"width: ");
    push_decimal(&mut r, share);
    r.append("%\"></span></div></li>");
    r
}

fn poll_section(poll: &Poll, voting: bool) -> (r: String)
    ensures
        r@ == poll_text(*poll, voting),
{
    let mut options = String::new();
    for i in 0..poll.options.len()
        invariant
            options@ == poll_options_text(poll.options@.take(i as int), poll.total_votes),
    {
        options.append(poll_option(&poll.options[i], poll.total_votes).as_str());
        assert(poll.options@.take(i + 1).drop_last() =~= poll.options@.take(i as int));
    }
    assert(poll.options@.take(poll.options@.len() as int) =~= poll.options@);
    let mut r = String::new();
    r.append("<section class=\"poll\"><hr><h2>Poll results</h2><ul>");
    r.append(options.as_str());
    r.append("</ul><p>");
    push_decimal(&mut r, poll.total_votes as u64);
    r.append(" total vote(s). ");
    if voting {
        r.append("Log in over SSH and run bbs to vote.");
    } else {
        r.append("Voting is closed.");
    }
    r.append("</p></section>");
    r
}

fn reply_item(reply: &Reply) -> (r: String)
    ensures
        r@ == reply_text(*reply),
{
    let mut r = String::new();
    r.append("<article class=\"reply\" id=\"reply-");
    push_signed_decimal(&mut r, reply.id);
    r.append("\"><p class=\"byline\"><a href=\"#reply-");
    push_signed_decimal(&mut r, reply.id);
    r.append("\">#");
    push_signed_decimal(&mut r, reply.id);
    r.append("</a> \u{b7} @");
    r.append(escape(reply.author.as_str()).as_str());
    r.append(" \u{b7} ");
    r.append(reply.updated_at.minute().as_str());
    r.append("</p><pre>");
    r.append(escape(reply.body.as_str()).as_str());
    r.append("</pre></article>");
    r
}

/// A thread's page: the thread, its proposal and poll when it has them, and
/// its replies.
pub fn post(thread: &Post) -> (r: String)
    ensures
        r@ == bbs_page_text(thread.title@, post_content_text(*thread)),
{
    let mut locked = String::new();
    if thread.locked {
        locked.append("<p class=\"locked\">[Locked]</p>");
    }
    let mut proposal = String::new();
    let mut voting = false;
    match &thread.proposal {
        Some(p) => {
            proposal.append(render_proposal(p).as_str());
            voting = p.state.voting;
        },
        None => {},
    }
    let mut poll = String::new();
    match &thread.poll {
        Some(p) => {
            poll.append(poll_section(p, voting).as_str());
        },
        None => {},
    }
    let mut replies = String::new();
    if thread.replies.len() == 0 {
        replies.append("<p>No replies yet.</p>");
    } else {
        for i in 0..thread.replies.len()
            invariant
                replies@ == replies_text(thread.replies@.take(i as int)),
        {
            replies.append(reply_item(&thread.replies[i]).as_str());
            assert(thread.replies@.take(i + 1).drop_last() =~= thread.replies@.take(i as int));
        }
        assert(thread.replies@.take(thread.replies@.len() as int) =~= thread.replies@);
    }
    let mut content = String::new();
    content.append("<h1>");
    content.append(escape(thread.title.as_str()).as_str());
    content.append("</h1>");
    content.append(locked.as_str());
    content.append("<p class=\"byline\">Posted by @");
    content.append(escape(thread.author.as_str()).as_str());
    content.append(" in ");
    content.append(escape(thread.board.name.as_str()).as_str());
    content.append(" on ");
    content.append(thread.updated_at.minute().as_str());
    content.append(" \u{b7} #");
    push_signed_decimal(&mut content, thread.id);
    content.append("</p><hr><pre>");
    content.append(escape(thread.body.as_str()).as_str());
    content.append("</pre>");
    content.append(proposal.as_str());
    content.append(poll.as_str());
    content.append("<section class=\"replies\"><hr><h2>Replies</h2>");
    content.append(replies.as_str());
    content.append("<p>");
    if thread.locked {
        content.append("Replies are closed.");
    } else {
        content.append("Log in over SSH and run <code>bbs</code> to reply.");
    }
    content.append("</p></section>");
    page(thread.title.as_str(), content.as_str())
}

/// Boards are listed in the order given, each card written on its own.
pub proof fn law_board_cards_text_in_order(a: Seq<Board>, b: Seq<Board>, x: Board)
    ensures
        board_cards_text(a + b) == board_cards_text(a) + board_cards_text(b),
        board_cards_text(seq![x]) == board_card_text(x),
    decreases b.len(),
{
    assert(seq![x].drop_last() =~= Seq::<Board>::empty());
    assert(seq![x].last() == x);
    assert(board_cards_text(Seq::<Board>::empty()) =~= Seq::<char>::empty());
    assert(board_cards_text(seq![x]) =~= board_card_text(x));
    if b.len() == 0 {
        assert(a + b =~= a);
        assert(board_cards_text(a) + board_cards_text(b) =~= board_cards_text(a));
    } else {
        law_board_cards_text_in_order(a, b.drop_last(), x);
        assert((a + b).drop_last() =~= a + b.drop_last());
        assert((a + b).last() == b.last());
        assert(board_cards_text(a + b) =~= board_cards_text(a) + board_cards_text(b));
    }
}

/// Threads are listed in the order given, each row written on its own.
pub proof fn law_post_rows_text_in_order(a: Seq<PostSummary>, b: Seq<PostSummary>, x: PostSummary)
    ensures
        post_rows_text(a + b) == post_rows_text(a) + post_rows_text(b),
        post_rows_text(seq![x]) == post_row_text(x),
    decreases b.len(),
{
    assert(seq![x].drop_last() =~= Seq::<PostSummary>::empty());
    assert(seq![x].last() == x);
    assert(post_rows_text(Seq::<PostSummary>::empty()) =~= Seq::<char>::empty());
    assert(post_rows_text(seq![x]) =~= post_row_text(x));
    if b.len() == 0 {
        assert(a + b =~= a);
        assert(post_rows_text(a) + post_rows_text(b) =~= post_rows_text(a));
    } else {
        law_post_rows_text_in_order(a, b.drop_last(), x);
        assert((a + b).drop_last() =~= a + b.drop_last());
        assert((a + b).last() == b.last());
        assert(post_rows_text(a + b) =~= post_rows_text(a) + post_rows_text(b));
    }
}

/// A proposal's history lists its events in the order given, each written on its own.
pub proof fn law_events_text_in_order(a: Seq<ProposalEvent>, b: Seq<ProposalEvent>, x: ProposalEvent)
    ensures
        events_text(a + b) == events_text(a) + events_text(b),
        events_text(seq![x]) == event_text(x),
    decreases b.len(),
{
    assert(seq![x].drop_last() =~= Seq::<ProposalEvent>::empty());
    assert(seq![x].last() == x);
    assert(events_text(Seq::<ProposalEvent>::empty()) =~= Seq::<char>::empty());
    assert(events_text(seq![x]) =~= event_text(x));
    if b.len() == 0 {
        assert(a + b =~= a);
        assert(events_text(a) + events_text(b) =~= events_text(a));
    } else {
        law_events_text_in_order(a, b.drop_last(), x);
        assert((a + b).drop_last() =~= a + b.drop_last());
        assert((a + b).last() == b.last());
        assert(events_text(a + b) =~= events_text(a) + events_text(b));
    }
}

/// A thread's replies are shown in the order given, each article written on its own.
pub proof fn law_replies_text_in_order(a: Seq<Reply>, b: Seq<Reply>, x: Reply)
    ensures
        replies_text(a + b) == replies_text(a) + replies_text(b),
        replies_text(seq![x]) == reply_text(x),
    decreases b.len(),
{
    assert(seq![x].drop_last() =~= Seq::<Reply>::empty());
    assert(seq![x].last() == x);
    assert(replies_text(Seq::<Reply>::empty()) =~= Seq::<char>::empty());
    assert(replies_text(seq![x]) =~= reply_text(x));
    if b.len() == 0 {
        assert(a + b =~= a);
        assert(replies_text(a) + replies_text(b) =~= replies_text(a));
    } else {
        law_replies_text_in_order(a, b.drop_last(), x);
        assert((a + b).drop_last() =~= a + b.drop_last());
        assert((a + b).last() == b.last());
        assert(replies_text(a + b) =~= replies_text(a) + replies_text(b));
    }
}

/// A poll's answers are shown in the order given, each written on its own.
pub proof fn law_poll_options_text_in_order(a: Seq<PollOption>, b: Seq<PollOption>, x: PollOption, total: u32)
    ensures
        poll_options_text(a + b, total) == poll_options_text(a, total) + poll_options_text(b, total),
        poll_options_text(seq![x], total) == poll_option_text(x, total),
    decreases b.len(),
{
    assert(seq![x].drop_last() =~= Seq::<PollOption>::empty());
    assert(seq![x].last() == x);
    assert(poll_options_text(Seq::<PollOption>::empty(), total) =~= Seq::<char>::empty());
    assert(poll_options_text(seq![x], total) =~= poll_option_text(x, total));
    if b.len() == 0 {
        assert(a + b =~= a);
        assert(poll_options_text(a, total) + poll_options_text(b, total) =~= poll_options_text(a, total));
    } else {
        law_poll_options_text_in_order(a, b.drop_last(), x, total);
        assert((a + b).drop_last() =~= a + b.drop_last());
        assert((a + b).last() == b.last());
        assert(poll_options_text(a + b, total) =~= poll_options_text(a, total) + poll_options_text(b, total));
    }
}

/// A thread's row ends with its reply count: "1 reply" for exactly one
/// reply, "N replies" for any other number.
pub proof fn law_post_row_reply_count(post: PostSummary)
    ensures
        post.reply_count == 1 ==> has_suffix(post_row_text(post), " 1 reply</span></li>"@),
        post.reply_count != 1 ==> has_suffix(
            post_row_text(post),
            " "@ + decimal(post.reply_count as nat) + " replies</span></li>"@,
        ),
        has_prefix(
            post_row_text(post),
            "<li><a href=\"/bbs/posts/"@ + signed_decimal(post.id as int) + "\">"@ + escaped(post.title@),
        ),
{
    reveal_strlit(" \u{b7} ");
    reveal_strlit(" repl");
    reveal_strlit("y");
    reveal_strlit("ies");
    reveal_strlit("</span></li>");
    reveal_strlit(" 1 reply</span></li>");
    reveal_strlit(" replies</span></li>");
    reveal_strlit(" ");
    let s = post_row_text(post);
    let n = decimal(post.reply_count as nat);
    if post.reply_count == 1 {
        assert(n =~= seq!['1']);
        let t = " 1 reply</span></li>"@;
        assert(s.subrange(s.len() - t.len(), s.len() as int) =~= t);
    } else {
        let t = " "@ + n + " replies</span></li>"@;
        assert(s.subrange(s.len() - t.len(), s.len() as int) =~= t);
    }
    let t0 = "<li><a href=\"/bbs/posts/"@ + signed_decimal(post.id as int) + "\">"@ + escaped(post.title@);
    assert(s.subrange(0, t0.len() as int) =~= t0);
}

/// When voting on a proposal closes or closed: while it is open, when it
/// closes; once it is not open, when it closed if that was recorded, and
/// nothing otherwise.
pub proof fn law_proposal_timing(proposal: Proposal)
    ensures
        proposal.state.voting ==> timing_text(proposal) == "Voting closes "@ + minute_text(
            proposal.closes_at,
        ) + "."@,
        !proposal.state.voting && proposal.closed_at is None ==> timing_text(proposal)
            == Seq::<char>::empty(),
        !proposal.state.voting && proposal.closed_at is Some ==> timing_text(proposal)
            == "Voting closed "@ + minute_text(proposal.closed_at->0) + "."@,
        has_infix(
            proposal_text(proposal),
            "<h2>Proposal: "@ + proposal.state.label@ + "</h2><p>"@ + timing_text(proposal) + "</p>"@,
        ),
        has_suffix(proposal_text(proposal), "<ol>"@ + events_text(proposal.events@) + "</ol></section>"@),
{
    reveal_strlit("<section class=\"proposal\"><hr><h2>Proposal: ");
    reveal_strlit("<h2>Proposal: ");
    reveal_strlit("</p><h3>History</h3><ol>");
    reveal_strlit("</p>");
    reveal_strlit("<ol>");
    let s = proposal_text(proposal);
    let t = "<h2>Proposal: "@ + proposal.state.label@ + "</h2><p>"@ + timing_text(proposal) + "</p>"@;
    let i: int = 30;
    assert(s.subrange(i, i + t.len() as int) =~= t);
    let u = "<ol>"@ + events_text(proposal.events@) + "</ol></section>"@;
    assert(s.subrange(s.len() - u.len(), s.len() as int) =~= u);
}

/// A reply's article is anchored at `reply-` and its id, names its author
/// and the time it was last edited, and shows its body, all escaped.
pub proof fn law_reply_article(reply: Reply)
    ensures
        has_prefix(
            reply_text(reply),
            "<article class=\"reply\" id=\"reply-"@ + signed_decimal(reply.id as int) + "\">"@,
        ),
        has_infix(
            reply_text(reply),
            " @"@ + escaped(reply.author@) + " \u{b7} "@ + minute_text(reply.updated_at) + "</p>"@,
        ),
        has_suffix(reply_text(reply), "<pre>"@ + escaped(reply.body@) + "</pre></article>"@),
{
    reveal_strlit("<article class=\"reply\" id=\"reply-");
    reveal_strlit("\"><p class=\"byline\"><a href=\"#reply-");
    reveal_strlit("\">");
    reveal_strlit("</a> \u{b7} @");
    reveal_strlit(" @");
    reveal_strlit("</p><pre>");
    reveal_strlit("</p>");
    reveal_strlit("<pre>");
    let s = reply_text(reply);
    let id = signed_decimal(reply.id as int);
    let t0 = "<article class=\"reply\" id=\"reply-"@ + id + "\">"@;
    assert(s.subrange(0, t0.len() as int) =~= t0);
    let p1 = "<article class=\"reply\" id=\"reply-"@ + id + "\"><p class=\"byline\"><a href=\"#reply-"@ + id
        + "\">#"@ + id;
    let t1 = " @"@ + escaped(reply.author@) + " \u{b7} "@ + minute_text(reply.updated_at) + "</p>"@;
    let i1: int = p1.len() + 6int;
    assert(s.subrange(i1, i1 + t1.len() as int) =~= t1);
    let t2 = "<pre>"@ + escaped(reply.body@) + "</pre></article>"@;
    assert(s.subrange(s.len() - t2.len(), s.len() as int) =~= t2);
}

#[verifier::rlimit(60)]
/// A thread's page ends with its replies section: the reply articles in
/// order (or a note that there are none), then whether replies are open.
pub proof fn law_post_replies_section(post: Post)
    ensures
        has_suffix(
            post_content_text(post),
            "<h2>Replies</h2>"@ + (if post.replies@.len() == 0 {
                "<p>No replies yet.</p>"@
            } else {
                replies_text(post.replies@)
            }) + "<p>"@ + (if post.locked {
                "Replies are closed."@
            } else {
                "Log in over SSH and run <code>bbs</code> to reply."@
            }) + "</p></section>"@,
        ),
        has_prefix(post_content_text(post), "<h1>"@ + escaped(post.title@) + "</h1>"@),
        has_infix(
            post_content_text(post),
            "Posted by @"@ + escaped(post.author@) + " in "@ + escaped(post.board.name@) + " on "@
                + minute_text(post.updated_at) + " \u{b7} #"@ + signed_decimal(post.id as int) + "</p>"@,
        ),
{
    reveal_strlit("<section class=\"replies\"><hr><h2>Replies</h2>");
    reveal_strlit("<h2>Replies</h2>");
    reveal_strlit("<p class=\"byline\">Posted by @");
    reveal_strlit("Posted by @");
    reveal_strlit("</p><hr><pre>");
    reveal_strlit("</p>");
    let s = post_content_text(post);
    let replies = if post.replies@.len() == 0 {
        "<p>No replies yet.</p>"@
    } else {
        replies_text(post.replies@)
    };
    let status = if post.locked {
        "Replies are closed."@
    } else {
        "Log in over SSH and run <code>bbs</code> to reply."@
    };
    assert(post.replies.len() == post.replies@.len());
    let t = "<h2>Replies</h2>"@ + replies + "<p>"@ + status + "</p></section>"@;
    assert(s.subrange(s.len() - t.len(), s.len() as int) =~= t);
    let t0 = "<h1>"@ + escaped(post.title@) + "</h1>"@;
    assert(s.subrange(0, t0.len() as int) =~= t0);
    let locked = if post.locked {
        "<p class=\"locked\">[Locked]</p>"@
    } else {
        Seq::empty()
    };
    let p1 = "<h1>"@ + escaped(post.title@) + "</h1>"@ + locked;
    let t1 = "Posted by @"@ + escaped(post.author@) + " in "@ + escaped(post.board.name@) + " on "@
        + minute_text(post.updated_at) + " \u{b7} #"@ + signed_decimal(post.id as int) + "</p>"@;
    let i1: int = p1.len() + 18int;
    assert(s.subrange(i1, i1 + t1.len() as int) =~= t1);
}

/// An answer's share is its votes as a whole percentage of the total,
/// rounded down (a poll without votes counts as one vote), and no answer
/// has more than its share of the total.
pub proof fn law_poll_percent(votes: u32, total_votes: u32)
    ensures
        ({
            let d: int = if total_votes == 0 {
                1
            } else {
                total_votes as int
            };
            &&& percent(votes, total_votes) * d <= votes * 100
            &&& votes * 100 < (percent(votes, total_votes) + 1) * d
            &&& votes <= total_votes ==> percent(votes, total_votes) <= 100
        }),
{
    let d: int = if total_votes == 0 {
        1
    } else {
        total_votes as int
    };
    let n: int = votes * 100;
    vstd::arithmetic::div_mod::lemma_fundamental_div_mod(n, d);
    vstd::arithmetic::div_mod::lemma_mod_pos_bound(n, d);
    let q = n / d;
    let r = n % d;
    assert(q * d <= n && n < (q + 1) * d) by (nonlinear_arith)
        requires
            n == d * q + r,
            0 <= r < d,
    ;
    assert(q >= 0) by (nonlinear_arith)
        requires
            n >= 0,
            d > 0,
            n < (q + 1) * d,
    ;
    assert(percent(votes, total_votes) == q);
    if votes <= total_votes {
        assert(n <= 100 * d);
        assert(q <= 100) by (nonlinear_arith)
            requires
                q * d <= n,
                n <= 100 * d,
                d > 0,
        ;
    }
}

/// A board's card links to the board by its escaped slug, shows its
/// escaped name in brackets and its escaped description, and ends by
/// naming the group that may start threads when there is one.
pub proof fn law_board_card(board: Board)
    ensures
        has_prefix(
            board_card_text(board),
            "<li><a href=\"/bbs/boards/"@ + escaped(board.slug@) + "\">["@ + escaped(board.name@)
                + "]</a> \u{2014} "@ + escaped(board.description@),
        ),
        board.write_group is None ==> has_suffix(
            board_card_text(board),
            escaped(board.description@) + "</li>"@,
        ),
        board.write_group is Some ==> has_suffix(
            board_card_text(board),
            " <small>(starting threads requires the "@ + escaped(board.write_group->0@)
                + " group)</small></li>"@,
        ),
{
    reveal_strlit(" group)</small>");
    reveal_strlit("</li>");
    reveal_strlit(" group)</small></li>");
    let s = board_card_text(board);
    let head = "<li><a href=\"/bbs/boards/"@ + escaped(board.slug@) + "\">["@ + escaped(board.name@)
        + "]</a> \u{2014} "@ + escaped(board.description@);
    let restriction = match board.write_group {
        Some(group) => " <small>(starting threads requires the "@ + escaped(group@) + " group)</small>"@,
        None => Seq::empty(),
    };
    assert(s =~= head + restriction + "</li>"@);
    assert(s.subrange(0, head.len() as int) =~= head);
    if board.write_group is None {
        let t = escaped(board.description@) + "</li>"@;
        assert(s.subrange(s.len() - t.len(), s.len() as int) =~= t);
    } else {
        let t = " <small>(starting threads requires the "@ + escaped(board.write_group->0@)
            + " group)</small></li>"@;
        assert(s.subrange(s.len() - t.len(), s.len() as int) =~= t);
    }
}

#[verifier::rlimit(100)]
/// A thread's row shows the escaped title, a mark for a poll, the
/// proposal's state in brackets, a lock mark, then the escaped author, the
/// date of the last update and the thread's number.
pub proof fn law_post_row_marks(post: PostSummary)
    ensures
        has_infix(
            post_row_text(post),
            escaped(post.title@) + (if post.is_poll {
                " \u{25c9}"@
            } else {
                Seq::empty()
            }) + "</a>"@ + (match post.proposal_state {
                Some(state) => " ["@ + state.label@ + "]"@,
                None => Seq::empty(),
            }) + (if post.locked {
                " [locked]"@
            } else {
                Seq::empty()
            }) + " \u{2014} <span>@"@ + escaped(post.author@) + ", "@ + day_text(post.updated_at)
                + ", #"@ + signed_decimal(post.id as int) + " \u{b7} "@,
        ),
{
    let s = post_row_text(post);
    let p = "<li><a href=\"/bbs/posts/"@ + signed_decimal(post.id as int) + "\">"@;
    let t = escaped(post.title@) + (if post.is_poll {
        " \u{25c9}"@
    } else {
        Seq::empty()
    }) + "</a>"@ + (match post.proposal_state {
        Some(state) => " ["@ + state.label@ + "]"@,
        None => Seq::empty(),
    }) + (if post.locked {
        " [locked]"@
    } else {
        Seq::empty()
    }) + " \u{2014} <span>@"@ + escaped(post.author@) + ", "@ + day_text(post.updated_at) + ", #"@
        + signed_decimal(post.id as int) + " \u{b7} "@;
    let q = decimal(post.reply_count as nat) + " repl"@ + (if post.reply_count == 1 {
        "y"@
    } else {
        "ies"@
    }) + "</span></li>"@;
    assert(s =~= p + t + q);
    lemma_infix(p, t, q);
}

/// A poll answer shows its escaped label, its votes and its share, and
/// gives the share to the meter's label and width.
pub proof fn law_poll_option(option: PollOption, total_votes: u32)
    ensures
        has_prefix(
            poll_option_text(option, total_votes),
            "<li>"@ + escaped(option.label@) + " \u{2014} "@ + decimal(option.votes as nat) + " vote(s), "@
                + decimal(percent(option.votes, total_votes)) + "%<br>"@,
        ),
        has_infix(
            poll_option_text(option, total_votes),
            "aria-label=\""@ + decimal(percent(option.votes, total_votes)) + " percent\">"@,
        ),
        has_suffix(
            poll_option_text(option, total_votes),
            "<span style=\"width: "@ + decimal(percent(option.votes, total_votes))
                + "%\"></span></div></li>"@,
        ),
{
    reveal_strlit("%<br><div class=\"poll-meter\" role=\"img\" aria-label=\"");
    reveal_strlit("%<br>");
    reveal_strlit("aria-label=\"");
    reveal_strlit(" percent\"><span style=\"width: ");
    reveal_strlit(" percent\">");
    reveal_strlit("<span style=\"width: ");
    let s = poll_option_text(option, total_votes);
    let share = decimal(percent(option.votes, total_votes));
    let t0 = "<li>"@ + escaped(option.label@) + " \u{2014} "@ + decimal(option.votes as nat) + " vote(s), "@
        + share + "%<br>"@;
    assert(s.subrange(0, t0.len() as int) =~= t0);
    let p1 = "<li>"@ + escaped(option.label@) + " \u{2014} "@ + decimal(option.votes as nat) + " vote(s), "@
        + share;
    let t1 = "aria-label=\""@ + share + " percent\">"@;
    let i1: int = p1.len() + 40int;
    assert(s.subrange(i1, i1 + t1.len() as int) =~= t1);
    let t2 = "<span style=\"width: "@ + share + "%\"></span></div></li>"@;
    assert(s.subrange(s.len() - t2.len(), s.len() as int) =~= t2);
}

/// A poll section lists the answers in order, then the total and whether
/// voting is open.
pub proof fn law_poll_section(poll: Poll, voting: bool)
    ensures
        has_prefix(
            poll_text(poll, voting),
            "<section class=\"poll\"><hr><h2>Poll results</h2><ul>"@ + poll_options_text(
                poll.options@,
                poll.total_votes,
            ) + "</ul>"@,
        ),
        has_suffix(
            poll_text(poll, voting),
            "<p>"@ + decimal(poll.total_votes as nat) + " total vote(s). "@ + (if voting {
                "Log in over SSH and run bbs to vote."@
            } else {
                "Voting is closed."@
            }) + "</p></section>"@,
        ),
{
    reveal_strlit("</ul><p>");
    reveal_strlit("</ul>");
    reveal_strlit("<p>");
    let s = poll_text(poll, voting);
    let opts = poll_options_text(poll.options@, poll.total_votes);
    let t0 = "<section class=\"poll\"><hr><h2>Poll results</h2><ul>"@ + opts + "</ul>"@;
    assert(s.subrange(0, t0.len() as int) =~= t0);
    let t1 = "<p>"@ + decimal(poll.total_votes as nat) + " total vote(s). "@ + (if voting {
        "Log in over SSH and run bbs to vote."@
    } else {
        "Voting is closed."@
    }) + "</p></section>"@;
    assert(s.subrange(s.len() - t1.len(), s.len() as int) =~= t1);
}

/// A history event names when it happened, the change of state (`from →
/// to`, or the new state alone), who caused it (`system`, `@name`, or
/// `@name (uid N)`) and, after a dash, the escaped reason when there is one.
pub proof fn law_proposal_event(event: ProposalEvent)
    ensures
        event.actor is None ==> actor_text(event) == "system"@,
        event.actor is Some && event.actor_uid is None ==> actor_text(event) == "@"@ + event.actor->0@,
        event.actor is Some && event.actor_uid is Some ==> actor_text(event) == "@"@ + event.actor->0@
            + " (uid "@ + decimal(event.actor_uid->0 as nat) + ")"@,
        event.from_state is None ==> transition_text(event) == event.to_state.label@,
        event.from_state is Some ==> transition_text(event) == event.from_state->0.label@ + " \u{2192} "@
            + event.to_state.label@,
        has_prefix(
            event_text(event),
            "<li>"@ + minute_text(event.created_at) + " \u{b7} "@ + escaped(transition_text(event))
                + " \u{b7} "@ + escaped(actor_text(event)),
        ),
        event.reason is None ==> has_suffix(event_text(event), escaped(actor_text(event)) + "</li>"@),
        event.reason is Some ==> has_suffix(
            event_text(event),
            " \u{2014} "@ + escaped(event.reason->0@) + "</li>"@,
        ),
{
    let s = event_text(event);
    let head = "<li>"@ + minute_text(event.created_at) + " \u{b7} "@ + escaped(transition_text(event))
        + " \u{b7} "@ + escaped(actor_text(event));
    let reason = match event.reason {
        Some(reason) => " \u{2014} "@ + escaped(reason@),
        None => Seq::empty(),
    };
    assert(s =~= head + reason + "</li>"@);
    lemma_prefix(head, reason + "</li>"@);
    assert(head + (reason + "</li>"@) =~= s);
    if event.reason is None {
        let p = "<li>"@ + minute_text(event.created_at) + " \u{b7} "@ + escaped(transition_text(event))
            + " \u{b7} "@;
        lemma_suffix(p, escaped(actor_text(event)) + "</li>"@);
        assert(p + (escaped(actor_text(event)) + "</li>"@) =~= s);
    } else {
        lemma_suffix(head, reason + "</li>"@);
        assert(head + (reason + "</li>"@) =~= s);
    }
}

/// A board's page names and describes the board, then lists its threads
/// in order, or says that there are none.
pub proof fn law_board_content(board: Board, posts: Seq<PostSummary>)
    ensures
        has_prefix(
            board_content_text(board, posts),
            "<h1>"@ + escaped(board.name@) + "</h1><p>"@ + escaped(board.description@) + "</p>"@,
        ),
        posts.len() == 0 ==> has_suffix(
            board_content_text(board, posts),
            "<p class=\"empty\">No posts yet.</p>"@,
        ),
        posts.len() > 0 ==> has_suffix(
            board_content_text(board, posts),
            "<ol class=\"posts\">"@ + post_rows_text(posts) + "</ol>"@,
        ),
{
    reveal_strlit("</p><hr><h2>Posts</h2>");
    reveal_strlit("</p>");
    let s = board_content_text(board, posts);
    let t0 = "<h1>"@ + escaped(board.name@) + "</h1><p>"@ + escaped(board.description@) + "</p>"@;
    assert(s.subrange(0, t0.len() as int) =~= t0);
    let listing = if posts.len() == 0 {
        "<p class=\"empty\">No posts yet.</p>"@
    } else {
        "<ol class=\"posts\">"@ + post_rows_text(posts) + "</ol>"@
    };
    assert(s.subrange(s.len() - listing.len(), s.len() as int) =~= listing);
}

/// The list of boards shows each board's card in order inside the boards
/// list.
pub proof fn law_index_content(boards: Seq<Board>)
    ensures
        has_suffix(index_content_text(boards), "<ul class=\"boards\">"@ + board_cards_text(boards) + "</ul>"@),
{
    reveal_strlit("<h1>Bulletin Board System</h1><p>Browse posts here, or log in over SSH and run <code>bbs</code> to post, reply, and vote.</p><hr><h2>Boards</h2><ul class=\"boards\">");
    reveal_strlit("<ul class=\"boards\">");
    let s = index_content_text(boards);
    let t = "<ul class=\"boards\">"@ + board_cards_text(boards) + "</ul>"@;
    assert(s.subrange(s.len() - t.len(), s.len() as int) =~= t);
}

#[verifier::rlimit(100)]
/// A thread's page starts with its escaped title and the lock mark when it
/// is locked, and shows its escaped body followed by its proposal and its
/// poll (whose voting note follows the proposal's state) before the
/// replies.
pub proof fn law_post_sections(post: Post)
    ensures
        post.locked ==> has_prefix(
            post_content_text(post),
            "<h1>"@ + escaped(post.title@) + "</h1><p class=\"locked\">[Locked]</p>"@,
        ),
        !post.locked ==> has_prefix(
            post_content_text(post),
            "<h1>"@ + escaped(post.title@) + "</h1><p class=\"byline\">"@,
        ),
        has_infix(
            post_content_text(post),
            "<pre>"@ + escaped(post.body@) + "</pre>"@ + (match post.proposal {
                Some(proposal) => proposal_text(proposal),
                None => Seq::empty(),
            }) + (match post.poll {
                Some(poll) => poll_text(
                    poll,
                    match post.proposal {
                        Some(proposal) => proposal.state.voting,
                        None => false,
                    },
                ),
                None => Seq::empty(),
            }) + "<section class=\"replies\">"@,
        ),
{
    reveal_strlit("</h1>");
    reveal_strlit("<p class=\"locked\">[Locked]</p>");
    reveal_strlit("</h1><p class=\"locked\">[Locked]</p>");
    reveal_strlit("<p class=\"byline\">Posted by @");
    reveal_strlit("</h1><p class=\"byline\">");
    reveal_strlit("</p><hr><pre>");
    reveal_strlit("<pre>");
    reveal_strlit("</pre>");
    reveal_strlit("<section class=\"replies\"><hr><h2>Replies</h2>");
    reveal_strlit("<section class=\"replies\">");
    let s = post_content_text(post);
    if post.locked {
        let t = "<h1>"@ + escaped(post.title@) + "</h1><p class=\"locked\">[Locked]</p>"@;
        assert(s.subrange(0, t.len() as int) =~= t);
    } else {
        let t = "<h1>"@ + escaped(post.title@) + "</h1><p class=\"byline\">"@;
        assert(s.subrange(0, t.len() as int) =~= t);
    }
    let locked = if post.locked {
        "<p class=\"locked\">[Locked]</p>"@
    } else {
        Seq::empty()
    };
    let proposal = match post.proposal {
        Some(proposal) => proposal_text(proposal),
        None => Seq::empty(),
    };
    let poll = match post.poll {
        Some(poll) => poll_text(
            poll,
            match post.proposal {
                Some(proposal) => proposal.state.voting,
                None => false,
            },
        ),
        None => Seq::empty(),
    };
    let p = "<h1>"@ + escaped(post.title@) + "</h1>"@ + locked + "<p class=\"byline\">Posted by @"@ + escaped(
        post.author@,
    ) + " in "@ + escaped(post.board.name@) + " on "@ + minute_text(post.updated_at) + " \u{b7} #"@
        + signed_decimal(post.id as int);
    let t = "<pre>"@ + escaped(post.body@) + "</pre>"@ + proposal + poll + "<section class=\"replies\">"@;
    let i: int = p.len() + 8int;
    assert(s.subrange(i, i + t.len() as int) =~= t);
}

/// A BBS page is the BBS template with every `{{TITLE}}` replaced by the
/// escaped title, then every `{{CONTENT}}` by the content.
pub proof fn law_bbs_page(title: Seq<char>, content: Seq<char>)
    ensures
        bbs_page_text(title, content) == crate::text::replaced(
            crate::text::replaced(BBS_PAGE@, "{{TITLE}}"@, escaped(title)),
            "{{CONTENT}}"@,
            content,
        ),
{
}

} // verus!
