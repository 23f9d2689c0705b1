//! The answers of the BBS routes, decided from how the work handed to the
//! BBS ended.
use vstd::prelude::*;
use crate::feed::Format;
use crate::protocol::Board;
use crate::response::{
    BAD_GATEWAY, INTERNAL_SERVER_ERROR, NOT_FOUND, OK, Outcome, Response, SERVICE_UNAVAILABLE,
};
use crate::text::same_text;
use crate::view::{bbs_page_text, page};

verus! {

broadcast use vstd::string::group_string_axioms;

/// The position of the first board whose slug is `slug`, if any.
pub fn find_board(boards: &[Board], slug: &str) -> (r: Option<usize>)
    ensures
        match r {
            Some(i) => i < boards@.len() && boards@[i as int].slug@ == slug@ && forall|j: int|
                0 <= j < i ==> #[trigger] boards@[j].slug@ != slug@,
            None => forall|j: int| 0 <= j < boards@.len() ==> #[trigger] boards@[j].slug@ != slug@,
        },
{
    for i in 0..boards.len()
        invariant
            forall|j: int| 0 <= j < i ==> #[trigger] boards@[j].slug@ != slug@,
    {
        if same_text(boards[i].slug.as_str(), slug) {
            return Some(i);
        }
    }
    None
}

/// The answer to a health check, given how listing the boards ended.
pub fn health(outcome: Outcome<()>) -> (r: Response)
    ensures
        match outcome {
            Outcome::Done(_) => r matches Response::Plain { status, body } && status == OK && body@
                == "ok\n"@,
            Outcome::Failed => r matches Response::Plain { status, body } && status
                == SERVICE_UNAVAILABLE && body@ == "unavailable\n"@,
            Outcome::Crashed => r matches Response::Plain { status, body } && status
                == INTERNAL_SERVER_ERROR && body@ == "unavailable\n"@,
        },
{
    match outcome {
        Outcome::Done(_) => Response::Plain { status: OK, body: String::from_str("ok\n") },
        Outcome::Failed => Response::Plain {
            status: SERVICE_UNAVAILABLE,
            body: String::from_str("unavailable\n"),
        },
        Outcome::Crashed => Response::Plain {
            status: INTERNAL_SERVER_ERROR,
            body: String::from_str("unavailable\n"),
        },
    }
}

/// The answer to a page request: the page, a not-found page when there is
/// nothing to show, or an unavailable page when the BBS or the task failed.
pub fn render(outcome: Outcome<Option<String>>) -> (r: Response)
    ensures
        match outcome {
            Outcome::Done(Some(body)) => r == Response::Html { status: OK, body },
            Outcome::Done(None) => r matches Response::Html { status, body } && status == NOT_FOUND
                && body@ == bbs_page_text("Not found"@, "<h1>Not found</h1>"@),
            Outcome::Failed => r matches Response::Html { status, body } && status == BAD_GATEWAY
                && body@ == bbs_page_text(
                "BBS unavailable"@,
                "<h1>BBS unavailable</h1><p>Try again later.</p>"@,
            ),
            Outcome::Crashed => r matches Response::Html { status, body } && status
                == INTERNAL_SERVER_ERROR && body@ == bbs_page_text(
                "BBS unavailable"@,
                "<h1>BBS unavailable</h1><p>Try again later.</p>"@,
            ),
        },
{
    match outcome {
        Outcome::Done(Some(body)) => Response::Html { status: OK, body },
        Outcome::Done(None) => Response::Html {
            status: NOT_FOUND,
            body: page("Not found", "<h1>Not found</h1>"),
        },
        Outcome::Failed => Response::Html {
            status: BAD_GATEWAY,
            body: page("BBS unavailable", "<h1>BBS unavailable</h1><p>Try again later.</p>"),
        },
        Outcome::Crashed => Response::Html {
            status: INTERNAL_SERVER_ERROR,
            body: page("BBS unavailable", "<h1>BBS unavailable</h1><p>Try again later.</p>"),
        },
    }
}

/// The answer to a feed request: the feed, or plain text saying that the
/// board was not found or that the BBS is unavailable.
pub fn render_feed(format: Format, outcome: Outcome<Option<String>>) -> (r: Response)
    ensures
        match outcome {
            Outcome::Done(Some(body)) => r == Response::Feed { format, body },
            Outcome::Done(None) => r matches Response::Plain { status, body } && status == NOT_FOUND
                && body@ == "not found\n"@,
            Outcome::Failed => r matches Response::Plain { status, body } && status == BAD_GATEWAY
                && body@ == "BBS unavailable\n"@,
            Outcome::Crashed => r matches Response::Plain { status, body } && status
                == INTERNAL_SERVER_ERROR && body@ == "BBS unavailable\n"@,
        },
{
    match outcome {
        Outcome::Done(Some(body)) => Response::Feed { format, body },
        Outcome::Done(None) => Response::Plain {
            status: NOT_FOUND,
            body: String::from_str("not found\n"),
        },
        Outcome::Failed => Response::Plain {
            status: BAD_GATEWAY,
            body: String::from_str("BBS unavailable\n"),
        },
        Outcome::Crashed => Response::Plain {
            status: INTERNAL_SERVER_ERROR,
            body: String::from_str("BBS unavailable\n"),
        },
    }
}

} // verus!
