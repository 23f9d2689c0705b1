//! The pinky pages: look up a Unix user and show what `pinky -lb` says of them.
use vstd::prelude::*;
use crate::response::{BAD_GATEWAY, NOT_FOUND, OK, PERMANENT_REDIRECT, Response, SEE_OTHER};
use crate::templates::NOW_PAGE;
use crate::web::{escape, escaped, is_valid_username, page_text, valid_username};
use vstd::string::StringSliceAdditionalSpecFns;

verus! {

broadcast use vstd::string::group_string_axioms;

/// The most bytes of pinky's output that a page shows.
pub const MAX_OUTPUT: usize = 64 * 1024;

/// The text that `String::from_utf8_lossy` makes of the bytes.
pub uninterp spec fn utf8_lossy_text(bytes: Seq<u8>) -> Seq<char>;

/// Calls `String::from_utf8_lossy`. The contract claims that the text is a
/// function of the bytes and, as the standard library documents, that valid
/// UTF-8 is decoded unchanged; how invalid sequences are replaced is left
/// unsaid.
#[verifier::external_body]
fn utf8_lossy(bytes: &[u8]) -> (r: String)
    ensures
        r@ == utf8_lossy_text(bytes@),
        vstd::utf8::valid_utf8(bytes@) ==> r@ == vstd::utf8::decode_utf8(bytes@),
{
    String::from_utf8_lossy(bytes).into_owned()
}

/// A pinky page with the given title and content.
pub open spec fn now_page_text(title: Seq<char>, content: Seq<char>) -> Seq<char> {
    page_text(NOW_PAGE@, title, content)
}

/// Fills the pinky template with a title, which is escaped, and content.
pub fn page(title: &str, content: &str) -> (r: String)
    ensures
        r@ == now_page_text(title@, content@),
{
    crate::web::page(NOW_PAGE, title, content)
}

/// The content of the lookup form.
pub open spec fn index_content_text() -> Seq<char> {
    "<h1>Pinky</h1><p>Look up a salyut.one Unix user.</p><hr><form action=\"/now\" method=\"get\"><label for=\"username\">~</label><input id=\"username\" name=\"username\" autocomplete=\"username\" pattern=\"[a-z_][a-z0-9_-]{0,31}\" required><button type=\"submit\">[Look Up]</button></form>"@
}

/// The answer to the lookup form: a redirect to the user's page when a
/// valid username was given, the form otherwise.
pub fn index(username: Option<&str>) -> (r: Response)
    ensures
        match username {
            Some(name) if is_valid_username(name.spec_bytes()) => r matches Response::Redirect {
                status,
                location,
            } && status == SEE_OTHER && location@ == "/now/~"@ + name@,
            _ => r matches Response::Html { status, body } && status == OK && body@ == now_page_text(
                "Pinky"@,
                index_content_text(),
            ),
        },
{
    match username {
        Some(name) => {
            if valid_username(name) {
                let mut location = String::new();
                location.append("/now/~");
                location.append(name);
                return Response::Redirect { status: SEE_OTHER, location };
            }
        },
        None => {},
    }
    let body = page(
        "Pinky",
        "<h1>Pinky</h1><p>Look up a salyut.one Unix user.</p><hr><form action=\"/now\" method=\"get\"><label for=\"username\">~</label><input id=\"username\" name=\"username\" autocomplete=\"username\" pattern=\"[a-z_][a-z0-9_-]{0,31}\" required><button type=\"submit\">[Look Up]</button></form>",
    );
    Response::Html { status: OK, body }
}

/// The answer to a user's page asked for with a trailing slash: a
/// permanent redirect to the page without it.
pub fn redirect_without_slash(username: &str) -> (r: Response)
    ensures
        r matches Response::Redirect { status, location } && status == PERMANENT_REDIRECT
            && location@ == "/now/~"@ + username@,
{
    let mut location = String::new();
    location.append("/now/~");
    location.append(username);
    Response::Redirect { status: PERMANENT_REDIRECT, location }
}

/// The answer for a user who is not valid or does not exist.
pub fn not_found() -> (r: Response)
    ensures
        r matches Response::Html { status, body } && status == NOT_FOUND && body@ == now_page_text(
            "User not found"@,
            "<h1>User not found</h1>"@,
        ),
{
    Response::Html { status: NOT_FOUND, body: page("User not found", "<h1>User not found</h1>") }
}

/// The answer when pinky could not be run, failed or took too long.
pub fn unavailable() -> (r: Response)
    ensures
        r matches Response::Html { status, body } && status == BAD_GATEWAY && body@ == now_page_text(
            "Pinky unavailable"@,
            "<h1>Pinky unavailable</h1><p>Try again later.</p>"@,
        ),
{
    Response::Html {
        status: BAD_GATEWAY,
        body: page("Pinky unavailable", "<h1>Pinky unavailable</h1><p>Try again later.</p>"),
    }
}

/// The bytes of pinky's output that a page shows: at most `MAX_OUTPUT`.
pub open spec fn shown_output(output: Seq<u8>) -> Seq<u8> {
    if output.len() <= MAX_OUTPUT {
        output
    } else {
        output.take(MAX_OUTPUT as int)
    }
}

/// A user's page shows pinky's output whole when it is at most 65536 bytes,
/// and otherwise its first 65536 bytes.
pub proof fn law_shown_output(output: Seq<u8>)
    ensures
        output.len() <= 65536 ==> shown_output(output) == output,
        output.len() > 65536 ==> shown_output(output).len() == 65536 && shown_output(output)
            == output.subrange(0, 65536),
{
}

/// The content of a user's page.
pub open spec fn user_content_text(username: Seq<char>, output: Seq<u8>) -> Seq<char> {
    "<h1>~"@ + escaped(username) + "</h1><p class=\"command\">$ pinky -lb -- "@ + escaped(username)
        + "</p><hr><pre>"@ + escaped(utf8_lossy_text(shown_output(output))) + "</pre>"@
}

/// A user's page, showing the first `MAX_OUTPUT` bytes of pinky's output
/// decoded as UTF-8, escaped.
pub fn user_page(username: &str, output: &[u8]) -> (r: String)
    ensures
        r@ == now_page_text("~"@ + username@, user_content_text(username@, output@)),
{
    let shown = if output.len() <= MAX_OUTPUT {
        output
    } else {
        &output[0..MAX_OUTPUT]
    };
    assert(shown@ =~= shown_output(output@));
    let text = utf8_lossy(shown);
    let mut title = String::new();
    title.append("~");
    title.append(username);
    let name = escape(username);
    let mut content = String::new();
    content.append("<h1>~");
    content.append(name.as_str());
    content.append("</h1><p class=\"command\">$ pinky -lb -- ");
    content.append(name.as_str());
    content.append("</p><hr><pre>");
    content.append(escape(text.as_str()).as_str());
    content.append("</pre>");
    page(title.as_str(), content.as_str())
}

/// How a run of pinky ended.
#[derive(Debug)]
pub enum PinkyRun {
    /// Pinky exited; `success` tells whether its status was zero.
    Exited { success: bool, stdout: Vec<u8> },
    /// Pinky could not be started.
    NotStarted,
    /// Pinky did not finish in time.
    TimedOut,
}

/// The answer for a valid, existing user once pinky has run: the user's
/// page when pinky exited successfully, the unavailable page otherwise.
pub fn user(username: &str, run: PinkyRun) -> (r: Response)
    ensures
        match run {
            PinkyRun::Exited { success: true, stdout } => r matches Response::Html { status, body }
                && status == OK && body@ == now_page_text(
                "~"@ + username@,
                user_content_text(username@, stdout@),
            ),
            _ => r matches Response::Html { status, body } && status == BAD_GATEWAY && body@
                == now_page_text(
                "Pinky unavailable"@,
                "<h1>Pinky unavailable</h1><p>Try again later.</p>"@,
            ),
        },
{
    match run {
        PinkyRun::Exited { success: true, stdout } => Response::Html {
            status: OK,
            body: user_page(username, stdout.as_slice()),
        },
        _ => unavailable(),
    }
}

} // verus!
