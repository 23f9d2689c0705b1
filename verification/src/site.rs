//! The site's own routes: the user list, redirects to user sites and the
//! files they serve.
use vstd::prelude::*;
use crate::response::{BAD_REQUEST, PERMANENT_REDIRECT, Response};
use crate::templates::USER_LIST_PAGE;
use crate::text::{replace, replaced};
use crate::web::{escape, escaped, is_valid_username, valid_username};
use vstd::string::StringSliceAdditionalSpecFns;

verus! {

broadcast use vstd::string::group_string_axioms;

/// The BBS daemon's socket on Linux.
pub fn bbs_socket() -> (r: String)
    ensures
        r@ == "/run/salyut-bbs/users/salyut.sock"@,
{
    String::from_str("/run/salyut-bbs/users/salyut.sock")
}

/// `path` with the relative path `rest` pushed on, as `PathBuf::push` does
/// on Unix: a separator goes between them unless `path` is empty or already
/// ends in one.
pub open spec fn joined_path(path: Seq<char>, rest: Seq<char>) -> Seq<char> {
    if path.len() == 0 || path.last() == '/' {
        path + rest
    } else {
        path + "/"@ + rest
    }
}

/// The BBS daemon's socket on macOS: `salyut-bbs/users.sock` in the
/// directory that `TMPDIR` names, or in `/tmp` when it is not set.
pub fn macos_bbs_socket(tmpdir: Option<&str>) -> (r: String)
    ensures
        r@ == joined_path(
            match tmpdir {
                Some(dir) => dir@,
                None => "/tmp"@,
            },
            "salyut-bbs/users.sock"@,
        ),
{
    proof {
        reveal_strlit("/tmp");
    }
    let mut r = String::new();
    let dir = match tmpdir {
        Some(dir) => dir,
        None => "/tmp",
    };
    r.append(dir);
    let chars = crate::text::chars_of(dir);
    if chars.len() > 0 && chars[chars.len() - 1] != '/' {
        r.append("/");
    }
    r.append("salyut-bbs/users.sock");
    r
}

/// The lowest uid listed.
pub const FIRST_LISTED_UID: u32 = 1000;

/// The first uid past those listed.
pub const END_LISTED_UID: u32 = 60000;

/// A Unix account.
#[derive(Debug)]
pub struct Account {
    pub uid: u32,
    pub name: String,
}

/// Whether an account appears in the user list: people's uids run from
/// 1000 up to 60000, leaving out root, system accounts and high uids, and
/// the name must be a portable username.
pub open spec fn listed(account: Account) -> bool {
    &&& FIRST_LISTED_UID <= account.uid < END_LISTED_UID
    &&& is_valid_username(vstd::utf8::encode_utf8(account.name@))
}

/// The list item of an account: a link to its site.
pub open spec fn account_item_text(name: Seq<char>) -> Seq<char> {
    "<li><a href=\"/~"@ + escaped(name) + "\">"@ + escaped(name) + "</a></li>"@
}

/// The list items of the listed accounts, in order.
pub open spec fn user_list_text(accounts: Seq<Account>) -> Seq<char>
    decreases accounts.len(),
{
    if accounts.len() == 0 {
        Seq::empty()
    } else {
        user_list_text(accounts.drop_last()) + if listed(accounts.last()) {
            account_item_text(accounts.last().name@)
        } else {
            Seq::empty()
        }
    }
}

/// The list items of the accounts that the user list shows.
pub fn user_list(accounts: &[Account]) -> (r: String)
    ensures
        r@ == user_list_text(accounts@),
{
    let mut r = String::new();
    for i in 0..accounts.len()
        invariant
            r@ == user_list_text(accounts@.take(i as int)),
    {
        let account = &accounts[i];
        assert(accounts@.take(i + 1).drop_last() =~= accounts@.take(i as int));
        let name = account.name.as_str();
        if FIRST_LISTED_UID <= account.uid && account.uid < END_LISTED_UID && valid_username(name) {
            let escaped_name = escape(name);
            r.append("<li><a href=\"/~");
            r.append(escaped_name.as_str());
            r.append("\">");
            r.append(escaped_name.as_str());
            r.append("</a></li>");
        } else {
            assert(r@ =~= user_list_text(accounts@.take(i + 1)));
        }
    }
    assert(accounts@.take(accounts@.len() as int) =~= accounts@);
    r
}

/// The user list shows the accounts in the order given, each on its own: an
/// account appears, as a link to `/~name`, exactly when its uid is at least
/// 1000 and below 60000 and its name is a portable username.
pub proof fn law_user_list_in_order(a: Seq<Account>, b: Seq<Account>, x: Account)
    ensures
        user_list_text(a + b) == user_list_text(a) + user_list_text(b),
        (1000 <= x.uid < 60000 && is_valid_username(vstd::utf8::encode_utf8(x.name@))) ==> user_list_text(
            seq![x],
        ) == "<li><a href=\"/~"@ + escaped(x.name@) + "\">"@ + escaped(x.name@) + "</a></li>"@,
        !(1000 <= x.uid < 60000 && is_valid_username(vstd::utf8::encode_utf8(x.name@))) ==> user_list_text(
            seq![x],
        ) == Seq::<char>::empty(),
    decreases b.len(),
{
    assert(seq![x].drop_last() =~= Seq::<Account>::empty());
    assert(seq![x].last() == x);
    assert(user_list_text(Seq::<Account>::empty()) =~= Seq::<char>::empty());
    assert(user_list_text(seq![x]) =~= if listed(x) {
        account_item_text(x.name@)
    } else {
        Seq::empty()
    });
    if b.len() == 0 {
        assert(a + b =~= a);
        assert(user_list_text(a) + user_list_text(b) =~= user_list_text(a));
    } else {
        law_user_list_in_order(a, b.drop_last(), x);
        assert((a + b).drop_last() =~= a + b.drop_last());
        assert((a + b).last() == b.last());
        assert(user_list_text(a + b) =~= user_list_text(a) + user_list_text(b));
    }
}

/// The user list page.
pub fn users_page(accounts: &[Account]) -> (r: String)
    ensures
        r@ == replaced(USER_LIST_PAGE@, "{{USER_LIST}}"@, user_list_text(accounts@)),
{
    proof {
        reveal_strlit("{{USER_LIST}}");
    }
    let items = user_list(accounts);
    replace(USER_LIST_PAGE, "{{USER_LIST}}", items.as_str())
}

/// The location of a user's site directory, with the query of the request
/// that asked for the site.
pub open spec fn user_site_location(username: Seq<char>, query: Option<&str>) -> Seq<char> {
    "/~"@ + username + "/"@ + match query {
        Some(q) => "?"@ + q@,
        None => Seq::empty(),
    }
}

/// The answer to `/~name`: a permanent redirect to the user's site
/// directory, keeping the query, or 400 for a name that is not a portable
/// username.
pub fn redirect_user_site(username: &str, query: Option<&str>) -> (r: Response)
    ensures
        !is_valid_username(username.spec_bytes()) ==> (r == (Response::Empty { status: BAD_REQUEST })),
        is_valid_username(username.spec_bytes()) ==> (r matches Response::Redirect { status, location }
            && status == PERMANENT_REDIRECT && location@ == user_site_location(username@, query)),
{
    if !valid_username(username) {
        return Response::Empty { status: BAD_REQUEST };
    }
    let mut location = String::new();
    location.append("/~");
    location.append(username);
    location.append("/");
    match query {
        Some(q) => {
            location.append("?");
            location.append(q);
        },
        None => {},
    }
    proof {
        if query is None {
            assert(location@ =~= "/~"@ + username@ + "/"@ + Seq::<char>::empty());
        }
    }
    Response::Redirect { status: PERMANENT_REDIRECT, location }
}

/// Where a request for a file of a user's site goes: the directory that
/// holds the site and the request's path within it.
#[derive(Debug)]
pub struct UserSite {
    pub root: String,
    pub path: String,
}

/// Where the request for `path` under `/~username/` is served from, or
/// `None` (answered with 400) for a name that is not a portable username.
pub fn user_site(username: &str, path: &str) -> (r: Option<UserSite>)
    ensures
        r is Some <==> is_valid_username(username.spec_bytes()),
        r matches Some(site) ==> site.root@ == "/srv/user_sites/"@ + username@ && site.path@ == "/"@
            + path@,
{
    if !valid_username(username) {
        return None;
    }
    let mut root = String::new();
    root.append("/srv/user_sites/");
    root.append(username);
    let mut request_path = String::new();
    request_path.append("/");
    request_path.append(path);
    Some(UserSite { root, path: request_path })
}

} // verus!
