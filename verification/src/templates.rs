//! The page templates. `{{TITLE}}` and `{{CONTENT}}` mark where a page's
//! title and content go; `{{USER_LIST}}` marks where the user list goes.
use vstd::prelude::*;

verus! {

/// The template of the BBS pages.
pub const BBS_PAGE: &'static str = "<!doctype html>\n<html lang=\"en\">\n<head>\n<meta charset=\"utf-8\">\n<meta name=\"viewport\" content=\"width=device-width, initial-scale=1\">\n<title>{{TITLE}} \u{b7} salyut.one BBS</title>\n<link rel=\"stylesheet\" href=\"/style.css\">\n</head>\n<body>\n<nav><a href=\"/\">salyut.one</a> \u{b7} <a href=\"/bbs\">BBS</a></nav>\n<main>\n{{CONTENT}}\n</main>\n</body>\n</html>\n";

/// The template of the pinky pages.
pub const NOW_PAGE: &'static str = "<!doctype html>\n<html lang=\"en\">\n<head>\n<meta charset=\"utf-8\">\n<meta name=\"viewport\" content=\"width=device-width, initial-scale=1\">\n<title>{{TITLE}} \u{b7} salyut.one</title>\n<link rel=\"stylesheet\" href=\"/style.css\">\n</head>\n<body>\n<nav><a href=\"/\">salyut.one</a> \u{b7} <a href=\"/now\">Pinky</a></nav>\n<main>\n{{CONTENT}}\n</main>\n</body>\n</html>\n";

/// The template of the user list.
pub const USER_LIST_PAGE: &'static str = "<!doctype html>\n<html lang=\"en\">\n<head>\n<meta charset=\"utf-8\">\n<meta name=\"viewport\" content=\"width=device-width, initial-scale=1\">\n<title>Users \u{b7} salyut.one</title>\n<link rel=\"stylesheet\" href=\"/style.css\">\n</head>\n<body>\n<nav><a href=\"/\">salyut.one</a></nav>\n<main>\n<h1>Users</h1>\n<ul class=\"users\">{{USER_LIST}}</ul>\n</main>\n</body>\n</html>\n";

} // verus!
