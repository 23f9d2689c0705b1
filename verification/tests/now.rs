use salyut_site::now::{self, PinkyRun, MAX_OUTPUT};
use salyut_site::response::Response;
use salyut_site::web;

#[test]
fn escapes_pinky_output() {
    let html = now::page("~alice", &format!("<pre>{}</pre>", web::escape("<script>&")));
    assert!(html.contains("&lt;script&gt;&amp;"));
    assert!(!html.contains("<script>"));
}

#[test]
fn lookup_redirects_valid_usernames_only() {
    match now::index(Some("alice")) {
        Response::Redirect { status, location } => {
            assert_eq!(status, 303);
            assert_eq!(location, "/now/~alice");
        }
        other => panic!("unexpected {other:?}"),
    }
    for lookup in [None, Some("Alice"), Some("")] {
        match now::index(lookup) {
            Response::Html { status, body } => {
                assert_eq!(status, 200);
                assert!(body.contains("<form action=\"/now\" method=\"get\">"));
                assert!(body.contains("<title>Pinky \u{b7} salyut.one</title>"));
            }
            other => panic!("unexpected {other:?}"),
        }
    }
}

#[test]
fn user_page_shows_escaped_output() {
    let html = now::user_page("alice", b"Login: alice <x>\n");
    assert!(html.contains("<title>~alice \u{b7} salyut.one</title>"));
    assert!(html.contains("<h1>~alice</h1><p class=\"command\">$ pinky -lb -- alice</p><hr><pre>Login: alice &lt;x&gt;\n</pre>"));
}

#[test]
fn user_page_replaces_invalid_utf8() {
    let html = now::user_page("bob", &[b'a', 0xff, b'b']);
    assert!(html.contains("<pre>a\u{fffd}b</pre>"));
}

#[test]
fn user_page_cuts_output_at_the_limit() {
    let mut output = vec![b'x'; MAX_OUTPUT];
    output.extend_from_slice(b"TAIL");
    let html = now::user_page("carol", &output);
    assert!(!html.contains("TAIL"));
    assert!(html.contains(&format!("<pre>{}</pre>", "x".repeat(MAX_OUTPUT))));
}

#[test]
fn pinky_failures_are_unavailable() {
    for run in [
        PinkyRun::Exited { success: false, stdout: b"out".to_vec() },
        PinkyRun::NotStarted,
        PinkyRun::TimedOut,
    ] {
        match now::user("alice", run) {
            Response::Html { status, body } => {
                assert_eq!(status, 502);
                assert!(body.contains("<h1>Pinky unavailable</h1><p>Try again later.</p>"));
            }
            other => panic!("unexpected {other:?}"),
        }
    }
    match now::user("alice", PinkyRun::Exited { success: true, stdout: b"hi".to_vec() }) {
        Response::Html { status, body } => {
            assert_eq!(status, 200);
            assert!(body.contains("<pre>hi</pre>"));
        }
        other => panic!("unexpected {other:?}"),
    }
    match now::not_found() {
        Response::Html { status, body } => {
            assert_eq!(status, 404);
            assert!(body.contains("<h1>User not found</h1>"));
        }
        other => panic!("unexpected {other:?}"),
    }
}
