use salyut_site::bbs::{find_board, health, render, render_feed};
use salyut_site::feed::Format;
use salyut_site::protocol::Board;
use salyut_site::response::{Outcome, Response};
use salyut_site::site::{
    bbs_socket, macos_bbs_socket, redirect_user_site, user_list, user_site, users_page, Account,
};
use salyut_site::time::Timestamp;

fn account(uid: u32, name: &str) -> Account {
    Account { uid, name: name.to_owned() }
}

#[test]
fn user_list_shows_people_with_portable_names() {
    let accounts = vec![
        account(0, "root"),
        account(999, "daemon"),
        account(1000, "alice"),
        account(1001, "Bad"),
        account(59999, "zed"),
        account(60000, "nobody"),
        account(65534, "nogroup"),
    ];
    assert_eq!(
        user_list(&accounts),
        "<li><a href=\"/~alice\">alice</a></li><li><a href=\"/~zed\">zed</a></li>"
    );
    let page = users_page(&accounts);
    assert!(page.contains("<ul class=\"users\"><li><a href=\"/~alice\">alice</a></li>"));
    assert!(!page.contains("{{USER_LIST}}"));
}

#[test]
fn user_site_redirect_keeps_the_query() {
    match redirect_user_site("alice", Some("a=1&b=2")) {
        Response::Redirect { status, location } => {
            assert_eq!(status, 308);
            assert_eq!(location, "/~alice/?a=1&b=2");
        }
        other => panic!("unexpected {other:?}"),
    }
    match redirect_user_site("alice", None) {
        Response::Redirect { location, .. } => assert_eq!(location, "/~alice/"),
        other => panic!("unexpected {other:?}"),
    }
    match redirect_user_site("../etc", None) {
        Response::Empty { status } => assert_eq!(status, 400),
        other => panic!("unexpected {other:?}"),
    }
}

#[test]
fn user_site_files_come_from_the_user_directory() {
    let site = user_site("alice", "index.html").unwrap();
    assert_eq!(site.root, "/srv/user_sites/alice");
    assert_eq!(site.path, "/index.html");
    assert!(user_site("a/b", "x").is_none());
}

#[test]
fn bbs_socket_paths() {
    assert_eq!(bbs_socket(), "/run/salyut-bbs/users/salyut.sock");
    assert_eq!(macos_bbs_socket(None), "/tmp/salyut-bbs/users.sock");
    assert_eq!(macos_bbs_socket(Some("/var/folders/x/")), "/var/folders/x/salyut-bbs/users.sock");
    assert_eq!(macos_bbs_socket(Some("/var/tmp")), "/var/tmp/salyut-bbs/users.sock");
    assert_eq!(macos_bbs_socket(Some("")), "salyut-bbs/users.sock");
}

fn board(slug: &str) -> Board {
    Board {
        slug: slug.to_owned(),
        name: slug.to_uppercase(),
        description: String::new(),
        write_group: None,
    }
}

#[test]
fn boards_are_found_by_slug() {
    let boards = vec![board("general"), board("news"), board("news")];
    assert_eq!(find_board(&boards, "news"), Some(1));
    assert_eq!(find_board(&boards, "general"), Some(0));
    assert_eq!(find_board(&boards, "gen"), None);
    assert_eq!(find_board(&[], "general"), None);
}

#[test]
fn health_reports_the_bbs_state() {
    for (outcome, code, text) in [
        (Outcome::Done(()), 200, "ok\n"),
        (Outcome::Failed, 503, "unavailable\n"),
        (Outcome::Crashed, 500, "unavailable\n"),
    ] {
        match health(outcome) {
            Response::Plain { status, body } => {
                assert_eq!(status, code);
                assert_eq!(body, text);
            }
            other => panic!("unexpected {other:?}"),
        }
    }
}

#[test]
fn pages_answer_every_outcome() {
    match render(Outcome::Done(Some("<p>x</p>".to_owned()))) {
        Response::Html { status, body } => {
            assert_eq!(status, 200);
            assert_eq!(body, "<p>x</p>");
        }
        other => panic!("unexpected {other:?}"),
    }
    for (outcome, code, heading) in [
        (Outcome::Done(None), 404, "<h1>Not found</h1>"),
        (Outcome::Failed, 502, "<h1>BBS unavailable</h1><p>Try again later.</p>"),
        (Outcome::Crashed, 500, "<h1>BBS unavailable</h1><p>Try again later.</p>"),
    ] {
        match render(outcome) {
            Response::Html { status, body } => {
                assert_eq!(status, code);
                assert!(body.contains(heading));
            }
            other => panic!("unexpected {other:?}"),
        }
    }
}

#[test]
fn feeds_answer_every_outcome() {
    match render_feed(Format::Atom, Outcome::Done(Some("<feed/>".to_owned()))) {
        Response::Feed { format, body } => {
            assert_eq!(format, Format::Atom);
            assert_eq!(body, "<feed/>");
        }
        other => panic!("unexpected {other:?}"),
    }
    for (outcome, code, text) in [
        (Outcome::Done(None), 404, "not found\n"),
        (Outcome::Failed, 502, "BBS unavailable\n"),
        (Outcome::Crashed, 500, "BBS unavailable\n"),
    ] {
        match render_feed(Format::Rss, outcome) {
            Response::Plain { status, body } => {
                assert_eq!(status, code);
                assert_eq!(body, text);
            }
            other => panic!("unexpected {other:?}"),
        }
    }
}

#[test]
fn timestamps_hold_what_chrono_can_represent() {
    assert!(Timestamp::new(0, 0).is_some());
    assert!(Timestamp::new(8210266876799, 0).is_some());
    assert!(Timestamp::new(8210266876800, 0).is_none());
    assert!(Timestamp::new(-8334601228800, 0).is_some());
    assert!(Timestamp::new(-8334601228801, 0).is_none());
    assert!(Timestamp::new(59, 1_500_000_000).is_some());
    assert!(Timestamp::new(58, 1_500_000_000).is_none());
    assert!(Timestamp::new(-1, 1_999_999_999).is_some());
    assert!(Timestamp::new(0, 2_000_000_000).is_none());
    for (secs, nanos) in [(8210266876799, 0), (-8334601228800, 0), (59, 1_500_000_000)] {
        let t = Timestamp::new(secs, nanos).unwrap();
        assert!(chrono::DateTime::from_timestamp(secs, nanos).is_some());
        let _ = t.rfc3339();
        let _ = t.minute();
    }
    assert!(chrono::DateTime::from_timestamp(8210266876800, 0).is_none());
    assert!(chrono::DateTime::from_timestamp(-8334601228801, 0).is_none());
}

#[test]
fn timestamps_render_through_chrono() {
    let t = Timestamp::new(1784635260, 0).unwrap();
    assert_eq!(t.rfc2822(), "Tue, 21 Jul 2026 12:01:00 +0000");
    assert_eq!(t.rfc3339(), "2026-07-21T12:01:00Z");
    assert_eq!(t.minute(), "2026-07-21 12:01 UTC");
    assert_eq!(t.day(), "2026-07-21");
    assert!(t.has_rfc2822());
    let later = Timestamp::new(1784635260, 1).unwrap();
    assert!(later.is_later_than(&t));
    assert!(!t.is_later_than(&later));
    assert!(!t.is_later_than(&t));
    assert_eq!(Timestamp::epoch().rfc3339(), "1970-01-01T00:00:00Z");
}
