use salyut_site::web::{escape, page, valid_username};

#[test]
fn validates_only_portable_unix_usernames() {
    assert!(valid_username("michal"));
    assert!(valid_username("_service"));
    assert!(valid_username("user-2"));
    for username in ["", "-root", "Bob", "a/b", "a.b", "a b"] {
        assert!(!valid_username(username), "{username:?} was accepted");
    }
}

#[test]
fn escapes_html() {
    assert_eq!(
        escape("<script>alert('x') & \"y\"</script>"),
        "&lt;script&gt;alert(&#39;x&#39;) &amp; &quot;y&quot;&lt;/script&gt;"
    );
}

#[test]
fn usernames_are_limited_to_32_bytes() {
    assert!(valid_username(&"a".repeat(32)));
    assert!(!valid_username(&"a".repeat(33)));
    assert!(valid_username("a"));
    assert!(valid_username("z9_-"));
    assert!(!valid_username("9lives"));
}

#[test]
fn usernames_reject_non_ascii() {
    assert!(!valid_username("mich\u{e1}l"));
    assert!(!valid_username("\u{e9}"));
    assert!(!valid_username("ab\u{0}"));
}

#[test]
fn escape_leaves_plain_text_alone() {
    assert_eq!(escape(""), "");
    assert_eq!(escape("plain text \u{2014} 100%"), "plain text \u{2014} 100%");
    assert_eq!(escape("&amp;"), "&amp;amp;");
}

#[test]
fn escaped_text_holds_no_markup_characters() {
    let escaped = escape("<a href=\"x\" title='y'>&</a>");
    for c in ['<', '>', '"', '\''] {
        assert!(!escaped.contains(c));
    }
}

#[test]
fn escape_distributes_over_concatenation() {
    let (a, b) = ("<b>", "&'\"");
    assert_eq!(escape(&format!("{a}{b}")), format!("{}{}", escape(a), escape(b)));
}

#[test]
fn page_escapes_the_title_but_not_the_content() {
    let html = page("<title>{{TITLE}}</title><main>{{CONTENT}}</main>", "a < b", "<p>x</p>");
    assert_eq!(html, "<title>a &lt; b</title><main><p>x</p></main>");
}

#[test]
fn page_fills_every_placeholder_and_content_after_title() {
    let html = page("{{TITLE}}|{{TITLE}}|{{CONTENT}}", "{{CONTENT}}", "c");
    assert_eq!(html, "c|c|c");
    assert_eq!(page("no placeholders", "t", "c"), "no placeholders");
}
