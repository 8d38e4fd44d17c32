use crawler::address::Url;

#[test]
fn parse_accepts_an_absolute_url() {
    let url = Url::parse("https://example.net/a/b?q=1").expect("an absolute URL");
    assert_eq!(url.as_str(), "https://example.net/a/b?q=1");
}

#[test]
fn parse_gives_the_canonical_form() {
    assert_eq!(Url::parse("HTTP://Example.COM").unwrap().as_str(), "http://example.com/");
    assert_eq!(Url::parse("http://x/a/../b").unwrap().as_str(), "http://x/b");
    assert_eq!(Url::parse("http://x:80/a").unwrap().as_str(), "http://x/a");
    assert_eq!(Url::parse("  http://x/a  ").unwrap().as_str(), "http://x/a");
}

#[test]
fn differently_written_texts_of_one_url_are_equal() {
    let plain = Url::parse("http://example.com/").unwrap();
    let shouting = Url::parse("HTTP://EXAMPLE.COM").unwrap();
    let with_port = Url::parse("http://example.com:80/").unwrap();
    assert_eq!(plain, shouting);
    assert_eq!(plain, with_port);
    assert!(plain == shouting);
}

#[test]
fn different_urls_are_not_equal() {
    let a = Url::parse("http://x/a").unwrap();
    let b = Url::parse("http://x/b").unwrap();
    let secure = Url::parse("https://x/a").unwrap();
    let query = Url::parse("http://x/a?1").unwrap();
    assert_ne!(a, b);
    assert_ne!(a, secure);
    assert_ne!(a, query);
}

#[test]
fn parse_rejects_what_is_no_absolute_url() {
    for text in ["", "not a url", "/relative/path", "../up", "//host/path", "http://", "http://[::1"] {
        let error = Url::parse(text).expect_err("no absolute URL");
        assert!(!error.reason.is_empty(), "{:?} should give a reason", text);
    }
}

#[test]
fn parse_reports_the_parser_s_reason() {
    assert_eq!(Url::parse("/relative").unwrap_err().reason, "relative URL without a base");
    assert_eq!(Url::parse("http://").unwrap_err().reason, "empty host");
}

#[test]
fn clone_is_equal_to_what_was_cloned() {
    let url = Url::parse("http://en.wikipedia.org/").unwrap();
    let copy = url.clone();
    assert_eq!(copy, url);
    assert_eq!(copy.as_str(), "http://en.wikipedia.org/");
}

#[test]
fn canonical_form_parses_to_itself() {
    for text in ["HTTP://Example.COM", "http://x/a/../b?q#f", "https://docs.rs"] {
        let url = Url::parse(text).unwrap();
        let again = Url::parse(url.as_str()).unwrap();
        assert_eq!(again, url);
    }
}
