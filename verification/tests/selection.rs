use crawler::address::Url;
use crawler::selection::{
    all_urls_in_text, first_url_in_text, present_values, select_urls, urls_in_values,
};

fn texts_of(urls: &[Url]) -> Vec<String> {
    urls.iter().map(|url| url.as_str().to_string()).collect()
}

#[test]
fn all_urls_in_text_finds_every_anchor() {
    let page = "<html><body><a href=\"http://x/a\">1</a><b><a href=\"http://x/b\">2</a></b></body></html>";
    let urls = all_urls_in_text(page).expect("the selector is valid");
    assert_eq!(texts_of(&urls), vec!["http://x/a".to_string(), "http://x/b".to_string()]);
}

#[test]
fn all_urls_in_text_skips_missing_and_unparsable_targets() {
    let page = "<a>none</a><a href=\"relative/path\">rel</a><a href=\"HTTPS://Example.org\">ok</a>\
                <link href=\"http://x/style\"><p href=\"http://x/p\">p</p>";
    let urls = all_urls_in_text(page).unwrap();
    assert_eq!(texts_of(&urls), vec!["https://example.org/".to_string()]);
}

#[test]
fn all_urls_in_text_tolerates_broken_markup() {
    let page = "<div><a href=\"http://x/one\">one</a><p>open<a href='http://x/two'>two</div></span>";
    let urls = all_urls_in_text(page).unwrap();
    assert_eq!(texts_of(&urls), vec!["http://x/one".to_string(), "http://x/two".to_string()]);
}

#[test]
fn all_urls_in_text_of_an_empty_page_is_empty() {
    assert!(all_urls_in_text("").unwrap().is_empty());
    assert!(all_urls_in_text("just text").unwrap().is_empty());
}

#[test]
fn first_url_in_text_is_the_first_that_parses() {
    let page = "<a href=\"nope\">0</a><a href=\"http://x/first\">1</a><a href=\"http://x/second\">2</a>";
    let first = first_url_in_text(page).unwrap().expect("the page has a link");
    assert_eq!(first.as_str(), "http://x/first");
}

#[test]
fn first_url_in_text_without_links_is_none() {
    assert_eq!(first_url_in_text("<p>nothing</p>").unwrap(), None);
    assert_eq!(first_url_in_text("<a name=\"top\">anchor</a>").unwrap(), None);
}

#[test]
fn first_url_in_text_agrees_with_all_urls_in_text() {
    let page = "<ul><li><a href=\"x\">bad</a></li><li><a href=\"http://x/1\">1</a></li>\
                <li><a href=\"http://x/2\">2</a></li></ul>";
    let all = all_urls_in_text(page).unwrap();
    let first = first_url_in_text(page).unwrap();
    assert_eq!(first.as_ref(), all.first());
}

#[test]
fn present_values_drops_the_absent() {
    let values = vec![None, Some("a".to_string()), None, Some("".to_string()), Some("b".to_string())];
    assert_eq!(present_values(&values), vec!["a".to_string(), "".to_string(), "b".to_string()]);
    assert!(present_values(&Vec::new()).is_empty());
    assert!(present_values(&vec![None, None]).is_empty());
}

#[test]
fn urls_in_values_keeps_what_parses() {
    let values = vec![
        Some("http://x/a".to_string()),
        None,
        Some("#fragment".to_string()),
        Some("http://x/b".to_string()),
    ];
    assert_eq!(
        texts_of(&urls_in_values(&values)),
        vec!["http://x/a".to_string(), "http://x/b".to_string()]
    );
}

#[test]
fn select_urls_goes_by_selector_and_attribute() {
    let page = "<link href=\"http://x/style\"><img src=\"http://x/img\"><a href=\"http://x/a\">a</a>\
                <div class=\"nav\"><a href=\"http://x/nav\">n</a></div>";
    assert_eq!(texts_of(&select_urls(page, "link", "href").unwrap()), vec!["http://x/style".to_string()]);
    assert_eq!(texts_of(&select_urls(page, "img", "src").unwrap()), vec!["http://x/img".to_string()]);
    assert_eq!(texts_of(&select_urls(page, "div.nav > a", "href").unwrap()), vec!["http://x/nav".to_string()]);
    assert_eq!(
        texts_of(&select_urls(page, "a, link", "href").unwrap()),
        vec!["http://x/style".to_string(), "http://x/a".to_string(), "http://x/nav".to_string()]
    );
    assert!(select_urls(page, "a", "src").unwrap().is_empty());
}

#[test]
fn select_urls_rejects_what_is_no_selector() {
    for selector in ["a[", "", "div >", "::"] {
        let error = select_urls("<a href=\"http://x/a\">a</a>", selector, "href").unwrap_err();
        assert!(!error.reason.is_empty(), "{:?} should give a reason", selector);
    }
}
