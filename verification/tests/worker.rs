use crawler::address::Url;
use crawler::registry::SeenSet;
use crawler::markup::{parse_document, Attribute, Element, MarkupError, TreeNode};
use crawler::worker::{
    conclude, examine_page, examine_parsed, explore, offer_links, settle, FetchError, FetchOutcome,
    MAX_DEPTH, REQUEST_TIMEOUT_SECS,
};

fn url(text: &str) -> Url {
    Url::parse(text).expect("a test URL")
}

fn urls(texts: &[&str]) -> Vec<Url> {
    texts.iter().map(|text| url(text)).collect()
}

fn registry_of(texts: &[&str]) -> SeenSet {
    let mut seen = SeenSet::new();
    seen.mark_seen(&urls(texts));
    seen
}

const PAGE: &str = "<a href=\"http://x/a\">a</a><p><a href=\"http://x/b\">b</a></p>";

#[test]
fn design_defaults() {
    assert_eq!(MAX_DEPTH, 3);
    assert_eq!(REQUEST_TIMEOUT_SECS, 3);
}

#[test]
fn page_at_the_maximum_depth_is_a_bailout() {
    let seen = SeenSet::new();
    let outcome = examine_page(&seen, &url("http://x/"), MAX_DEPTH, MAX_DEPTH, PAGE);
    assert_eq!(outcome, FetchOutcome::Bailout);
}

#[test]
fn bailout_does_not_look_at_the_body() {
    let seen = SeenSet::new();
    let broken = "<head></head><body></body>";
    assert_eq!(examine_page(&seen, &url("http://x/"), 0, 0, broken), FetchOutcome::Bailout);
    assert_eq!(examine_page(&seen, &url("http://x/"), 7, 7, ""), FetchOutcome::Bailout);
}

#[test]
fn page_above_the_maximum_depth_offers_its_links() {
    let seen = SeenSet::new();
    for depth in 0..MAX_DEPTH {
        let outcome = examine_page(&seen, &url("http://x/"), depth, MAX_DEPTH, PAGE);
        assert_eq!(
            outcome,
            FetchOutcome::Success { body_len: PAGE.len(), links: urls(&["http://x/a", "http://x/b"]) }
        );
    }
}

#[test]
fn body_length_is_counted_in_bytes() {
    let seen = SeenSet::new();
    let page = "<p>h\u{e9}llo \u{4e16}\u{754c}</p>";
    match examine_page(&seen, &url("http://x/"), 0, 3, page) {
        FetchOutcome::Success { body_len, links } => {
            // 17 characters, of which one takes two bytes and two take three.
            assert_eq!(body_len, 20);
            assert!(links.is_empty());
        }
        other => panic!("expected a success, got {:?}", other),
    }
}

#[test]
fn links_held_by_the_registry_are_not_offered() {
    let seen = registry_of(&["http://x/a"]);
    let outcome = examine_page(&seen, &url("http://x/"), 1, 3, PAGE);
    assert_eq!(outcome, FetchOutcome::Success { body_len: PAGE.len(), links: urls(&["http://x/b"]) });
}

#[test]
fn a_page_does_not_offer_itself() {
    let seen = SeenSet::new();
    let page = "<a href=\"http://x/self\">me</a><a href=\"http://x/other\">other</a>";
    let outcome = examine_page(&seen, &url("http://x/self"), 0, 3, page);
    assert_eq!(outcome, FetchOutcome::Success { body_len: page.len(), links: urls(&["http://x/other"]) });
}

#[test]
fn a_link_is_offered_once_per_page() {
    let seen = SeenSet::new();
    let page = "<a href=\"http://x/a\">1</a><a href=\"http://x/b\">2</a><a href=\"HTTP://X/a\">3</a>\
                <a href=\"http://x/b\">4</a><a href=\"http://x/c\">5</a>";
    let outcome = examine_page(&seen, &url("http://x/"), 0, 3, page);
    assert_eq!(
        outcome,
        FetchOutcome::Success { body_len: page.len(), links: urls(&["http://x/a", "http://x/b", "http://x/c"]) }
    );
}

#[test]
fn the_worker_only_reads_the_registry() {
    let seen = registry_of(&["http://x/seen"]);
    let _ = examine_page(&seen, &url("http://x/"), 0, 3, PAGE);
    assert_eq!(seen.len(), 1);
    assert!(!seen.already_seen(&url("http://x/a")));
}

#[test]
fn markup_beyond_tolerance_is_a_parse_error() {
    let seen = SeenSet::new();
    match examine_page(&seen, &url("http://x/"), 0, 3, "<head></head><body></body>") {
        FetchOutcome::Error { cause: FetchError::Parse(reason) } => assert!(!reason.is_empty()),
        other => panic!("expected a parse error, got {:?}", other),
    }
}

#[test]
fn a_failed_request_is_an_error_outcome() {
    let seen = SeenSet::new();
    let timeout = FetchError::Network("operation timed out".to_string());
    let outcome = conclude(&seen, &url("http://x/"), 1, 3, Err(timeout));
    assert_eq!(
        outcome,
        FetchOutcome::Error { cause: FetchError::Network("operation timed out".to_string()) }
    );
    let undecodable = conclude(&seen, &url("http://x/"), 1, 3, Err(FetchError::Decode("bad utf-8".to_string())));
    assert_eq!(undecodable, FetchOutcome::Error { cause: FetchError::Decode("bad utf-8".to_string()) });
    let closed = conclude(&seen, &url("http://x/"), 1, 3, Err(FetchError::ChannelClosed));
    assert_eq!(closed, FetchOutcome::Error { cause: FetchError::ChannelClosed });
}

#[test]
fn a_failed_request_at_the_maximum_depth_is_still_an_error() {
    let seen = SeenSet::new();
    let outcome = conclude(&seen, &url("http://x/"), 3, 3, Err(FetchError::Network("refused".to_string())));
    assert_eq!(outcome, FetchOutcome::Error { cause: FetchError::Network("refused".to_string()) });
}

#[test]
fn conclude_with_a_body_is_examine_page() {
    let seen = registry_of(&["http://x/b"]);
    let site = url("http://x/");
    assert_eq!(
        conclude(&seen, &site, 2, 3, Ok(PAGE.to_string())),
        FetchOutcome::Success { body_len: PAGE.len(), links: urls(&["http://x/a"]) }
    );
    assert_eq!(conclude(&seen, &site, 3, 3, Ok(PAGE.to_string())), FetchOutcome::Bailout);
}

#[test]
fn offer_links_filters_in_order() {
    let seen = registry_of(&["http://x/2", "http://x/5"]);
    let links = urls(&[
        "http://x/1", "http://x/2", "http://x/own", "http://x/1", "http://x/3", "http://x/5", "http://x/3",
        "http://x/4",
    ]);
    let fresh = offer_links(&seen, &url("http://x/own"), &links);
    assert_eq!(fresh, urls(&["http://x/1", "http://x/3", "http://x/4"]));
}

#[test]
fn offer_links_goes_by_the_canonical_form() {
    let seen = registry_of(&["http://example.com/"]);
    let links = urls(&["HTTP://EXAMPLE.COM", "http://x/a", "HTTP://X/a", "http://OWN.example/"]);
    let fresh = offer_links(&seen, &url("http://own.example"), &links);
    assert_eq!(fresh, urls(&["http://x/a"]));
}

#[test]
fn offer_links_of_nothing_is_nothing() {
    let seen = registry_of(&["http://x/2"]);
    assert!(offer_links(&seen, &url("http://x/own"), &Vec::new()).is_empty());
}

fn anchor(target: &str) -> TreeNode {
    TreeNode::Element(Element {
        name: "a".to_string(),
        attributes: vec![Attribute { name: "href".to_string(), value: Some(target.to_string()) }],
        children: Vec::new(),
    })
}

#[test]
fn examine_parsed_of_a_hand_built_tree() {
    let seen = registry_of(&["http://x/seen"]);
    let tree = vec![
        anchor("http://x/a"),
        TreeNode::Element(Element {
            name: "div".to_string(),
            attributes: Vec::new(),
            children: vec![anchor("http://x/seen"), anchor("nope"), anchor("http://x/b"), anchor("http://x/a")],
        }),
    ];
    let outcome = examine_parsed(&seen, &url("http://x/"), 2, 3, 77, Ok(tree));
    assert_eq!(outcome, FetchOutcome::Success { body_len: 77, links: urls(&["http://x/a", "http://x/b"]) });
}

#[test]
fn examine_parsed_of_a_failed_parse_is_a_parse_error() {
    let seen = SeenSet::new();
    let failed = Err(MarkupError { reason: "stack limit reached".to_string() });
    let outcome = examine_parsed(&seen, &url("http://x/"), 0, 3, 5, failed);
    assert_eq!(outcome, FetchOutcome::Error { cause: FetchError::Parse("stack limit reached".to_string()) });
}

#[test]
fn examine_parsed_at_the_maximum_depth_is_a_bailout_whatever_the_parse() {
    let seen = SeenSet::new();
    let site = url("http://x/");
    assert_eq!(examine_parsed(&seen, &site, 3, 3, 9, Ok(vec![anchor("http://x/a")])), FetchOutcome::Bailout);
    let failed = Err(MarkupError { reason: "call limit reached".to_string() });
    assert_eq!(examine_parsed(&seen, &site, 3, 3, 9, failed), FetchOutcome::Bailout);
}

#[test]
fn examine_parsed_agrees_with_examine_page_on_the_parse_of_the_body() {
    let seen = registry_of(&["http://x/b"]);
    let site = url("http://x/");
    let by_tree = examine_parsed(&seen, &site, 1, 3, PAGE.len(), parse_document(PAGE));
    assert_eq!(by_tree, examine_page(&seen, &site, 1, 3, PAGE));
}

#[test]
fn explore_finds_every_link_without_a_registry() {
    let page = "<a href=\"http://x/a\">1</a><a href=\"http://x/a\">2</a><a href=\"http://x/self\">3</a>";
    let found = explore(0, 3, Ok(page.to_string()));
    assert_eq!(
        found,
        FetchOutcome::Success { body_len: page.len(), links: urls(&["http://x/a", "http://x/a", "http://x/self"]) }
    );
}

#[test]
fn explore_of_a_failed_request_is_the_error() {
    let found = explore(0, 3, Err(FetchError::Network("reset".to_string())));
    assert_eq!(found, FetchOutcome::Error { cause: FetchError::Network("reset".to_string()) });
    let deepest = explore(3, 3, Err(FetchError::Decode("bad".to_string())));
    assert_eq!(deepest, FetchOutcome::Error { cause: FetchError::Decode("bad".to_string()) });
}

#[test]
fn explore_at_the_maximum_depth_does_not_parse() {
    assert_eq!(explore(3, 3, Ok(PAGE.to_string())), FetchOutcome::Bailout);
    assert_eq!(explore(0, 0, Ok("<head></head><body></body>".to_string())), FetchOutcome::Bailout);
}

#[test]
fn explore_of_markup_beyond_tolerance_is_a_parse_error() {
    match explore(1, 3, Ok("<head></head><body></body>".to_string())) {
        FetchOutcome::Error { cause: FetchError::Parse(reason) } => assert!(!reason.is_empty()),
        other => panic!("expected a parse error, got {:?}", other),
    }
}

#[test]
fn settle_filters_the_links_of_a_success_only() {
    let seen = registry_of(&["http://x/seen"]);
    let site = url("http://x/self");
    let found = FetchOutcome::Success {
        body_len: 12,
        links: urls(&["http://x/a", "http://x/seen", "http://x/self", "http://x/a", "http://x/b"]),
    };
    assert_eq!(
        settle(&seen, &site, found),
        FetchOutcome::Success { body_len: 12, links: urls(&["http://x/a", "http://x/b"]) }
    );
    assert_eq!(settle(&seen, &site, FetchOutcome::Bailout), FetchOutcome::Bailout);
    let error = FetchOutcome::Error { cause: FetchError::ChannelClosed };
    assert_eq!(settle(&seen, &site, error), FetchOutcome::Error { cause: FetchError::ChannelClosed });
    assert_eq!(seen.len(), 1);
}

#[test]
fn explore_then_settle_is_conclude() {
    let seen = registry_of(&["http://x/b"]);
    let site = url("http://x/");
    for depth in 0..=3 {
        let in_two = settle(&seen, &site, explore(depth, 3, Ok(PAGE.to_string())));
        assert_eq!(in_two, conclude(&seen, &site, depth, 3, Ok(PAGE.to_string())));
    }
    let failed = settle(&seen, &site, explore(1, 3, Err(FetchError::Network("x".to_string()))));
    assert_eq!(failed, conclude(&seen, &site, 1, 3, Err(FetchError::Network("x".to_string()))));
}
