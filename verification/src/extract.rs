//! The link extractor: the URLs that a page's anchors point to.
//!
//! Every element of the document tree is visited once, however deeply it is
//! nested. An anchor that has an `href` offers its value; text and comments
//! offer nothing. What is offered is kept in document order, and of that,
//! what parses as an absolute URL is a link of the page.

use crate::address::{parsed_url, Url};
use crate::markup::{
    attribute_value, lemma_models, models, parse_document, Markup, MarkupError, TreeNode,
};
use vstd::prelude::*;

verus! {

/// The tag name of an anchor.
pub open spec fn anchor_name() -> Seq<char> {
    "a"@
}

/// The name of the attribute that holds an anchor's target.
pub open spec fn href_name() -> Seq<char> {
    "href"@
}

/// What a node offers by itself: the value of `href` where the node is an
/// anchor that gives one.
pub open spec fn own_target(node: Markup) -> Seq<Seq<char>> {
    match node {
        Markup::Element { name, attributes, .. } => {
            if name == anchor_name() {
                match attribute_value(attributes, href_name()) {
                    Some(Some(target)) => seq![target],
                    _ => Seq::empty(),
                }
            } else {
                Seq::empty()
            }
        },
        _ => Seq::empty(),
    }
}

/// The targets offered by a node and everything below it, in document order:
/// the node's own before those of its children.
pub open spec fn targets(node: Markup) -> Seq<Seq<char>>
    decreases node,
{
    match node {
        Markup::Element { children, .. } => own_target(node) + targets_of(children),
        _ => Seq::empty(),
    }
}

/// The targets offered by a sequence of trees, in document order.
pub open spec fn targets_of(nodes: Seq<Markup>) -> Seq<Seq<char>>
    decreases nodes,
{
    if nodes.len() == 0 {
        Seq::empty()
    } else {
        targets_of(nodes.drop_last()) + targets(nodes.last())
    }
}

/// Of the given targets, the canonical forms of those that parse as absolute
/// URLs, in the same order.
pub open spec fn links_among(targets: Seq<Seq<char>>) -> Seq<Seq<char>>
    decreases targets.len(),
{
    if targets.len() == 0 {
        Seq::empty()
    } else {
        match parsed_url(targets.last()) {
            Ok(form) => links_among(targets.drop_last()).push(form),
            Err(_) => links_among(targets.drop_last()),
        }
    }
}

/// The characters of each string.
pub open spec fn texts(strings: Seq<String>) -> Seq<Seq<char>> {
    strings.map_values(|text: String| text@)
}

/// The canonical form of each URL.
pub open spec fn forms(urls: Seq<Url>) -> Seq<Seq<char>> {
    urls.map_values(|url: Url| url@)
}

/// The targets of trees laid side by side are the targets of the first lot
/// followed by those of the second.
pub proof fn lemma_targets_concat(first: Seq<Markup>, second: Seq<Markup>)
    ensures
        targets_of(first + second) == targets_of(first) + targets_of(second),
    decreases second.len(),
{
    if second.len() == 0 {
        assert(first + second == first);
        assert(targets_of(first) + targets_of(second) == targets_of(first));
    } else {
        assert((first + second).drop_last() == first + second.drop_last());
        assert((first + second).last() == second.last());
        lemma_targets_concat(first, second.drop_last());
        assert(targets_of(first + second) == (targets_of(first) + targets_of(second.drop_last()))
            + targets(second.last()));
        assert((targets_of(first) + targets_of(second.drop_last())) + targets(second.last())
            == targets_of(first) + (targets_of(second.drop_last()) + targets(second.last())));
    }
}

/// A node followed by further trees offers its own target, then what its
/// children offer, then what the further trees offer.
proof fn lemma_targets_unfold(node: TreeNode, rest: Seq<TreeNode>)
    ensures
        targets_of(models(seq![node] + rest)) == match node {
            TreeNode::Element(element) => own_target(node.model()) + targets_of(
                models(element.children@ + rest),
            ),
            _ => targets_of(models(rest)),
        },
{
    let head = seq![node];
    lemma_models_concat(head, rest);
    lemma_targets_concat(models(head), models(rest));
    lemma_models(head);
    assert(models(head) == seq![node.model()]);
    assert(seq![node.model()].drop_last() == Seq::<Markup>::empty());
    assert(seq![node.model()].last() == node.model());
    assert(targets_of(Seq::<Markup>::empty()) == Seq::<Seq<char>>::empty());
    assert(targets_of(seq![node.model()]) == Seq::<Seq<char>>::empty() + targets(node.model()));
    assert(targets_of(models(head)) == targets(node.model()));
    match node {
        TreeNode::Element(element) => {
            lemma_models_concat(element.children@, rest);
            lemma_targets_concat(models(element.children@), models(rest));
            assert((own_target(node.model()) + targets_of(models(element.children@)))
                + targets_of(models(rest)) == own_target(node.model()) + (targets_of(
                models(element.children@),
            ) + targets_of(models(rest))));
        },
        _ => {
            assert(Seq::<Seq<char>>::empty() + targets_of(models(rest)) == targets_of(
                models(rest),
            ));
        },
    }
}

/// The models of nodes laid side by side.
pub proof fn lemma_models_concat(first: Seq<TreeNode>, second: Seq<TreeNode>)
    ensures
        models(first + second) == models(first) + models(second),
{
    lemma_models(first);
    lemma_models(second);
    lemma_models(first + second);
    assert(models(first + second) =~= models(first) + models(second));
}

/// The number of nodes in a tree.
spec fn weight(node: TreeNode) -> nat
    decreases node,
{
    match node {
        TreeNode::Element(element) => 1 + weight_of(element.children@),
        _ => 1,
    }
}

/// The number of nodes in a sequence of trees.
spec fn weight_of(nodes: Seq<TreeNode>) -> nat
    decreases nodes,
{
    if nodes.len() == 0 {
        0
    } else {
        weight_of(nodes.drop_last()) + weight(nodes.last())
    }
}

/// Trees laid side by side have the nodes of both lots.
proof fn lemma_weight_concat(first: Seq<TreeNode>, second: Seq<TreeNode>)
    ensures
        weight_of(first + second) == weight_of(first) + weight_of(second),
    decreases second.len(),
{
    if second.len() == 0 {
        assert(first + second == first);
    } else {
        assert((first + second).drop_last() == first + second.drop_last());
        assert((first + second).last() == second.last());
        lemma_weight_concat(first, second.drop_last());
    }
}

/// A node followed by further trees counts for itself, its children and the
/// further trees: taking it off a work stack and putting its children on
/// leaves one node less to visit.
proof fn lemma_weight_unfold(node: TreeNode, rest: Seq<TreeNode>)
    ensures
        weight_of(seq![node] + rest) == 1 + match node {
            TreeNode::Element(element) => weight_of(element.children@ + rest),
            _ => weight_of(rest),
        },
{
    let head = seq![node];
    lemma_weight_concat(head, rest);
    assert(head.drop_last() == Seq::<TreeNode>::empty());
    assert(head.last() == node);
    assert(weight_of(Seq::<TreeNode>::empty()) == 0);
    assert(weight_of(head) == weight(node));
    match node {
        TreeNode::Element(element) => {
            lemma_weight_concat(element.children@, rest);
        },
        _ => {},
    }
}

/// The nodes on a work stack in the order in which they will be taken off:
/// the top of the stack first.
spec fn in_turn(stack: Seq<&TreeNode>) -> Seq<TreeNode> {
    Seq::new(stack.len(), |i: int| *stack[stack.len() - 1 - i])
}

/// Puts the nodes on the stack so that they come off in their own order,
/// before everything that was on it.
fn push_in_turn<'a>(stack: &mut Vec<&'a TreeNode>, nodes: &'a Vec<TreeNode>)
    ensures
        in_turn(final(stack)@) == nodes@ + in_turn(old(stack)@),
{
    let mut i: usize = nodes.len();
    assert(nodes@.subrange(i as int, nodes.len() as int) + in_turn(stack@) == in_turn(stack@));
    while i > 0
        invariant
            i <= nodes.len(),
            in_turn(stack@) == nodes@.subrange(i as int, nodes.len() as int) + in_turn(old(stack)@),
        decreases i,
    {
        let ghost before = stack@;
        i -= 1;
        stack.push(&nodes[i]);
        assert(in_turn(stack@) =~= seq![nodes@[i as int]] + in_turn(before));
        assert(seq![nodes@[i as int]] + (nodes@.subrange(i + 1, nodes.len() as int) + in_turn(
            old(stack)@,
        )) =~= nodes@.subrange(i as int, nodes.len() as int) + in_turn(old(stack)@));
    }
    assert(nodes@.subrange(0, nodes.len() as int) == nodes@);
}

/// The `href` values of the anchors in the trees, in document order.
pub fn anchor_targets(nodes: &Vec<TreeNode>) -> (found: Vec<String>)
    ensures
        texts(found@) == targets_of(models(nodes@)),
{
    let anchor = "a".to_owned();
    let href = "href".to_owned();
    let mut found: Vec<String> = Vec::new();
    let mut stack: Vec<&TreeNode> = Vec::new();
    assert(in_turn(stack@) == Seq::<TreeNode>::empty());
    push_in_turn(&mut stack, nodes);
    assert(nodes@ + Seq::<TreeNode>::empty() == nodes@);
    assert(texts(found@) + targets_of(models(nodes@)) == targets_of(models(nodes@)));
    while stack.len() > 0
        invariant
            anchor@ == anchor_name(),
            href@ == href_name(),
            texts(found@) + targets_of(models(in_turn(stack@))) == targets_of(models(nodes@)),
        decreases weight_of(in_turn(stack@)),
    {
        let ghost before = stack@;
        let ghost found_before = found@;
        let node: &TreeNode = stack.pop().unwrap();
        let ghost rest = in_turn(stack@);
        assert(in_turn(before) =~= seq![*node] + rest);
        proof {
            lemma_targets_unfold(*node, rest);
            lemma_weight_unfold(*node, rest);
        }
        match node {
            TreeNode::Element(element) => {
                if element.name == anchor {
                    match element.attribute(&href) {
                        Some(Some(target)) => {
                            found.push(target.clone());
                            assert(texts(found@) =~= texts(found_before) + seq![target@]);
                        },
                        _ => {},
                    }
                }
                assert(texts(found@) == texts(found_before) + own_target(node.model())) by {
                    assert(texts(found_before) + Seq::<Seq<char>>::empty() == texts(found_before));
                }
                push_in_turn(&mut stack, &element.children);
                assert((texts(found_before) + own_target(node.model())) + targets_of(
                    models(element.children@ + rest),
                ) == texts(found_before) + (own_target(node.model()) + targets_of(
                    models(element.children@ + rest),
                )));
            },
            _ => {},
        }
    }
    assert(in_turn(stack@) == Seq::<TreeNode>::empty());
    assert(models(Seq::<TreeNode>::empty()) == Seq::<Markup>::empty());
    assert(texts(found@) + Seq::<Seq<char>>::empty() == texts(found@));
    found
}

/// The links among targets laid end to end are the links of the first lot
/// followed by those of the second.
pub proof fn lemma_links_concat(first: Seq<Seq<char>>, second: Seq<Seq<char>>)
    ensures
        links_among(first + second) == links_among(first) + links_among(second),
    decreases second.len(),
{
    if second.len() == 0 {
        assert(first + second == first);
        assert(links_among(first) + links_among(second) == links_among(first));
    } else {
        assert((first + second).drop_last() == first + second.drop_last());
        assert((first + second).last() == second.last());
        lemma_links_concat(first, second.drop_last());
        match parsed_url(second.last()) {
            Ok(form) => {
                assert((links_among(first) + links_among(second.drop_last())).push(form)
                    == links_among(first) + links_among(second.drop_last()).push(form));
            },
            Err(_) => {},
        }
    }
}

/// One more target adds its canonical form where it parses, and nothing
/// where it does not.
proof fn lemma_links_step(targets: Seq<Seq<char>>, i: int)
    requires
        0 <= i < targets.len(),
    ensures
        links_among(targets.take(i + 1)) == match parsed_url(targets[i]) {
            Ok(form) => links_among(targets.take(i)).push(form),
            Err(_) => links_among(targets.take(i)),
        },
{
    assert(targets.take(i + 1).drop_last() == targets.take(i));
    assert(targets.take(i + 1).last() == targets[i]);
}

/// The URLs among the targets: each target that parses as an absolute URL, in
/// the order given. A target that does not parse is passed over.
pub fn parse_links(targets: &Vec<String>) -> (links: Vec<Url>)
    ensures
        forms(links@) == links_among(texts(targets@)),
{
    let mut links: Vec<Url> = Vec::new();
    let mut i: usize = 0;
    assert(texts(targets@).take(0) == Seq::<Seq<char>>::empty());
    assert(forms(links@) == Seq::<Seq<char>>::empty());
    while i < targets.len()
        invariant
            i <= targets.len(),
            forms(links@) == links_among(texts(targets@).take(i as int)),
        decreases targets.len() - i,
    {
        let ghost before = links@;
        proof {
            lemma_links_step(texts(targets@), i as int);
        }
        match Url::parse(targets[i].as_str()) {
            Ok(url) => {
                links.push(url);
                assert(forms(links@) == forms(before).push(url@));
            },
            Err(_) => {},
        }
        i += 1;
    }
    assert(texts(targets@).take(targets.len() as int) == texts(targets@));
    links
}

/// The links of a parsed page: the URLs that its anchors point to, in
/// document order.
pub fn links_in(nodes: &Vec<TreeNode>) -> (links: Vec<Url>)
    ensures
        forms(links@) == links_among(targets_of(models(nodes@))),
{
    let targets = anchor_targets(nodes);
    parse_links(&targets)
}

/// The first of a sequence, if it has one.
pub open spec fn first_of(items: Seq<Seq<char>>) -> Option<Seq<char>> {
    if items.len() > 0 {
        Some(items[0])
    } else {
        None
    }
}

/// The first of the targets that parses as an absolute URL, if any does.
pub fn first_url_among(targets: &Vec<String>) -> (first: Option<Url>)
    ensures
        match first {
            Some(url) => first_of(links_among(texts(targets@))) == Some(url@),
            None => first_of(links_among(texts(targets@))) is None,
        },
{
    let mut i: usize = 0;
    assert(texts(targets@).take(0) == Seq::<Seq<char>>::empty());
    while i < targets.len()
        invariant
            i <= targets.len(),
            links_among(texts(targets@).take(i as int)).len() == 0,
        decreases targets.len() - i,
    {
        proof {
            lemma_links_step(texts(targets@), i as int);
        }
        match Url::parse(targets[i].as_str()) {
            Ok(url) => {
                proof {
                    let all = texts(targets@);
                    lemma_links_concat(all.take(i + 1), all.skip(i + 1));
                    assert(all.take(i + 1) + all.skip(i + 1) == all);
                    assert(links_among(all)[0] == url@);
                }
                return Some(url);
            },
            Err(_) => {},
        }
        i += 1;
    }
    assert(texts(targets@).take(targets.len() as int) == texts(targets@));
    None
}

/// Targets of which none parses stay without a link when one more that does
/// not parse joins them.
proof fn lemma_no_link_yet(passed: Seq<Seq<char>>, target: Seq<char>)
    requires
        links_among(passed).len() == 0,
        parsed_url(target) is Err,
    ensures
        links_among(passed.push(target)).len() == 0,
{
    assert(passed.push(target).drop_last() == passed);
}

/// Where none of the targets passed parses and the next one does, its
/// canonical form is the first link of the whole.
proof fn lemma_first_link(
    passed: Seq<Seq<char>>,
    target: Seq<char>,
    rest: Seq<Seq<char>>,
    form: Seq<char>,
)
    requires
        links_among(passed).len() == 0,
        parsed_url(target) == Ok::<Seq<char>, Seq<char>>(form),
    ensures
        first_of(links_among((passed + seq![target]) + rest)) == Some(form),
{
    let head = passed + seq![target];
    assert(head.drop_last() == passed);
    assert(head.last() == target);
    assert(links_among(head) == links_among(passed).push(form));
    lemma_links_concat(head, rest);
    assert(links_among(head + rest)[0] == form);
}

/// The first link of a parsed page in document order, if it has any. The
/// walk ends at the first anchor whose target parses.
pub fn first_link_in(nodes: &Vec<TreeNode>) -> (first: Option<Url>)
    ensures
        match first {
            Some(url) => first_of(links_among(targets_of(models(nodes@)))) == Some(url@),
            None => first_of(links_among(targets_of(models(nodes@)))) is None,
        },
{
    let anchor = "a".to_owned();
    let href = "href".to_owned();
    let mut stack: Vec<&TreeNode> = Vec::new();
    let ghost mut passed: Seq<Seq<char>> = Seq::empty();
    assert(in_turn(stack@) == Seq::<TreeNode>::empty());
    push_in_turn(&mut stack, nodes);
    assert(nodes@ + Seq::<TreeNode>::empty() == nodes@);
    assert(passed + targets_of(models(nodes@)) == targets_of(models(nodes@)));
    while stack.len() > 0
        invariant
            anchor@ == anchor_name(),
            href@ == href_name(),
            passed + targets_of(models(in_turn(stack@))) == targets_of(models(nodes@)),
            links_among(passed).len() == 0,
        decreases weight_of(in_turn(stack@)),
    {
        let ghost before = stack@;
        let ghost passed_before = passed;
        let node: &TreeNode = stack.pop().unwrap();
        let ghost rest = in_turn(stack@);
        assert(in_turn(before) =~= seq![*node] + rest);
        proof {
            lemma_targets_unfold(*node, rest);
            lemma_weight_unfold(*node, rest);
        }
        match node {
            TreeNode::Element(element) => {
                if element.name == anchor {
                    match element.attribute(&href) {
                        Some(Some(target)) => {
                            match Url::parse(target.as_str()) {
                                Ok(url) => {
                                    proof {
                                        let below = targets_of(models(element.children@ + rest));
                                        lemma_first_link(passed, target@, below, url@);
                                        assert((passed + seq![target@]) + below == passed + (
                                        seq![target@] + below));
                                    }
                                    return Some(url);
                                },
                                Err(_) => {
                                    proof {
                                        lemma_no_link_yet(passed, target@);
                                        passed = passed.push(target@);
                                        assert(passed == passed_before + seq![target@]);
                                    }
                                },
                            }
                        },
                        _ => {},
                    }
                }
                assert(passed == passed_before + own_target(node.model())) by {
                    assert(passed_before + Seq::<Seq<char>>::empty() == passed_before);
                }
                push_in_turn(&mut stack, &element.children);
                assert((passed_before + own_target(node.model())) + targets_of(
                    models(element.children@ + rest),
                ) == passed_before + (own_target(node.model()) + targets_of(
                    models(element.children@ + rest),
                )));
            },
            _ => {},
        }
    }
    assert(in_turn(stack@) == Seq::<TreeNode>::empty());
    assert(models(Seq::<TreeNode>::empty()) == Seq::<Markup>::empty());
    assert(passed + Seq::<Seq<char>>::empty() == passed);
    None
}

/// The canonical form of an optional URL.
pub open spec fn form_of(url: Option<Url>) -> Option<Seq<char>> {
    match url {
        Some(url) => Some(url@),
        None => None,
    }
}

/// The links of a page: its text is parsed, and the URLs that its anchors
/// point to come back in document order. The only failure is markup that the
/// parser gives up on. Whatever tree the parser built, the links are exactly
/// those of that tree: `links_in` says so of any tree.
pub fn extract_links(text: &str) -> (out: Result<Vec<Url>, MarkupError>)
    ensures
        out matches Ok(links) ==> exists|nodes: Seq<TreeNode>|
            forms(links@) == links_among(targets_of(#[trigger] models(nodes))),
{
    match parse_document(text) {
        Ok(nodes) => {
            let links = links_in(&nodes);
            assert(forms(links@) == links_among(targets_of(models(nodes@))));
            Ok(links)
        },
        Err(error) => Err(error),
    }
}

/// The first link of a page in document order, if it has any. Whatever tree
/// the parser built, the link is exactly the first of that tree:
/// `first_link_in` says so of any tree.
pub fn first_link(text: &str) -> (out: Result<Option<Url>, MarkupError>)
    ensures
        out matches Ok(first) ==> exists|nodes: Seq<TreeNode>|
            form_of(first) == first_of(links_among(targets_of(#[trigger] models(nodes)))),
{
    match parse_document(text) {
        Ok(nodes) => {
            let first = first_link_in(&nodes);
            assert(form_of(first) == first_of(links_among(targets_of(models(nodes@)))));
            Ok(first)
        },
        Err(error) => Err(error),
    }
}

} // verus!
