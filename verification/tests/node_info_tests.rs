use content_density::dom::DomNode;
use content_density::node_info::{
    checked_node_info, find_body, get_node_info_from_reqwest_result, get_punctuation_num,
    get_tree_sd_vec, is_container_tag, locate_body, node_info_of_page, NodeInfo, NodeTypeEnum,
    PageError, Ratio,
};

fn el(name: &str, children: Vec<DomNode>) -> DomNode {
    DomNode::element(name.to_string(), children)
}

fn txt(s: &str) -> DomNode {
    DomNode::text(s.to_string())
}

fn ratio(n: i64, d: i64) -> Ratio {
    Ratio { numerator: n, denominator: d }
}

/// body > div > [ "Hello world.", p > "Some text, here!", a > "click" ]
fn sample_body() -> DomNode {
    el(
        "body",
        vec![el(
            "div",
            vec![txt("Hello world."), el("p", vec![txt("Some text, here!")]), el("a", vec![txt("click")])],
        )],
    )
}

fn sample_document() -> DomNode {
    DomNode::other(vec![el("html", vec![el("head", vec![el("title", vec![txt("T")])]), sample_body()])])
}

fn tagged(name: &str) -> NodeInfo {
    let mut n = NodeInfo::new();
    n.set_tag_name(name.to_string());
    n
}

#[test]
fn new_node_is_empty() {
    let n = NodeInfo::new();
    assert_eq!(n.tag_num, 0);
    assert_eq!(n.text_length, 0);
    assert_eq!(n.punctuation_num, 0);
    assert_eq!(n.td, ratio(0, 1));
    assert_eq!(n.sbd, ratio(0, 1));
    assert_eq!(n.node_type, NodeTypeEnum::Unknown);
    assert_eq!(n.tag_name, "");
    assert_eq!(n.text, "");
    assert!(n.children.is_empty());
}

#[test]
fn punctuation_list_has_the_listed_characters() {
    let list = NodeInfo::punctuation_list();
    assert_eq!(list.len(), 26);
    assert_eq!(list[0], '\u{FF01}');
    assert_eq!(list[13], '%');
    assert_eq!(list[25], '\'');
    assert!(list.contains(&'\u{3002}'));
    assert!(!list.contains(&','));
}

#[test]
fn punctuation_is_counted_per_character() {
    assert_eq!(get_punctuation_num(&"Hello, world! (test)".to_string()), 3);
    assert_eq!(get_punctuation_num(&"\u{4F60}\u{597D}\u{FF0C}\u{4E16}\u{754C}\u{3002}".to_string()), 2);
    assert_eq!(get_punctuation_num(&String::new()), 0);
    assert_eq!(get_punctuation_num(&"%%".to_string()), 2);
}

#[test]
fn set_node_text_info_counts_characters_and_punctuation() {
    let mut n = NodeInfo::new();
    n.set_node_text_info("\u{4F60}\u{597D}\u{3002}ok.".to_string());
    assert_eq!(n.text_length, 6);
    assert_eq!(n.punctuation_num, 2);
    assert_eq!(n.text, "\u{4F60}\u{597D}\u{3002}ok.");
}

#[test]
fn setters_set_their_field() {
    let mut n = NodeInfo::new();
    n.set_tag_num(3);
    n.set_text_length(40);
    n.set_link_tag_num(2);
    n.set_p_tag_num(5);
    n.set_text_tag_num(6);
    n.set_punctuation_num(7);
    n.set_direct_child_text_tag_num(8);
    n.set_direct_tag_num(9);
    n.set_link_tag_text_length(10);
    n.set_node_type(NodeTypeEnum::Element);
    n.set_td(ratio(3, 4));
    n.set_sbd(ratio(5, 6));
    assert_eq!(
        (n.tag_num, n.text_length, n.link_tag_num, n.p_tag_num, n.text_tag_num, n.punctuation_num),
        (3, 40, 2, 5, 6, 7)
    );
    assert_eq!((n.direct_child_text_tag_num, n.direct_tag_num, n.link_tag_text_length), (8, 9, 10));
    assert_eq!(n.node_type, NodeTypeEnum::Element);
    assert_eq!((n.td, n.sbd), (ratio(3, 4), ratio(5, 6)));
    n.add_child(tagged("x"));
    assert_eq!(n.children.len(), 1);
    assert_eq!(n.children[0].tag_name, "x");
}

#[test]
fn text_and_style_tags() {
    for t in ["p", "li", "code", "blockquote"] {
        assert!(tagged(t).is_text_tag());
    }
    for t in ["div", "a", "P", ""] {
        assert!(!tagged(t).is_text_tag());
    }
    assert!(tagged("strong").is_style_tag());
    assert!(tagged("font").is_style_tag());
    assert!(!tagged("b").is_style_tag());
}

#[test]
fn container_tags() {
    for t in ["p", "ul", "li", "code", "pre"] {
        assert!(!is_container_tag(&tagged(t)));
    }
    for t in ["div", "body", "blockquote", "span"] {
        assert!(is_container_tag(&tagged(t)));
    }
}

#[test]
fn validity_rules() {
    let mut t = NodeInfo::new();
    t.set_node_type(NodeTypeEnum::Text);
    assert!(!t.is_valid());
    t.set_text_length(3);
    assert!(t.is_valid());

    let mut e = tagged("div");
    e.set_node_type(NodeTypeEnum::Element);
    assert!(!e.is_valid());
    e.set_tag_num(1);
    assert!(e.is_valid());
    for bad in ["script", "style", "map", "form", "img", "input"] {
        let mut b = tagged(bad);
        b.set_node_type(NodeTypeEnum::Element);
        b.set_text_length(5);
        assert!(!b.is_valid());
    }
    let mut u = NodeInfo::new();
    u.set_text_length(5);
    assert!(!u.is_valid());
}

#[test]
fn text_tag_weight_leaves_out_the_node_itself() {
    let mut p = tagged("p");
    p.set_text_tag_num(3);
    assert_eq!(p.text_tag_weight(), 4);
    let mut d = tagged("div");
    d.set_text_tag_num(3);
    assert_eq!(d.text_tag_weight(), 5);
}

#[test]
fn body_statistics_of_sample_page() {
    let body = get_node_info_from_reqwest_result(&sample_body(), "html");
    assert_eq!(body.tag_name, "body");
    assert_eq!(body.node_type, NodeTypeEnum::Element);
    assert_eq!(
        (body.tag_num, body.text_length, body.link_tag_num, body.p_tag_num, body.text_tag_num),
        (4, 30, 1, 1, 1)
    );
    assert_eq!(
        (body.punctuation_num, body.direct_child_text_tag_num, body.direct_tag_num, body.link_tag_text_length),
        (2, 0, 1, 5)
    );
    assert_eq!(body.td, ratio(25, 3));
    assert_eq!(body.sbd, ratio(25, 3));
    assert_eq!(body.children.len(), 1);

    let div = &body.children[0];
    assert_eq!(
        (div.tag_num, div.text_length, div.link_tag_num, div.p_tag_num, div.text_tag_num),
        (3, 30, 1, 1, 1)
    );
    assert_eq!(
        (div.punctuation_num, div.direct_child_text_tag_num, div.direct_tag_num, div.link_tag_text_length),
        (2, 2, 3, 5)
    );
    assert_eq!(div.td, ratio(25, 2));
    assert_eq!(div.sbd, ratio(25, 3));
    assert_eq!(div.children.len(), 3);
}

#[test]
fn text_in_a_div_becomes_a_paragraph() {
    let body = get_node_info_from_reqwest_result(&sample_body(), "html");
    let patched = &body.children[0].children[0];
    assert_eq!(patched.tag_name, "p");
    assert_eq!(patched.node_type, NodeTypeEnum::Element);
    assert_eq!(patched.text, "Helloworld.");
    assert_eq!((patched.text_length, patched.punctuation_num), (11, 1));
    assert_eq!((patched.tag_num, patched.p_tag_num, patched.text_tag_num, patched.direct_tag_num), (0, 0, 0, 0));
    assert_eq!(patched.td, ratio(11, 1));
    assert_eq!(patched.sbd, ratio(0, 1));
    assert!(patched.children.is_empty());
}

#[test]
fn paragraph_and_link_statistics() {
    let body = get_node_info_from_reqwest_result(&sample_body(), "html");
    let p = &body.children[0].children[1];
    assert_eq!((p.tag_num, p.text_length, p.p_tag_num, p.text_tag_num, p.punctuation_num), (0, 14, 1, 1, 1));
    assert_eq!(p.td, ratio(0, 1));
    assert_eq!(p.sbd, ratio(14, 2));
    let text = &p.children[0];
    assert_eq!(text.node_type, NodeTypeEnum::Text);
    assert_eq!(text.text, "Sometext,here!");
    assert_eq!(text.sbd, ratio(14, 2));

    let a = &body.children[0].children[2];
    assert_eq!((a.link_tag_num, a.link_tag_text_length, a.text_length), (1, 5, 5));
    assert_eq!(a.td, ratio(0, 1));
    assert_eq!(a.sbd, ratio(0, 1));
}

#[test]
fn counts_are_sums_over_kept_children() {
    let body = get_node_info_from_reqwest_result(&sample_body(), "html");
    let div = &body.children[0];
    let text_sum: i32 = div.children.iter().map(|c| c.text_length).sum();
    assert_eq!(div.text_length, text_sum);
    let punct_sum: i16 = div.children.iter().map(|c| c.punctuation_num).sum();
    assert_eq!(div.punctuation_num, punct_sum);
    assert_eq!(div.direct_tag_num as usize, div.children.len());
    assert!(div.children.iter().all(|c| c.is_valid()));
}

#[test]
fn invalid_children_are_dropped() {
    let dom = el(
        "div",
        vec![
            el("script", vec![txt("var x = 1;")]),
            el("span", vec![]),
            txt("   "),
            el("b", vec![txt("kept")]),
        ],
    );
    let info = get_node_info_from_reqwest_result(&dom, "body");
    assert_eq!(info.children.len(), 1);
    assert_eq!(info.children[0].tag_name, "b");
    assert_eq!(info.text_length, 4);
    assert_eq!(info.tag_num, 1);
}

#[test]
fn style_tags_add_no_element() {
    let dom = el("div", vec![el("strong", vec![txt("bold")]), el("em", vec![txt("it")])]);
    let info = get_node_info_from_reqwest_result(&dom, "body");
    assert_eq!(info.tag_num, 1);
    assert_eq!(info.direct_tag_num, 2);
}

#[test]
fn punctuation_overflow_is_reported() {
    let many = ".".repeat(40000);
    let dom = el("p", vec![txt(&many)]);
    assert!(checked_node_info(&dom, "body").is_none());
    let fine = el("p", vec![txt(&".".repeat(100))]);
    assert_eq!(checked_node_info(&fine, "body").unwrap().punctuation_num, 100);
}

#[test]
fn element_count_overflow_is_reported() {
    let kids: Vec<DomNode> = (0..32768).map(|_| el("b", vec![txt("x")])).collect();
    let dom = el("div", kids);
    assert!(checked_node_info(&dom, "body").is_none());
}

#[test]
fn find_body_finds_the_first_body() {
    let info = find_body(&sample_document()).unwrap();
    assert_eq!(info.tag_name, "body");
    assert_eq!(info.text_length, 30);
    let none = DomNode::other(vec![el("html", vec![el("head", vec![])])]);
    assert!(find_body(&none).is_none());
}

#[test]
fn locate_body_reports_the_parent_tag() {
    let doc = sample_document();
    let (body, parent) = locate_body(&doc, "").unwrap();
    assert_eq!(parent, "html");
    assert_eq!(body.children.len(), 1);
}

#[test]
fn tree_densities_in_document_order() {
    let body = get_node_info_from_reqwest_result(&sample_body(), "html");
    let mut sd = vec![ratio(7, 7)];
    get_tree_sd_vec(&body, &mut sd);
    assert_eq!(
        sd,
        vec![ratio(7, 7), ratio(25, 2), ratio(11, 1), ratio(0, 1), ratio(0, 1), ratio(0, 1), ratio(0, 1)]
    );
}

fn all_nodes<'a>(n: &'a NodeInfo, out: &mut Vec<&'a NodeInfo>) {
    out.push(n);
    for c in n.children.iter() {
        all_nodes(c, out);
    }
}

#[test]
fn counts_are_never_negative_and_densities_never_divide_by_zero() {
    let body = get_node_info_from_reqwest_result(&sample_body(), "html");
    let mut nodes = Vec::new();
    all_nodes(&body, &mut nodes);
    assert_eq!(nodes.len(), 7);
    for n in nodes {
        assert!(n.tag_num >= 0 && n.link_tag_num >= 0 && n.p_tag_num >= 0 && n.text_tag_num >= 0);
        assert!(n.punctuation_num >= 0 && n.direct_child_text_tag_num >= 0 && n.direct_tag_num >= 0);
        assert!(n.td.denominator != 0);
        assert!(n.sbd.denominator >= 1);
    }
}

#[test]
fn punctuation_never_exceeds_length() {
    let s = "!!..??".to_string();
    assert_eq!(get_punctuation_num(&s) as usize, s.chars().count());
}

#[test]
fn link_text_is_counted_inside_links() {
    let dom = el("div", vec![el("a", vec![txt("one two")]), el("span", vec![txt("three")])]);
    let info = get_node_info_from_reqwest_result(&dom, "body");
    assert_eq!(info.link_tag_text_length, 6);
    assert_eq!(info.text_length, 11);
    assert_eq!(info.tag_num, 2);
    assert_eq!(info.link_tag_num, 1);
    assert_eq!(info.td, ratio(5, 1));
    assert_eq!(info.sbd, ratio(5, 1));
}

const SAMPLE_PAGE: &str = "<html><head><title>T</title></head><body><div>Hello world.<p>Some text, here!</p><a>click</a></div></body></html>";

#[test]
fn page_text_is_parsed_and_counted() {
    let body = node_info_of_page(SAMPLE_PAGE).unwrap();
    assert_eq!(body.tag_name, "body");
    assert_eq!((body.tag_num, body.text_length, body.link_tag_num, body.p_tag_num), (4, 30, 1, 1));
    assert_eq!(body.td, ratio(25, 3));
    assert_eq!(body.children[0].tag_name, "div");
    assert_eq!(body.children[0].children[0].text, "Helloworld.");
}

#[test]
fn page_without_body_text_still_has_a_body() {
    let body = node_info_of_page("<p>x</p>").unwrap();
    assert_eq!(body.tag_name, "body");
    assert_eq!(body.text_length, 1);
}

#[test]
fn page_count_overflow_is_reported() {
    let html = format!("<body><p>{}</p></body>", ".".repeat(40000));
    assert_eq!(node_info_of_page(&html).err(), Some(PageError::CountOverflow));
}

#[test]
fn find_body_accepts_a_body_node() {
    let info = find_body(&sample_body()).unwrap();
    assert_eq!(info.tag_name, "body");
    assert_eq!(info.text_length, 30);
}

#[test]
fn text_tag_children_are_counted() {
    let dom = el("div", vec![el("p", vec![txt("a")]), el("li", vec![txt("b")]), el("span", vec![txt("c")])]);
    let info = get_node_info_from_reqwest_result(&dom, "body");
    let count = info.children.iter().filter(|c| c.is_text_tag()).count();
    assert_eq!(info.direct_child_text_tag_num as usize, count);
    assert_eq!(count, 2);
    assert_eq!(info.text_tag_num, 2);
    assert_eq!(info.p_tag_num, 1);
}

#[test]
fn every_node_below_is_valid() {
    let dom = el(
        "div",
        vec![el("section", vec![el("span", vec![]), el("b", vec![txt("x"), el("img", vec![txt("y")])])])],
    );
    let info = get_node_info_from_reqwest_result(&dom, "body");
    let mut nodes = Vec::new();
    all_nodes(&info, &mut nodes);
    assert_eq!(nodes.len(), 4);
    assert!(nodes[1..].iter().all(|n| n.is_valid()));
}

#[test]
fn punctuation_of_joined_text_adds_up() {
    let a = "a.b!".to_string();
    let b = "\u{3002}c?".to_string();
    let ab = format!("{}{}", a, b);
    assert_eq!(get_punctuation_num(&ab), get_punctuation_num(&a) + get_punctuation_num(&b));
}
