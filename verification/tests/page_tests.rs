use content_density::dom::DomNode;
use content_density::node_info::{NodeInfo, NodeTypeEnum, Ratio};
use content_density::page::{body_infos_of_page, checked_get_node_info, find_body, get_node_info, is_valid, p_tag_weight};

fn el(name: &str, children: Vec<DomNode>) -> DomNode {
    DomNode::element(name.to_string(), children)
}

fn txt(s: &str) -> DomNode {
    DomNode::text(s.to_string())
}

fn sample_body() -> DomNode {
    el(
        "body",
        vec![el(
            "div",
            vec![txt("Hello world."), el("p", vec![txt("Some text, here!")]), el("a", vec![txt("click")])],
        )],
    )
}

#[test]
fn page_statistics_use_integer_density() {
    let body = get_node_info(&sample_body());
    assert_eq!((body.tag_num, body.text_length, body.link_tag_num, body.p_tag_num), (3, 30, 1, 1));
    assert_eq!(body.link_tag_text_length, 5);
    assert_eq!(body.td, Ratio { numerator: 12, denominator: 1 });
    let div = &body.children[0];
    assert_eq!(div.tag_num, 2);
    assert_eq!(div.td, Ratio { numerator: 25, denominator: 1 });
    assert_eq!(div.children.len(), 3);
    assert_eq!(div.children[0].node_type, NodeTypeEnum::Text);
    assert_eq!(div.children[0].td, Ratio { numerator: 0, denominator: 1 });
    assert_eq!(div.punctuation_num, 0);
}

#[test]
fn page_density_without_divisor_is_the_text_itself() {
    let info = get_node_info(&el("span", vec![txt("abc def")]));
    assert_eq!(info.td, Ratio { numerator: 6, denominator: 1 });
}

#[test]
fn page_keeps_input_elements() {
    let mut n = NodeInfo::new();
    n.set_tag_name("input".to_string());
    n.set_node_type(NodeTypeEnum::Element);
    n.set_tag_num(1);
    assert!(is_valid(&n));
    n.set_tag_name("img".to_string());
    assert!(!is_valid(&n));
}

#[test]
fn page_overflow_is_reported() {
    let kids: Vec<DomNode> = (0..32768).map(|_| el("b", vec![txt("x")])).collect();
    assert!(checked_get_node_info(&el("div", kids)).is_none());
}

#[test]
fn page_bodies_in_document_order() {
    let doc = DomNode::other(vec![
        el("html", vec![el("body", vec![txt("one")])]),
        el("frame", vec![el("body", vec![el("body", vec![txt("inner")])])]),
    ]);
    let (found, bodies) = find_body(&doc);
    assert!(!found);
    assert_eq!(bodies.len(), 2);
    assert_eq!(bodies[0].children.len(), 1);
    let (found_root, only) = find_body(&bodies[1]);
    assert!(found_root);
    assert_eq!(only.len(), 1);
}

#[test]
fn p_weight_leaves_out_the_paragraph_itself() {
    let mut p = NodeInfo::new();
    p.set_tag_name("p".to_string());
    p.set_p_tag_num(4);
    assert_eq!(p_tag_weight(&p), 5);
    let mut d = NodeInfo::new();
    d.set_p_tag_num(4);
    assert_eq!(p_tag_weight(&d), 6);
}

#[test]
fn page_density_is_whole_and_text_adds_up() {
    let body = get_node_info(&sample_body());
    let div = &body.children[0];
    let sum: i32 = div.children.iter().map(|c| c.text_length).sum();
    assert_eq!(div.text_length, sum);
    assert_eq!(body.td.denominator, 1);
    assert_eq!(div.td.denominator, 1);
}

#[test]
fn page_bodies_are_parsed_and_counted() {
    let (found, infos) = body_infos_of_page(
        "<html><body><div>Hello world.<p>Some text, here!</p><a>click</a></div></body></html>",
    );
    assert!(!found);
    assert_eq!(infos.len(), 1);
    let body = infos[0].as_ref().unwrap();
    assert_eq!(body.td, Ratio { numerator: 12, denominator: 1 });
    assert_eq!(body.text_length, 30);
}

#[test]
fn page_keeps_valid_children_in_order() {
    let dom = el("div", vec![el("img", vec![txt("a")]), el("b", vec![txt("bb")]), txt(" "), el("i", vec![txt("c")])]);
    let info = get_node_info(&dom);
    let tags: Vec<&str> = info.children.iter().map(|c| c.tag_name.as_str()).collect();
    assert_eq!(tags, vec!["b", "i"]);
    assert!(info.children.iter().all(|c| is_valid(c)));
    assert_eq!(info.tag_num, 2);
}
