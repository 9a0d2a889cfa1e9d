//! The page reader's own rules: the statistics it keeps for a node (no
//! punctuation, no text elements, an integer text density recomputed at
//! every kept child) and the `body` elements it handles.
use vstd::prelude::*;
use vstd::string::StringExecFns;

use crate::dom::{parse_page, parsed_document, DomData, DomNode};
use crate::node_info::{
    fits16, fits_i16, fits_i32, fresh_view, is_body, option_view, NodeInfo, NodeInfoView,
    NodeTypeEnum, Ratio,
};
use crate::string::{remove_blank, without_blanks};

verus! {

/// Tags whose content the page reader never counts.
pub open spec fn page_excluded_tag_name(t: Seq<char>) -> bool {
    t == "script"@ || t == "style"@ || t == "map"@ || t == "form"@ || t == "img"@
}

/// Whether the page reader keeps a node as a child: a text node with
/// some text, or an element with an element or text below it, whose tag
/// is not excluded.
pub open spec fn page_is_valid(m: NodeInfoView) -> bool {
    match m.node_type {
        NodeTypeEnum::Text => m.text_length != 0 && !page_excluded_tag_name(m.tag_name),
        NodeTypeEnum::Element => !(m.tag_num == 0 && m.text_length == 0)
            && !page_excluded_tag_name(m.tag_name),
        NodeTypeEnum::Unknown => false,
    }
}

/// The value the page reader gives a node from its own data: an element
/// by its tag, with one link if it is an `a` and one paragraph if it is a
/// `p`; a text node by its text without blanks and that text's length.
pub open spec fn page_own_view(d: DomNode) -> NodeInfoView {
    match d.data {
        DomData::Element { name } => NodeInfoView {
            tag_name: name@,
            node_type: NodeTypeEnum::Element,
            link_tag_num: if name@ == "a"@ { 1 } else { 0 },
            p_tag_num: if name@ == "p"@ { 1 } else { 0 },
            ..fresh_view()
        },
        DomData::Text { contents } => {
            let text = without_blanks(contents@);
            NodeInfoView {
                node_type: NodeTypeEnum::Text,
                text_length: text.len() as i32,
                text,
                ..fresh_view()
            }
        },
        DomData::Other => fresh_view(),
    }
}

/// The value of a node after the page reader counts the kept child `c`
/// in it, the text density recomputed as the integer quotient (rounded
/// toward zero) of its text outside links by its elements that are not
/// links, or the text outside links itself when that divisor is zero;
/// `None` when a count overflows its integer type.
pub open spec fn page_absorb_child(m: NodeInfoView, c: NodeInfoView) -> Option<NodeInfoView> {
    let tag_sum = m.tag_num + c.tag_num;
    let tag_num = if c.node_type == NodeTypeEnum::Element {
        tag_sum + 1
    } else {
        tag_sum
    };
    let text_length = m.text_length + c.text_length;
    let link_tag_num = m.link_tag_num + c.link_tag_num;
    let p_tag_num = m.p_tag_num + c.p_tag_num;
    let is_link = m.tag_name == "a"@;
    let link_text_sum = m.link_tag_text_length + c.link_tag_text_length;
    let link_text = if is_link {
        (text_length as i32) as i16 as int
    } else {
        link_text_sum
    };
    let links = if is_link {
        link_tag_num - 1
    } else {
        link_tag_num
    };
    let divided = tag_num - links;
    let net = text_length - link_text;
    if fits_i16(tag_sum) && fits_i16(tag_num) && fits_i32(text_length) && fits_i16(link_tag_num)
        && fits_i16(p_tag_num) && fits_i16(link_text) && fits_i16(links) && fits_i32(net) && (
    divided == 0 || (net as i32).checked_div(divided as i32) is Some) {
        let td = if divided == 0 {
            net as i32
        } else {
            (net as i32).checked_div(divided as i32).unwrap()
        };
        Some(
            NodeInfoView {
                tag_num: tag_num as i16,
                text_length: text_length as i32,
                link_tag_num: link_tag_num as i16,
                p_tag_num: p_tag_num as i16,
                link_tag_text_length: link_text as i16,
                td: Ratio { numerator: td as i64, denominator: 1 },
                children: m.children.push(c),
                ..m
            },
        )
    } else {
        None
    }
}

/// The page reader's value of `d` after its first `k` children are counted.
pub open spec fn page_fold(d: DomNode, k: nat) -> Option<NodeInfoView>
    decreases d, k,
{
    if k == 0 || k > d.children@.len() {
        Some(page_own_view(d))
    } else {
        match page_fold(d, (k - 1) as nat) {
            None => None,
            Some(m) => match page_view(d.children@[k - 1]) {
                None => None,
                Some(c) => if page_is_valid(c) {
                    page_absorb_child(m, c)
                } else {
                    Some(m)
                },
            },
        }
    }
}

/// The page reader's statistics of the subtree rooted at `d`; `None`
/// exactly when a count overflows its integer type.
pub open spec fn page_view(d: DomNode) -> Option<NodeInfoView>
    decreases d, d.children@.len() + 1,
{
    page_fold(d, d.children@.len())
}

/// Once counting fails it stays failed.
pub proof fn lemma_page_fold_none(d: DomNode, k: nat, n: nat)
    requires
        k <= n <= d.children@.len(),
        page_fold(d, k) is None,
    ensures
        page_fold(d, n) is None,
    decreases n - k,
{
    if k < n {
        lemma_page_fold_none(d, k, (n - 1) as nat);
    }
}

/// Whether the page reader keeps `node` as a child.
pub fn is_valid(node: &NodeInfo) -> (valid: bool)
    ensures
        valid == page_is_valid(node@),
{
    let is_valid_tag = !(node.tag_is("script") || node.tag_is("style") || node.tag_is("map")
        || node.tag_is("form") || node.tag_is("img"));
    match node.node_type {
        NodeTypeEnum::Text => {
            if node.text_length == 0 {
                return false;
            }
        },
        NodeTypeEnum::Element => {
            if node.tag_num == 0 && node.text_length == 0 {
                return false;
            }
        },
        NodeTypeEnum::Unknown => {
            return false;
        },
    }
    is_valid_tag
}

/// The page reader's statistics of the subtree rooted at `handle`;
/// `None` exactly when a count overflows its integer type.
pub fn checked_get_node_info(handle: &DomNode) -> (res: Option<NodeInfo>)
    ensures
        option_view(res) == page_view(*handle),
    decreases handle,
{
    let mut info = NodeInfo::new();
    match &handle.data {
        DomData::Element { name } => {
            info.set_tag_name(name.clone());
            info.set_node_type(NodeTypeEnum::Element);
            if info.tag_is("a") {
                info.set_link_tag_num(1);
            }
            if info.tag_is("p") {
                info.set_p_tag_num(1);
            }
        },
        DomData::Text { contents } => {
            info.set_node_type(NodeTypeEnum::Text);
            let text = remove_blank(contents);
            info.set_text_length(text.as_str().unicode_len() as i32);
            info.text = text;
        },
        DomData::Other => {},
    }
    assert(info@ == page_own_view(*handle));
    let n = handle.children.len();
    let mut i: usize = 0;
    while i < n
        invariant
            n == handle.children@.len(),
            i <= n,
            page_fold(*handle, i as nat) == Some(info@),
        decreases n - i,
    {
        let child_info = match checked_get_node_info(&handle.children[i]) {
            Some(c) => c,
            None => {
                proof {
                    lemma_page_fold_none(*handle, (i + 1) as nat, n as nat);
                }
                return None;
            },
        };
        if is_valid(&child_info) {
            let tag_sum: i64 = info.tag_num as i64 + child_info.tag_num as i64;
            let tag_num: i64 = match child_info.node_type {
                NodeTypeEnum::Element => tag_sum + 1,
                _ => tag_sum,
            };
            let text_length: i64 = info.text_length as i64 + child_info.text_length as i64;
            let link_tag_num: i64 = info.link_tag_num as i64 + child_info.link_tag_num as i64;
            let p_tag_num: i64 = info.p_tag_num as i64 + child_info.p_tag_num as i64;
            let is_link = info.tag_is("a");
            let link_text_sum: i64 = info.link_tag_text_length as i64
                + child_info.link_tag_text_length as i64;
            let in_range = fits16(tag_sum) && fits16(tag_num) && i32::MIN as i64 <= text_length
                && text_length <= i32::MAX as i64 && fits16(link_tag_num) && fits16(p_tag_num);
            if !in_range {
                proof {
                    lemma_page_fold_none(*handle, (i + 1) as nat, n as nat);
                }
                return None;
            }
            let link_text: i64 = if is_link {
                (#[verifier::truncate] ((text_length as i32) as i16)) as i64
            } else {
                link_text_sum
            };
            let links: i64 = if is_link {
                link_tag_num - 1
            } else {
                link_tag_num
            };
            let divided: i64 = tag_num - links;
            let net: i64 = text_length - link_text;
            if !(fits16(link_text) && fits16(links) && i32::MIN as i64 <= net && net
                <= i32::MAX as i64) {
                proof {
                    lemma_page_fold_none(*handle, (i + 1) as nat, n as nat);
                }
                return None;
            }
            let td: i32 = if divided == 0 {
                net as i32
            } else {
                match (net as i32).checked_div(divided as i32) {
                    Some(q) => q,
                    None => {
                        proof {
                            lemma_page_fold_none(*handle, (i + 1) as nat, n as nat);
                        }
                        return None;
                    },
                }
            };
            info.set_tag_num(tag_num as i16);
            info.set_text_length(text_length as i32);
            info.set_link_tag_num(link_tag_num as i16);
            info.set_p_tag_num(p_tag_num as i16);
            info.set_link_tag_text_length(link_text as i16);
            info.set_td(Ratio { numerator: td as i64, denominator: 1 });
            info.add_child(child_info);
        }
        i += 1;
    }
    Some(info)
}

/// The page reader's statistics of the subtree rooted at `handle`.
pub fn get_node_info(handle: &DomNode) -> (info: NodeInfo)
    requires
        page_view(*handle) is Some,
    ensures
        page_view(*handle) == Some(info@),
{
    checked_get_node_info(handle).unwrap()
}

/// The `body` elements at or below `d` that lie in no other `body`, in
/// document order.
pub open spec fn page_bodies(d: DomNode) -> Seq<DomNode>
    decreases d, 0nat,
{
    if is_body(d) {
        seq![d]
    } else {
        page_bodies_among(d.children@, d.children@.len())
    }
}

/// The `body` elements in the first `k` trees of `s` that lie in no other
/// `body`, in document order.
pub open spec fn page_bodies_among(s: Seq<DomNode>, k: nat) -> Seq<DomNode>
    decreases s, k,
{
    if k == 0 || k > s.len() {
        Seq::empty()
    } else {
        page_bodies_among(s, (k - 1) as nat) + page_bodies(s[k - 1])
    }
}

/// Whether `handle` is a `body` element, and the `body` elements to
/// handle: those at or below `handle` that lie in no other `body`, in
/// document order.
pub fn find_body<'a>(handle: &'a DomNode) -> (r: (bool, Vec<&'a DomNode>))
    ensures
        r.0 == is_body(*handle),
        r.1@.len() == page_bodies(*handle).len(),
        forall|i: int| 0 <= i < r.1@.len() ==> *#[trigger] r.1@[i] == page_bodies(*handle)[i],
{
    let mut bodies: Vec<&'a DomNode> = Vec::new();
    let found = collect_bodies(handle, &mut bodies);
    assert forall|i: int| 0 <= i < bodies@.len() implies *#[trigger] bodies@[i] == page_bodies(
        *handle,
    )[i] by {
        assert(bodies@[0 + i] == bodies@[i]);
    }
    (found, bodies)
}

/// Appends to `bodies` the `body` elements at or below `handle` that lie
/// in no other `body`, in document order; answers whether `handle` is
/// itself a `body`.
fn collect_bodies<'a>(handle: &'a DomNode, bodies: &mut Vec<&'a DomNode>) -> (found: bool)
    ensures
        found == is_body(*handle),
        final(bodies)@.len() == old(bodies)@.len() + page_bodies(*handle).len(),
        forall|i: int|
            0 <= i < old(bodies)@.len() ==> #[trigger] final(bodies)@[i] == old(bodies)@[i],
        forall|i: int|
            0 <= i < page_bodies(*handle).len() ==> *#[trigger] final(bodies)@[old(
                bodies,
            )@.len() + i] == page_bodies(*handle)[i],
    decreases handle,
{
    let is_body_element = match &handle.data {
        DomData::Element { name } => *name == String::from_str("body"),
        _ => false,
    };
    if is_body_element {
        bodies.push(handle);
        return true;
    }
    let ghost start = bodies@;
    let n = handle.children.len();
    let mut i: usize = 0;
    while i < n
        invariant
            n == handle.children@.len(),
            i <= n,
            !is_body(*handle),
            bodies@.len() == start.len() + page_bodies_among(handle.children@, i as nat).len(),
            forall|j: int| 0 <= j < start.len() ==> #[trigger] bodies@[j] == start[j],
            forall|j: int|
                0 <= j < page_bodies_among(handle.children@, i as nat).len() ==> *#[trigger] bodies@[start.len() + j]
                    == page_bodies_among(handle.children@, i as nat)[j],
        decreases n - i,
    {
        let ghost before = bodies@;
        collect_bodies(&handle.children[i], bodies);
        proof {
            let prev = page_bodies_among(handle.children@, i as nat);
            let next = page_bodies_among(handle.children@, (i + 1) as nat);
            let here = page_bodies(handle.children@[i as int]);
            assert(next == prev + here);
            assert forall|j: int| 0 <= j < next.len() implies *#[trigger] bodies@[start.len() + j]
                == next[j] by {
                if j < prev.len() {
                    assert(bodies@[start.len() + j] == before[start.len() + j]);
                } else {
                    assert(bodies@[before.len() + (j - prev.len())] == bodies@[start.len() + j]);
                }
            }
        }
        i += 1;
    }
    false
}

/// The paragraphs at or below a node, the node itself not counted.
pub open spec fn adjusted_p_tag_num(m: NodeInfoView) -> int {
    if m.tag_name == "p"@ {
        m.p_tag_num - 1
    } else {
        m.p_tag_num as int
    }
}

/// The count that weighs the page reader's score of `node`: its
/// paragraphs, itself not counted, plus two.
pub fn p_tag_weight(node: &NodeInfo) -> (w: i16)
    requires
        fits_i16(adjusted_p_tag_num(node@)),
        fits_i16(adjusted_p_tag_num(node@) + 2),
    ensures
        w == adjusted_p_tag_num(node@) + 2,
{
    let p_tag_num = if node.tag_is("p") {
        node.p_tag_num - 1
    } else {
        node.p_tag_num
    };
    p_tag_num + 2
}

/// For the page `html` once html5ever has parsed it: whether the document
/// node is itself a `body`, and the page reader's statistics of each
/// `body` it handles (those in no other `body`, in document order), each
/// `None` when a count of it overflows its integer type.
pub fn body_infos_of_page(html: &str) -> (r: (bool, Vec<Option<NodeInfo>>))
    ensures
        r.0 == is_body(parsed_document(html@)),
        r.1@.len() == page_bodies(parsed_document(html@)).len(),
        forall|i: int|
            0 <= i < r.1@.len() ==> option_view(#[trigger] r.1@[i]) == page_view(
                page_bodies(parsed_document(html@))[i],
            ),
{
    let document = parse_page(html);
    let (found, bodies) = find_body(&document);
    let mut infos: Vec<Option<NodeInfo>> = Vec::new();
    let mut i: usize = 0;
    while i < bodies.len()
        invariant
            i <= bodies@.len(),
            bodies@.len() == page_bodies(document).len(),
            forall|j: int| 0 <= j < bodies@.len() ==> *#[trigger] bodies@[j] == page_bodies(document)[j],
            infos@.len() == i,
            forall|j: int|
                0 <= j < i ==> option_view(#[trigger] infos@[j]) == page_view(page_bodies(document)[j]),
        decreases bodies@.len() - i,
    {
        let info = checked_get_node_info(bodies[i]);
        infos.push(info);
        i += 1;
    }
    (found, infos)
}

} // verus!
