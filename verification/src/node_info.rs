//! Per-node text statistics of an HTML document and the rules that
//! derive them from the document tree.
use vstd::prelude::*;
use vstd::string::StringExecFns;

use crate::dom::{parse_page, parsed_document, tag_of, DomData, DomNode};
use crate::string::{remove_blank, without_blanks};

verus! {

/// What kind of document node a `NodeInfo` describes.
#[derive(Debug, Clone, Copy, PartialEq, Eq, Structural)]
pub enum NodeTypeEnum {
    Text,
    Element,
    Unknown,
}

/// An exact quotient of two integers, left unevaluated; a zero
/// denominator is kept as it is.
#[derive(Debug, Clone, Copy, PartialEq, Eq, Structural)]
pub struct Ratio {
    pub numerator: i64,
    pub denominator: i64,
}

impl Ratio {
    /// The quotient `0 / 1`.
    pub fn zero() -> (r: Ratio)
        ensures
            r == zero_ratio(),
    {
        Ratio { numerator: 0, denominator: 1 }
    }
}

/// The quotient `0 / 1`.
pub open spec fn zero_ratio() -> Ratio {
    Ratio { numerator: 0, denominator: 1 }
}

/// Statistics of one node of a page and of the subtree below it.
pub struct NodeInfo {
    /// Elements below the node, style tags (`strong`, `font`) left out.
    pub tag_num: i16,
    /// Characters of text below the node, blanks left out.
    pub text_length: i32,
    /// `a` elements at or below the node.
    pub link_tag_num: i16,
    /// `p` elements at or below the node.
    pub p_tag_num: i16,
    /// Text elements (`p`, `li`, `code`, `blockquote`) at or below the node.
    pub text_tag_num: i16,
    /// Punctuation characters in the text below the node.
    pub punctuation_num: i16,
    /// Children of the node that are text elements.
    pub direct_child_text_tag_num: i16,
    /// Children of the node that were kept.
    pub direct_tag_num: i16,
    /// Characters of text inside links below the node.
    pub link_tag_text_length: i16,
    /// Text density: text outside links per non-link element.
    pub td: Ratio,
    /// Symbol density: text outside links per punctuation character (plus one).
    pub sbd: Ratio,
    pub node_type: NodeTypeEnum,
    pub tag_name: String,
    pub text: String,
    pub children: Vec<NodeInfo>,
}

/// The mathematical value of a `NodeInfo`: its strings as character
/// sequences and its children as a sequence of values.
pub struct NodeInfoView {
    pub tag_num: i16,
    pub text_length: i32,
    pub link_tag_num: i16,
    pub p_tag_num: i16,
    pub text_tag_num: i16,
    pub punctuation_num: i16,
    pub direct_child_text_tag_num: i16,
    pub direct_tag_num: i16,
    pub link_tag_text_length: i16,
    pub td: Ratio,
    pub sbd: Ratio,
    pub node_type: NodeTypeEnum,
    pub tag_name: Seq<char>,
    pub text: Seq<char>,
    pub children: Seq<NodeInfoView>,
}

/// The value of a node.
pub open spec fn info_view(n: NodeInfo) -> NodeInfoView
    decreases n, 0nat,
{
    NodeInfoView {
        tag_num: n.tag_num,
        text_length: n.text_length,
        link_tag_num: n.link_tag_num,
        p_tag_num: n.p_tag_num,
        text_tag_num: n.text_tag_num,
        punctuation_num: n.punctuation_num,
        direct_child_text_tag_num: n.direct_child_text_tag_num,
        direct_tag_num: n.direct_tag_num,
        link_tag_text_length: n.link_tag_text_length,
        td: n.td,
        sbd: n.sbd,
        node_type: n.node_type,
        tag_name: n.tag_name@,
        text: n.text@,
        children: info_views(n.children@),
    }
}

/// The values of a sequence of nodes, in order.
pub open spec fn info_views(s: Seq<NodeInfo>) -> Seq<NodeInfoView>
    decreases s, 1nat,
{
    if s.len() == 0 {
        Seq::empty()
    } else {
        info_views(s.drop_last()).push(info_view(s.last()))
    }
}

impl View for NodeInfo {
    type V = NodeInfoView;

    open spec fn view(&self) -> NodeInfoView {
        info_view(*self)
    }
}

/// The value of an optional node.
pub open spec fn option_view(r: Option<NodeInfo>) -> Option<NodeInfoView> {
    match r {
        Some(n) => Some(n@),
        None => None,
    }
}

/// `info_views` keeps the length and maps each position.
pub proof fn lemma_info_views_index(s: Seq<NodeInfo>)
    ensures
        info_views(s).len() == s.len(),
        forall|i: int| 0 <= i < s.len() ==> #[trigger] info_views(s)[i] == info_view(s[i]),
    decreases s.len(),
{
    if s.len() > 0 {
        lemma_info_views_index(s.drop_last());
    }
}

/// The value of a freshly made node: all counts zero, both densities
/// `0 / 1`, kind unknown, no tag, no text, no children.
pub open spec fn fresh_view() -> NodeInfoView {
    NodeInfoView {
        tag_num: 0,
        text_length: 0,
        link_tag_num: 0,
        p_tag_num: 0,
        text_tag_num: 0,
        punctuation_num: 0,
        direct_child_text_tag_num: 0,
        direct_tag_num: 0,
        link_tag_text_length: 0,
        td: zero_ratio(),
        sbd: zero_ratio(),
        node_type: NodeTypeEnum::Unknown,
        tag_name: Seq::empty(),
        text: Seq::empty(),
        children: Seq::empty(),
    }
}

/// Tags whose content is running text.
pub open spec fn is_text_tag_name(t: Seq<char>) -> bool {
    t == "p"@ || t == "li"@ || t == "code"@ || t == "blockquote"@
}

/// Tags that only style their content.
pub open spec fn is_style_tag_name(t: Seq<char>) -> bool {
    t == "strong"@ || t == "font"@
}

/// Tags whose content never counts as page text.
pub open spec fn is_excluded_tag_name(t: Seq<char>) -> bool {
    t == "script"@ || t == "style"@ || t == "map"@ || t == "form"@ || t == "img"@ || t
        == "input"@
}

/// Tags that hold text directly rather than other blocks.
pub open spec fn is_container_tag_name(t: Seq<char>) -> bool {
    !(t == "p"@ || t == "ul"@ || t == "li"@ || t == "code"@ || t == "pre"@)
}

/// Whether a node is kept as a child of its parent: a text node with
/// some text, or an element with some element or text below it, whose
/// tag is not an excluded one.
pub open spec fn view_is_valid(m: NodeInfoView) -> bool {
    match m.node_type {
        NodeTypeEnum::Text => m.text_length != 0 && !is_excluded_tag_name(m.tag_name),
        NodeTypeEnum::Element => !(m.tag_num == 0 && m.text_length == 0)
            && !is_excluded_tag_name(m.tag_name),
        NodeTypeEnum::Unknown => false,
    }
}

/// The characters counted as punctuation, in the order of the list.
pub open spec fn punctuation_seq() -> Seq<char> {
    seq![
        '\u{FF01}', '\u{FF0C}', '\u{3002}', '\u{FF1F}', '\u{3001}', '\u{FF1B}', '\u{FF1A}',
        '\u{201C}', '\u{201D}', '\u{2018}', '\u{2019}', '\u{300A}', '\u{300B}', '%',
        '\u{FF08}', '\u{FF09}', '.', '?', ':', ';', '"', '!', '%', '(', ')', '\'',
    ]
}

/// Number of characters of `s` that are punctuation.
pub open spec fn punctuation_count(s: Seq<char>) -> nat
    decreases s.len(),
{
    if s.len() == 0 {
        0
    } else if punctuation_seq().contains(s.last()) {
        punctuation_count(s.drop_last()) + 1
    } else {
        punctuation_count(s.drop_last())
    }
}

/// A node's value after its text is set to `text`: the text, its length
/// in characters (as an `i32`) and its punctuation count.
pub open spec fn with_text(m: NodeInfoView, text: Seq<char>) -> NodeInfoView {
    NodeInfoView {
        text_length: text.len() as i32,
        punctuation_num: punctuation_count(text) as i16,
        text,
        ..m
    }
}

/// The text elements at or below a node, the node itself not counted.
pub open spec fn adjusted_text_tag_num(m: NodeInfoView) -> int {
    if is_text_tag_name(m.tag_name) {
        m.text_tag_num - 1
    } else {
        m.text_tag_num as int
    }
}

/// Whether `x` fits in an `i16`.
pub open spec fn fits_i16(x: int) -> bool {
    i16::MIN <= x <= i16::MAX
}

/// Whether `x` fits in an `i32`.
pub open spec fn fits_i32(x: int) -> bool {
    i32::MIN <= x <= i32::MAX
}

/// The value of an element node before its children are counted: its
/// tag, one link if it is an `a`, one paragraph if it is a `p`, one text
/// element if it is a text tag.
pub open spec fn element_view(name: Seq<char>) -> NodeInfoView {
    NodeInfoView {
        tag_name: name,
        node_type: NodeTypeEnum::Element,
        link_tag_num: if name == "a"@ { 1 } else { 0 },
        p_tag_num: if name == "p"@ { 1 } else { 0 },
        text_tag_num: if is_text_tag_name(name) { 1 } else { 0 },
        ..fresh_view()
    }
}

/// Whether `d` is text that stands directly in a `div`; such text is
/// counted as a paragraph of its own.
pub open spec fn is_patched_text(d: DomNode, parent_tag: Seq<char>) -> bool {
    d.data is Text && parent_tag == "div"@
}

/// The value of a node from its own data, before its children are
/// counted; `None` when its punctuation count does not fit in an `i16`.
pub open spec fn own_view(d: DomNode, parent_tag: Seq<char>) -> Option<NodeInfoView> {
    match d.data {
        DomData::Element { name } => Some(element_view(name@)),
        DomData::Text { contents } => {
            let text = without_blanks(contents@);
            if punctuation_count(text) > i16::MAX {
                None
            } else if parent_tag == "div"@ {
                Some(
                    with_text(
                        NodeInfoView {
                            tag_name: "p"@,
                            node_type: NodeTypeEnum::Element,
                            p_tag_num: 1,
                            text_tag_num: 1,
                            ..fresh_view()
                        },
                        text,
                    ),
                )
            } else {
                Some(with_text(NodeInfoView { node_type: NodeTypeEnum::Text, ..fresh_view() }, text))
            }
        },
        DomData::Other => Some(fresh_view()),
    }
}

/// The value of a paragraph made of text in a `div`: no elements, links,
/// paragraphs or text elements below it, no link text, no kept children,
/// and a text density of its text length over one.
pub open spec fn patched_view(m: NodeInfoView) -> NodeInfoView {
    NodeInfoView {
        tag_num: 0,
        link_tag_num: 0,
        p_tag_num: 0,
        text_tag_num: 0,
        link_tag_text_length: 0,
        direct_tag_num: 0,
        td: Ratio { numerator: m.text_length as i64, denominator: 1 },
        ..m
    }
}

/// The value of a node after the kept child `c` is counted in it; `None`
/// when a count overflows its integer type.
pub open spec fn absorb_child(m: NodeInfoView, c: NodeInfoView) -> Option<NodeInfoView> {
    let tag_sum = m.tag_num + c.tag_num;
    let tag_num = if c.node_type == NodeTypeEnum::Element && !is_style_tag_name(c.tag_name) {
        tag_sum + 1
    } else {
        tag_sum
    };
    let text_length = m.text_length + c.text_length;
    let link_tag_num = m.link_tag_num + c.link_tag_num;
    let p_tag_num = m.p_tag_num + c.p_tag_num;
    let direct_child_text_tag_num = if is_text_tag_name(c.tag_name) {
        m.direct_child_text_tag_num + 1
    } else {
        m.direct_child_text_tag_num as int
    };
    let text_tag_num = m.text_tag_num + c.text_tag_num;
    let punctuation_num = m.punctuation_num + c.punctuation_num;
    let direct_tag_num = m.direct_tag_num + 1;
    let is_link = m.tag_name == "a"@;
    let link_text_sum = m.link_tag_text_length + c.link_tag_text_length;
    if fits_i16(tag_sum) && fits_i16(tag_num) && fits_i32(text_length) && fits_i16(link_tag_num)
        && fits_i16(p_tag_num) && fits_i16(direct_child_text_tag_num) && fits_i16(text_tag_num)
        && fits_i16(punctuation_num) && fits_i16(direct_tag_num) && (is_link || fits_i16(
        link_text_sum,
    )) {
        Some(
            NodeInfoView {
                tag_num: tag_num as i16,
                text_length: text_length as i32,
                link_tag_num: link_tag_num as i16,
                p_tag_num: p_tag_num as i16,
                direct_child_text_tag_num: direct_child_text_tag_num as i16,
                text_tag_num: text_tag_num as i16,
                punctuation_num: punctuation_num as i16,
                direct_tag_num: direct_tag_num as i16,
                link_tag_text_length: if is_link {
                    (text_length as i32) as i16
                } else {
                    link_text_sum as i16
                },
                children: m.children.push(c),
                ..m
            },
        )
    } else {
        None
    }
}

/// The value of a node once all its children are counted: the text
/// density is its text outside links over its elements that are not
/// links (`0 / 1` when there are none), the symbol density its text
/// outside links over its punctuation count plus one; `None` when the
/// link count of an `a` cannot be lowered by one.
pub open spec fn finish_view(m: NodeInfoView) -> Option<NodeInfoView> {
    let is_link = m.tag_name == "a"@;
    if is_link && !fits_i16(m.link_tag_num - 1) {
        None
    } else {
        let links = if is_link { m.link_tag_num - 1 } else { m.link_tag_num as int };
        let divided = m.tag_num - links;
        let net = m.text_length - m.link_tag_text_length;
        Some(
            NodeInfoView {
                td: if divided == 0 {
                    zero_ratio()
                } else {
                    Ratio { numerator: net as i64, denominator: divided as i64 }
                },
                sbd: Ratio { numerator: net as i64, denominator: (m.punctuation_num + 1) as i64 },
                ..m
            },
        )
    }
}

/// The value of `d` after its first `k` children are counted.
pub open spec fn fold_children(d: DomNode, parent_tag: Seq<char>, k: nat) -> Option<
    NodeInfoView,
>
    decreases d, k,
{
    if k == 0 || k > d.children@.len() {
        own_view(d, parent_tag)
    } else {
        match fold_children(d, parent_tag, (k - 1) as nat) {
            None => None,
            Some(m) => match node_view(d.children@[k - 1], tag_of(d)) {
                None => None,
                Some(c) => if view_is_valid(c) {
                    absorb_child(m, c)
                } else {
                    Some(m)
                },
            },
        }
    }
}

/// The statistics of the subtree rooted at `d`, whose parent has the tag
/// `parent_tag`; `None` exactly when a count overflows its integer type.
pub open spec fn node_view(d: DomNode, parent_tag: Seq<char>) -> Option<NodeInfoView>
    decreases d, d.children@.len() + 1,
{
    if is_patched_text(d, parent_tag) {
        match own_view(d, parent_tag) {
            None => None,
            Some(m) => Some(patched_view(m)),
        }
    } else {
        match fold_children(d, parent_tag, d.children@.len()) {
            None => None,
            Some(m) => finish_view(m),
        }
    }
}

/// Once counting fails it stays failed.
pub proof fn lemma_fold_none(d: DomNode, parent_tag: Seq<char>, k: nat, n: nat)
    requires
        k <= n <= d.children@.len(),
        fold_children(d, parent_tag, k) is None,
    ensures
        fold_children(d, parent_tag, n) is None,
    decreases n - k,
{
    if k < n {
        lemma_fold_none(d, parent_tag, k, (n - 1) as nat);
    }
}

/// Whether `c` is in `list`.
fn list_contains(list: &Vec<char>, c: char) -> (r: bool)
    ensures
        r == list@.contains(c),
{
    let mut i: usize = 0;
    while i < list.len()
        invariant
            i <= list.len(),
            forall|j: int| 0 <= j < i ==> list@[j] != c,
        decreases list.len() - i,
    {
        if list[i] == c {
            return true;
        }
        i += 1;
    }
    false
}

/// Counts the punctuation characters of `txt`; `None` when the count
/// does not fit in an `i16`.
fn checked_punctuation_num(txt: &String) -> (r: Option<i16>)
    ensures
        match r {
            Some(n) => n == punctuation_count(txt@),
            None => punctuation_count(txt@) > i16::MAX,
        },
{
    broadcast use vstd::string::group_string_axioms;

    let mut count: i16 = 0;
    for c in it: txt.as_str().chars()
        invariant
            it.seq() == txt@,
            count == punctuation_count(txt@.take(it.index() as int)),
    {
        proof {
            assert(txt@.take(it.index() + 1).drop_last() =~= txt@.take(it.index() as int));
            lemma_punctuation_count_prefix(txt@, it.index() as int + 1, txt@.len() as int);
        }
        if list_contains(&NodeInfo::punctuation_list(), c) {
            if count == i16::MAX {
                proof {
                    assert(txt@.take(txt@.len() as int) =~= txt@);
                }
                return None;
            }
            count = count + 1;
        }
    }
    proof {
        assert(txt@.take(txt@.len() as int) =~= txt@);
    }
    Some(count)
}

/// The punctuation count of a prefix is at most that of the whole.
pub proof fn lemma_punctuation_count_prefix(s: Seq<char>, k: int, n: int)
    requires
        0 <= k <= n <= s.len(),
    ensures
        punctuation_count(s.take(k)) <= punctuation_count(s.take(n)),
    decreases n - k,
{
    if k < n {
        lemma_punctuation_count_prefix(s, k, n - 1);
        assert(s.take(n).drop_last() =~= s.take(n - 1));
    }
}

/// Counts the punctuation characters of `txt`.
pub fn get_punctuation_num(txt: &String) -> (count: i16)
    requires
        punctuation_count(txt@) <= i16::MAX,
    ensures
        count == punctuation_count(txt@),
{
    checked_punctuation_num(txt).unwrap()
}

impl NodeInfo {
    /// A node with all counts zero, both densities `0 / 1`, kind
    /// unknown, and no tag, text or children.
    pub fn new() -> (r: NodeInfo)
        ensures
            r@ == fresh_view(),
    {
        let r = NodeInfo {
            punctuation_num: 0,
            tag_num: 0,
            sbd: Ratio::zero(),
            link_tag_text_length: 0,
            tag_name: String::new(),
            p_tag_num: 0,
            text_tag_num: 0,
            direct_child_text_tag_num: 0,
            direct_tag_num: 0,
            link_tag_num: 0,
            td: Ratio::zero(),
            text: String::new(),
            children: Vec::new(),
            text_length: 0,
            node_type: NodeTypeEnum::Unknown,
        };
        proof {
            assert(info_views(r.children@) =~= Seq::empty());
        }
        r
    }

    /// The characters counted as punctuation.
    pub fn punctuation_list() -> (r: Vec<char>)
        ensures
            r@ == punctuation_seq(),
    {
        let r = vec![
            '\u{FF01}', '\u{FF0C}', '\u{3002}', '\u{FF1F}', '\u{3001}', '\u{FF1B}', '\u{FF1A}',
            '\u{201C}', '\u{201D}', '\u{2018}', '\u{2019}', '\u{300A}', '\u{300B}', '%',
            '\u{FF08}', '\u{FF09}', '.', '?', ':', ';', '"', '!', '%', '(', ')', '\'',
        ];
        proof {
            assert(r@ =~= punctuation_seq());
        }
        r
    }

    /// Whether the node's tag is `name`.
    pub(crate) fn tag_is(&self, name: &str) -> (r: bool)
        ensures
            r == (self.tag_name@ == name@),
    {
        self.tag_name == String::from_str(name)
    }

    pub fn set_tag_num(&mut self, num: i16)
        ensures
            final(self)@ == (NodeInfoView { tag_num: num, ..old(self)@ }),
    {
        self.tag_num = num;
    }

    pub fn set_tag_name(&mut self, name: String)
        ensures
            final(self)@ == (NodeInfoView { tag_name: name@, ..old(self)@ }),
    {
        self.tag_name = name;
    }

    /// Appends `child` to the node's children.
    pub fn add_child(&mut self, child: NodeInfo)
        ensures
            final(self)@ == (NodeInfoView { children: old(self)@.children.push(child@), ..old(self)@ }),
    {
        let ghost before = self.children@;
        self.children.push(child);
        proof {
            assert(self.children@.drop_last() =~= before);
        }
    }

    pub fn set_text_length(&mut self, len: i32)
        ensures
            final(self)@ == (NodeInfoView { text_length: len, ..old(self)@ }),
    {
        self.text_length = len;
    }

    pub fn set_punctuation_num(&mut self, num: i16)
        ensures
            final(self)@ == (NodeInfoView { punctuation_num: num, ..old(self)@ }),
    {
        self.punctuation_num = num;
    }

    pub fn set_link_tag_text_length(&mut self, len: i16)
        ensures
            final(self)@ == (NodeInfoView { link_tag_text_length: len, ..old(self)@ }),
    {
        self.link_tag_text_length = len;
    }

    pub fn set_node_type(&mut self, node_type: NodeTypeEnum)
        ensures
            final(self)@ == (NodeInfoView { node_type, ..old(self)@ }),
    {
        self.node_type = node_type;
    }

    /// Stores `text` with its length in characters and its punctuation count.
    pub fn set_node_text_info(&mut self, text: String)
        requires
            punctuation_count(text@) <= i16::MAX,
        ensures
            final(self)@ == with_text(old(self)@, text@),
    {
        self.set_text_length(text.as_str().unicode_len() as i32);
        self.set_punctuation_num(get_punctuation_num(&text));
        self.text = text;
    }

    /// As `set_node_text_info`; leaves the node unchanged and answers
    /// `false` when the punctuation count does not fit in an `i16`.
    fn checked_set_node_text_info(&mut self, text: String) -> (ok: bool)
        ensures
            ok == (punctuation_count(text@) <= i16::MAX),
            ok ==> final(self)@ == with_text(old(self)@, text@),
            !ok ==> final(self)@ == old(self)@,
    {
        match checked_punctuation_num(&text) {
            Some(n) => {
                self.set_text_length(text.as_str().unicode_len() as i32);
                self.set_punctuation_num(n);
                self.text = text;
                true
            },
            None => false,
        }
    }

    pub fn set_direct_child_text_tag_num(&mut self, num: i16)
        ensures
            final(self)@ == (NodeInfoView { direct_child_text_tag_num: num, ..old(self)@ }),
    {
        self.direct_child_text_tag_num = num;
    }

    pub fn set_link_tag_num(&mut self, num: i16)
        ensures
            final(self)@ == (NodeInfoView { link_tag_num: num, ..old(self)@ }),
    {
        self.link_tag_num = num;
    }

    pub fn set_p_tag_num(&mut self, num: i16)
        ensures
            final(self)@ == (NodeInfoView { p_tag_num: num, ..old(self)@ }),
    {
        self.p_tag_num = num;
    }

    pub fn set_direct_tag_num(&mut self, num: i16)
        ensures
            final(self)@ == (NodeInfoView { direct_tag_num: num, ..old(self)@ }),
    {
        self.direct_tag_num = num;
    }

    pub fn set_text_tag_num(&mut self, num: i16)
        ensures
            final(self)@ == (NodeInfoView { text_tag_num: num, ..old(self)@ }),
    {
        self.text_tag_num = num;
    }

    /// Sets the text density.
    pub fn set_td(&mut self, td: Ratio)
        ensures
            final(self)@ == (NodeInfoView { td, ..old(self)@ }),
    {
        self.td = td;
    }

    /// Sets the symbol density.
    pub fn set_sbd(&mut self, sbd: Ratio)
        ensures
            final(self)@ == (NodeInfoView { sbd, ..old(self)@ }),
    {
        self.sbd = sbd;
    }

    /// Whether the node's tag is one of `p`, `li`, `code`, `blockquote`.
    pub fn is_text_tag(&self) -> (flag: bool)
        ensures
            flag == is_text_tag_name(self.tag_name@),
    {
        self.tag_is("p") || self.tag_is("li") || self.tag_is("code") || self.tag_is("blockquote")
    }

    /// The count that weighs the node's score: its text elements, itself
    /// not counted, plus two.
    pub fn text_tag_weight(&self) -> (w: i16)
        requires
            fits_i16(adjusted_text_tag_num(self@)),
            fits_i16(adjusted_text_tag_num(self@) + 2),
        ensures
            w == adjusted_text_tag_num(self@) + 2,
    {
        let text_tag_num = if self.is_text_tag() {
            self.text_tag_num - 1
        } else {
            self.text_tag_num
        };
        text_tag_num + 2
    }

    /// Whether the node's tag is `strong` or `font`.
    pub fn is_style_tag(&self) -> (flag: bool)
        ensures
            flag == is_style_tag_name(self.tag_name@),
    {
        self.tag_is("strong") || self.tag_is("font")
    }

    /// Whether the node is kept as a child of its parent: a text node
    /// with text, or an element with an element or text below it, whose
    /// tag is none of `script`, `style`, `map`, `form`, `img`, `input`.
    pub fn is_valid(&self) -> (valid: bool)
        ensures
            valid == view_is_valid(self@),
    {
        let is_valid_tag = !(self.tag_is("script") || self.tag_is("style") || self.tag_is("map")
            || self.tag_is("form") || self.tag_is("img") || self.tag_is("input"));
        match self.node_type {
            NodeTypeEnum::Text => {
                if self.text_length == 0 {
                    return false;
                }
            },
            NodeTypeEnum::Element => {
                if self.tag_num == 0 && self.text_length == 0 {
                    return false;
                }
            },
            NodeTypeEnum::Unknown => {
                return false;
            },
        }
        is_valid_tag
    }
}

/// Whether `x` fits in an `i16`.
pub(crate) fn fits16(x: i64) -> (b: bool)
    ensures
        b == fits_i16(x as int),
{
    i16::MIN as i64 <= x && x <= i16::MAX as i64
}

/// The statistics of the subtree rooted at `handle`, whose parent has the
/// tag `parent_tag_name`; `None` exactly when a count overflows its
/// integer type.
pub fn checked_node_info(handle: &DomNode, parent_tag_name: &str) -> (res: Option<NodeInfo>)
    ensures
        option_view(res) == node_view(*handle, parent_tag_name@),
    decreases handle,
{
    let mut info = NodeInfo::new();
    let mut is_patch = false;
    let parent_is_div = String::from_str(parent_tag_name) == String::from_str("div");
    match &handle.data {
        DomData::Element { name } => {
            info.set_tag_name(name.clone());
            info.set_node_type(NodeTypeEnum::Element);
            if info.tag_is("a") {
                info.set_link_tag_num(1);
            }
            if info.tag_is("p") {
                info.set_p_tag_num(1);
            }
            if info.is_text_tag() {
                info.set_text_tag_num(1);
            }
        },
        DomData::Text { contents } => {
            if parent_is_div {
                is_patch = true;
                info.set_tag_name(String::from_str("p"));
                info.set_node_type(NodeTypeEnum::Element);
                info.set_p_tag_num(1);
                info.set_text_tag_num(1);
                if !info.checked_set_node_text_info(remove_blank(contents)) {
                    return None;
                }
            } else {
                info.set_node_type(NodeTypeEnum::Text);
                if !info.checked_set_node_text_info(remove_blank(contents)) {
                    proof {
                        lemma_fold_none(*handle, parent_tag_name@, 0, handle.children@.len());
                    }
                    return None;
                }
            }
        },
        DomData::Other => {},
    }
    assert(own_view(*handle, parent_tag_name@) == Some(info@));
    if is_patch {
        info.set_tag_num(0);
        info.set_link_tag_num(0);
        info.set_p_tag_num(0);
        info.set_text_tag_num(0);
        info.set_link_tag_text_length(0);
        info.set_direct_tag_num(0);
        let td = Ratio { numerator: info.text_length as i64, denominator: 1 };
        info.set_td(td);
        return Some(info);
    }
    let child_parent: &str = match &handle.data {
        DomData::Element { name } => name.as_str(),
        _ => "",
    };
    proof {
        reveal_strlit("");
        assert(child_parent@ =~= tag_of(*handle));
    }
    let n = handle.children.len();
    let mut i: usize = 0;
    while i < n
        invariant
            n == handle.children@.len(),
            i <= n,
            !is_patched_text(*handle, parent_tag_name@),
            child_parent@ == tag_of(*handle),
            fold_children(*handle, parent_tag_name@, i as nat) == Some(info@),
        decreases n - i,
    {
        let child_info = match checked_node_info(&handle.children[i], child_parent) {
            Some(c) => c,
            None => {
                proof {
                    lemma_fold_none(*handle, parent_tag_name@, (i + 1) as nat, n as nat);
                }
                return None;
            },
        };
        if child_info.is_valid() {
            let tag_sum: i64 = info.tag_num as i64 + child_info.tag_num as i64;
            let counts_tag = match child_info.node_type {
                NodeTypeEnum::Element => !child_info.is_style_tag(),
                _ => false,
            };
            let tag_num: i64 = if counts_tag { tag_sum + 1 } else { tag_sum };
            let text_length: i64 = info.text_length as i64 + child_info.text_length as i64;
            let link_tag_num: i64 = info.link_tag_num as i64 + child_info.link_tag_num as i64;
            let p_tag_num: i64 = info.p_tag_num as i64 + child_info.p_tag_num as i64;
            let direct_child_text_tag_num: i64 = if child_info.is_text_tag() {
                info.direct_child_text_tag_num as i64 + 1
            } else {
                info.direct_child_text_tag_num as i64
            };
            let text_tag_num: i64 = info.text_tag_num as i64 + child_info.text_tag_num as i64;
            let punctuation_num: i64 = info.punctuation_num as i64
                + child_info.punctuation_num as i64;
            let direct_tag_num: i64 = info.direct_tag_num as i64 + 1;
            let is_link = info.tag_is("a");
            let link_text_sum: i64 = info.link_tag_text_length as i64
                + child_info.link_tag_text_length as i64;
            if !(fits16(tag_sum) && fits16(tag_num) && i32::MIN as i64 <= text_length
                && text_length <= i32::MAX as i64 && fits16(link_tag_num) && fits16(p_tag_num)
                && fits16(direct_child_text_tag_num) && fits16(text_tag_num) && fits16(
                punctuation_num,
            ) && fits16(direct_tag_num) && (is_link || fits16(link_text_sum))) {
                proof {
                    lemma_fold_none(*handle, parent_tag_name@, (i + 1) as nat, n as nat);
                }
                return None;
            }
            info.set_tag_num(tag_num as i16);
            info.set_text_length(text_length as i32);
            info.set_link_tag_num(link_tag_num as i16);
            info.set_p_tag_num(p_tag_num as i16);
            info.set_direct_child_text_tag_num(direct_child_text_tag_num as i16);
            info.set_text_tag_num(text_tag_num as i16);
            info.set_punctuation_num(punctuation_num as i16);
            info.set_direct_tag_num(direct_tag_num as i16);
            if is_link {
                let len = #[verifier::truncate] (info.text_length as i16);
                info.set_link_tag_text_length(len);
            } else {
                info.set_link_tag_text_length(link_text_sum as i16);
            }
            info.add_child(child_info);
        }
        i += 1;
    }
    let link_tag_num: i64 = if info.tag_is("a") {
        if info.link_tag_num == i16::MIN {
            return None;
        }
        (info.link_tag_num - 1) as i64
    } else {
        info.link_tag_num as i64
    };
    let divided: i64 = info.tag_num as i64 - link_tag_num;
    let net: i64 = info.text_length as i64 - info.link_tag_text_length as i64;
    let td = if divided == 0 {
        Ratio::zero()
    } else {
        Ratio { numerator: net, denominator: divided }
    };
    let sbd = Ratio { numerator: net, denominator: info.punctuation_num as i64 + 1 };
    info.set_td(td);
    info.set_sbd(sbd);
    Some(info)
}

/// The statistics of the subtree rooted at `handle`, whose parent has the
/// tag `parent_tag_name`.
pub fn get_node_info_from_reqwest_result(handle: &DomNode, parent_tag_name: &str) -> (info: NodeInfo)
    requires
        node_view(*handle, parent_tag_name@) is Some,
    ensures
        node_view(*handle, parent_tag_name@) == Some(info@),
{
    checked_node_info(handle, parent_tag_name).unwrap()
}

/// Whether the node's tag can hold blocks of content: every tag but `p`,
/// `ul`, `li`, `code` and `pre`.
pub fn is_container_tag(node: &NodeInfo) -> (r: bool)
    ensures
        r == is_container_tag_name(node.tag_name@),
{
    !(node.tag_is("p") || node.tag_is("ul") || node.tag_is("li") || node.tag_is("code")
        || node.tag_is("pre"))
}

/// Whether `d` is a `body` element.
pub open spec fn is_body(d: DomNode) -> bool {
    d.data matches DomData::Element { name } && name@ == "body"@
}

/// The first `body` element at or below `d` in document order, with the
/// tag of its parent (`parent_tag` when it is `d` itself).
pub open spec fn body_search(d: DomNode, parent_tag: Seq<char>) -> Option<(DomNode, Seq<char>)>
    decreases d, 0nat,
{
    if is_body(d) {
        Some((d, parent_tag))
    } else {
        body_search_among(d.children@, tag_of(d), d.children@.len())
    }
}

/// The first `body` element in the first `k` trees of `s`, in document
/// order, with the tag of its parent (`parent_tag` for a root of `s`).
pub open spec fn body_search_among(s: Seq<DomNode>, parent_tag: Seq<char>, k: nat) -> Option<
    (DomNode, Seq<char>),
>
    decreases s, k,
{
    if k == 0 || k > s.len() {
        None
    } else {
        match body_search_among(s, parent_tag, (k - 1) as nat) {
            Some(found) => Some(found),
            None => body_search(s[k - 1], parent_tag),
        }
    }
}

/// Once a `body` is found among the first trees, later trees do not change it.
pub proof fn lemma_body_search_among_found(s: Seq<DomNode>, parent_tag: Seq<char>, k: nat, n: nat)
    requires
        0 < k <= n <= s.len(),
        body_search_among(s, parent_tag, k) is Some,
    ensures
        body_search_among(s, parent_tag, n) == body_search_among(s, parent_tag, k),
    decreases n - k,
{
    if k < n {
        lemma_body_search_among_found(s, parent_tag, k, (n - 1) as nat);
    }
}

/// Whether `handle` is a `body` element.
fn is_body_node(handle: &DomNode) -> (r: bool)
    ensures
        r == is_body(*handle),
{
    match &handle.data {
        DomData::Element { name } => *name == String::from_str("body"),
        _ => false,
    }
}

/// The first `body` element at or below `handle` in document order,
/// with the tag of its parent (`parent_tag_name` when it is `handle`).
pub fn locate_body<'a>(handle: &'a DomNode, parent_tag_name: &'a str) -> (r: Option<
    (&'a DomNode, &'a str),
>)
    ensures
        match r {
            None => body_search(*handle, parent_tag_name@) is None,
            Some((body, parent)) => body_search(*handle, parent_tag_name@) == Some(
                (*body, parent@),
            ),
        },
    decreases handle,
{
    if is_body_node(handle) {
        return Some((handle, parent_tag_name));
    }
    let child_parent: &str = match &handle.data {
        DomData::Element { name } => name.as_str(),
        _ => "",
    };
    proof {
        reveal_strlit("");
        assert(child_parent@ =~= tag_of(*handle));
    }
    let n = handle.children.len();
    let mut i: usize = 0;
    while i < n
        invariant
            n == handle.children@.len(),
            i <= n,
            !is_body(*handle),
            child_parent@ == tag_of(*handle),
            body_search_among(handle.children@, tag_of(*handle), i as nat) is None,
        decreases n - i,
    {
        match locate_body(&handle.children[i], child_parent) {
            Some(found) => {
                proof {
                    lemma_body_search_among_found(
                        handle.children@,
                        tag_of(*handle),
                        (i + 1) as nat,
                        n as nat,
                    );
                }
                return Some(found);
            },
            None => {},
        }
        i += 1;
    }
    None
}

/// The statistics of the first `body` element at or below `handle`, in
/// document order; `None` when there is none.
pub fn find_body(handle: &DomNode) -> (r: Option<NodeInfo>)
    requires
        body_search(*handle, Seq::empty()) matches Some((body, parent)) ==> node_view(
            body,
            parent,
        ) is Some,
    ensures
        match body_search(*handle, Seq::empty()) {
            None => r is None,
            Some((body, parent)) => option_view(r) == node_view(body, parent),
        },
{
    proof {
        reveal_strlit("");
        assert(""@ =~= Seq::<char>::empty());
    }
    match locate_body(handle, "") {
        Some((body, parent)) => Some(get_node_info_from_reqwest_result(body, parent)),
        None => None,
    }
}

/// The text densities of the nodes strictly below `m`, in document order.
pub open spec fn subtree_tds(m: NodeInfoView) -> Seq<Ratio>
    decreases m, 0nat,
{
    forest_tds(m.children)
}

/// The text densities of the nodes of the trees `s`, roots included, in
/// document order.
pub open spec fn forest_tds(s: Seq<NodeInfoView>) -> Seq<Ratio>
    decreases s, 1nat,
{
    if s.len() == 0 {
        Seq::empty()
    } else {
        forest_tds(s.drop_last()) + seq![s.last().td] + subtree_tds(s.last())
    }
}

/// Appends to `sd` the text densities of the nodes strictly below `node`,
/// in document order.
pub fn get_tree_sd_vec(node: &NodeInfo, sd: &mut Vec<Ratio>)
    ensures
        final(sd)@ == old(sd)@ + subtree_tds(node@),
    decreases node,
{
    let ghost start = sd@;
    let ghost views = node@.children;
    proof {
        lemma_info_views_index(node.children@);
    }
    let n = node.children.len();
    let mut i: usize = 0;
    while i < n
        invariant
            n == node.children@.len(),
            i <= n,
            views == node@.children,
            views.len() == n,
            forall|j: int| 0 <= j < n ==> #[trigger] views[j] == node.children@[j]@,
            sd@ == start + forest_tds(views.take(i as int)),
        decreases n - i,
    {
        let child = &node.children[i];
        sd.push(child.td);
        get_tree_sd_vec(child, sd);
        proof {
            assert(views.take(i + 1).drop_last() =~= views.take(i as int));
            assert(sd@ =~= start + forest_tds(views.take(i + 1)));
        }
        i += 1;
    }
    proof {
        assert(views.take(n as int) =~= views);
    }
}

/// Why the statistics of a page's `body` could not be given.
#[derive(Debug, Clone, Copy, PartialEq, Eq, Structural)]
pub enum PageError {
    /// The page has no `body` element.
    NotFound,
    /// A count of the `body`'s statistics overflows its integer type.
    CountOverflow,
}

/// The statistics of the first `body` element of the page `html`, in
/// document order, once html5ever has parsed it.
pub fn node_info_of_page(html: &str) -> (r: Result<NodeInfo, PageError>)
    ensures
        match body_search(parsed_document(html@), Seq::empty()) {
            None => r == Err::<NodeInfo, PageError>(PageError::NotFound),
            Some((body, parent)) => match node_view(body, parent) {
                None => r == Err::<NodeInfo, PageError>(PageError::CountOverflow),
                Some(m) => r matches Ok(info) && info@ == m,
            },
        },
{
    let document = parse_page(html);
    proof {
        reveal_strlit("");
        assert(""@ =~= Seq::<char>::empty());
    }
    match locate_body(&document, "") {
        None => Err(PageError::NotFound),
        Some((body, parent)) => match checked_node_info(body, parent) {
            Some(info) => Ok(info),
            None => Err(PageError::CountOverflow),
        },
    }
}

} // verus!
