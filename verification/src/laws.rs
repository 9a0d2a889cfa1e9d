//! Properties that hold of every input: of the text helpers and of the
//! statistics computed for a document tree.
use vstd::prelude::*;

use crate::dom::{tag_of, DomData, DomNode};
use crate::node_info::{
    absorb_child, finish_view, fold_children, is_patched_text, is_style_tag_name, is_text_tag_name, lemma_fold_none, node_view,
    own_view, punctuation_count, punctuation_seq, view_is_valid, is_body, body_search,
    body_search_among, adjusted_text_tag_num, forest_tds, is_container_tag_name, subtree_tds,
    NodeInfoView, NodeTypeEnum, Ratio,
};
use crate::page::{adjusted_p_tag_num, page_bodies, page_bodies_among, page_absorb_child, page_fold, page_is_valid, page_own_view, page_view};
use crate::string::{char_escape, escape_all, hex_chars, hex_of, is_blank, without_blanks};

verus! {

/// No blank character is left by `remove_blank`, and what it leaves is no
/// longer than its input.
pub proof fn lemma_without_blanks_has_no_blanks(s: Seq<char>)
    ensures
        forall|i: int| 0 <= i < without_blanks(s).len() ==> !is_blank(#[trigger] without_blanks(s)[i]),
        without_blanks(s).len() <= s.len(),
    decreases s.len(),
{
    if s.len() > 0 {
        lemma_without_blanks_has_no_blanks(s.drop_last());
    }
}

/// Text without blanks is left as it is by `remove_blank`.
pub proof fn lemma_without_blanks_keeps_plain_text(s: Seq<char>)
    requires
        forall|i: int| 0 <= i < s.len() ==> !is_blank(#[trigger] s[i]),
    ensures
        without_blanks(s) == s,
    decreases s.len(),
{
    if s.len() > 0 {
        lemma_without_blanks_keeps_plain_text(s.drop_last());
        assert(s.drop_last().push(s.last()) =~= s);
    }
}

/// Removing blanks twice removes nothing more than removing them once.
pub proof fn lemma_without_blanks_idempotent(s: Seq<char>)
    ensures
        without_blanks(without_blanks(s)) == without_blanks(s),
{
    lemma_without_blanks_has_no_blanks(s);
    lemma_without_blanks_keeps_plain_text(without_blanks(s));
}

/// Removing blanks from two texts one after the other is removing them
/// from each and joining the results.
pub proof fn lemma_without_blanks_concat(a: Seq<char>, b: Seq<char>)
    ensures
        without_blanks(a + b) == without_blanks(a) + without_blanks(b),
    decreases b.len(),
{
    if b.len() == 0 {
        assert(a + b =~= a);
        assert(without_blanks(a) + without_blanks(b) =~= without_blanks(a));
    } else {
        lemma_without_blanks_concat(a, b.drop_last());
        assert((a + b).drop_last() =~= a + b.drop_last());
        assert((a + b).last() == b.last());
        if is_blank(b.last()) {
        } else {
            assert(without_blanks(a) + without_blanks(b.drop_last()).push(b.last()) =~= (
            without_blanks(a) + without_blanks(b.drop_last())).push(b.last()));
        }
    }
}

/// No text has more punctuation characters than characters.
pub proof fn lemma_punctuation_count_bounded(s: Seq<char>)
    ensures
        punctuation_count(s) <= s.len(),
    decreases s.len(),
{
    if s.len() > 0 {
        lemma_punctuation_count_bounded(s.drop_last());
    }
}

/// Whether `c` is printable ASCII (`0x20` to `0x7e`).
pub open spec fn is_printable_ascii(c: char) -> bool {
    0x20 <= (c as u32) <= 0x7e
}

/// Hexadecimal numerals are made of printable ASCII.
pub proof fn lemma_hex_of_printable(n: nat)
    ensures
        forall|i: int| 0 <= i < hex_of(n).len() ==> is_printable_ascii(#[trigger] hex_of(n)[i]),
    decreases n,
{
    assert forall|d: int| 0 <= d < 16 implies is_printable_ascii(#[trigger] hex_chars()[d]) by {
        assert(hex_chars()[d] == seq![
            '0', '1', '2', '3', '4', '5', '6', '7', '8', '9', 'a', 'b', 'c', 'd', 'e', 'f',
        ][d]);
    }
    if n >= 16 {
        lemma_hex_of_printable(n / 16);
        let prev = hex_of(n / 16);
        assert forall|i: int| 0 <= i < hex_of(n).len() implies is_printable_ascii(
            #[trigger] hex_of(n)[i],
        ) by {
            if i < prev.len() {
                assert(hex_of(n)[i] == prev[i]);
            } else {
                assert(hex_of(n)[i] == hex_chars()[(n % 16) as int]);
            }
        }
    } else {
        assert(hex_of(n)[0] == hex_chars()[n as int]);
    }
}

/// `escape_default` writes printable ASCII only.
pub proof fn lemma_escape_all_printable(s: Seq<char>)
    ensures
        forall|i: int| 0 <= i < escape_all(s).len() ==> is_printable_ascii(#[trigger] escape_all(s)[i]),
    decreases s.len(),
{
    if s.len() > 0 {
        lemma_escape_all_printable(s.drop_last());
        let c = s.last();
        lemma_hex_of_printable(c as u32 as nat);
        let e = char_escape(c);
        assert forall|i: int| 0 <= i < e.len() implies is_printable_ascii(#[trigger] e[i]) by {
            if !(c == '\t' || c == '\r' || c == '\n' || c == '\\' || c == '\'' || c == '"' || (0x20
                <= (c as u32) <= 0x7e)) {
                let h = hex_of(c as u32 as nat);
                if 3 <= i < 3 + h.len() {
                    assert(e[i] == h[i - 3]);
                }
            }
        }
        let prev = escape_all(s.drop_last());
        assert forall|i: int| 0 <= i < escape_all(s).len() implies is_printable_ascii(
            #[trigger] escape_all(s)[i],
        ) by {
            if i < prev.len() {
                assert(escape_all(s)[i] == prev[i]);
            } else {
                assert(escape_all(s)[i] == e[i - prev.len()]);
            }
        }
    }
}

/// Escaping a text is escaping its parts and joining the results.
pub proof fn lemma_escape_all_concat(a: Seq<char>, b: Seq<char>)
    ensures
        escape_all(a + b) == escape_all(a) + escape_all(b),
    decreases b.len(),
{
    if b.len() == 0 {
        assert(a + b =~= a);
        assert(escape_all(a) + escape_all(b) =~= escape_all(a));
    } else {
        lemma_escape_all_concat(a, b.drop_last());
        assert((a + b).drop_last() =~= a + b.drop_last());
        assert(escape_all(a) + escape_all(b.drop_last()) + char_escape(b.last()) =~= escape_all(a)
            + (escape_all(b.drop_last()) + char_escape(b.last())));
    }
}

/// Printable ASCII other than backslash and quotes is written as it is.
pub proof fn lemma_escape_all_keeps_plain_ascii(s: Seq<char>)
    requires
        forall|i: int|
            0 <= i < s.len() ==> is_printable_ascii(#[trigger] s[i]) && s[i] != '\\' && s[i]
                != '\'' && s[i] != '"',
    ensures
        escape_all(s) == s,
    decreases s.len(),
{
    if s.len() > 0 {
        lemma_escape_all_keeps_plain_ascii(s.drop_last());
        assert(s.drop_last() + seq![s.last()] =~= s);
    }
}

/// Whether the counts of a node are all at least zero.
pub open spec fn counts_nonnegative(m: NodeInfoView) -> bool {
    &&& m.tag_num >= 0
    &&& m.link_tag_num >= 0
    &&& m.p_tag_num >= 0
    &&& m.text_tag_num >= 0
    &&& m.punctuation_num >= 0
    &&& m.direct_child_text_tag_num >= 0
    &&& m.direct_tag_num >= 0
}

/// The counts of a node are never negative, at any stage of counting its
/// children.
pub proof fn lemma_fold_counts_nonnegative(d: DomNode, parent_tag: Seq<char>, k: nat)
    ensures
        fold_children(d, parent_tag, k) matches Some(m) ==> counts_nonnegative(m),
    decreases d, k,
{
    if k == 0 || k > d.children@.len() {
    } else {
        lemma_fold_counts_nonnegative(d, parent_tag, (k - 1) as nat);
        lemma_node_view_counts(d.children@[k - 1], tag_of(d));
    }
}

/// The counts of every node are never negative, and neither of its
/// densities has a zero denominator: the text density's is non-zero and
/// the symbol density's is at least one.
pub proof fn lemma_node_view_counts(d: DomNode, parent_tag: Seq<char>)
    ensures
        node_view(d, parent_tag) matches Some(m) ==> {
            &&& counts_nonnegative(m)
            &&& m.td.denominator != 0
            &&& m.sbd.denominator >= 1
        },
    decreases d, d.children@.len() + 1,
{
    lemma_fold_counts_nonnegative(d, parent_tag, d.children@.len());
}

/// What a kept child adds to its parent's element count: its own count,
/// and one for itself if it is an element other than a style tag.
pub open spec fn tag_weight(c: NodeInfoView) -> int {
    c.tag_num + if c.node_type == NodeTypeEnum::Element && !is_style_tag_name(c.tag_name) {
        1int
    } else {
        0int
    }
}

/// The summed element weights of `s`.
pub open spec fn sum_tag_weight(s: Seq<NodeInfoView>) -> int
    decreases s.len(),
{
    if s.len() == 0 {
        0
    } else {
        sum_tag_weight(s.drop_last()) + tag_weight(s.last())
    }
}

/// The summed text lengths of `s`.
pub open spec fn sum_text_length(s: Seq<NodeInfoView>) -> int
    decreases s.len(),
{
    if s.len() == 0 {
        0
    } else {
        sum_text_length(s.drop_last()) + s.last().text_length
    }
}

/// The summed link counts of `s`.
pub open spec fn sum_link_tag_num(s: Seq<NodeInfoView>) -> int
    decreases s.len(),
{
    if s.len() == 0 {
        0
    } else {
        sum_link_tag_num(s.drop_last()) + s.last().link_tag_num
    }
}

/// The summed punctuation counts of `s`.
pub open spec fn sum_punctuation_num(s: Seq<NodeInfoView>) -> int
    decreases s.len(),
{
    if s.len() == 0 {
        0
    } else {
        sum_punctuation_num(s.drop_last()) + s.last().punctuation_num
    }
}

/// The summed paragraph counts of `s`.
pub open spec fn sum_p_tag_num(s: Seq<NodeInfoView>) -> int
    decreases s.len(),
{
    if s.len() == 0 {
        0
    } else {
        sum_p_tag_num(s.drop_last()) + s.last().p_tag_num
    }
}

/// The summed text-element counts of `s`.
pub open spec fn sum_text_tag_num(s: Seq<NodeInfoView>) -> int
    decreases s.len(),
{
    if s.len() == 0 {
        0
    } else {
        sum_text_tag_num(s.drop_last()) + s.last().text_tag_num
    }
}

/// The summed link-text lengths of `s`.
pub open spec fn sum_link_tag_text_length(s: Seq<NodeInfoView>) -> int
    decreases s.len(),
{
    if s.len() == 0 {
        0
    } else {
        sum_link_tag_text_length(s.drop_last()) + s.last().link_tag_text_length
    }
}

/// The number of members of `s` whose tag is a text tag.
pub open spec fn count_text_tags(s: Seq<NodeInfoView>) -> int
    decreases s.len(),
{
    if s.len() == 0 {
        0
    } else {
        count_text_tags(s.drop_last()) + if is_text_tag_name(s.last().tag_name) {
            1int
        } else {
            0int
        }
    }
}

/// The statistics of the first `k` children of `d` that are computed and
/// valid, in document order: the children a node keeps.
pub open spec fn kept_children(d: DomNode, k: nat) -> Seq<NodeInfoView>
    decreases k,
{
    if k == 0 || k > d.children@.len() {
        Seq::empty()
    } else {
        let prev = kept_children(d, (k - 1) as nat);
        match node_view(d.children@[k - 1], tag_of(d)) {
            Some(c) => if view_is_valid(c) {
                prev.push(c)
            } else {
                prev
            },
            None => prev,
        }
    }
}

/// How a node's counts stand to its own data and its kept children.
pub open spec fn aggregates(m: NodeInfoView, own: NodeInfoView) -> bool {
    &&& m.direct_tag_num == m.children.len()
    &&& forall|i: int| 0 <= i < m.children.len() ==> view_is_valid(#[trigger] m.children[i])
    &&& m.tag_num == sum_tag_weight(m.children)
    &&& m.text_length == own.text_length + sum_text_length(m.children)
    &&& m.link_tag_num == own.link_tag_num + sum_link_tag_num(m.children)
    &&& m.p_tag_num == own.p_tag_num + sum_p_tag_num(m.children)
    &&& m.text_tag_num == own.text_tag_num + sum_text_tag_num(m.children)
    &&& m.punctuation_num == own.punctuation_num + sum_punctuation_num(m.children)
    &&& m.direct_child_text_tag_num == count_text_tags(m.children)
    &&& own.tag_name != "a"@ ==> m.link_tag_text_length == sum_link_tag_text_length(m.children)
}

/// At every stage of counting children, the children kept so far are the
/// valid child statistics in document order, and the counts are those of
/// the node's own data plus the sums over those children.
pub proof fn lemma_fold_aggregates(d: DomNode, parent_tag: Seq<char>, k: nat)
    requires
        own_view(d, parent_tag) is Some,
    ensures
        fold_children(d, parent_tag, k) matches Some(m) ==> {
            &&& aggregates(m, own_view(d, parent_tag)->0)
            &&& m.children == kept_children(d, k)
            &&& m.tag_name == own_view(d, parent_tag)->0.tag_name
            &&& m.text == own_view(d, parent_tag)->0.text
            &&& m.node_type == own_view(d, parent_tag)->0.node_type
        },
    decreases k,
{
    let own = own_view(d, parent_tag)->0;
    if k == 0 || k > d.children@.len() {
        assert(own.children.len() == 0);
        assert(own.children =~= kept_children(d, k));
    } else {
        lemma_fold_aggregates(d, parent_tag, (k - 1) as nat);
        match fold_children(d, parent_tag, (k - 1) as nat) {
            None => {},
            Some(m) => match node_view(d.children@[k - 1], tag_of(d)) {
                None => {},
                Some(c) => if view_is_valid(c) {
                    match absorb_child(m, c) {
                        None => {},
                        Some(m2) => {
                            assert(m2.children.drop_last() =~= m.children);
                            assert(m2.children.last() == c);
                            assert forall|i: int| 0 <= i < m2.children.len() implies view_is_valid(
                                #[trigger] m2.children[i],
                            ) by {
                                if i < m.children.len() {
                                    assert(m2.children[i] == m.children[i]);
                                }
                            }
                        },
                    }
                },
            },
        }
    }
}

/// Every node other than text standing directly in a `div` keeps exactly
/// the valid statistics of its children, in document order, counts them
/// in `direct_tag_num` and their text tags in `direct_child_text_tag_num`,
/// and has as its element, text, link, paragraph, text-element and
/// punctuation counts (and, unless it is an `a`, its link-text length)
/// those of its own data plus the sums over its kept children.
pub proof fn lemma_node_view_aggregates(d: DomNode, parent_tag: Seq<char>)
    requires
        !is_patched_text(d, parent_tag),
    ensures
        node_view(d, parent_tag) matches Some(m) ==> {
            &&& aggregates(m, own_view(d, parent_tag)->0)
            &&& m.children == kept_children(d, d.children@.len())
        },
{
    if own_view(d, parent_tag) is Some {
        lemma_fold_aggregates(d, parent_tag, d.children@.len());
    } else {
        lemma_fold_none(d, parent_tag, 0, d.children@.len());
    }
}

/// Whether every node strictly below `m` is valid.
pub open spec fn valid_tree(m: NodeInfoView) -> bool
    decreases m, 0nat,
{
    valid_forest(m.children)
}

/// Whether every node of the trees `s`, roots included, is valid.
pub open spec fn valid_forest(s: Seq<NodeInfoView>) -> bool
    decreases s, 1nat,
{
    s.len() == 0 || (valid_forest(s.drop_last()) && view_is_valid(s.last()) && valid_tree(s.last()))
}

/// At every stage of counting children, every node below the kept
/// children is valid too.
pub proof fn lemma_fold_valid_forest(d: DomNode, parent_tag: Seq<char>, k: nat)
    ensures
        fold_children(d, parent_tag, k) matches Some(m) ==> valid_forest(m.children),
    decreases d, k,
{
    if k == 0 || k > d.children@.len() {
        if let Some(own) = own_view(d, parent_tag) {
            assert(own.children.len() == 0);
        }
    } else {
        lemma_fold_valid_forest(d, parent_tag, (k - 1) as nat);
        lemma_node_view_valid_tree(d.children@[k - 1], tag_of(d));
        match fold_children(d, parent_tag, (k - 1) as nat) {
            None => {},
            Some(m) => match node_view(d.children@[k - 1], tag_of(d)) {
                None => {},
                Some(c) => if view_is_valid(c) {
                    match absorb_child(m, c) {
                        None => {},
                        Some(m2) => {
                            assert(m2.children.drop_last() =~= m.children);
                        },
                    }
                },
            },
        }
    }
}

/// Every node strictly below a node's statistics is valid.
pub proof fn lemma_node_view_valid_tree(d: DomNode, parent_tag: Seq<char>)
    ensures
        node_view(d, parent_tag) matches Some(m) ==> valid_tree(m),
    decreases d, d.children@.len() + 1,
{
    lemma_fold_valid_forest(d, parent_tag, d.children@.len());
    if let Some(own) = own_view(d, parent_tag) {
        assert(own.children.len() == 0);
    }
}

/// The punctuation count of a joined text is the sum of the counts of its
/// parts.
pub proof fn lemma_punctuation_count_concat(a: Seq<char>, b: Seq<char>)
    ensures
        punctuation_count(a + b) == punctuation_count(a) + punctuation_count(b),
    decreases b.len(),
{
    if b.len() == 0 {
        assert(a + b =~= a);
    } else {
        lemma_punctuation_count_concat(a, b.drop_last());
        assert((a + b).drop_last() =~= a + b.drop_last());
        assert((a + b).last() == b.last());
    }
}

/// Text standing directly in a `div` is counted as a `p` element with no
/// elements, links or children below it, its text without blanks, and a
/// text density of its text length over one.
pub proof fn lemma_patched_text(d: DomNode, parent_tag: Seq<char>)
    requires
        d.data is Text,
        parent_tag == "div"@,
    ensures
        node_view(d, parent_tag) matches Some(m) ==> {
            &&& m.tag_name == "p"@
            &&& m.node_type == NodeTypeEnum::Element
            &&& m.tag_num == 0 && m.link_tag_num == 0 && m.p_tag_num == 0
            &&& m.text_tag_num == 0 && m.direct_tag_num == 0 && m.link_tag_text_length == 0
            &&& m.children.len() == 0
            &&& d.data matches DomData::Text { contents } && m.text == without_blanks(contents@)
            &&& m.td.numerator == m.text_length && m.td.denominator == 1
            &&& d.data matches DomData::Text { contents } && m.text_length == without_blanks(
                contents@,
            ).len() as i32
            &&& d.data matches DomData::Text { contents } && m.punctuation_num
                == punctuation_count(without_blanks(contents@))
            &&& m.sbd.numerator == 0 && m.sbd.denominator == 1
        },
{
}

/// The page reader's statistics of the first `k` children of `d` that are
/// computed and valid for it, in document order.
pub open spec fn page_kept_children(d: DomNode, k: nat) -> Seq<NodeInfoView>
    decreases k,
{
    if k == 0 || k > d.children@.len() {
        Seq::empty()
    } else {
        let prev = page_kept_children(d, (k - 1) as nat);
        match page_view(d.children@[k - 1]) {
            Some(c) => if page_is_valid(c) {
                prev.push(c)
            } else {
                prev
            },
            None => prev,
        }
    }
}

/// What a kept child adds to its parent's element count in the page
/// reader: its own count, and one for itself if it is an element.
pub open spec fn page_tag_weight(c: NodeInfoView) -> int {
    c.tag_num + if c.node_type == NodeTypeEnum::Element {
        1int
    } else {
        0int
    }
}

/// The summed page-reader element weights of `s`.
pub open spec fn sum_page_tag_weight(s: Seq<NodeInfoView>) -> int
    decreases s.len(),
{
    if s.len() == 0 {
        0
    } else {
        sum_page_tag_weight(s.drop_last()) + page_tag_weight(s.last())
    }
}

/// How the page reader's counts of a node stand to its own data and its
/// kept children.
pub open spec fn page_aggregates(m: NodeInfoView, own: NodeInfoView) -> bool {
    &&& m.td.denominator == 1
    &&& m.tag_num == sum_page_tag_weight(m.children)
    &&& m.text_length == own.text_length + sum_text_length(m.children)
    &&& m.link_tag_num == own.link_tag_num + sum_link_tag_num(m.children)
    &&& m.p_tag_num == own.p_tag_num + sum_p_tag_num(m.children)
    &&& own.tag_name != "a"@ ==> m.link_tag_text_length == sum_link_tag_text_length(m.children)
}

/// At every stage of the page reader's counting, the text density is a
/// whole number (its denominator is one), the children kept so far are
/// the valid child statistics in document order, and the element, text,
/// link and paragraph counts (and, unless the node is an `a`, its
/// link-text length) are those of the node's own data plus the sums over
/// those children.
pub proof fn lemma_page_fold_whole_density(d: DomNode, k: nat)
    ensures
        page_fold(d, k) matches Some(m) ==> {
            &&& page_aggregates(m, page_own_view(d))
            &&& m.children == page_kept_children(d, k)
            &&& m.tag_name == page_own_view(d).tag_name
        },
    decreases k,
{
    if k == 0 || k > d.children@.len() {
        assert(page_own_view(d).children.len() == 0);
        assert(page_own_view(d).children =~= page_kept_children(d, k));
    } else {
        lemma_page_fold_whole_density(d, (k - 1) as nat);
        match page_fold(d, (k - 1) as nat) {
            None => {},
            Some(m) => match page_view(d.children@[k - 1]) {
                None => {},
                Some(c) => if page_is_valid(c) {
                    match page_absorb_child(m, c) {
                        None => {},
                        Some(m2) => {
                            assert(m2.children.drop_last() =~= m.children);
                        },
                    }
                },
            },
        }
    }
}

/// The page reader's text density of every node is a whole number; a
/// node keeps exactly the valid statistics of its children, in document
/// order, and its element, text, link and paragraph counts (and, unless
/// it is an `a`, its link-text length) are those of its own data plus
/// the sums over its kept children.
pub proof fn lemma_page_view_whole_density(d: DomNode)
    ensures
        page_view(d) matches Some(m) ==> {
            &&& page_aggregates(m, page_own_view(d))
            &&& m.children == page_kept_children(d, d.children@.len())
        },
{
    lemma_page_fold_whole_density(d, d.children@.len());
}

/// Whether every node strictly below `m` is valid for the page reader.
pub open spec fn page_valid_tree(m: NodeInfoView) -> bool
    decreases m, 0nat,
{
    page_valid_forest(m.children)
}

/// Whether every node of the trees `s`, roots included, is valid for the
/// page reader.
pub open spec fn page_valid_forest(s: Seq<NodeInfoView>) -> bool
    decreases s, 1nat,
{
    s.len() == 0 || (page_valid_forest(s.drop_last()) && page_is_valid(s.last())
        && page_valid_tree(s.last()))
}

/// At every stage of the page reader's counting, every node below the
/// kept children is valid too.
pub proof fn lemma_page_fold_valid_forest(d: DomNode, k: nat)
    ensures
        page_fold(d, k) matches Some(m) ==> page_valid_forest(m.children),
    decreases d, k,
{
    if k == 0 || k > d.children@.len() {
        assert(page_own_view(d).children.len() == 0);
    } else {
        lemma_page_fold_valid_forest(d, (k - 1) as nat);
        lemma_page_view_valid_tree(d.children@[k - 1]);
        match page_fold(d, (k - 1) as nat) {
            None => {},
            Some(m) => match page_view(d.children@[k - 1]) {
                None => {},
                Some(c) => if page_is_valid(c) {
                    match page_absorb_child(m, c) {
                        None => {},
                        Some(m2) => {
                            assert(m2.children.drop_last() =~= m.children);
                        },
                    }
                },
            },
        }
    }
}

/// Every node strictly below the page reader's statistics of a node is
/// valid for it.
pub proof fn lemma_page_view_valid_tree(d: DomNode)
    ensures
        page_view(d) matches Some(m) ==> page_valid_tree(m),
    decreases d, d.children@.len() + 1,
{
    lemma_page_fold_valid_forest(d, d.children@.len());
}

/// Whether `c` is one of the characters the punctuation count counts: the
/// full-width exclamation mark, comma, question mark, semicolon, colon and
/// parentheses; the ideographic full stop and comma; the curly quotation
/// marks; the double angle brackets; and ASCII `%`, `.`, `?`, `:`, `;`,
/// `"`, `!`, `(`, `)`, `'`.
pub open spec fn is_listed_punctuation(c: char) -> bool {
    c == c == '\u{FF01}'
        || c == '\u{FF0C}'
        || c == '\u{3002}'
        || c == '\u{FF1F}'
        || c == '\u{3001}'
        || c == '\u{FF1B}'
        || c == '\u{FF1A}'
        || c == '\u{201C}'
        || c == '\u{201D}'
        || c == '\u{2018}'
        || c == '\u{2019}'
        || c == '\u{300A}'
        || c == '\u{300B}'
        || c == '%'
        || c == '\u{FF08}'
        || c == '\u{FF09}'
        || c == '.'
        || c == '?'
        || c == ':'
        || c == ';'
        || c == '"'
        || c == '!'
        || c == '%'
        || c == '('
        || c == ')'
        || c == '\''
}

/// The punctuation list holds exactly the listed characters.
pub proof fn lemma_punctuation_list_members(c: char)
    ensures
        punctuation_seq().contains(c) <==> is_listed_punctuation(c),
{
    assert(punctuation_seq().len() == 26);
    assert(punctuation_seq()[0] == '\u{FF01}');
    assert(punctuation_seq()[1] == '\u{FF0C}');
    assert(punctuation_seq()[2] == '\u{3002}');
    assert(punctuation_seq()[3] == '\u{FF1F}');
    assert(punctuation_seq()[4] == '\u{3001}');
    assert(punctuation_seq()[5] == '\u{FF1B}');
    assert(punctuation_seq()[6] == '\u{FF1A}');
    assert(punctuation_seq()[7] == '\u{201C}');
    assert(punctuation_seq()[8] == '\u{201D}');
    assert(punctuation_seq()[9] == '\u{2018}');
    assert(punctuation_seq()[10] == '\u{2019}');
    assert(punctuation_seq()[11] == '\u{300A}');
    assert(punctuation_seq()[12] == '\u{300B}');
    assert(punctuation_seq()[13] == '%');
    assert(punctuation_seq()[14] == '\u{FF08}');
    assert(punctuation_seq()[15] == '\u{FF09}');
    assert(punctuation_seq()[16] == '.');
    assert(punctuation_seq()[17] == '?');
    assert(punctuation_seq()[18] == ':');
    assert(punctuation_seq()[19] == ';');
    assert(punctuation_seq()[20] == '"');
    assert(punctuation_seq()[21] == '!');
    assert(punctuation_seq()[22] == '%');
    assert(punctuation_seq()[23] == '(');
    assert(punctuation_seq()[24] == ')');
    assert(punctuation_seq()[25] == '\'');
    if punctuation_seq().contains(c) {
        let i = choose|i: int| 0 <= i < punctuation_seq().len() && punctuation_seq()[i] == c;
        if i == 0 {
            assert(punctuation_seq()[0] == '\u{FF01}');
        } else if i == 1 {
            assert(punctuation_seq()[1] == '\u{FF0C}');
        } else if i == 2 {
            assert(punctuation_seq()[2] == '\u{3002}');
        } else if i == 3 {
            assert(punctuation_seq()[3] == '\u{FF1F}');
        } else if i == 4 {
            assert(punctuation_seq()[4] == '\u{3001}');
        } else if i == 5 {
            assert(punctuation_seq()[5] == '\u{FF1B}');
        } else if i == 6 {
            assert(punctuation_seq()[6] == '\u{FF1A}');
        } else if i == 7 {
            assert(punctuation_seq()[7] == '\u{201C}');
        } else if i == 8 {
            assert(punctuation_seq()[8] == '\u{201D}');
        } else if i == 9 {
            assert(punctuation_seq()[9] == '\u{2018}');
        } else if i == 10 {
            assert(punctuation_seq()[10] == '\u{2019}');
        } else if i == 11 {
            assert(punctuation_seq()[11] == '\u{300A}');
        } else if i == 12 {
            assert(punctuation_seq()[12] == '\u{300B}');
        } else if i == 13 {
            assert(punctuation_seq()[13] == '%');
        } else if i == 14 {
            assert(punctuation_seq()[14] == '\u{FF08}');
        } else if i == 15 {
            assert(punctuation_seq()[15] == '\u{FF09}');
        } else if i == 16 {
            assert(punctuation_seq()[16] == '.');
        } else if i == 17 {
            assert(punctuation_seq()[17] == '?');
        } else if i == 18 {
            assert(punctuation_seq()[18] == ':');
        } else if i == 19 {
            assert(punctuation_seq()[19] == ';');
        } else if i == 20 {
            assert(punctuation_seq()[20] == '"');
        } else if i == 21 {
            assert(punctuation_seq()[21] == '!');
        } else if i == 22 {
            assert(punctuation_seq()[22] == '%');
        } else if i == 23 {
            assert(punctuation_seq()[23] == '(');
        } else if i == 24 {
            assert(punctuation_seq()[24] == ')');
        } else if i == 25 {
            assert(punctuation_seq()[25] == '\'');
        }
    }
}

/// One character counts as one punctuation character exactly when it is
/// listed, and as none otherwise; with `lemma_punctuation_count_concat`
/// this fixes the count of every text.
pub proof fn lemma_punctuation_count_single(c: char)
    ensures
        punctuation_count(seq![c]) == if is_listed_punctuation(c) { 1nat } else { 0nat },
{
    lemma_punctuation_list_members(c);
    let s = seq![c];
    assert(s.len() == 1);
    assert(s.last() == c);
    assert(s.drop_last() =~= Seq::<char>::empty());
    assert(punctuation_count(Seq::<char>::empty()) == 0);
}

/// `remove_blank` drops a single character exactly when it is a carriage
/// return, line feed, tab or space, and keeps it otherwise; with
/// `lemma_without_blanks_concat` this fixes the result on every text.
pub proof fn lemma_without_blanks_single(c: char)
    ensures
        without_blanks(seq![c]) == if c == '\r' || c == '\n' || c == '\t' || c == ' ' {
            Seq::<char>::empty()
        } else {
            seq![c]
        },
{
    let s = seq![c];
    assert(s.len() == 1);
    assert(s.last() == c);
    assert(s.drop_last() =~= Seq::<char>::empty());
    assert(without_blanks(Seq::<char>::empty()) =~= Seq::<char>::empty());
    assert(Seq::<char>::empty().push(c) =~= s);
}

/// Text with no carriage return, line feed, tab or space comes back from
/// `remove_blank` unchanged, and none of those four characters is left in
/// any result.
pub proof fn lemma_without_blanks_keeps_all_but_four(s: Seq<char>)
    ensures
        (forall|i: int|
            0 <= i < s.len() ==> #[trigger] s[i] != '\r' && s[i] != '\n' && s[i] != '\t' && s[i]
                != ' ') ==> without_blanks(s) == s,
        forall|i: int|
            0 <= i < without_blanks(s).len() ==> #[trigger] without_blanks(s)[i] != '\r'
                && without_blanks(s)[i] != '\n' && without_blanks(s)[i] != '\t'
                && without_blanks(s)[i] != ' ',
{
    lemma_without_blanks_has_no_blanks(s);
    if forall|i: int|
        0 <= i < s.len() ==> #[trigger] s[i] != '\r' && s[i] != '\n' && s[i] != '\t' && s[i] != ' ' {
        lemma_without_blanks_keeps_plain_text(s);
    }
}

/// The link count of a node, less one for an `a` itself: its elements
/// that are links.
pub open spec fn own_links(m: NodeInfoView) -> int {
    if m.tag_name == "a"@ {
        m.link_tag_num - 1
    } else {
        m.link_tag_num as int
    }
}

/// At every stage of counting the children of an `a`, all its text is
/// link text.
pub proof fn lemma_fold_link_text(d: DomNode, parent_tag: Seq<char>, k: nat)
    requires
        d.data matches DomData::Element { name } && name@ == "a"@,
    ensures
        fold_children(d, parent_tag, k) matches Some(m) ==> {
            &&& m.tag_name == "a"@
            &&& m.link_tag_text_length == m.text_length as i16
        },
    decreases k,
{
    if k == 0 || k > d.children@.len() {
    } else {
        lemma_fold_link_text(d, parent_tag, (k - 1) as nat);
    }
}

/// All text below a link is link text: the link-text length of an `a`
/// is its text length (as an `i16`), whatever its kept children are.
pub proof fn lemma_link_text_of_a(d: DomNode, parent_tag: Seq<char>)
    requires
        d.data matches DomData::Element { name } && name@ == "a"@,
    ensures
        node_view(d, parent_tag) matches Some(m) ==> m.link_tag_text_length == m.text_length as i16,
{
    lemma_fold_link_text(d, parent_tag, d.children@.len());
}

/// The densities of every node other than text in a `div`: the symbol
/// density is its text outside links over its punctuation count plus
/// one; the text density is its text outside links over its elements
/// that are not links, or `0 / 1` when there are none.
pub proof fn lemma_densities(d: DomNode, parent_tag: Seq<char>)
    requires
        !is_patched_text(d, parent_tag),
    ensures
        node_view(d, parent_tag) matches Some(m) ==> {
            &&& m.sbd.numerator == m.text_length - m.link_tag_text_length
            &&& m.sbd.denominator == m.punctuation_num + 1
            &&& m.tag_num - own_links(m) == 0 ==> m.td.numerator == 0 && m.td.denominator == 1
            &&& m.tag_num - own_links(m) != 0 ==> m.td.numerator == m.text_length
                - m.link_tag_text_length && m.td.denominator == m.tag_num - own_links(m)
        },
{
}

/// A `body` search finds a `body` below any node that has one in some
/// child's subtree, and what it finds is a `body`.
pub proof fn lemma_body_search_reaches_children(d: DomNode, parent_tag: Seq<char>, i: int)
    requires
        0 <= i < d.children@.len(),
        body_search(d.children@[i], tag_of(d)) is Some,
    ensures
        body_search(d, parent_tag) is Some,
{
    if !is_body(d) {
        lemma_body_search_among_reaches(d.children@, tag_of(d), i, d.children@.len());
    }
}

/// Among the first `k` trees, a `body` in tree `i < k` is always found.
pub proof fn lemma_body_search_among_reaches(s: Seq<DomNode>, parent_tag: Seq<char>, i: int, k: nat)
    requires
        0 <= i < k <= s.len(),
        body_search(s[i], parent_tag) is Some,
    ensures
        body_search_among(s, parent_tag, k) is Some,
    decreases k,
{
    if k > i + 1 {
        lemma_body_search_among_reaches(s, parent_tag, i, (k - 1) as nat);
    }
}

/// What a `body` search finds is a `body` element.
pub proof fn lemma_body_search_finds_body(d: DomNode, parent_tag: Seq<char>)
    ensures
        body_search(d, parent_tag) matches Some((b, q)) ==> is_body(b) && named_body(b),
    decreases d, 0nat,
{
    if !is_body(d) {
        lemma_body_search_among_finds_body(d.children@, tag_of(d), d.children@.len());
    }
}

/// What a `body` search among trees finds is a `body` element.
pub proof fn lemma_body_search_among_finds_body(s: Seq<DomNode>, parent_tag: Seq<char>, k: nat)
    ensures
        body_search_among(s, parent_tag, k) matches Some((b, q)) ==> is_body(b),
    decreases s, k,
{
    if k == 0 || k > s.len() {
    } else {
        lemma_body_search_among_finds_body(s, parent_tag, (k - 1) as nat);
        lemma_body_search_finds_body(s[k - 1], parent_tag);
    }
}

/// Whether the page reader's text-density divisor of `m` is zero: it has
/// no elements that are not links.
pub open spec fn page_no_divisor(m: NodeInfoView) -> bool {
    m.tag_num - own_links(m) == 0
}

/// At every stage of the page reader's counting, once a child is kept
/// and the node has no elements that are not links, its text density is
/// its text outside links.
pub proof fn lemma_page_fold_density_without_divisor(d: DomNode, k: nat)
    ensures
        page_fold(d, k) matches Some(m) ==> (m.children.len() > 0 && page_no_divisor(m)
            ==> m.td.numerator == m.text_length - m.link_tag_text_length),
    decreases k,
{
    if k == 0 || k > d.children@.len() {
        assert(page_own_view(d).children.len() == 0);
    } else {
        lemma_page_fold_density_without_divisor(d, (k - 1) as nat);
        lemma_page_fold_whole_density(d, (k - 1) as nat);
        match page_fold(d, (k - 1) as nat) {
            None => {},
            Some(m) => match page_view(d.children@[k - 1]) {
                None => {},
                Some(c) => if page_is_valid(c) {
                    match page_absorb_child(m, c) {
                        None => {},
                        Some(m2) => {
                            assert(m2.tag_name == m.tag_name);
                        },
                    }
                },
            },
        }
    }
}

/// In the page reader, a node with a kept child and no elements that are
/// not links has as text density its text outside links (zero for an `a`
/// whose text is all link text).
pub proof fn lemma_page_density_without_divisor(d: DomNode)
    ensures
        page_view(d) matches Some(m) ==> (m.children.len() > 0 && page_no_divisor(m)
            ==> m.td.numerator == m.text_length - m.link_tag_text_length),
{
    lemma_page_fold_density_without_divisor(d, d.children@.len());
}

/// The tag classes, by their members: text tags are `p`, `li`, `code`
/// and `blockquote`; style tags `strong` and `font`; container tags all
/// but `p`, `ul`, `li`, `code` and `pre`.
pub proof fn lemma_tag_classes(t: Seq<char>)
    ensures
        is_text_tag_name(t) <==> (t == "p"@ || t == "li"@ || t == "code"@ || t == "blockquote"@),
        is_style_tag_name(t) <==> (t == "strong"@ || t == "font"@),
        is_container_tag_name(t) <==> !(t == "p"@ || t == "ul"@ || t == "li"@ || t == "code"@
            || t == "pre"@),
{
}

/// Which nodes are kept: a text node with some text, or an element with
/// an element or text below it, whose tag is none of `script`, `style`,
/// `map`, `form`, `img`, `input`; the page reader keeps `input` too.
pub proof fn lemma_validity(m: NodeInfoView)
    ensures
        view_is_valid(m) <==> ((m.node_type == NodeTypeEnum::Text && m.text_length != 0) || (
        m.node_type == NodeTypeEnum::Element && (m.tag_num != 0 || m.text_length != 0))) && !(
        m.tag_name == "script"@ || m.tag_name == "style"@ || m.tag_name == "map"@ || m.tag_name
            == "form"@ || m.tag_name == "img"@ || m.tag_name == "input"@),
        page_is_valid(m) <==> ((m.node_type == NodeTypeEnum::Text && m.text_length != 0) || (
        m.node_type == NodeTypeEnum::Element && (m.tag_num != 0 || m.text_length != 0))) && !(
        m.tag_name == "script"@ || m.tag_name == "style"@ || m.tag_name == "map"@ || m.tag_name
            == "form"@ || m.tag_name == "img"@),
{
}

/// The score weights leave the node itself out: a text tag's own count
/// of text elements, a `p`'s own count of paragraphs, less one.
pub proof fn lemma_score_weights(m: NodeInfoView)
    ensures
        adjusted_text_tag_num(m) == m.text_tag_num - if m.tag_name == "p"@ || m.tag_name == "li"@
            || m.tag_name == "code"@ || m.tag_name == "blockquote"@ {
            1int
        } else {
            0int
        },
        adjusted_p_tag_num(m) == m.p_tag_num - if m.tag_name == "p"@ {
            1int
        } else {
            0int
        },
{
}

/// An element's statistics: its tag, its kind, no text of its own, one
/// link if it is an `a`, one paragraph if it is a `p`, one text element
/// if it is a text tag, each plus the sums over its kept children, and
/// an element count made of the kept children's counts plus one for
/// each kept child element that is not a style tag.
pub proof fn lemma_element_statistics(d: DomNode, parent_tag: Seq<char>)
    requires
        d.data is Element,
    ensures
        node_view(d, parent_tag) matches Some(m) ==> {
            &&& d.data matches DomData::Element { name } && m.tag_name == name@
            &&& m.node_type == NodeTypeEnum::Element
            &&& m.text.len() == 0
            &&& m.link_tag_num == (if m.tag_name == "a"@ { 1int } else { 0int })
                + sum_link_tag_num(m.children)
            &&& m.p_tag_num == (if m.tag_name == "p"@ { 1int } else { 0int }) + sum_p_tag_num(
                m.children,
            )
            &&& m.text_tag_num == (if m.tag_name == "p"@ || m.tag_name == "li"@ || m.tag_name
                == "code"@ || m.tag_name == "blockquote"@ { 1int } else { 0int })
                + sum_text_tag_num(m.children)
            &&& m.text_length == sum_text_length(m.children)
            &&& m.punctuation_num == sum_punctuation_num(m.children)
            &&& m.tag_num == sum_tag_weight(m.children)
        },
{
    lemma_node_view_aggregates(d, parent_tag);
    lemma_fold_aggregates(d, parent_tag, d.children@.len());
    if let DomData::Element { name } = d.data {
        assert(own_view(d, parent_tag) == Some(crate::node_info::element_view(name@)));
    }
}

/// A child element adds one to its parent's element count exactly when
/// it is not a `strong` or `font`.
pub proof fn lemma_tag_weight(c: NodeInfoView)
    ensures
        tag_weight(c) == c.tag_num + if c.node_type == NodeTypeEnum::Element && !(c.tag_name
            == "strong"@ || c.tag_name == "font"@) {
            1int
        } else {
            0int
        },
{
}

/// Text outside a `div`, with nothing below it: a text node with no tag,
/// its text without blanks, that text's length and punctuation count, no
/// elements and no children, a text density of `0 / 1` and a symbol
/// density of its length over its punctuation count plus one.
pub proof fn lemma_text_statistics(d: DomNode, parent_tag: Seq<char>)
    requires
        d.data is Text,
        parent_tag != "div"@,
        d.children@.len() == 0,
    ensures
        node_view(d, parent_tag) matches Some(m) ==> {
            &&& m.node_type == NodeTypeEnum::Text
            &&& m.tag_name.len() == 0
            &&& d.data matches DomData::Text { contents } && m.text == without_blanks(contents@)
            &&& d.data matches DomData::Text { contents } && m.text_length == without_blanks(
                contents@,
            ).len() as i32
            &&& d.data matches DomData::Text { contents } && m.punctuation_num
                == punctuation_count(without_blanks(contents@))
            &&& m.tag_num == 0 && m.link_tag_num == 0 && m.link_tag_text_length == 0
            &&& m.children.len() == 0
            &&& m.td.numerator == 0 && m.td.denominator == 1
            &&& m.sbd.numerator == m.text_length && m.sbd.denominator == m.punctuation_num + 1
        },
{
    lemma_node_view_counts(d, parent_tag);
    reveal_strlit("a");
    assert("a"@.len() == 1);
    assert(Seq::<char>::empty() != "a"@);
}

/// The `body` a search finds is the one in the first child subtree that
/// has one.
pub proof fn lemma_body_search_first(d: DomNode, parent_tag: Seq<char>, i: int)
    requires
        !named_body(d),
        0 <= i < d.children@.len(),
        body_search(d.children@[i], tag_of(d)) is Some,
        forall|j: int| 0 <= j < i ==> body_search(#[trigger] d.children@[j], tag_of(d)) is None,
    ensures
        body_search(d, parent_tag) == body_search(d.children@[i], tag_of(d)),
{
    lemma_body_search_among_first(d.children@, tag_of(d), i, (i + 1) as nat);
    crate::node_info::lemma_body_search_among_found(
        d.children@,
        tag_of(d),
        (i + 1) as nat,
        d.children@.len(),
    );
}

/// Among trees, the search result is that of the first tree with a `body`.
pub proof fn lemma_body_search_among_first(s: Seq<DomNode>, parent_tag: Seq<char>, i: int, k: nat)
    requires
        0 <= i < k <= s.len(),
        k == i + 1,
        forall|j: int| 0 <= j < i ==> body_search(#[trigger] s[j], parent_tag) is None,
    ensures
        body_search_among(s, parent_tag, k) == body_search(s[i], parent_tag),
{
    lemma_body_search_among_none(s, parent_tag, i as nat);
}

/// No `body` in the first `k` trees means none is found among them.
pub proof fn lemma_body_search_among_none(s: Seq<DomNode>, parent_tag: Seq<char>, k: nat)
    requires
        k <= s.len(),
        forall|j: int| 0 <= j < k ==> body_search(#[trigger] s[j], parent_tag) is None,
    ensures
        body_search_among(s, parent_tag, k) is None,
    decreases k,
{
    if k > 0 {
        lemma_body_search_among_none(s, parent_tag, (k - 1) as nat);
    }
}

/// The text densities below a node are listed in document order: each
/// child's own density, then those below it, child after child.
pub proof fn lemma_tree_densities_in_order(a: Seq<NodeInfoView>, b: Seq<NodeInfoView>, t: NodeInfoView)
    ensures
        forest_tds(a + b) == forest_tds(a) + forest_tds(b),
        forest_tds(seq![t]) == seq![t.td] + forest_tds(t.children),
        subtree_tds(t) == forest_tds(t.children),
    decreases b.len(),
{
    if b.len() == 0 {
        assert(a + b =~= a);
        assert(forest_tds(a) + forest_tds(b) =~= forest_tds(a));
    } else {
        lemma_tree_densities_in_order(a, b.drop_last(), t);
        assert((a + b).drop_last() =~= a + b.drop_last());
        assert((a + b).last() == b.last());
        assert(forest_tds(a) + forest_tds(b.drop_last()) + seq![b.last().td] + subtree_tds(b.last())
            =~= forest_tds(a) + (forest_tds(b.drop_last()) + seq![b.last().td] + subtree_tds(
            b.last(),
        )));
    }
    let s = seq![t];
    assert(s.drop_last() =~= Seq::<NodeInfoView>::empty());
    assert(forest_tds(Seq::<NodeInfoView>::empty()) =~= Seq::<Ratio>::empty());
    assert(s.last() == t);
    assert(Seq::<Ratio>::empty() + seq![t.td] + subtree_tds(t) =~= seq![t.td] + subtree_tds(t));
}

/// Whether `d` is an element whose tag is `body`.
pub open spec fn named_body(d: DomNode) -> bool {
    d.data matches DomData::Element { name } && name@ == "body"@
}

/// The page reader handles `body` elements only; a `body` at the top is
/// handled alone (no `body` inside it); and every `body` in a child's
/// subtree of a non-`body` node is handled.
pub proof fn lemma_page_bodies(d: DomNode)
    ensures
        forall|i: int| 0 <= i < page_bodies(d).len() ==> named_body(#[trigger] page_bodies(d)[i]),
        named_body(d) ==> page_bodies(d) == seq![d],
        !named_body(d) ==> forall|i: int|
            0 <= i < d.children@.len() ==> page_bodies(d).len() >= page_bodies(
                #[trigger] d.children@[i],
            ).len(),
    decreases d, 0nat,
{
    if !is_body(d) {
        lemma_page_bodies_among(d.children@, d.children@.len());
    }
}

/// The page reader's `body` elements among trees are `body` elements, and
/// at least as many as in any one of the trees.
pub proof fn lemma_page_bodies_among(s: Seq<DomNode>, k: nat)
    requires
        k <= s.len(),
    ensures
        forall|i: int|
            0 <= i < page_bodies_among(s, k).len() ==> named_body(#[trigger] page_bodies_among(s, k)[i]),
        forall|i: int|
            0 <= i < k ==> page_bodies_among(s, k).len() >= page_bodies(#[trigger] s[i]).len(),
    decreases s, k,
{
    if k > 0 {
        lemma_page_bodies_among(s, (k - 1) as nat);
        lemma_page_bodies(s[k - 1]);
        let prev = page_bodies_among(s, (k - 1) as nat);
        let here = page_bodies(s[k - 1]);
        assert forall|i: int|
            0 <= i < page_bodies_among(s, k).len() implies named_body(#[trigger] page_bodies_among(s, k)[i]) by {
            if i < prev.len() {
                assert(page_bodies_among(s, k)[i] == prev[i]);
            } else {
                assert(page_bodies_among(s, k)[i] == here[i - prev.len()]);
            }
        }
    }
}

/// The value of a lowercase hexadecimal digit.
pub open spec fn hex_digit_value(c: char) -> int {
    if '0' <= c && c <= '9' {
        (c as u32) - ('0' as u32)
    } else {
        (c as u32) - ('a' as u32) + 10
    }
}

/// The number a lowercase hexadecimal numeral stands for.
pub open spec fn hex_value(s: Seq<char>) -> int
    decreases s.len(),
{
    if s.len() == 0 {
        0
    } else {
        hex_value(s.drop_last()) * 16 + hex_digit_value(s.last())
    }
}

/// The numerals `escape_default` writes for code points are made of the
/// digits `0` to `9` and `a` to `f`, have no leading zero, and stand for
/// the number they were made from.
pub proof fn lemma_hex_of_value(n: nat)
    ensures
        hex_value(hex_of(n)) == n,
        hex_of(n).len() >= 1,
        n > 0 ==> hex_of(n)[0] != '0',
        forall|i: int|
            0 <= i < hex_of(n).len() ==> ('0' <= #[trigger] hex_of(n)[i] <= '9' || 'a' <= hex_of(
                n,
            )[i] <= 'f'),
    decreases n,
{
    assert forall|d: int| 0 <= d < 16 implies hex_digit_value(#[trigger] hex_chars()[d]) == d && (
    '0' <= hex_chars()[d] <= '9' || 'a' <= hex_chars()[d] <= 'f') && (d > 0 ==> hex_chars()[d]
        != '0') by {
        assert(hex_chars()[0] == '0');
        assert(hex_chars()[1] == '1');
        assert(hex_chars()[2] == '2');
        assert(hex_chars()[3] == '3');
        assert(hex_chars()[4] == '4');
        assert(hex_chars()[5] == '5');
        assert(hex_chars()[6] == '6');
        assert(hex_chars()[7] == '7');
        assert(hex_chars()[8] == '8');
        assert(hex_chars()[9] == '9');
        assert(hex_chars()[10] == 'a');
        assert(hex_chars()[11] == 'b');
        assert(hex_chars()[12] == 'c');
        assert(hex_chars()[13] == 'd');
        assert(hex_chars()[14] == 'e');
        assert(hex_chars()[15] == 'f');
    }
    if n < 16 {
        let s = hex_of(n);
        assert(s.len() == 1);
        assert(s.drop_last() =~= Seq::<char>::empty());
        assert(s.last() == hex_chars()[n as int]);
        assert(hex_value(Seq::<char>::empty()) == 0);
        assert(hex_value(s) == hex_digit_value(hex_chars()[n as int]));
    } else {
        lemma_hex_of_value(n / 16);
        let prev = hex_of(n / 16);
        let s = hex_of(n);
        assert(s.drop_last() =~= prev);
        assert(s.last() == hex_chars()[(n % 16) as int]);
        assert(s[0] == prev[0]);
        assert(hex_value(s) == hex_value(prev) * 16 + hex_digit_value(hex_chars()[(n % 16) as int]));
        assert(n == (n / 16) * 16 + n % 16);
        assert(n / 16 > 0);
        assert forall|i: int| 0 <= i < s.len() implies ('0' <= #[trigger] s[i] <= '9' || 'a' <= s[i]
            <= 'f') by {
            if i < prev.len() {
                assert(s[i] == prev[i]);
            }
        }
    }
}

/// How `escape_default` writes one character: tab, carriage return and
/// line feed as a backslash and `t`, `r`, `n`; backslash and the quotes
/// behind a backslash; the other characters from space to `~` as they
/// are; every other character as `\u{`, the lowercase hexadecimal numeral
/// of its code point, and `}`.
pub proof fn lemma_char_escape_cases(c: char)
    ensures
        c == '\t' ==> char_escape(c) == seq!['\\', 't'],
        c == '\r' ==> char_escape(c) == seq!['\\', 'r'],
        c == '\n' ==> char_escape(c) == seq!['\\', 'n'],
        (c == '\\' || c == '\'' || c == '"') ==> char_escape(c) == seq!['\\', c],
        (' ' <= c <= '~' && c != '\\' && c != '\'' && c != '"') ==> char_escape(c) == seq![c],
        !(' ' <= c <= '~' || c == '\t' || c == '\r' || c == '\n') ==> {
            let e = char_escape(c);
            &&& e.len() >= 4
            &&& e[0] == '\\' && e[1] == 'u' && e[2] == '{' && e[e.len() - 1] == '}'
            &&& hex_value(e.subrange(3, e.len() - 1)) == c as u32
        },
{
    lemma_hex_of_value(c as u32 as nat);
    if !(' ' <= c <= '~' || c == '\t' || c == '\r' || c == '\n') {
        let h = hex_of(c as u32 as nat);
        let e = char_escape(c);
        assert(e.subrange(3, e.len() - 1) =~= h);
    }
}

/// Whether `x` lies in `-32768 ..= 32767`.
pub open spec fn in_16_bits(x: int) -> bool {
    -32768 <= x <= 32767
}

/// Whether `x` lies in `-2147483648 ..= 2147483647`.
pub open spec fn in_32_bits(x: int) -> bool {
    -2147483648 <= x <= 2147483647
}

/// Counting a kept child fails exactly when a sum overflows: the element,
/// link, paragraph, text-element, punctuation, kept-child and
/// text-tag-child counts must stay within 16 bits, the text length within
/// 32 bits, and, unless the node is an `a`, the link-text length within
/// 16 bits.
pub proof fn lemma_absorb_fails_only_on_overflow(m: NodeInfoView, c: NodeInfoView)
    ensures
        absorb_child(m, c) is Some <==> {
            &&& in_16_bits(m.tag_num + c.tag_num)
            &&& in_16_bits(m.tag_num + tag_weight(c))
            &&& in_32_bits(m.text_length + c.text_length)
            &&& in_16_bits(m.link_tag_num + c.link_tag_num)
            &&& in_16_bits(m.p_tag_num + c.p_tag_num)
            &&& in_16_bits(m.text_tag_num + c.text_tag_num)
            &&& in_16_bits(m.punctuation_num + c.punctuation_num)
            &&& in_16_bits(m.direct_tag_num + 1)
            &&& in_16_bits(m.direct_child_text_tag_num + if is_text_tag_name(c.tag_name) {
                1int
            } else {
                0int
            })
            &&& m.tag_name != "a"@ ==> in_16_bits(m.link_tag_text_length + c.link_tag_text_length)
        },
{
}

/// Finishing a node's counts fails only for an `a` whose link count is
/// already the least 16-bit value.
pub proof fn lemma_finish_fails_only_on_overflow(m: NodeInfoView)
    ensures
        finish_view(m) is None <==> (m.tag_name == "a"@ && m.link_tag_num == -32768),
{
}

/// A node's own data fails to count only when its text has more
/// punctuation characters than 16 bits hold.
pub proof fn lemma_own_fails_only_on_overflow(d: DomNode, parent_tag: Seq<char>)
    ensures
        own_view(d, parent_tag) is None <==> (d.data matches DomData::Text { contents }
            && punctuation_count(without_blanks(contents@)) > 32767),
{
}

/// The page reader's counting of a kept child fails exactly when a sum
/// overflows, or the rounded quotient of the text outside links by the
/// elements that are not links does not fit in 32 bits.
pub proof fn lemma_page_absorb_fails_only_on_overflow(m: NodeInfoView, c: NodeInfoView)
    ensures
        page_absorb_child(m, c) is Some <==> {
            let tag_num = m.tag_num + page_tag_weight(c);
            let text_length = m.text_length + c.text_length;
            let links = m.link_tag_num + c.link_tag_num;
            let is_link = m.tag_name == "a"@;
            let link_text = if is_link {
                (text_length as i32) as i16 as int
            } else {
                m.link_tag_text_length + c.link_tag_text_length
            };
            let other_links = if is_link { links - 1 } else { links };
            let net = text_length - link_text;
            &&& in_16_bits(m.tag_num + c.tag_num)
            &&& in_16_bits(tag_num)
            &&& in_32_bits(text_length)
            &&& in_16_bits(links)
            &&& in_16_bits(m.p_tag_num + c.p_tag_num)
            &&& in_16_bits(link_text)
            &&& in_16_bits(other_links)
            &&& in_32_bits(net)
            &&& !(net == -2147483648 && tag_num - other_links == -1)
        },
{
    let tag_num = m.tag_num + page_tag_weight(c);
    let text_length = m.text_length + c.text_length;
    let links = m.link_tag_num + c.link_tag_num;
    let is_link = m.tag_name == "a"@;
    let link_text = if is_link {
        (text_length as i32) as i16 as int
    } else {
        m.link_tag_text_length + c.link_tag_text_length
    };
    let other_links = if is_link { links - 1 } else { links };
    let net = text_length - link_text;
    let d = tag_num - other_links;
    if in_32_bits(net) && d != 0 && in_16_bits(tag_num) && in_16_bits(other_links) {
        lemma_quotient_bounds(net, d);
    }
}

/// Bounds on the quotient rounded toward zero of a 32-bit `x` by a
/// non-zero `d`: it fits in 32 bits except for the least value by `-1`.
pub proof fn lemma_quotient_bounds(x: int, d: int)
    requires
        in_32_bits(x),
        d != 0,
        -65536 <= d <= 65536,
    ensures
        (x as i32).checked_div(d as i32) is Some <==> !(x == -2147483648 && d == -1),
{
    if x > 0 && d > 0 {
        assert(0 <= x / d <= x) by (nonlinear_arith)
            requires
                x > 0,
                d > 0,
        ;
    } else if x < 0 && d < 0 {
        if d < -1 {
            assert(0 <= (x * -1) / (d * -1) <= (x * -1) / 2) by (nonlinear_arith)
                requires
                    x < 0,
                    d < -1,
            ;
        }
    } else if x < 0 && d > 0 {
        assert(0 <= (x * -1) / d <= x * -1) by (nonlinear_arith)
            requires
                x < 0,
                d > 0,
        ;
    } else if x > 0 && d < 0 {
        assert(0 <= x / (d * -1) <= x) by (nonlinear_arith)
            requires
                x > 0,
                d < 0,
        ;
    }
}

/// The page reader's statistics of an element: its tag, one link if it
/// is an `a` and one paragraph if it is a `p`, each plus the sums over
/// its kept children; of a text node: its text without blanks and that
/// text's length, plus the sums over its kept children.
pub proof fn lemma_page_own_statistics(d: DomNode)
    ensures
        page_view(d) matches Some(m) ==> {
            &&& d.data matches DomData::Element { name } ==> {
                &&& m.tag_name == name@
                &&& m.node_type == NodeTypeEnum::Element
                &&& m.link_tag_num == (if name@ == "a"@ { 1int } else { 0int }) + sum_link_tag_num(
                    m.children,
                )
                &&& m.p_tag_num == (if name@ == "p"@ { 1int } else { 0int }) + sum_p_tag_num(
                    m.children,
                )
                &&& m.text_length == sum_text_length(m.children)
            }
            &&& d.data matches DomData::Text { contents } ==> {
                &&& m.node_type == NodeTypeEnum::Text
                &&& m.text == without_blanks(contents@)
                &&& m.text_length == (without_blanks(contents@).len() as i32) + sum_text_length(
                    m.children,
                )
                &&& m.tag_num == sum_page_tag_weight(m.children)
            }
        },
{
    lemma_page_view_whole_density(d);
    lemma_page_fold_own(d, d.children@.len());
}

/// The page reader keeps a node's tag, kind and text while counting its
/// children.
pub proof fn lemma_page_fold_own(d: DomNode, k: nat)
    ensures
        page_fold(d, k) matches Some(m) ==> {
            &&& m.tag_name == page_own_view(d).tag_name
            &&& m.node_type == page_own_view(d).node_type
            &&& m.text == page_own_view(d).text
        },
    decreases k,
{
    if k > 0 && k <= d.children@.len() {
        lemma_page_fold_own(d, (k - 1) as nat);
    }
}

} // verus!
