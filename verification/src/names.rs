//! The id and label strings of the generated nodes.
//!
//! Each node carries an `id` built from the template `node-{i}`,
//! `node-{i}-{j}` or `node-{i}-{j}-{k}`, and a `label` built from the
//! same positional indices with a distinct, non-ASCII prefix.

use vstd::prelude::*;
use vstd::string::StringExecFns;

use crate::digits::dec_rep;
use crate::digits::push_decimal;

verus! {

/// The characters of the id template prefix, `"node-"`.
pub open spec fn id_prefix() -> Seq<char> {
    seq!['n', 'o', 'd', 'e', '-']
}

/// The characters of the label template prefix: the two CJK characters
/// for "node" followed by a space.
pub open spec fn label_prefix() -> Seq<char> {
    seq!['\u{8282}', '\u{70b9}', ' ']
}

/// The separator between consecutive indices of a node path.
pub open spec fn index_sep() -> Seq<char> {
    seq!['-']
}

/// `"node-{i}"`.
pub open spec fn root_id(i: int) -> Seq<char> {
    id_prefix() + dec_rep(i)
}

/// `"node-{i}-{j}"`.
pub open spec fn child_id(i: int, j: int) -> Seq<char> {
    root_id(i) + index_sep() + dec_rep(j)
}

/// `"node-{i}-{j}-{k}"`.
pub open spec fn grandchild_id(i: int, j: int, k: int) -> Seq<char> {
    child_id(i, j) + index_sep() + dec_rep(k)
}

/// The label template applied to one index.
pub open spec fn root_label(i: int) -> Seq<char> {
    label_prefix() + dec_rep(i)
}

/// The label template applied to two indices.
pub open spec fn child_label(i: int, j: int) -> Seq<char> {
    root_label(i) + index_sep() + dec_rep(j)
}

/// The label template applied to three indices.
pub open spec fn grandchild_label(i: int, j: int, k: int) -> Seq<char> {
    child_label(i, j) + index_sep() + dec_rep(k)
}

/// Two equal concatenations with the same prefix have equal suffixes.
proof fn lemma_append_cancel(p: Seq<char>, s1: Seq<char>, s2: Seq<char>)
    requires
        p + s1 == p + s2,
    ensures
        s1 == s2,
{
    assert((p + s1).len() == (p + s2).len());
    assert((p + s1).len() == p.len() + s1.len());
    assert((p + s2).len() == p.len() + s2.len());
    assert(s1.len() == s2.len());
    assert(s1 =~= s2) by {
        assert forall|x: int| 0 <= x < s1.len() implies s1[x] == s2[x] by {
            assert((p + s1)[p.len() + x] == s1[x]);
            assert((p + s2)[p.len() + x] == s2[x]);
        }
    }
}

/// The first separator splits a concatenation unambiguously: if the
/// parts before the separator are free of it, equal concatenations have
/// equal parts on both sides of it.
proof fn lemma_sep_split(u1: Seq<char>, v1: Seq<char>, u2: Seq<char>, v2: Seq<char>)
    requires
        u1 + index_sep() + v1 == u2 + index_sep() + v2,
        forall|p: int| 0 <= p < u1.len() ==> #[trigger] u1[p] != '-',
        forall|p: int| 0 <= p < u2.len() ==> #[trigger] u2[p] != '-',
    ensures
        u1 == u2,
        v1 == v2,
{
    let l1 = u1 + index_sep() + v1;
    let l2 = u2 + index_sep() + v2;
    if u1.len() < u2.len() {
        assert(l1[u1.len() as int] == '-');
        assert(l2[u1.len() as int] == u2[u1.len() as int]);
        assert(false);
    }
    if u2.len() < u1.len() {
        assert(l2[u2.len() as int] == '-');
        assert(l1[u2.len() as int] == u1[u2.len() as int]);
        assert(false);
    }
    assert(u1 =~= u2) by {
        assert forall|x: int| 0 <= x < u1.len() implies u1[x] == u2[x] by {
            assert(l1[x] == u1[x]);
            assert(l2[x] == u2[x]);
        }
    }
    assert(l1.len() == l2.len());
    assert(v1 =~= v2) by {
        assert forall|x: int| 0 <= x < v1.len() implies v1[x] == v2[x] by {
            assert(l1[u1.len() + 1 + x] == v1[x]);
            assert(l2[u2.len() + 1 + x] == v2[x]);
        }
    }
}

/// A root id determines its root index.
proof fn lemma_root_id_injective(i1: int, i2: int)
    requires
        i1 >= 0,
        i2 >= 0,
        root_id(i1) == root_id(i2),
    ensures
        i1 == i2,
{
    lemma_append_cancel(id_prefix(), dec_rep(i1), dec_rep(i2));
    crate::digits::lemma_dec_rep_injective(i1, i2);
}

/// A child id determines its root and child indices.
proof fn lemma_child_id_injective(i1: int, j1: int, i2: int, j2: int)
    requires
        i1 >= 0,
        j1 >= 0,
        i2 >= 0,
        j2 >= 0,
        child_id(i1, j1) == child_id(i2, j2),
    ensures
        i1 == i2,
        j1 == j2,
{
    crate::digits::lemma_dec_rep_no_sep(i1);
    crate::digits::lemma_dec_rep_no_sep(i2);
    assert(child_id(i1, j1) =~= id_prefix() + (dec_rep(i1) + index_sep() + dec_rep(j1)));
    assert(child_id(i2, j2) =~= id_prefix() + (dec_rep(i2) + index_sep() + dec_rep(j2)));
    lemma_append_cancel(
        id_prefix(),
        dec_rep(i1) + index_sep() + dec_rep(j1),
        dec_rep(i2) + index_sep() + dec_rep(j2),
    );
    lemma_sep_split(dec_rep(i1), dec_rep(j1), dec_rep(i2), dec_rep(j2));
    crate::digits::lemma_dec_rep_injective(i1, i2);
    crate::digits::lemma_dec_rep_injective(j1, j2);
}

/// A grandchild id determines all three indices of its path.
proof fn lemma_grandchild_id_injective(i1: int, j1: int, k1: int, i2: int, j2: int, k2: int)
    requires
        i1 >= 0,
        j1 >= 0,
        k1 >= 0,
        i2 >= 0,
        j2 >= 0,
        k2 >= 0,
        grandchild_id(i1, j1, k1) == grandchild_id(i2, j2, k2),
    ensures
        i1 == i2,
        j1 == j2,
        k1 == k2,
{
    crate::digits::lemma_dec_rep_no_sep(i1);
    crate::digits::lemma_dec_rep_no_sep(i2);
    crate::digits::lemma_dec_rep_no_sep(j1);
    crate::digits::lemma_dec_rep_no_sep(j2);
    assert(grandchild_id(i1, j1, k1) =~= id_prefix() + (dec_rep(i1) + index_sep() + (dec_rep(j1)
        + index_sep() + dec_rep(k1))));
    assert(grandchild_id(i2, j2, k2) =~= id_prefix() + (dec_rep(i2) + index_sep() + (dec_rep(j2)
        + index_sep() + dec_rep(k2))));
    lemma_append_cancel(
        id_prefix(),
        dec_rep(i1) + index_sep() + (dec_rep(j1) + index_sep() + dec_rep(k1)),
        dec_rep(i2) + index_sep() + (dec_rep(j2) + index_sep() + dec_rep(k2)),
    );
    lemma_sep_split(
        dec_rep(i1),
        dec_rep(j1) + index_sep() + dec_rep(k1),
        dec_rep(i2),
        dec_rep(j2) + index_sep() + dec_rep(k2),
    );
    lemma_sep_split(dec_rep(j1), dec_rep(k1), dec_rep(j2), dec_rep(k2));
    crate::digits::lemma_dec_rep_injective(i1, i2);
    crate::digits::lemma_dec_rep_injective(j1, j2);
    crate::digits::lemma_dec_rep_injective(k1, k2);
}

/// A root id never equals a child id: the suffix after the shared
/// prefix is separator-free in one and holds a separator in the other.
proof fn lemma_root_child_distinct(i1: int, i2: int, j2: int)
    requires
        i1 >= 0,
        i2 >= 0,
        j2 >= 0,
    ensures
        root_id(i1) != child_id(i2, j2),
{
    if root_id(i1) == child_id(i2, j2) {
        crate::digits::lemma_dec_rep_no_sep(i1);
        crate::digits::lemma_dec_rep_len(j2);
        assert(child_id(i2, j2) =~= id_prefix() + (dec_rep(i2) + index_sep() + dec_rep(j2)));
        lemma_append_cancel(id_prefix(), dec_rep(i1), dec_rep(i2) + index_sep() + dec_rep(j2));
        let s = dec_rep(i2) + index_sep() + dec_rep(j2);
        assert(s[dec_rep(i2).len() as int] == '-');
        assert(dec_rep(i1)[dec_rep(i2).len() as int] != '-');
        assert(false);
    }
}

/// A root id never equals a grandchild id.
proof fn lemma_root_grandchild_distinct(i1: int, i2: int, j2: int, k2: int)
    requires
        i1 >= 0,
        i2 >= 0,
        j2 >= 0,
        k2 >= 0,
    ensures
        root_id(i1) != grandchild_id(i2, j2, k2),
{
    if root_id(i1) == grandchild_id(i2, j2, k2) {
        crate::digits::lemma_dec_rep_no_sep(i1);
        crate::digits::lemma_dec_rep_len(j2);
        crate::digits::lemma_dec_rep_len(k2);
        assert(grandchild_id(i2, j2, k2) =~= id_prefix() + (dec_rep(i2) + index_sep() + (dec_rep(
            j2,
        ) + index_sep() + dec_rep(k2))));
        lemma_append_cancel(
            id_prefix(),
            dec_rep(i1),
            dec_rep(i2) + index_sep() + (dec_rep(j2) + index_sep() + dec_rep(k2)),
        );
        let s = dec_rep(i2) + index_sep() + (dec_rep(j2) + index_sep() + dec_rep(k2));
        assert(s[dec_rep(i2).len() as int] == '-');
        assert(dec_rep(i1)[dec_rep(i2).len() as int] != '-');
        assert(false);
    }
}

/// A child id never equals a grandchild id.
proof fn lemma_child_grandchild_distinct(i1: int, j1: int, i2: int, j2: int, k2: int)
    requires
        i1 >= 0,
        j1 >= 0,
        i2 >= 0,
        j2 >= 0,
        k2 >= 0,
    ensures
        child_id(i1, j1) != grandchild_id(i2, j2, k2),
{
    if child_id(i1, j1) == grandchild_id(i2, j2, k2) {
        crate::digits::lemma_dec_rep_no_sep(i1);
        crate::digits::lemma_dec_rep_no_sep(i2);
        crate::digits::lemma_dec_rep_no_sep(j1);
        crate::digits::lemma_dec_rep_len(k2);
        assert(child_id(i1, j1) =~= id_prefix() + (dec_rep(i1) + index_sep() + dec_rep(j1)));
        assert(grandchild_id(i2, j2, k2) =~= id_prefix() + (dec_rep(i2) + index_sep() + (dec_rep(
            j2,
        ) + index_sep() + dec_rep(k2))));
        lemma_append_cancel(
            id_prefix(),
            dec_rep(i1) + index_sep() + dec_rep(j1),
            dec_rep(i2) + index_sep() + (dec_rep(j2) + index_sep() + dec_rep(k2)),
        );
        lemma_sep_split(
            dec_rep(i1),
            dec_rep(j1),
            dec_rep(i2),
            dec_rep(j2) + index_sep() + dec_rep(k2),
        );
        let s = dec_rep(j2) + index_sep() + dec_rep(k2);
        assert(s[dec_rep(j2).len() as int] == '-');
        assert(dec_rep(j1)[dec_rep(j2).len() as int] != '-');
        assert(false);
    }
}

/// Ids are unique within a forest: each id template is injective in its
/// 1-based indices, and the three templates never collide across
/// levels, so nodes at distinct positions carry distinct ids.
pub proof fn lemma_node_ids_injective(i1: int, j1: int, k1: int, i2: int, j2: int, k2: int)
    requires
        i1 >= 0,
        j1 >= 0,
        k1 >= 0,
        i2 >= 0,
        j2 >= 0,
        k2 >= 0,
    ensures
        root_id(i1) == root_id(i2) ==> i1 == i2,
        child_id(i1, j1) == child_id(i2, j2) ==> (i1 == i2 && j1 == j2),
        grandchild_id(i1, j1, k1) == grandchild_id(i2, j2, k2) ==> (i1 == i2 && j1 == j2
            && k1 == k2),
        root_id(i1) != child_id(i2, j2),
        root_id(i1) != grandchild_id(i2, j2, k2),
        child_id(i1, j1) != grandchild_id(i2, j2, k2),
{
    if root_id(i1) == root_id(i2) {
        lemma_root_id_injective(i1, i2);
    }
    if child_id(i1, j1) == child_id(i2, j2) {
        lemma_child_id_injective(i1, j1, i2, j2);
    }
    if grandchild_id(i1, j1, k1) == grandchild_id(i2, j2, k2) {
        lemma_grandchild_id_injective(i1, j1, k1, i2, j2, k2);
    }
    lemma_root_child_distinct(i1, i2, j2);
    lemma_root_grandchild_distinct(i1, i2, j2, k2);
    lemma_child_grandchild_distinct(i1, j1, i2, j2, k2);
}

/// Appends `-{n}` to `s`.
fn push_sep_decimal(s: &mut String, n: u32)
    ensures
        final(s)@ == old(s)@ + index_sep() + dec_rep(n as int),
{
    proof {
        reveal_strlit("-");
        assert("-"@ =~= index_sep());
    }
    s.append("-");
    push_decimal(s, n);
}

/// Builds `"node-{i}"`.
pub fn root_id_string(i: u32) -> (r: String)
    ensures
        r@ == root_id(i as int),
{
    proof {
        reveal_strlit("node-");
        assert("node-"@ =~= id_prefix());
    }
    let mut s = "node-".to_owned();
    push_decimal(&mut s, i);
    s
}

/// Builds `"node-{i}-{j}"`.
pub fn child_id_string(i: u32, j: u32) -> (r: String)
    ensures
        r@ == child_id(i as int, j as int),
{
    let mut s = root_id_string(i);
    push_sep_decimal(&mut s, j);
    s
}

/// Builds `"node-{i}-{j}-{k}"`.
pub fn grandchild_id_string(i: u32, j: u32, k: u32) -> (r: String)
    ensures
        r@ == grandchild_id(i as int, j as int, k as int),
{
    let mut s = child_id_string(i, j);
    push_sep_decimal(&mut s, k);
    s
}

/// Builds the one-index label.
pub fn root_label_string(i: u32) -> (r: String)
    ensures
        r@ == root_label(i as int),
{
    proof {
        reveal_strlit("\u{8282}\u{70b9} ");
        assert("\u{8282}\u{70b9} "@ =~= label_prefix());
    }
    let mut s = "\u{8282}\u{70b9} ".to_owned();
    push_decimal(&mut s, i);
    s
}

/// Builds the two-index label.
pub fn child_label_string(i: u32, j: u32) -> (r: String)
    ensures
        r@ == child_label(i as int, j as int),
{
    let mut s = root_label_string(i);
    push_sep_decimal(&mut s, j);
    s
}

/// Builds the three-index label.
pub fn grandchild_label_string(i: u32, j: u32, k: u32) -> (r: String)
    ensures
        r@ == grandchild_label(i as int, j as int, k as int),
{
    let mut s = child_label_string(i, j);
    push_sep_decimal(&mut s, k);
    s
}

} // verus!
