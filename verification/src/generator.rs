//! Deterministic construction of a three-level forest of labeled nodes.

use vstd::prelude::*;

use crate::names::child_id;
use crate::names::child_id_string;
use crate::names::child_label;
use crate::names::child_label_string;
use crate::names::grandchild_id;
use crate::names::grandchild_id_string;
use crate::names::grandchild_label;
use crate::names::grandchild_label_string;
use crate::names::root_id;
use crate::names::root_id_string;
use crate::names::root_label;
use crate::names::root_label_string;

verus! {

/// The root count substituted for a zero input.
pub const DEFAULT_ROOT_COUNT: u32 = 5000;

/// The children-per-root count substituted for a zero input.
pub const DEFAULT_CHILD_COUNT: u32 = 5;

/// The grandchildren-per-child count substituted for a zero input.
pub const DEFAULT_GRAND_CHILD_COUNT: u32 = 5;

/// One node of the generated forest. A node with no children holds
/// `None`, never `Some` of an empty vector: absence of children is
/// significant to callers that serialize the forest compactly.
pub struct TreeNodeData {
    pub id: String,
    pub label: String,
    pub children: Option<Vec<TreeNodeData>>,
}

/// A generated forest together with the number of nodes it holds,
/// counted across all three levels.
pub struct GenerateTreeDataResult {
    pub data: Vec<TreeNodeData>,
    pub total_count: u32,
}

/// The branching configuration of one generation call, after zero
/// inputs have been replaced by the documented defaults.
pub struct GenerateOptions {
    root_count: u32,
    child_count: u32,
    grand_child_count: u32,
}

/// The error returned when the total node count of a requested forest
/// does not fit the counter width.
#[derive(Clone, Copy, Debug, PartialEq, Eq, Structural)]
pub struct OverflowError;

/// The count used for generation: a zero raw input stands for the
/// documented default of its field.
pub open spec fn effective_count(raw: u32, default: u32) -> u32 {
    if raw == 0 {
        default
    } else {
        raw
    }
}

/// The number of nodes a forest with effective counts `r`, `c`, `g`
/// holds: `r` roots, `r * c` children and `r * c * g` grandchildren.
pub open spec fn total_nodes(r: int, c: int, g: int) -> int {
    r + r * c + r * c * g
}

/// A grandchild at 1-based path `i-j-k`: exact id and label templates,
/// and no children.
pub open spec fn wf_grandchild(n: TreeNodeData, i: int, j: int, k: int) -> bool {
    &&& n.id@ == grandchild_id(i, j, k)
    &&& n.label@ == grandchild_label(i, j, k)
    &&& n.children is None
}

/// A child at 1-based path `i-j` with `g` grandchildren: exact id and
/// label templates, children absent exactly when `g == 0`, and the
/// grandchildren in ascending index order.
pub open spec fn wf_child(n: TreeNodeData, i: int, j: int, g: int) -> bool {
    &&& n.id@ == child_id(i, j)
    &&& n.label@ == child_label(i, j)
    &&& if g == 0 {
        n.children is None
    } else {
        &&& n.children is Some
        &&& (n.children->0)@.len() == g
        &&& forall|k: int|
            0 <= k < g ==> wf_grandchild(#[trigger] (n.children->0)@[k], i, j, k + 1)
    }
}

/// A root at 1-based index `i` with `c` children of `g` grandchildren
/// each: exact id and label templates, children absent exactly when
/// `c == 0`, and the children in ascending index order.
pub open spec fn wf_root(n: TreeNodeData, i: int, c: int, g: int) -> bool {
    &&& n.id@ == root_id(i)
    &&& n.label@ == root_label(i)
    &&& if c == 0 {
        n.children is None
    } else {
        &&& n.children is Some
        &&& (n.children->0)@.len() == c
        &&& forall|j: int| 0 <= j < c ==> wf_child(#[trigger] (n.children->0)@[j], i, j + 1, g)
    }
}

/// A complete forest for effective counts `r`, `c`, `g`: `r` roots in
/// ascending index order, each well formed down to its grandchildren.
pub open spec fn wf_forest(data: Seq<TreeNodeData>, r: int, c: int, g: int) -> bool {
    &&& data.len() == r
    &&& forall|i: int| 0 <= i < r ==> wf_root(#[trigger] data[i], i + 1, c, g)
}

impl GenerateOptions {
    /// The effective root count of this configuration.
    pub closed spec fn spec_root_count(&self) -> u32 {
        self.root_count
    }

    /// The effective children-per-root count of this configuration.
    pub closed spec fn spec_child_count(&self) -> u32 {
        self.child_count
    }

    /// The effective grandchildren-per-child count of this configuration.
    pub closed spec fn spec_grand_child_count(&self) -> u32 {
        self.grand_child_count
    }

    /// Builds a configuration from three raw counts, replacing each
    /// zero input by the documented default of its field. Non-zero
    /// inputs pass through unchanged; this construction cannot fail.
    pub fn new(root_count: u32, child_count: u32, grand_child_count: u32) -> (r: GenerateOptions)
        ensures
            r.spec_root_count() == effective_count(root_count, DEFAULT_ROOT_COUNT),
            r.spec_child_count() == effective_count(child_count, DEFAULT_CHILD_COUNT),
            r.spec_grand_child_count() == effective_count(
                grand_child_count,
                DEFAULT_GRAND_CHILD_COUNT,
            ),
    {
        GenerateOptions {
            root_count: if root_count == 0 {
                DEFAULT_ROOT_COUNT
            } else {
                root_count
            },
            child_count: if child_count == 0 {
                DEFAULT_CHILD_COUNT
            } else {
                child_count
            },
            grand_child_count: if grand_child_count == 0 {
                DEFAULT_GRAND_CHILD_COUNT
            } else {
                grand_child_count
            },
        }
    }
}

/// The node total factors as `r` copies of one root's subtree plus the
/// root itself: `total_nodes(r, c, g) == r * (1 + c + c * g)`.
proof fn lemma_total_factored(r: int, c: int, g: int)
    ensures
        total_nodes(r, c, g) == r * (1 + c + c * g),
{
    assert(r + r * c + r * c * g == r * (1 + c + c * g)) by (nonlinear_arith);
}

/// After `i0` finished roots, `j0` finished children of the current
/// root, and `k0` finished grandchildren of the current child, one more
/// node still fits under the forest's total.
proof fn lemma_count_step_grandchild(i0: int, j0: int, k0: int, r: int, c: int, g: int)
    requires
        0 <= i0 < r,
        0 <= j0 < c,
        0 <= k0 < g,
    ensures
        i0 * (1 + c + c * g) + j0 * (1 + g) + k0 + 1 <= total_nodes(r, c, g),
{
    assert(i0 * (1 + c + c * g) + j0 * (1 + g) + k0 + 1 <= r + r * c + r * c * g)
        by (nonlinear_arith)
        requires
            0 <= i0 < r,
            0 <= j0 < c,
            0 <= k0 < g,
    ;
}

/// After the grandchildren of child `j0 + 1` are all built, the child
/// node itself still fits under the forest's total.
proof fn lemma_count_step_child(i0: int, j0: int, r: int, c: int, g: int)
    requires
        0 <= i0 < r,
        0 <= j0 < c,
        0 <= g,
    ensures
        i0 * (1 + c + c * g) + j0 * (1 + g) + g + 1 <= total_nodes(r, c, g),
{
    assert(i0 * (1 + c + c * g) + j0 * (1 + g) + g + 1 <= r + r * c + r * c * g)
        by (nonlinear_arith)
        requires
            0 <= i0 < r,
            0 <= j0 < c,
            0 <= g,
    ;
}

/// After the children of root `i0 + 1` are all built, the root node
/// itself still fits under the forest's total.
proof fn lemma_count_step_root(i0: int, r: int, c: int, g: int)
    requires
        0 <= i0 < r,
        0 <= c,
        0 <= g,
    ensures
        i0 * (1 + c + c * g) + c * (1 + g) + 1 <= total_nodes(r, c, g),
{
    assert(i0 * (1 + c + c * g) + c * (1 + g) + 1 <= r + r * c + r * c * g)
        by (nonlinear_arith)
        requires
            0 <= i0 < r,
            0 <= c,
            0 <= g,
    ;
}

/// Deterministically builds the three-level forest described by
/// `options` and reports the total node count, counted incrementally
/// while building. Returns `OverflowError`, and no partial result,
/// exactly when that total does not fit `u32`.
#[verifier::loop_isolation(false)]
pub fn generate_virtual_tree_data(options: &GenerateOptions) -> (result: Result<
    GenerateTreeDataResult,
    OverflowError,
>)
    ensures
        (result is Ok) <==> total_nodes(
            options.spec_root_count() as int,
            options.spec_child_count() as int,
            options.spec_grand_child_count() as int,
        ) <= u32::MAX,
        result is Ok ==> (result->Ok_0).total_count == total_nodes(
            options.spec_root_count() as int,
            options.spec_child_count() as int,
            options.spec_grand_child_count() as int,
        ),
        result is Ok ==> wf_forest(
            (result->Ok_0).data@,
            options.spec_root_count() as int,
            options.spec_child_count() as int,
            options.spec_grand_child_count() as int,
        ),
{
    let root_count = options.root_count;
    let child_count = options.child_count;
    let grand_child_count = options.grand_child_count;
    let ghost r: int = root_count as int;
    let ghost c: int = child_count as int;
    let ghost g: int = grand_child_count as int;

    proof {
        assert(r * c <= 0xffff_ffff * 0xffff_ffff) by (nonlinear_arith)
            requires
                0 <= r <= 0xffff_ffff,
                0 <= c <= 0xffff_ffff,
        ;
    }
    let roots_and_children: u64 = (root_count as u64) * (child_count as u64);
    if roots_and_children > u32::MAX as u64 {
        proof {
            assert(r + r * c + r * c * g > u32::MAX) by (nonlinear_arith)
                requires
                    0 <= r,
                    0 <= g,
                    r * c > u32::MAX,
            ;
        }
        return Err(OverflowError);
    }
    proof {
        assert((r * c) * g <= 0xffff_ffff * 0xffff_ffff) by (nonlinear_arith)
            requires
                0 <= r * c <= 0xffff_ffff,
                0 <= g <= 0xffff_ffff,
        ;
    }
    let grandchildren_total: u64 = roots_and_children * (grand_child_count as u64);
    let total64: u64 = (root_count as u64) + roots_and_children + grandchildren_total;
    if total64 > u32::MAX as u64 {
        return Err(OverflowError);
    }

    let mut data: Vec<TreeNodeData> = Vec::with_capacity(root_count as usize);
    let mut total_count: u32 = 0;
    let mut i0: u32 = 0;
    while i0 < root_count
        invariant
            0 <= i0 <= r,
            data@.len() == i0 as int,
            forall|p: int| 0 <= p < i0 ==> wf_root(#[trigger] data@[p], p + 1, c, g),
            total_count == i0 as int * (1 + c + c * g),
        decreases r - i0,
    {
        let i: u32 = i0 + 1;
        let mut children: Vec<TreeNodeData> = Vec::with_capacity(child_count as usize);
        let mut j0: u32 = 0;
        while j0 < child_count
            invariant
                0 <= j0 <= c,
                children@.len() == j0 as int,
                forall|q: int|
                    0 <= q < j0 ==> wf_child(#[trigger] children@[q], i as int, q + 1, g),
                total_count == i0 as int * (1 + c + c * g) + j0 as int * (1 + g),
            decreases c - j0,
        {
            let j: u32 = j0 + 1;
            let mut grandchildren: Vec<TreeNodeData> = Vec::with_capacity(
                grand_child_count as usize,
            );
            let mut k0: u32 = 0;
            while k0 < grand_child_count
                invariant
                    0 <= k0 <= g,
                    grandchildren@.len() == k0 as int,
                    forall|p: int|
                        0 <= p < k0 ==> wf_grandchild(
                            #[trigger] grandchildren@[p],
                            i as int,
                            j as int,
                            p + 1,
                        ),
                    total_count == i0 as int * (1 + c + c * g) + j0 as int * (1 + g)
                        + k0 as int,
                decreases g - k0,
            {
                let k: u32 = k0 + 1;
                grandchildren.push(
                    TreeNodeData {
                        id: grandchild_id_string(i, j, k),
                        label: grandchild_label_string(i, j, k),
                        children: None,
                    },
                );
                proof {
                    lemma_count_step_grandchild(i0 as int, j0 as int, k0 as int, r, c, g);
                }
                total_count = total_count + 1;
                k0 = k;
            }
            children.push(
                TreeNodeData {
                    id: child_id_string(i, j),
                    label: child_label_string(i, j),
                    children: if grandchildren.is_empty() {
                        None
                    } else {
                        Some(grandchildren)
                    },
                },
            );
            proof {
                lemma_count_step_child(i0 as int, j0 as int, r, c, g);
                assert(j0 as int * (1 + g) + g + 1 == j as int * (1 + g)) by (nonlinear_arith)
                    requires
                        j == j0 + 1,
                ;
            }
            total_count = total_count + 1;
            j0 = j;
        }
        data.push(
            TreeNodeData {
                id: root_id_string(i),
                label: root_label_string(i),
                children: if children.is_empty() {
                    None
                } else {
                    Some(children)
                },
            },
        );
        proof {
            lemma_count_step_root(i0 as int, r, c, g);
            assert(i0 as int * (1 + c + c * g) + c * (1 + g) + 1 == i as int * (1 + c + c * g))
                by (nonlinear_arith)
                requires
                    i == i0 + 1,
            ;
        }
        total_count = total_count + 1;
        i0 = i;
    }
    proof {
        lemma_total_factored(r, c, g);
    }
    Ok(GenerateTreeDataResult { data, total_count })
}

/// Builds a forest with the common default branching factors:
/// equivalent to `generate_virtual_tree_data` on
/// `GenerateOptions::new(root_count, 5, 5)`.
pub fn generate_tree_data_fast(root_count: u32) -> (result: Result<
    GenerateTreeDataResult,
    OverflowError,
>)
    ensures
        (result is Ok) <==> total_nodes(
            effective_count(root_count, DEFAULT_ROOT_COUNT) as int,
            DEFAULT_CHILD_COUNT as int,
            DEFAULT_GRAND_CHILD_COUNT as int,
        ) <= u32::MAX,
        result is Ok ==> (result->Ok_0).total_count == total_nodes(
            effective_count(root_count, DEFAULT_ROOT_COUNT) as int,
            DEFAULT_CHILD_COUNT as int,
            DEFAULT_GRAND_CHILD_COUNT as int,
        ),
        result is Ok ==> wf_forest(
            (result->Ok_0).data@,
            effective_count(root_count, DEFAULT_ROOT_COUNT) as int,
            DEFAULT_CHILD_COUNT as int,
            DEFAULT_GRAND_CHILD_COUNT as int,
        ),
{
    let options = GenerateOptions::new(root_count, 5, 5);
    generate_virtual_tree_data(&options)
}

/// Textual equality of two leaf nodes: same id, same label, and no
/// children on either side.
pub open spec fn grandchild_eq(a: TreeNodeData, b: TreeNodeData) -> bool {
    &&& a.id@ == b.id@
    &&& a.label@ == b.label@
    &&& a.children is None
    &&& b.children is None
}

/// Textual equality of two children: same id and label, children
/// present on both sides or on neither, and equal leaves pointwise.
pub open spec fn child_eq(a: TreeNodeData, b: TreeNodeData) -> bool {
    &&& a.id@ == b.id@
    &&& a.label@ == b.label@
    &&& (a.children is Some <==> b.children is Some)
    &&& (a.children is Some ==> (a.children->0)@.len() == (b.children->0)@.len())
    &&& (a.children is Some ==> forall|k: int|
        0 <= k < (a.children->0)@.len() ==> grandchild_eq(
            #[trigger] (a.children->0)@[k],
            (b.children->0)@[k],
        ))
}

/// Textual equality of two roots, down to the grandchildren.
pub open spec fn root_eq(a: TreeNodeData, b: TreeNodeData) -> bool {
    &&& a.id@ == b.id@
    &&& a.label@ == b.label@
    &&& (a.children is Some <==> b.children is Some)
    &&& (a.children is Some ==> (a.children->0)@.len() == (b.children->0)@.len())
    &&& (a.children is Some ==> forall|j: int|
        0 <= j < (a.children->0)@.len() ==> child_eq(
            #[trigger] (a.children->0)@[j],
            (b.children->0)@[j],
        ))
}

/// Textual equality of two forests, pointwise over their roots.
pub open spec fn forest_eq(d1: Seq<TreeNodeData>, d2: Seq<TreeNodeData>) -> bool {
    &&& d1.len() == d2.len()
    &&& forall|i: int| 0 <= i < d1.len() ==> root_eq(#[trigger] d1[i], d2[i])
}

/// Generation is deterministic: any two forests that are well formed
/// for the same effective counts are structurally and textually
/// identical, so two calls on identical configurations agree.
pub proof fn lemma_generation_deterministic(
    d1: Seq<TreeNodeData>,
    d2: Seq<TreeNodeData>,
    r: int,
    c: int,
    g: int,
)
    requires
        wf_forest(d1, r, c, g),
        wf_forest(d2, r, c, g),
    ensures
        forest_eq(d1, d2),
{
    assert forall|i: int| 0 <= i < d1.len() implies root_eq(#[trigger] d1[i], d2[i]) by {
        let a = d1[i];
        let b = d2[i];
        assert(wf_root(a, i + 1, c, g));
        assert(wf_root(b, i + 1, c, g));
        if c != 0 {
            assert forall|j: int|
                0 <= j < (a.children->0)@.len() implies child_eq(
                #[trigger] (a.children->0)@[j],
                (b.children->0)@[j],
            ) by {
                let ca = (a.children->0)@[j];
                let cb = (b.children->0)@[j];
                assert(wf_child(ca, i + 1, j + 1, g));
                assert(wf_child(cb, i + 1, j + 1, g));
                if g != 0 {
                    assert forall|k: int|
                        0 <= k < (ca.children->0)@.len() implies grandchild_eq(
                        #[trigger] (ca.children->0)@[k],
                        (cb.children->0)@[k],
                    ) by {
                        assert(wf_grandchild((ca.children->0)@[k], i + 1, j + 1, k + 1));
                        assert(wf_grandchild((cb.children->0)@[k], i + 1, j + 1, k + 1));
                    }
                }
            }
        }
    }
}

/// A 1-based path to a node of a forest with effective counts `r`, `c`,
/// `g`: the root index alone, or root and child indices, or root, child
/// and grandchild indices.
pub open spec fn valid_path(path: Seq<int>, r: int, c: int, g: int) -> bool {
    &&& 1 <= path.len() <= 3
    &&& 1 <= path[0] <= r
    &&& path.len() >= 2 ==> 1 <= path[1] <= c
    &&& path.len() == 3 ==> 1 <= path[2] <= g
}

/// The id of the node a path leads to.
pub open spec fn id_at(data: Seq<TreeNodeData>, path: Seq<int>) -> Seq<char> {
    if path.len() == 1 {
        data[path[0] - 1].id@
    } else if path.len() == 2 {
        (data[path[0] - 1].children->0)@[path[1] - 1].id@
    } else {
        ((data[path[0] - 1].children->0)@[path[1] - 1].children->0)@[path[2] - 1].id@
    }
}

/// In a well-formed forest the id at a path is the template applied to
/// the path's indices.
proof fn lemma_id_at_is_template(data: Seq<TreeNodeData>, r: int, c: int, g: int, p: Seq<int>)
    requires
        wf_forest(data, r, c, g),
        valid_path(p, r, c, g),
    ensures
        p.len() == 1 ==> id_at(data, p) == root_id(p[0]),
        p.len() == 2 ==> id_at(data, p) == child_id(p[0], p[1]),
        p.len() == 3 ==> id_at(data, p) == grandchild_id(p[0], p[1], p[2]),
{
    let root = data[p[0] - 1];
    assert(wf_root(root, p[0], c, g));
    if p.len() >= 2 {
        let child = (root.children->0)@[p[1] - 1];
        assert(wf_child(child, p[0], p[1], g));
        if p.len() == 3 {
            let gchild = (child.children->0)@[p[2] - 1];
            assert(wf_grandchild(gchild, p[0], p[1], p[2]));
        }
    }
}

/// Ids are unique within a well-formed forest: two distinct paths never
/// lead to nodes with the same id, whatever their levels.
pub proof fn lemma_forest_ids_unique(
    data: Seq<TreeNodeData>,
    r: int,
    c: int,
    g: int,
    p1: Seq<int>,
    p2: Seq<int>,
)
    requires
        wf_forest(data, r, c, g),
        valid_path(p1, r, c, g),
        valid_path(p2, r, c, g),
        p1 != p2,
    ensures
        id_at(data, p1) != id_at(data, p2),
{
    lemma_id_at_is_template(data, r, c, g, p1);
    lemma_id_at_is_template(data, r, c, g, p2);
    let j1: int = if p1.len() >= 2 {
        p1[1]
    } else {
        0
    };
    let k1: int = if p1.len() == 3 {
        p1[2]
    } else {
        0
    };
    let j2: int = if p2.len() >= 2 {
        p2[1]
    } else {
        0
    };
    let k2: int = if p2.len() == 3 {
        p2[2]
    } else {
        0
    };
    crate::names::lemma_node_ids_injective(p1[0], j1, k1, p2[0], j2, k2);
    crate::names::lemma_node_ids_injective(p2[0], j2, k2, p1[0], j1, k1);
    if id_at(data, p1) == id_at(data, p2) {
        assert(p1.len() == p2.len());
        assert(p1 =~= p2);
        assert(false);
    }
}

/// The fast path matches the full routine: a forest built for raw root
/// count `n` with default branching is textually identical to one built
/// from the defaulted configuration `(n, 5, 5)`.
pub proof fn lemma_fast_path_equivalence(d1: Seq<TreeNodeData>, d2: Seq<TreeNodeData>, n: u32)
    requires
        wf_forest(
            d1,
            effective_count(n, DEFAULT_ROOT_COUNT) as int,
            DEFAULT_CHILD_COUNT as int,
            DEFAULT_GRAND_CHILD_COUNT as int,
        ),
        wf_forest(
            d2,
            effective_count(n, DEFAULT_ROOT_COUNT) as int,
            DEFAULT_CHILD_COUNT as int,
            DEFAULT_GRAND_CHILD_COUNT as int,
        ),
    ensures
        forest_eq(d1, d2),
{
    lemma_generation_deterministic(
        d1,
        d2,
        effective_count(n, DEFAULT_ROOT_COUNT) as int,
        DEFAULT_CHILD_COUNT as int,
        DEFAULT_GRAND_CHILD_COUNT as int,
    );
}

} // verus!
