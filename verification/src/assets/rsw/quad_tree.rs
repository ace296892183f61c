use vstd::prelude::*;

verus! {

/// Depth of the leaves of a world's quad tree (the root has depth 0).
pub const MAX_DEPTH: usize = 5;

/// Number of nodes of a world's quad tree.
pub const SIZE: usize = 1365;

/// `4` raised to `exp`.
pub open spec fn pow4(exp: nat) -> nat
    decreases exp,
{
    if exp == 0 {
        1
    } else {
        4 * pow4((exp - 1) as nat)
    }
}

/// Number of nodes of the subtree whose root lies at `depth`
/// (a leaf's subtree holds the leaf alone).
pub open spec fn subtree_size(depth: int) -> nat
    decreases MAX_DEPTH - depth,
{
    if depth >= MAX_DEPTH {
        1
    } else {
        1 + 4 * subtree_size(depth + 1)
    }
}

/// Position, in pre-order, of the child `direction` (1 = bottom left,
/// 2 = bottom right, 3 = top left, 4 = top right) of the node at `index`
/// and `depth`.
pub open spec fn child_position(index: int, depth: int, direction: int) -> int {
    index + 1 + (direction - 1) * subtree_size(depth + 1)
}

/// The four child positions, one subtree apart.
proof fn lemma_child_positions(parent: int, depth: int)
    ensures
        child_position(parent, depth, 1) == parent + 1,
        child_position(parent, depth, 2) == parent + 1 + subtree_size(depth + 1),
        child_position(parent, depth, 3) == parent + 1 + 2 * subtree_size(depth + 1),
        child_position(parent, depth, 4) == parent + 1 + 3 * subtree_size(depth + 1),
{
    let s = subtree_size(depth + 1);
    assert((1 - 1) * s == 0) by (nonlinear_arith);
    assert((2 - 1) * s == s) by (nonlinear_arith);
    assert((3 - 1) * s == 2 * s) by (nonlinear_arith);
    assert((4 - 1) * s == 3 * s) by (nonlinear_arith);
}

/// Whether `child` is the pre-order position of one of the four children
/// of the node at `parent` and `depth`.
pub open spec fn is_child_position(parent: int, depth: int, child: int) -> bool {
    ||| child == child_position(parent, depth, 1)
    ||| child == child_position(parent, depth, 2)
    ||| child == child_position(parent, depth, 3)
    ||| child == child_position(parent, depth, 4)
}

proof fn lemma_subtree_sizes()
    ensures
        subtree_size(5) == 1,
        subtree_size(4) == 5,
        subtree_size(3) == 21,
        subtree_size(2) == 85,
        subtree_size(1) == 341,
        subtree_size(0) == SIZE,
        pow4(1) == 4,
        pow4(2) == 16,
        pow4(3) == 64,
        pow4(4) == 256,
        pow4(5) == 1024,
{
    reveal_with_fuel(subtree_size, 7);
    reveal_with_fuel(pow4, 6);
}

proof fn lemma_subtree_size_bounds(depth: int)
    requires
        0 <= depth <= MAX_DEPTH,
    ensures
        1 <= subtree_size(depth) <= SIZE,
        depth < MAX_DEPTH ==> subtree_size(depth) == 1 + 4 * subtree_size(depth + 1),
{
    lemma_subtree_sizes();
}

/// `4` raised to `exp`, for the exponents that a quad tree of depth
/// [`MAX_DEPTH`] needs.
fn pow4_exec(exp: usize) -> (r: usize)
    requires
        exp <= MAX_DEPTH,
    ensures
        r == pow4(exp as nat),
{
    let mut r: usize = 1;
    let mut i: usize = 0;
    while i < exp
        invariant
            i <= exp <= MAX_DEPTH,
            r == pow4(i as nat),
            r <= 1024,
        decreases exp - i,
    {
        proof {
            lemma_subtree_sizes();
            assert(i < 5);
        }
        r = r * 4;
        i = i + 1;
    }
    r
}

/// Address of a node of a world's quad tree: its position in pre-order,
/// its depth, and the positions of its ancestors by depth.
#[derive(Debug, Clone, Copy, PartialEq, Eq)]
pub struct QuadTreeIndex {
    index: usize,
    depth: usize,
    stack: [usize; MAX_DEPTH],
}

impl QuadTreeIndex {
    /// Every address stays inside the tree: children of any address can be
    /// computed without leaving the node range, and unused ancestor slots
    /// are zero.
    #[verifier::type_invariant]
    closed spec fn inv(self) -> bool {
        &&& self.depth <= MAX_DEPTH
        &&& self.index + subtree_size(self.depth as int) <= SIZE
        &&& self.depth == 0 ==> self.index == 0
        &&& forall|k: int| 0 <= k < self.depth ==> #[trigger] self.stack[k] + subtree_size(k) <= SIZE
        &&& forall|k: int| self.depth <= k < MAX_DEPTH ==> #[trigger] self.stack[k] == 0
    }

    /// Pre-order position of the node.
    pub closed spec fn index_of(self) -> nat {
        self.index as nat
    }

    /// Depth of the node (0 for the root).
    pub closed spec fn depth_of(self) -> nat {
        self.depth as nat
    }

    /// Ancestor slots, by depth.
    pub closed spec fn stack_of(self) -> Seq<usize> {
        self.stack@
    }

    /// The address of the root node.
    pub fn root() -> (r: QuadTreeIndex)
        ensures
            r.located(),
            r.wf(),
            r.index_of() == 0,
            r.depth_of() == 0,
            r.stack_of() == Seq::new(MAX_DEPTH as nat, |_i: int| 0usize),
    {
        let stack: [usize; MAX_DEPTH] = [0; MAX_DEPTH];
        proof {
            broadcast use vstd::array::group_array_axioms;
            lemma_subtree_sizes();
            assert(forall|k: int| 0 <= k < MAX_DEPTH ==> #[trigger] stack[k] == 0);
        }
        let r = QuadTreeIndex { index: 0, depth: 0, stack };
        assert(r.stack@ =~= Seq::new(MAX_DEPTH as nat, |_i: int| 0usize));
        r
    }

    /// Pre-order position of the node.
    pub fn index(&self) -> (r: usize)
        ensures
            r == self.index_of(),
    {
        self.index
    }

    /// Every address that this module hands out satisfies this.
    pub closed spec fn wf(self) -> bool {
        self.inv()
    }

    /// Position of the node's ancestor at depth `k`: an ancestor slot above
    /// the node's own depth, the node itself from its depth on.
    pub closed spec fn ancestor(self, k: int) -> int {
        if k < self.depth {
            self.stack[k] as int
        } else {
            self.index as int
        }
    }

    /// The ancestor at depth `k + 1` lies at a child position of the one at
    /// depth `k`.
    pub closed spec fn steps_down(self, k: int) -> bool {
        is_child_position(self.ancestor(k), k, self.ancestor(k + 1))
    }

    /// The address is that of a node of the tree: its ancestors, from the
    /// root down to the node itself, each lie at a child position of the
    /// one above.
    pub closed spec fn located(self) -> bool {
        &&& self.inv()
        &&& self.ancestor(0) == 0
        &&& forall|k: int| 0 <= k < self.depth ==> #[trigger] self.steps_down(k)
    }

    /// What [`QuadTreeIndex::parent`] returns: `None` at position 0, else
    /// the address whose position is the last ancestor slot, one level up,
    /// with the slot of that level cleared.
    pub closed spec fn parent_spec(self) -> Option<QuadTreeIndex> {
        if self.index == 0 {
            None
        } else {
            Some(
                QuadTreeIndex {
                    index: self.stack[MAX_DEPTH - 1],
                    depth: (self.depth - 1) as usize,
                    stack: vstd::array::spec_array_update(self.stack, self.depth - 1, 0usize),
                },
            )
        }
    }

    /// The address whose position is the last ancestor slot, one level up,
    /// with the slot of that level cleared; `None` at position 0.
    pub fn parent(&self) -> (res: Option<QuadTreeIndex>)
        ensures
            res == self.parent_spec(),
            res matches Some(p) ==> p.wf(),
            self.located() && (self.depth_of() == 1 || self.depth_of() == MAX_DEPTH) ==> (
            res matches Some(p) && p.located()),
            self.index_of() == 0 ==> res is None,
            self.index_of() != 0 ==> (res matches Some(p) && {
                &&& p.index_of() == self.stack_of()[MAX_DEPTH - 1]
                &&& p.depth_of() + 1 == self.depth_of()
                &&& p.stack_of() == self.stack_of().update(self.depth_of() - 1, 0usize)
            }),
    {
        proof {
            use_type_invariant(self);
            if self.located() && self.depth > 0 {
                lemma_ancestor_interval(*self, 0);
            }
        }
        if self.index == 0 {
            None
        } else {
            let parent = self.stack[MAX_DEPTH - 1];
            let mut stack = self.stack;
            stack[self.depth - 1] = 0;
            proof {
                lemma_subtree_sizes();
                lemma_subtree_size_bounds(self.depth - 1);
                lemma_subtree_size_bounds(MAX_DEPTH - 1);
                assert(stack@ == self.stack@.update(self.depth - 1, 0usize));
                if self.depth == MAX_DEPTH {
                    assert(self.stack[MAX_DEPTH - 1] + subtree_size(MAX_DEPTH - 1) <= SIZE);
                } else {
                    assert(self.stack[MAX_DEPTH - 1] == 0);
                }
            }
            let up = QuadTreeIndex { index: parent, depth: self.depth - 1, stack };
            proof {
                broadcast use vstd::array::group_array_axioms;

                use_type_invariant(&up);
                if self.located() && (self.depth == 1 || self.depth == MAX_DEPTH) {
                    assert forall|k: int| 0 <= k <= up.depth implies #[trigger] up.ancestor(k)
                        == self.ancestor(k) by {
                        if k < up.depth {
                            assert(stack@[k] == self.stack@[k]);
                        }
                    }
                    assert forall|k: int| 0 <= k < up.depth implies #[trigger] up.steps_down(k) by {
                        assert(self.steps_down(k));
                        assert(up.ancestor(k + 1) == self.ancestor(k + 1));
                    }
                }
            }
            Some(up)
        }
    }

    fn next_index(&self, direction: usize) -> (res: Option<QuadTreeIndex>)
        requires
            1 <= direction <= 4,
        ensures
            self.depth_of() >= MAX_DEPTH ==> res is None,
            self.depth_of() < MAX_DEPTH ==> (res matches Some(c) && c.wf() && c.is_child_of(*self, direction as int)
                && (self.located() ==> c.located())),
    {
        proof {
            use_type_invariant(self);
        }
        if self.depth >= MAX_DEPTH {
            None
        } else {
            let till_max_depth = MAX_DEPTH - self.depth;
            let power = pow4_exec(till_max_depth);
            proof {
                lemma_subtree_sizes();
                lemma_subtree_size_bounds(self.depth as int);
                lemma_subtree_size_bounds(self.depth + 1);
                assert((power - 4) / 3 + 1 == subtree_size(self.depth + 1)) by {
                    if self.depth == 0 {
                    } else if self.depth == 1 {
                    } else if self.depth == 2 {
                    } else if self.depth == 3 {
                    } else {
                    }
                }
            }
            let base: usize = (power - 4) / 3;
            let steps: usize = direction - 1;
            assert(base * steps <= (subtree_size(self.depth + 1) - 1) * 3) by (nonlinear_arith)
                requires
                    base == subtree_size(self.depth + 1) - 1,
                    steps <= 3,
            ;
            assert(base * steps + steps == steps * subtree_size(self.depth + 1)) by (nonlinear_arith)
                requires
                    base == subtree_size(self.depth + 1) - 1,
            ;
            let index_skip = base * steps + direction;
            let mut stack = self.stack;
            stack[self.depth] = self.index;
            let child = QuadTreeIndex { index: self.index + index_skip, depth: self.depth + 1, stack };
            proof {
                assert(stack@ == self.stack@.update(self.depth as int, self.index));
                assert((direction - 1) * subtree_size(self.depth + 1) == steps * subtree_size(self.depth + 1));
                use_type_invariant(&child);
                if self.located() {
                    lemma_child_located(*self, child, direction as int);
                }
            }
            Some(child)
        }
    }

    /// The first child (bottom left) of the node; `None` for a leaf.
    pub fn bottom_left(&self) -> (res: Option<QuadTreeIndex>)
        ensures
            self.depth_of() >= MAX_DEPTH ==> res is None,
            self.depth_of() < MAX_DEPTH ==> (res matches Some(c) && c.wf() && c.is_child_of(*self, 1) && (
            self.located() ==> c.located())),
    {
        self.next_index(1)
    }

    /// The second child (bottom right) of the node; `None` for a leaf.
    pub fn bottom_right(&self) -> (res: Option<QuadTreeIndex>)
        ensures
            self.depth_of() >= MAX_DEPTH ==> res is None,
            self.depth_of() < MAX_DEPTH ==> (res matches Some(c) && c.wf() && c.is_child_of(*self, 2) && (
            self.located() ==> c.located())),
    {
        self.next_index(2)
    }

    /// The third child (top left) of the node; `None` for a leaf.
    pub fn top_left(&self) -> (res: Option<QuadTreeIndex>)
        ensures
            self.depth_of() >= MAX_DEPTH ==> res is None,
            self.depth_of() < MAX_DEPTH ==> (res matches Some(c) && c.wf() && c.is_child_of(*self, 3) && (
            self.located() ==> c.located())),
    {
        self.next_index(3)
    }

    /// The fourth child (top right) of the node; `None` for a leaf.
    pub fn top_right(&self) -> (res: Option<QuadTreeIndex>)
        ensures
            self.depth_of() >= MAX_DEPTH ==> res is None,
            self.depth_of() < MAX_DEPTH ==> (res matches Some(c) && c.wf() && c.is_child_of(*self, 4) && (
            self.located() ==> c.located())),
    {
        self.next_index(4)
    }

    /// `self` is the child `direction` of `node`: its position follows the
    /// pre-order layout, it lies one level deeper, and it records `node`'s
    /// position in the slot of `node`'s depth.
    pub open spec fn is_child_of(self, node: QuadTreeIndex, direction: int) -> bool {
        &&& self.index_of() == child_position(node.index_of() as int, node.depth_of() as int, direction)
        &&& self.depth_of() == node.depth_of() + 1
        &&& self.stack_of() == node.stack_of().update(node.depth_of() as int, node.index_of() as usize)
    }

    /// Depth of the node (0 for the root).
    pub fn depth(&self) -> (r: usize)
        ensures
            r == self.depth_of(),
    {
        self.depth
    }

    /// Whether the node lies at the deepest level.
    pub fn is_leaf(&self) -> (r: bool)
        ensures
            r == (self.depth_of() == MAX_DEPTH),
    {
        self.depth == MAX_DEPTH
    }
}

/// Every node of the tree is a well-formed address.
pub proof fn lemma_located_is_wf(node: QuadTreeIndex)
    requires
        node.located(),
    ensures
        node.wf(),
{
}

/// Going down to any child and back up with [`QuadTreeIndex::parent`]
/// returns to the starting node when that node is the root or lies one
/// level above the leaves.
pub proof fn lemma_parent_of_child(node: QuadTreeIndex, child: QuadTreeIndex, direction: int)
    requires
        node.wf(),
        1 <= direction <= 4,
        child.is_child_of(node, direction),
        node.depth_of() == 0 || node.depth_of() + 1 == MAX_DEPTH,
    ensures
        child.parent_spec() == Some(node),
{
    broadcast use vstd::array::group_array_axioms;

    lemma_subtree_sizes();
    lemma_subtree_size_bounds(node.depth + 1);
    assert(child.index != 0) by (nonlinear_arith)
        requires
            child.index == node.index + 1 + (direction - 1) * subtree_size(node.depth + 1),
            direction >= 1,
    ;
    let p = child.parent_spec().unwrap();
    assert(p.stack@ =~= node.stack@);
    assert(p.stack =~= node.stack);
}

/// A child of a node of the tree is a node of the tree.
proof fn lemma_child_located(node: QuadTreeIndex, child: QuadTreeIndex, direction: int)
    requires
        node.located(),
        child.inv(),
        1 <= direction <= 4,
        child.is_child_of(node, direction),
    ensures
        child.located(),
{
    broadcast use vstd::array::group_array_axioms;

    assert forall|k: int| 0 <= k <= node.depth implies #[trigger] child.ancestor(k) == node.ancestor(
        k,
    ) by {
        if k < node.depth {
            assert(child.stack@[k] == node.stack@[k]);
        } else {
            assert(child.stack@[k] == node.index);
        }
    }
    assert(child.ancestor(node.depth + 1) == child.index);
    assert(child.ancestor(0) == 0) by {
        assert(child.ancestor(0) == node.ancestor(0));
    }
    assert forall|k: int| 0 <= k < child.depth implies #[trigger] child.steps_down(k) by {
        assert(child.ancestor(k) == node.ancestor(k));
        if k < node.depth {
            assert(node.steps_down(k));
            assert(child.ancestor(k + 1) == node.ancestor(k + 1));
        } else {
            assert(k == node.depth);
            assert(is_child_position(node.index as int, k, child.index as int));
        }
    }
}

/// The position of a node of the tree lies in the subtree of each of its
/// ancestors, after the ancestor itself unless it is the node.
#[verifier::spinoff_prover]
proof fn lemma_ancestor_interval(n: QuadTreeIndex, k: int)
    requires
        n.located(),
        0 <= k <= n.depth,
    ensures
        n.ancestor(k) <= n.index,
        n.index < n.ancestor(k) + subtree_size(k),
        k < n.depth ==> n.ancestor(k) < n.index,
    decreases n.depth - k,
{
    lemma_subtree_size_bounds(k);
    if k < n.depth {
        lemma_ancestor_interval(n, k + 1);
        lemma_subtree_size_bounds(k + 1);
        assert(n.steps_down(k));
        let s = subtree_size(k + 1);
        assert(subtree_size(k) == 1 + 4 * s);
        assert(n.ancestor(k + 1) + s <= n.ancestor(k) + 1 + 4 * s) by {
            lemma_child_positions(n.ancestor(k), k);
        }
    }
}

/// Two nodes of the tree at one position share their ancestors down to the
/// shallower one's depth.
#[verifier::spinoff_prover]
proof fn lemma_same_ancestors(a: QuadTreeIndex, b: QuadTreeIndex, k: int)
    requires
        a.located(),
        b.located(),
        a.index == b.index,
        0 <= k <= a.depth,
        k <= b.depth,
    ensures
        a.ancestor(k) == b.ancestor(k),
    decreases k,
{
    if k > 0 {
        lemma_same_ancestors(a, b, k - 1);
        assert(a.steps_down(k - 1));
        assert(b.steps_down(k - 1));
        lemma_ancestor_interval(a, k);
        lemma_ancestor_interval(b, k);
        lemma_subtree_size_bounds(k);
        let q = a.ancestor(k - 1);
        let s = subtree_size(k);
        lemma_child_positions(q, k - 1);
    }
}

/// A node of the tree is known by its pre-order position: two nodes of the
/// tree at the same position are the same address, with the same depth and
/// ancestors.
pub proof fn lemma_position_determines_node(a: QuadTreeIndex, b: QuadTreeIndex)
    requires
        a.located(),
        b.located(),
        a.index_of() == b.index_of(),
    ensures
        a == b,
{
    broadcast use vstd::array::group_array_axioms;

    if a.depth < b.depth {
        lemma_same_ancestors(a, b, a.depth as int);
        lemma_ancestor_interval(b, a.depth as int);
    } else if b.depth < a.depth {
        lemma_same_ancestors(a, b, b.depth as int);
        lemma_ancestor_interval(a, b.depth as int);
    }
    assert(a.depth == b.depth);
    assert forall|k: int| 0 <= k < MAX_DEPTH implies a.stack@[k] == b.stack@[k] by {
        if k < a.depth {
            lemma_same_ancestors(a, b, k);
            assert(a.ancestor(k) == a.stack[k]);
            assert(b.ancestor(k) == b.stack[k]);
        }
    }
    assert(a.stack@ =~= b.stack@);
    assert(a.stack =~= b.stack);
}

/// The depths of the nodes of a subtree whose root lies at `depth`, in
/// pre-order: the root, then each of its four child subtrees in turn.
pub open spec fn preorder_depths(depth: nat) -> Seq<nat>
    decreases MAX_DEPTH - depth,
{
    if depth >= MAX_DEPTH {
        seq![depth]
    } else {
        let child = preorder_depths(depth + 1);
        seq![depth] + child + child + child + child
    }
}

/// The predicate "this depth is `d`".
pub open spec fn is_depth(d: nat) -> spec_fn(nat) -> bool {
    |x: nat| x == d
}

proof fn lemma_preorder_depths_len(depth: nat)
    requires
        depth <= MAX_DEPTH,
    ensures
        preorder_depths(depth).len() == subtree_size(depth as int),
    decreases MAX_DEPTH - depth,
{
    lemma_subtree_size_bounds(depth as int);
    if depth < MAX_DEPTH {
        lemma_preorder_depths_len(depth + 1);
    }
}

proof fn lemma_single_depth_count(depth: nat, d: nat)
    ensures
        seq![depth].filter(is_depth(d)).len() == (if depth == d {
            1int
        } else {
            0int
        }),
{
    let e = Seq::<nat>::empty();
    assert(e.filter(is_depth(d)) =~= e) by {
        reveal(Seq::filter);
    }
    e.lemma_filter_len_push(is_depth(d), depth);
    assert(e.push(depth) =~= seq![depth]);
}

#[verifier::spinoff_prover]
proof fn lemma_depth_count(depth: nat, d: nat)
    requires
        depth <= MAX_DEPTH,
        d <= MAX_DEPTH,
    ensures
        preorder_depths(depth).filter(is_depth(d)).len() == (if d < depth {
            0
        } else {
            pow4((d - depth) as nat)
        }),
    decreases MAX_DEPTH - depth,
{
    lemma_single_depth_count(depth, d);
    if depth < MAX_DEPTH {
        lemma_depth_count(depth + 1, d);
        let p = is_depth(d);
        let head = seq![depth];
        let c = preorder_depths(depth + 1);
        Seq::filter_distributes_over_add(head, c, p);
        Seq::filter_distributes_over_add(head + c, c, p);
        Seq::filter_distributes_over_add(head + c + c, c, p);
        Seq::filter_distributes_over_add(head + c + c + c, c, p);
        assert(preorder_depths(depth) == head + c + c + c + c);
        if d > depth {
            assert(pow4((d - depth) as nat) == 4 * pow4((d - depth - 1) as nat));
        }
    }
}

/// The tree holds `SIZE` nodes, and exactly `4` to the power `d` of them
/// lie at depth `d`.
pub proof fn lemma_depth_counts(d: nat)
    requires
        d <= MAX_DEPTH,
    ensures
        preorder_depths(0).len() == SIZE,
        preorder_depths(0).filter(is_depth(d)).len() == pow4(d),
{
    lemma_subtree_sizes();
    lemma_preorder_depths_len(0);
    lemma_depth_count(0, d);
}

#[verifier::spinoff_prover]
proof fn lemma_depth_in_subtree(n: QuadTreeIndex, k: int)
    requires
        n.located(),
        0 <= k <= n.depth,
    ensures
        0 <= n.index - n.ancestor(k) < subtree_size(k),
        preorder_depths(k as nat)[n.index - n.ancestor(k)] == n.depth,
    decreases n.depth - k,
{
    lemma_ancestor_interval(n, k);
    lemma_preorder_depths_len(k as nat);
    if k < n.depth {
        lemma_depth_in_subtree(n, k + 1);
        lemma_ancestor_interval(n, k + 1);
        lemma_preorder_depths_len((k + 1) as nat);
        assert(n.steps_down(k));
        let a = n.ancestor(k);
        let b = n.ancestor(k + 1);
        let sz = subtree_size(k + 1);
        let head = seq![k as nat];
        let c = preorder_depths((k + 1) as nat);
        let r = n.index - b;
        assert(preorder_depths(k as nat) == head + c + c + c + c);
        lemma_child_positions(a, k);
        let s1 = head + c;
        let s2 = s1 + c;
        let s3 = s2 + c;
        let s4 = s3 + c;
        assert(s1.len() == 1 + sz);
        assert(s2.len() == 1 + 2 * sz);
        assert(s3.len() == 1 + 3 * sz);
        if b == a + 1 {
            assert(s4[1 + r] == c[r]);
        } else if b == a + 1 + sz {
            assert(s4[1 + sz + r] == c[r]);
        } else if b == a + 1 + 2 * sz {
            assert(s4[1 + 2 * sz + r] == c[r]);
        } else {
            assert(s4[1 + 3 * sz + r] == c[r]);
        }
    } else {
        if k < MAX_DEPTH {
            let c = preorder_depths((k + 1) as nat);
            assert(preorder_depths(k as nat) == seq![k as nat] + c + c + c + c);
        }
    }
}

/// A node of the tree lies within the tree, and its depth is the one the
/// pre-order layout gives its position. Since the walk hands out the node
/// at each position once, it visits `4` to the power `d` nodes at depth `d`
/// (see [`lemma_depth_counts`]).
pub proof fn lemma_node_depth(n: QuadTreeIndex)
    requires
        n.located(),
    ensures
        n.index_of() < SIZE,
        preorder_depths(0)[n.index_of() as int] == n.depth_of(),
{
    lemma_subtree_sizes();
    lemma_depth_in_subtree(n, 0);
}

/// `nodes` is the whole pre-order walk of the tree: `SIZE` nodes of the
/// tree, the one at step `p` lying at position `p`, at the depth the layout
/// gives that position.
pub open spec fn is_full_walk(nodes: Seq<QuadTreeIndex>) -> bool {
    &&& nodes.len() == SIZE
    &&& forall|p: int|
        0 <= p < nodes.len() ==> (#[trigger] nodes[p]).located() && nodes[p].index_of() == p
            && nodes[p].depth_of() == preorder_depths(0)[p]
}

/// The depths of the nodes of a walk, step by step.
pub open spec fn walk_depths(nodes: Seq<QuadTreeIndex>) -> Seq<nat> {
    nodes.map_values(|n: QuadTreeIndex| n.depth_of())
}

/// The walk of the tree is one fixed sequence: any two full walks are
/// equal; its nodes are pairwise distinct; every node of the tree appears in
/// it, at its position, so the first is the root; and exactly `4` to the
/// power `d` of its `SIZE` nodes lie at depth `d`.
pub proof fn lemma_full_walk(a: Seq<QuadTreeIndex>, b: Seq<QuadTreeIndex>, d: nat)
    requires
        is_full_walk(a),
        is_full_walk(b),
        d <= MAX_DEPTH,
    ensures
        a == b,
        forall|i: int, j: int| 0 <= i < a.len() && 0 <= j < a.len() && i != j ==> a[i] != a[j],
        forall|n: QuadTreeIndex|
            #[trigger] n.located() ==> n.index_of() < a.len() && a[n.index_of() as int] == n,
        a[0].index_of() == 0,
        a[0].depth_of() == 0,
        walk_depths(a).filter(is_depth(d)).len() == pow4(d),
{
    assert forall|p: int| 0 <= p < a.len() implies a[p] == b[p] by {
        assert(a[p].located() && b[p].located());
        lemma_position_determines_node(a[p], b[p]);
    }
    assert(a =~= b);
    assert forall|n: QuadTreeIndex| #[trigger] n.located() implies n.index_of() < a.len() && a[
        n.index_of() as int
    ] == n by {
        lemma_node_depth(n);
        let q = n.index_of() as int;
        assert(a[q].located());
        lemma_position_determines_node(a[q], n);
    }
    assert forall|i: int, j: int| 0 <= i < a.len() && 0 <= j < a.len() && i != j implies a[i]
        != a[j] by {
        assert(a[i].index_of() == i && a[j].index_of() == j);
    }
    lemma_depth_counts(d);
    let c = preorder_depths(1);
    assert(preorder_depths(0) == seq![0nat] + c + c + c + c);
    assert(a[0].depth_of() == preorder_depths(0)[0]);
    assert(walk_depths(a) =~= preorder_depths(0)) by {
        assert forall|p: int| 0 <= p < a.len() implies walk_depths(a)[p] == preorder_depths(0)[p] by {
            assert(a[p].located());
        }
    }
}

impl Default for QuadTreeIndex {
    fn default() -> (r: QuadTreeIndex)
        ensures
            r.located(),
            r.wf(),
            r.index_of() == 0,
            r.depth_of() == 0,
            r.stack_of() == Seq::new(MAX_DEPTH as nat, |_i: int| 0usize),
    {
        QuadTreeIndex::root()
    }
}

/// The nodes still to visit, top of the stack last: each one's subtree ends
/// where the one below it starts, and the bottom one's subtree ends with
/// the tree.
pub closed spec fn pending_layout(stack: Seq<QuadTreeIndex>) -> bool {
    &&& forall|i: int| 0 <= i < stack.len() ==> (#[trigger] stack[i]).depth_of() <= MAX_DEPTH
    &&& forall|i: int|
        0 <= i < stack.len() ==> (#[trigger] stack[i]).index_of() + subtree_size(
            stack[i].depth_of() as int,
        ) <= SIZE
    &&& forall|i: int, j: int|
        #![trigger stack[i], stack[j]]
        0 <= i && j == i + 1 && j < stack.len() ==> stack[i].index_of() == stack[j].index_of()
            + subtree_size(stack[j].depth_of() as int)
    &&& stack.len() > 0 ==> stack[0].index_of() + subtree_size(stack[0].depth_of() as int) == SIZE
}

/// Pre-order walk over all the nodes of a world's quad tree.
#[derive(Debug)]
pub struct QuadTreeIter {
    stack: Vec<QuadTreeIndex>,
}

impl QuadTreeIter {
    #[verifier::type_invariant]
    closed spec fn inv(self) -> bool {
        &&& pending_layout(self.stack@)
        &&& forall|i: int| 0 <= i < self.stack@.len() ==> (#[trigger] self.stack@[i]).located()
    }

    /// Pre-order position of the next node to visit; [`SIZE`] once every
    /// node was visited.
    pub closed spec fn position(self) -> nat {
        if self.stack@.len() == 0 {
            SIZE as nat
        } else {
            self.stack@.last().index_of()
        }
    }

    /// Visits the next node: the nodes come in pre-order, that is by
    /// increasing position from 0 to `SIZE - 1`, each at the depth the
    /// pre-order layout gives its position, and then `None` for good.
    pub fn next(&mut self) -> (res: Option<QuadTreeIndex>)
        ensures
            old(self).position() >= SIZE ==> res is None && final(self).position()
                == old(self).position(),
            old(self).position() < SIZE ==> (res matches Some(node) && node.index_of()
                == old(self).position() && node.located() && node.depth_of() == preorder_depths(
                0,
            )[old(self).position() as int]) && final(self).position() == old(self).position() + 1,
    {
        proof {
            use_type_invariant(&*self);
            lemma_subtree_sizes();
        }
        let mut stack: Vec<QuadTreeIndex> = Vec::new();
        std::mem::swap(&mut stack, &mut self.stack);
        let ghost old_stack = stack@;
        proof {
            if old_stack.len() > 0 {
                let top = old_stack.len() - 1;
                assert(old_stack[top].index_of() + subtree_size(old_stack[top].depth_of() as int)
                    <= SIZE);
                lemma_subtree_size_bounds(old_stack[top].depth_of() as int);
            }
        }
        let popped = stack.pop();
        match popped {
            None => {
                self.stack = stack;
                None
            },
            Some(head) => {
                proof {
                    use_type_invariant(&head);
                    assert(old_stack.last() == head);
                    lemma_node_depth(head);
                    lemma_subtree_size_bounds(head.depth as int);
                }
                if !head.is_leaf() {
                    let top_right = head.top_right().expect("Should have top right if not leaf.");
                    let top_left = head.top_left().expect("Should have top left if not leaf.");
                    let bottom_right = head.bottom_right().expect(
                        "Should have bottom right if not leaf.",
                    );
                    let bottom_left = head.bottom_left().expect(
                        "Should have bottom left if not leaf.",
                    );
                    proof {
                        lemma_subtree_size_bounds(head.depth + 1);
                    }
                    let ghost base = stack@;
                    stack.push(top_right);
                    stack.push(top_left);
                    stack.push(bottom_right);
                    stack.push(bottom_left);
                    proof {
                        let s = stack@;
                        let n = base.len() as int;
                        assert(s[n] == top_right);
                        assert(s[n + 1] == top_left);
                        assert(s[n + 2] == bottom_right);
                        assert(s[n + 3] == bottom_left);
                        assert forall|i: int| 0 <= i < n implies #[trigger] s[i] == base[i] by {}
                        assert(pending_layout(s));
                        assert forall|i: int| 0 <= i < s.len() implies (#[trigger] s[i]).located() by {
                            if i < n {
                                assert(s[i] == old_stack[i]);
                            }
                        }
                    }
                }
                self.stack = stack;
                Some(head)
            },
        }
    }
}

/// A world's quad tree: one range per node, laid out in pre-order.
#[derive(Debug)]
pub struct QuadTree<R> {
    ranges: Vec<R>,
}

impl<R> QuadTree<R> {
    /// The ranges of the nodes, by pre-order position.
    pub closed spec fn ranges_of(self) -> Seq<R> {
        self.ranges@
    }

    /// A quad tree whose node at pre-order position `i` has range `ranges[i]`.
    pub fn new(ranges: Vec<R>) -> (tree: Self)
        ensures
            tree.ranges_of() == ranges@,
    {
        QuadTree { ranges }
    }

    /// The whole pre-order walk, collected: every node of the tree once, by
    /// increasing position. The layout of the tree is fixed, so the walk does
    /// not depend on the ranges (see [`lemma_full_walk`]).
    pub fn walk_indexes(&self) -> (nodes: Vec<QuadTreeIndex>)
        ensures
            is_full_walk(nodes@),
    {
        let mut iter = self.iter_indexes();
        let mut nodes: Vec<QuadTreeIndex> = Vec::new();
        let mut p: usize = 0;
        while p < SIZE
            invariant
                p <= SIZE,
                iter.position() == p,
                nodes@.len() == p,
                forall|q: int|
                    0 <= q < p ==> (#[trigger] nodes@[q]).located() && nodes@[q].index_of() == q
                        && nodes@[q].depth_of() == preorder_depths(0)[q],
            decreases SIZE - p,
        {
            let node = iter.next().unwrap();
            nodes.push(node);
            p = p + 1;
        }
        nodes
    }

    /// Iterates over all the nodes in pre-order. The layout of the tree is
    /// fixed, so the walk does not depend on the ranges.
    pub fn iter_indexes(&self) -> (iter: QuadTreeIter)
        ensures
            iter.position() == 0,
    {
        let root = QuadTreeIndex::default();
        proof {
            lemma_subtree_sizes();
        }
        let iter = QuadTreeIter { stack: vec![root] };
        proof {
            assert(iter.stack@.len() == 1);
            assert(iter.stack@[0] == root);
        }
        iter
    }

    /// Number of ranges the tree holds.
    pub fn len(&self) -> (len: usize)
        ensures
            len == self.ranges_of().len(),
    {
        self.ranges.len()
    }

    /// The range of the node at `index`.
    pub fn index(&self, index: QuadTreeIndex) -> (range: &R)
        requires
            index.index_of() < self.ranges_of().len(),
        ensures
            *range == self.ranges_of()[index.index_of() as int],
    {
        &self.ranges[index.index]
    }
}

} // verus!
