use vstd::prelude::*;
use crate::airterm::pane::PaneId;

verus! {

/// Direction in which a split divides its area.
#[derive(Debug, Clone, Copy, PartialEq, Eq, Structural)]
pub enum SplitDir {
    /// Left and right halves.
    Horizontal,
    /// Top and bottom halves.
    Vertical,
}

/// Binary tree of the pane layout: a leaf is one pane, a split holds two
/// subtrees divided in the given direction.
#[derive(Debug)]
pub enum PaneNode {
    Leaf(PaneId),
    Split(SplitDir, Box<PaneNode>, Box<PaneNode>),
}

impl PaneNode {
    /// A copy of the whole tree.
    pub fn duplicate(&self) -> (c: PaneNode)
        ensures
            c == *self,
        decreases self,
    {
        match self {
            PaneNode::Leaf(id) => PaneNode::Leaf(*id),
            PaneNode::Split(d, l, r) => PaneNode::Split(*d, Box::new(l.duplicate()), Box::new(r.duplicate())),
        }
    }
}

impl Clone for PaneNode {
    fn clone(&self) -> (c: Self)
        ensures
            c == *self,
    {
        self.duplicate()
    }
}

impl PaneNode {
    /// The pane identifiers of the leaves, depth first, left to right.
    pub open spec fn leaf_ids(self) -> Seq<PaneId>
        decreases self,
    {
        match self {
            PaneNode::Leaf(id) => seq![id],
            PaneNode::Split(_, l, r) => l.leaf_ids() + r.leaf_ids(),
        }
    }

    /// `split_leaf` on the model: the first leaf (depth first) holding
    /// `target` becomes a split of `target` and `new_id`; the flag says
    /// whether one was found.
    pub open spec fn split_model(self, target: PaneId, dir: SplitDir, new_id: PaneId) -> (PaneNode, bool)
        decreases self,
    {
        match self {
            PaneNode::Leaf(id) => {
                if id == target {
                    (
                        PaneNode::Split(
                            dir,
                            Box::new(PaneNode::Leaf(target)),
                            Box::new(PaneNode::Leaf(new_id)),
                        ),
                        true,
                    )
                } else {
                    (self, false)
                }
            },
            PaneNode::Split(d, l, r) => {
                let (l2, found) = l.split_model(target, dir, new_id);
                if found {
                    (PaneNode::Split(d, Box::new(l2), r), true)
                } else {
                    let (r2, found2) = r.split_model(target, dir, new_id);
                    (PaneNode::Split(d, l, Box::new(r2)), found2)
                }
            },
        }
    }

    /// This node is the leaf holding `id`.
    pub open spec fn is_leaf_of(self, id: PaneId) -> bool {
        match self {
            PaneNode::Leaf(x) => x == id,
            PaneNode::Split(..) => false,
        }
    }

    /// `remove_leaf` on the model: a split whose child is the leaf `target` is
    /// replaced by its other child (the left child is checked first, then the
    /// right one, then the left subtree, then the right subtree); the flag says
    /// whether one was found.
    pub open spec fn remove_model(self, target: PaneId) -> (PaneNode, bool)
        decreases self,
    {
        match self {
            PaneNode::Leaf(_) => (self, false),
            PaneNode::Split(d, l, r) => {
                if l.is_leaf_of(target) {
                    (*r, true)
                } else if r.is_leaf_of(target) {
                    (*l, true)
                } else {
                    let (l2, found) = l.remove_model(target);
                    if found {
                        (PaneNode::Split(d, Box::new(l2), r), true)
                    } else {
                        let (r2, found2) = r.remove_model(target);
                        (PaneNode::Split(d, l, Box::new(r2)), found2)
                    }
                }
            },
        }
    }

    proof fn lemma_split_not_found(self, target: PaneId, dir: SplitDir, new_id: PaneId)
        ensures
            !self.split_model(target, dir, new_id).1 ==> self.split_model(target, dir, new_id).0 == self,
        decreases self,
    {
        if let PaneNode::Split(d, l, r) = self {
            l.lemma_split_not_found(target, dir, new_id);
            r.lemma_split_not_found(target, dir, new_id);
        }
    }

    proof fn lemma_remove_not_found(self, target: PaneId)
        ensures
            !self.remove_model(target).1 ==> self.remove_model(target).0 == self,
        decreases self,
    {
        if let PaneNode::Split(d, l, r) = self {
            l.lemma_remove_not_found(target);
            r.lemma_remove_not_found(target);
        }
    }

    /// The leaf identifiers in depth-first order (left to right, top to bottom).
    pub fn leaves(&self) -> (v: Vec<PaneId>)
        ensures
            v@ == self.leaf_ids(),
        decreases self,
    {
        match self {
            PaneNode::Leaf(id) => {
                let mut v: Vec<PaneId> = Vec::new();
                v.push(*id);
                proof {
                    assert(v@ =~= seq![*id]);
                }
                v
            },
            PaneNode::Split(_, left, right) => {
                let mut ids = left.leaves();
                let mut rest = right.leaves();
                ids.append(&mut rest);
                ids
            },
        }
    }

    /// Whether the tree holds a leaf with `id`.
    pub fn contains(&self, id: PaneId) -> (r: bool)
        ensures
            r == self.leaf_ids().contains(id),
    {
        let ids = self.leaves();
        let n = ids.len();
        let mut i: usize = 0;
        while i < n
            invariant
                n == ids@.len(),
                ids@ == self.leaf_ids(),
                i <= n,
                forall|k: int| 0 <= k < i ==> ids@[k] != id,
            decreases n - i,
        {
            if ids[i] == id {
                return true;
            }
            i = i + 1;
        }
        false
    }

    fn split_owned(self, target: PaneId, dir: SplitDir, new_id: PaneId) -> (res: (PaneNode, bool))
        ensures
            res == self.split_model(target, dir, new_id),
        decreases self,
    {
        match self {
            PaneNode::Leaf(id) => {
                if id == target {
                    (
                        PaneNode::Split(
                            dir,
                            Box::new(PaneNode::Leaf(target)),
                            Box::new(PaneNode::Leaf(new_id)),
                        ),
                        true,
                    )
                } else {
                    (PaneNode::Leaf(id), false)
                }
            },
            PaneNode::Split(d, l, r) => {
                proof {
                    l.lemma_split_not_found(target, dir, new_id);
                    r.lemma_split_not_found(target, dir, new_id);
                }
                let (l2, found) = (*l).split_owned(target, dir, new_id);
                if found {
                    (PaneNode::Split(d, Box::new(l2), r), true)
                } else {
                    let (r2, found2) = (*r).split_owned(target, dir, new_id);
                    (PaneNode::Split(d, Box::new(l2), Box::new(r2)), found2)
                }
            },
        }
    }

    /// Replaces the first leaf `target` by a split of `target` and `new_id` in
    /// direction `dir`. Returns whether `target` was found.
    pub fn split_leaf(&mut self, target: PaneId, dir: SplitDir, new_id: PaneId) -> (found: bool)
        ensures
            (*final(self), found) == old(self).split_model(target, dir, new_id),
            found ==> exists|p: Seq<bool>| split_at(*old(self), *final(self), p, target, dir, new_id),
    {
        proof {
            lemma_split_leaf_shape(*self, target, dir, new_id);
        }
        let mut node = PaneNode::Leaf(target);
        std::mem::swap(self, &mut node);
        let (n, found) = node.split_owned(target, dir, new_id);
        *self = n;
        found
    }

    fn is_leaf_with(&self, id: PaneId) -> (r: bool)
        ensures
            r == self.is_leaf_of(id),
    {
        match self {
            PaneNode::Leaf(x) => *x == id,
            PaneNode::Split(..) => false,
        }
    }

    fn remove_owned(self, target: PaneId) -> (res: (PaneNode, bool))
        ensures
            res == self.remove_model(target),
        decreases self,
    {
        match self {
            PaneNode::Leaf(id) => (PaneNode::Leaf(id), false),
            PaneNode::Split(d, l, r) => {
                if l.is_leaf_with(target) {
                    (*r, true)
                } else if r.is_leaf_with(target) {
                    (*l, true)
                } else {
                    proof {
                        l.lemma_remove_not_found(target);
                        r.lemma_remove_not_found(target);
                    }
                    let (l2, found) = (*l).remove_owned(target);
                    if found {
                        (PaneNode::Split(d, Box::new(l2), r), true)
                    } else {
                        let (r2, found2) = (*r).remove_owned(target);
                        (PaneNode::Split(d, Box::new(l2), Box::new(r2)), found2)
                    }
                }
            },
        }
    }

    /// Removes the leaf `target` by replacing its parent split with the
    /// sibling. Returns whether it was removed; a lone leaf is never removed.
    pub fn remove_leaf(&mut self, target: PaneId) -> (removed: bool)
        ensures
            (*final(self), removed) == old(self).remove_model(target),
            removed ==> exists|p: Seq<bool>| collapsed_at(*old(self), *final(self), p, target),
    {
        proof {
            lemma_remove_leaf_shape(*self, target);
        }
        let mut node = PaneNode::Leaf(target);
        std::mem::swap(self, &mut node);
        let (n, removed) = node.remove_owned(target);
        *self = n;
        removed
    }
}

impl PaneNode {
    /// The subtree reached by following `path` from this node: `false` goes
    /// to a split's first child, `true` to its second; `None` if the path
    /// runs past a leaf.
    pub open spec fn subtree_at(self, path: Seq<bool>) -> Option<PaneNode>
        decreases path.len(),
    {
        if path.len() == 0 {
            Some(self)
        } else {
            match self {
                PaneNode::Leaf(_) => None,
                PaneNode::Split(_, l, r) => if path[0] {
                    r.subtree_at(path.drop_first())
                } else {
                    l.subtree_at(path.drop_first())
                },
            }
        }
    }

    /// The direction of the split at `path`, if a split is there.
    pub open spec fn split_dir_at(self, path: Seq<bool>) -> Option<SplitDir> {
        match self.subtree_at(path) {
            Some(PaneNode::Split(d, _, _)) => Some(d),
            _ => None,
        }
    }
}

/// Along `path`, `new` has the same splits as `old`: every node the path
/// passes through is a split with the same direction in both, and every
/// child the path does not enter is the same subtree in both.
pub open spec fn path_kept(old: PaneNode, new: PaneNode, path: Seq<bool>) -> bool {
    forall|i: int|
        #![trigger path[i]]
        0 <= i < path.len() ==> {
            &&& old.split_dir_at(path.take(i)).is_some()
            &&& new.split_dir_at(path.take(i)) == old.split_dir_at(path.take(i))
            &&& new.subtree_at(path.take(i).push(!path[i])) == old.subtree_at(path.take(i).push(!path[i]))
        }
}

/// `new` is `old` with the leaf `target` at `path` replaced by a split in
/// direction `dir` of `target` (first) and `new_id` (second).
pub open spec fn split_at(old: PaneNode, new: PaneNode, path: Seq<bool>, target: PaneId, dir: SplitDir, new_id: PaneId) -> bool {
    &&& old.subtree_at(path) == Some(PaneNode::Leaf(target))
    &&& new.subtree_at(path) == Some(
        PaneNode::Split(dir, Box::new(PaneNode::Leaf(target)), Box::new(PaneNode::Leaf(new_id))),
    )
    &&& path_kept(old, new, path)
}

/// `new` is `old` with the split at `path`, one of whose children is the
/// leaf `target`, replaced by its other child.
pub open spec fn collapsed_at(old: PaneNode, new: PaneNode, path: Seq<bool>, target: PaneId) -> bool {
    &&& match old.subtree_at(path) {
        Some(PaneNode::Split(_, a, b)) => (*a == PaneNode::Leaf(target) && new.subtree_at(path) == Some(*b)) || (*b
            == PaneNode::Leaf(target) && new.subtree_at(path) == Some(*a)),
        _ => false,
    }
    &&& path_kept(old, new, path)
}

proof fn lemma_subtree_step(d: SplitDir, l: PaneNode, r: PaneNode, b: bool, x: Seq<bool>)
    ensures
        PaneNode::Split(d, Box::new(l), Box::new(r)).subtree_at(seq![b] + x) == if b {
            r.subtree_at(x)
        } else {
            l.subtree_at(x)
        },
{
    assert((seq![b] + x).drop_first() =~= x);
    assert((seq![b] + x)[0] == b);
}

/// Extending a kept path by a step into a child that both trees share the
/// rest of the path in.
proof fn lemma_path_kept_step(
    d: SplitDir,
    l: PaneNode,
    r: PaneNode,
    l2: PaneNode,
    r2: PaneNode,
    b: bool,
    q: Seq<bool>,
)
    requires
        b ==> l2 == l,
        !b ==> r2 == r,
        b ==> path_kept(r, r2, q),
        !b ==> path_kept(l, l2, q),
    ensures
        path_kept(
            PaneNode::Split(d, Box::new(l), Box::new(r)),
            PaneNode::Split(d, Box::new(l2), Box::new(r2)),
            seq![b] + q,
        ),
{
    let old = PaneNode::Split(d, Box::new(l), Box::new(r));
    let new = PaneNode::Split(d, Box::new(l2), Box::new(r2));
    let p = seq![b] + q;
    assert forall|i: int| #![trigger p[i]] 0 <= i < p.len() implies {
        &&& old.split_dir_at(p.take(i)).is_some()
        &&& new.split_dir_at(p.take(i)) == old.split_dir_at(p.take(i))
        &&& new.subtree_at(p.take(i).push(!p[i])) == old.subtree_at(p.take(i).push(!p[i]))
    } by {
        if i == 0 {
            assert(p.take(0) =~= Seq::<bool>::empty());
            assert(p[0] == b);
            assert(p.take(0).push(!p[0]) =~= seq![!b] + Seq::<bool>::empty());
            lemma_subtree_step(d, l, r, !b, Seq::<bool>::empty());
            lemma_subtree_step(d, l2, r2, !b, Seq::<bool>::empty());
        } else {
            let x = q.take(i - 1);
            assert(p.take(i) =~= seq![b] + x);
            assert(p[i] == q[i - 1]);
            assert(p.take(i).push(!p[i]) =~= seq![b] + x.push(!q[i - 1]));
            lemma_subtree_step(d, l, r, b, x);
            lemma_subtree_step(d, l2, r2, b, x);
            lemma_subtree_step(d, l, r, b, x.push(!q[i - 1]));
            lemma_subtree_step(d, l2, r2, b, x.push(!q[i - 1]));
            if b {
                assert(q[i - 1] == q[i - 1]);
            } else {
                assert(q[i - 1] == q[i - 1]);
            }
        }
    }
}

/// Splitting the first leaf `target` puts, exactly where that leaf was, a
/// split in the requested direction with `target` first and `new_id`
/// second, and leaves every other part of the tree as it was: the splits on
/// the way keep their directions and the subtrees off the way are unchanged.
pub proof fn lemma_split_leaf_shape(node: PaneNode, target: PaneId, dir: SplitDir, new_id: PaneId)
    ensures
        node.split_model(target, dir, new_id).1 ==> exists|p: Seq<bool>|
            split_at(node, node.split_model(target, dir, new_id).0, p, target, dir, new_id),
    decreases node,
{
    node.lemma_split_not_found(target, dir, new_id);
    match node {
        PaneNode::Leaf(id) => {
            if id == target {
                let e = Seq::<bool>::empty();
                assert(split_at(node, node.split_model(target, dir, new_id).0, e, target, dir, new_id));
            }
        },
        PaneNode::Split(d, l, r) => {
            let (l2, fl) = l.split_model(target, dir, new_id);
            let (r2, fr) = r.split_model(target, dir, new_id);
            lemma_split_leaf_shape(*l, target, dir, new_id);
            lemma_split_leaf_shape(*r, target, dir, new_id);
            if fl {
                let q = choose|q: Seq<bool>| split_at(*l, l2, q, target, dir, new_id);
                lemma_subtree_step(d, *l, *r, false, q);
                lemma_subtree_step(d, l2, *r, false, q);
                lemma_path_kept_step(d, *l, *r, l2, *r, false, q);
                assert(split_at(node, node.split_model(target, dir, new_id).0, seq![false] + q, target, dir, new_id));
            } else if fr {
                let q = choose|q: Seq<bool>| split_at(*r, r2, q, target, dir, new_id);
                lemma_subtree_step(d, *l, *r, true, q);
                lemma_subtree_step(d, *l, r2, true, q);
                lemma_path_kept_step(d, *l, *r, *l, r2, true, q);
                assert(split_at(node, node.split_model(target, dir, new_id).0, seq![true] + q, target, dir, new_id));
            }
        },
    }
}

/// Removing `target` collapses exactly the split whose child is the leaf
/// `target` into its other child; every other split keeps its direction and
/// every subtree off the way to it is unchanged.
pub proof fn lemma_remove_leaf_shape(node: PaneNode, target: PaneId)
    ensures
        node.remove_model(target).1 ==> exists|p: Seq<bool>| collapsed_at(node, node.remove_model(target).0, p, target),
    decreases node,
{
    node.lemma_remove_not_found(target);
    match node {
        PaneNode::Leaf(_) => {},
        PaneNode::Split(d, l, r) => {
            let e = Seq::<bool>::empty();
            if l.is_leaf_of(target) {
                assert(collapsed_at(node, node.remove_model(target).0, e, target));
            } else if r.is_leaf_of(target) {
                assert(collapsed_at(node, node.remove_model(target).0, e, target));
            } else {
                let (l2, fl) = l.remove_model(target);
                let (r2, fr) = r.remove_model(target);
                lemma_remove_leaf_shape(*l, target);
                lemma_remove_leaf_shape(*r, target);
                if fl {
                    let q = choose|q: Seq<bool>| collapsed_at(*l, l2, q, target);
                    lemma_subtree_step(d, *l, *r, false, q);
                    lemma_subtree_step(d, l2, *r, false, q);
                    lemma_path_kept_step(d, *l, *r, l2, *r, false, q);
                    assert(collapsed_at(node, node.remove_model(target).0, seq![false] + q, target));
                } else if fr {
                    let q = choose|q: Seq<bool>| collapsed_at(*r, r2, q, target);
                    lemma_subtree_step(d, *l, *r, true, q);
                    lemma_subtree_step(d, *l, r2, true, q);
                    lemma_path_kept_step(d, *l, *r, *l, r2, true, q);
                    assert(collapsed_at(node, node.remove_model(target).0, seq![true] + q, target));
                }
            }
        },
    }
}

/// Splitting a leaf finds `target` exactly when the tree holds it. Then the
/// leaf order gains `new_id` right after the first occurrence of `target`
/// and is otherwise unchanged; when `target` is absent the tree is unchanged.
#[verifier::rlimit(40)]
pub proof fn lemma_split_leaf_leaves(node: PaneNode, target: PaneId, dir: SplitDir, new_id: PaneId)
    ensures
        node.split_model(target, dir, new_id).1 == node.leaf_ids().contains(target),
        node.split_model(target, dir, new_id).1 ==> exists|k: int|
            0 <= k < node.leaf_ids().len() && node.leaf_ids()[k] == target && (forall|j: int|
                0 <= j < k ==> node.leaf_ids()[j] != target) && node.split_model(
                target,
                dir,
                new_id,
            ).0.leaf_ids() == node.leaf_ids().insert(k + 1, new_id),
        !node.split_model(target, dir, new_id).1 ==> node.split_model(target, dir, new_id).0
            == node,
    decreases node,
{
    node.lemma_split_not_found(target, dir, new_id);
    match node {
        PaneNode::Leaf(id) => {
            if id == target {
                let res = node.split_model(target, dir, new_id).0;
                assert(PaneNode::Leaf(target).leaf_ids() == seq![target]);
                assert(PaneNode::Leaf(new_id).leaf_ids() == seq![new_id]);
                assert(res.leaf_ids() =~= node.leaf_ids().insert(1, new_id));
                assert(node.leaf_ids()[0] == target);
            } else {
                assert(!node.leaf_ids().contains(target)) by {
                    if node.leaf_ids().contains(target) {
                        assert(node.leaf_ids()[0] == target);
                    }
                }
            }
        },
        PaneNode::Split(d, l, r) => {
            lemma_split_leaf_leaves(*l, target, dir, new_id);
            lemma_split_leaf_leaves(*r, target, dir, new_id);
            let li = l.leaf_ids();
            let ri = r.leaf_ids();
            let all = node.leaf_ids();
            assert(all == li + ri);
            let (l2, fl) = l.split_model(target, dir, new_id);
            let (r2, fr) = r.split_model(target, dir, new_id);
            if fl {
                let k = choose|k: int|
                    0 <= k < li.len() && li[k] == target && (forall|j: int|
                        0 <= j < k ==> li[j] != target) && l2.leaf_ids() == li.insert(k + 1, new_id);
                assert(node.split_model(target, dir, new_id).0.leaf_ids() =~= all.insert(k + 1, new_id));
                assert(all[k] == target);
                assert(all.contains(target));
            } else {
                assert(!li.contains(target));
                if fr {
                    let k = choose|k: int|
                        0 <= k < ri.len() && ri[k] == target && (forall|j: int|
                            0 <= j < k ==> ri[j] != target) && r2.leaf_ids() == ri.insert(k + 1, new_id);
                    let kk = li.len() + k;
                    assert(node.split_model(target, dir, new_id).0.leaf_ids() =~= all.insert(kk + 1, new_id));
                    assert(all[kk] == target);
                    assert forall|j: int| 0 <= j < kk implies all[j] != target by {
                        if j < li.len() {
                            assert(all[j] == li[j]);
                            assert(li.contains(li[j]));
                        } else {
                            assert(all[j] == ri[j - li.len()]);
                        }
                    }
                    assert(all.contains(target));
                } else {
                    assert(!ri.contains(target));
                    assert(!all.contains(target)) by {
                        if all.contains(target) {
                            let j = choose|j: int| 0 <= j < all.len() && all[j] == target;
                            if j < li.len() {
                                assert(li[j] == target);
                            } else {
                                assert(ri[j - li.len()] == target);
                            }
                        }
                    }
                }
            }
        },
    }
}

/// In a layout whose leaves are distinct, removing a leaf succeeds exactly
/// when the tree is a split holding `target`; the leaf order then loses that
/// one occurrence. Otherwise the tree is unchanged.
pub proof fn lemma_remove_leaf_leaves(node: PaneNode, target: PaneId)
    requires
        node.leaf_ids().no_duplicates(),
    ensures
        node.remove_model(target).1 == (node is Split && node.leaf_ids().contains(target)),
        node.remove_model(target).1 ==> exists|k: int|
            0 <= k < node.leaf_ids().len() && node.leaf_ids()[k] == target
                && node.remove_model(target).0.leaf_ids() == node.leaf_ids().remove(k),
        !node.remove_model(target).1 ==> node.remove_model(target).0 == node,
    decreases node,
{
    node.lemma_remove_not_found(target);
    match node {
        PaneNode::Leaf(id) => {},
        PaneNode::Split(d, l, r) => {
            let li = l.leaf_ids();
            let ri = r.leaf_ids();
            let all = node.leaf_ids();
            assert(all == li + ri);
            assert(li.no_duplicates()) by {
                assert forall|i: int, j: int| 0 <= i < li.len() && 0 <= j < li.len() && i != j implies li[i] != li[j] by {
                    assert(all[i] == li[i]);
                    assert(all[j] == li[j]);
                }
            }
            assert(ri.no_duplicates()) by {
                assert forall|i: int, j: int| 0 <= i < ri.len() && 0 <= j < ri.len() && i != j implies ri[i] != ri[j] by {
                    assert(all[li.len() + i] == ri[i]);
                    assert(all[li.len() + j] == ri[j]);
                }
            }
            if l.is_leaf_of(target) {
                assert(li =~= seq![target]);
                assert(all[0] == target);
                assert(node.remove_model(target).0.leaf_ids() =~= all.remove(0));
            } else if r.is_leaf_of(target) {
                assert(ri =~= seq![target]);
                assert(all[all.len() - 1] == target);
                assert(node.remove_model(target).0.leaf_ids() =~= all.remove(all.len() - 1));
            } else {
                lemma_remove_leaf_leaves(*l, target);
                lemma_remove_leaf_leaves(*r, target);
                let (l2, fl) = l.remove_model(target);
                let (r2, fr) = r.remove_model(target);
                assert(li.contains(target) ==> (*l) is Split) by {
                    if li.contains(target) && (*l) is Leaf {
                        let j = choose|j: int| 0 <= j < li.len() && li[j] == target;
                        assert(li.len() == 1);
                    }
                }
                assert(ri.contains(target) ==> (*r) is Split) by {
                    if ri.contains(target) && (*r) is Leaf {
                        let j = choose|j: int| 0 <= j < ri.len() && ri[j] == target;
                        assert(ri.len() == 1);
                    }
                }
                if fl {
                    let k = choose|k: int|
                        0 <= k < li.len() && li[k] == target && l2.leaf_ids() == li.remove(k);
                    assert(all[k] == target);
                    assert(node.remove_model(target).0.leaf_ids() =~= all.remove(k));
                } else if fr {
                    let k = choose|k: int|
                        0 <= k < ri.len() && ri[k] == target && r2.leaf_ids() == ri.remove(k);
                    assert(all[li.len() + k] == target);
                    assert(node.remove_model(target).0.leaf_ids() =~= all.remove(li.len() + k));
                } else {
                    assert(!all.contains(target)) by {
                        if all.contains(target) {
                            let j = choose|j: int| 0 <= j < all.len() && all[j] == target;
                            if j < li.len() {
                                assert(li[j] == target);
                            } else {
                                assert(ri[j - li.len()] == target);
                            }
                        }
                    }
                }
            }
        },
    }
}

} // verus!
