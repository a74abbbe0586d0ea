use vstd::prelude::*;
use crate::airterm::grid::blank_model;
use crate::airterm::pane::{Pane, PaneId};
use crate::airterm::split::{PaneNode, SplitDir, lemma_split_leaf_leaves, lemma_remove_leaf_leaves};

verus! {

/// Model of a tab: its identifier and title, the layout tree, the panes with
/// the identifiers they are stored under, the active pane and the identifier
/// the next new pane will get.
pub struct TabModel {
    pub id: u32,
    pub title: Seq<char>,
    pub layout: PaneNode,
    pub panes: Seq<(PaneId, Pane)>,
    pub active: PaneId,
    pub next_pane_id: u64,
}

/// The identifiers the panes are stored under, in order.
pub open spec fn ids_of(panes: Seq<(PaneId, Pane)>) -> Seq<PaneId> {
    panes.map_values(|e: (PaneId, Pane)| e.0)
}

/// Two identifier sequences hold the same identifiers.
pub open spec fn same_ids(a: Seq<PaneId>, b: Seq<PaneId>) -> bool {
    forall|x: PaneId| a.contains(x) <==> b.contains(x)
}

/// Index of the pane stored under `id` (meaningful when there is one).
pub open spec fn index_of_pane(panes: Seq<(PaneId, Pane)>, id: PaneId) -> int {
    choose|k: int| 0 <= k < panes.len() && panes[k].0 == id
}

/// A well-formed tab model: the layout and the panes hold the same distinct
/// identifiers, the active pane is one of them, and every identifier is below
/// the next one to hand out.
pub open spec fn tab_model_wf(m: TabModel) -> bool {
    &&& m.layout.leaf_ids().no_duplicates()
    &&& ids_of(m.panes).no_duplicates()
    &&& same_ids(m.layout.leaf_ids(), ids_of(m.panes))
    &&& m.layout.leaf_ids().len() == m.panes.len()
    &&& ids_of(m.panes).contains(m.active)
    &&& forall|i: int| 0 <= i < m.panes.len() ==> (#[trigger] m.panes[i]).0.0 < m.next_pane_id
}

/// One terminal tab holding panes in a split layout.
#[derive(Debug)]
pub struct Tab {
    pub id: u32,
    pub title: String,
    layout: PaneNode,
    panes: Vec<(PaneId, Pane)>,
    active_pane: PaneId,
    next_pane_id: u64,
}

impl View for Tab {
    type V = TabModel;

    closed spec fn view(&self) -> TabModel {
        TabModel {
            id: self.id,
            title: self.title@,
            layout: self.layout,
            panes: self.panes@,
            active: self.active_pane,
            next_pane_id: self.next_pane_id,
        }
    }
}

proof fn lemma_ids_index(panes: Seq<(PaneId, Pane)>, k: int)
    requires
        0 <= k < panes.len(),
    ensures
        ids_of(panes)[k] == panes[k].0,
        ids_of(panes).len() == panes.len(),
{
}

proof fn lemma_index_of_pane(panes: Seq<(PaneId, Pane)>, id: PaneId, k: int)
    requires
        ids_of(panes).no_duplicates(),
        0 <= k < panes.len(),
        panes[k].0 == id,
    ensures
        index_of_pane(panes, id) == k,
{
    assert(panes[k].0 == id);
    let j = index_of_pane(panes, id);
    assert(ids_of(panes)[j] == panes[j].0);
    assert(ids_of(panes)[k] == panes[k].0);
}

proof fn lemma_contains_id(panes: Seq<(PaneId, Pane)>, id: PaneId)
    ensures
        ids_of(panes).contains(id) <==> exists|k: int| 0 <= k < panes.len() && panes[k].0 == id,
{
    if ids_of(panes).contains(id) {
        let k = choose|k: int| 0 <= k < ids_of(panes).len() && ids_of(panes)[k] == id;
        assert(panes[k].0 == id);
    }
    if exists|k: int| 0 <= k < panes.len() && panes[k].0 == id {
        let k = choose|k: int| 0 <= k < panes.len() && panes[k].0 == id;
        assert(ids_of(panes)[k] == id);
    }
}

impl Tab {
    pub open spec fn wf(&self) -> bool {
        tab_model_wf(self@)
    }

    /// A tab with a single blank pane `PaneId(1)`, which is active.
    pub fn new(id: u32, rows: usize, cols: usize) -> (t: Self)
        requires
            rows > 0,
            cols > 0,
            rows * cols <= usize::MAX,
        ensures
            t.wf(),
            t@.id == id,
            t@.title == Seq::<char>::empty(),
            t@.layout == PaneNode::Leaf(PaneId(1)),
            t@.panes.len() == 1,
            t@.panes[0].0 == PaneId(1),
            t@.panes[0].1.id == PaneId(1),
            t@.panes[0].1.grid@ == blank_model(rows as nat, cols as nat, 0, 0),
            t@.panes[0].1.title@ == Seq::<char>::empty(),
            t@.active == PaneId(1),
            t@.next_pane_id == 2,
    {
        let pane_id = PaneId(1);
        let pane = Pane::new(pane_id, rows, cols);
        let mut panes: Vec<(PaneId, Pane)> = Vec::new();
        panes.push((pane_id, pane));
        let t = Tab {
            id,
            title: String::new(),
            layout: PaneNode::Leaf(pane_id),
            panes,
            active_pane: pane_id,
            next_pane_id: 2,
        };
        proof {
            lemma_ids_index(t.panes@, 0);
            assert(t.layout.leaf_ids() =~= seq![pane_id]);
            assert(ids_of(t.panes@) =~= seq![pane_id]);
        }
        t
    }

    fn find_index(&self, id: PaneId) -> (r: Option<usize>)
        requires
            self.wf(),
        ensures
            r.is_some() <==> ids_of(self@.panes).contains(id),
            r.is_some() ==> r.unwrap() == index_of_pane(self@.panes, id),
            r.is_some() ==> r.unwrap() < self@.panes.len() && self@.panes[r.unwrap() as int].0 == id,
    {
        let n = self.panes.len();
        let mut i: usize = 0;
        while i < n
            invariant
                n == self.panes@.len(),
                i <= n,
                self.wf(),
                forall|k: int| 0 <= k < i ==> self.panes@[k].0 != id,
            decreases n - i,
        {
            if self.panes[i].0 == id {
                proof {
                    lemma_index_of_pane(self.panes@, id, i as int);
                    lemma_contains_id(self.panes@, id);
                }
                return Some(i);
            }
            i = i + 1;
        }
        proof {
            lemma_contains_id(self.panes@, id);
        }
        None
    }

    /// The active pane.
    pub fn active_pane(&self) -> (p: &Pane)
        requires
            self.wf(),
        ensures
            *p == self@.panes[index_of_pane(self@.panes, self@.active)].1,
    {
        let i = self.find_index(self.active_pane).unwrap();
        &self.panes[i].1
    }

    /// The active pane, for changing it in place; it stays stored under the
    /// active identifier whatever is done to it.
    pub fn active_pane_mut(&mut self) -> (p: &mut Pane)
        requires
            old(self).wf(),
        ensures
            final(self).wf(),
            *p == old(self)@.panes[index_of_pane(old(self)@.panes, old(self)@.active)].1,
            final(self)@ == (TabModel {
                panes: old(self)@.panes.update(
                    index_of_pane(old(self)@.panes, old(self)@.active),
                    (old(self)@.active, *final(p)),
                ),
                ..old(self)@
            }),
    {
        let i = self.find_index(self.active_pane).unwrap();
        proof {
            let ps = self.panes@;
            let a = self.active_pane;
            assert forall|q: Pane| #[trigger] ids_of(ps.update(i as int, (a, q))) =~= ids_of(ps) by {
                assert(ps[i as int].0 == a);
            }
            assert forall|q: Pane, j: int| 0 <= j < ps.len() implies (#[trigger] ps.update(i as int, (a, q))[j]).0.0 < self.next_pane_id by {
                assert(ps[j].0.0 < self.next_pane_id);
            }
        }
        let entry = &mut self.panes[i];
        &mut entry.1
    }

    pub(crate) fn tab_id(&self) -> (id: u32)
        ensures
            id == self@.id,
    {
        self.id
    }

    pub fn active_pane_id(&self) -> (id: PaneId)
        ensures
            id == self@.active,
    {
        self.active_pane
    }

    /// The pane stored under `id`, if there is one.
    pub fn pane(&self, id: PaneId) -> (p: Option<&Pane>)
        requires
            self.wf(),
        ensures
            p.is_some() <==> ids_of(self@.panes).contains(id),
            p.is_some() ==> *p.unwrap() == self@.panes[index_of_pane(self@.panes, id)].1,
    {
        match self.find_index(id) {
            Some(i) => Some(&self.panes[i].1),
            None => None,
        }
    }

    /// The pane identifiers in layout order.
    pub fn pane_ids(&self) -> (v: Vec<PaneId>)
        ensures
            v@ == self@.layout.leaf_ids(),
    {
        self.layout.leaves()
    }

    pub fn pane_count(&self) -> (n: usize)
        ensures
            n == self@.panes.len(),
    {
        self.panes.len()
    }

    /// Splits the active pane in direction `dir`: a new `rows` x `cols` pane
    /// becomes the second child of the split and the active pane.
    pub fn split_active(&mut self, dir: SplitDir, rows: usize, cols: usize)
        requires
            old(self).wf(),
            rows > 0,
            cols > 0,
            rows * cols <= usize::MAX,
            old(self)@.next_pane_id < u64::MAX,
        ensures
            final(self).wf(),
            final(self)@.id == old(self)@.id,
            final(self)@.title == old(self)@.title,
            final(self)@.layout == old(self)@.layout.split_model(
                old(self)@.active,
                dir,
                PaneId(old(self)@.next_pane_id),
            ).0,
            final(self)@.panes.len() == old(self)@.panes.len() + 1,
            final(self)@.panes.drop_last() == old(self)@.panes,
            final(self)@.panes.last().0 == PaneId(old(self)@.next_pane_id),
            final(self)@.panes.last().1.id == PaneId(old(self)@.next_pane_id),
            final(self)@.panes.last().1.grid@ == blank_model(rows as nat, cols as nat, 0, 0),
            final(self)@.panes.last().1.title@ == Seq::<char>::empty(),
            final(self)@.active == PaneId(old(self)@.next_pane_id),
            final(self)@.next_pane_id == old(self)@.next_pane_id + 1,
    {
        let ghost old_m = self@;
        let new_id = PaneId(self.next_pane_id);
        self.next_pane_id = self.next_pane_id + 1;
        let ghost leaves0 = self.layout.leaf_ids();
        proof {
            lemma_split_leaf_leaves(self.layout, self.active_pane, dir, new_id);
            lemma_contains_id(old_m.panes, new_id);
        }
        self.layout.split_leaf(self.active_pane, dir, new_id);
        let new_pane = Pane::new(new_id, rows, cols);
        self.panes.push((new_id, new_pane));
        self.active_pane = new_id;
        proof {
            let leaves1 = self.layout.leaf_ids();
            let k = choose|k: int|
                0 <= k < leaves0.len() && leaves0[k] == old_m.active && (forall|j: int|
                    0 <= j < k ==> leaves0[j] != old_m.active) && leaves1 == leaves0.insert(k + 1, new_id);
            assert(!leaves0.contains(new_id));
            let ids1 = ids_of(self.panes@);
            let ids0 = ids_of(old_m.panes);
            assert(ids1 =~= ids0.push(new_id));
            assert forall|x: PaneId| leaves1.contains(x) <==> ids1.contains(x) by {
                if leaves1.contains(x) {
                    let j = choose|j: int| 0 <= j < leaves1.len() && leaves1[j] == x;
                    if j == k + 1 {
                        assert(ids1[ids1.len() - 1] == x);
                    } else if j < k + 1 {
                        assert(leaves0[j] == x);
                        assert(ids0.contains(x));
                        let i = choose|i: int| 0 <= i < ids0.len() && ids0[i] == x;
                        assert(ids1[i] == x);
                    } else {
                        assert(leaves0[j - 1] == x);
                        assert(ids0.contains(x));
                        let i = choose|i: int| 0 <= i < ids0.len() && ids0[i] == x;
                        assert(ids1[i] == x);
                    }
                }
                if ids1.contains(x) {
                    let j = choose|j: int| 0 <= j < ids1.len() && ids1[j] == x;
                    if j == ids1.len() - 1 {
                        assert(leaves1[k + 1] == x);
                    } else {
                        assert(ids0[j] == x);
                        assert(leaves0.contains(x));
                        let i = choose|i: int| 0 <= i < leaves0.len() && leaves0[i] == x;
                        if i <= k {
                            assert(leaves1[i] == x);
                        } else {
                            assert(leaves1[i + 1] == x);
                        }
                    }
                }
            }
            assert(leaves1.no_duplicates()) by {
                assert forall|i: int, j: int| 0 <= i < leaves1.len() && 0 <= j < leaves1.len() && i != j implies leaves1[i] != leaves1[j] by {
                    if i == k + 1 || j == k + 1 {
                        if i == k + 1 {
                            if j < k + 1 {
                                assert(leaves0.contains(leaves0[j]));
                            } else {
                                assert(leaves0.contains(leaves0[j - 1]));
                            }
                        } else {
                            if i < k + 1 {
                                assert(leaves0.contains(leaves0[i]));
                            } else {
                                assert(leaves0.contains(leaves0[i - 1]));
                            }
                        }
                    } else {
                        let i0 = if i < k + 1 { i } else { i - 1 };
                        let j0 = if j < k + 1 { j } else { j - 1 };
                        assert(leaves1[i] == leaves0[i0]);
                        assert(leaves1[j] == leaves0[j0]);
                    }
                }
            }
            assert(ids1.no_duplicates()) by {
                assert forall|i: int, j: int| 0 <= i < ids1.len() && 0 <= j < ids1.len() && i != j implies ids1[i] != ids1[j] by {
                    if i == ids1.len() - 1 {
                        assert(ids0.contains(ids1[j]));
                    } else if j == ids1.len() - 1 {
                        assert(ids0.contains(ids1[i]));
                    } else {
                        assert(ids1[i] == ids0[i]);
                        assert(ids1[j] == ids0[j]);
                    }
                }
            }
            assert(ids1[ids1.len() - 1] == new_id);
            assert forall|i: int| 0 <= i < self.panes@.len() implies (#[trigger] self.panes@[i]).0.0 < self.next_pane_id by {
                if i < old_m.panes.len() {
                    assert(self.panes@[i] == old_m.panes[i]);
                }
            }
            assert(self@.panes.drop_last() =~= old_m.panes);
        }
    }

    /// Closes pane `id`. If it was active, the first remaining pane becomes
    /// active. A tab always keeps at least one pane: closing the only pane
    /// does nothing.
    pub fn close_pane(&mut self, id: PaneId)
        requires
            old(self).wf(),
        ensures
            final(self).wf(),
            old(self)@.panes.len() <= 1 ==> final(self)@ == old(self)@,
            old(self)@.panes.len() > 1 && !ids_of(old(self)@.panes).contains(id) ==> final(self)@
                == old(self)@,
            old(self)@.panes.len() > 1 && ids_of(old(self)@.panes).contains(id) ==> {
                &&& final(self)@.layout == old(self)@.layout.remove_model(id).0
                &&& final(self)@.panes == old(self)@.panes.remove(index_of_pane(old(self)@.panes, id))
                &&& final(self)@.active == if old(self)@.active == id {
                    final(self)@.panes[0].0
                } else {
                    old(self)@.active
                }
                &&& final(self)@.id == old(self)@.id
                &&& final(self)@.title == old(self)@.title
                &&& final(self)@.next_pane_id == old(self)@.next_pane_id
            },
    {
        if self.panes.len() <= 1 {
            return;
        }
        let ghost old_m = self@;
        let ghost leaves0 = self.layout.leaf_ids();
        proof {
            lemma_remove_leaf_leaves(self.layout, id);
        }
        match self.find_index(id) {
            None => {
                proof {
                    assert(!leaves0.contains(id));
                }
                self.layout.remove_leaf(id);
            },
            Some(idx) => {
                proof {
                    assert(leaves0.contains(id));
                    if self.layout is Leaf {
                        assert(leaves0.len() == 1);
                    }
                }
                self.layout.remove_leaf(id);
                self.panes.remove(idx);
                if self.active_pane == id {
                    self.active_pane = self.panes[0].0;
                }
                proof {
                    let leaves1 = self.layout.leaf_ids();
                    let k = choose|k: int|
                        0 <= k < leaves0.len() && leaves0[k] == id && leaves1 == leaves0.remove(k);
                    let ids0 = ids_of(old_m.panes);
                    let ids1 = ids_of(self.panes@);
                    assert(ids1 =~= ids0.remove(idx as int));
                    assert(ids0[idx as int] == id);
                    assert forall|x: PaneId| leaves1.contains(x) <==> ids1.contains(x) by {
                        if leaves1.contains(x) {
                            let j = choose|j: int| 0 <= j < leaves1.len() && leaves1[j] == x;
                            let j0 = if j < k { j } else { j + 1 };
                            assert(leaves0[j0] == x);
                            assert(x != id);
                            assert(leaves0.contains(x));
                            assert(ids0.contains(x));
                            let i = choose|i: int| 0 <= i < ids0.len() && ids0[i] == x;
                            let i1 = if i < idx { i } else { i - 1 };
                            assert(ids1[i1] == x);
                        }
                        if ids1.contains(x) {
                            let j = choose|j: int| 0 <= j < ids1.len() && ids1[j] == x;
                            let j0 = if j < idx { j } else { j + 1 };
                            assert(ids0[j0] == x);
                            assert(x != id);
                            assert(ids0.contains(x));
                            assert(leaves0.contains(x));
                            let i = choose|i: int| 0 <= i < leaves0.len() && leaves0[i] == x;
                            let i1 = if i < k { i } else { i - 1 };
                            assert(leaves1[i1] == x);
                        }
                    }
                    assert(leaves1.no_duplicates()) by {
                        assert forall|i: int, j: int| 0 <= i < leaves1.len() && 0 <= j < leaves1.len() && i != j implies leaves1[i] != leaves1[j] by {
                            let i0 = if i < k { i } else { i + 1 };
                            let j0 = if j < k { j } else { j + 1 };
                            assert(leaves1[i] == leaves0[i0]);
                            assert(leaves1[j] == leaves0[j0]);
                        }
                    }
                    assert(ids1.no_duplicates()) by {
                        assert forall|i: int, j: int| 0 <= i < ids1.len() && 0 <= j < ids1.len() && i != j implies ids1[i] != ids1[j] by {
                            let i0 = if i < idx { i } else { i + 1 };
                            let j0 = if j < idx { j } else { j + 1 };
                            assert(ids1[i] == ids0[i0]);
                            assert(ids1[j] == ids0[j0]);
                        }
                    }
                    if old_m.active == id {
                        assert(ids1[0] == self.panes@[0].0);
                    } else {
                        let a = choose|i: int| 0 <= i < ids0.len() && ids0[i] == old_m.active;
                        let a1 = if a < idx { a } else { a - 1 };
                        assert(ids1[a1] == old_m.active);
                    }
                    assert forall|i: int| 0 <= i < self.panes@.len() implies (#[trigger] self.panes@[i]).0.0 < self.next_pane_id by {
                        let i0 = if i < idx { i } else { i + 1 };
                        assert(self.panes@[i] == old_m.panes[i0]);
                    }
                    lemma_index_of_pane(old_m.panes, id, idx as int);
                }
            },
        }
    }

    /// Makes pane `id` active; does nothing if there is no such pane.
    pub fn set_active_pane(&mut self, id: PaneId)
        requires
            old(self).wf(),
        ensures
            final(self).wf(),
            final(self)@ == (TabModel {
                active: if ids_of(old(self)@.panes).contains(id) { id } else { old(self)@.active },
                ..old(self)@
            }),
    {
        if self.find_index(id).is_some() {
            self.active_pane = id;
        }
    }
}

} // verus!
