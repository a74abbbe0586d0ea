use vstd::prelude::*;
use crate::text::texts_equal;

verus! {

/// One item of the dock.
#[derive(Debug, Clone, PartialEq)]
pub struct DockItem {
    pub id: String,
    pub label: String,
    pub is_running: bool,
    pub is_pinned: bool,
    pub badge: Option<u32>,
}

/// `item` is a fresh dock item with the given identifier, label and flags,
/// and no badge.
pub open spec fn is_fresh_item(item: DockItem, id: Seq<char>, label: Seq<char>, pinned: bool, running: bool) -> bool {
    &&& item.id@ == id
    &&& item.label@ == label
    &&& item.is_pinned == pinned
    &&& item.is_running == running
    &&& item.badge.is_none()
}

/// Position of the first item with identifier `id`, if any.
pub open spec fn item_position(items: Seq<DockItem>, id: Seq<char>) -> Option<int> {
    if exists|k: int| 0 <= k < items.len() && items[k].id@ == id {
        Some(
            choose|k: int|
                0 <= k < items.len() && items[k].id@ == id && forall|j: int|
                    0 <= j < k ==> items[j].id@ != id,
        )
    } else {
        None
    }
}

proof fn lemma_item_first_exists(items: Seq<DockItem>, id: Seq<char>, k: int)
    requires
        0 <= k < items.len(),
        items[k].id@ == id,
    ensures
        exists|q: int|
            0 <= q < items.len() && items[q].id@ == id && forall|j: int| 0 <= j < q ==> items[j].id@ != id,
    decreases k,
{
    if exists|j: int| 0 <= j < k && items[j].id@ == id {
        let j = choose|j: int| 0 <= j < k && items[j].id@ == id;
        lemma_item_first_exists(items, id, j);
    }
}

/// What `item_position` gives: the smallest index of an item with
/// identifier `id` when there is one, and `None` exactly when there is none.
pub proof fn lemma_item_position_facts(items: Seq<DockItem>, id: Seq<char>)
    ensures
        match item_position(items, id) {
            Some(k) => 0 <= k < items.len() && items[k].id@ == id && forall|j: int|
                0 <= j < k ==> items[j].id@ != id,
            None => forall|j: int| 0 <= j < items.len() ==> items[j].id@ != id,
        },
{
    if exists|k: int| 0 <= k < items.len() && items[k].id@ == id {
        let k = choose|k: int| 0 <= k < items.len() && items[k].id@ == id;
        lemma_item_first_exists(items, id, k);
    }
}

/// The items without those with identifier `id`, in order.
pub open spec fn without_item(items: Seq<DockItem>, id: Seq<char>) -> Seq<DockItem>
    decreases items.len(),
{
    if items.len() == 0 {
        items
    } else {
        let rest = without_item(items.drop_last(), id);
        if items.last().id@ == id {
            rest
        } else {
            rest.push(items.last())
        }
    }
}

/// No two items share an identifier.
pub open spec fn unique_item_ids(items: Seq<DockItem>) -> bool {
    forall|i: int, j: int| 0 <= i < items.len() && 0 <= j < items.len() && i != j ==> items[i].id@ != items[j].id@
}

/// Every item is pinned or running: the dock shows the pinned applications
/// and the running ones, nothing else.
pub open spec fn all_live(items: Seq<DockItem>) -> bool {
    forall|i: int| 0 <= i < items.len() ==> (#[trigger] items[i]).is_pinned || items[i].is_running
}

/// `set_badge` on the item list: the first item with `id` shows `count`, or
/// no badge when `count` is 0.
pub open spec fn badge_model(items: Seq<DockItem>, id: Seq<char>, count: u32) -> Seq<DockItem> {
    match item_position(items, id) {
        Some(k) => items.update(k, DockItem { badge: if count > 0 { Some(count) } else { None }, ..items[k] }),
        None => items,
    }
}

/// Setting a badge on an application in the dock shows exactly the given
/// count when it is positive and clears the badge when it is zero; the item
/// keeps its identifier, label and flags, and every other item is untouched.
/// On an application not in the dock nothing changes.
pub proof fn lemma_badge_shows_count(items: Seq<DockItem>, id: Seq<char>, count: u32)
    ensures
        badge_model(items, id, count).len() == items.len(),
        match item_position(items, id) {
            Some(k) => {
                &&& 0 <= k < items.len()
                &&& items[k].id@ == id
                &&& count > 0 ==> badge_model(items, id, count)[k].badge == Some(count)
                &&& count == 0 ==> badge_model(items, id, count)[k].badge.is_none()
                &&& badge_model(items, id, count)[k].id == items[k].id
                &&& badge_model(items, id, count)[k].label == items[k].label
                &&& badge_model(items, id, count)[k].is_running == items[k].is_running
                &&& badge_model(items, id, count)[k].is_pinned == items[k].is_pinned
                &&& forall|j: int| 0 <= j < items.len() && j != k ==> badge_model(items, id, count)[j] == items[j]
            },
            None => badge_model(items, id, count) == items,
        },
{
    lemma_item_position_facts(items, id);
}

/// State of the dock: pinned and running applications.
#[derive(Debug)]
pub struct DockState {
    items: Vec<DockItem>,
}

impl View for DockState {
    type V = Seq<DockItem>;

    closed spec fn view(&self) -> Seq<DockItem> {
        self.items@
    }
}

proof fn lemma_update_keeps_unique(items: Seq<DockItem>, k: int, item: DockItem)
    requires
        0 <= k < items.len(),
        item.id@ == items[k].id@,
    ensures
        unique_item_ids(items) ==> unique_item_ids(items.update(k, item)),
{
}

proof fn lemma_without_item(items: Seq<DockItem>, id: Seq<char>)
    ensures
        forall|i: int| 0 <= i < without_item(items, id).len() ==> exists|j: int|
            0 <= j < items.len() && #[trigger] without_item(items, id)[i] == items[j] && items[j].id@ != id,
        unique_item_ids(items) ==> unique_item_ids(without_item(items, id)),
        without_item(items, id).len() <= items.len(),
    decreases items.len(),
{
    if items.len() > 0 {
        let front = items.drop_last();
        let rest = without_item(front, id);
        let w = without_item(items, id);
        lemma_without_item(front, id);
        assert forall|i: int| 0 <= i < w.len() implies exists|j: int|
            0 <= j < items.len() && #[trigger] w[i] == items[j] && items[j].id@ != id by {
            if i < rest.len() {
                assert(w[i] == rest[i]);
                let j = choose|j: int| 0 <= j < front.len() && rest[i] == front[j] && front[j].id@ != id;
                assert(items[j] == front[j]);
            } else {
                assert(w[i] == items.last());
                assert(items[items.len() - 1] == items.last());
            }
        }
        if unique_item_ids(items) {
            assert(unique_item_ids(front)) by {
                assert forall|i: int, j: int| 0 <= i < front.len() && 0 <= j < front.len() && i != j implies front[i].id@ != front[j].id@ by {
                    assert(front[i] == items[i]);
                    assert(front[j] == items[j]);
                }
            }
            if !is_last_id(items, id) {
                assert(w == rest.push(items.last()));
                assert forall|i: int, j: int| 0 <= i < w.len() && 0 <= j < w.len() && i != j implies w[i].id@ != w[j].id@ by {
                    if i == w.len() - 1 || j == w.len() - 1 {
                        let other = if i == w.len() - 1 { j } else { i };
                        assert(w[other] == rest[other]);
                        let q = choose|q: int| 0 <= q < front.len() && rest[other] == front[q] && front[q].id@ != id;
                        assert(items[q] == front[q]);
                        assert(items[items.len() - 1] == items.last());
                    } else {
                        assert(w[i] == rest[i]);
                        assert(w[j] == rest[j]);
                    }
                }
            }
        }
    }
}

spec fn is_last_id(items: Seq<DockItem>, id: Seq<char>) -> bool {
    items.last().id@ == id
}

impl DockItem {
    fn new(id: &str, label: &str, pinned: bool, running: bool) -> (item: Self)
        ensures
            is_fresh_item(item, id@, label@, pinned, running),
    {
        DockItem {
            id: id.to_owned(),
            label: label.to_owned(),
            is_running: running,
            is_pinned: pinned,
            badge: None,
        }
    }

    fn duplicate(&self) -> (c: Self)
        ensures
            c == *self,
    {
        DockItem {
            id: self.id.clone(),
            label: self.label.clone(),
            is_running: self.is_running,
            is_pinned: self.is_pinned,
            badge: self.badge,
        }
    }
}

impl DockState {
    pub fn new() -> (d: Self)
        ensures
            d@.len() == 0,
    {
        DockState { items: Vec::new() }
    }

    fn position(&self, id: &str) -> (r: Option<usize>)
        ensures
            r.is_some() == item_position(self@, id@).is_some(),
            r.is_some() ==> r.unwrap() == item_position(self@, id@).unwrap() && r.unwrap() < self@.len()
                && self@[r.unwrap() as int].id@ == id@,
    {
        let n = self.items.len();
        let mut i: usize = 0;
        while i < n
            invariant
                n == self.items@.len(),
                i <= n,
                forall|k: int| 0 <= k < i ==> self.items@[k].id@ != id@,
            decreases n - i,
        {
            if texts_equal(self.items[i].id.as_str(), id) {
                proof {
                    let items = self.items@;
                    let k = choose|k: int|
                        0 <= k < items.len() && items[k].id@ == id@ && forall|j: int|
                            0 <= j < k ==> items[j].id@ != id@;
                    if k < i {
                    } else if k > i {
                    }
                }
                return Some(i);
            }
            i = i + 1;
        }
        None
    }

    fn remove_all(&mut self, id: &str)
        ensures
            final(self)@ == without_item(old(self)@, id@),
    {
        let n = self.items.len();
        let ghost old_items = self.items@;
        let mut kept: Vec<DockItem> = Vec::new();
        let mut i: usize = 0;
        proof {
            assert(old_items.take(0) =~= Seq::<DockItem>::empty());
        }
        while i < n
            invariant
                n == old_items.len(),
                old_items == self.items@,
                i <= n,
                kept@ == without_item(old_items.take(i as int), id@),
            decreases n - i,
        {
            proof {
                assert(old_items.take(i + 1).drop_last() =~= old_items.take(i as int));
                assert(old_items.take(i + 1).last() == old_items[i as int]);
            }
            if !texts_equal(self.items[i].id.as_str(), id) {
                kept.push(self.items[i].duplicate());
            }
            i = i + 1;
        }
        proof {
            assert(old_items.take(n as int) =~= old_items);
        }
        self.items = kept;
    }

    /// Pins the application: an existing item becomes pinned, otherwise a new
    /// pinned, not running item is added.
    pub fn pin(&mut self, id: &str, label: &str)
        ensures
            match item_position(old(self)@, id@) {
                Some(k) => final(self)@ == old(self)@.update(k, DockItem { is_pinned: true, ..old(self)@[k] }),
                None => final(self)@.drop_last() == old(self)@ && final(self)@.len() == old(self)@.len() + 1
                    && is_fresh_item(final(self)@.last(), id@, label@, true, false),
            },
            unique_item_ids(old(self)@) ==> unique_item_ids(final(self)@),
            all_live(old(self)@) ==> all_live(final(self)@),
    {
        match self.position(id) {
            Some(k) => {
                let mut item = self.items[k].duplicate();
                item.is_pinned = true;
                proof {
                    lemma_update_keeps_unique(self.items@, k as int, item);
                }
                self.items.set(k, item);
            },
            None => {
                let ghost old_items = self.items@;
                self.items.push(DockItem::new(id, label, true, false));
                proof {
                    assert(self.items@.drop_last() =~= old_items);
                    if unique_item_ids(old_items) {
                        assert forall|i: int, j: int| 0 <= i < self.items@.len() && 0 <= j < self.items@.len() && i != j implies self.items@[i].id@ != self.items@[j].id@ by {
                            if i == old_items.len() {
                                assert(self.items@[j] == old_items[j]);
                            } else if j == old_items.len() {
                                assert(self.items@[i] == old_items[i]);
                            } else {
                                assert(self.items@[i] == old_items[i]);
                                assert(self.items@[j] == old_items[j]);
                            }
                        }
                    }
                }
            },
        }
    }

    /// Unpins the application; if it is not running it leaves the dock.
    pub fn unpin(&mut self, id: &str)
        ensures
            match item_position(old(self)@, id@) {
                Some(k) => if old(self)@[k].is_running {
                    final(self)@ == old(self)@.update(k, DockItem { is_pinned: false, ..old(self)@[k] })
                } else {
                    final(self)@ == without_item(old(self)@, id@)
                },
                None => final(self)@ == old(self)@,
            },
            unique_item_ids(old(self)@) ==> unique_item_ids(final(self)@),
            all_live(old(self)@) ==> all_live(final(self)@),
    {
        match self.position(id) {
            Some(k) => {
                let mut item = self.items[k].duplicate();
                item.is_pinned = false;
                let running = item.is_running;
                proof {
                    lemma_update_keeps_unique(self.items@, k as int, item);
                }
                self.items.set(k, item);
                if !running {
                    proof {
                        lemma_without_item(old(self)@, id@);
                        lemma_without_item(self.items@, id@);
                        lemma_without_ignores_update(old(self)@, id@, k as int, item);
                    }
                    self.remove_all(id);
                }
            },
            None => {},
        }
    }

    /// Sets the running state. A running application not in the dock is
    /// added (unpinned); a stopped application that is not pinned leaves.
    pub fn set_running(&mut self, id: &str, label: &str, running: bool)
        ensures
            running ==> match item_position(old(self)@, id@) {
                Some(k) => final(self)@ == old(self)@.update(k, DockItem { is_running: true, ..old(self)@[k] }),
                None => final(self)@.drop_last() == old(self)@ && final(self)@.len() == old(self)@.len() + 1
                    && is_fresh_item(final(self)@.last(), id@, label@, false, true),
            },
            !running ==> match item_position(old(self)@, id@) {
                Some(k) => if old(self)@[k].is_pinned {
                    final(self)@ == old(self)@.update(k, DockItem { is_running: false, ..old(self)@[k] })
                } else {
                    final(self)@ == without_item(old(self)@, id@)
                },
                None => final(self)@ == old(self)@,
            },
            unique_item_ids(old(self)@) ==> unique_item_ids(final(self)@),
            all_live(old(self)@) ==> all_live(final(self)@),
    {
        match self.position(id) {
            Some(k) => {
                let mut item = self.items[k].duplicate();
                item.is_running = running;
                let pinned = item.is_pinned;
                proof {
                    lemma_update_keeps_unique(self.items@, k as int, item);
                }
                self.items.set(k, item);
                if !running && !pinned {
                    proof {
                        lemma_without_item(old(self)@, id@);
                        lemma_without_item(self.items@, id@);
                        lemma_without_ignores_update(old(self)@, id@, k as int, item);
                    }
                    self.remove_all(id);
                }
            },
            None => {
                if running {
                    let ghost old_items = self.items@;
                    self.items.push(DockItem::new(id, label, false, true));
                    proof {
                        assert(self.items@.drop_last() =~= old_items);
                        if unique_item_ids(old_items) {
                            assert forall|i: int, j: int| 0 <= i < self.items@.len() && 0 <= j < self.items@.len() && i != j implies self.items@[i].id@ != self.items@[j].id@ by {
                                if i == old_items.len() {
                                    assert(self.items@[j] == old_items[j]);
                                } else if j == old_items.len() {
                                    assert(self.items@[i] == old_items[i]);
                                } else {
                                    assert(self.items@[i] == old_items[i]);
                                    assert(self.items@[j] == old_items[j]);
                                }
                            }
                        }
                    }
                }
            },
        }
    }

    /// Sets the badge count of the application; 0 removes the badge. Does
    /// nothing for an application not in the dock.
    pub fn set_badge(&mut self, id: &str, count: u32)
        ensures
            final(self)@ == badge_model(old(self)@, id@, count),
            item_position(old(self)@, id@) matches Some(k) ==> final(self)@[k].badge == if count > 0 {
                Some(count)
            } else {
                None::<u32>
            },
            unique_item_ids(old(self)@) ==> unique_item_ids(final(self)@),
            all_live(old(self)@) ==> all_live(final(self)@),
    {
        match self.position(id) {
            Some(k) => {
                let mut item = self.items[k].duplicate();
                item.badge = if count > 0 { Some(count) } else { None };
                proof {
                    lemma_update_keeps_unique(self.items@, k as int, item);
                }
                self.items.set(k, item);
            },
            None => {},
        }
    }

    /// The first item with identifier `id`, if any.
    pub fn get(&self, id: &str) -> (r: Option<&DockItem>)
        ensures
            match item_position(self@, id@) {
                Some(k) => r == Some(&self@[k]),
                None => r.is_none(),
            },
    {
        match self.position(id) {
            Some(k) => Some(&self.items[k]),
            None => None,
        }
    }

    pub fn items(&self) -> (s: &[DockItem])
        ensures
            s@ == self@,
    {
        self.items.as_slice()
    }
}

proof fn lemma_without_ignores_update(items: Seq<DockItem>, id: Seq<char>, k: int, item: DockItem)
    requires
        0 <= k < items.len(),
        items[k].id@ == id,
        item.id@ == id,
    ensures
        without_item(items.update(k, item), id) == without_item(items, id),
    decreases items.len(),
{
    if k == items.len() - 1 {
        assert(items.update(k, item).drop_last() =~= items.drop_last());
    } else {
        assert(items.update(k, item).drop_last() =~= items.drop_last().update(k, item));
        lemma_without_ignores_update(items.drop_last(), id, k, item);
    }
}

impl Default for DockState {
    fn default() -> (d: Self)
        ensures
            d@.len() == 0,
    {
        Self::new()
    }
}

} // verus!
