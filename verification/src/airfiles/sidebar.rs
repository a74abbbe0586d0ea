use vstd::prelude::*;
use crate::airfiles::paths::{paths_equal, same_path};

verus! {

/// Section of the sidebar.
#[derive(Debug, Clone, Copy, PartialEq, Eq, Structural)]
pub enum SidebarSection {
    Favorites,
    Devices,
    Tags,
}

/// One sidebar item; tags have no path. The path is held as text.
#[derive(Debug, Clone)]
pub struct SidebarItem {
    pub label: String,
    pub path: Option<String>,
    pub section: SidebarSection,
}

/// `item` is a favourite whose path is `path`: the same text, or a path that
/// `std::path::Path` considers equal.
pub open spec fn is_favorite_at(item: SidebarItem, path: Seq<char>) -> bool {
    item.section == SidebarSection::Favorites && match item.path {
        Some(p) => p@ == path || same_path(p@, path),
        None => false,
    }
}

/// Position of the first favourite at `path`, if any.
pub open spec fn first_favorite(items: Seq<SidebarItem>, path: Seq<char>) -> Option<int> {
    if exists|k: int| 0 <= k < items.len() && is_favorite_at(items[k], path) {
        Some(
            choose|k: int|
                0 <= k < items.len() && is_favorite_at(items[k], path) && forall|j: int|
                    0 <= j < k ==> !is_favorite_at(items[j], path),
        )
    } else {
        None
    }
}

proof fn lemma_first_favorite_exists(items: Seq<SidebarItem>, path: Seq<char>, k: int)
    requires
        0 <= k < items.len(),
        is_favorite_at(items[k], path),
    ensures
        exists|q: int|
            0 <= q < items.len() && is_favorite_at(items[q], path) && forall|j: int|
                0 <= j < q ==> !is_favorite_at(items[j], path),
    decreases k,
{
    if exists|j: int| 0 <= j < k && is_favorite_at(items[j], path) {
        let j = choose|j: int| 0 <= j < k && is_favorite_at(items[j], path);
        lemma_first_favorite_exists(items, path, j);
    }
}

/// What `first_favorite` gives: the smallest index of a favourite at `path`
/// when there is one, and `None` exactly when there is none.
pub proof fn lemma_first_favorite_facts(items: Seq<SidebarItem>, path: Seq<char>)
    ensures
        match first_favorite(items, path) {
            Some(k) => 0 <= k < items.len() && is_favorite_at(items[k], path) && forall|j: int|
                0 <= j < k ==> !is_favorite_at(items[j], path),
            None => forall|j: int| 0 <= j < items.len() ==> !is_favorite_at(items[j], path),
        },
{
    if exists|k: int| 0 <= k < items.len() && is_favorite_at(items[k], path) {
        let k = choose|k: int| 0 <= k < items.len() && is_favorite_at(items[k], path);
        lemma_first_favorite_exists(items, path, k);
    }
}

/// A favourite added with the text `path` is found again by that text:
/// removing `path` then removes the first such favourite (or an earlier one
/// at an equal path).
pub proof fn lemma_favorite_found_by_its_text(items: Seq<SidebarItem>, path: Seq<char>, k: int)
    requires
        0 <= k < items.len(),
        items[k].section == SidebarSection::Favorites,
        items[k].path matches Some(p) && p@ == path,
    ensures
        first_favorite(items, path) matches Some(q) && q <= k,
{
    lemma_first_favorite_facts(items, path);
    assert(is_favorite_at(items[k], path));
}

/// The items of one section, in order.
pub open spec fn in_section(items: Seq<SidebarItem>, section: SidebarSection) -> Seq<SidebarItem>
    decreases items.len(),
{
    if items.len() == 0 {
        items
    } else {
        let rest = in_section(items.drop_last(), section);
        if items.last().section == section {
            rest.push(items.last())
        } else {
            rest
        }
    }
}

/// The items of a section are the sidebar's items of that section, in their
/// stored order: the items filtered by section.
pub proof fn lemma_in_section_keeps_order(items: Seq<SidebarItem>, section: SidebarSection)
    ensures
        in_section(items, section) == items.filter(|i: SidebarItem| i.section == section),
    decreases items.len(),
{
    reveal(Seq::filter);
    if items.len() > 0 {
        lemma_in_section_keeps_order(items.drop_last(), section);
    }
}

/// Model of the sidebar: its items and the active index.
pub struct SidebarModel {
    pub items: Seq<SidebarItem>,
    pub active: Option<usize>,
}

/// The file manager's sidebar: favourites, devices and tags.
#[derive(Debug)]
pub struct SidebarState {
    items: Vec<SidebarItem>,
    active: Option<usize>,
}

impl View for SidebarState {
    type V = SidebarModel;

    closed spec fn view(&self) -> SidebarModel {
        SidebarModel { items: self.items@, active: self.active }
    }
}

impl SidebarState {
    pub fn new() -> (s: Self)
        ensures
            s@.items.len() == 0,
            s@.active.is_none(),
    {
        SidebarState { items: Vec::new(), active: None }
    }

    /// Adds an item to the Favorites section.
    pub fn add_favorite(&mut self, path: String, label: String)
        ensures
            final(self)@.items.len() == old(self)@.items.len() + 1,
            final(self)@.items.drop_last() == old(self)@.items,
            final(self)@.items.last() == (SidebarItem {
                label,
                path: Some(path),
                section: SidebarSection::Favorites,
            }),
            final(self)@.active == old(self)@.active,
    {
        self.items.push(SidebarItem { label, path: Some(path), section: SidebarSection::Favorites });
        proof {
            assert(self@.items.drop_last() =~= old(self)@.items);
        }
    }

    /// Adds an item to the Devices section.
    pub fn add_device(&mut self, path: String, label: String)
        ensures
            final(self)@.items.len() == old(self)@.items.len() + 1,
            final(self)@.items.drop_last() == old(self)@.items,
            final(self)@.items.last() == (SidebarItem {
                label,
                path: Some(path),
                section: SidebarSection::Devices,
            }),
            final(self)@.active == old(self)@.active,
    {
        self.items.push(SidebarItem { label, path: Some(path), section: SidebarSection::Devices });
        proof {
            assert(self@.items.drop_last() =~= old(self)@.items);
        }
    }

    /// Adds a tag (an item without a path).
    pub fn add_tag(&mut self, label: String)
        ensures
            final(self)@.items.len() == old(self)@.items.len() + 1,
            final(self)@.items.drop_last() == old(self)@.items,
            final(self)@.items.last() == (SidebarItem {
                label,
                path: None,
                section: SidebarSection::Tags,
            }),
            final(self)@.active == old(self)@.active,
    {
        self.items.push(SidebarItem { label, path: None, section: SidebarSection::Tags });
        proof {
            assert(self@.items.drop_last() =~= old(self)@.items);
        }
    }

    fn is_favorite(item: &SidebarItem, path: &str) -> (r: bool)
        ensures
            r == is_favorite_at(*item, path@),
    {
        if item.section != SidebarSection::Favorites {
            return false;
        }
        match &item.path {
            Some(p) => paths_equal(p.as_str(), path),
            None => false,
        }
    }

    /// Removes the first favourite at `path`. If it was the active item the
    /// selection is cleared; if it came before the active item the active
    /// index moves down by one.
    pub fn remove_favorite(&mut self, path: &str)
        ensures
            final(self)@.items == match first_favorite(old(self)@.items, path@) {
                Some(removed) => old(self)@.items.remove(removed),
                None => old(self)@.items,
            },
            final(self)@.active == match first_favorite(old(self)@.items, path@) {
                Some(removed) => match old(self)@.active {
                    Some(a) => if a == removed {
                        None
                    } else if a > removed {
                        Some((a - 1) as usize)
                    } else {
                        Some(a)
                    },
                    None => None,
                },
                None => old(self)@.active,
            },
    {
        let n = self.items.len();
        let mut i: usize = 0;
        proof {
            lemma_first_favorite_facts(self.items@, path@);
        }
        while i < n
            invariant
                n == self.items@.len(),
                i <= n,
                self@ == old(self)@,
                forall|j: int| 0 <= j < i ==> !is_favorite_at(self.items@[j], path@),
            decreases n - i,
        {
            if Self::is_favorite(&self.items[i], path) {
                proof {
                    lemma_first_favorite_facts(self.items@, path@);
                    let k = first_favorite(self.items@, path@).unwrap();
                    if k < i {
                    } else if k > i {
                    }
                }
                self.items.remove(i);
                match self.active {
                    Some(active) => {
                        if active == i {
                            self.active = None;
                        } else if active > i {
                            self.active = Some(active - 1);
                        }
                    },
                    None => {},
                }
                return;
            }
            i = i + 1;
        }
        proof {
            lemma_first_favorite_facts(self.items@, path@);
        }
    }

    /// Makes item `index` active; does nothing if there is no such item.
    pub fn set_active(&mut self, index: usize)
        ensures
            final(self)@ == (SidebarModel {
                active: if index < old(self)@.items.len() { Some(index) } else { old(self)@.active },
                ..old(self)@
            }),
    {
        if index < self.items.len() {
            self.active = Some(index);
        }
    }

    pub fn active_index(&self) -> (r: Option<usize>)
        ensures
            r == self@.active,
    {
        self.active
    }

    /// Path of the active item; `None` when nothing is active, the index is
    /// stale, or the item is a tag.
    pub fn active_path(&self) -> (r: Option<&str>)
        ensures
            match self@.active {
                Some(i) => if i < self@.items.len() {
                    match self@.items[i as int].path {
                        Some(p) => r.is_some() && r.unwrap()@ == p@,
                        None => r.is_none(),
                    }
                } else {
                    r.is_none()
                },
                None => r.is_none(),
            },
    {
        match self.active {
            Some(i) => if i < self.items.len() {
                match &self.items[i].path {
                    Some(p) => Some(p.as_str()),
                    None => None,
                }
            } else {
                None
            },
            None => None,
        }
    }

    /// The items of `section`, in order.
    pub fn items_in_section(&self, section: SidebarSection) -> (v: Vec<&SidebarItem>)
        ensures
            v@.len() == in_section(self@.items, section).len(),
            forall|k: int| 0 <= k < v@.len() ==> *v@[k] == in_section(self@.items, section)[k],
            v@.len() == self@.items.filter(|i: SidebarItem| i.section == section).len(),
            forall|k: int| 0 <= k < v@.len() ==> *v@[k] == self@.items.filter(|i: SidebarItem| i.section == section)[k],
    {
        proof {
            lemma_in_section_keeps_order(self@.items, section);
        }
        let n = self.items.len();
        let mut v: Vec<&SidebarItem> = Vec::new();
        let mut i: usize = 0;
        proof {
            assert(self.items@.take(0) =~= Seq::<SidebarItem>::empty());
        }
        while i < n
            invariant
                n == self.items@.len(),
                i <= n,
                v@.len() == in_section(self.items@.take(i as int), section).len(),
                forall|k: int| 0 <= k < v@.len() ==> *v@[k] == in_section(self.items@.take(i as int), section)[k],
            decreases n - i,
        {
            proof {
                assert(self.items@.take(i + 1).drop_last() =~= self.items@.take(i as int));
                assert(self.items@.take(i + 1).last() == self.items@[i as int]);
            }
            if self.items[i].section == section {
                v.push(&self.items[i]);
            }
            i = i + 1;
        }
        proof {
            assert(self.items@.take(n as int) =~= self.items@);
        }
        v
    }

    pub fn items(&self) -> (s: &[SidebarItem])
        ensures
            s@ == self@.items,
    {
        self.items.as_slice()
    }

    pub fn len(&self) -> (n: usize)
        ensures
            n == self@.items.len(),
    {
        self.items.len()
    }

    pub fn is_empty(&self) -> (r: bool)
        ensures
            r == (self@.items.len() == 0),
    {
        self.items.len() == 0
    }
}

impl Default for SidebarState {
    fn default() -> (s: Self)
        ensures
            s@.items.len() == 0,
            s@.active.is_none(),
    {
        Self::new()
    }
}

} // verus!
