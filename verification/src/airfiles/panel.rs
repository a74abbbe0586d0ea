use vstd::prelude::*;
use crate::airfiles::breadcrumb::BreadcrumbPath;
use crate::airfiles::fs::FsEntry;
use crate::airfiles::paths::path_components_of;
use crate::airfiles::order::sort_stable;

verus! {

/// Order of the entries in a panel.
#[derive(Debug, Clone, Copy, PartialEq, Eq, Structural)]
pub enum SortOrder {
    NameAsc,
    NameDesc,
    SizeAsc,
    SizeDesc,
}

/// Lexicographic order of two texts by their characters: -1, 0 or 1.
pub open spec fn text_order(a: Seq<char>, b: Seq<char>) -> int
    decreases a.len(),
{
    if a.len() == 0 && b.len() == 0 {
        0
    } else if a.len() == 0 {
        -1
    } else if b.len() == 0 {
        1
    } else if (a[0] as u32) < (b[0] as u32) {
        -1
    } else if (a[0] as u32) > (b[0] as u32) {
        1
    } else {
        text_order(a.drop_first(), b.drop_first())
    }
}

/// Order of two numbers: -1, 0 or 1.
pub open spec fn number_order(a: u64, b: u64) -> int {
    if a < b {
        -1
    } else if a > b {
        1
    } else {
        0
    }
}

/// The size an entry sorts by: its size, or 0 when it has none.
pub open spec fn size_key(e: FsEntry) -> u64 {
    match e.meta.size_bytes {
        Some(s) => s,
        None => 0,
    }
}

/// The text `s` from character `i` on.
pub open spec fn text_from(s: Seq<char>, i: usize) -> Seq<char> {
    s.skip(i as int)
}

/// Two texts that agree at `i` order as they do from `i + 1` on.
pub proof fn lemma_text_order_step(a: Seq<char>, b: Seq<char>, i: usize)
    requires
        i < a.len(),
        i < b.len(),
        i < usize::MAX,
        a[i as int] == b[i as int],
    ensures
        text_order(text_from(a, i), text_from(b, i)) == text_order(
            text_from(a, (i + 1) as usize),
            text_from(b, (i + 1) as usize),
        ),
        text_from(a, i)[0] == a[i as int],
        text_from(b, i)[0] == b[i as int],
{
    assert(text_from(a, i).drop_first() =~= text_from(a, (i + 1) as usize));
    assert(text_from(b, i).drop_first() =~= text_from(b, (i + 1) as usize));
}

/// The first characters of two texts, where they differ, decide the order.
pub proof fn lemma_text_order_first(a: Seq<char>, b: Seq<char>, i: usize)
    requires
        i < a.len(),
        i < b.len(),
    ensures
        text_from(a, i)[0] == a[i as int],
        text_from(b, i)[0] == b[i as int],
        text_from(a, i).len() == a.len() - i,
        text_from(b, i).len() == b.len() - i,
        text_from(a, 0) == a,
        text_from(b, 0) == b,
{
    assert(text_from(a, 0) =~= a);
    assert(text_from(b, 0) =~= b);
}

/// At the end of either text, the lengths decide the order.
pub proof fn lemma_text_order_end(a: Seq<char>, b: Seq<char>, i: usize)
    requires
        i <= a.len(),
        i <= b.len(),
        i == a.len() || i == b.len(),
    ensures
        text_order(text_from(a, i), text_from(b, i)) == number_order(a.len() as u64, b.len() as u64)
            || a.len() > u64::MAX || b.len() > u64::MAX,
        text_from(a, 0) == a,
        text_from(b, 0) == b,
{
    assert(text_from(a, 0) =~= a);
    assert(text_from(b, 0) =~= b);
}

/// Where `a` goes relative to `b` under `order`: -1 before, 0 equal, 1 after.
pub open spec fn entry_order(order: SortOrder, a: FsEntry, b: FsEntry) -> int {
    match order {
        SortOrder::NameAsc => text_order(a.name@, b.name@),
        SortOrder::NameDesc => text_order(b.name@, a.name@),
        SortOrder::SizeAsc => number_order(size_key(a), size_key(b)),
        SortOrder::SizeDesc => number_order(size_key(b), size_key(a)),
    }
}

/// The entries are in `order`.
pub open spec fn sorted_by(order: SortOrder, s: Seq<FsEntry>) -> bool {
    forall|i: int, j: int| 0 <= i < j < s.len() ==> entry_order(order, s[i], s[j]) <= 0
}

/// `p` maps each position of `after` to the position in `before` it came
/// from, one to one, keeping the relative order of entries that sort equal.
pub open spec fn is_stable_permutation(
    order: SortOrder,
    before: Seq<FsEntry>,
    after: Seq<FsEntry>,
    p: Seq<int>,
) -> bool {
    &&& p.len() == after.len()
    &&& forall|i: int| 0 <= i < p.len() ==> 0 <= #[trigger] p[i] < before.len() && after[i] == before[p[i]]
    &&& forall|i: int, j: int| 0 <= i < p.len() && 0 <= j < p.len() && i != j ==> p[i] != p[j]
    &&& forall|i: int, j: int|
        0 <= i < j < p.len() && entry_order(order, after[i], after[j]) == 0 ==> p[i] < p[j]
}

/// `after` is `before` sorted stably in `order`.
pub open spec fn is_stable_sort(order: SortOrder, before: Seq<FsEntry>, after: Seq<FsEntry>) -> bool {
    &&& after.len() == before.len()
    &&& sorted_by(order, after)
    &&& exists|p: Seq<int>| is_stable_permutation(order, before, after, p)
}

/// Model of a panel: its breadcrumb path, entries, selection and order.
pub struct PanelModel {
    pub path: Seq<Seq<char>>,
    pub entries: Seq<FsEntry>,
    pub selected: Option<usize>,
    pub sort: SortOrder,
}

/// One file panel: a path, its sorted entries and an optional selection.
#[derive(Debug)]
pub struct PanelState {
    pub path: BreadcrumbPath,
    entries: Vec<FsEntry>,
    selected: Option<usize>,
    pub sort: SortOrder,
}

impl View for PanelState {
    type V = PanelModel;

    closed spec fn view(&self) -> PanelModel {
        PanelModel {
            path: self.path@,
            entries: self.entries@,
            selected: self.selected,
            sort: self.sort,
        }
    }
}

impl PanelState {
    /// A panel on `path` with no entries, no selection, sorted by name.
    pub fn new(path: &str) -> (p: Self)
        ensures
            p@ == (PanelModel {
                path: path_components_of(path@),
                entries: Seq::empty(),
                selected: None,
                sort: SortOrder::NameAsc,
            }),
    {
        PanelState {
            path: BreadcrumbPath::from_path(path),
            entries: Vec::new(),
            selected: None,
            sort: SortOrder::NameAsc,
        }
    }

    /// Replaces the entries, sorted in the current order; the selection is
    /// cleared.
    pub fn load_entries(&mut self, entries: Vec<FsEntry>)
        ensures
            is_stable_sort(old(self)@.sort, entries@, final(self)@.entries),
            final(self)@.selected.is_none(),
            final(self)@.path == old(self)@.path,
            final(self)@.sort == old(self)@.sort,
    {
        let mut entries = entries;
        sort_stable(&mut entries, self.sort);
        self.entries = entries;
        self.selected = None;
    }

    /// Changes the order and sorts the entries again; the selection is
    /// cleared.
    pub fn set_sort(&mut self, order: SortOrder)
        ensures
            is_stable_sort(order, old(self)@.entries, final(self)@.entries),
            final(self)@.selected.is_none(),
            final(self)@.path == old(self)@.path,
            final(self)@.sort == order,
    {
        self.sort = order;
        sort_stable(&mut self.entries, order);
        self.selected = None;
    }

    /// Selects entry `index`; does nothing if there is no such entry.
    pub fn select(&mut self, index: usize)
        ensures
            final(self)@ == (PanelModel {
                selected: if index < old(self)@.entries.len() { Some(index) } else { old(self)@.selected },
                ..old(self)@
            }),
    {
        if index < self.entries.len() {
            self.selected = Some(index);
        }
    }

    /// Clears the selection.
    pub fn select_none(&mut self)
        ensures
            final(self)@ == (PanelModel { selected: None, ..old(self)@ }),
    {
        self.selected = None;
    }

    /// The selected entry, if the selection names one.
    pub fn selected_entry(&self) -> (e: Option<&FsEntry>)
        ensures
            match self@.selected {
                Some(i) => if i < self@.entries.len() {
                    e == Some(&self@.entries[i as int])
                } else {
                    e.is_none()
                },
                None => e.is_none(),
            },
    {
        match self.selected {
            Some(i) => if i < self.entries.len() {
                Some(&self.entries[i])
            } else {
                None
            },
            None => None,
        }
    }

    pub fn entries(&self) -> (s: &[FsEntry])
        ensures
            s@ == self@.entries,
    {
        self.entries.as_slice()
    }

    pub fn selected_index(&self) -> (r: Option<usize>)
        ensures
            r == self@.selected,
    {
        self.selected
    }

    /// Goes into subdirectory `name`: the breadcrumb gains it, the entries and
    /// the selection are cleared.
    pub fn navigate_into(&mut self, name: String)
        ensures
            final(self)@ == (PanelModel {
                path: old(self)@.path.push(name@),
                entries: Seq::empty(),
                selected: None,
                sort: old(self)@.sort,
            }),
    {
        self.path.push(name);
        self.entries.clear();
        self.selected = None;
    }

    /// Goes one level up (nothing happens to the path at the root); the
    /// entries and the selection are cleared.
    pub fn navigate_up(&mut self)
        ensures
            final(self)@ == (PanelModel {
                path: if old(self)@.path.len() > 1 { old(self)@.path.drop_last() } else { old(self)@.path },
                entries: Seq::empty(),
                selected: None,
                sort: old(self)@.sort,
            }),
    {
        self.path.pop();
        self.entries.clear();
        self.selected = None;
    }
}

} // verus!
