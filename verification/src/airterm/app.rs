use vstd::prelude::*;
use crate::airbus::messages::{MenuItem, is_menu_entry};
use crate::airterm::grid::blank_model;
use crate::airterm::pane::PaneId;
use crate::airterm::split::PaneNode;
use crate::airterm::tab::{Tab, TabModel};

verus! {

/// Shell configuration.
#[derive(Debug, Clone)]
pub struct ShellConfig {
    pub shell: String,
    pub args: Vec<String>,
}

impl ShellConfig {
    /// The default configuration: zsh without arguments.
    pub fn default_zsh() -> (c: Self)
        ensures
            c.shell@ == "zsh"@,
            c.args@.len() == 0,
    {
        ShellConfig { shell: "zsh".to_owned(), args: Vec::new() }
    }
}

impl Default for ShellConfig {
    fn default() -> (c: Self)
        ensures
            c.shell@ == "zsh"@,
            c.args@.len() == 0,
    {
        Self::default_zsh()
    }
}

/// `t` is what `Tab::new(id, rows, cols)` builds.
pub open spec fn is_new_tab(t: TabModel, id: u32, rows: nat, cols: nat) -> bool {
    &&& t.id == id
    &&& t.title == Seq::<char>::empty()
    &&& t.layout == PaneNode::Leaf(PaneId(1))
    &&& t.panes.len() == 1
    &&& t.panes[0].0 == PaneId(1)
    &&& t.panes[0].1.id == PaneId(1)
    &&& t.panes[0].1.grid@ == blank_model(rows, cols, 0, 0)
    &&& t.panes[0].1.title@ == Seq::<char>::empty()
    &&& t.active == PaneId(1)
    &&& t.next_pane_id == 2
}

/// Position of the first tab with identifier `id`, if any.
pub open spec fn tab_position(tabs: Seq<Tab>, id: u32) -> Option<int> {
    if exists|k: int| 0 <= k < tabs.len() && tabs[k]@.id == id {
        Some(
            choose|k: int|
                0 <= k < tabs.len() && tabs[k]@.id == id && forall|j: int|
                    0 <= j < k ==> tabs[j]@.id != id,
        )
    } else {
        None
    }
}

proof fn lemma_tab_first_exists(tabs: Seq<Tab>, id: u32, k: int)
    requires
        0 <= k < tabs.len(),
        tabs[k]@.id == id,
    ensures
        exists|q: int| 0 <= q < tabs.len() && tabs[q]@.id == id && forall|j: int| 0 <= j < q ==> tabs[j]@.id != id,
    decreases k,
{
    if exists|j: int| 0 <= j < k && tabs[j]@.id == id {
        let j = choose|j: int| 0 <= j < k && tabs[j]@.id == id;
        lemma_tab_first_exists(tabs, id, j);
    }
}

/// What `tab_position` gives: the smallest index of a tab with identifier
/// `id` when there is one, and `None` exactly when there is none.
pub proof fn lemma_tab_position_facts(tabs: Seq<Tab>, id: u32)
    ensures
        match tab_position(tabs, id) {
            Some(k) => 0 <= k < tabs.len() && tabs[k]@.id == id && forall|j: int| 0 <= j < k ==> tabs[j]@.id != id,
            None => forall|j: int| 0 <= j < tabs.len() ==> tabs[j]@.id != id,
        },
{
    if exists|k: int| 0 <= k < tabs.len() && tabs[k]@.id == id {
        let k = choose|k: int| 0 <= k < tabs.len() && tabs[k]@.id == id;
        lemma_tab_first_exists(tabs, id, k);
    }
}

/// Model of the terminal application.
pub struct TermAppModel {
    pub tabs: Seq<Tab>,
    pub active_tab: int,
    pub next_tab_id: u32,
    pub default_rows: nat,
    pub default_cols: nat,
    pub config: ShellConfig,
}

/// The whole state of AirTerm: tabs and the shell configuration.
#[derive(Debug)]
pub struct AirTermApp {
    tabs: Vec<Tab>,
    active_tab: usize,
    next_tab_id: u32,
    pub config: ShellConfig,
    default_rows: usize,
    default_cols: usize,
}

impl View for AirTermApp {
    type V = TermAppModel;

    closed spec fn view(&self) -> TermAppModel {
        TermAppModel {
            tabs: self.tabs@,
            active_tab: self.active_tab as int,
            next_tab_id: self.next_tab_id,
            default_rows: self.default_rows as nat,
            default_cols: self.default_cols as nat,
            config: self.config,
        }
    }
}

impl AirTermApp {
    /// There is always a tab, the active index points at one, every tab is
    /// well formed and new tabs get a valid size.
    pub open spec fn wf(&self) -> bool {
        &&& self@.tabs.len() >= 1
        &&& 0 <= self@.active_tab < self@.tabs.len()
        &&& forall|i: int| 0 <= i < self@.tabs.len() ==> (#[trigger] self@.tabs[i]).wf()
        &&& self@.default_rows > 0
        &&& self@.default_cols > 0
        &&& self@.default_rows * self@.default_cols <= usize::MAX
    }

    /// Tab identifiers are distinct and all below the next one to hand out.
    /// Every operation keeps this; only writing a tab's public `id` field
    /// can break it.
    pub open spec fn ids_fresh(&self) -> bool {
        &&& forall|i: int| 0 <= i < self@.tabs.len() ==> (#[trigger] self@.tabs[i])@.id < self@.next_tab_id
        &&& forall|i: int, j: int|
            0 <= i < self@.tabs.len() && 0 <= j < self@.tabs.len() && i != j ==> (#[trigger] self@.tabs[i])@.id
                != (#[trigger] self@.tabs[j])@.id
    }

    /// One tab with identifier 1, active; the next tab gets identifier 2.
    pub fn new(rows: usize, cols: usize) -> (app: Self)
        requires
            rows > 0,
            cols > 0,
            rows * cols <= usize::MAX,
        ensures
            app.wf(),
            app.ids_fresh(),
            app@.tabs.len() == 1,
            is_new_tab(app@.tabs[0]@, 1, rows as nat, cols as nat),
            app@.active_tab == 0,
            app@.next_tab_id == 2,
            app@.default_rows == rows,
            app@.default_cols == cols,
            app@.config.shell@ == "zsh"@,
            app@.config.args@.len() == 0,
    {
        let first_tab = Tab::new(1, rows, cols);
        let mut tabs: Vec<Tab> = Vec::new();
        tabs.push(first_tab);
        AirTermApp {
            tabs,
            active_tab: 0,
            next_tab_id: 2,
            config: ShellConfig::default_zsh(),
            default_rows: rows,
            default_cols: cols,
        }
    }

    pub fn active_tab(&self) -> (t: &Tab)
        requires
            self.wf(),
        ensures
            *t == self@.tabs[self@.active_tab],
    {
        &self.tabs[self.active_tab]
    }

    /// The active tab, for changing it in place.
    pub fn active_tab_mut(&mut self) -> (t: &mut Tab)
        requires
            old(self).wf(),
        ensures
            *t == old(self)@.tabs[old(self)@.active_tab],
            final(t).wf() ==> final(self).wf(),
            old(self).ids_fresh() && final(t)@.id == t@.id ==> final(self).ids_fresh(),
            final(self)@ == (TermAppModel {
                tabs: old(self)@.tabs.update(old(self)@.active_tab, *final(t)),
                ..old(self)@
            }),
            final(self)@.config == old(self)@.config,
    {
        &mut self.tabs[self.active_tab]
    }

    pub fn tab_count(&self) -> (n: usize)
        ensures
            n == self@.tabs.len(),
    {
        self.tabs.len()
    }

    /// Adds a new tab of the default size, makes it active and returns its
    /// identifier.
    pub fn add_tab(&mut self) -> (id: u32)
        requires
            old(self).wf(),
            old(self)@.next_tab_id < u32::MAX,
        ensures
            final(self).wf(),
            id == old(self)@.next_tab_id,
            old(self).ids_fresh() ==> final(self).ids_fresh(),
            old(self).ids_fresh() ==> forall|i: int| 0 <= i < old(self)@.tabs.len() ==> (#[trigger] old(self)@.tabs[i])@.id != id,
            final(self)@.tabs.len() == old(self)@.tabs.len() + 1,
            final(self)@.tabs.drop_last() == old(self)@.tabs,
            is_new_tab(final(self)@.tabs.last()@, id, old(self)@.default_rows, old(self)@.default_cols),
            final(self)@.active_tab == old(self)@.tabs.len(),
            final(self)@.next_tab_id == old(self)@.next_tab_id + 1,
            final(self)@.default_rows == old(self)@.default_rows,
            final(self)@.default_cols == old(self)@.default_cols,
            final(self)@.config == old(self)@.config,
    {
        let id = self.next_tab_id;
        self.next_tab_id = self.next_tab_id + 1;
        let tab = Tab::new(id, self.default_rows, self.default_cols);
        self.tabs.push(tab);
        self.active_tab = self.tabs.len() - 1;
        proof {
            assert(self@.tabs.drop_last() =~= old(self)@.tabs);
            assert forall|i: int| 0 <= i < self@.tabs.len() implies (#[trigger] self@.tabs[i]).wf() by {
                if i < old(self)@.tabs.len() {
                    assert(self@.tabs[i] == old(self)@.tabs[i]);
                }
            }
        }
        id
    }

    fn position(&self, id: u32) -> (r: Option<usize>)
        ensures
            r.is_some() ==> r.unwrap() < self@.tabs.len(),
            r.is_some() == tab_position(self@.tabs, id).is_some(),
            r.is_some() ==> r.unwrap() == tab_position(self@.tabs, id).unwrap(),
    {
        let n = self.tabs.len();
        let mut i: usize = 0;
        while i < n
            invariant
                n == self.tabs@.len(),
                i <= n,
                forall|k: int| 0 <= k < i ==> self.tabs@[k]@.id != id,
            decreases n - i,
        {
            if self.tabs[i].tab_id() == id {
                proof {
                                        let tabs = self.tabs@;
                    assert(tabs[i as int]@.id == id);
                    let k = choose|k: int|
                        0 <= k < tabs.len() && tabs[k]@.id == id && forall|j: int|
                            0 <= j < k ==> tabs[j]@.id != id;
                    if k < i {
                    } else if k > i {
                        assert(tabs[i as int]@.id != id);
                    }
                }
                return Some(i);
            }
            i = i + 1;
        }
        None
    }

    /// Closes the first tab with identifier `id`; closing the only tab does
    /// nothing. The active tab stays active; if it was the one closed, its
    /// right-hand neighbour becomes active, or the new last tab if it was last.
    pub fn close_tab(&mut self, id: u32)
        requires
            old(self).wf(),
        ensures
            final(self).wf(),
            final(self)@.config == old(self)@.config,
            old(self).ids_fresh() ==> final(self).ids_fresh(),
            old(self)@.tabs.len() > 1 && tab_position(old(self)@.tabs, id).is_some() && tab_position(
                old(self)@.tabs,
                id,
            ).unwrap() != old(self)@.active_tab ==> final(self)@.tabs[final(self)@.active_tab]
                == old(self)@.tabs[old(self)@.active_tab],
            old(self).ids_fresh() && old(self)@.tabs.len() > 1 ==> tab_position(final(self)@.tabs, id).is_none(),
            old(self)@.tabs.len() <= 1 || tab_position(old(self)@.tabs, id).is_none() ==> final(self)@
                == old(self)@,
            old(self)@.tabs.len() > 1 && tab_position(old(self)@.tabs, id).is_some() ==> {
                let k = tab_position(old(self)@.tabs, id).unwrap();
                let tabs = old(self)@.tabs.remove(k);
                final(self)@ == (TermAppModel {
                    tabs,
                    active_tab: if old(self)@.active_tab > k {
                        old(self)@.active_tab - 1
                    } else if old(self)@.active_tab >= tabs.len() {
                        tabs.len() - 1
                    } else {
                        old(self)@.active_tab
                    },
                    ..old(self)@
                })
            },
    {
        if self.tabs.len() <= 1 {
            return;
        }
        if let Some(idx) = self.position(id) {
            self.tabs.remove(idx);
            if self.active_tab > idx {
                self.active_tab = self.active_tab - 1;
            } else if self.active_tab >= self.tabs.len() {
                self.active_tab = self.tabs.len() - 1;
            }
            proof {
                assert forall|i: int| 0 <= i < self@.tabs.len() implies (#[trigger] self@.tabs[i]).wf() by {
                    let i0 = if i < idx { i } else { i + 1 };
                    assert(self@.tabs[i] == old(self)@.tabs[i0]);
                }
                lemma_tab_position_facts(old(self)@.tabs, id);
                if old(self)@.active_tab > idx {
                    assert(self@.tabs[self@.active_tab] == old(self)@.tabs[old(self)@.active_tab]);
                } else if old(self)@.active_tab < idx {
                    assert(self@.tabs[self@.active_tab] == old(self)@.tabs[old(self)@.active_tab]);
                }
                if old(self).ids_fresh() {
                    assert forall|j: int| 0 <= j < self@.tabs.len() implies self@.tabs[j]@.id != id by {
                        let j0 = if j < idx { j } else { j + 1 };
                        assert(self@.tabs[j] == old(self)@.tabs[j0]);
                        assert(old(self)@.tabs[idx as int]@.id == id);
                    }
                    lemma_tab_position_facts(self@.tabs, id);
                    assert forall|i: int| 0 <= i < self@.tabs.len() implies (#[trigger] self@.tabs[i])@.id < self@.next_tab_id by {
                        let i0 = if i < idx { i } else { i + 1 };
                        assert(self@.tabs[i] == old(self)@.tabs[i0]);
                    }
                    assert forall|i: int, j: int|
                        0 <= i < self@.tabs.len() && 0 <= j < self@.tabs.len() && i != j implies (#[trigger] self@.tabs[i])@.id
                            != (#[trigger] self@.tabs[j])@.id by {
                        let i0 = if i < idx { i } else { i + 1 };
                        let j0 = if j < idx { j } else { j + 1 };
                        assert(self@.tabs[i] == old(self)@.tabs[i0]);
                        assert(self@.tabs[j] == old(self)@.tabs[j0]);
                    }
                }
            }
        }
    }

    /// Makes the first tab with identifier `id` active; does nothing if there
    /// is none.
    pub fn switch_to_tab(&mut self, id: u32)
        requires
            old(self).wf(),
        ensures
            final(self).wf(),
            final(self)@.config == old(self)@.config,
            old(self).ids_fresh() ==> final(self).ids_fresh(),
            final(self)@ == (TermAppModel {
                active_tab: match tab_position(old(self)@.tabs, id) {
                    Some(k) => k,
                    None => old(self)@.active_tab,
                },
                ..old(self)@
            }),
    {
        if let Some(idx) = self.position(id) {
            self.active_tab = idx;
        }
    }

    /// Identifier of the active tab.
    pub fn active_tab_id(&self) -> (id: u32)
        requires
            self.wf(),
        ensures
            id == self@.tabs[self@.active_tab]@.id,
    {
        self.tabs[self.active_tab].tab_id()
    }

    /// The menu entries AirTerm registers on the bus.
    pub fn menu_items() -> (items: Vec<MenuItem>)
        ensures
            items@.len() == 5,
            is_menu_entry(items@[0], "new_tab"@, "New Tab"@),
            is_menu_entry(items@[1], "close_tab"@, "Close Tab"@),
            is_menu_entry(items@[2], "split_horizontal"@, "Split Horizontal"@),
            is_menu_entry(items@[3], "split_vertical"@, "Split Vertical"@),
            is_menu_entry(items@[4], "clear"@, "Clear"@),
    {
        let mut items: Vec<MenuItem> = Vec::new();
        items.push(MenuItem::enabled_entry("new_tab", "New Tab"));
        items.push(MenuItem::enabled_entry("close_tab", "Close Tab"));
        items.push(MenuItem::enabled_entry("split_horizontal", "Split Horizontal"));
        items.push(MenuItem::enabled_entry("split_vertical", "Split Vertical"));
        items.push(MenuItem::enabled_entry("clear", "Clear"));
        items
    }
}

} // verus!
