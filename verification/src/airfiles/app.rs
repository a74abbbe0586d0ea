use vstd::prelude::*;
use crate::airbus::messages::{MenuItem, is_menu_entry};
use crate::airfiles::panel::{PanelModel, PanelState, SortOrder};
use crate::airfiles::paths::path_components_of;
use crate::airfiles::sidebar::SidebarState;

verus! {

/// Which of the two panels is active.
#[derive(Debug, Clone, Copy, PartialEq, Eq, Structural)]
pub enum ActivePanel {
    Left,
    Right,
}

/// The panel that is not `p`.
pub open spec fn other_panel(p: ActivePanel) -> ActivePanel {
    match p {
        ActivePanel::Left => ActivePanel::Right,
        ActivePanel::Right => ActivePanel::Left,
    }
}

/// Switching panels twice, or toggling dual-panel mode twice, gives back
/// the state one started from.
pub proof fn lemma_switch_and_toggle_twice(p: ActivePanel, dual: bool)
    ensures
        other_panel(other_panel(p)) == p,
        other_panel(p) != p,
        !(!dual) == dual,
{
}

/// A fresh panel on `path`: no entries, no selection, sorted by name.
pub open spec fn fresh_panel(path: Seq<char>) -> PanelModel {
    PanelModel {
        path: path_components_of(path),
        entries: Seq::empty(),
        selected: None,
        sort: SortOrder::NameAsc,
    }
}

/// The whole state of AirFiles: two panels, the sidebar, the active panel.
#[derive(Debug)]
pub struct AirFilesApp {
    pub left: PanelState,
    pub right: PanelState,
    pub sidebar: SidebarState,
    pub active_panel: ActivePanel,
    pub dual_panel: bool,
}

impl AirFilesApp {
    /// Both panels open on `home`, the left one active, single-panel mode.
    pub fn new(home: String) -> (app: Self)
        ensures
            app.left@ == fresh_panel(home@),
            app.right@ == fresh_panel(home@),
            app.sidebar@.items.len() == 0,
            app.sidebar@.active.is_none(),
            app.active_panel == ActivePanel::Left,
            !app.dual_panel,
    {
        AirFilesApp {
            left: PanelState::new(home.as_str()),
            right: PanelState::new(home.as_str()),
            sidebar: SidebarState::new(),
            active_panel: ActivePanel::Left,
            dual_panel: false,
        }
    }

    /// Switches between single-panel and dual-panel mode.
    pub fn toggle_dual_panel(&mut self)
        ensures
            final(self).dual_panel == !old(self).dual_panel,
            final(self).left == old(self).left,
            final(self).right == old(self).right,
            final(self).sidebar == old(self).sidebar,
            final(self).active_panel == old(self).active_panel,
    {
        self.dual_panel = !self.dual_panel;
    }

    pub fn active_panel(&self) -> (p: &PanelState)
        ensures
            *p == match self.active_panel {
                ActivePanel::Left => self.left,
                ActivePanel::Right => self.right,
            },
    {
        match self.active_panel {
            ActivePanel::Left => &self.left,
            ActivePanel::Right => &self.right,
        }
    }

    /// The active panel, for changing it in place.
    pub fn active_panel_mut(&mut self) -> (p: &mut PanelState)
        ensures
            old(self).active_panel == ActivePanel::Left ==> *p == old(self).left && final(self).left
                == *final(p) && final(self).right == old(self).right,
            old(self).active_panel == ActivePanel::Right ==> *p == old(self).right
                && final(self).right == *final(p) && final(self).left == old(self).left,
            final(self).sidebar == old(self).sidebar,
            final(self).active_panel == old(self).active_panel,
            final(self).dual_panel == old(self).dual_panel,
    {
        match self.active_panel {
            ActivePanel::Left => &mut self.left,
            ActivePanel::Right => &mut self.right,
        }
    }

    /// Makes the other panel active.
    pub fn switch_panel(&mut self)
        ensures
            final(self).active_panel == other_panel(old(self).active_panel),
            final(self).left == old(self).left,
            final(self).right == old(self).right,
            final(self).sidebar == old(self).sidebar,
            final(self).dual_panel == old(self).dual_panel,
    {
        self.active_panel = match self.active_panel {
            ActivePanel::Left => ActivePanel::Right,
            ActivePanel::Right => ActivePanel::Left,
        };
    }

    /// Opens the path clicked in the sidebar in the active panel, which starts
    /// afresh on it.
    pub fn navigate_sidebar_path(&mut self, path: &str)
        ensures
            old(self).active_panel == ActivePanel::Left ==> final(self).left@ == fresh_panel(path@)
                && final(self).right == old(self).right,
            old(self).active_panel == ActivePanel::Right ==> final(self).right@ == fresh_panel(path@)
                && final(self).left == old(self).left,
            final(self).sidebar == old(self).sidebar,
            final(self).active_panel == old(self).active_panel,
            final(self).dual_panel == old(self).dual_panel,
    {
        let panel = self.active_panel_mut();
        *panel = PanelState::new(path);
    }

    /// The menu entries AirFiles registers on the bus.
    pub fn menu_items() -> (items: Vec<MenuItem>)
        ensures
            items@.len() == 4,
            is_menu_entry(items@[0], "new_folder"@, "New Folder"@),
            is_menu_entry(items@[1], "copy"@, "Copy"@),
            is_menu_entry(items@[2], "paste"@, "Paste"@),
            is_menu_entry(items@[3], "delete"@, "Delete"@),
    {
        let mut items: Vec<MenuItem> = Vec::new();
        items.push(MenuItem::enabled_entry("new_folder", "New Folder"));
        items.push(MenuItem::enabled_entry("copy", "Copy"));
        items.push(MenuItem::enabled_entry("paste", "Paste"));
        items.push(MenuItem::enabled_entry("delete", "Delete"));
        items
    }
}

} // verus!
