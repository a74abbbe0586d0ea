use vstd::prelude::*;

verus! {

/// A notification sent by an application.
#[derive(Debug, Clone, PartialEq)]
pub struct NotificationPayload {
    pub title: String,
    pub body: String,
    pub icon: Option<String>,
}

/// One menu entry registered by an application.
#[derive(Debug, Clone, PartialEq)]
pub struct MenuItem {
    pub id: String,
    pub label: String,
    pub enabled: bool,
}

/// A message on the application bus.
#[derive(Debug, Clone, PartialEq)]
pub enum BusMessage {
    Notify(NotificationPayload),
    SetDockBadge { count: u32 },
    RegisterMenu { items: Vec<MenuItem> },
    MenuItemClicked { id: String },
}

/// `item` is the enabled menu entry `id` labelled `label`.
pub open spec fn is_menu_entry(item: MenuItem, id: Seq<char>, label: Seq<char>) -> bool {
    item.id@ == id && item.label@ == label && item.enabled
}

impl MenuItem {
    /// An enabled menu entry.
    pub fn enabled_entry(id: &str, label: &str) -> (item: MenuItem)
        ensures
            is_menu_entry(item, id@, label@),
    {
        MenuItem { id: id.to_owned(), label: label.to_owned(), enabled: true }
    }
}

} // verus!
