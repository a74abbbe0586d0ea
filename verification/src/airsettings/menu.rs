use vstd::prelude::*;
use crate::airbus::messages::{MenuItem, is_menu_entry};

verus! {

/// The menu entries the settings app registers on the bus: its three main
/// sections.
pub fn menu_items() -> (items: Vec<MenuItem>)
    ensures
        items@.len() == 3,
        is_menu_entry(items@[0], "appearance"@, "Appearance"@),
        is_menu_entry(items@[1], "display"@, "Display"@),
        is_menu_entry(items@[2], "sound"@, "Sound"@),
{
    let mut items: Vec<MenuItem> = Vec::new();
    items.push(MenuItem::enabled_entry("appearance", "Appearance"));
    items.push(MenuItem::enabled_entry("display", "Display"));
    items.push(MenuItem::enabled_entry("sound", "Sound"));
    items
}

} // verus!
