use vstd::prelude::*;
use crate::airbus::messages::{BusMessage, NotificationPayload};
use crate::airshell::dock::badge_model;
use crate::airshell::notifications::{NotificationEntry, QueueModel, pushed_entries};
use crate::airshell::topbar::{ShellState, TopBarModel, registered};

verus! {

/// Applies a message an application sent on the bus to the shell state.
/// `app_id` names the sender. A notification is queued, a badge count goes
/// to the sender's dock item, a menu is registered for the sender; a menu
/// click travels the other way and is ignored here.
pub fn handle_bus_message(state: &mut ShellState, app_id: &str, msg: BusMessage)
    requires
        old(state).wf(),
        msg is Notify ==> old(state).notifications@.next_id < u64::MAX,
    ensures
        final(state).wf(),
        match msg {
            BusMessage::Notify(p) => {
                &&& final(state).notifications@ == (QueueModel {
                    entries: pushed_entries(
                        old(state).notifications@.entries,
                        old(state).notifications@.max_size,
                        NotificationEntry {
                            id: old(state).notifications@.next_id,
                            title: p.title,
                            body: p.body,
                            icon: p.icon,
                        },
                    ),
                    next_id: (old(state).notifications@.next_id + 1) as u64,
                    ..old(state).notifications@
                })
                &&& final(state).dock == old(state).dock
                &&& final(state).topbar == old(state).topbar
            },
            BusMessage::SetDockBadge { count } => {
                &&& final(state).dock@ == badge_model(old(state).dock@, app_id@, count)
                &&& final(state).notifications == old(state).notifications
                &&& final(state).topbar == old(state).topbar
            },
            BusMessage::RegisterMenu { items } => {
                &&& final(state).topbar@ == (TopBarModel {
                    menus: registered(old(state).topbar@.menus, app_id@, items@),
                    ..old(state).topbar@
                })
                &&& final(state).dock == old(state).dock
                &&& final(state).notifications == old(state).notifications
            },
            BusMessage::MenuItemClicked { .. } => {
                &&& final(state).dock == old(state).dock
                &&& final(state).notifications == old(state).notifications
                &&& final(state).topbar == old(state).topbar
            },
        },
{
    match msg {
        BusMessage::Notify(NotificationPayload { title, body, icon }) => {
            state.notifications.push(title, body, icon);
        },
        BusMessage::SetDockBadge { count } => {
            state.dock.set_badge(app_id, count);
        },
        BusMessage::RegisterMenu { items } => {
            state.topbar.register_menu(app_id.to_owned(), items);
        },
        BusMessage::MenuItemClicked { .. } => {},
    }
}

} // verus!
