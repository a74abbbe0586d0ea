use vstd::prelude::*;
use crate::airbus::messages::MenuItem;
use crate::airshell::dock::DockState;
use crate::airshell::notifications::{NotificationQueue, QueueModel};
use crate::text::texts_equal;

verus! {

/// Registered menus: (application identifier, its menu entries), in order of
/// first registration.
pub type MenuTable = Seq<(Seq<char>, Seq<MenuItem>)>;

/// Position of the menu of `app`, if registered.
pub open spec fn menu_position(menus: MenuTable, app: Seq<char>) -> Option<int> {
    if exists|k: int| 0 <= k < menus.len() && menus[k].0 == app {
        Some(
            choose|k: int|
                0 <= k < menus.len() && menus[k].0 == app && forall|j: int|
                    0 <= j < k ==> menus[j].0 != app,
        )
    } else {
        None
    }
}

/// The menu registered for `app`, if any.
pub open spec fn menu_of(menus: MenuTable, app: Seq<char>) -> Option<Seq<MenuItem>> {
    match menu_position(menus, app) {
        Some(k) => Some(menus[k].1),
        None => None,
    }
}

/// The table after registering `items` for `app`: an existing menu is
/// replaced, otherwise the menu is added.
pub open spec fn registered(menus: MenuTable, app: Seq<char>, items: Seq<MenuItem>) -> MenuTable {
    match menu_position(menus, app) {
        Some(k) => menus.update(k, (app, items)),
        None => menus.push((app, items)),
    }
}

/// The table after removing the menu of `app`.
pub open spec fn unregistered(menus: MenuTable, app: Seq<char>) -> MenuTable {
    match menu_position(menus, app) {
        Some(k) => menus.remove(k),
        None => menus,
    }
}

/// Every application appears at most once.
pub open spec fn unique_apps(menus: MenuTable) -> bool {
    forall|i: int, j: int| 0 <= i < menus.len() && 0 <= j < menus.len() && i != j ==> menus[i].0 != menus[j].0
}

/// Model of the top bar: the registered menus and the focused application.
pub struct TopBarModel {
    pub menus: MenuTable,
    pub active_app: Option<Seq<char>>,
}

/// The top bar: menus registered by applications and the active application.
#[derive(Debug)]
pub struct TopBarState {
    registered_menus: Vec<(String, Vec<MenuItem>)>,
    active_app_id: Option<String>,
}

impl View for TopBarState {
    type V = TopBarModel;

    closed spec fn view(&self) -> TopBarModel {
        TopBarModel {
            menus: self.registered_menus@.map_values(|e: (String, Vec<MenuItem>)| (e.0@, e.1@)),
            active_app: match self.active_app_id {
                Some(a) => Some(a@),
                None => None,
            },
        }
    }
}

proof fn lemma_first_exists(menus: MenuTable, app: Seq<char>, k: int)
    requires
        0 <= k < menus.len(),
        menus[k].0 == app,
    ensures
        exists|q: int|
            0 <= q < menus.len() && menus[q].0 == app && forall|j: int| 0 <= j < q ==> menus[j].0 != app,
    decreases k,
{
    if exists|j: int| 0 <= j < k && menus[j].0 == app {
        let j = choose|j: int| 0 <= j < k && menus[j].0 == app;
        lemma_first_exists(menus, app, j);
    }
}

/// What `menu_position` gives: the smallest index of a menu of `app` when
/// there is one, and `None` exactly when there is none.
pub proof fn lemma_menu_position_facts(menus: MenuTable, app: Seq<char>)
    ensures
        match menu_position(menus, app) {
            Some(k) => 0 <= k < menus.len() && menus[k].0 == app && forall|j: int|
                0 <= j < k ==> menus[j].0 != app,
            None => forall|j: int| 0 <= j < menus.len() ==> menus[j].0 != app,
        },
{
    if exists|k: int| 0 <= k < menus.len() && menus[k].0 == app {
        let k = choose|k: int| 0 <= k < menus.len() && menus[k].0 == app;
        lemma_first_exists(menus, app, k);
    }
}

proof fn lemma_first_position(menus: MenuTable, app: Seq<char>, k: int)
    requires
        0 <= k < menus.len(),
        menus[k].0 == app,
        forall|j: int| 0 <= j < k ==> menus[j].0 != app,
    ensures
        menu_position(menus, app) == Some(k),
{
    let q = choose|q: int|
        0 <= q < menus.len() && menus[q].0 == app && forall|j: int| 0 <= j < q ==> menus[j].0 != app;
    if q < k {
    } else if q > k {
    }
}

proof fn lemma_no_position(menus: MenuTable, app: Seq<char>)
    requires
        forall|j: int| 0 <= j < menus.len() ==> menus[j].0 != app,
    ensures
        menu_position(menus, app).is_none(),
{
}

/// Registering a menu for `app` makes `app`'s menu exactly `items` and leaves
/// every other application's menu as it was; distinct applications stay
/// distinct.
pub proof fn lemma_register_then_lookup(menus: MenuTable, app: Seq<char>, items: Seq<MenuItem>, other: Seq<char>)
    ensures
        menu_of(registered(menus, app, items), app) == Some(items),
        other != app ==> menu_of(registered(menus, app, items), other) == menu_of(menus, other),
        unique_apps(menus) ==> unique_apps(registered(menus, app, items)),
{
    let r = registered(menus, app, items);
    lemma_menu_position_facts(menus, app);
    lemma_menu_position_facts(menus, other);
    match menu_position(menus, app) {
        Some(k) => {
            lemma_first_position(r, app, k);
            if other != app {
                match menu_position(menus, other) {
                    Some(q) => {
                        lemma_first_position(r, other, q);
                    },
                    None => {
                        lemma_no_position(r, other);
                    },
                }
            }
        },
        None => {
            lemma_first_position(r, app, menus.len() as int);
            if other != app {
                match menu_position(menus, other) {
                    Some(q) => {
                        lemma_first_position(r, other, q);
                    },
                    None => {
                        lemma_no_position(r, other);
                    },
                }
            }
        },
    }
}

/// Unregistering `app` leaves every other application's menu as it was; when
/// applications are distinct, `app` has no menu afterwards.
pub proof fn lemma_unregister_then_lookup(menus: MenuTable, app: Seq<char>, other: Seq<char>)
    ensures
        unique_apps(menus) ==> menu_of(unregistered(menus, app), app).is_none(),
        other != app ==> menu_of(unregistered(menus, app), other) == menu_of(menus, other),
        unique_apps(menus) ==> unique_apps(unregistered(menus, app)),
{
    let r = unregistered(menus, app);
    lemma_menu_position_facts(menus, app);
    lemma_menu_position_facts(menus, other);
    match menu_position(menus, app) {
        Some(k) => {
            if unique_apps(menus) {
                assert forall|j: int| 0 <= j < r.len() implies r[j].0 != app by {
                    if j < k {
                        assert(r[j] == menus[j]);
                    } else {
                        assert(r[j] == menus[j + 1]);
                    }
                }
                lemma_no_position(r, app);
            }
            if other != app {
                match menu_position(menus, other) {
                    Some(q) => {
                        if q < k {
                            lemma_first_position(r, other, q);
                        } else {
                            assert(q != k);
                            assert forall|j: int| 0 <= j < q - 1 implies r[j].0 != other by {
                                if j < k {
                                    assert(r[j] == menus[j]);
                                } else {
                                    assert(r[j] == menus[j + 1]);
                                }
                            }
                            lemma_first_position(r, other, q - 1);
                        }
                    },
                    None => {
                        assert forall|j: int| 0 <= j < r.len() implies r[j].0 != other by {
                            if j < k {
                                assert(r[j] == menus[j]);
                            } else {
                                assert(r[j] == menus[j + 1]);
                            }
                        }
                        lemma_no_position(r, other);
                    },
                }
            }
        },
        None => {
            lemma_no_position(r, app);
        },
    }
}

/// A call on the top bar, for stating what a history of calls does.
pub enum TopBarCall {
    Register { app: String, items: Vec<MenuItem> },
    Unregister { app: String },
    SetActive { app: Option<String> },
}

/// The top bar after one call.
pub open spec fn topbar_step(m: TopBarModel, call: TopBarCall) -> TopBarModel {
    match call {
        TopBarCall::Register { app, items } => TopBarModel { menus: registered(m.menus, app@, items@), ..m },
        TopBarCall::Unregister { app } => TopBarModel { menus: unregistered(m.menus, app@), ..m },
        TopBarCall::SetActive { app } => TopBarModel {
            active_app: match app {
                Some(a) => Some(a@),
                None => None,
            },
            ..m
        },
    }
}

/// The top bar after a history of calls, oldest call first.
pub open spec fn topbar_after(m: TopBarModel, calls: Seq<TopBarCall>) -> TopBarModel
    decreases calls.len(),
{
    if calls.len() == 0 {
        m
    } else {
        topbar_step(topbar_after(m, calls.drop_last()), calls.last())
    }
}

/// The menu of `app` that a history leaves: the items of its latest
/// registration, unless a later unregistration of `app` followed.
pub open spec fn latest_menu(calls: Seq<TopBarCall>, app: Seq<char>) -> Option<Seq<MenuItem>>
    decreases calls.len(),
{
    if calls.len() == 0 {
        None
    } else {
        match calls.last() {
            TopBarCall::Register { app: a, items } => if a@ == app {
                Some(items@)
            } else {
                latest_menu(calls.drop_last(), app)
            },
            TopBarCall::Unregister { app: a } => if a@ == app {
                None
            } else {
                latest_menu(calls.drop_last(), app)
            },
            TopBarCall::SetActive { .. } => latest_menu(calls.drop_last(), app),
        }
    }
}

/// The application a history leaves focused: that of its latest focus call.
pub open spec fn latest_active(calls: Seq<TopBarCall>) -> Option<Seq<char>>
    decreases calls.len(),
{
    if calls.len() == 0 {
        None
    } else {
        match calls.last() {
            TopBarCall::SetActive { app } => match app {
                Some(a) => Some(a@),
                None => None,
            },
            _ => latest_active(calls.drop_last()),
        }
    }
}

/// From a new top bar, every history leaves each application with the menu
/// of its latest registration not undone by a later unregistration, and the
/// focus on the latest focused application; so `active_menu` gives the
/// latest registered menu of the focused application.
pub proof fn lemma_topbar_history(calls: Seq<TopBarCall>)
    ensures
        unique_apps(topbar_after(TopBarModel { menus: Seq::empty(), active_app: None }, calls).menus),
        forall|app: Seq<char>|
            #[trigger] menu_of(topbar_after(TopBarModel { menus: Seq::empty(), active_app: None }, calls).menus, app)
                == latest_menu(calls, app),
        topbar_after(TopBarModel { menus: Seq::empty(), active_app: None }, calls).active_app == latest_active(calls),
    decreases calls.len(),
{
    let start = TopBarModel { menus: Seq::empty(), active_app: None };
    if calls.len() == 0 {
        assert forall|app: Seq<char>| #[trigger] menu_of(start.menus, app) == latest_menu(calls, app) by {
            lemma_no_position(start.menus, app);
        }
    } else {
        let prev = calls.drop_last();
        lemma_topbar_history(prev);
        let m = topbar_after(start, prev);
        match calls.last() {
            TopBarCall::Register { app: a, items } => {
                assert forall|app: Seq<char>| #[trigger] menu_of(topbar_after(start, calls).menus, app)
                    == latest_menu(calls, app) by {
                    lemma_register_then_lookup(m.menus, a@, items@, app);
                    assert(menu_of(m.menus, app) == latest_menu(prev, app));
                }
                lemma_register_then_lookup(m.menus, a@, items@, a@);
            },
            TopBarCall::Unregister { app: a } => {
                assert forall|app: Seq<char>| #[trigger] menu_of(topbar_after(start, calls).menus, app)
                    == latest_menu(calls, app) by {
                    lemma_unregister_then_lookup(m.menus, a@, app);
                    assert(menu_of(m.menus, app) == latest_menu(prev, app));
                }
                lemma_unregister_then_lookup(m.menus, a@, a@);
            },
            TopBarCall::SetActive { .. } => {
                assert forall|app: Seq<char>| #[trigger] menu_of(topbar_after(start, calls).menus, app)
                    == latest_menu(calls, app) by {
                    assert(menu_of(m.menus, app) == latest_menu(prev, app));
                }
            },
        }
    }
}

impl TopBarState {
    pub open spec fn wf(&self) -> bool {
        unique_apps(self@.menus)
    }

    pub fn new() -> (t: Self)
        ensures
            t.wf(),
            t@.menus.len() == 0,
            t@.active_app.is_none(),
    {
        let t = TopBarState { registered_menus: Vec::new(), active_app_id: None };
        proof {
            assert(t@.menus =~= Seq::<(Seq<char>, Seq<MenuItem>)>::empty());
        }
        t
    }

    fn position(&self, app_id: &str) -> (r: Option<usize>)
        ensures
            r.is_some() == menu_position(self@.menus, app_id@).is_some(),
            r.is_some() ==> r.unwrap() == menu_position(self@.menus, app_id@).unwrap() && r.unwrap()
                < self.registered_menus@.len(),
    {
        let n = self.registered_menus.len();
        let mut i: usize = 0;
        while i < n
            invariant
                n == self.registered_menus@.len(),
                i <= n,
                forall|k: int| 0 <= k < i ==> self@.menus[k].0 != app_id@,
            decreases n - i,
        {
            if texts_equal(self.registered_menus[i].0.as_str(), app_id) {
                proof {
                    lemma_first_position(self@.menus, app_id@, i as int);
                }
                return Some(i);
            }
            i = i + 1;
        }
        proof {
            lemma_no_position(self@.menus, app_id@);
        }
        None
    }

    /// Registers the menu of application `app_id`, replacing an earlier one.
    pub fn register_menu(&mut self, app_id: String, items: Vec<MenuItem>)
        requires
            old(self).wf(),
        ensures
            final(self).wf(),
            final(self)@ == (TopBarModel { menus: registered(old(self)@.menus, app_id@, items@), ..old(self)@ }),
            final(self)@ == topbar_step(old(self)@, TopBarCall::Register { app: app_id, items }),
    {
        let ghost app = app_id@;
        let ghost its = items@;
        proof {
            lemma_register_then_lookup(self@.menus, app, its, app);
        }
        match self.position(app_id.as_str()) {
            Some(k) => {
                self.registered_menus.set(k, (app_id, items));
                proof {
                    assert(self@.menus =~= old(self)@.menus.update(k as int, (app, its)));
                }
            },
            None => {
                self.registered_menus.push((app_id, items));
                proof {
                    assert(self@.menus =~= old(self)@.menus.push((app, its)));
                }
            },
        }
    }

    /// Removes the menu of an application (when it quits).
    pub fn unregister_menu(&mut self, app_id: &str)
        requires
            old(self).wf(),
        ensures
            final(self).wf(),
            final(self)@ == (TopBarModel { menus: unregistered(old(self)@.menus, app_id@), ..old(self)@ }),
            forall|a: String| a@ == app_id@ ==> final(self)@ == #[trigger] topbar_step(old(self)@, TopBarCall::Unregister { app: a }),
    {
        proof {
            lemma_unregister_then_lookup(self@.menus, app_id@, app_id@);
        }
        match self.position(app_id) {
            Some(k) => {
                self.registered_menus.remove(k);
                proof {
                    assert(self@.menus =~= old(self)@.menus.remove(k as int));
                }
            },
            None => {},
        }
    }

    /// Sets the focused application.
    pub fn set_active_app(&mut self, app_id: Option<String>)
        requires
            old(self).wf(),
        ensures
            final(self).wf(),
            final(self)@ == (TopBarModel {
                active_app: match app_id {
                    Some(a) => Some(a@),
                    None => None,
                },
                ..old(self)@
            }),
            final(self)@ == topbar_step(old(self)@, TopBarCall::SetActive { app: app_id }),
    {
        self.active_app_id = app_id;
    }

    /// Whether application `app_id` has a registered menu.
    pub fn is_registered(&self, app_id: &str) -> (r: bool)
        ensures
            r == menu_of(self@.menus, app_id@).is_some(),
    {
        self.position(app_id).is_some()
    }

    /// The menu of the focused application, if it registered one.
    pub fn active_menu(&self) -> (m: Option<&[MenuItem]>)
        ensures
            match self@.active_app {
                Some(a) => match menu_of(self@.menus, a) {
                    Some(items) => m.is_some() && m.unwrap()@ == items,
                    None => m.is_none(),
                },
                None => m.is_none(),
            },
    {
        match &self.active_app_id {
            Some(a) => match self.position(a.as_str()) {
                Some(k) => Some(self.registered_menus[k].1.as_slice()),
                None => None,
            },
            None => None,
        }
    }
}

impl Default for TopBarState {
    fn default() -> (t: Self)
        ensures
            t.wf(),
            t@.menus.len() == 0,
            t@.active_app.is_none(),
    {
        Self::new()
    }
}

/// The whole state of the shell: dock, notifications and top bar.
pub struct ShellState {
    pub dock: DockState,
    pub notifications: NotificationQueue,
    pub topbar: TopBarState,
}

impl ShellState {
    pub open spec fn wf(&self) -> bool {
        self.notifications.wf() && self.topbar.wf()
    }

    /// An empty dock, a queue of up to 20 notifications and an empty top bar.
    pub fn new() -> (s: Self)
        ensures
            s.wf(),
            s.dock@.len() == 0,
            s.notifications@ == (QueueModel { entries: Seq::empty(), max_size: 20, next_id: 1 }),
            s.topbar@.menus.len() == 0,
            s.topbar@.active_app.is_none(),
    {
        ShellState {
            dock: DockState::new(),
            notifications: NotificationQueue::new(20),
            topbar: TopBarState::new(),
        }
    }
}

impl Default for ShellState {
    fn default() -> (s: Self)
        ensures
            s.wf(),
            s.dock@.len() == 0,
            s.notifications@ == (QueueModel { entries: Seq::empty(), max_size: 20, next_id: 1 }),
            s.topbar@.menus.len() == 0,
            s.topbar@.active_app.is_none(),
    {
        Self::new()
    }
}

} // verus!
