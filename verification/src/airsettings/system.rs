use vstd::prelude::*;

verus! {

/// Read-only snapshot of the network connection.
#[derive(Debug, Clone)]
pub struct NetworkStatus {
    pub connected: bool,
    /// SSID of the Wi-Fi network; `None` when wired or disconnected.
    pub ssid: Option<String>,
    /// Name of the network interface, e.g. "en0".
    pub interface: String,
}

impl NetworkStatus {
    pub fn new() -> (n: Self)
        ensures
            !n.connected,
            n.ssid.is_none(),
            n.interface@ == "en0"@,
    {
        NetworkStatus { connected: false, ssid: None, interface: "en0".to_owned() }
    }

    /// Updates the connection state.
    pub fn set_connected(&mut self, connected: bool, ssid: Option<String>)
        ensures
            final(self).connected == connected,
            final(self).ssid == ssid,
            final(self).interface == old(self).interface,
    {
        self.connected = connected;
        self.ssid = ssid;
    }
}

impl Default for NetworkStatus {
    fn default() -> (n: Self)
        ensures
            !n.connected,
            n.ssid.is_none(),
            n.interface@ == "en0"@,
    {
        Self::new()
    }
}

/// One user account.
#[derive(Debug, Clone, PartialEq)]
pub struct UserEntry {
    pub id: u32,
    pub username: String,
    pub display_name: String,
    pub is_admin: bool,
}

impl UserEntry {
    pub fn new(id: u32, username: &str, display_name: &str, is_admin: bool) -> (u: Self)
        ensures
            u.id == id,
            u.username@ == username@,
            u.display_name@ == display_name@,
            u.is_admin == is_admin,
    {
        UserEntry {
            id,
            username: username.to_owned(),
            display_name: display_name.to_owned(),
            is_admin,
        }
    }
}

/// The users without those with identifier `id`, in order.
pub open spec fn without_user(users: Seq<UserEntry>, id: u32) -> Seq<UserEntry>
    decreases users.len(),
{
    if users.len() == 0 {
        users
    } else {
        let rest = without_user(users.drop_last(), id);
        if users.last().id == id {
            rest
        } else {
            rest.push(users.last())
        }
    }
}

/// Position of the first user with identifier `id`, if any.
pub open spec fn user_position(users: Seq<UserEntry>, id: u32) -> Option<int> {
    if exists|k: int| 0 <= k < users.len() && users[k].id == id {
        Some(
            choose|k: int|
                0 <= k < users.len() && users[k].id == id && forall|j: int|
                    0 <= j < k ==> users[j].id != id,
        )
    } else {
        None
    }
}

proof fn lemma_user_first_exists(users: Seq<UserEntry>, id: u32, k: int)
    requires
        0 <= k < users.len(),
        users[k].id == id,
    ensures
        exists|q: int| 0 <= q < users.len() && users[q].id == id && forall|j: int| 0 <= j < q ==> users[j].id != id,
    decreases k,
{
    if exists|j: int| 0 <= j < k && users[j].id == id {
        let j = choose|j: int| 0 <= j < k && users[j].id == id;
        lemma_user_first_exists(users, id, j);
    }
}

/// What `user_position` gives: the smallest index of a user with identifier
/// `id` when there is one, and `None` exactly when there is none.
pub proof fn lemma_user_position_facts(users: Seq<UserEntry>, id: u32)
    ensures
        match user_position(users, id) {
            Some(k) => 0 <= k < users.len() && users[k].id == id && forall|j: int| 0 <= j < k ==> users[j].id != id,
            None => forall|j: int| 0 <= j < users.len() ==> users[j].id != id,
        },
{
    if exists|k: int| 0 <= k < users.len() && users[k].id == id {
        let k = choose|k: int| 0 <= k < users.len() && users[k].id == id;
        lemma_user_first_exists(users, id, k);
    }
}

/// Removing the users with identifier `id` keeps every other user.
proof fn lemma_without_user_keeps(users: Seq<UserEntry>, id: u32, k: int)
    requires
        0 <= k < users.len(),
        users[k].id != id,
    ensures
        without_user(users, id).contains(users[k]),
    decreases users.len(),
{
    let w = without_user(users, id);
    if k == users.len() - 1 {
        assert(w[w.len() - 1] == users[k]);
    } else {
        let front = users.drop_last();
        assert(front[k] == users[k]);
        lemma_without_user_keeps(front, id, k);
        let rest = without_user(front, id);
        let j = choose|j: int| 0 <= j < rest.len() && rest[j] == users[k];
        assert(w[j] == users[k]);
    }
}

/// Model of the users settings: the accounts and the active account's id.
pub struct UsersModel {
    pub users: Seq<UserEntry>,
    pub active_user_id: u32,
}

/// Management of user accounts.
#[derive(Debug)]
pub struct UsersSettings {
    users: Vec<UserEntry>,
    active_user_id: u32,
}

impl View for UsersSettings {
    type V = UsersModel;

    closed spec fn view(&self) -> UsersModel {
        UsersModel { users: self.users@, active_user_id: self.active_user_id }
    }
}

/// There is always a user, and the active identifier names one.
pub open spec fn users_wf(m: UsersModel) -> bool {
    &&& m.users.len() >= 1
    &&& user_position(m.users, m.active_user_id).is_some()
}

impl UsersSettings {
    pub open spec fn wf(&self) -> bool {
        users_wf(self@)
    }

    /// Starts with one user, who is active.
    pub fn new(initial_user: UserEntry) -> (s: Self)
        ensures
            s.wf(),
            s@.users == seq![initial_user],
            s@.active_user_id == initial_user.id,
    {
        let id = initial_user.id;
        let mut users: Vec<UserEntry> = Vec::new();
        users.push(initial_user);
        proof {
            assert(users@ =~= seq![initial_user]);
            assert(users@[0].id == id);
        }
        UsersSettings { users, active_user_id: id }
    }

    pub fn users(&self) -> (s: &[UserEntry])
        ensures
            s@ == self@.users,
    {
        self.users.as_slice()
    }

    fn position(&self, id: u32) -> (r: Option<usize>)
        ensures
            r.is_some() == user_position(self@.users, id).is_some(),
            r.is_some() ==> r.unwrap() == user_position(self@.users, id).unwrap(),
            r.is_some() ==> r.unwrap() < self@.users.len(),
    {
        let n = self.users.len();
        let mut i: usize = 0;
        while i < n
            invariant
                n == self.users@.len(),
                i <= n,
                forall|k: int| 0 <= k < i ==> self.users@[k].id != id,
            decreases n - i,
        {
            if self.users[i].id == id {
                proof {
                    let users = self.users@;
                    let k = choose|k: int|
                        0 <= k < users.len() && users[k].id == id && forall|j: int|
                            0 <= j < k ==> users[j].id != id;
                    if k < i {
                    } else if k > i {
                    }
                }
                return Some(i);
            }
            i = i + 1;
        }
        None
    }

    /// The first user with the active identifier, if any.
    pub fn active_user(&self) -> (u: Option<&UserEntry>)
        ensures
            self.wf() ==> u.is_some(),
            match user_position(self@.users, self@.active_user_id) {
                Some(k) => u == Some(&self@.users[k]),
                None => u.is_none(),
            },
    {
        match self.position(self.active_user_id) {
            Some(i) => Some(&self.users[i]),
            None => None,
        }
    }

    pub fn add_user(&mut self, user: UserEntry)
        ensures
            final(self)@ == (UsersModel { users: old(self)@.users.push(user), ..old(self)@ }),
            old(self).wf() ==> final(self).wf(),
    {
        self.users.push(user);
        proof {
            if old(self).wf() {
                lemma_user_position_facts(old(self)@.users, self.active_user_id);
                let k = user_position(old(self)@.users, self.active_user_id).unwrap();
                assert(self@.users[k] == old(self)@.users[k]);
            }
        }
    }

    /// Removes the users with identifier `id`. Nothing happens while there is
    /// only one user. If the active user was removed, the first remaining user
    /// becomes active.
    pub fn remove_user(&mut self, id: u32)
        requires
            !(old(self)@.users.len() > 1 && old(self)@.active_user_id == id && without_user(
                old(self)@.users,
                id,
            ).len() == 0),
        ensures
            old(self)@.users.len() <= 1 ==> final(self)@ == old(self)@,
            old(self)@.users.len() > 1 ==> final(self)@.users == without_user(old(self)@.users, id),
            old(self)@.users.len() > 1 ==> final(self)@.active_user_id == if old(self)@.active_user_id
                == id {
                final(self)@.users[0].id
            } else {
                old(self)@.active_user_id
            },
            old(self).wf() ==> final(self).wf(),
    {
        if self.users.len() <= 1 {
            return;
        }
        let n = self.users.len();
        let ghost old_users = self.users@;
        let mut kept: Vec<UserEntry> = Vec::new();
        let mut i: usize = 0;
        proof {
            assert(old_users.take(0) =~= Seq::<UserEntry>::empty());
        }
        while i < n
            invariant
                n == old_users.len(),
                old_users == self.users@,
                i <= n,
                kept@ == without_user(old_users.take(i as int), id),
            decreases n - i,
        {
            proof {
                assert(old_users.take(i + 1).drop_last() =~= old_users.take(i as int));
                assert(old_users.take(i + 1).last() == old_users[i as int]);
            }
            if self.users[i].id != id {
                let u = self.users[i].clone_entry();
                kept.push(u);
            }
            i = i + 1;
        }
        proof {
            assert(old_users.take(n as int) =~= old_users);
        }
        self.users = kept;
        if self.active_user_id == id {
            self.active_user_id = self.users[0].id;
            proof {
                assert(self@.users[0].id == self.active_user_id);
            }
        } else {
            proof {
                if old(self).wf() {
                    lemma_user_position_facts(old_users, self.active_user_id);
                    let k = user_position(old_users, self.active_user_id).unwrap();
                    lemma_without_user_keeps(old_users, id, k);
                    let j = choose|j: int| 0 <= j < self@.users.len() && self@.users[j] == old_users[k];
                    assert(self@.users[j].id == self.active_user_id);
                }
            }
        }
    }

    /// Makes the user `id` active; does nothing if there is no such user.
    pub fn set_active_user(&mut self, id: u32)
        ensures
            final(self)@ == (UsersModel {
                active_user_id: if user_position(old(self)@.users, id).is_some() {
                    id
                } else {
                    old(self)@.active_user_id
                },
                ..old(self)@
            }),
            old(self).wf() ==> final(self).wf(),
    {
        if self.position(id).is_some() {
            self.active_user_id = id;
        }
    }
}

impl UserEntry {
    fn clone_entry(&self) -> (c: UserEntry)
        ensures
            c == *self,
    {
        UserEntry {
            id: self.id,
            username: self.username.clone(),
            display_name: self.display_name.clone(),
            is_admin: self.is_admin,
        }
    }
}

/// System information shown in the About section.
#[derive(Debug, Clone)]
pub struct AboutInfo {
    pub os_name: String,
    pub version: String,
    pub build: String,
    pub hostname: String,
    pub arch: String,
}

impl AboutInfo {
    pub fn new(os_name: &str, version: &str, build: &str, hostname: &str, arch: &str) -> (a: Self)
        ensures
            a.os_name@ == os_name@,
            a.version@ == version@,
            a.build@ == build@,
            a.hostname@ == hostname@,
            a.arch@ == arch@,
    {
        AboutInfo {
            os_name: os_name.to_owned(),
            version: version.to_owned(),
            build: build.to_owned(),
            hostname: hostname.to_owned(),
            arch: arch.to_owned(),
        }
    }
}

impl Default for AboutInfo {
    fn default() -> (a: Self)
        ensures
            a.os_name@ == "AirOS"@,
            a.version@ == "0.1.0"@,
            a.build@ == "dev"@,
            a.hostname@ == "airos"@,
            a.arch@ == "aarch64"@,
    {
        Self::new("AirOS", "0.1.0", "dev", "airos", "aarch64")
    }
}

} // verus!
