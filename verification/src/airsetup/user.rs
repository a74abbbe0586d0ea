use vstd::prelude::*;

verus! {

/// The step that creates the first user account.
#[derive(Debug, Clone)]
pub struct UserStep {
    pub username: String,
    pub display_name: String,
    /// Password in plain text; it is hashed when written to the system.
    pub password: String,
}

/// The step may be left: username and password are both non-empty.
pub open spec fn user_valid(u: UserStep) -> bool {
    u.username@.len() > 0 && u.password@.len() > 0
}

impl UserStep {
    pub fn new() -> (s: Self)
        ensures
            s.username@.len() == 0,
            s.display_name@.len() == 0,
            s.password@.len() == 0,
    {
        UserStep { username: String::new(), display_name: String::new(), password: String::new() }
    }

    pub fn set_username(&mut self, s: &str)
        ensures
            final(self).username@ == s@,
            final(self).display_name == old(self).display_name,
            final(self).password == old(self).password,
    {
        self.username = s.to_owned();
    }

    pub fn set_display_name(&mut self, s: &str)
        ensures
            final(self).display_name@ == s@,
            final(self).username == old(self).username,
            final(self).password == old(self).password,
    {
        self.display_name = s.to_owned();
    }

    pub fn set_password(&mut self, s: &str)
        ensures
            final(self).password@ == s@,
            final(self).username == old(self).username,
            final(self).display_name == old(self).display_name,
    {
        self.password = s.to_owned();
    }

    pub fn is_valid(&self) -> (r: bool)
        ensures
            r == user_valid(*self),
    {
        !self.username.as_str().is_empty() && !self.password.as_str().is_empty()
    }
}

impl Default for UserStep {
    fn default() -> (s: Self)
        ensures
            s.username@.len() == 0,
            s.display_name@.len() == 0,
            s.password@.len() == 0,
    {
        Self::new()
    }
}

} // verus!
