use vstd::prelude::*;

verus! {

/// A category of the settings (an item of the sidebar).
#[derive(Debug, Clone, Copy, PartialEq, Eq, Structural)]
pub enum SettingsCategory {
    Display,
    Sound,
    Network,
    Users,
    Appearance,
    About,
}

/// The categories in sidebar order.
pub open spec fn category_order() -> Seq<SettingsCategory> {
    seq![
        SettingsCategory::Display,
        SettingsCategory::Sound,
        SettingsCategory::Network,
        SettingsCategory::Users,
        SettingsCategory::Appearance,
        SettingsCategory::About,
    ]
}

/// The label shown for a category.
pub open spec fn category_label(c: SettingsCategory) -> Seq<char> {
    match c {
        SettingsCategory::Display => "Display"@,
        SettingsCategory::Sound => "Sound"@,
        SettingsCategory::Network => "Network"@,
        SettingsCategory::Users => "Users"@,
        SettingsCategory::Appearance => "Appearance"@,
        SettingsCategory::About => "About"@,
    }
}

/// Every category has a label, and no two categories share one.
pub proof fn lemma_category_labels(a: SettingsCategory, b: SettingsCategory)
    ensures
        category_label(a).len() > 0,
        a != b ==> category_label(a) != category_label(b),
        category_order().contains(a),
{
    reveal_strlit("Display");
    reveal_strlit("Sound");
    reveal_strlit("Network");
    reveal_strlit("Users");
    reveal_strlit("Appearance");
    reveal_strlit("About");
    let o = category_order();
    match a {
        SettingsCategory::Display => assert(o[0] == a),
        SettingsCategory::Sound => assert(o[1] == a),
        SettingsCategory::Network => assert(o[2] == a),
        SettingsCategory::Users => assert(o[3] == a),
        SettingsCategory::Appearance => assert(o[4] == a),
        SettingsCategory::About => assert(o[5] == a),
    }
    if a != b {
        if category_label(a).len() == category_label(b).len() {
            assert(category_label(a)[0] != category_label(b)[0]);
        }
    }
}

impl SettingsCategory {
    /// All categories in sidebar order.
    pub fn all() -> (v: Vec<Self>)
        ensures
            v@ == category_order(),
    {
        let v: Vec<SettingsCategory> = vec![
            SettingsCategory::Display,
            SettingsCategory::Sound,
            SettingsCategory::Network,
            SettingsCategory::Users,
            SettingsCategory::Appearance,
            SettingsCategory::About,
        ];
        proof {
            assert(v@ =~= category_order());
        }
        v
    }

    pub fn label(self) -> (s: &'static str)
        ensures
            s@ == category_label(self),
    {
        match self {
            SettingsCategory::Display => "Display",
            SettingsCategory::Sound => "Sound",
            SettingsCategory::Network => "Network",
            SettingsCategory::Users => "Users",
            SettingsCategory::Appearance => "Appearance",
            SettingsCategory::About => "About",
        }
    }
}

/// Navigation state of the settings sidebar: the active category.
#[derive(Debug)]
pub struct SidebarNav {
    active: SettingsCategory,
}

impl View for SidebarNav {
    type V = SettingsCategory;

    closed spec fn view(&self) -> SettingsCategory {
        self.active
    }
}

impl SidebarNav {
    pub fn new() -> (n: Self)
        ensures
            n@ == SettingsCategory::Display,
    {
        SidebarNav { active: SettingsCategory::Display }
    }

    pub fn active(&self) -> (c: SettingsCategory)
        ensures
            c == self@,
    {
        self.active
    }

    pub fn set_active(&mut self, category: SettingsCategory)
        ensures
            final(self)@ == category,
    {
        self.active = category;
    }
}

impl Default for SidebarNav {
    fn default() -> (n: Self)
        ensures
            n@ == SettingsCategory::Display,
    {
        Self::new()
    }
}

} // verus!
