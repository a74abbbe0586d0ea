use vstd::prelude::*;

verus! {

/// Colour scheme chosen on first run.
#[derive(Debug, Clone, Copy, PartialEq, Eq, Structural)]
pub enum SetupTheme {
    Light,
    Dark,
}

/// The appearance step.
#[derive(Debug)]
pub struct AppearanceStep {
    pub theme: SetupTheme,
}

impl AppearanceStep {
    pub fn new() -> (s: Self)
        ensures
            s.theme == SetupTheme::Light,
    {
        AppearanceStep { theme: SetupTheme::Light }
    }

    pub fn set_theme(&mut self, theme: SetupTheme)
        ensures
            final(self).theme == theme,
    {
        self.theme = theme;
    }
}

impl Default for AppearanceStep {
    fn default() -> (s: Self)
        ensures
            s.theme == SetupTheme::Light,
    {
        Self::new()
    }
}

} // verus!
