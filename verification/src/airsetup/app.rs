use vstd::prelude::*;
use crate::airbus::messages::{MenuItem, is_menu_entry};
use crate::airsetup::appearance::AppearanceStep;
use crate::airsetup::language::LanguageStep;
use crate::airsetup::network::{NetworkStep, network_valid};
use crate::airsetup::step::{WizardStep, next_step, prev_step};
use crate::airsetup::user::{UserStep, user_valid};

verus! {

/// The whole state of the first-run wizard.
#[derive(Debug)]
pub struct AirSetupApp {
    pub current_step: WizardStep,
    pub language: LanguageStep,
    pub user: UserStep,
    pub network: NetworkStep,
    pub appearance: AppearanceStep,
    /// Set once the wizard has reached Done.
    pub completed: bool,
}

impl AirSetupApp {
    /// The current step may be left forward: Welcome, Language and Appearance
    /// always, User with valid data, Network with a pick or a skip, Done never.
    pub open spec fn may_advance(&self) -> bool {
        match self.current_step {
            WizardStep::Welcome => true,
            WizardStep::Language => true,
            WizardStep::User => user_valid(self.user),
            WizardStep::Network => network_valid(self.network@),
            WizardStep::Appearance => true,
            WizardStep::Done => false,
        }
    }

    pub fn new() -> (app: Self)
        ensures
            app.current_step == WizardStep::Welcome,
            !app.completed,
            app.language.selected == crate::airsetup::language::Language::English,
            app.user.username@.len() == 0,
            app.user.password@.len() == 0,
            app.user.display_name@.len() == 0,
            app.network@.available.len() == 0,
            app.network@.selected.is_none(),
            !app.network@.skipped,
            app.appearance.theme == crate::airsetup::appearance::SetupTheme::Light,
    {
        AirSetupApp {
            current_step: WizardStep::Welcome,
            language: LanguageStep::new(),
            user: UserStep::new(),
            network: NetworkStep::new(),
            appearance: AppearanceStep::new(),
            completed: false,
        }
    }

    pub fn can_advance(&self) -> (r: bool)
        ensures
            r == self.may_advance(),
    {
        match self.current_step {
            WizardStep::Welcome => true,
            WizardStep::Language => true,
            WizardStep::User => self.user.is_valid(),
            WizardStep::Network => self.network.is_valid(),
            WizardStep::Appearance => true,
            WizardStep::Done => false,
        }
    }

    /// Moves to the next step if the current one may be left; reaching Done
    /// marks the wizard completed. Returns whether it moved.
    pub fn advance(&mut self) -> (moved: bool)
        ensures
            moved == old(self).may_advance(),
            moved ==> final(self).current_step == next_step(old(self).current_step).unwrap(),
            !moved ==> final(self).current_step == old(self).current_step,
            final(self).completed == (old(self).completed || (moved && final(self).current_step
                == WizardStep::Done)),
            final(self).language == old(self).language,
            final(self).user == old(self).user,
            final(self).network == old(self).network,
            final(self).appearance == old(self).appearance,
    {
        if !self.can_advance() {
            return false;
        }
        match self.current_step.next() {
            Some(next) => {
                self.current_step = next;
                if self.current_step == WizardStep::Done {
                    self.completed = true;
                }
                true
            },
            None => false,
        }
    }

    /// Moves back one step; does nothing at Welcome.
    pub fn go_back(&mut self)
        ensures
            final(self).current_step == match prev_step(old(self).current_step) {
                Some(p) => p,
                None => old(self).current_step,
            },
            final(self).completed == old(self).completed,
            final(self).language == old(self).language,
            final(self).user == old(self).user,
            final(self).network == old(self).network,
            final(self).appearance == old(self).appearance,
    {
        if let Some(prev) = self.current_step.prev() {
            self.current_step = prev;
        }
    }

    /// The menu entries the wizard registers on the bus.
    pub fn menu_items() -> (items: Vec<MenuItem>)
        ensures
            items@.len() == 2,
            is_menu_entry(items@[0], "next"@, "Next"@),
            is_menu_entry(items@[1], "back"@, "Back"@),
    {
        let mut items: Vec<MenuItem> = Vec::new();
        items.push(MenuItem::enabled_entry("next", "Next"));
        items.push(MenuItem::enabled_entry("back", "Back"));
        items
    }
}

impl Default for AirSetupApp {
    fn default() -> (app: Self)
        ensures
            app.current_step == WizardStep::Welcome,
            !app.completed,
    {
        Self::new()
    }
}

} // verus!
