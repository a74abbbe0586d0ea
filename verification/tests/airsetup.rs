use airos::airsetup::app::AirSetupApp;
use airos::airsetup::appearance::{AppearanceStep, SetupTheme};
use airos::airsetup::language::{Language, LanguageStep};
use airos::airsetup::network::NetworkStep;
use airos::airsetup::step::WizardStep;
use airos::airsetup::user::UserStep;

fn make_app() -> AirSetupApp {
    AirSetupApp::new()
}

#[test]
fn new_app_starts_at_welcome() {
    let app = make_app();
    assert_eq!(app.current_step, WizardStep::Welcome);
}

#[test]
fn new_app_is_not_completed() {
    let app = make_app();
    assert!(!app.completed);
}

#[test]
fn advance_from_welcome_goes_to_language() {
    let mut app = make_app();
    let result = app.advance();
    assert!(result);
    assert_eq!(app.current_step, WizardStep::Language);
}

#[test]
fn go_back_from_language_returns_to_welcome() {
    let mut app = make_app();
    app.advance();
    app.go_back();
    assert_eq!(app.current_step, WizardStep::Welcome);
}

#[test]
fn go_back_at_welcome_is_noop() {
    let mut app = make_app();
    app.go_back();
    assert_eq!(app.current_step, WizardStep::Welcome);
}

#[test]
fn advance_blocked_on_user_step_without_data() {
    let mut app = make_app();
    app.advance();
    app.advance();
    let result = app.advance();
    assert!(!result);
    assert_eq!(app.current_step, WizardStep::User);
}

#[test]
fn advance_allowed_on_user_step_with_valid_data() {
    let mut app = make_app();
    app.advance();
    app.advance();
    app.user.set_username("vo");
    app.user.set_password("secret");
    let result = app.advance();
    assert!(result);
    assert_eq!(app.current_step, WizardStep::Network);
}

#[test]
fn advance_blocked_on_network_step_without_selection() {
    let mut app = make_app();
    app.advance();
    app.advance();
    app.user.set_username("vo");
    app.user.set_password("pw");
    app.advance();
    let result = app.advance();
    assert!(!result);
    assert_eq!(app.current_step, WizardStep::Network);
}

#[test]
fn completing_all_steps_sets_completed() {
    let mut app = make_app();
    app.advance();
    app.advance();
    app.user.set_username("vo");
    app.user.set_password("pw");
    app.advance();
    app.network.skip();
    app.advance();
    app.advance();
    assert!(app.completed);
    assert_eq!(app.current_step, WizardStep::Done);
}

#[test]
fn advance_at_done_returns_false() {
    let mut app = make_app();
    app.advance();
    app.advance();
    app.user.set_username("vo");
    app.user.set_password("pw");
    app.advance();
    app.network.skip();
    app.advance();
    app.advance();
    let result = app.advance();
    assert!(!result);
    assert_eq!(app.current_step, WizardStep::Done);
}

#[test]
fn menu_items_returns_two_items() {
    let items = AirSetupApp::menu_items();
    assert_eq!(items.len(), 2);
}

#[test]
fn go_back_does_not_reset_completed() {
    let mut app = make_app();
    app.advance();
    app.advance();
    app.user.set_username("vo");
    app.user.set_password("pw");
    app.advance();
    app.network.select("Home");
    app.advance();
    app.advance();
    app.go_back();
    assert_eq!(app.current_step, WizardStep::Appearance);
    assert!(app.completed);
}

#[test]
fn default_theme_is_light() {
    let s = AppearanceStep::new();
    assert_eq!(s.theme, SetupTheme::Light);
}

#[test]
fn set_theme_changes_theme() {
    let mut s = AppearanceStep::new();
    s.set_theme(SetupTheme::Dark);
    assert_eq!(s.theme, SetupTheme::Dark);
}

#[test]
fn light_and_dark_are_distinct() {
    assert_ne!(SetupTheme::Light, SetupTheme::Dark);
}

#[test]
fn all_returns_three_languages() {
    assert_eq!(Language::all().len(), 3);
}

#[test]
fn all_languages_have_non_empty_labels() {
    for lang in Language::all() {
        assert!(!lang.label().is_empty());
    }
}

#[test]
fn all_languages_have_distinct_codes() {
    let codes: Vec<_> = Language::all().iter().map(|l| l.code()).collect();
    let unique: std::collections::HashSet<_> = codes.iter().collect();
    assert_eq!(codes.len(), unique.len());
}

#[test]
fn default_selected_is_english() {
    let s = LanguageStep::new();
    assert_eq!(s.selected, Language::English);
}

#[test]
fn select_changes_language() {
    let mut s = LanguageStep::new();
    s.select(Language::Czech);
    assert_eq!(s.selected, Language::Czech);
}

#[test]
fn network_new_step_is_invalid() {
    let s = NetworkStep::new();
    assert!(!s.is_valid());
}

#[test]
fn select_makes_step_valid() {
    let mut s = NetworkStep::new();
    s.select("HomeNet");
    assert!(s.is_valid());
}

#[test]
fn skip_makes_step_valid() {
    let mut s = NetworkStep::new();
    s.skip();
    assert!(s.is_valid());
}

#[test]
fn select_stores_ssid() {
    let mut s = NetworkStep::new();
    s.select("HomeNet");
    assert_eq!(s.selected.as_deref(), Some("HomeNet"));
}

#[test]
fn skip_clears_selected() {
    let mut s = NetworkStep::new();
    s.select("HomeNet");
    s.skip();
    assert!(s.selected.is_none());
    assert!(s.skipped);
}

#[test]
fn select_after_skip_clears_skipped() {
    let mut s = NetworkStep::new();
    s.skip();
    s.select("Office");
    assert!(!s.skipped);
    assert_eq!(s.selected.as_deref(), Some("Office"));
}

#[test]
fn set_available_stores_networks() {
    let mut s = NetworkStep::new();
    s.set_available(vec!["Net1".into(), "Net2".into()]);
    assert_eq!(s.available().len(), 2);
}

#[test]
fn all_returns_six_steps() {
    assert_eq!(WizardStep::all().len(), 6);
}

#[test]
fn welcome_next_is_language() {
    assert_eq!(WizardStep::Welcome.next(), Some(WizardStep::Language));
}

#[test]
fn done_next_is_none() {
    assert_eq!(WizardStep::Done.next(), None);
}

#[test]
fn language_prev_is_welcome() {
    assert_eq!(WizardStep::Language.prev(), Some(WizardStep::Welcome));
}

#[test]
fn welcome_prev_is_none() {
    assert_eq!(WizardStep::Welcome.prev(), None);
}

#[test]
fn done_is_last() {
    assert!(WizardStep::Done.is_last());
}

#[test]
fn welcome_is_not_last() {
    assert!(!WizardStep::Welcome.is_last());
}

#[test]
fn next_then_prev_returns_original() {
    let step = WizardStep::User;
    assert_eq!(step.next().unwrap().prev(), Some(step));
}

#[test]
fn next_then_prev_holds_for_every_step_but_the_last() {
    for step in WizardStep::all() {
        match step.next() {
            Some(n) => assert_eq!(n.prev(), Some(step)),
            None => assert!(step.is_last()),
        }
    }
}

#[test]
fn user_new_step_is_invalid() {
    let s = UserStep::new();
    assert!(!s.is_valid());
}

#[test]
fn only_username_is_not_valid() {
    let mut s = UserStep::new();
    s.set_username("vo");
    assert!(!s.is_valid());
}

#[test]
fn only_password_is_not_valid() {
    let mut s = UserStep::new();
    s.set_password("secret");
    assert!(!s.is_valid());
}

#[test]
fn username_and_password_is_valid() {
    let mut s = UserStep::new();
    s.set_username("vo");
    s.set_password("secret");
    assert!(s.is_valid());
}

#[test]
fn set_display_name_stores_value() {
    let mut s = UserStep::new();
    s.set_display_name("Vojtech");
    assert_eq!(s.display_name, "Vojtech");
}

#[test]
fn display_name_not_required_for_validity() {
    let mut s = UserStep::new();
    s.set_username("vo");
    s.set_password("pw");
    assert!(s.is_valid());
}
