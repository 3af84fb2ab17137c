use cards::settings::SettingsCategory;
use cards::theme::Theme;

#[test]
fn settings_categories_and_labels() {
    let all = SettingsCategory::all();
    assert_eq!(
        all,
        &[
            SettingsCategory::General,
            SettingsCategory::Appearance,
            SettingsCategory::Shortcuts,
            SettingsCategory::About
        ]
    );
    let labels: Vec<&str> = all.iter().map(|c| c.label()).collect();
    assert_eq!(labels, vec!["General", "Appearance", "Shortcuts", "About"]);
    assert_eq!(SettingsCategory::default(), SettingsCategory::General);
}

#[test]
fn theme_toggle_law() {
    assert_eq!(Theme::default(), Theme::Light);
    assert_eq!(Theme::Light.toggle(), Theme::Dark);
    assert_eq!(Theme::Dark.toggle(), Theme::Light);
    for t in [Theme::Light, Theme::Dark] {
        assert_eq!(t.toggle().toggle(), t);
        assert_ne!(t.toggle(), t);
    }
}
