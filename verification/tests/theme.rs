use slaxide::theme::{builtin_themes, ThemeId};

#[test]
fn all_theme_ids_are_exposed() {
    let themes = builtin_themes();

    assert_eq!(themes.len(), ThemeId::ALL.len());
    assert_eq!(
        ThemeId::from_slug("tokyo-night-storm"),
        Some(ThemeId::TokyoNightStorm)
    );
}

#[test]
fn labels_give_slugs() {
    for theme in ThemeId::ALL {
        assert_eq!(theme.label().to_lowercase().replace(' ', "-"), theme.slug());
    }
}
