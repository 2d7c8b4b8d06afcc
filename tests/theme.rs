use kanban::{Color, Theme};

#[test]
fn tag_colors_in_classic() {
    let t = Theme::from_name("classic").unwrap();
    assert_eq!(t.get_tag_color("urgent"), Color::Red);
    assert_eq!(t.get_tag_color("User"), Color::LightBlue);
    assert_eq!(t.get_tag_color("user"), Color::White);
    assert_eq!(t.get_tag_color("refactor"), Color::LightYellow);
}

#[test]
fn unknown_theme_name() {
    assert!(Theme::from_name("solarized").is_none());
    assert_eq!(Theme::position("solarized"), None);
}

#[test]
fn theme_names_in_order() {
    assert_eq!(
        Theme::all_theme_names(),
        vec!["high-contrast", "classic", "solarized-dark", "gruvbox", "nord"]
    );
    for (i, n) in Theme::all_theme_names().iter().enumerate() {
        assert_eq!(Theme::position(n), Some(i));
        assert_eq!(Theme::from_name(n), Some(Theme::by_index(i)));
    }
}

#[test]
fn default_is_high_contrast() {
    let d = Theme::default();
    assert_eq!(Some(d), Theme::from_name("high-contrast"));
    assert_eq!(d.tag_urgent, Color::LightRed);
    assert_eq!(d.background_selected, Color::Blue);
    assert_eq!(Theme::by_index(4).secondary, Color::LightBlue);
}
