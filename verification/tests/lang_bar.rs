use ainukey::lang_bar::{menu_command, MenuCommand, Mode, IDI_MODE_KANA, IDI_MODE_LATN};

#[test]
fn toggle_flips_and_returns() {
    assert_eq!(Mode::Kana.toggled(), Mode::Latin);
    assert_eq!(Mode::Latin.toggled(), Mode::Kana);
    assert_eq!(Mode::Kana.toggled().toggled(), Mode::Kana);
    assert_eq!(Mode::default(), Mode::Kana);
}

#[test]
fn button_face() {
    assert_eq!(Mode::Kana.icon_id(), IDI_MODE_KANA);
    assert_eq!(Mode::Latin.icon_id(), IDI_MODE_LATN);
    assert_eq!(Mode::Kana.text(), "ア");
    assert_eq!(Mode::Latin.text(), "A");
    assert!(Mode::Kana.tooltip().contains("click for Latin"));
    assert_eq!(Mode::Kana.menu_flags(), (8, 0));
    assert_eq!(Mode::Latin.menu_flags(), (0, 8));
}

#[test]
fn menu_items() {
    assert_eq!(menu_command(1), MenuCommand::SetMode(Mode::Kana));
    assert_eq!(menu_command(2), MenuCommand::SetMode(Mode::Latin));
    assert_eq!(menu_command(100), MenuCommand::OpenSettings);
    assert_eq!(menu_command(0), MenuCommand::Ignore);
}

#[test]
fn checked_menu_item_is_the_current_mode() {
    for m in [Mode::Kana, Mode::Latin] {
        let (kana, latin) = m.menu_flags();
        let checked = if kana == 8 { 1 } else { 2 };
        assert_eq!(if latin == 8 { 2 } else { 1 }, checked);
        assert_eq!(menu_command(checked), MenuCommand::SetMode(m));
    }
}
