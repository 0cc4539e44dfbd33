use ainukey::settings::{button_bounds, checkbox_bounds, dialog_origin, Bounds, CHECK_COUNT};
use ainukey::config::{Config, InputMode, TuStyle};
use ainukey::settings::SettingsChecks;

#[test]
fn ok_without_changes_keeps_config() {
    let mut c = Config::default();
    c.orthography.tu_style = TuStyle::Tsu;
    c.suggestions.max_candidates = 4;
    c.orthography.use_small_i = true; // asymmetric glides survive
    let checks = SettingsChecks::for_config(&c);
    assert!(!checks.glides);
    assert_eq!(checks.apply(&c), c);
}

#[test]
fn boxes_write_the_fields() {
    let c = Config::default();
    let mut checks = SettingsChecks::for_config(&c);
    checks.latin = true;
    checks.glides = true;
    checks.tsu = true;
    checks.suggest = false;
    let out = checks.apply(&c);
    assert_eq!(out.input.default_mode, InputMode::Latin);
    assert!(out.orthography.use_small_i && out.orthography.use_small_u);
    assert_eq!(out.orthography.tu_style, TuStyle::Tsu);
    assert!(!out.suggestions.enabled);
    assert_eq!(out.suggestions.max_candidates, 9);
}

#[test]
fn unshown_tu_style_becomes_default() {
    // The dialog only offers ト゚ / ツ゚: other styles are reset on OK.
    let mut c = Config::default();
    c.orthography.tu_style = TuStyle::Twu;
    let out = SettingsChecks::for_config(&c).apply(&c);
    assert_eq!(out.orthography.tu_style, TuStyle::To);
}

#[test]
fn dialog_layout() {
    assert_eq!(checkbox_bounds(0), Bounds { x: 16, y: 12, width: 408, height: 24 });
    assert_eq!(checkbox_bounds(5), Bounds { x: 16, y: 182, width: 408, height: 24 });
    let (ok, cancel) = button_bounds();
    assert_eq!(ok, Bounds { x: 224, y: 224, width: 95, height: 26 });
    assert_eq!(cancel, Bounds { x: 324, y: 224, width: 100, height: 26 });
    // Nothing overlaps and everything fits in the dialog.
    for k in 0..CHECK_COUNT - 1 {
        let a = checkbox_bounds(k);
        assert!(a.y + a.height <= checkbox_bounds(k + 1).y);
    }
    assert!(cancel.x + cancel.width <= 440 && cancel.y + cancel.height <= 290);
    // Centred on the screen, or at the corner when the screen is too small.
    assert_eq!(dialog_origin(1920, 1080), (740, 395));
    assert_eq!(dialog_origin(300, 200), (0, 0));
}
