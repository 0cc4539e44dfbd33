use ainukey::keys::{decode_key, decode_typed, is_ainu_letter, would_eat, Action};
use ainukey::lang_bar::Mode;

#[test]
fn special_keys_decode() {
    assert!(decode_key(0x20, false, false) == Some(Action::Commit));
    assert!(decode_key(0x0D, false, false) == Some(Action::Commit));
    assert!(decode_key(0x08, false, false) == Some(Action::Backspace));
    assert!(decode_key(0x1B, false, false) == Some(Action::Cancel));
    assert!(decode_key(0x28, false, false) == Some(Action::SelectNext));
    assert!(decode_key(0x26, false, false) == Some(Action::SelectPrev));
    assert!(decode_key(0x31, false, false) == Some(Action::SelectIndex(0)));
    assert!(decode_key(0x39, false, false) == Some(Action::SelectIndex(8)));
    // '0' and letters depend on the typed character
    assert!(decode_key(0x30, false, false).is_none());
    assert!(decode_key(0x41, false, false).is_none());
}

#[test]
fn modifiers_pass_through() {
    assert!(decode_key(0x43, true, false) == Some(Action::Passthrough));
    assert!(decode_key(0x20, false, true) == Some(Action::Passthrough));
}

#[test]
fn typed_letters() {
    assert!(decode_typed(Some('k')) == Action::Insert('k'));
    assert!(decode_typed(Some('K')) == Action::Insert('K'));
    assert!(decode_typed(Some('=')) == Action::Insert('='));
    assert!(decode_typed(Some('\'')) == Action::Insert('\''));
    assert!(decode_typed(Some('\u{2019}')) == Action::Insert('\u{2019}'));
    assert!(decode_typed(Some('1')) == Action::Passthrough);
    assert!(decode_typed(Some('á')) == Action::Passthrough);
    assert!(decode_typed(None) == Action::Passthrough);
    assert!(is_ainu_letter('z'));
    assert!(!is_ainu_letter(' '));
}

#[test]
fn eating_rules() {
    assert!(would_eat(Action::Insert('a'), false, Mode::Kana));
    assert!(!would_eat(Action::Insert('a'), true, Mode::Latin));
    assert!(!would_eat(Action::Commit, false, Mode::Kana));
    assert!(would_eat(Action::Commit, true, Mode::Kana));
    assert!(would_eat(Action::SelectIndex(3), true, Mode::Latin));
    assert!(!would_eat(Action::Backspace, false, Mode::Kana));
    assert!(!would_eat(Action::Passthrough, true, Mode::Kana));
}

#[test]
fn latin_mode_and_shortcuts_pass_through() {
    for a in [
        Action::Insert('a'),
        Action::Commit,
        Action::Backspace,
        Action::Cancel,
        Action::SelectNext,
        Action::SelectPrev,
        Action::SelectIndex(0),
        Action::Passthrough,
    ] {
        assert!(!would_eat(a, false, Mode::Latin));
    }
    for vk in [0x43u16, 0x20, 0x31, 0x08] {
        assert_eq!(decode_key(vk, true, false), Some(Action::Passthrough));
        assert_eq!(decode_key(vk, false, true), Some(Action::Passthrough));
    }
    assert!(!would_eat(Action::Passthrough, true, Mode::Kana));
}
