//! Keystroke decoding and the "eaten" decision of the key-event sink.
//!
//! The host resolves virtual-key codes and modifier state; this module decides
//! what a key means to the IME ([`Action`]) and whether the IME consumes it.

use vstd::prelude::*;

use crate::lang_bar::Mode;

verus! {

/// Virtual-key code of Backspace.
pub const VK_BACK: u16 = 0x08;
/// Virtual-key code of Enter.
pub const VK_RETURN: u16 = 0x0D;
/// Virtual-key code of Escape.
pub const VK_ESCAPE: u16 = 0x1B;
/// Virtual-key code of Space.
pub const VK_SPACE: u16 = 0x20;
/// Virtual-key code of the Up arrow.
pub const VK_UP: u16 = 0x26;
/// Virtual-key code of the Down arrow.
pub const VK_DOWN: u16 = 0x28;

/// A decoded keystroke action.
#[derive(Debug, Clone, Copy, PartialEq, Eq, Structural)]
pub enum Action {
    /// A typed Ainu/Latin character to append to the buffer.
    Insert(char),
    /// Space or Enter — commit the buffer.
    Commit,
    /// Backspace — remove the last char.
    Backspace,
    /// Escape — cancel the composition.
    Cancel,
    /// Down arrow — highlight the next candidate.
    SelectNext,
    /// Up arrow — highlight the previous candidate.
    SelectPrev,
    /// Number key 1-9 — select that candidate (0-based) and commit.
    SelectIndex(usize),
    /// Not for us — pass through to the app.
    Passthrough,
}

/// An "Ainu letter" for input purposes: an ASCII letter, either glottal-stop
/// apostrophe, or the morpheme boundary `=`.
pub open spec fn spec_is_ainu_letter(c: char) -> bool {
    ('a' <= c && c <= 'z') || ('A' <= c && c <= 'Z') || c == '\'' || c == '’' || c == '='
}

/// What a key means before the printable character is resolved: `Some`
/// decides it, `None` means "look at the character the key types".
pub open spec fn spec_decode_key(vk: u16, ctrl: bool, alt: bool) -> Option<Action> {
    if ctrl || alt {
        Some(Action::Passthrough)
    } else if vk == VK_SPACE || vk == VK_RETURN {
        Some(Action::Commit)
    } else if vk == VK_BACK {
        Some(Action::Backspace)
    } else if vk == VK_ESCAPE {
        Some(Action::Cancel)
    } else if vk == VK_DOWN {
        Some(Action::SelectNext)
    } else if vk == VK_UP {
        Some(Action::SelectPrev)
    } else if 0x31 <= vk && vk <= 0x39 {
        Some(Action::SelectIndex((vk - 0x31) as usize))
    } else {
        None
    }
}

/// What a printable key means, given the single character it types (`None`
/// when it types no character or several).
pub open spec fn spec_decode_typed(typed: Option<char>) -> Action {
    match typed {
        Some(c) => if spec_is_ainu_letter(c) {
            Action::Insert(c)
        } else {
            Action::Passthrough
        },
        None => Action::Passthrough,
    }
}

/// Whether the IME consumes `action`: letters only in kana mode, the editing
/// and selection keys only while a composition is live.
pub open spec fn spec_would_eat(action: Action, has_composition: bool, mode: Mode) -> bool {
    match action {
        Action::Insert(_) => mode == Mode::Kana,
        Action::Passthrough => false,
        _ => has_composition,
    }
}

/// Returns true if `c` is an "Ainu letter" for input purposes.
pub fn is_ainu_letter(c: char) -> (res: bool)
    ensures
        res == spec_is_ainu_letter(c),
{
    ('a' <= c && c <= 'z') || ('A' <= c && c <= 'Z') || c == '\'' || c == '’' || c == '='
}

/// Classify a key-down by its virtual-key code and modifier state. Modifier
/// shortcuts (Ctrl, Alt) pass through; Space/Enter commit; Backspace, Escape
/// and the arrows edit or select; digits 1–9 pick a candidate. `None` for any
/// other key: its meaning depends on the character it types
/// (see [`decode_typed`]).
pub fn decode_key(vk: u16, ctrl: bool, alt: bool) -> (res: Option<Action>)
    ensures
        res == spec_decode_key(vk, ctrl, alt),
{
    if ctrl || alt {
        return Some(Action::Passthrough);
    }
    if vk == VK_SPACE || vk == VK_RETURN {
        return Some(Action::Commit);
    }
    if vk == VK_BACK {
        return Some(Action::Backspace);
    }
    if vk == VK_ESCAPE {
        return Some(Action::Cancel);
    }
    if vk == VK_DOWN {
        return Some(Action::SelectNext);
    }
    if vk == VK_UP {
        return Some(Action::SelectPrev);
    }
    if 0x31 <= vk && vk <= 0x39 {
        return Some(Action::SelectIndex((vk - 0x31) as usize));
    }
    None
}

/// Classify a printable key by the single character it types.
pub fn decode_typed(typed: Option<char>) -> (res: Action)
    ensures
        res == spec_decode_typed(typed),
{
    match typed {
        Some(c) => if is_ainu_letter(c) {
            Action::Insert(c)
        } else {
            Action::Passthrough
        },
        None => Action::Passthrough,
    }
}

/// Whether the IME consumes `action` in the current state.
pub fn would_eat(action: Action, has_composition: bool, mode: Mode) -> (res: bool)
    ensures
        res == spec_would_eat(action, has_composition, mode),
{
    match action {
        Action::Insert(_) => mode == Mode::Kana,
        Action::Commit | Action::Backspace | Action::Cancel | Action::SelectNext
        | Action::SelectPrev | Action::SelectIndex(_) => has_composition,
        Action::Passthrough => false,
    }
}

/// In Latin mode nothing is eaten outside a composition: every key reaches the
/// application.
pub proof fn law_latin_mode_passes_keys_through(action: Action)
    ensures
        !spec_would_eat(action, false, Mode::Latin),
{
}

/// Shortcuts with Ctrl or Alt held are never eaten, so Ctrl-C and the like
/// keep working while composing.
pub proof fn law_shortcuts_pass_through(vk: u16, ctrl: bool, alt: bool, has_composition: bool, mode: Mode)
    requires
        ctrl || alt,
    ensures
        spec_decode_key(vk, ctrl, alt) == Some(Action::Passthrough),
        !spec_would_eat(Action::Passthrough, has_composition, mode),
{
}

/// While a composition is live, every editing and selection key — Space or
/// Enter, Backspace, Escape, the arrows and the digits — is eaten, in either
/// mode; with no composition none of them is.
pub proof fn law_editing_keys_are_eaten_while_composing(action: Action, mode: Mode)
    requires
        action != Action::Passthrough,
        !(action is Insert),
    ensures
        spec_would_eat(action, true, mode),
        !spec_would_eat(action, false, mode),
{
}

} // verus!
