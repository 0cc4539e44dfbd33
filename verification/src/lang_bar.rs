//! The input mode toggled by the language-bar button — **Kana** (romaji →
//! Ainu katakana, the default) or **Latin** (direct alphabet passthrough) —
//! and what the button shows and does in each mode.

use vstd::prelude::*;

verus! {

/// Icon resource of the kana-mode button.
pub const IDI_MODE_KANA: u16 = 102;
/// Icon resource of the Latin-mode button.
pub const IDI_MODE_LATN: u16 = 103;

/// Menu item: switch to kana.
pub const MENU_KANA: u32 = 1;
/// Menu item: switch to Latin.
pub const MENU_LATIN: u32 = 2;
/// Menu item: open the settings dialog.
pub const MENU_SETTINGS: u32 = 100;
/// Menu-item flag: a separator line.
pub const TF_LBMENUF_SEPARATOR: u32 = 0x0000_0004;
/// Menu-item flag: the radio-checked item.
pub const TF_LBMENUF_RADIOCHECKED: u32 = 0x0000_0008;

/// Input mode toggled by the language-bar button.
#[derive(Debug, Clone, Copy, PartialEq, Eq, Structural)]
pub enum Mode {
    /// Romaji is converted to Ainu katakana (the default).
    Kana,
    /// Latin letters pass through unchanged (direct alphabet input).
    Latin,
}

impl Default for Mode {
    fn default() -> (res: Self)
        ensures
            res == Mode::Kana,
    {
        Mode::Kana
    }
}

/// The other mode.
pub open spec fn spec_toggled(m: Mode) -> Mode {
    match m {
        Mode::Kana => Mode::Latin,
        Mode::Latin => Mode::Kana,
    }
}

/// What choosing a drop-down menu item does.
#[derive(Debug, Clone, Copy, PartialEq, Eq, Structural)]
pub enum MenuCommand {
    /// Switch to this mode.
    SetMode(Mode),
    /// Open the settings dialog.
    OpenSettings,
    /// Nothing (an unknown item).
    Ignore,
}

/// The flags of the kana and Latin menu items in mode `m`.
pub open spec fn spec_menu_flags(m: Mode) -> (u32, u32) {
    if m == Mode::Kana {
        (TF_LBMENUF_RADIOCHECKED, 0u32)
    } else {
        (0u32, TF_LBMENUF_RADIOCHECKED)
    }
}

/// What the drop-down menu item `wid` does.
pub open spec fn spec_menu_command(wid: u32) -> MenuCommand {
    if wid == MENU_KANA {
        MenuCommand::SetMode(Mode::Kana)
    } else if wid == MENU_LATIN {
        MenuCommand::SetMode(Mode::Latin)
    } else if wid == MENU_SETTINGS {
        MenuCommand::OpenSettings
    } else {
        MenuCommand::Ignore
    }
}

impl Mode {
    /// The mode a click on the button switches to.
    pub fn toggled(self) -> (res: Mode)
        ensures
            res == spec_toggled(self),
    {
        match self {
            Mode::Kana => Mode::Latin,
            Mode::Latin => Mode::Kana,
        }
    }

    /// The button's icon resource.
    pub fn icon_id(self) -> (res: u16)
        ensures
            res == (if self == Mode::Kana { IDI_MODE_KANA } else { IDI_MODE_LATN }),
    {
        match self {
            Mode::Kana => IDI_MODE_KANA,
            Mode::Latin => IDI_MODE_LATN,
        }
    }

    /// The button's text: ア in kana mode, A in Latin mode.
    pub fn text(self) -> (res: &'static str)
        ensures
            res@ == (if self == Mode::Kana { "ア"@ } else { "A"@ }),
    {
        match self {
            Mode::Kana => "ア",
            Mode::Latin => "A",
        }
    }

    /// The button's tooltip (Ainu name, Japanese, English).
    pub fn tooltip(self) -> (res: &'static str)
        ensures
            res@ == (if self == Mode::Kana {
                "ainuKey — カタカナ katakana（クリックでローマ字 / click for Latin）"@
            } else {
                "ainuKey — ローマ字 Latin（クリックでカタカナ / click for katakana）"@
            }),
    {
        match self {
            Mode::Kana => "ainuKey — カタカナ katakana（クリックでローマ字 / click for Latin）",
            Mode::Latin => "ainuKey — ローマ字 Latin（クリックでカタカナ / click for katakana）",
        }
    }

    /// The flags of the kana and Latin menu items: the current mode's item is
    /// radio-checked.
    pub fn menu_flags(self) -> (res: (u32, u32))
        ensures
            res == spec_menu_flags(self),
    {
        match self {
            Mode::Kana => (TF_LBMENUF_RADIOCHECKED, 0),
            Mode::Latin => (0, TF_LBMENUF_RADIOCHECKED),
        }
    }
}

/// What the drop-down menu item `wid` does.
pub fn menu_command(wid: u32) -> (res: MenuCommand)
    ensures
        res == spec_menu_command(wid),
{
    if wid == MENU_KANA {
        MenuCommand::SetMode(Mode::Kana)
    } else if wid == MENU_LATIN {
        MenuCommand::SetMode(Mode::Latin)
    } else if wid == MENU_SETTINGS {
        MenuCommand::OpenSettings
    } else {
        MenuCommand::Ignore
    }
}

/// The radio-checked menu item is the one that selects the current mode, and
/// the other mode's item selects the mode a click switches to.
pub proof fn law_checked_item_is_current_mode(m: Mode)
    ensures
        spec_menu_flags(m).0 == TF_LBMENUF_RADIOCHECKED <==> m == Mode::Kana,
        spec_menu_flags(m).1 == TF_LBMENUF_RADIOCHECKED <==> m == Mode::Latin,
        spec_menu_command(if m == Mode::Kana { MENU_KANA } else { MENU_LATIN }) == MenuCommand::SetMode(m),
        spec_menu_command(if m == Mode::Kana { MENU_LATIN } else { MENU_KANA }) == MenuCommand::SetMode(spec_toggled(m)),
{
}

/// Clicking the button twice returns to the original mode.
pub proof fn law_toggle_twice_is_identity(m: Mode)
    ensures
        spec_toggled(spec_toggled(m)) == m,
        spec_toggled(m) != m,
{
}

} // verus!
