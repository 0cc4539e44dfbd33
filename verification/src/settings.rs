//! The settings dialog's model: which check boxes start checked for a
//! configuration, and how the boxes' states are merged back over the
//! configuration when the user presses OK (fields the dialog does not expose,
//! such as `max_candidates`, are kept).

use vstd::prelude::*;

use crate::config::{Config, InputMode, TuStyle};

verus! {

/// The states of the dialog's check boxes.
#[derive(Debug, Clone, Copy, PartialEq, Eq, Structural)]
pub struct SettingsChecks {
    /// Start in Latin mode.
    pub latin: bool,
    /// Romaji input mode (convert on commit).
    pub romaji: bool,
    /// Write `tu` as ツ゚ instead of ト゚.
    pub tsu: bool,
    /// Small ィ / ゥ glides (both codas).
    pub glides: bool,
    /// Show the `=` boundary.
    pub equals: bool,
    /// Word suggestions.
    pub suggest: bool,
}

/// The boxes' initial states for `cfg`. The glides box is checked only when
/// both glide codas are small (it stands for both-or-none).
pub open spec fn spec_checks_for(cfg: Config) -> SettingsChecks {
    SettingsChecks {
        latin: cfg.input.default_mode == InputMode::Latin,
        romaji: cfg.input.romaji_input_mode,
        tsu: cfg.orthography.tu_style == TuStyle::Tsu,
        glides: cfg.orthography.use_small_i && cfg.orthography.use_small_u,
        equals: cfg.orthography.show_equals_boundary,
        suggest: cfg.suggestions.enabled,
    }
}

/// `cfg` with the boxes' states written over it. The glides box writes both
/// glide options only when they already agree or when it is checked, so an
/// asymmetric setting made in the file survives an unchecked box.
pub open spec fn spec_apply_checks(cfg: Config, c: SettingsChecks) -> Config {
    let glide_write = c.glides || cfg.orthography.use_small_i == cfg.orthography.use_small_u;
    Config {
        input: crate::config::Input {
            default_mode: if c.latin { InputMode::Latin } else { InputMode::Kana },
            romaji_input_mode: c.romaji,
        },
        orthography: crate::config::Orthography {
            tu_style: if c.tsu { TuStyle::Tsu } else { TuStyle::To },
            use_small_i: if glide_write { c.glides } else { cfg.orthography.use_small_i },
            use_small_u: if glide_write { c.glides } else { cfg.orthography.use_small_u },
            show_equals_boundary: c.equals,
            ..cfg.orthography
        },
        suggestions: crate::config::Suggestions { enabled: c.suggest, ..cfg.suggestions },
    }
}

impl SettingsChecks {
    /// The boxes' initial states for `cfg`.
    pub fn for_config(cfg: &Config) -> (res: SettingsChecks)
        ensures
            res == spec_checks_for(*cfg),
    {
        SettingsChecks {
            latin: cfg.input.default_mode == InputMode::Latin,
            romaji: cfg.input.romaji_input_mode,
            tsu: cfg.orthography.tu_style == TuStyle::Tsu,
            glides: cfg.orthography.use_small_i && cfg.orthography.use_small_u,
            equals: cfg.orthography.show_equals_boundary,
            suggest: cfg.suggestions.enabled,
        }
    }

    /// `cfg` with these states written over it.
    pub fn apply(&self, cfg: &Config) -> (res: Config)
        ensures
            res == spec_apply_checks(*cfg, *self),
    {
        let mut out = *cfg;
        out.input.default_mode = if self.latin {
            InputMode::Latin
        } else {
            InputMode::Kana
        };
        out.input.romaji_input_mode = self.romaji;
        out.orthography.tu_style = if self.tsu {
            TuStyle::Tsu
        } else {
            TuStyle::To
        };
        if self.glides || out.orthography.use_small_i == out.orthography.use_small_u {
            out.orthography.use_small_i = self.glides;
            out.orthography.use_small_u = self.glides;
        }
        out.orthography.show_equals_boundary = self.equals;
        out.suggestions.enabled = self.suggest;
        out
    }
}

/// Opening the settings and pressing OK without touching a box leaves the
/// configuration unchanged — for every `tu` style the dialog can show
/// (ト゚ or ツ゚).
pub proof fn law_ok_without_changes_keeps_config(cfg: Config)
    requires
        cfg.orthography.tu_style == TuStyle::To || cfg.orthography.tu_style == TuStyle::Tsu,
    ensures
        spec_apply_checks(cfg, spec_checks_for(cfg)) == cfg,
{
}

/// Width of the settings dialog, in pixels.
pub const DIALOG_WIDTH: i32 = 440;
/// Height of the settings dialog, in pixels.
pub const DIALOG_HEIGHT: i32 = 290;
/// Top of the first check box.
pub const FIRST_ROW_Y: i32 = 12;
/// Vertical distance between two check boxes.
pub const ROW_STEP: i32 = 34;
/// Left margin of the controls.
pub const MARGIN: i32 = 16;
/// Width of a check box.
pub const CONTENT_WIDTH: i32 = 408;
/// Height of a check box.
pub const CHECK_HEIGHT: i32 = 24;
/// Extra space between the last check box's row and the buttons.
pub const BUTTON_GAP: i32 = 8;
/// Height of the buttons.
pub const BUTTON_HEIGHT: i32 = 26;
/// Width of the OK button.
pub const OK_WIDTH: i32 = 95;
/// Width of the Cancel button.
pub const CANCEL_WIDTH: i32 = 100;
/// Number of check boxes.
pub const CHECK_COUNT: usize = 6;

/// A control's position and size in the dialog's client area.
#[derive(Debug, Clone, Copy, PartialEq, Eq, Structural)]
pub struct Bounds {
    pub x: i32,
    pub y: i32,
    pub width: i32,
    pub height: i32,
}

/// The bounds of check box `k` (0-based, in the dialog's order).
pub open spec fn spec_checkbox_bounds(k: nat) -> Bounds {
    Bounds {
        x: MARGIN,
        y: (FIRST_ROW_Y + ROW_STEP * k) as i32,
        width: CONTENT_WIDTH,
        height: CHECK_HEIGHT,
    }
}

/// The top of the button row: one step below the last check box, plus a gap.
pub open spec fn button_row_y() -> int {
    FIRST_ROW_Y + ROW_STEP * CHECK_COUNT + BUTTON_GAP
}

/// The bounds of the OK button.
pub open spec fn spec_ok_bounds() -> Bounds {
    Bounds {
        x: (CONTENT_WIDTH + MARGIN - 200) as i32,
        y: button_row_y() as i32,
        width: OK_WIDTH,
        height: BUTTON_HEIGHT,
    }
}

/// The bounds of the Cancel button.
pub open spec fn spec_cancel_bounds() -> Bounds {
    Bounds {
        x: (CONTENT_WIDTH + MARGIN - 100) as i32,
        y: button_row_y() as i32,
        width: CANCEL_WIDTH,
        height: BUTTON_HEIGHT,
    }
}

/// The bounds of check box `k`.
pub fn checkbox_bounds(k: usize) -> (b: Bounds)
    requires
        k < CHECK_COUNT,
    ensures
        b == spec_checkbox_bounds(k as nat),
{
    let i: i32 = k as i32;
    Bounds { x: MARGIN, y: FIRST_ROW_Y + ROW_STEP * i, width: CONTENT_WIDTH, height: CHECK_HEIGHT }
}

/// The bounds of the OK and Cancel buttons.
pub fn button_bounds() -> (b: (Bounds, Bounds))
    ensures
        b == (spec_ok_bounds(), spec_cancel_bounds()),
{
    let y: i32 = FIRST_ROW_Y + ROW_STEP * 6 + BUTTON_GAP;
    (
        Bounds { x: CONTENT_WIDTH + MARGIN - 200, y, width: OK_WIDTH, height: BUTTON_HEIGHT },
        Bounds { x: CONTENT_WIDTH + MARGIN - 100, y, width: CANCEL_WIDTH, height: BUTTON_HEIGHT },
    )
}

/// Half of what is left of a screen side once the dialog is placed, or 0 when
/// the dialog is larger than the screen.
pub open spec fn centred(screen: int, size: int) -> int {
    if screen - size > 0 { (screen - size) / 2 } else { 0 }
}

/// The dialog's top-left corner, centring it on a screen of the given size.
pub fn dialog_origin(screen_width: i32, screen_height: i32) -> (res: (i32, i32))
    requires
        screen_width >= i32::MIN + DIALOG_WIDTH,
        screen_height >= i32::MIN + DIALOG_HEIGHT,
    ensures
        res.0 == centred(screen_width as int, DIALOG_WIDTH as int),
        res.1 == centred(screen_height as int, DIALOG_HEIGHT as int),
{
    let dx = screen_width - DIALOG_WIDTH;
    let dy = screen_height - DIALOG_HEIGHT;
    let x = if dx > 0 { dx / 2 } else { 0 };
    let y = if dy > 0 { dy / 2 } else { 0 };
    (x, y)
}

/// The check boxes do not overlap: each ends above the next.
pub proof fn law_checkboxes_do_not_overlap(k: nat)
    requires
        k + 1 < CHECK_COUNT,
    ensures
        spec_checkbox_bounds(k).y + spec_checkbox_bounds(k).height <= spec_checkbox_bounds(k + 1).y,
{
}

/// The buttons sit below the last check box, OK ends left of Cancel, and both
/// lie inside the dialog.
pub proof fn law_buttons_fit_below_the_boxes()
    ensures
        spec_checkbox_bounds((CHECK_COUNT - 1) as nat).y + CHECK_HEIGHT <= spec_ok_bounds().y,
        spec_ok_bounds().x + spec_ok_bounds().width <= spec_cancel_bounds().x,
        spec_cancel_bounds().x + spec_cancel_bounds().width <= DIALOG_WIDTH,
        spec_cancel_bounds().y + spec_cancel_bounds().height <= DIALOG_HEIGHT,
{
}

/// Every box is saved: reopening the dialog after pressing OK shows each box
/// exactly as it was left, whatever the configuration was before, and each
/// box's own field takes the box's state.
pub proof fn law_boxes_are_saved(cfg: Config, c: SettingsChecks)
    ensures
        spec_checks_for(spec_apply_checks(cfg, c)) == c,
        spec_apply_checks(cfg, c).orthography.show_equals_boundary == c.equals,
        spec_apply_checks(cfg, c).input.romaji_input_mode == c.romaji,
        spec_apply_checks(cfg, c).suggestions.enabled == c.suggest,
        (spec_apply_checks(cfg, c).input.default_mode == InputMode::Latin) == c.latin,
        spec_apply_checks(cfg, c).suggestions.max_candidates == cfg.suggestions.max_candidates,
{
}

} // verus!
