//! Identity constants: the service GUIDs, and the names and locales the
//! profile is registered under.

use vstd::prelude::*;

verus! {

/// Text-service CLSID: {5ECECCEB-271D-4675-8EE5-8D129EF0CA08}, as its 128-bit
/// value.
pub const GUID_TEXT_SERVICE: u128 = 0x5ECECCEB_271D_4675_8EE5_8D129EF0CA08;

/// Language profile GUID: {5ECECCEC-271D-4675-8EE5-8D129EF0CA08}
pub const GUID_PROFILE: u128 = 0x5ECECCEC_271D_4675_8EE5_8D129EF0CA08;

/// The preedit display-attribute GUID (the underline style).
pub const GUID_DISPLAY_ATTRIBUTE: u128 = 0x5ECECCED_271D_4675_8EE5_8D129EF0CA08;

/// The language-bar (mode-switch) item GUID.
pub const GUID_LANGBAR_ITEM: u128 = 0x5ECECCEF_271D_4675_8EE5_8D129EF0CA08;

/// Registration / service name.
pub const SERVICE_NAME: &'static str = "ainuKeyTextService";

/// Human-facing name shown in the language switcher.
pub const DISPLAY_DESCRIPTION: &'static str = "ainuKey";

/// BCP-47 language tag for Ainu.
pub const LANG_TAG_AIN: &'static str = "ain";

/// Locale whose language id the v1 profile was registered under.
pub const PROFILE_LOCALE: &'static str = "ja-JP";

/// `LOCALE_CUSTOM_UNSPECIFIED` — "no assigned LCID".
pub const LOCALE_CUSTOM_UNSPECIFIED: u16 = 0x1000;

} // verus!
