//! The configuration model.
//!
//! The settings are persisted as TOML (read and written by the host
//! application); this module holds the data model, the defaults that fill any
//! missing field, and the self-documenting TOML text that is written to disk.

use vstd::prelude::*;
use vstd::string::StringExecFns;

use crate::text::string_of;

verus! {

/// How to render the `tu` mora in katakana.
#[derive(Debug, Clone, Copy, PartialEq, Eq, Structural)]
pub enum TuStyle {
    /// ト゚ (ト with a combining handakuten) — the converter's own rendering.
    To,
    /// ツ゚ — ツ with a combining handakuten.
    Tsu,
    /// トゥ — ト followed by a small ゥ.
    Twu,
    /// ツ — a plain katakana tsu.
    PlainTsu,
}

impl Default for TuStyle {
    fn default() -> (res: Self)
        ensures
            res == TuStyle::To,
    {
        TuStyle::To
    }
}

/// Mode a fresh composition starts in.
#[derive(Debug, Clone, Copy, PartialEq, Eq, Structural)]
pub enum InputMode {
    /// Convert romaji to katakana (normal IME mode).
    Kana,
    /// Pass Latin through untouched.
    Latin,
}

impl Default for InputMode {
    fn default() -> (res: Self)
        ensures
            res == InputMode::Kana,
    {
        InputMode::Kana
    }
}

/// Input behaviour.
#[derive(Debug, Clone, Copy, PartialEq, Eq, Structural)]
pub struct Input {
    /// Mode a fresh composition starts in.
    pub default_mode: InputMode,
    /// Show the romaji while typing and defer katakana conversion to commit.
    pub romaji_input_mode: bool,
}

impl Default for Input {
    fn default() -> (res: Self)
        ensures
            res == (Input { default_mode: InputMode::Kana, romaji_input_mode: false }),
    {
        Input { default_mode: InputMode::Kana, romaji_input_mode: false }
    }
}

/// Katakana notation options applied on top of the default conversion.
#[derive(Debug, Clone, Copy, PartialEq, Eq, Structural)]
pub struct Orthography {
    /// How to render the `tu` mora (ト゚ / ツ゚ / トゥ / ツ).
    pub tu_style: TuStyle,
    /// Render the `-y` coda as a small ィ instead of イ.
    pub use_small_i: bool,
    /// Render the `-w` coda as a small ゥ instead of ウ.
    pub use_small_u: bool,
    /// Render the `-n` coda as a small ㇴ instead of ン.
    pub use_small_n: bool,
    /// Render onset `wi` as ヰ instead of ウィ.
    pub use_wi: bool,
    /// Render onset `we` as ヱ instead of ウェ.
    pub use_we: bool,
    /// Render onset `wo` as ヲ instead of ウォ.
    pub use_wo: bool,
    /// Show the `=` morpheme boundary in the output (the converter strips it).
    pub show_equals_boundary: bool,
}

/// The default notation: every option off, `tu` as ト゚.
pub open spec fn default_orthography() -> Orthography {
    Orthography {
        tu_style: TuStyle::To,
        use_small_i: false,
        use_small_u: false,
        use_small_n: false,
        use_wi: false,
        use_we: false,
        use_wo: false,
        show_equals_boundary: false,
    }
}

impl Default for Orthography {
    fn default() -> (res: Self)
        ensures
            res == default_orthography(),
    {
        Orthography {
            tu_style: TuStyle::To,
            use_small_i: false,
            use_small_u: false,
            use_small_n: false,
            use_wi: false,
            use_we: false,
            use_wo: false,
            show_equals_boundary: false,
        }
    }
}

/// Suggestion / candidate-window options.
#[derive(Debug, Clone, Copy, PartialEq, Eq, Structural)]
pub struct Suggestions {
    /// Show the candidate window with n-gram suggestions.
    pub enabled: bool,
    /// Maximum candidates in the list.
    pub max_candidates: usize,
    /// Re-rank completions by trigram/bigram context. Kept and written back
    /// as set; the completion table read here holds no next-word sections, so
    /// the ranking does not consult it.
    pub context_aware: bool,
}

impl Default for Suggestions {
    fn default() -> (res: Self)
        ensures
            res == (Suggestions { enabled: true, max_candidates: 9, context_aware: true }),
    {
        Suggestions { enabled: true, max_candidates: 9, context_aware: true }
    }
}

/// The full configuration.
#[derive(Debug, Clone, Copy, PartialEq, Eq, Structural)]
pub struct Config {
    pub input: Input,
    pub orthography: Orthography,
    pub suggestions: Suggestions,
}

/// The configuration used when no file (or an unreadable one) is present.
pub open spec fn default_config() -> Config {
    Config {
        input: Input { default_mode: InputMode::Kana, romaji_input_mode: false },
        orthography: default_orthography(),
        suggestions: Suggestions { enabled: true, max_candidates: 9, context_aware: true },
    }
}

impl Default for Config {
    fn default() -> (res: Self)
        ensures
            res == default_config(),
    {
        Config {
            input: Input::default(),
            orthography: Orthography::default(),
            suggestions: Suggestions::default(),
        }
    }
}


/// The text of a `bool` option.
pub open spec fn bool_text(b: bool) -> Seq<char> {
    if b {
        "true"@
    } else {
        "false"@
    }
}

/// The text of an input mode.
pub open spec fn mode_text(m: InputMode) -> Seq<char> {
    match m {
        InputMode::Kana => "kana"@,
        InputMode::Latin => "latin"@,
    }
}

/// The text of a `tu` style.
pub open spec fn tu_text(t: TuStyle) -> Seq<char> {
    match t {
        TuStyle::To => "to"@,
        TuStyle::Tsu => "tsu"@,
        TuStyle::Twu => "twu"@,
        TuStyle::PlainTsu => "plain_tsu"@,
    }
}

/// The decimal digit for `d < 10`.
pub open spec fn digit_char(d: nat) -> char {
    (('0' as u32) + d) as char
}

/// The decimal representation of `n`, without leading zeros.
pub open spec fn decimal(n: nat) -> Seq<char>
    decreases n,
{
    if n < 10 {
        seq![digit_char(n)]
    } else {
        decimal(n / 10).push(digit_char(n % 10))
    }
}

/// The configuration as self-documenting TOML: a header plus, for every
/// option, a comment describing it and its allowed values, then the value.
pub open spec fn documented_toml(c: Config) -> Seq<char> {
    "# ainuKey configuration  —  %APPDATA%\\ainuKey\\config.toml\n#\n# Edit and save, then re-activate ainuKey (switch input away and back, or restart\n# the app) to apply. Lines beginning with '#' are comments. Each option lists its\n# allowed values; delete this file to regenerate it with the defaults below.\n\n[input]\n# Mode a new composition starts in.\n#   kana  = convert romaji to Ainu katakana (normal)\n#   latin = pass Latin letters through unchanged\ndefault_mode = \""@
        + mode_text(c.input.default_mode)
        + "\"\n# Show romaji while typing and convert to katakana only on commit.  (true | false)\nromaji_input_mode = "@
        + bool_text(c.input.romaji_input_mode)
        + "\n\n[orthography]\n# How to render the `tu` mora:\n#   to        = ト゚   (ト + handakuten; ainconv default)\n#   tsu       = ツ゚   (ツ + handakuten)\n#   twu       = トゥ\n#   plain_tsu = ツ    (plain katakana tsu)\ntu_style = \""@
        + tu_text(c.orthography.tu_style)
        + "\"\n# Render the -y coda as a small ィ instead of イ.  (true | false)\nuse_small_i = "@
        + bool_text(c.orthography.use_small_i)
        + "\n# Render the -w coda as a small ゥ instead of ウ.  (true | false)\nuse_small_u = "@
        + bool_text(c.orthography.use_small_u)
        + "\n# Render the -n coda as a small ㇴ instead of ン.  (true | false)\nuse_small_n = "@
        + bool_text(c.orthography.use_small_n)
        + "\n# Render onset `wi` as ヰ instead of ウィ.  (true | false)\nuse_wi = "@
        + bool_text(c.orthography.use_wi)
        + "\n# Render onset `we` as ヱ instead of ウェ.  (true | false)\nuse_we = "@
        + bool_text(c.orthography.use_we)
        + "\n# Render onset `wo` as ヲ instead of ウォ.  (true | false)\nuse_wo = "@
        + bool_text(c.orthography.use_wo)
        + "\n# Keep the `=` morpheme boundary in the output (ainconv strips it).  (true | false)\nshow_equals_boundary = "@
        + bool_text(c.orthography.show_equals_boundary)
        + "\n\n[suggestions]\n# Show the candidate window with word suggestions.  (true | false)\nenabled = "@
        + bool_text(c.suggestions.enabled)
        + "\n# Maximum number of candidates shown in the list.  (integer, e.g. 9)\nmax_candidates = "@
        + decimal(c.suggestions.max_candidates as nat)
        + "\n# Re-rank completions by trigram/bigram context.  (true | false)\ncontext_aware = "@
        + bool_text(c.suggestions.context_aware)
        + "\n"@
}

fn bool_str(b: bool) -> (res: &'static str)
    ensures
        res@ == bool_text(b),
{
    if b {
        "true"
    } else {
        "false"
    }
}

fn mode_str(m: InputMode) -> (res: &'static str)
    ensures
        res@ == mode_text(m),
{
    match m {
        InputMode::Kana => "kana",
        InputMode::Latin => "latin",
    }
}

fn tu_str(t: TuStyle) -> (res: &'static str)
    ensures
        res@ == tu_text(t),
{
    match t {
        TuStyle::To => "to",
        TuStyle::Tsu => "tsu",
        TuStyle::Twu => "twu",
        TuStyle::PlainTsu => "plain_tsu",
    }
}

/// The decimal digits of `n`.
pub fn decimal_chars(n: usize) -> (res: Vec<char>)
    ensures
        res@ == decimal(n as nat),
    decreases n,
{
    let d = (n % 10) as u8;
    let c = (48u8 + d) as char;
    assert(c == digit_char((n % 10) as nat));
    if n < 10 {
        vec![c]
    } else {
        let mut v = decimal_chars(n / 10);
        v.push(c);
        v
    }
}

impl Config {
    /// Serialize to TOML with inline documentation — a header plus, for every
    /// option, a comment describing it and listing its allowed values. Comments
    /// are ignored when the file is read back, so it still round-trips.
    pub fn to_documented_toml(&self) -> (res: String)
        ensures
            res@ == documented_toml(*self),
    {
        let mut s = String::new();
        s.append("# ainuKey configuration  —  %APPDATA%\\ainuKey\\config.toml\n#\n# Edit and save, then re-activate ainuKey (switch input away and back, or restart\n# the app) to apply. Lines beginning with '#' are comments. Each option lists its\n# allowed values; delete this file to regenerate it with the defaults below.\n\n[input]\n# Mode a new composition starts in.\n#   kana  = convert romaji to Ainu katakana (normal)\n#   latin = pass Latin letters through unchanged\ndefault_mode = \"");
        s.append(mode_str(self.input.default_mode));
        s.append("\"\n# Show romaji while typing and convert to katakana only on commit.  (true | false)\nromaji_input_mode = ");
        s.append(bool_str(self.input.romaji_input_mode));
        s.append("\n\n[orthography]\n# How to render the `tu` mora:\n#   to        = ト゚   (ト + handakuten; ainconv default)\n#   tsu       = ツ゚   (ツ + handakuten)\n#   twu       = トゥ\n#   plain_tsu = ツ    (plain katakana tsu)\ntu_style = \"");
        s.append(tu_str(self.orthography.tu_style));
        s.append("\"\n# Render the -y coda as a small ィ instead of イ.  (true | false)\nuse_small_i = ");
        s.append(bool_str(self.orthography.use_small_i));
        s.append("\n# Render the -w coda as a small ゥ instead of ウ.  (true | false)\nuse_small_u = ");
        s.append(bool_str(self.orthography.use_small_u));
        s.append("\n# Render the -n coda as a small ㇴ instead of ン.  (true | false)\nuse_small_n = ");
        s.append(bool_str(self.orthography.use_small_n));
        s.append("\n# Render onset `wi` as ヰ instead of ウィ.  (true | false)\nuse_wi = ");
        s.append(bool_str(self.orthography.use_wi));
        s.append("\n# Render onset `we` as ヱ instead of ウェ.  (true | false)\nuse_we = ");
        s.append(bool_str(self.orthography.use_we));
        s.append("\n# Render onset `wo` as ヲ instead of ウォ.  (true | false)\nuse_wo = ");
        s.append(bool_str(self.orthography.use_wo));
        s.append("\n# Keep the `=` morpheme boundary in the output (ainconv strips it).  (true | false)\nshow_equals_boundary = ");
        s.append(bool_str(self.orthography.show_equals_boundary));
        s.append("\n\n[suggestions]\n# Show the candidate window with word suggestions.  (true | false)\nenabled = ");
        s.append(bool_str(self.suggestions.enabled));
        s.append("\n# Maximum number of candidates shown in the list.  (integer, e.g. 9)\nmax_candidates = ");
        let digits = decimal_chars(self.suggestions.max_candidates);
        let digits = string_of(&digits);
        s.append(digits.as_str());
        s.append("\n# Re-rank completions by trigram/bigram context.  (true | false)\ncontext_aware = ");
        s.append(bool_str(self.suggestions.context_aware));
        s.append("\n");
        s
    }
}

} // verus!
