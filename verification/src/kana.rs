//! Voiced / loanword-aware romaji → katakana.
//!
//! The Ainu converter (`ainconv::convert_latn_to_kana`) only knows canonical
//! Ainu, whose consonants are `p t c k m n s h w r y`; it has no voiced
//! obstruents. This module scans the (already normalized) romaji, renders the
//! voiced / loanword syllables (`ga`, `zu`, `ji`, `va`, `fo`, …) directly,
//! hands every canonical-Ainu run in between to the converter, and then
//! applies the notation options of an [`Orthography`].

use vstd::prelude::*;

use crate::config::{default_orthography, Orthography, TuStyle};
use crate::romaji::spec_is_vowel;
use crate::text::{chars_of, extend_chars, replace_all, replace_chars, string_of};

verus! {

// ---------------------------------------------------------------------------
// The converter and the inputs it accepts.
// ---------------------------------------------------------------------------

/// What `ainconv::convert_latn_to_kana` returns for a given romaji string.
pub uninterp spec fn ainconv_katakana(latn: Seq<char>) -> Seq<char>;

/// Whether `char::is_alphabetic` holds of `c` (the Unicode `Alphabetic`
/// property).
pub uninterp spec fn unicode_alphabetic(c: char) -> bool;

/// `char::is_alphabetic`. Its result is named [`unicode_alphabetic`] of the
/// argument; of ASCII it is claimed that exactly the letters are alphabetic.
#[verifier::external_body]
fn is_alphabetic(c: char) -> (res: bool)
    ensures
        res == unicode_alphabetic(c),
        (c as u32) < 128 ==> (res <==> ascii_letter(c)),
{
    c.is_alphabetic()
}

/// An ASCII letter.
pub open spec fn ascii_letter(c: char) -> bool {
    ('a' <= c && c <= 'z') || ('A' <= c && c <= 'Z')
}

/// Whether `char::is_alphabetic` holds of `c`: of ASCII, exactly the letters.
pub open spec fn alphabetic(c: char) -> bool {
    if (c as u32) < 128 {
        ascii_letter(c)
    } else {
        unicode_alphabetic(c)
    }
}

/// The characters the converter groups into words: the alphabetic ones, the
/// kana voicing marks, the two glottal-stop spellings and `=`.
pub open spec fn converter_letter(c: char) -> bool {
    alphabetic(c) || c == '\u{3099}' || c == '\u{309A}' || c == '\u{309B}' || c
        == '\u{309C}' || c == '\u{FF9E}' || c == '\u{FF9F}' || c == '’' || c == '\'' || c == '='
}

/// The ASCII letter that a precomposed letter with an acute accent (or the
/// Kelvin sign) canonically decomposes to once the converter strips the
/// acute: `á` → `a`, `Ś` → `S`, `ḱ` → `k`, …
pub open spec fn plain_base(c: char) -> Option<char> {
    match c {
        'Á' => Some('A'),
        'É' => Some('E'),
        'Í' => Some('I'),
        'Ó' => Some('O'),
        'Ú' => Some('U'),
        'Ý' => Some('Y'),
        'á' => Some('a'),
        'é' => Some('e'),
        'í' => Some('i'),
        'ó' => Some('o'),
        'ú' => Some('u'),
        'ý' => Some('y'),
        'Ć' => Some('C'),
        'ć' => Some('c'),
        'Ĺ' => Some('L'),
        'ĺ' => Some('l'),
        'Ń' => Some('N'),
        'ń' => Some('n'),
        'Ŕ' => Some('R'),
        'ŕ' => Some('r'),
        'Ś' => Some('S'),
        'ś' => Some('s'),
        'Ź' => Some('Z'),
        'ź' => Some('z'),
        'Ǵ' => Some('G'),
        'ǵ' => Some('g'),
        'Ḱ' => Some('K'),
        'ḱ' => Some('k'),
        'Ḿ' => Some('M'),
        'ḿ' => Some('m'),
        'Ṕ' => Some('P'),
        'ṕ' => Some('p'),
        'Ẃ' => Some('W'),
        'ẃ' => Some('w'),
        '\u{212A}' => Some('K'),
        _ => None,
    }
}

/// A character whose spelling inside a word is fixed before the converter
/// syllabifies it: ASCII (only lowercased), or a letter that becomes an ASCII
/// letter once its acute accent is stripped.
pub open spec fn plain_char(c: char) -> bool {
    (c as u32) < 128 || plain_base(c) is Some
}

/// A plain character as the converter's syllabifier sees it: acute accent
/// stripped, ASCII lowercased.
pub open spec fn plain_letter(c: char) -> char {
    let b = if (c as u32) < 128 {
        c
    } else {
        plain_base(c).unwrap()
    };
    if 'A' <= b && b <= 'Z' {
        ((b as u32) + 32) as char
    } else {
        b
    }
}

/// A character after which the converter's Unicode normalization cannot
/// merge anything into the character before it: every character below
/// U+0300 and every plain character decomposes to a starting character that
/// composes with nothing before it.
pub open spec fn settled(c: char) -> bool {
    (c as u32) < 0x300 || plain_char(c)
}

/// The syllabifier's vowels (after accent stripping).
pub open spec fn syllable_vowel(c: char) -> bool {
    c == 'a' || c == 'i' || c == 'u' || c == 'e' || c == 'o'
}

/// The syllabifier's ASCII consonants.
pub open spec fn syllable_consonant(c: char) -> bool {
    c == 'p' || c == 't' || c == 'c' || c == 'k' || c == 'm' || c == 'n' || c == 's' || c == 'h'
        || c == 'w' || c == 'r' || c == 'y'
}

/// The first `k` characters, `=` left out, of the word that runs on from
/// position `i` of `s`.
pub open spec fn word_head(s: Seq<char>, i: int, k: nat) -> Seq<char>
    decreases s.len() - i,
{
    if k == 0 || i < 0 || i >= s.len() || !converter_letter(s[i]) {
        seq![]
    } else if s[i] == '=' {
        word_head(s, i + 1, k)
    } else {
        seq![s[i]] + word_head(s, i + 1, (k - 1) as nat)
    }
}

/// The syllabifier places the first character of a word whose first three
/// characters (`=` left out) are `h`: the word is empty, or its first
/// character is a vowel, or a consonant followed by a vowel. The characters
/// this depends on are plain, and the one after them settled, so the
/// converter's accent stripping and Unicode normalization keep them as they
/// are.
pub open spec fn head_syllabifies(h: Seq<char>) -> bool {
    ||| h.len() == 0
    ||| (plain_char(h[0]) && syllable_vowel(plain_letter(h[0])) && (h.len() < 2 || settled(h[1])))
    ||| (h.len() >= 2 && plain_char(h[0]) && plain_char(h[1]) && syllable_consonant(
        plain_letter(h[0]),
    ) && syllable_vowel(plain_letter(h[1])) && (h.len() < 3 || settled(h[2])))
}

/// Position `i` of `s` starts a word.
pub open spec fn starts_word(s: Seq<char>, i: int) -> bool {
    0 <= i < s.len() && converter_letter(s[i]) && (i == 0 || !converter_letter(s[i - 1]))
}

/// Inputs on which the converter is sure to run to completion (a sufficient
/// condition, not an exact one): no typographic glottal stop `’` (the
/// syllabifier slices mid-character on a syllable that ends in one), and
/// every word headed so that the syllabifier assigns the word's first
/// character (else it subtracts below zero). A word whose head holds other
/// characters is left out even where the converter would complete on it.
pub open spec fn converter_accepts(s: Seq<char>) -> bool {
    &&& forall|i: int| 0 <= i < s.len() ==> #[trigger] s[i] != '’'
    &&& forall|i: int| #[trigger] starts_word(s, i) ==> head_syllabifies(word_head(s, i, 3))
}

/// `ainconv::convert_latn_to_kana`: romanized Ainu to katakana. Its result is
/// named [`ainconv_katakana`] of the argument; only inputs on which the
/// converter completes are admitted.
#[verifier::external_body]
fn ainconv_to_kana(latn: &str) -> (res: String)
    requires
        converter_accepts(latn@),
    ensures
        res@ == ainconv_katakana(latn@),
{
    ainconv::convert_latn_to_kana(latn)
}

fn is_converter_letter(c: char) -> (res: bool)
    ensures
        res == converter_letter(c),
{
    is_alphabetic(c) || c == '\u{3099}' || c == '\u{309A}' || c == '\u{309B}' || c == '\u{309C}'
        || c == '\u{FF9E}' || c == '\u{FF9F}' || c == '’' || c == '\'' || c == '='
}

fn plain_base_of(c: char) -> (res: Option<char>)
    ensures
        res == plain_base(c),
{
    match c {
        'Á' => Some('A'),
        'É' => Some('E'),
        'Í' => Some('I'),
        'Ó' => Some('O'),
        'Ú' => Some('U'),
        'Ý' => Some('Y'),
        'á' => Some('a'),
        'é' => Some('e'),
        'í' => Some('i'),
        'ó' => Some('o'),
        'ú' => Some('u'),
        'ý' => Some('y'),
        'Ć' => Some('C'),
        'ć' => Some('c'),
        'Ĺ' => Some('L'),
        'ĺ' => Some('l'),
        'Ń' => Some('N'),
        'ń' => Some('n'),
        'Ŕ' => Some('R'),
        'ŕ' => Some('r'),
        'Ś' => Some('S'),
        'ś' => Some('s'),
        'Ź' => Some('Z'),
        'ź' => Some('z'),
        'Ǵ' => Some('G'),
        'ǵ' => Some('g'),
        'Ḱ' => Some('K'),
        'ḱ' => Some('k'),
        'Ḿ' => Some('M'),
        'ḿ' => Some('m'),
        'Ṕ' => Some('P'),
        'ṕ' => Some('p'),
        'Ẃ' => Some('W'),
        'ẃ' => Some('w'),
        '\u{212A}' => Some('K'),
        _ => None,
    }
}

fn is_plain_char(c: char) -> (res: bool)
    ensures
        res == plain_char(c),
{
    (c as u32) < 128 || plain_base_of(c).is_some()
}

fn is_settled(c: char) -> (res: bool)
    ensures
        res == settled(c),
{
    (c as u32) < 0x300 || is_plain_char(c)
}

fn to_plain_letter(c: char) -> (res: char)
    requires
        plain_char(c),
    ensures
        res == plain_letter(c),
{
    let b = if (c as u32) < 128 {
        c
    } else {
        match plain_base_of(c) {
            Some(x) => x,
            None => c,
        }
    };
    if 'A' <= b && b <= 'Z' {
        let u = (b as u8) + 32;
        assert(u as char == ((b as u32) + 32) as char);
        u as char
    } else {
        b
    }
}

proof fn lemma_word_head_len(s: Seq<char>, i: int, k: nat)
    ensures
        word_head(s, i, k).len() <= k,
    decreases s.len() - i,
{
    if k == 0 || i < 0 || i >= s.len() || !converter_letter(s[i]) {
    } else if s[i] == '=' {
        lemma_word_head_len(s, i + 1, k);
    } else {
        lemma_word_head_len(s, i + 1, (k - 1) as nat);
    }
}

/// The head of the word starting at `i` (see [`word_head`], `k` = 3).
fn word_head_of(s: &Vec<char>, i: usize) -> (res: Vec<char>)
    requires
        i <= s.len(),
    ensures
        res@ == word_head(s@, i as int, 3),
{
    let mut got: Vec<char> = Vec::new();
    let mut j: usize = i;
    while j < s.len() && got.len() < 3 && is_converter_letter(s[j])
        invariant
            i <= j <= s.len(),
            got.len() <= 3,
            got@ + word_head(s@, j as int, (3 - got.len()) as nat) == word_head(s@, i as int, 3),
        decreases s.len() - j,
    {
        if s[j] != '=' {
            let p = s[j];
            proof {
                assert(word_head(s@, j as int, (3 - got.len()) as nat) == seq![p] + word_head(
                    s@,
                    j + 1,
                    (3 - got.len() - 1) as nat,
                ));
                assert(got@.push(p) + word_head(s@, j + 1, (3 - got.len() - 1) as nat) =~= got@
                    + (seq![p] + word_head(s@, j + 1, (3 - got.len() - 1) as nat)));
            }
            got.push(p);
        }
        j += 1;
    }
    proof {
        assert(word_head(s@, j as int, (3 - got.len()) as nat) == Seq::<char>::empty());
        assert(got@ + Seq::<char>::empty() =~= got@);
    }
    got
}

fn is_syllable_vowel(c: char) -> (res: bool)
    ensures
        res == syllable_vowel(c),
{
    c == 'a' || c == 'i' || c == 'u' || c == 'e' || c == 'o'
}

fn is_syllable_consonant(c: char) -> (res: bool)
    ensures
        res == syllable_consonant(c),
{
    c == 'p' || c == 't' || c == 'c' || c == 'k' || c == 'm' || c == 'n' || c == 's' || c == 'h'
        || c == 'w' || c == 'r' || c == 'y'
}

fn head_ok(h: &Vec<char>) -> (res: bool)
    requires
        h.len() <= 3,
    ensures
        res == head_syllabifies(h@),
{
    if h.len() == 0 {
        return true;
    }
    if !is_plain_char(h[0]) {
        return false;
    }
    let first = to_plain_letter(h[0]);
    if is_syllable_vowel(first) {
        return h.len() < 2 || is_settled(h[1]);
    }
    h.len() >= 2 && is_syllable_consonant(first) && is_plain_char(h[1]) && is_syllable_vowel(
        to_plain_letter(h[1]),
    ) && (h.len() < 3 || is_settled(h[2]))
}

/// Is `s` among the inputs on which the converter is sure to complete?
pub fn converter_accepts_input(s: &Vec<char>) -> (res: bool)
    ensures
        res == converter_accepts(s@),
{
    let mut i: usize = 0;
    let mut prev_letter = false;
    while i < s.len()
        invariant
            i <= s.len(),
            i > 0 ==> prev_letter == converter_letter(s@[i - 1]),
            i == 0 ==> !prev_letter,
            forall|k: int| 0 <= k < i ==> #[trigger] s@[k] != '’',
            forall|k: int| 0 <= k < i && #[trigger] starts_word(s@, k) ==> head_syllabifies(
                word_head(s@, k, 3),
            ),
        decreases s.len() - i,
    {
        let c = s[i];
        if c == '’' {
            return false;
        }
        let letter = is_converter_letter(c);
        if letter && !prev_letter {
            let h = word_head_of(s, i);
            proof {
                lemma_word_head_len(s@, i as int, 3);
            }
            if !head_ok(&h) {
                assert(starts_word(s@, i as int));
                return false;
            }
        }
        assert(starts_word(s@, i as int) == (letter && !prev_letter));
        prev_letter = letter;
        i += 1;
    }
    true
}

// ---------------------------------------------------------------------------
// Voiced / loanword syllables.
// ---------------------------------------------------------------------------

/// The acute-stripped vowel.
pub open spec fn short_vowel(v: char) -> char {
    if v == 'á' {
        'a'
    } else if v == 'í' {
        'i'
    } else if v == 'ú' {
        'u'
    } else if v == 'é' {
        'e'
    } else if v == 'ó' {
        'o'
    } else {
        v
    }
}

/// The katakana of a voiced / loanword onset + vowel, or `None` for anything
/// the Ainu converter handles itself.
pub open spec fn voiced_kana(onset: char, vowel: char) -> Option<Seq<char>> {
    let v = short_vowel(vowel);
    if onset == 'g' {
        if v == 'a' { Some(seq!['ガ']) }
        else if v == 'i' { Some(seq!['ギ']) }
        else if v == 'u' { Some(seq!['グ']) }
        else if v == 'e' { Some(seq!['ゲ']) }
        else if v == 'o' { Some(seq!['ゴ']) }
        else { None }
    } else if onset == 'z' {
        if v == 'a' { Some(seq!['ザ']) }
        else if v == 'i' { Some(seq!['ジ']) }
        else if v == 'u' { Some(seq!['ズ']) }
        else if v == 'e' { Some(seq!['ゼ']) }
        else if v == 'o' { Some(seq!['ゾ']) }
        else { None }
    } else if onset == 'j' {
        if v == 'a' { Some(seq!['ジ', 'ャ']) }
        else if v == 'i' { Some(seq!['ジ']) }
        else if v == 'u' { Some(seq!['ジ', 'ュ']) }
        else if v == 'e' { Some(seq!['ジ', 'ェ']) }
        else if v == 'o' { Some(seq!['ジ', 'ョ']) }
        else { None }
    } else if onset == 'd' {
        if v == 'a' { Some(seq!['ダ']) }
        else if v == 'i' { Some(seq!['ヂ']) }
        else if v == 'u' { Some(seq!['ヅ']) }
        else if v == 'e' { Some(seq!['デ']) }
        else if v == 'o' { Some(seq!['ド']) }
        else { None }
    } else if onset == 'b' {
        if v == 'a' { Some(seq!['バ']) }
        else if v == 'i' { Some(seq!['ビ']) }
        else if v == 'u' { Some(seq!['ブ']) }
        else if v == 'e' { Some(seq!['ベ']) }
        else if v == 'o' { Some(seq!['ボ']) }
        else { None }
    } else if onset == 'v' {
        if v == 'a' { Some(seq!['ヴ', 'ァ']) }
        else if v == 'i' { Some(seq!['ヴ', 'ィ']) }
        else if v == 'u' { Some(seq!['ヴ']) }
        else if v == 'e' { Some(seq!['ヴ', 'ェ']) }
        else if v == 'o' { Some(seq!['ヴ', 'ォ']) }
        else { None }
    } else if onset == 'f' {
        if v == 'a' { Some(seq!['フ', 'ァ']) }
        else if v == 'i' { Some(seq!['フ', 'ィ']) }
        else if v == 'u' { Some(seq!['フ']) }
        else if v == 'e' { Some(seq!['フ', 'ェ']) }
        else if v == 'o' { Some(seq!['フ', 'ォ']) }
        else { None }
    } else {
        None
    }
}

fn strip_acute(v: char) -> (res: char)
    ensures
        res == short_vowel(v),
{
    if v == 'á' {
        'a'
    } else if v == 'í' {
        'i'
    } else if v == 'ú' {
        'u'
    } else if v == 'é' {
        'e'
    } else if v == 'ó' {
        'o'
    } else {
        v
    }
}

/// A voiced / loanword onset+vowel → its katakana, or `None`.
fn voiced_cv(onset: char, vowel: char) -> (res: Option<Vec<char>>)
    ensures
        match res {
            Some(k) => voiced_kana(onset, vowel) == Some(k@),
            None => voiced_kana(onset, vowel) is None,
        },
{
    let v = strip_acute(vowel);
    if onset == 'g' {
        if v == 'a' { Some(vec!['ガ']) }
        else if v == 'i' { Some(vec!['ギ']) }
        else if v == 'u' { Some(vec!['グ']) }
        else if v == 'e' { Some(vec!['ゲ']) }
        else if v == 'o' { Some(vec!['ゴ']) }
        else { None }
    } else if onset == 'z' {
        if v == 'a' { Some(vec!['ザ']) }
        else if v == 'i' { Some(vec!['ジ']) }
        else if v == 'u' { Some(vec!['ズ']) }
        else if v == 'e' { Some(vec!['ゼ']) }
        else if v == 'o' { Some(vec!['ゾ']) }
        else { None }
    } else if onset == 'j' {
        if v == 'a' { Some(vec!['ジ', 'ャ']) }
        else if v == 'i' { Some(vec!['ジ']) }
        else if v == 'u' { Some(vec!['ジ', 'ュ']) }
        else if v == 'e' { Some(vec!['ジ', 'ェ']) }
        else if v == 'o' { Some(vec!['ジ', 'ョ']) }
        else { None }
    } else if onset == 'd' {
        if v == 'a' { Some(vec!['ダ']) }
        else if v == 'i' { Some(vec!['ヂ']) }
        else if v == 'u' { Some(vec!['ヅ']) }
        else if v == 'e' { Some(vec!['デ']) }
        else if v == 'o' { Some(vec!['ド']) }
        else { None }
    } else if onset == 'b' {
        if v == 'a' { Some(vec!['バ']) }
        else if v == 'i' { Some(vec!['ビ']) }
        else if v == 'u' { Some(vec!['ブ']) }
        else if v == 'e' { Some(vec!['ベ']) }
        else if v == 'o' { Some(vec!['ボ']) }
        else { None }
    } else if onset == 'v' {
        if v == 'a' { Some(vec!['ヴ', 'ァ']) }
        else if v == 'i' { Some(vec!['ヴ', 'ィ']) }
        else if v == 'u' { Some(vec!['ヴ']) }
        else if v == 'e' { Some(vec!['ヴ', 'ェ']) }
        else if v == 'o' { Some(vec!['ヴ', 'ォ']) }
        else { None }
    } else if onset == 'f' {
        if v == 'a' { Some(vec!['フ', 'ァ']) }
        else if v == 'i' { Some(vec!['フ', 'ィ']) }
        else if v == 'u' { Some(vec!['フ']) }
        else if v == 'e' { Some(vec!['フ', 'ェ']) }
        else if v == 'o' { Some(vec!['フ', 'ォ']) }
        else { None }
    } else {
        None
    }
}


// ---------------------------------------------------------------------------
// Runs handed to the converter.
// ---------------------------------------------------------------------------

/// The run with the typographic glottal stop `’` spelled as an ASCII
/// apostrophe (the converter drops either in katakana).
pub open spec fn ascii_glottal(run: Seq<char>) -> Seq<char> {
    run.map_values(|c: char| if c == '’' { '\'' } else { c })
}

/// Does `s` hold a vowel?
pub open spec fn has_vowel(s: Seq<char>) -> bool {
    exists|k: int| 0 <= k < s.len() && spec_is_vowel(#[trigger] s[k])
}

/// A canonical-Ainu run in katakana: the converter's output where it accepts
/// the run, otherwise the run as typed.
pub open spec fn run_kana(run: Seq<char>) -> Seq<char> {
    let safe = ascii_glottal(run);
    if converter_accepts(safe) {
        ainconv_katakana(safe)
    } else {
        safe
    }
}

/// What an accumulated run contributes to the output: nothing if empty, its
/// katakana if it holds a vowel, and the run verbatim otherwise (an
/// in-progress consonant cluster).
pub open spec fn flushed(run: Seq<char>) -> Seq<char> {
    if run.len() == 0 {
        seq![]
    } else if has_vowel(run) {
        run_kana(run)
    } else {
        run
    }
}

/// The small-kana glide written for position `i`, if `cs[i]` is a coda
/// `y`/`w` (after a vowel, not before one) and the matching option is on.
pub open spec fn small_glide(cs: Seq<char>, i: int, o: Orthography) -> Option<char> {
    let c = cs[i];
    if ((c == 'y' && o.use_small_i) || (c == 'w' && o.use_small_u)) && i > 0 && spec_is_vowel(
        cs[i - 1],
    ) && (i + 1 >= cs.len() || !spec_is_vowel(cs[i + 1])) {
        Some(if c == 'y' { 'ィ' } else { 'ゥ' })
    } else {
        None
    }
}

/// The scan from position `i` with `run` accumulated so far.
pub open spec fn scan(cs: Seq<char>, i: int, run: Seq<char>, o: Orthography) -> Seq<char>
    decreases cs.len() - i,
{
    if i < 0 || i >= cs.len() {
        flushed(run)
    } else if i + 1 < cs.len() && voiced_kana(cs[i], cs[i + 1]) is Some {
        flushed(run) + voiced_kana(cs[i], cs[i + 1]).unwrap() + scan(cs, i + 2, seq![], o)
    } else if cs[i] == '=' {
        flushed(run) + (if o.show_equals_boundary {
            seq!['=']
        } else {
            seq![]
        }) + scan(cs, i + 1, seq![], o)
    } else if small_glide(cs, i, o) is Some {
        flushed(run) + seq![small_glide(cs, i, o).unwrap()] + scan(cs, i + 1, seq![], o)
    } else {
        scan(cs, i + 1, run.push(cs[i]), o)
    }
}

/// The replacement for the converter's ト゚ under a `tu` style.
pub open spec fn tu_rendering(t: TuStyle) -> Option<Seq<char>> {
    match t {
        TuStyle::To => None,
        TuStyle::Tsu => Some(seq!['ツ', '\u{309A}']),
        TuStyle::Twu => Some(seq!['ト', 'ゥ']),
        TuStyle::PlainTsu => Some(seq!['ツ']),
    }
}

/// The notation options applied to the scanned katakana, in order:
/// ヰ, ヱ, ヲ, small ㇴ, then the `tu` style.
pub open spec fn apply_notation(k: Seq<char>, o: Orthography) -> Seq<char> {
    let k1 = if o.use_wi { replace_all(k, seq!['ウ', 'ィ'], seq!['ヰ']) } else { k };
    let k2 = if o.use_we { replace_all(k1, seq!['ウ', 'ェ'], seq!['ヱ']) } else { k1 };
    let k3 = if o.use_wo { replace_all(k2, seq!['ウ', 'ォ'], seq!['ヲ']) } else { k2 };
    let k4 = if o.use_small_n { replace_all(k3, seq!['ン'], seq!['ㇴ']) } else { k3 };
    match tu_rendering(o.tu_style) {
        Some(rep) => replace_all(k4, seq!['ト', '\u{309A}'], rep),
        None => k4,
    }
}

/// Romaji → katakana under the notation options `o`.
pub open spec fn spec_convert_with(latn: Seq<char>, o: Orthography) -> Seq<char> {
    apply_notation(scan(latn, 0, seq![], o), o)
}

fn has_vowel_in(run: &Vec<char>) -> (res: bool)
    ensures
        res == has_vowel(run@),
{
    let mut k: usize = 0;
    while k < run.len()
        invariant
            k <= run.len(),
            forall|j: int| 0 <= j < k ==> !spec_is_vowel(#[trigger] run@[j]),
        decreases run.len() - k,
    {
        let c = run[k];
        if c == 'a' || c == 'i' || c == 'u' || c == 'e' || c == 'o' || c == 'á' || c == 'í' || c
            == 'ú' || c == 'é' || c == 'ó' {
            assert(spec_is_vowel(run@[k as int]));
            return true;
        }
        k += 1;
    }
    false
}

/// Convert one canonical-Ainu run. `’` is spelled `'` first (the converter
/// slices mid-character on a syllable ending in `’`); a run outside what the
/// converter accepts is returned as typed.
fn convert_run(run: &Vec<char>) -> (res: Vec<char>)
    ensures
        res@ == run_kana(run@),
{
    let mut safe: Vec<char> = Vec::new();
    let mut k: usize = 0;
    while k < run.len()
        invariant
            k <= run.len(),
            safe@ == ascii_glottal(run@.take(k as int)),
        decreases run.len() - k,
    {
        let c = run[k];
        safe.push(if c == '’' { '\'' } else { c });
        assert(ascii_glottal(run@.take(k + 1)) =~= ascii_glottal(run@.take(k as int)).push(
            if c == '’' { '\'' } else { c },
        ));
        k += 1;
    }
    assert(run@.take(run.len() as int) =~= run@);
    if converter_accepts_input(&safe) {
        let s = string_of(&safe);
        let kana = ainconv_to_kana(s.as_str());
        chars_of(kana.as_str())
    } else {
        safe
    }
}

/// Emit the accumulated run (see [`flushed`]) and clear it.
fn flush(run: &mut Vec<char>, out: &mut Vec<char>)
    ensures
        final(out)@ == old(out)@ + flushed(old(run)@),
        final(run)@ == Seq::<char>::empty(),
{
    if run.len() > 0 {
        if has_vowel_in(run) {
            let k = convert_run(run);
            extend_chars(out, &k);
        } else {
            extend_chars(out, run);
        }
        run.clear();
    } else {
        assert(old(out)@ + flushed(old(run)@) =~= old(out)@);
    }
}

/// The scan: voiced syllables directly, `=` and small glides by the options,
/// everything else accumulated into runs for the converter.
fn scan_text(cs: &Vec<char>, o: &Orthography) -> (res: Vec<char>)
    ensures
        res@ == scan(cs@, 0, seq![], *o),
{
    let mut out: Vec<char> = Vec::new();
    let mut run: Vec<char> = Vec::new();
    let mut i: usize = 0;
    assert(out@ + scan(cs@, 0, run@, *o) =~= scan(cs@, 0, seq![], *o));
    while i < cs.len()
        invariant
            i <= cs.len(),
            out@ + scan(cs@, i as int, run@, *o) == scan(cs@, 0, seq![], *o),
        decreases cs.len() - i,
    {
        let c = cs[i];
        let n = cs.len();
        if n - i > 1 {
            let v = voiced_cv(c, cs[i + 1]);
            if let Some(kana) = v {
                let ghost out0 = out@;
                let ghost run0 = run@;
                flush(&mut run, &mut out);
                extend_chars(&mut out, &kana);
                assert(out0 + scan(cs@, i as int, run0, *o) =~= out@ + scan(
                    cs@,
                    i + 2,
                    seq![],
                    *o,
                ));
                i += 2;
                continue;
            }
        }
        if c == '=' {
            let ghost out0 = out@;
            let ghost run0 = run@;
            flush(&mut run, &mut out);
            if o.show_equals_boundary {
                out.push('=');
            }
            assert(out0 + scan(cs@, i as int, run0, *o) =~= out@ + scan(
                cs@,
                i + 1,
                seq![],
                *o,
            ));
            i += 1;
            continue;
        }
        let small = (c == 'y' && o.use_small_i) || (c == 'w' && o.use_small_u);
        if small && i > 0 && is_vowel_char(cs[i - 1]) && (n - i <= 1 || !is_vowel_char(
            cs[i + 1],
        )) {
            let ghost out0 = out@;
            let ghost run0 = run@;
            flush(&mut run, &mut out);
            out.push(if c == 'y' { 'ィ' } else { 'ゥ' });
            assert(out0 + scan(cs@, i as int, run0, *o) =~= out@ + scan(
                cs@,
                i + 1,
                seq![],
                *o,
            ));
            i += 1;
            continue;
        }
        run.push(c);
        i += 1;
    }
    let ghost out0 = out@;
    let ghost run0 = run@;
    flush(&mut run, &mut out);
    assert(out@ =~= out0 + scan(cs@, i as int, run0, *o));
    out
}

fn is_vowel_char(c: char) -> (res: bool)
    ensures
        res == spec_is_vowel(c),
{
    c == 'a' || c == 'i' || c == 'u' || c == 'e' || c == 'o' || c == 'á' || c == 'í' || c == 'ú'
        || c == 'é' || c == 'ó'
}

/// Apply the notation options to scanned katakana.
fn notation(k: Vec<char>, o: &Orthography) -> (res: Vec<char>)
    ensures
        res@ == apply_notation(k@, *o),
{
    let ghost k0 = k@;
    let ghost k1 = if o.use_wi { replace_all(k0, seq!['ウ', 'ィ'], seq!['ヰ']) } else { k0 };
    let ghost k2 = if o.use_we { replace_all(k1, seq!['ウ', 'ェ'], seq!['ヱ']) } else { k1 };
    let ghost k3 = if o.use_wo { replace_all(k2, seq!['ウ', 'ォ'], seq!['ヲ']) } else { k2 };
    let ghost k4 = if o.use_small_n { replace_all(k3, seq!['ン'], seq!['ㇴ']) } else { k3 };
    let mut out = k;
    if o.use_wi {
        let pat = vec!['ウ', 'ィ'];
        let rep = vec!['ヰ'];
        assert(pat@ =~= seq!['ウ', 'ィ'] && rep@ =~= seq!['ヰ']);
        out = replace_chars(&out, &pat, &rep);
    }
    assert(out@ == k1);
    if o.use_we {
        let pat = vec!['ウ', 'ェ'];
        let rep = vec!['ヱ'];
        assert(pat@ =~= seq!['ウ', 'ェ'] && rep@ =~= seq!['ヱ']);
        out = replace_chars(&out, &pat, &rep);
    }
    assert(out@ == k2);
    if o.use_wo {
        let pat = vec!['ウ', 'ォ'];
        let rep = vec!['ヲ'];
        assert(pat@ =~= seq!['ウ', 'ォ'] && rep@ =~= seq!['ヲ']);
        out = replace_chars(&out, &pat, &rep);
    }
    assert(out@ == k3);
    if o.use_small_n {
        let pat = vec!['ン'];
        let rep = vec!['ㇴ'];
        assert(pat@ =~= seq!['ン'] && rep@ =~= seq!['ㇴ']);
        out = replace_chars(&out, &pat, &rep);
    }
    assert(out@ == k4);
    let tu: Option<Vec<char>> = match o.tu_style {
        TuStyle::To => None,
        TuStyle::Tsu => Some(vec!['ツ', '\u{309A}']),
        TuStyle::Twu => Some(vec!['ト', 'ゥ']),
        TuStyle::PlainTsu => Some(vec!['ツ']),
    };
    assert(match tu {
        Some(r) => tu_rendering(o.tu_style) == Some(r@),
        None => tu_rendering(o.tu_style) is None,
    });
    if let Some(rep) = tu {
        let pat = vec!['ト', '\u{309A}'];
        assert(pat@ =~= seq!['ト', '\u{309A}']);
        out = replace_chars(&out, &pat, &rep);
    }
    out
}

/// The notation options applied to katakana that the scan gave (the
/// converter's output and the voiced syllables): ウィ / ウェ / ウォ as
/// ヰ / ヱ / ヲ, ン as ㇴ, and the `tu` style, each where its option asks.
pub fn with_notation(kana: &str, ortho: &Orthography) -> (res: String)
    ensures
        res@ == apply_notation(kana@, *ortho),
{
    let k = chars_of(kana);
    let out = notation(k, ortho);
    string_of(&out)
}

/// Convert romaji to katakana, applying the notation options on top of the
/// default conversion:
/// * `show_equals_boundary` — keep the `=` morpheme boundary,
/// * `use_wi` / `use_we` / `use_wo` — ウィ / ウェ / ウォ as ヰ / ヱ / ヲ,
/// * `use_small_i` / `use_small_u` — coda `y` / `w` as small ィ / ゥ,
/// * `use_small_n` — coda ン as small ㇴ,
/// * `tu_style` — the `tu` mora as ト゚ / ツ゚ / トゥ / ツ.
pub fn convert_with(latn: &str, ortho: &Orthography) -> (res: String)
    ensures
        res@ == spec_convert_with(latn@, *ortho),
{
    let cs = chars_of(latn);
    let scanned = scan_text(&cs, ortho);
    let out = notation(scanned, ortho);
    string_of(&out)
}

/// Convert romaji to katakana with the default notation options.
pub fn convert(latn: &str) -> (res: String)
    ensures
        res@ == spec_convert_with(latn@, default_orthography()),
{
    convert_with(latn, &Orthography::default())
}

/// No special handling is triggered at any position from `i` on: no
/// voiced / loanword syllable, no `=`.
pub open spec fn plain_from(cs: Seq<char>, i: int) -> bool {
    forall|j: int|
        i <= j < cs.len() ==> #[trigger] cs[j] != '=' && (j + 1 < cs.len() ==> voiced_kana(
            cs[j],
            cs[j + 1],
        ) is None)
}

proof fn lemma_plain_scan(cs: Seq<char>, i: int, run: Seq<char>)
    requires
        0 <= i <= cs.len(),
        plain_from(cs, i),
    ensures
        scan(cs, i, run, default_orthography()) == flushed(run + cs.skip(i)),
    decreases cs.len() - i,
{
    if i == cs.len() {
        assert(run + cs.skip(i) =~= run);
    } else {
        assert(cs[i] != '=');
        assert(small_glide(cs, i, default_orthography()) is None);
        lemma_plain_scan(cs, i + 1, run.push(cs[i]));
        assert(run.push(cs[i]) + cs.skip(i + 1) =~= run + cs.skip(i));
    }
}

/// The default notation changes nothing.
proof fn lemma_default_notation(k: Seq<char>)
    ensures
        apply_notation(k, default_orthography()) == k,
{
}

/// Canonical Ainu — no voiced or loanword syllable, no `=` — is handed to the
/// converter whole: with the default notation the result is exactly the
/// converter's katakana for the word (the glottal stop spelled `'`).
pub proof fn law_canonical_word_is_converted_whole(latn: Seq<char>)
    requires
        plain_from(latn, 0),
        has_vowel(latn),
        converter_accepts(ascii_glottal(latn)),
    ensures
        spec_convert_with(latn, default_orthography()) == ainconv_katakana(ascii_glottal(latn)),
{
    lemma_plain_scan(latn, 0, seq![]);
    assert(Seq::<char>::empty() + latn.skip(0) =~= latn);
    lemma_default_notation(scan(latn, 0, seq![], default_orthography()));
}

/// Text with no vowel and no `=` (an in-progress consonant cluster such as
/// `k` or `ng`) is never handed to the converter: with the default notation
/// it comes out exactly as typed.
pub proof fn law_vowelless_text_is_verbatim(latn: Seq<char>)
    requires
        !has_vowel(latn),
        forall|j: int| 0 <= j < latn.len() ==> latn[j] != '=',
    ensures
        spec_convert_with(latn, default_orthography()) == latn,
{
    assert forall|j: int| 0 <= j < latn.len() implies #[trigger] latn[j] != '=' && (j + 1
        < latn.len() ==> voiced_kana(latn[j], latn[j + 1]) is None) by {
        if j + 1 < latn.len() {
            assert(!spec_is_vowel(latn[j + 1]));
        }
    }
    lemma_plain_scan(latn, 0, seq![]);
    assert(Seq::<char>::empty() + latn.skip(0) =~= latn);
    lemma_default_notation(scan(latn, 0, seq![], default_orthography()));
}

/// A voiced syllable's onset is one of `g z j d b v f`, none of which is a
/// vowel, so it never completes a voiced syllable after another letter.
proof fn lemma_onset_is_no_vowel(c: char, o: char, v: char)
    requires
        voiced_kana(o, v) is Some,
    ensures
        voiced_kana(c, o) is None,
{
}

/// The scan of `pre + y` from inside `y` does not look back into `pre` when
/// the small glides are off.
proof fn lemma_scan_suffix(pre: Seq<char>, y: Seq<char>, j: int, run: Seq<char>)
    requires
        0 <= j <= y.len(),
    ensures
        scan(pre + y, pre.len() + j, run, default_orthography()) == scan(y, j, run, default_orthography()),
    decreases y.len() - j,
{
    let cs = pre + y;
    let d = default_orthography();
    let i = pre.len() + j;
    if j < y.len() {
        assert(cs[i] == y[j]);
        if j + 1 < y.len() {
            assert(cs[i + 1] == y[j + 1]);
        }
        assert(small_glide(cs, i, d) is None);
        assert(small_glide(y, j, d) is None);
        if j + 1 < y.len() && voiced_kana(y[j], y[j + 1]) is Some {
            lemma_scan_suffix(pre, y, j + 2, seq![]);
        } else if y[j] == '=' {
            lemma_scan_suffix(pre, y, j + 1, seq![]);
        } else {
            lemma_scan_suffix(pre, y, j + 1, run.push(y[j]));
        }
    }
}

/// Scanning `x + [o, v] + y` up to the voiced syllable behaves as scanning
/// `x` alone, then emits the syllable, then scans `y` afresh.
proof fn lemma_scan_prefix(x: Seq<char>, o: char, v: char, y: Seq<char>, i: int, run: Seq<char>)
    requires
        voiced_kana(o, v) is Some,
        0 <= i <= x.len(),
    ensures
        scan(x + seq![o, v] + y, i, run, default_orthography()) == scan(x, i, run, default_orthography())
            + voiced_kana(o, v).unwrap() + scan(y, 0, seq![], default_orthography()),
    decreases x.len() - i,
{
    let cs = x + seq![o, v] + y;
    let d = default_orthography();
    let pre = x + seq![o, v];
    assert(cs =~= pre + y);
    if i == x.len() {
        assert(cs[i] == o && cs[i + 1] == v);
        lemma_scan_suffix(pre, y, 0, seq![]);
        assert(pre.len() + 0 == i + 2);
    } else {
        assert(cs[i] == x[i]);
        assert(cs[i + 1] == if i + 1 < x.len() { x[i + 1] } else { o });
        if i + 1 == x.len() {
            lemma_onset_is_no_vowel(x[i], o, v);
        }
        assert(small_glide(cs, i, d) is None);
        assert(small_glide(x, i, d) is None);
        if i + 1 < x.len() && voiced_kana(x[i], x[i + 1]) is Some {
            lemma_scan_prefix(x, o, v, y, i + 2, seq![]);
        } else if x[i] == '=' {
            lemma_scan_prefix(x, o, v, y, i + 1, seq![]);
        } else {
            lemma_scan_prefix(x, o, v, y, i + 1, run.push(x[i]));
        }
    }
}

/// A voiced or loanword syllable splits the word: with the default notation,
/// `x`, the syllable and `y` convert independently, and the syllable comes
/// out as its own katakana (e.g. `kaba` is `ka`'s katakana followed by バ).
pub proof fn law_voiced_syllable_splits_the_word(x: Seq<char>, o: char, v: char, y: Seq<char>)
    requires
        voiced_kana(o, v) is Some,
    ensures
        spec_convert_with(x + seq![o, v] + y, default_orthography()) == spec_convert_with(
            x,
            default_orthography(),
        ) + voiced_kana(o, v).unwrap() + spec_convert_with(y, default_orthography()),
{
    let d = default_orthography();
    lemma_scan_prefix(x, o, v, y, 0, seq![]);
    lemma_default_notation(scan(x + seq![o, v] + y, 0, seq![], d));
    lemma_default_notation(scan(x, 0, seq![], d));
    lemma_default_notation(scan(y, 0, seq![], d));
}

/// Appending a character that no pattern holds commutes with the replacement.
proof fn lemma_replace_all_push(s: Seq<char>, pat: Seq<char>, rep: Seq<char>, c: char)
    requires
        pat.len() > 0,
        forall|j: int| 0 <= j < pat.len() ==> pat[j] != c,
    ensures
        replace_all(s.push(c), pat, rep) == replace_all(s, pat, rep).push(c),
    decreases s.len(),
{
    let t = s.push(c);
    if s.len() == 0 {
        if crate::text::occurs_at(t, pat, 0) {
            assert(t.subrange(0, pat.len() as int)[pat.len() - 1] == c);
        }
        assert(t.skip(1) =~= Seq::<char>::empty());
        assert(replace_all(t.skip(1), pat, rep) =~= Seq::<char>::empty());
        assert(replace_all(t, pat, rep) == seq![t[0]] + replace_all(t.skip(1), pat, rep));
        assert(replace_all(s, pat, rep) =~= Seq::<char>::empty());
        assert(seq![c] + Seq::<char>::empty() =~= Seq::<char>::empty().push(c));
    } else {
        if pat.len() <= s.len() {
            assert(t.subrange(0, pat.len() as int) =~= s.subrange(0, pat.len() as int));
        } else if pat.len() == s.len() + 1 {
            if crate::text::occurs_at(t, pat, 0) {
                assert(t.subrange(0, pat.len() as int)[pat.len() - 1] == c);
            }
        }
        assert(crate::text::occurs_at(t, pat, 0) == crate::text::occurs_at(s, pat, 0));
        if crate::text::occurs_at(s, pat, 0) {
            assert(t.skip(pat.len() as int) =~= s.skip(pat.len() as int).push(c));
            lemma_replace_all_push(s.skip(pat.len() as int), pat, rep, c);
            assert(replace_all(t, pat, rep) == rep + replace_all(t.skip(pat.len() as int), pat, rep));
            assert(replace_all(s, pat, rep) == rep + replace_all(s.skip(pat.len() as int), pat, rep));
            assert(rep + replace_all(s.skip(pat.len() as int), pat, rep).push(c) =~= (rep
                + replace_all(s.skip(pat.len() as int), pat, rep)).push(c));
        } else {
            assert(t.skip(1) =~= s.skip(1).push(c));
            lemma_replace_all_push(s.skip(1), pat, rep, c);
            assert(t[0] == s[0]);
            assert(replace_all(t, pat, rep) == seq![t[0]] + replace_all(t.skip(1), pat, rep));
            assert(replace_all(s, pat, rep) == seq![s[0]] + replace_all(s.skip(1), pat, rep));
            assert(seq![s[0]] + replace_all(s.skip(1), pat, rep).push(c) =~= (seq![s[0]]
                + replace_all(s.skip(1), pat, rep)).push(c));
        }
    }
}

/// A glide kana passes through the notation step untouched.
proof fn lemma_notation_push(k: Seq<char>, o: Orthography, c: char)
    requires
        c == 'ゥ' || (c == 'ィ' && !o.use_wi),
    ensures
        apply_notation(k.push(c), o) == apply_notation(k, o).push(c),
{
    let k1 = if o.use_wi { replace_all(k, seq!['ウ', 'ィ'], seq!['ヰ']) } else { k };
    let k2 = if o.use_we { replace_all(k1, seq!['ウ', 'ェ'], seq!['ヱ']) } else { k1 };
    let k3 = if o.use_wo { replace_all(k2, seq!['ウ', 'ォ'], seq!['ヲ']) } else { k2 };
    let k4 = if o.use_small_n { replace_all(k3, seq!['ン'], seq!['ㇴ']) } else { k3 };
    if o.use_wi {
        lemma_replace_all_push(k, seq!['ウ', 'ィ'], seq!['ヰ'], c);
    }
    if o.use_we {
        lemma_replace_all_push(k1, seq!['ウ', 'ェ'], seq!['ヱ'], c);
    }
    if o.use_wo {
        lemma_replace_all_push(k2, seq!['ウ', 'ォ'], seq!['ヲ'], c);
    }
    if o.use_small_n {
        lemma_replace_all_push(k3, seq!['ン'], seq!['ㇴ'], c);
    }
    match tu_rendering(o.tu_style) {
        Some(rep) => {
            lemma_replace_all_push(k4, seq!['ト', '\u{309A}'], rep, c);
        },
        None => {},
    }
}

/// Scanning `x` followed by a coda glide `g` emits `x`'s scan and then the
/// glide's small kana.
proof fn lemma_scan_glide(x: Seq<char>, g: char, kana: char, o: Orthography, i: int, run: Seq<char>)
    requires
        x.len() > 0,
        spec_is_vowel(x.last()),
        (g == 'w' && o.use_small_u && kana == 'ゥ') || (g == 'y' && o.use_small_i && kana == 'ィ'),
        0 <= i <= x.len(),
    ensures
        scan(x.push(g), i, run, o) == scan(x, i, run, o).push(kana),
    decreases x.len() - i,
{
    let cs = x.push(g);
    if i == x.len() {
        assert(cs[i] == g);
        assert(cs[i - 1] == x.last());
        assert(small_glide(cs, i, o) == Some(kana));
        assert(scan(cs, i + 1, seq![], o) == flushed(Seq::<char>::empty()));
        assert(flushed(Seq::<char>::empty()) =~= Seq::<char>::empty());
        assert(scan(cs, i, run, o) == flushed(run) + seq![kana] + scan(cs, i + 1, seq![], o));
        assert(scan(x, i, run, o) == flushed(run));
        assert(flushed(run) + seq![kana] + Seq::<char>::empty() =~= flushed(run).push(kana));
    } else {
        assert(cs[i] == x[i]);
        if i > 0 {
            assert(cs[i - 1] == x[i - 1]);
        }
        if i + 1 < x.len() {
            assert(cs[i + 1] == x[i + 1]);
        } else {
            assert(cs[i + 1] == g);
            assert(voiced_kana(x[i], g) is None);
        }
        assert(small_glide(cs, i, o) == small_glide(x, i, o));
        if i + 1 < x.len() && voiced_kana(x[i], x[i + 1]) is Some {
            lemma_scan_glide(x, g, kana, o, i + 2, seq![]);
            let v = voiced_kana(x[i], x[i + 1]).unwrap();
            assert(flushed(run) + v + scan(x, i + 2, seq![], o).push(kana) =~= (flushed(run) + v
                + scan(x, i + 2, seq![], o)).push(kana));
        } else if x[i] == '=' {
            lemma_scan_glide(x, g, kana, o, i + 1, seq![]);
            let e = if o.show_equals_boundary { seq!['='] } else { seq![] };
            assert(flushed(run) + e + scan(x, i + 1, seq![], o).push(kana) =~= (flushed(run) + e
                + scan(x, i + 1, seq![], o)).push(kana));
        } else if small_glide(x, i, o) is Some {
            lemma_scan_glide(x, g, kana, o, i + 1, seq![]);
            let e = seq![small_glide(x, i, o).unwrap()];
            assert(flushed(run) + e + scan(x, i + 1, seq![], o).push(kana) =~= (flushed(run) + e
                + scan(x, i + 1, seq![], o)).push(kana));
        } else {
            lemma_scan_glide(x, g, kana, o, i + 1, run.push(x[i]));
        }
    }
}

/// A coda `w` after a vowel, with the small-glide option on, is written as
/// the small kana ゥ: appending it to text that ends in a vowel appends
/// exactly ゥ to the katakana.
pub proof fn law_small_u_glide(x: Seq<char>, o: Orthography)
    requires
        o.use_small_u,
        x.len() > 0,
        spec_is_vowel(x.last()),
    ensures
        spec_convert_with(x.push('w'), o) == spec_convert_with(x, o).push('ゥ'),
{
    lemma_scan_glide(x, 'w', 'ゥ', o, 0, seq![]);
    lemma_notation_push(scan(x, 0, seq![], o), o, 'ゥ');
}

/// A coda `y` after a vowel, with the small-glide option on (and ウィ not
/// rewritten to ヰ), is written as the small kana ィ.
pub proof fn law_small_i_glide(x: Seq<char>, o: Orthography)
    requires
        o.use_small_i,
        !o.use_wi,
        x.len() > 0,
        spec_is_vowel(x.last()),
    ensures
        spec_convert_with(x.push('y'), o) == spec_convert_with(x, o).push('ィ'),
{
    lemma_scan_glide(x, 'y', 'ィ', o, 0, seq![]);
    lemma_notation_push(scan(x, 0, seq![], o), o, 'ィ');
}

} // verus!
