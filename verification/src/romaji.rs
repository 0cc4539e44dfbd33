//! Forgiving input → canonical Ainu romaji.
//!
//! The raw composition buffer is normalized before it is converted to
//! katakana. Three phases, in order:
//!
//! 1. lowercase with full Unicode case folding (`AYNU` → `aynu`, `Á` → `á`);
//! 2. macron / circumflex long vowels → acute (`ā`, `â` → `á`, …);
//! 3. one left-to-right, longest-match-first, non-overlapping pass over the
//!    legacy digraphs: `chi`→`ci`, `shi`→`si` (onset only), `ch`→`c`,
//!    `ti`→`ci` (onset only), `fu`→`hu`.
//!
//! `tsu` is deliberately left alone (`ts` is a legal coda-`t` + onset-`s`
//! sequence, e.g. `satsuwe`), as are `n`, codas, doubled letters, `wo`, the
//! glottal stop in both spellings and the voiced letters `b d g z j`.
//!
//! A consonant is an *onset* when it starts the word or follows a vowel, a
//! glottal stop (`’` or `'`), the morpheme boundary `=` or whitespace; the
//! `ti` and `shi` folds fire only there, so a coda seam such as `karti` or
//! `karshi` is never rewritten.

use vstd::prelude::*;

use crate::text::{chars_of, string_of};

verus! {

/// What `str::to_lowercase` returns for a given string (full Unicode case
/// mapping, including the context-dependent final sigma).
pub uninterp spec fn unicode_lowercase(s: Seq<char>) -> Seq<char>;

/// The Unicode `White_Space` characters, which `char::is_whitespace`
/// recognizes: the ASCII controls U+0009–U+000D, the space, U+0085, the
/// no-break space, U+1680, the spaces U+2000–U+200A, the line and paragraph
/// separators, U+202F, U+205F and the ideographic space U+3000.
pub open spec fn unicode_white_space(c: char) -> bool {
    let u = c as u32;
    ||| 0x09 <= u <= 0x0D
    ||| u == 0x20 || u == 0x85 || u == 0xA0 || u == 0x1680
    ||| 0x2000 <= u <= 0x200A
    ||| u == 0x2028 || u == 0x2029 || u == 0x202F || u == 0x205F || u == 0x3000
}

/// All of `s` is ASCII.
pub open spec fn all_ascii(s: Seq<char>) -> bool {
    forall|i: int| 0 <= i < s.len() ==> (#[trigger] s[i] as u32) < 128
}

/// `c` with an ASCII capital made small.
pub open spec fn ascii_lower(c: char) -> char {
    if 'A' <= c && c <= 'Z' {
        ((c as u32) + 32) as char
    } else {
        c
    }
}

/// What `str::to_lowercase` gives: for ASCII text, its ASCII lowercase;
/// otherwise the full Unicode mapping ([`unicode_lowercase`]).
pub open spec fn lowered(s: Seq<char>) -> Seq<char> {
    if all_ascii(s) {
        s.map_values(|c: char| ascii_lower(c))
    } else {
        unicode_lowercase(s)
    }
}

/// `str::to_lowercase`. Its result is named [`unicode_lowercase`] of the
/// argument; of ASCII text it is claimed to be the ASCII lowercase.
#[verifier::external_body]
fn lowercase(s: &str) -> (res: String)
    ensures
        res@ == unicode_lowercase(s@),
        all_ascii(s@) ==> res@ == s@.map_values(|c: char| ascii_lower(c)),
{
    s.to_lowercase()
}

/// Is `c` a Unicode `White_Space` character (as `char::is_whitespace`)?
fn is_whitespace(c: char) -> (res: bool)
    ensures
        res == unicode_white_space(c),
{
    let u = c as u32;
    (0x09 <= u && u <= 0x0D) || u == 0x20 || u == 0x85 || u == 0xA0 || u == 0x1680 || (0x2000 <= u
        && u <= 0x200A) || u == 0x2028 || u == 0x2029 || u == 0x202F || u == 0x205F || u == 0x3000
}

/// The acute form of a macron or circumflex long vowel, if `c` is one.
pub open spec fn long_vowel_acute(c: char) -> Option<char> {
    match c {
        'ā' => Some('á'),
        'ī' => Some('í'),
        'ū' => Some('ú'),
        'ē' => Some('é'),
        'ō' => Some('ó'),
        'â' => Some('á'),
        'î' => Some('í'),
        'û' => Some('ú'),
        'ê' => Some('é'),
        'ô' => Some('ó'),
        _ => None,
    }
}

/// `c` with a macron / circumflex vowel mapped to its acute form.
pub open spec fn acute_fold(c: char) -> char {
    match long_vowel_acute(c) {
        Some(a) => a,
        None => c,
    }
}

/// Canonical Ainu vowels, short and acute-long.
pub open spec fn spec_is_vowel(c: char) -> bool {
    c == 'a' || c == 'i' || c == 'u' || c == 'e' || c == 'o' || c == 'á' || c == 'í' || c
        == 'ú' || c == 'é' || c == 'ó'
}

/// A consonant right after `prev` (the last character already written, or
/// `None` at the start) is a syllable onset.
pub open spec fn onset_after(prev: Option<char>) -> bool {
    match prev {
        None => true,
        Some(p) => spec_is_vowel(p) || p == '’' || p == '\'' || p == '=' || unicode_white_space(p),
    }
}

/// The digraph pass over `s`, where `prev` is the last character already
/// written before `s`.
pub open spec fn digraph_pass(s: Seq<char>, prev: Option<char>) -> Seq<char>
    decreases s.len(),
{
    if s.len() == 0 {
        seq![]
    } else if s.len() >= 3 && s[0] == 'c' && s[1] == 'h' && s[2] == 'i' {
        seq!['c', 'i'] + digraph_pass(s.skip(3), Some('i'))
    } else if s.len() >= 3 && s[0] == 's' && s[1] == 'h' && s[2] == 'i' && onset_after(prev) {
        seq!['s', 'i'] + digraph_pass(s.skip(3), Some('i'))
    } else if s.len() >= 2 && s[0] == 'c' && s[1] == 'h' {
        seq!['c'] + digraph_pass(s.skip(2), Some('c'))
    } else if s.len() >= 2 && s[0] == 't' && s[1] == 'i' && onset_after(prev) {
        seq!['c', 'i'] + digraph_pass(s.skip(2), Some('i'))
    } else if s.len() >= 2 && s[0] == 'f' && s[1] == 'u' {
        seq!['h', 'u'] + digraph_pass(s.skip(2), Some('u'))
    } else {
        seq![s[0]] + digraph_pass(s.skip(1), Some(s[0]))
    }
}

/// Phases 2 and 3 applied to already-lowercased text.
pub open spec fn fold_lowered(lowered: Seq<char>) -> Seq<char> {
    digraph_pass(lowered.map_values(|c: char| acute_fold(c)), None)
}

/// The canonical romaji of a raw buffer.
pub open spec fn spec_normalize(raw: Seq<char>) -> Seq<char> {
    fold_lowered(lowered(raw))
}

/// Map a macron or circumflex long vowel to its acute equivalent.
fn long_vowel_to_acute(c: char) -> (res: Option<char>)
    ensures
        res == long_vowel_acute(c),
{
    match c {
        'ā' => Some('á'),
        'ī' => Some('í'),
        'ū' => Some('ú'),
        'ē' => Some('é'),
        'ō' => Some('ó'),
        'â' => Some('á'),
        'î' => Some('í'),
        'û' => Some('ú'),
        'ê' => Some('é'),
        'ô' => Some('ó'),
        _ => None,
    }
}

/// Is `c` a canonical Ainu vowel (short or acute-long)?
fn is_vowel(c: char) -> (res: bool)
    ensures
        res == spec_is_vowel(c),
{
    c == 'a' || c == 'i' || c == 'u' || c == 'e' || c == 'o' || c == 'á' || c == 'í' || c
        == 'ú' || c == 'é' || c == 'ó'
}

/// The character before position `i` in the output written so far.
fn last_written(out: &Vec<char>) -> (res: Option<char>)
    ensures
        res == (if out.len() == 0 { None } else { Some(out@.last()) }),
{
    if out.len() == 0 {
        None
    } else {
        Some(out[out.len() - 1])
    }
}

fn onset_boundary(prev: Option<char>) -> (res: bool)
    ensures
        res == onset_after(prev),
{
    match prev {
        None => true,
        Some(p) => is_vowel(p) || p == '’' || p == '\'' || p == '=' || is_whitespace(p),
    }
}

/// Phases 2 and 3 on already-lowercased text: long vowels to acute, then the
/// digraph pass.
pub fn normalize_lowered(lowered: &str) -> (res: String)
    ensures
        res@ == fold_lowered(lowered@),
{
    let raw = chars_of(lowered);
    let mut chars: Vec<char> = Vec::new();
    let mut j: usize = 0;
    while j < raw.len()
        invariant
            j <= raw.len(),
            chars@ == raw@.take(j as int).map_values(|c: char| acute_fold(c)),
        decreases raw.len() - j,
    {
        let c = raw[j];
        let folded = match long_vowel_to_acute(c) {
            Some(a) => a,
            None => c,
        };
        chars.push(folded);
        assert(raw@.take(j + 1).map_values(|c: char| acute_fold(c)) =~= raw@.take(
            j as int,
        ).map_values(|c: char| acute_fold(c)).push(acute_fold(c)));
        j += 1;
    }
    assert(raw@.take(raw.len() as int) =~= raw@);
    let ghost folded = chars@;

    let mut out: Vec<char> = Vec::new();
    let mut i: usize = 0;
    assert(folded.skip(0) =~= folded);
    while i < chars.len()
        invariant
            i <= chars.len(),
            chars@ == folded,
            out@ + digraph_pass(folded.skip(i as int), if out.len() == 0 {
                None
            } else {
                Some(out@.last())
            }) == digraph_pass(folded, None),
        decreases chars.len() - i,
    {
        let ghost rest = folded.skip(i as int);
        let ghost prev = if out.len() == 0 { None } else { Some(out@.last()) };
        let n = chars.len();
        let c0 = chars[i];
        let c1 = if n - i > 1 { Some(chars[i + 1]) } else { None };
        let c2 = if n - i > 2 { Some(chars[i + 2]) } else { None };
        let onset = onset_boundary(last_written(&out));
        assert(rest.len() == n - i);
        assert(rest[0] == c0);
        assert(i + 1 < n ==> rest[1] == chars@[i + 1]);
        assert(i + 2 < n ==> rest[2] == chars@[i + 2]);
        if c0 == 'c' && c1 == Some('h') && c2 == Some('i') {
            assert(rest.skip(3) =~= folded.skip(i + 3));
            out.push('c');
            out.push('i');
            assert(out@.last() == 'i');
            i += 3;
        } else if c0 == 's' && c1 == Some('h') && c2 == Some('i') && onset {
            assert(rest.skip(3) =~= folded.skip(i + 3));
            out.push('s');
            out.push('i');
            i += 3;
        } else if c0 == 'c' && c1 == Some('h') {
            assert(rest.skip(2) =~= folded.skip(i + 2));
            out.push('c');
            i += 2;
        } else if c0 == 't' && c1 == Some('i') && onset {
            assert(rest.skip(2) =~= folded.skip(i + 2));
            out.push('c');
            out.push('i');
            i += 2;
        } else if c0 == 'f' && c1 == Some('u') {
            assert(rest.skip(2) =~= folded.skip(i + 2));
            out.push('h');
            out.push('u');
            i += 2;
        } else {
            assert(rest.skip(1) =~= folded.skip(i + 1));
            out.push(c0);
            i += 1;
        }
    }
    assert(folded.skip(i as int) =~= Seq::<char>::empty());
    string_of(&out)
}

/// Normalize a raw buffer into canonical romaji: full Unicode lowercase,
/// then [`normalize_lowered`].
pub fn normalize(romaji: &str) -> (res: String)
    ensures
        res@ == spec_normalize(romaji@),
{
    let lowered = lowercase(romaji);
    normalize_lowered(lowered.as_str())
}


/// How many times `ch` occurs in `s`.
pub open spec fn count_of(s: Seq<char>, ch: char) -> nat
    decreases s.len(),
{
    if s.len() == 0 {
        0
    } else {
        (if s[0] == ch { 1nat } else { 0nat }) + count_of(s.skip(1), ch)
    }
}

/// A character that the digraph pass may add or remove.
pub open spec fn digraph_letter(c: char) -> bool {
    c == 'c' || c == 'h' || c == 's' || c == 't' || c == 'f' || c == 'i' || c == 'u'
}

/// A long vowel in any of its spellings (macron, circumflex, acute).
pub open spec fn long_vowel_letter(c: char) -> bool {
    long_vowel_acute(c) is Some || c == 'á' || c == 'í' || c == 'ú' || c == 'é' || c == 'ó'
}

/// `s` holds a legacy digraph start (`ch`, `sh`, `ti` or `fu`) at `k`.
pub open spec fn legacy_pair_at(s: Seq<char>, k: int) -> bool {
    0 <= k < s.len() - 1 && ((s[k] == 'c' && s[k + 1] == 'h') || (s[k] == 's' && s[k + 1] == 'h')
        || (s[k] == 't' && s[k + 1] == 'i') || (s[k] == 'f' && s[k + 1] == 'u'))
}

/// Text holds a legacy digraph start: `ch`, `sh`, `ti` or `fu`.
pub open spec fn has_legacy_pair(s: Seq<char>) -> bool {
    exists|k: int| #[trigger] legacy_pair_at(s, k)
}

proof fn lemma_count_concat(a: Seq<char>, b: Seq<char>, ch: char)
    ensures
        count_of(a + b, ch) == count_of(a, ch) + count_of(b, ch),
    decreases a.len(),
{
    if a.len() > 0 {
        assert((a + b).skip(1) =~= a.skip(1) + b);
        lemma_count_concat(a.skip(1), b, ch);
    } else {
        assert(a + b =~= b);
    }
}

proof fn lemma_pass_shape(s: Seq<char>, prev: Option<char>)
    ensures
        digraph_pass(s, prev).len() <= s.len(),
        forall|k: int|
            0 <= k < digraph_pass(s, prev).len() ==> (digraph_letter(
                #[trigger] digraph_pass(s, prev)[k],
            ) || s.contains(digraph_pass(s, prev)[k])),
    decreases s.len(),
{
    if s.len() > 0 {
        let out = digraph_pass(s, prev);
        if s.len() >= 3 && s[0] == 'c' && s[1] == 'h' && s[2] == 'i' {
            lemma_pass_shape(s.skip(3), Some('i'));
            assert forall|k: int| 0 <= k < out.len() implies (digraph_letter(#[trigger] out[k])
                || s.contains(out[k])) by {
                if k >= 2 {
                    let t = digraph_pass(s.skip(3), Some('i'));
                    assert(out[k] == t[k - 2]);
                    if !digraph_letter(out[k]) {
                        let j = choose|j: int| 0 <= j < s.skip(3).len() && s.skip(3)[j] == t[k - 2];
                        assert(s[j + 3] == out[k]);
                    }
                }
            }
        } else if s.len() >= 3 && s[0] == 's' && s[1] == 'h' && s[2] == 'i' && onset_after(prev) {
            lemma_pass_shape(s.skip(3), Some('i'));
            assert forall|k: int| 0 <= k < out.len() implies (digraph_letter(#[trigger] out[k])
                || s.contains(out[k])) by {
                if k >= 2 {
                    let t = digraph_pass(s.skip(3), Some('i'));
                    assert(out[k] == t[k - 2]);
                    if !digraph_letter(out[k]) {
                        let j = choose|j: int| 0 <= j < s.skip(3).len() && s.skip(3)[j] == t[k - 2];
                        assert(s[j + 3] == out[k]);
                    }
                }
            }
        } else if s.len() >= 2 && s[0] == 'c' && s[1] == 'h' {
            lemma_pass_shape(s.skip(2), Some('c'));
            assert forall|k: int| 0 <= k < out.len() implies (digraph_letter(#[trigger] out[k])
                || s.contains(out[k])) by {
                if k >= 1 {
                    let t = digraph_pass(s.skip(2), Some('c'));
                    assert(out[k] == t[k - 1]);
                    if !digraph_letter(out[k]) {
                        let j = choose|j: int| 0 <= j < s.skip(2).len() && s.skip(2)[j] == t[k - 1];
                        assert(s[j + 2] == out[k]);
                    }
                }
            }
        } else if s.len() >= 2 && s[0] == 't' && s[1] == 'i' && onset_after(prev) {
            lemma_pass_shape(s.skip(2), Some('i'));
            assert forall|k: int| 0 <= k < out.len() implies (digraph_letter(#[trigger] out[k])
                || s.contains(out[k])) by {
                if k >= 2 {
                    let t = digraph_pass(s.skip(2), Some('i'));
                    assert(out[k] == t[k - 2]);
                    if !digraph_letter(out[k]) {
                        let j = choose|j: int| 0 <= j < s.skip(2).len() && s.skip(2)[j] == t[k - 2];
                        assert(s[j + 2] == out[k]);
                    }
                }
            }
        } else if s.len() >= 2 && s[0] == 'f' && s[1] == 'u' {
            lemma_pass_shape(s.skip(2), Some('u'));
            assert forall|k: int| 0 <= k < out.len() implies (digraph_letter(#[trigger] out[k])
                || s.contains(out[k])) by {
                if k >= 2 {
                    let t = digraph_pass(s.skip(2), Some('u'));
                    assert(out[k] == t[k - 2]);
                    if !digraph_letter(out[k]) {
                        let j = choose|j: int| 0 <= j < s.skip(2).len() && s.skip(2)[j] == t[k - 2];
                        assert(s[j + 2] == out[k]);
                    }
                }
            }
        } else {
            lemma_pass_shape(s.skip(1), Some(s[0]));
            assert forall|k: int| 0 <= k < out.len() implies (digraph_letter(#[trigger] out[k])
                || s.contains(out[k])) by {
                if k == 0 {
                    assert(s[0] == out[0]);
                } else {
                    let t = digraph_pass(s.skip(1), Some(s[0]));
                    assert(out[k] == t[k - 1]);
                    if !digraph_letter(out[k]) {
                        let j = choose|j: int| 0 <= j < s.skip(1).len() && s.skip(1)[j] == t[k - 1];
                        assert(s[j + 1] == out[k]);
                    }
                }
            }
        }
    }
}

proof fn lemma_count_absent(s: Seq<char>, ch: char)
    requires
        forall|k: int| 0 <= k < s.len() ==> s[k] != ch,
    ensures
        count_of(s, ch) == 0,
    decreases s.len(),
{
    if s.len() > 0 {
        assert forall|k: int| 0 <= k < s.skip(1).len() implies s.skip(1)[k] != ch by {
            assert(s.skip(1)[k] == s[k + 1]);
        }
        lemma_count_absent(s.skip(1), ch);
    }
}

proof fn lemma_count_split(s: Seq<char>, n: int, ch: char)
    requires
        0 <= n <= s.len(),
    ensures
        count_of(s, ch) == count_of(s.take(n), ch) + count_of(s.skip(n), ch),
{
    lemma_count_concat(s.take(n), s.skip(n), ch);
    assert(s.take(n) + s.skip(n) =~= s);
}

/// One step of the pass: `head` replaces the first `n` input characters.
proof fn lemma_pass_step_counts(s: Seq<char>, n: int, head: Seq<char>, tail: Seq<char>, ch: char)
    requires
        0 < n <= s.len(),
        !digraph_letter(ch),
        forall|k: int| 0 <= k < n ==> digraph_letter(#[trigger] s[k]),
        forall|k: int| 0 <= k < head.len() ==> digraph_letter(#[trigger] head[k]),
        count_of(tail, ch) == count_of(s.skip(n), ch),
    ensures
        count_of(head + tail, ch) == count_of(s, ch),
{
    lemma_count_concat(head, tail, ch);
    lemma_count_absent(head, ch);
    lemma_count_split(s, n, ch);
    assert forall|k: int| 0 <= k < s.take(n).len() implies s.take(n)[k] != ch by {
        assert(digraph_letter(s[k]));
    }
    lemma_count_absent(s.take(n), ch);
}

proof fn lemma_pass_counts(s: Seq<char>, prev: Option<char>, ch: char)
    requires
        !digraph_letter(ch),
    ensures
        count_of(digraph_pass(s, prev), ch) == count_of(s, ch),
    decreases s.len(),
{
    if s.len() > 0 {
        if s.len() >= 3 && s[0] == 'c' && s[1] == 'h' && s[2] == 'i' {
            lemma_pass_counts(s.skip(3), Some('i'), ch);
            let head = seq!['c', 'i'];
            assert(digraph_letter(head[0]) && digraph_letter(head[1]));
            assert(digraph_letter(s[0]) && digraph_letter(s[1]) && digraph_letter(s[2]));
            lemma_pass_step_counts(s, 3, head, digraph_pass(s.skip(3), Some('i')), ch);
        } else if s.len() >= 3 && s[0] == 's' && s[1] == 'h' && s[2] == 'i' && onset_after(prev) {
            lemma_pass_counts(s.skip(3), Some('i'), ch);
            let head = seq!['s', 'i'];
            assert(digraph_letter(head[0]) && digraph_letter(head[1]));
            assert(digraph_letter(s[0]) && digraph_letter(s[1]) && digraph_letter(s[2]));
            lemma_pass_step_counts(s, 3, head, digraph_pass(s.skip(3), Some('i')), ch);
        } else if s.len() >= 2 && s[0] == 'c' && s[1] == 'h' {
            lemma_pass_counts(s.skip(2), Some('c'), ch);
            let head = seq!['c'];
            assert(digraph_letter(head[0]));
            assert(digraph_letter(s[0]) && digraph_letter(s[1]));
            lemma_pass_step_counts(s, 2, head, digraph_pass(s.skip(2), Some('c')), ch);
        } else if s.len() >= 2 && s[0] == 't' && s[1] == 'i' && onset_after(prev) {
            lemma_pass_counts(s.skip(2), Some('i'), ch);
            let head = seq!['c', 'i'];
            assert(digraph_letter(head[0]) && digraph_letter(head[1]));
            assert(digraph_letter(s[0]) && digraph_letter(s[1]));
            lemma_pass_step_counts(s, 2, head, digraph_pass(s.skip(2), Some('i')), ch);
        } else if s.len() >= 2 && s[0] == 'f' && s[1] == 'u' {
            lemma_pass_counts(s.skip(2), Some('u'), ch);
            let head = seq!['h', 'u'];
            assert(digraph_letter(head[0]) && digraph_letter(head[1]));
            assert(digraph_letter(s[0]) && digraph_letter(s[1]));
            lemma_pass_step_counts(s, 2, head, digraph_pass(s.skip(2), Some('u')), ch);
        } else {
            lemma_pass_counts(s.skip(1), Some(s[0]), ch);
            lemma_count_concat(seq![s[0]], digraph_pass(s.skip(1), Some(s[0])), ch);
            assert(seq![s[0]].skip(1) =~= Seq::<char>::empty());
            assert(count_of(seq![s[0]].skip(1), ch) == 0);
            assert(seq![s[0]][0] == s[0]);
            assert(count_of(seq![s[0]], ch) == (if s[0] == ch { 1nat } else { 0nat }));
        }
    }
}

proof fn lemma_fold_counts(s: Seq<char>, ch: char)
    requires
        !long_vowel_letter(ch),
    ensures
        count_of(s.map_values(|c: char| acute_fold(c)), ch) == count_of(s, ch),
    decreases s.len(),
{
    if s.len() > 0 {
        let m = s.map_values(|c: char| acute_fold(c));
        assert(m.skip(1) =~= s.skip(1).map_values(|c: char| acute_fold(c)));
        lemma_fold_counts(s.skip(1), ch);
    }
}

proof fn lemma_pass_identity(s: Seq<char>, prev: Option<char>)
    requires
        !has_legacy_pair(s),
    ensures
        digraph_pass(s, prev) == s,
    decreases s.len(),
{
    if s.len() > 0 {
        if s.len() >= 2 {
            assert(!legacy_pair_at(s, 0));
        }
        assert(!has_legacy_pair(s.skip(1))) by {
            if has_legacy_pair(s.skip(1)) {
                let k = choose|k: int| #[trigger] legacy_pair_at(s.skip(1), k);
                assert(s[k + 1] == s.skip(1)[k] && s[k + 2] == s.skip(1)[k + 1]);
                assert(legacy_pair_at(s, k + 1));
            }
        }
        lemma_pass_identity(s.skip(1), Some(s[0]));
        assert(seq![s[0]] + s.skip(1) =~= s);
    }
}

/// Normalization never lengthens the text and leaves no macron or
/// circumflex vowel behind: every long vowel reaches the converter in its
/// acute spelling.
pub proof fn law_folded_text_has_no_macron_or_circumflex(lowered: Seq<char>)
    ensures
        fold_lowered(lowered).len() <= lowered.len(),
        forall|k: int|
            0 <= k < fold_lowered(lowered).len() ==> long_vowel_acute(
                #[trigger] fold_lowered(lowered)[k],
            ) is None,
{
    let m = lowered.map_values(|c: char| acute_fold(c));
    lemma_pass_shape(m, None);
    assert forall|k: int| 0 <= k < fold_lowered(lowered).len() implies long_vowel_acute(
        #[trigger] fold_lowered(lowered)[k],
    ) is None by {
        let c = fold_lowered(lowered)[k];
        if !digraph_letter(c) {
            let j = choose|j: int| 0 <= j < m.len() && m[j] == c;
            assert(m[j] == acute_fold(lowered[j]));
        }
    }
}

/// Only the digraph letters `c h s t f i u` and the long vowels are ever
/// rewritten: every other character — `n`, the codas, `’`, `'`, `=`, the
/// voiced letters — occurs in the normalized text exactly as often as in the
/// lowercased input.
pub proof fn law_other_letters_are_kept(lowered: Seq<char>, ch: char)
    requires
        !digraph_letter(ch),
        !long_vowel_letter(ch),
    ensures
        count_of(fold_lowered(lowered), ch) == count_of(lowered, ch),
{
    lemma_pass_counts(lowered.map_values(|c: char| acute_fold(c)), None, ch);
    lemma_fold_counts(lowered, ch);
}

/// Text already in canonical spelling — no `ch`, `sh`, `ti` or `fu` and no
/// macron or circumflex vowel — comes out unchanged.
pub proof fn law_canonical_text_is_unchanged(lowered: Seq<char>)
    requires
        !has_legacy_pair(lowered),
        forall|k: int| 0 <= k < lowered.len() ==> long_vowel_acute(#[trigger] lowered[k]) is None,
    ensures
        fold_lowered(lowered) == lowered,
{
    let m = lowered.map_values(|c: char| acute_fold(c));
    assert(m =~= lowered);
    lemma_pass_identity(lowered, None);
}

/// A lowercase ASCII consonant letter: a syllable coda before a seam.
pub open spec fn coda_letter(c: char) -> bool {
    'a' <= c <= 'z' && !(c == 'a' || c == 'i' || c == 'u' || c == 'e' || c == 'o')
}

/// Every legacy pair of `s` is a `ti` or `sh` right after a coda consonant
/// (`prev` standing before `s[0]`).
pub open spec fn only_seam_pairs(s: Seq<char>, prev: Option<char>) -> bool {
    forall|k: int|
        #[trigger] legacy_pair_at(s, k) ==> (s[k] == 't' || s[k] == 's') && (if k == 0 {
            prev matches Some(p) && coda_letter(p)
        } else {
            coda_letter(s[k - 1])
        })
}

proof fn lemma_seam_identity(s: Seq<char>, prev: Option<char>)
    requires
        only_seam_pairs(s, prev),
    ensures
        digraph_pass(s, prev) == s,
    decreases s.len(),
{
    if s.len() > 0 {
        if s.len() >= 2 && ((s[0] == 'c' && s[1] == 'h') || (s[0] == 'f' && s[1] == 'u') || (s[0]
            == 't' && s[1] == 'i') || (s[0] == 's' && s[1] == 'h')) {
            assert(legacy_pair_at(s, 0));
        }
        assert forall|k: int| #[trigger] legacy_pair_at(s.skip(1), k) implies (s.skip(1)[k] == 't'
            || s.skip(1)[k] == 's') && (if k == 0 {
            Some(s[0]) matches Some(p) && coda_letter(p)
        } else {
            coda_letter(s.skip(1)[k - 1])
        }) by {
            assert(legacy_pair_at(s, k + 1));
        }
        lemma_seam_identity(s.skip(1), Some(s[0]));
        assert(seq![s[0]] + s.skip(1) =~= s);
    }
}

/// A `ti` or `shi` across a coda–onset seam (`karti`, `masti`, `karshi`) is
/// never folded: text whose only legacy pairs are `ti` / `sh` right after a
/// consonant, with no macron or circumflex vowel, comes out unchanged.
pub proof fn law_coda_seam_is_kept(lowered: Seq<char>)
    requires
        only_seam_pairs(lowered, None),
        forall|k: int| 0 <= k < lowered.len() ==> long_vowel_acute(#[trigger] lowered[k]) is None,
    ensures
        fold_lowered(lowered) == lowered,
{
    let m = lowered.map_values(|c: char| acute_fold(c));
    assert(m =~= lowered);
    lemma_seam_identity(lowered, None);
}

/// `fu` is folded to `hu` wherever it stands — `f` is never a coda, so no
/// onset test applies: whatever was written before, a buffer starting with
/// `fu` starts its canonical spelling with `hu`, and the rest is folded as
/// after a vowel.
pub proof fn law_fu_becomes_hu_anywhere(t: Seq<char>, prev: Option<char>)
    ensures
        digraph_pass(seq!['f', 'u'] + t, prev) == seq!['h', 'u'] + digraph_pass(t, Some('u')),
{
    let s = seq!['f', 'u'] + t;
    assert(s[0] == 'f' && s[1] == 'u');
    assert(s.skip(2) =~= t);
}

} // verus!
