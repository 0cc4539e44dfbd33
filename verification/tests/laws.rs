//! Concrete instances of the library's proved laws.

use ainukey::candidates::CandidateList;
use ainukey::kana::convert;
use ainukey::romaji::{normalize, normalize_lowered};
use ainukey::suggest::Suggestions;

#[test]
fn canonical_word_goes_to_converter_whole() {
    for w in ["aynu", "irankarapte", "kamuy", "ne\u{2019}"] {
        let expect = ainconv::convert_latn_to_kana(&w.replace('\u{2019}', "'"));
        assert_eq!(convert(w), expect, "{w}");
    }
}

#[test]
fn vowelless_text_is_verbatim() {
    for w in ["k", "ng", "tsk", "'", "\u{2019}"] {
        assert_eq!(convert(w), w);
    }
}

#[test]
fn normalized_text_has_no_macron_or_circumflex() {
    let out = normalize_lowered("kāni tâne pōro sîno");
    assert_eq!(out, "káni táne póro síno");
    assert!(!out.chars().any(|c| "āīūēōâîûêô".contains(c)));
    assert!(normalize("KĀNI").chars().count() <= "KĀNI".chars().count());
}

#[test]
fn other_letters_are_kept() {
    let input = "satsuwe ponno a=ti poro'an poro\u{2019}an karshi";
    let out = normalize_lowered(input);
    for ch in ['n', '=', '\'', '\u{2019}', 'w', 'e', 'r', 'k', 'a', 'o', 'p', ' '] {
        assert_eq!(out.matches(ch).count(), input.matches(ch).count(), "{ch}");
    }
}

#[test]
fn canonical_text_is_unchanged() {
    for w in ["huci", "cise", "cikuni", "kamuy", "cep", "sisam", "eyaykosiramsuypa", "satsuwe"] {
        assert_eq!(normalize_lowered(w), w);
    }
}

#[test]
fn whitespace_is_an_onset_boundary() {
    assert_eq!(normalize("a ti"), "a ci");
    assert_eq!(normalize("a\tshi"), "a\tsi");
    assert_eq!(normalize("at i"), "at i");
}

#[test]
fn candidate_shape_and_selection_round_trip() {
    let mut b = Vec::new();
    b.extend(b"AKNG");
    b.extend(2u32.to_le_bytes());
    let uni = [("pon", 3u32), ("ponno", 9), ("pone", 9), ("kar", 4)];
    b.extend((uni.len() as u32).to_le_bytes());
    for (w, c) in uni {
        b.push(w.len() as u8);
        b.extend(w.as_bytes());
        b.extend(c.to_le_bytes());
    }
    let s = Suggestions::load(&b).unwrap();
    let c = CandidateList::build("pon", &s, 3);
    assert_eq!(c.items(), &["pon".to_string(), "ponno".to_string(), "pone".to_string()]);
    let c0 = CandidateList::build("pon", &s, 0);
    assert_eq!(c0.items(), &["pon".to_string()]);
    let mut c = CandidateList::build("pon", &s, 9);
    assert_eq!(c.len(), 3);
    for start in 0..c.len() {
        assert!(c.select_index(start));
        c.select_next();
        c.select_prev();
        assert_eq!(c.selected(), start);
        c.select_prev();
        c.select_next();
        assert_eq!(c.selected(), start);
    }
    let mut e = CandidateList::default();
    e.select_next();
    assert_eq!(e.current(), None);
}
