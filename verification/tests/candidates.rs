use ainukey::candidates::CandidateList;
use ainukey::suggest::Suggestions;

/// A small synthetic table: unigrams kamuy/kamui/kane/kar (so `kam`/`ka`
/// have completions).
fn suggest() -> Suggestions {
    let mut b = Vec::new();
    b.extend(b"AKNG");
    b.extend(2u32.to_le_bytes()); // version
    let uni = [
        ("kamuy", 1000u32),
        ("kamui", 400),
        ("kane", 300),
        ("kar", 200),
    ];
    b.extend((uni.len() as u32).to_le_bytes());
    for (w, c) in uni {
        b.push(w.len() as u8);
        b.extend(w.as_bytes());
        b.extend(c.to_le_bytes());
    }
    b.extend(0u32.to_le_bytes()); // no bigrams
    b.extend(0u32.to_le_bytes()); // no trigrams
    Suggestions::load(&b).expect("synth")
}

#[test]
fn typed_word_is_first_then_completions() {
    let s = suggest();
    let c = CandidateList::build("kam", &s, 8);
    assert_eq!(c.items()[0], "kam"); // the typed word
    assert!(c.items().contains(&"kamuy".to_string()));
    assert!(c.items().contains(&"kamui".to_string()));
    // 'kane'/'kar' do not start with 'kam', so are excluded.
    assert!(!c.items().contains(&"kane".to_string()));
}

#[test]
fn dedups_typed_word_against_completion() {
    let s = suggest();
    // 'kamuy' is both the typed word and a known unigram; it appears once.
    let c = CandidateList::build("kamuy", &s, 8);
    assert_eq!(c.items().iter().filter(|w| *w == "kamuy").count(), 1);
    assert_eq!(c.items()[0], "kamuy");
}

#[test]
fn respects_max() {
    let s = suggest();
    let c = CandidateList::build("ka", &s, 2);
    assert_eq!(c.len(), 2);
}

#[test]
fn empty_word_is_empty_list() {
    let s = suggest();
    assert!(CandidateList::build("", &s, 8).is_empty());
}

#[test]
fn selection_wraps_and_indexes() {
    let s = suggest();
    let mut c = CandidateList::build("ka", &s, 8);
    let n = c.len();
    assert_eq!(c.selected(), 0);
    c.select_prev();
    assert_eq!(c.selected(), n - 1); // wrap up from 0
    c.select_next();
    assert_eq!(c.selected(), 0); // wrap back down
    assert!(c.select_index(n - 1));
    assert_eq!(c.current(), Some(c.items()[n - 1].as_str()));
    assert!(!c.select_index(n)); // out of range
}

#[test]
fn highlight_stays_on_a_candidate() {
    let s = suggest();
    let mut c = CandidateList::build("ka", &s, 8);
    for step in 0..20 {
        match step % 3 {
            0 => c.select_next(),
            1 => c.select_prev(),
            _ => {
                c.select_index(step);
            }
        }
        assert!(c.selected() < c.len());
        assert!(c.current().is_some());
    }
    let e = CandidateList::default();
    assert_eq!(e.selected(), 0);
    assert!(e.current().is_none());
}
