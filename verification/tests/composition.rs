use ainukey::composition::{Composer, Effect};
use ainukey::config::Orthography;
use ainukey::keys::Action;
use ainukey::suggest::Suggestions;

fn table() -> Suggestions {
    let mut b = Vec::new();
    b.extend(b"AKNG");
    b.extend(2u32.to_le_bytes());
    let uni = [("kamuy", 1000u32), ("kamui", 400)];
    b.extend((uni.len() as u32).to_le_bytes());
    for (w, c) in uni {
        b.push(w.len() as u8);
        b.extend(w.as_bytes());
        b.extend(c.to_le_bytes());
    }
    Suggestions::load(&b).expect("table")
}

fn typed(c: &mut Composer, s: &str, t: Option<&Suggestions>) -> Effect {
    let o = Orthography::default();
    let mut last = Effect::Nothing;
    for ch in s.chars() {
        last = c.step(Action::Insert(ch), t, 9, &o);
    }
    last
}

#[test]
fn typing_shows_preedit_and_commit_inserts_katakana() {
    let o = Orthography::default();
    let mut c = Composer::new();
    assert_eq!(c.step(Action::Insert('k'), None, 9, &o), Effect::StartPreedit("k".to_string()));
    assert_eq!(typed(&mut c, "amuy", None), Effect::Preedit("カムイ".to_string()));
    assert!(c.has_composition());
    assert_eq!(c.step(Action::Commit, None, 9, &o), Effect::Commit("カムイ".to_string()));
    assert!(!c.has_composition());
    assert_eq!(c.last_committed(), Some("kamuy"));
    assert_eq!(c.step(Action::Commit, None, 9, &o), Effect::Nothing);
}

#[test]
fn forgiving_input_is_normalized() {
    let o = Orthography::default();
    let mut c = Composer::new();
    assert_eq!(typed(&mut c, "Chise", None), Effect::Preedit("チセ".to_string()));
    assert_eq!(c.step(Action::Commit, None, 9, &o), Effect::Commit("チセ".to_string()));
    assert_eq!(c.last_committed(), Some("cise"));
}

#[test]
fn backspace_and_cancel() {
    let o = Orthography::default();
    let mut c = Composer::new();
    typed(&mut c, "ka", None);
    assert_eq!(c.step(Action::Backspace, None, 9, &o), Effect::Preedit("k".to_string()));
    assert_eq!(c.step(Action::Backspace, None, 9, &o), Effect::Cancel);
    assert!(!c.has_composition());
    assert_eq!(c.step(Action::Backspace, None, 9, &o), Effect::Nothing);
    typed(&mut c, "pon", None);
    assert_eq!(c.step(Action::Cancel, None, 9, &o), Effect::Cancel);
    assert_eq!(c.last_committed(), None);
}

#[test]
fn candidates_select_and_commit() {
    let o = Orthography::default();
    let t = table();
    let mut c = Composer::new();
    typed(&mut c, "kam", Some(&t));
    assert_eq!(c.candidates().items(), &["kam".to_string(), "kamuy".to_string(), "kamui".to_string()]);
    assert_eq!(c.candidate_display(&o), vec!["カ".to_string() + "ㇺ", "カムイ".to_string(), "カムイ".to_string()]);
    assert_eq!(c.step(Action::SelectNext, Some(&t), 9, &o), Effect::ShowCandidates);
    assert_eq!(c.candidates().selected(), 1);
    assert_eq!(c.step(Action::SelectPrev, Some(&t), 9, &o), Effect::ShowCandidates);
    assert_eq!(c.step(Action::SelectIndex(7), Some(&t), 9, &o), Effect::Nothing);
    assert_eq!(c.step(Action::SelectIndex(2), Some(&t), 9, &o), Effect::Commit("カムイ".to_string()));
    assert_eq!(c.last_committed(), Some("kamui"));
    typed(&mut c, "a", Some(&t));
    c.step(Action::Commit, Some(&t), 9, &o);
    assert_eq!(c.prev_committed(), Some("kamui"));
    assert_eq!(c.last_committed(), Some("a"));
}

#[test]
fn terminated_drops_buffer() {
    let mut c = Composer::new();
    typed(&mut c, "ka", None);
    c.terminated();
    assert!(!c.has_composition());
    assert!(c.candidates().is_empty());
}

#[test]
fn smoke_checklist_words() {
    let o = Orthography::default();
    for (typed_text, kana) in [("ti", "チ"), ("chise", "チセ"), ("aynu", "アイヌ"), ("kamuy", "カムイ")] {
        let mut c = Composer::new();
        typed(&mut c, typed_text, None);
        assert_eq!(c.step(Action::Commit, None, 9, &o), Effect::Commit(kana.to_string()));
    }
}

#[test]
fn typed_word_commits_itself_even_with_completions() {
    let o = Orthography::default();
    let t = table();
    let mut c = Composer::new();
    typed(&mut c, "kam", Some(&t));
    assert_eq!(c.candidates().selected(), 0);
    assert_eq!(c.step(Action::Commit, Some(&t), 9, &o), Effect::Commit("カ".to_string() + "ㇺ"));
    assert_eq!(c.last_committed(), Some("kam"));
}
