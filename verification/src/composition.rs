//! The composition state machine: what each decoded key does to the romaji
//! buffer, the candidate list and the committed-word history, and which edit
//! the host must then perform on the document (start / update the preedit,
//! commit text, cancel, re-show the candidates).
//!
//! The preedit shows the katakana of the normalized buffer; a commit inserts
//! the katakana of the highlighted candidate, or of the normalized buffer when
//! there are no candidates.

use vstd::prelude::*;

use crate::candidates::{candidate_items, next_index, prev_index, CandidateList};
use crate::config::Orthography;
use crate::kana::{convert_with, spec_convert_with};
use crate::keys::Action;
use crate::romaji::{normalize, spec_normalize};
use crate::suggest::{Entry, Suggestions};
use crate::text::string_of;

verus! {

/// The edit the host performs after a step.
#[derive(Debug, Clone, PartialEq, Eq)]
pub enum Effect {
    /// Nothing to do.
    Nothing,
    /// Start a composition and show this preedit (then the candidates).
    StartPreedit(String),
    /// Replace the preedit (then show the candidates).
    Preedit(String),
    /// Insert this text, end the composition and hide the candidates.
    Commit(String),
    /// Clear the preedit, end the composition and hide the candidates.
    Cancel,
    /// The highlight moved: show the candidates again.
    ShowCandidates,
}

/// An [`Effect`] as plain values.
pub enum EffectView {
    Nothing,
    StartPreedit(Seq<char>),
    Preedit(Seq<char>),
    Commit(Seq<char>),
    Cancel,
    ShowCandidates,
}

/// The plain values of an effect.
pub open spec fn effect_view(e: Effect) -> EffectView {
    match e {
        Effect::Nothing => EffectView::Nothing,
        Effect::StartPreedit(s) => EffectView::StartPreedit(s@),
        Effect::Preedit(s) => EffectView::Preedit(s@),
        Effect::Commit(s) => EffectView::Commit(s@),
        Effect::Cancel => EffectView::Cancel,
        Effect::ShowCandidates => EffectView::ShowCandidates,
    }
}

/// The state of a composer as plain values.
pub struct ComposerState {
    /// The romaji typed so far.
    pub buffer: Seq<char>,
    /// A composition is live in the document.
    pub composing: bool,
    /// The candidate words.
    pub words: Seq<Seq<char>>,
    /// The highlighted candidate.
    pub highlight: nat,
    /// The last committed word.
    pub last: Option<Seq<char>>,
    /// The word committed before that.
    pub prev: Option<Seq<char>>,
}

/// The empty composition, keeping the committed-word history.
pub open spec fn cleared(st: ComposerState) -> ComposerState {
    ComposerState {
        buffer: seq![],
        composing: false,
        words: seq![],
        highlight: 0,
        last: st.last,
        prev: st.prev,
    }
}

/// The candidates for a buffer: none without a completion table.
pub open spec fn buffer_candidates(buffer: Seq<char>, table: Option<Seq<Entry>>, max: nat) -> Seq<
    Seq<char>,
> {
    match table {
        Some(t) => candidate_items(spec_normalize(buffer), t, max),
        None => seq![],
    }
}

/// The word a commit inserts: the highlighted candidate, or the normalized
/// buffer when there is none.
pub open spec fn chosen_word(st: ComposerState) -> Seq<char> {
    if st.words.len() > 0 {
        st.words[st.highlight as int]
    } else {
        spec_normalize(st.buffer)
    }
}

/// The state after the buffer became `buffer` (composition live).
pub open spec fn edited(st: ComposerState, buffer: Seq<char>, table: Option<Seq<Entry>>, max: nat) -> ComposerState {
    ComposerState {
        buffer,
        composing: true,
        words: buffer_candidates(buffer, table, max),
        highlight: 0,
        last: st.last,
        prev: st.prev,
    }
}

/// Commit: the text inserted and the resulting state.
pub open spec fn committed(st: ComposerState, o: Orthography) -> (ComposerState, EffectView) {
    if !st.composing {
        (st, EffectView::Nothing)
    } else {
        let w = chosen_word(st);
        (
            ComposerState {
                buffer: seq![],
                composing: false,
                words: seq![],
                highlight: 0,
                last: Some(w),
                prev: st.last,
            },
            EffectView::Commit(spec_convert_with(w, o)),
        )
    }
}

/// Cancel: the resulting state and edit.
pub open spec fn cancelled(st: ComposerState) -> (ComposerState, EffectView) {
    if !st.composing {
        (cleared(st), EffectView::Nothing)
    } else {
        (cleared(st), EffectView::Cancel)
    }
}

/// One step of the state machine.
pub open spec fn spec_step(
    st: ComposerState,
    action: Action,
    table: Option<Seq<Entry>>,
    max: nat,
    o: Orthography,
) -> (ComposerState, EffectView) {
    match action {
        Action::Insert(c) => {
            let b = st.buffer.push(c);
            let p = spec_convert_with(spec_normalize(b), o);
            (
                edited(st, b, table, max),
                if st.buffer.len() == 0 {
                    EffectView::StartPreedit(p)
                } else {
                    EffectView::Preedit(p)
                },
            )
        },
        Action::Backspace => {
            let b = if st.buffer.len() == 0 { st.buffer } else { st.buffer.drop_last() };
            if b.len() == 0 {
                cancelled(st)
            } else {
                (edited(st, b, table, max), EffectView::Preedit(spec_convert_with(spec_normalize(b), o)))
            }
        },
        Action::Commit => committed(st, o),
        Action::Cancel => cancelled(st),
        Action::SelectNext => (
            ComposerState { highlight: next_index(st.highlight, st.words.len()), ..st },
            EffectView::ShowCandidates,
        ),
        Action::SelectPrev => (
            ComposerState { highlight: prev_index(st.highlight, st.words.len()), ..st },
            EffectView::ShowCandidates,
        ),
        Action::SelectIndex(i) => if i < st.words.len() {
            committed(ComposerState { highlight: i as nat, ..st }, o)
        } else {
            (st, EffectView::Nothing)
        },
        Action::Passthrough => (st, EffectView::Nothing),
    }
}

/// The composition driver's state.
pub struct Composer {
    buffer: Vec<char>,
    composing: bool,
    candidates: CandidateList,
    last_committed: Option<String>,
    prev_committed: Option<String>,
}

/// An optional string as plain values.
pub open spec fn opt_view(o: Option<String>) -> Option<Seq<char>> {
    match o {
        Some(s) => Some(s@),
        None => None,
    }
}

impl Composer {
    /// The state as plain values.
    pub closed spec fn state(&self) -> ComposerState {
        ComposerState {
            buffer: self.buffer@,
            composing: self.composing,
            words: self.candidates.words(),
            highlight: self.candidates.highlight(),
            last: opt_view(self.last_committed),
            prev: opt_view(self.prev_committed),
        }
    }

    /// Consistency: a composition is live exactly while the buffer is not
    /// empty, and the highlight lies on a candidate.
    pub closed spec fn wf(&self) -> bool {
        &&& self.composing == (self.buffer@.len() > 0)
        &&& self.candidates.wf()
    }

    /// A composer with nothing typed and nothing committed.
    pub fn new() -> (res: Self)
        ensures
            res.wf(),
            res.state().buffer.len() == 0,
            !res.state().composing,
            res.state().words.len() == 0,
            res.state().last is None,
            res.state().prev is None,
    {
        Composer {
            buffer: Vec::new(),
            composing: false,
            candidates: CandidateList::empty(),
            last_committed: None,
            prev_committed: None,
        }
    }

    /// A composition is live.
    pub fn has_composition(&self) -> (res: bool)
        requires
            self.wf(),
        ensures
            res == self.state().composing,
            res == (self.state().buffer.len() > 0),
    {
        self.buffer.len() > 0
    }

    /// The candidate list.
    pub fn candidates(&self) -> (res: &CandidateList)
        ensures
            res.words() == self.state().words,
            res.highlight() == self.state().highlight,
    {
        &self.candidates
    }

    /// The last committed word (context for the next word).
    pub fn last_committed(&self) -> (res: Option<&str>)
        ensures
            match res {
                Some(s) => self.state().last == Some(s@),
                None => self.state().last is None,
            },
    {
        match &self.last_committed {
            Some(s) => Some(s.as_str()),
            None => None,
        }
    }

    /// The word committed before the last one.
    pub fn prev_committed(&self) -> (res: Option<&str>)
        ensures
            match res {
                Some(s) => self.state().prev == Some(s@),
                None => self.state().prev is None,
            },
    {
        match &self.prev_committed {
            Some(s) => Some(s.as_str()),
            None => None,
        }
    }

    fn clear(&mut self)
        ensures
            final(self).state() == cleared(old(self).state()),
            final(self).wf(),
    {
        self.buffer.clear();
        self.composing = false;
        self.candidates = CandidateList::empty();
    }

    /// The preedit and candidates after a buffer edit.
    fn refresh(&mut self, suggest: Option<&Suggestions>, max: usize, ortho: &Orthography) -> (res: String)
        requires
            old(self).buffer@.len() > 0,
            old(self).candidates.wf(),
            suggest matches Some(s) ==> s.wf(),
        ensures
            final(self).wf(),
            final(self).state() == edited(
                old(self).state(),
                old(self).buffer@,
                match suggest {
                    Some(s) => Some(s.entries()),
                    None => None,
                },
                max as nat,
            ),
            res@ == spec_convert_with(spec_normalize(old(self).buffer@), *ortho),
    {
        let raw = string_of(&self.buffer);
        let norm = normalize(raw.as_str());
        let preedit = convert_with(norm.as_str(), ortho);
        self.candidates = match suggest {
            Some(s) => CandidateList::build(norm.as_str(), s, max),
            None => CandidateList::empty(),
        };
        self.composing = true;
        preedit
    }

    fn commit(&mut self, ortho: &Orthography) -> (res: Effect)
        requires
            old(self).wf(),
        ensures
            final(self).wf(),
            (final(self).state(), effect_view(res)) == committed(old(self).state(), *ortho),
    {
        if !self.composing {
            return Effect::Nothing;
        }
        let chosen: String = match self.candidates.current() {
            Some(w) => w.to_owned(),
            None => {
                let raw = string_of(&self.buffer);
                normalize(raw.as_str())
            },
        };
        let text = convert_with(chosen.as_str(), ortho);
        self.clear();
        self.prev_committed = self.last_committed.take();
        self.last_committed = Some(chosen);
        Effect::Commit(text)
    }

    fn cancel(&mut self) -> (res: Effect)
        requires
            old(self).candidates.wf(),
        ensures
            final(self).wf(),
            (final(self).state(), effect_view(res)) == cancelled(old(self).state()),
    {
        let was = self.composing;
        self.clear();
        if was {
            Effect::Cancel
        } else {
            Effect::Nothing
        }
    }

    /// Apply a decoded action: mutate the buffer, candidates and history, and
    /// return the edit the host must perform. `suggest` is the completion
    /// table (none disables candidates) and `max` the most candidates shown.
    pub fn step(
        &mut self,
        action: Action,
        suggest: Option<&Suggestions>,
        max: usize,
        ortho: &Orthography,
    ) -> (res: Effect)
        requires
            old(self).wf(),
            suggest matches Some(s) ==> s.wf(),
        ensures
            final(self).wf(),
            (final(self).state(), effect_view(res)) == spec_step(
                old(self).state(),
                action,
                match suggest {
                    Some(s) => Some(s.entries()),
                    None => None,
                },
                max as nat,
                *ortho,
            ),
    {
        match action {
            Action::Insert(c) => {
                let start = self.buffer.len() == 0;
                self.buffer.push(c);
                let p = self.refresh(suggest, max, ortho);
                if start {
                    Effect::StartPreedit(p)
                } else {
                    Effect::Preedit(p)
                }
            },
            Action::Backspace => {
                self.buffer.pop();
                if self.buffer.len() == 0 {
                    self.cancel()
                } else {
                    let p = self.refresh(suggest, max, ortho);
                    Effect::Preedit(p)
                }
            },
            Action::Commit => self.commit(ortho),
            Action::Cancel => self.cancel(),
            Action::SelectNext => {
                self.candidates.select_next();
                Effect::ShowCandidates
            },
            Action::SelectPrev => {
                self.candidates.select_prev();
                Effect::ShowCandidates
            },
            Action::SelectIndex(i) => {
                if self.candidates.select_index(i) {
                    self.commit(ortho)
                } else {
                    Effect::Nothing
                }
            },
            Action::Passthrough => Effect::Nothing,
        }
    }

    /// The document ended the composition on its own: drop the buffer and the
    /// candidates, keep the history.
    pub fn terminated(&mut self)
        ensures
            final(self).wf(),
            final(self).state() == cleared(old(self).state()),
    {
        self.clear();
    }

    /// The candidates in katakana, for display.
    pub fn candidate_display(&self, ortho: &Orthography) -> (res: Vec<String>)
        ensures
            res@.len() == self.state().words.len(),
            forall|k: int|
                0 <= k < res@.len() ==> #[trigger] res@[k]@ == spec_convert_with(
                    self.state().words[k],
                    *ortho,
                ),
    {
        let items = self.candidates.items();
        let mut out: Vec<String> = Vec::new();
        let mut k: usize = 0;
        while k < items.len()
            invariant
                k <= items@.len(),
                items@.map_values(|s: String| s@) == self.state().words,
                out@.len() == k,
                forall|j: int|
                    0 <= j < k ==> #[trigger] out@[j]@ == spec_convert_with(
                        self.state().words[j],
                        *ortho,
                    ),
            decreases items@.len() - k,
        {
            let d = convert_with(items[k].as_str(), ortho);
            assert(self.state().words[k as int] == items@[k as int]@);
            out.push(d);
            k += 1;
        }
        out
    }
}


/// The state after typing the characters of `w` one after another.
pub open spec fn typed(
    st: ComposerState,
    w: Seq<char>,
    table: Option<Seq<Entry>>,
    max: nat,
    o: Orthography,
) -> ComposerState
    decreases w.len(),
{
    if w.len() == 0 {
        st
    } else {
        spec_step(typed(st, w.drop_last(), table, max, o), Action::Insert(w.last()), table, max, o).0
    }
}

proof fn lemma_typed(st: ComposerState, w: Seq<char>, table: Option<Seq<Entry>>, max: nat, o: Orthography)
    requires
        w.len() > 0,
    ensures
        typed(st, w, table, max, o) == edited(st, st.buffer + w, table, max),
    decreases w.len(),
{
    if w.len() == 1 {
        assert(w.drop_last() =~= Seq::<char>::empty());
        assert(st.buffer.push(w.last()) =~= st.buffer + w);
    } else {
        lemma_typed(st, w.drop_last(), table, max, o);
        assert((st.buffer + w.drop_last()).push(w.last()) =~= st.buffer + w);
    }
}

/// Typing a word into an empty composition and pressing Space (or Enter)
/// commits the katakana of the normalized word, whatever completion table is
/// in use: the highlight starts on the typed word itself, which is always the
/// first candidate.
pub proof fn law_typed_word_commits_its_katakana(
    st: ComposerState,
    w: Seq<char>,
    table: Option<Seq<Entry>>,
    max: nat,
    o: Orthography,
)
    requires
        st.buffer.len() == 0,
        w.len() > 0,
    ensures
        typed(st, w, table, max, o).buffer == w,
        typed(st, w, table, max, o).composing,
        spec_step(typed(st, w, table, max, o), Action::Commit, table, max, o).1 == EffectView::Commit(
            spec_convert_with(spec_normalize(w), o),
        ),
        spec_step(typed(st, w, table, max, o), Action::Commit, table, max, o).0.last == Some(
            spec_normalize(w),
        ),
{
    lemma_typed(st, w, table, max, o);
    assert(st.buffer + w =~= w);
    match table {
        Some(t) => {
            crate::candidates::law_candidates_shape(spec_normalize(w), t, max);
        },
        None => {},
    }
}

/// Backspace undoes a typed letter: the buffer returns to what it was and the
/// preedit shows its katakana again (or, if nothing was typed before, the
/// composition is cancelled).
pub proof fn law_backspace_undoes_insert(
    st: ComposerState,
    c: char,
    table: Option<Seq<Entry>>,
    max: nat,
    o: Orthography,
)
    ensures
        ({
            let (s1, _) = spec_step(st, Action::Insert(c), table, max, o);
            let (s2, e2) = spec_step(s1, Action::Backspace, table, max, o);
            &&& s2.buffer == st.buffer
            &&& s2.last == st.last && s2.prev == st.prev
            &&& st.buffer.len() > 0 ==> e2 == EffectView::Preedit(
                spec_convert_with(spec_normalize(st.buffer), o),
            ) && s2.composing
            &&& st.buffer.len() == 0 ==> e2 == EffectView::Cancel && !s2.composing
        }),
{
    assert(st.buffer.push(c).drop_last() =~= st.buffer);
}

/// A commit inserts the katakana of the highlighted candidate (or of the
/// normalized buffer when there is none), empties the composition, and shifts
/// the committed word into the history.
pub proof fn law_commit_inserts_chosen_word(st: ComposerState, table: Option<Seq<Entry>>, max: nat, o: Orthography)
    requires
        st.composing,
    ensures
        ({
            let (s1, e) = spec_step(st, Action::Commit, table, max, o);
            &&& e == EffectView::Commit(spec_convert_with(chosen_word(st), o))
            &&& s1.buffer.len() == 0 && !s1.composing && s1.words.len() == 0
            &&& s1.last == Some(chosen_word(st)) && s1.prev == st.last
        }),
{
}

/// Cancelling (or a stray commit / cancel with no composition) never touches
/// the committed-word history, and always leaves an empty composition.
pub proof fn law_cancel_keeps_history(st: ComposerState, table: Option<Seq<Entry>>, max: nat, o: Orthography)
    ensures
        ({
            let (s1, _) = spec_step(st, Action::Cancel, table, max, o);
            &&& s1.buffer.len() == 0 && !s1.composing && s1.words.len() == 0
            &&& s1.last == st.last && s1.prev == st.prev
        }),
        !st.composing ==> spec_step(st, Action::Commit, table, max, o) == (st, EffectView::Nothing),
{
}

/// Moving the highlight changes nothing but the highlight.
pub proof fn law_selection_moves_only_the_highlight(st: ComposerState, table: Option<Seq<Entry>>, max: nat, o: Orthography)
    ensures
        ({
            let (n, en) = spec_step(st, Action::SelectNext, table, max, o);
            let (p, ep) = spec_step(st, Action::SelectPrev, table, max, o);
            &&& n.buffer == st.buffer && n.composing == st.composing && n.words == st.words
            &&& p.buffer == st.buffer && p.composing == st.composing && p.words == st.words
            &&& n.last == st.last && p.last == st.last
            &&& en == EffectView::ShowCandidates && ep == EffectView::ShowCandidates
        }),
{
}
/// The arrows move the highlight one candidate, wrapping at the ends: Up
/// goes to the previous candidate (from the first to the last), Down to the
/// next (from the last to the first), so Down then Up — or Up then Down —
/// returns to the same candidate. Nothing else changes.
pub proof fn law_arrows_move_the_highlight(st: ComposerState, table: Option<Seq<Entry>>, max: nat, o: Orthography)
    requires
        st.words.len() > 0,
        st.highlight < st.words.len(),
    ensures
        ({
            let n = st.words.len();
            let up = spec_step(st, Action::SelectPrev, table, max, o).0;
            let down = spec_step(st, Action::SelectNext, table, max, o).0;
            &&& st.highlight == 0 ==> up.highlight == n - 1
            &&& st.highlight > 0 ==> up.highlight == st.highlight - 1
            &&& st.highlight == n - 1 ==> down.highlight == 0
            &&& st.highlight < n - 1 ==> down.highlight == st.highlight + 1
            &&& spec_step(down, Action::SelectPrev, table, max, o).0.highlight == st.highlight
            &&& spec_step(up, Action::SelectNext, table, max, o).0.highlight == st.highlight
        }),
{
    crate::candidates::law_next_and_prev_undo_each_other(st.highlight, st.words.len());
    let n = st.words.len();
    let h = st.highlight;
    if h == 0 {
        assert((h + n - 1) as int % (n as int) == n - 1) by (nonlinear_arith)
            requires
                h == 0,
                n > 0,
        ;
    } else {
        assert((h + n - 1) as int % (n as int) == h - 1) by (nonlinear_arith)
            requires
                0 < h < n,
        ;
    }
    if h == n - 1 {
        assert((h + 1) as int % (n as int) == 0) by (nonlinear_arith)
            requires
                h == n - 1,
                n > 0,
        ;
    } else {
        assert((h + 1) as int % (n as int) == h + 1) by (nonlinear_arith)
            requires
                h + 1 < n,
        ;
    }
}

} // verus!
