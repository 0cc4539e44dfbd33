//! Candidate-list logic for the suggestion UI: the current romaji word turned
//! into a selectable list — the typed word first, then its most frequent
//! completions, without duplicates. The key handler drives the selection and
//! commits [`CandidateList::current`].

use vstd::prelude::*;

use crate::suggest::{completions, Entry, Suggestions};

verus! {

/// Words of a list of entries.
pub open spec fn entry_words(es: Seq<Entry>) -> Seq<Seq<char>> {
    es.map_values(|e: Entry| e.0)
}

/// `items` extended with the words of `more` not yet present, until `max`
/// items are held.
pub open spec fn fill_items(items: Seq<Seq<char>>, more: Seq<Seq<char>>, max: nat) -> Seq<
    Seq<char>,
>
    decreases more.len(),
{
    if more.len() == 0 || items.len() >= max {
        items
    } else if items.contains(more[0]) {
        fill_items(items, more.skip(1), max)
    } else {
        fill_items(items.push(more[0]), more.skip(1), max)
    }
}

/// The candidates for `word`: none for an empty word; otherwise the word
/// itself, then its completions (at most `max` asked of the table), skipping
/// repeats, up to `max` items in all.
pub open spec fn candidate_items(word: Seq<char>, table: Seq<Entry>, max: nat) -> Seq<Seq<char>> {
    if word.len() == 0 {
        seq![]
    } else {
        fill_items(seq![word], entry_words(completions(table, word, max)), max)
    }
}

/// The highlight after moving down one, wrapping.
pub open spec fn next_index(sel: nat, len: nat) -> nat {
    if len == 0 {
        sel
    } else {
        ((sel + 1) as int % (len as int)) as nat
    }
}

/// The highlight after moving up one, wrapping.
pub open spec fn prev_index(sel: nat, len: nat) -> nat {
    if len == 0 {
        sel
    } else {
        ((sel + len - 1) as int % (len as int)) as nat
    }
}

/// A ranked, selectable candidate list for the current composition word.
#[derive(Debug, Clone)]
pub struct CandidateList {
    /// Candidate words (Latin), best first. Index 0 is the typed word itself.
    items: Vec<String>,
    /// The highlighted index.
    selected: usize,
}

impl CandidateList {
    /// The candidate words.
    pub closed spec fn words(&self) -> Seq<Seq<char>> {
        self.items@.map_values(|s: String| s@)
    }

    /// The highlighted index.
    pub closed spec fn highlight(&self) -> nat {
        self.selected as nat
    }

    /// The highlight lies on a candidate (or is 0 for an empty list). Every
    /// list that `empty`, `build` and the selection methods give holds this.
    pub open spec fn wf(&self) -> bool {
        if self.words().len() == 0 {
            self.highlight() == 0
        } else {
            self.highlight() < self.words().len()
        }
    }

    /// An empty list.
    pub fn empty() -> (res: Self)
        ensures
            res.wf(),
            res.words() == Seq::<Seq<char>>::empty(),
            res.highlight() == 0,
    {
        let res = CandidateList { items: Vec::new(), selected: 0 };
        assert(res.words() =~= Seq::<Seq<char>>::empty());
        res
    }

    /// Build candidates for an already-normalized romaji `word`: the word
    /// itself, then up to `max - 1` frequency-ranked completions from
    /// `suggest` (e.g. `kam` → `kam`, `kamuy`, `kamui`, …). An empty `word`
    /// yields an empty list. The highlight starts on the first candidate.
    pub fn build(word: &str, suggest: &Suggestions, max: usize) -> (res: Self)
        requires
            suggest.wf(),
        ensures
            res.wf(),
            res.words() == candidate_items(word@, suggest.entries(), max as nat),
            res.highlight() == 0,
    {
        let mut items: Vec<String> = Vec::new();
        if !word.is_empty() {
            let comps = suggest.complete(word, max);
            let ghost more = entry_words(crate::suggest::entries_view(comps@));
            items.push(word.to_owned());
            assert(items@.map_values(|s: String| s@) =~= seq![word@]);
            assert(more.skip(0) =~= more);
            let mut i: usize = 0;
            while i < comps.len() && items.len() < max
                invariant
                    0 < items@.len(),
                    i <= comps@.len(),
                    more == entry_words(crate::suggest::entries_view(comps@)),
                    more.len() == comps@.len(),
                    fill_items(seq![word@], more, max as nat) == fill_items(
                        items@.map_values(|s: String| s@),
                        more.skip(i as int),
                        max as nat,
                    ),
                decreases comps.len() - i,
            {
                let ghost cur = items@.map_values(|s: String| s@);
                assert(more.skip(i as int)[0] == comps@[i as int].0@);
                assert(more.skip(i as int).skip(1) =~= more.skip(i + 1));
                let w = &comps[i].0;
                if contains_word(&items, w) {
                    assert(cur.contains(w@));
                } else {
                    assert(!cur.contains(w@));
                    items.push(w.clone());
                    assert(items@.map_values(|s: String| s@) =~= cur.push(w@));
                }
                i += 1;
            }
            proof {
                let cur = items@.map_values(|s: String| s@);
                if i == comps.len() {
                    assert(more.skip(i as int).len() == 0);
                }
                assert(fill_items(cur, more.skip(i as int), max as nat) == cur);
            }
        }
        let res = CandidateList { items, selected: 0 };
        proof {
            if word@.len() == 0 {
                assert(res.words() =~= Seq::<Seq<char>>::empty());
            }
        }
        res
    }

    /// No candidates?
    pub fn is_empty(&self) -> (res: bool)
        ensures
            res == (self.words().len() == 0),
    {
        self.items.len() == 0
    }

    /// The number of candidates.
    pub fn len(&self) -> (res: usize)
        ensures
            res == self.words().len(),
    {
        self.items.len()
    }

    /// The candidates, best first.
    pub fn items(&self) -> (res: &[String])
        ensures
            res@.map_values(|s: String| s@) == self.words(),
    {
        self.items.as_slice()
    }

    /// The highlighted index.
    pub fn selected(&self) -> (res: usize)
        ensures
            res == self.highlight(),
    {
        self.selected
    }

    /// The currently highlighted candidate, if any.
    pub fn current(&self) -> (res: Option<&str>)
        requires
            self.wf(),
        ensures
            self.words().len() == 0 ==> res is None,
            self.words().len() > 0 ==> (res matches Some(s) && s@ == self.words()[
                self.highlight() as int
            ]),
    {
        if self.selected < self.items.len() {
            Some(self.items[self.selected].as_str())
        } else {
            None
        }
    }

    /// Move the highlight down one, wrapping. No-op if empty.
    pub fn select_next(&mut self)
        requires
            old(self).wf(),
        ensures
            final(self).wf(),
            final(self).words() == old(self).words(),
            final(self).highlight() == next_index(old(self).highlight(), old(self).words().len()),
    {
        if self.items.len() > 0 {
            self.selected = (self.selected + 1) % self.items.len();
        }
    }

    /// Move the highlight up one, wrapping. No-op if empty.
    pub fn select_prev(&mut self)
        requires
            old(self).wf(),
        ensures
            final(self).wf(),
            final(self).words() == old(self).words(),
            final(self).highlight() == prev_index(old(self).highlight(), old(self).words().len()),
    {
        if self.items.len() > 0 {
            // Same as (selected + len - 1) % len, without the intermediate sum.
            let len = self.items.len();
            let sel = self.selected;
            proof {
                if sel == 0 {
                    assert((sel + len - 1) as int % (len as int) == len - 1) by (nonlinear_arith)
                        requires
                            sel == 0,
                            len > 0,
                    ;
                } else {
                    assert((sel + len - 1) as int % (len as int) == sel - 1) by (nonlinear_arith)
                        requires
                            1 <= sel < len,
                    ;
                }
            }
            self.selected = if sel == 0 {
                len - 1
            } else {
                sel - 1
            };
        }
    }

    /// Select by 0-based index (e.g. a number key). Returns `false`, leaving
    /// the selection unchanged, if out of range.
    pub fn select_index(&mut self, index: usize) -> (res: bool)
        requires
            old(self).wf(),
        ensures
            final(self).wf(),
            final(self).words() == old(self).words(),
            res == (index < old(self).words().len()),
            res ==> final(self).highlight() == index,
            !res ==> final(self).highlight() == old(self).highlight(),
    {
        if index < self.items.len() {
            self.selected = index;
            true
        } else {
            false
        }
    }
}

impl Default for CandidateList {
    fn default() -> (res: Self)
        ensures
            res.wf(),
            res.words() == Seq::<Seq<char>>::empty(),
            res.highlight() == 0,
    {
        CandidateList::empty()
    }
}

/// Is `w` among `items`?
fn contains_word(items: &Vec<String>, w: &String) -> (res: bool)
    ensures
        res == items@.map_values(|s: String| s@).contains(w@),
{
    let ghost v = items@.map_values(|s: String| s@);
    let mut k: usize = 0;
    while k < items.len()
        invariant
            k <= items.len(),
            v == items@.map_values(|s: String| s@),
            forall|j: int| 0 <= j < k ==> v[j] != w@,
        decreases items.len() - k,
    {
        if items[k] == *w {
            assert(v[k as int] == w@);
            return true;
        }
        k += 1;
    }
    false
}


proof fn lemma_insert_members(x: Entry, s: Seq<Entry>)
    ensures
        forall|k: int|
            0 <= k < crate::suggest::insert_ranked(x, s).len() ==> (#[trigger] crate::suggest::insert_ranked(x, s)[k] == x
                || s.contains(crate::suggest::insert_ranked(x, s)[k])),
        crate::suggest::insert_ranked(x, s).len() == s.len() + 1,
    decreases s.len(),
{
    if s.len() > 0 && !(x.1 > s[0].1) {
        lemma_insert_members(x, s.skip(1));
        let r = crate::suggest::insert_ranked(x, s);
        let t = crate::suggest::insert_ranked(x, s.skip(1));
        assert forall|k: int| 0 <= k < r.len() implies (#[trigger] r[k] == x || s.contains(r[k])) by {
            if k == 0 {
                assert(s[0] == r[0]);
            } else {
                assert(r[k] == t[k - 1]);
                if t[k - 1] != x {
                    let j = choose|j: int| 0 <= j < s.skip(1).len() && s.skip(1)[j] == t[k - 1];
                    assert(s[j + 1] == r[k]);
                }
            }
        }
    } else if s.len() > 0 {
        let r = crate::suggest::insert_ranked(x, s);
        assert forall|k: int| 0 <= k < r.len() implies (#[trigger] r[k] == x || s.contains(r[k])) by {
            if k > 0 {
                assert(r[k] == s[k - 1]);
            }
        }
    }
}

proof fn lemma_ranked_members(es: Seq<Entry>)
    ensures
        forall|k: int|
            0 <= k < crate::suggest::ranked(es).len() ==> es.contains(
                #[trigger] crate::suggest::ranked(es)[k],
            ),
    decreases es.len(),
{
    if es.len() > 0 {
        lemma_ranked_members(es.drop_last());
        let r0 = crate::suggest::ranked(es.drop_last());
        lemma_insert_members(es.last(), r0);
        let r = crate::suggest::ranked(es);
        assert forall|k: int| 0 <= k < r.len() implies es.contains(#[trigger] r[k]) by {
            if r[k] == es.last() {
                assert(es[es.len() - 1] == r[k]);
            } else {
                let j = choose|j: int| 0 <= j < r0.len() && r0[j] == r[k];
                let m = choose|m: int| 0 <= m < es.drop_last().len() && es.drop_last()[m] == r0[j];
                assert(es[m] == r[k]);
            }
        }
    }
}

proof fn lemma_matching_members(es: Seq<Entry>, p: Seq<char>)
    ensures
        forall|k: int|
            0 <= k < crate::suggest::matching(es, p).len() ==> crate::suggest::has_prefix(
                (#[trigger] crate::suggest::matching(es, p)[k]).0,
                p,
            ),
    decreases es.len(),
{
    if es.len() > 0 {
        lemma_matching_members(es.drop_last(), p);
        let m0 = crate::suggest::matching(es.drop_last(), p);
        let m = crate::suggest::matching(es, p);
        assert forall|k: int| 0 <= k < m.len() implies crate::suggest::has_prefix(
            (#[trigger] m[k]).0,
            p,
        ) by {
            if k < m0.len() {
                assert(m[k] == m0[k]);
            } else {
                assert(m[k] == es.last());
            }
        }
    }
}

proof fn lemma_completion_prefix(es: Seq<Entry>, p: Seq<char>, max: nat)
    ensures
        forall|k: int|
            0 <= k < entry_words(completions(es, p, max)).len() ==> crate::suggest::has_prefix(
                #[trigger] entry_words(completions(es, p, max))[k],
                p,
            ),
{
    let m = crate::suggest::matching(es, p);
    lemma_matching_members(es, p);
    lemma_ranked_members(m);
    let r = crate::suggest::ranked(m);
    let c = completions(es, p, max);
    assert forall|k: int| 0 <= k < entry_words(c).len() implies crate::suggest::has_prefix(
        #[trigger] entry_words(c)[k],
        p,
    ) by {
        assert(c[k] == r[k]);
        let j = choose|j: int| 0 <= j < m.len() && m[j] == r[k];
        assert(crate::suggest::has_prefix(m[j].0, p));
    }
}

/// The invariants `fill_items` keeps.
pub open spec fn well_filled(items: Seq<Seq<char>>, word: Seq<char>) -> bool {
    &&& items.len() >= 1
    &&& items[0] == word
    &&& forall|a: int, b: int| 0 <= a < b < items.len() ==> items[a] != items[b]
    &&& forall|k: int| 0 <= k < items.len() ==> crate::suggest::has_prefix(#[trigger] items[k], word)
}

proof fn lemma_fill(items: Seq<Seq<char>>, more: Seq<Seq<char>>, max: nat, word: Seq<char>)
    requires
        well_filled(items, word),
        items.len() <= if max >= 1 { max } else { 1 },
        forall|k: int| 0 <= k < more.len() ==> crate::suggest::has_prefix(#[trigger] more[k], word),
    ensures
        well_filled(fill_items(items, more, max), word),
        fill_items(items, more, max).len() <= if max >= 1 { max } else { 1 },
    decreases more.len(),
{
    if more.len() == 0 || items.len() >= max {
    } else {
        assert forall|k: int| 0 <= k < more.skip(1).len() implies crate::suggest::has_prefix(
            #[trigger] more.skip(1)[k],
            word,
        ) by {
            assert(more.skip(1)[k] == more[k + 1]);
        }
        if items.contains(more[0]) {
            lemma_fill(items, more.skip(1), max, word);
        } else {
            let n = items.push(more[0]);
            assert(crate::suggest::has_prefix(more[0], word));
            assert forall|a: int, b: int| 0 <= a < b < n.len() implies n[a] != n[b] by {
                if b == n.len() - 1 && n[a] == n[b] {
                    assert(items[a] == more[0]);
                }
            }
            lemma_fill(n, more.skip(1), max, word);
        }
    }
}

/// What the candidate list promises for every word and table: an empty word
/// gives no candidates; otherwise the typed word comes first, no candidate
/// repeats, every candidate begins with the typed word, and there are at most
/// `max` of them (the typed word alone when `max` is 0).
pub proof fn law_candidates_shape(word: Seq<char>, table: Seq<Entry>, max: nat)
    ensures
        word.len() == 0 ==> candidate_items(word, table, max).len() == 0,
        word.len() > 0 ==> well_filled(candidate_items(word, table, max), word),
        word.len() > 0 ==> candidate_items(word, table, max).len() <= if max >= 1 {
            max
        } else {
            1
        },
{
    if word.len() > 0 {
        lemma_completion_prefix(table, word, max);
        assert(crate::suggest::has_prefix(word, word)) by {
            assert(word.take(word.len() as int) =~= word);
        }
        lemma_fill(seq![word], entry_words(completions(table, word, max)), max, word);
    }
}

/// The highlight always lies on a candidate: every list that `empty`, `build`,
/// `default` and the selection methods give is well formed, so it is 0 for an
/// empty list and a candidate's index otherwise — and the highlighted
/// candidate exists exactly when the list is not empty.
pub proof fn law_highlight_lies_on_a_candidate(c: CandidateList)
    requires
        c.wf(),
    ensures
        c.words().len() == 0 ==> c.highlight() == 0,
        c.words().len() > 0 ==> c.highlight() < c.words().len(),
{
}

/// Moving the highlight down then up (or up then down) returns it to where it
/// was.
pub proof fn law_next_and_prev_undo_each_other(sel: nat, len: nat)
    requires
        sel < len,
    ensures
        prev_index(next_index(sel, len), len) == sel,
        next_index(prev_index(sel, len), len) == sel,
        next_index(sel, len) < len,
        prev_index(sel, len) < len,
{
    if sel + 1 < len {
        assert((sel + 1) as int % (len as int) == sel + 1) by (nonlinear_arith)
            requires
                sel + 1 < len,
        ;
        assert((sel + 1 + len - 1) as int % (len as int) == sel) by (nonlinear_arith)
            requires
                sel < len,
        ;
    } else {
        assert((sel + 1) as int % (len as int) == 0) by (nonlinear_arith)
            requires
                sel + 1 == len,
        ;
        assert((0 + len - 1) as int % (len as int) == sel) by (nonlinear_arith)
            requires
                sel + 1 == len,
        ;
    }
    if sel == 0 {
        assert((sel + len - 1) as int % (len as int) == len - 1) by (nonlinear_arith)
            requires
                sel == 0,
                len > 0,
        ;
        assert((len - 1 + 1) as int % (len as int) == 0) by (nonlinear_arith)
            requires
                len > 0,
        ;
    } else {
        assert((sel + len - 1) as int % (len as int) == sel - 1) by (nonlinear_arith)
            requires
                1 <= sel < len,
        ;
        assert((sel - 1 + 1) as int % (len as int) == sel) by (nonlinear_arith)
            requires
                1 <= sel < len,
        ;
    }
}
} // verus!
