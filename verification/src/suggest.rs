//! The word-completion table behind the candidate list.
//!
//! The table is little-endian binary: the magic `AKNG`, a `u32` version (2),
//! a `u32` unigram count, then each unigram as a length byte, that many UTF-8
//! bytes and a `u32` frequency. The next-word (bigram / trigram) sections that
//! follow the unigrams are not read here. Completion of a prefix ranks the
//! matching words by frequency, highest first, keeping table order among equal
//! frequencies.

use vstd::prelude::*;
use vstd::utf8::{decode_utf8, valid_utf8};

use crate::reader::{le_u32, Reader};
use crate::text::chars_of;

verus! {

/// A word and its frequency, as plain values.
pub type Entry = (Seq<char>, u32);

/// The unigram entries stored from position `pos` on, `n` of them, or `None`
/// if the bytes end early or a word is not UTF-8.
pub open spec fn parse_entries(b: Seq<u8>, pos: int, n: nat) -> Option<Seq<Entry>>
    decreases n,
{
    if n == 0 {
        Some(seq![])
    } else if 0 <= pos && pos < b.len() && pos + 1 + b[pos] + 4 <= b.len() && valid_utf8(
        b.subrange(pos + 1, pos + 1 + b[pos]),
    ) {
        let l = b[pos] as int;
        match parse_entries(b, pos + 1 + l + 4, (n - 1) as nat) {
            Some(rest) => Some(
                seq![(decode_utf8(b.subrange(pos + 1, pos + 1 + l)), le_u32(b, pos + 1 + l) as u32)]
                    + rest,
            ),
            None => None,
        }
    } else {
        None
    }
}

/// The table header: magic `AKNG` and version 2.
pub open spec fn header_ok(b: Seq<u8>) -> bool {
    b.len() >= 8 && b[0] == 0x41 && b[1] == 0x4B && b[2] == 0x4E && b[3] == 0x47 && le_u32(b, 4)
        == 2
}

/// The unigram entries of a table, or `None` if the bytes are not a table.
pub open spec fn parse_table(b: Seq<u8>) -> Option<Seq<Entry>> {
    if header_ok(b) && b.len() >= 12 {
        parse_entries(b, 12, le_u32(b, 8) as nat)
    } else {
        None
    }
}

/// `w` begins with `p`.
pub open spec fn has_prefix(w: Seq<char>, p: Seq<char>) -> bool {
    p.len() <= w.len() && w.take(p.len() as int) == p
}

/// The entries whose word begins with `p`, in table order.
pub open spec fn matching(es: Seq<Entry>, p: Seq<char>) -> Seq<Entry>
    decreases es.len(),
{
    if es.len() == 0 {
        seq![]
    } else {
        matching(es.drop_last(), p) + (if has_prefix(es.last().0, p) {
            seq![es.last()]
        } else {
            seq![]
        })
    }
}

/// `x` placed into the frequency-descending `sorted` after every entry at
/// least as frequent.
pub open spec fn insert_ranked(x: Entry, sorted: Seq<Entry>) -> Seq<Entry>
    decreases sorted.len(),
{
    if sorted.len() == 0 {
        seq![x]
    } else if x.1 > sorted[0].1 {
        seq![x] + sorted
    } else {
        seq![sorted[0]] + insert_ranked(x, sorted.skip(1))
    }
}

/// Entries ordered by frequency, highest first, keeping the given order among
/// equal frequencies.
pub open spec fn ranked(es: Seq<Entry>) -> Seq<Entry>
    decreases es.len(),
{
    if es.len() == 0 {
        seq![]
    } else {
        insert_ranked(es.last(), ranked(es.drop_last()))
    }
}

/// The at most `k` completions of `p`: matching words, most frequent first.
pub open spec fn completions(es: Seq<Entry>, p: Seq<char>, k: nat) -> Seq<Entry> {
    let r = ranked(matching(es, p));
    if r.len() <= k {
        r
    } else {
        r.take(k as int)
    }
}

/// Plain values of a list of owned entries.
pub open spec fn entries_view(v: Seq<(String, u32)>) -> Seq<Entry> {
    v.map_values(|e: (String, u32)| (e.0@, e.1))
}

/// The unigram completion table.
pub struct Suggestions {
    words: Vec<String>,
    counts: Vec<u32>,
}

impl Suggestions {
    /// The table's entries in table order.
    pub closed spec fn entries(&self) -> Seq<Entry> {
        Seq::new(self.words@.len(), |i: int| (self.words@[i]@, self.counts@[i]))
    }

    /// Internal consistency: one frequency per word.
    pub closed spec fn wf(&self) -> bool {
        self.words@.len() == self.counts@.len()
    }

    /// Parse a table; `None` if the bytes are not a valid table (wrong magic or
    /// version, truncated, or a word that is not UTF-8).
    pub fn load(bytes: &[u8]) -> (res: Option<Suggestions>)
        ensures
            match parse_table(bytes@) {
                Some(es) => res matches Some(s) && s.wf() && s.entries() == es,
                None => res is None,
            },
    {
        let mut r = Reader::new(bytes);
        let magic = match r.take(4) {
            Some(m) => m,
            None => return None,
        };
        if !(magic[0] == 0x41 && magic[1] == 0x4B && magic[2] == 0x4E && magic[3] == 0x47) {
            return None;
        }
        let version = match r.u32() {
            Some(v) => v,
            None => return None,
        };
        if version != 2 {
            return None;
        }
        let n = match r.u32() {
            Some(n) => n,
            None => return None,
        };
        let ghost b = bytes@;
        let ghost total = n as nat;
        assert(header_ok(b) && b.len() >= 12);
        let mut words: Vec<String> = Vec::new();
        let mut counts: Vec<u32> = Vec::new();
        let mut i: u32 = 0;
        while i < n
            invariant
                r.wf(),
                r.data() == b,
                b == bytes@,
                header_ok(b),
                b.len() >= 12,
                total == le_u32(b, 8),
                i <= n,
                n == total,
                words@.len() == i,
                counts@.len() == i,
                parse_table(b) == match parse_entries(b, r.position(), (total - i) as nat) {
                    Some(rest) => Some(
                        Seq::new(i as nat, |k: int| (words@[k]@, counts@[k])) + rest,
                    ),
                    None => None,
                },
            decreases n - i,
        {
            let ghost p = r.position();
            proof {
                r.lemma_position_nonneg();
            }
            let ghost acc = Seq::new(i as nat, |k: int| (words@[k]@, counts@[k]));
            let w = match r.string() {
                Some(w) => w,
                None => {
                    assert(parse_entries(b, p, (total - i) as nat) is None);
                    assert(parse_table(b) is None);
                    return None;
                },
            };
            let c = match r.u32() {
                Some(c) => c,
                None => {
                    assert(parse_entries(b, p, (total - i) as nat) is None);
                    assert(parse_table(b) is None);
                    return None;
                },
            };
            proof {
                let l = b[p] as int;
                assert(r.position() == p + 1 + l + 4);
                assert(w@ == decode_utf8(b.subrange(p + 1, p + 1 + l)));
                assert(c == le_u32(b, p + 1 + l));
            }
            words.push(w);
            counts.push(c);
            proof {
                let acc2 = Seq::new((i + 1) as nat, |k: int| (words@[k]@, counts@[k]));
                assert(acc2 =~= acc.push((w@, c)));
                match parse_entries(b, r.position(), (total - i - 1) as nat) {
                    Some(rest) => {
                        assert(acc2 + rest =~= acc + (seq![(w@, c)] + rest));
                    },
                    None => {},
                }
            }
            i += 1;
        }
        let s = Suggestions { words, counts };
        proof {
            assert(parse_entries(b, r.position(), 0) == Some(Seq::<Entry>::empty()));
            assert(s.entries() =~= Seq::new(i as nat, |k: int| (s.words@[k]@, s.counts@[k]))
                + Seq::<Entry>::empty());
        }
        Some(s)
    }

    /// The number of words in the table.
    pub fn len(&self) -> (res: usize)
        requires
            self.wf(),
        ensures
            res == self.entries().len(),
    {
        self.words.len()
    }

    /// The at most `k` words beginning with `prefix`, most frequent first
    /// (table order among equal frequencies), each with its frequency.
    pub fn complete(&self, prefix: &str, k: usize) -> (res: Vec<(String, u32)>)
        requires
            self.wf(),
        ensures
            entries_view(res@) == completions(self.entries(), prefix@, k as nat),
    {
        let p = chars_of(prefix);
        let mut sorted: Vec<(String, u32)> = Vec::new();
        let mut i: usize = 0;
        let ghost es = self.entries();
        while i < self.words.len()
            invariant
                self.wf(),
                es == self.entries(),
                i <= self.words.len(),
                p@ == prefix@,
                entries_view(sorted@) == ranked(matching(es.take(i as int), prefix@)),
            decreases self.words.len() - i,
        {
            let w = chars_of(self.words[i].as_str());
            proof {
                assert(es.take(i + 1).drop_last() =~= es.take(i as int));
                assert(es.take(i + 1).last() == es[i as int]);
                assert(es[i as int] == (self.words@[i as int]@, self.counts@[i as int]));
            }
            if starts_with_chars(&w, &p) {
                let e = (self.words[i].clone(), self.counts[i]);
                insert_by_count(&mut sorted, e);
                proof {
                    assert(matching(es.take(i + 1), prefix@) =~= matching(es.take(i as int), prefix@)
                        + seq![es[i as int]]);
                    assert(ranked(matching(es.take(i + 1), prefix@)).len() >= 0);
                    lemma_ranked_push(matching(es.take(i as int), prefix@), es[i as int]);
                }
            } else {
                proof {
                    assert(matching(es.take(i + 1), prefix@) =~= matching(es.take(i as int), prefix@));
                }
            }
            i += 1;
        }
        assert(es.take(self.words.len() as int) =~= es);
        if sorted.len() > k {
            let ghost before = sorted@;
            sorted.truncate(k);
            assert(entries_view(sorted@) =~= entries_view(before).take(k as int));
        }
        sorted
    }
}

proof fn lemma_ranked_push(s: Seq<Entry>, x: Entry)
    ensures
        ranked(s + seq![x]) == insert_ranked(x, ranked(s)),
{
    assert((s + seq![x]).drop_last() =~= s);
    assert((s + seq![x]).last() == x);
}

/// `w` begins with `p`.
pub(crate) fn starts_with_chars(w: &Vec<char>, p: &Vec<char>) -> (res: bool)
    ensures
        res == has_prefix(w@, p@),
{
    if p.len() > w.len() {
        return false;
    }
    let mut k: usize = 0;
    while k < p.len()
        invariant
            k <= p.len() <= w.len(),
            forall|j: int| 0 <= j < k ==> w@[j] == p@[j],
        decreases p.len() - k,
    {
        if w[k] != p[k] {
            assert(w@.take(p.len() as int)[k as int] != p@[k as int]);
            return false;
        }
        k += 1;
    }
    assert(w@.take(p.len() as int) =~= p@);
    true
}

proof fn lemma_insert_at(x: Entry, s: Seq<Entry>, pos: int)
    requires
        0 <= pos <= s.len(),
        forall|j: int| 0 <= j < pos ==> s[j].1 >= x.1,
        pos < s.len() ==> s[pos].1 < x.1,
    ensures
        insert_ranked(x, s) == s.take(pos) + seq![x] + s.skip(pos),
    decreases pos,
{
    if s.len() == 0 {
        assert(s.take(pos) + seq![x] + s.skip(pos) =~= seq![x]);
    } else if pos == 0 {
        assert(s.take(0) + seq![x] + s.skip(0) =~= seq![x] + s);
    } else {
        assert forall|j: int| 0 <= j < pos - 1 implies s.skip(1)[j].1 >= x.1 by {
            assert(s.skip(1)[j] == s[j + 1]);
        }
        if pos - 1 < s.skip(1).len() {
            assert(s.skip(1)[pos - 1] == s[pos]);
        }
        lemma_insert_at(x, s.skip(1), pos - 1);
        assert(seq![s[0]] + (s.skip(1).take(pos - 1) + seq![x] + s.skip(1).skip(pos - 1))
            =~= s.take(pos) + seq![x] + s.skip(pos));
    }
}

/// Insert `e` after every entry at least as frequent.
fn insert_by_count(sorted: &mut Vec<(String, u32)>, e: (String, u32))
    ensures
        entries_view(final(sorted)@) == insert_ranked((e.0@, e.1), entries_view(old(sorted)@)),
{
    let ghost s = entries_view(sorted@);
    let mut pos: usize = 0;
    while pos < sorted.len() && sorted[pos].1 >= e.1
        invariant
            pos <= sorted.len(),
            s == entries_view(sorted@),
            forall|j: int| 0 <= j < pos ==> s[j].1 >= e.1,
        decreases sorted.len() - pos,
    {
        pos += 1;
    }
    proof {
        lemma_insert_at((e.0@, e.1), s, pos as int);
    }
    let ghost before = sorted@;
    sorted.insert(pos, e);
    proof {
        assert(entries_view(sorted@) =~= s.take(pos as int) + seq![(e.0@, e.1)] + s.skip(
            pos as int,
        ));
    }
}

} // verus!
