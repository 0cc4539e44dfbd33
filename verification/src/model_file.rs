//! The layout of the next-word LSTM model file, and the vocabulary lookups the
//! model makes. The weights themselves are floating point and are decoded by
//! the host from the byte ranges found here.
//!
//! Binary layout (little-endian, version 1):
//! ```text
//! magic "AKLS" | u32 version
//! u32 V | u32 E | u32 H | u8 layers | u8 quant (0 = f32, 1 = int8)
//! vocab: V × { u8 len, utf8 bytes }
//! big matrices  emb[V,E] Wih[4H,E] Whh[4H,H] projW[V,H] (row-major):
//!    int8 → f32 scale then rows*cols × i8   |  f32 → rows*cols × f32
//! bias vectors  bih[4H] bhh[4H] projB[V] : rows × f32
//! ```

use vstd::prelude::*;
use vstd::utf8::{decode_utf8, valid_utf8};

use crate::reader::{le_u32, Reader};
use crate::suggest::{has_prefix, starts_with_chars};
use crate::text::chars_of;

verus! {

/// Index of the embedding matrix among the tensors.
pub const EMB: usize = 0;
/// Index of the input-to-hidden LSTM weights.
pub const WIH: usize = 1;
/// Index of the hidden-to-hidden LSTM weights.
pub const WHH: usize = 2;
/// Index of the output projection weights.
pub const PROJW: usize = 3;
/// Index of the input-to-hidden bias.
pub const BIH: usize = 4;
/// Index of the hidden-to-hidden bias.
pub const BHH: usize = 5;
/// Index of the output projection bias.
pub const PROJB: usize = 6;
/// The number of tensors in a model file.
pub const TENSOR_COUNT: usize = 7;

/// The vocabulary id of an unknown word.
pub const UNK_ID: u32 = 1;
/// The id assumed for the sentence-start token when the vocabulary lacks it.
pub const BOS_FALLBACK: u32 = 2;
/// Ids below this are special tokens (`<pad> <unk> <bos> <eos>`), never
/// completions.
pub const FIRST_WORD_ID: usize = 4;

/// Where one tensor lies in the file: its first byte, its number of values, and
/// whether it is stored as an `f32` scale followed by one `i8` per value
/// (otherwise one little-endian `f32` per value).
#[derive(Debug, Clone, Copy, PartialEq, Eq, Structural)]
pub struct Span {
    pub offset: usize,
    pub count: usize,
    pub quantized: bool,
}

/// The bytes a tensor of `count` values takes.
pub open spec fn span_bytes(count: int, quantized: bool) -> int {
    if quantized {
        4 + count
    } else {
        4 * count
    }
}

/// The number of values of each tensor, in file order.
pub open spec fn tensor_counts(v: int, e: int, h: int) -> Seq<int> {
    seq![v * e, 4 * h * e, 4 * h * h, v * h, 4 * h, 4 * h, v]
}

/// Only the four big matrices are quantized (when the file says so).
pub open spec fn tensor_quantized(i: int, quant: bool) -> bool {
    i < 4 && quant
}

/// The byte offset of tensor `i`, the tensors starting at `start`.
pub open spec fn tensor_offset(start: int, counts: Seq<int>, quant: bool, i: nat) -> int
    decreases i,
{
    if i == 0 {
        start
    } else {
        let j = (i - 1) as nat;
        tensor_offset(start, counts, quant, j) + span_bytes(counts[j as int], tensor_quantized(j as int, quant))
    }
}

/// `n` vocabulary words stored from position `pos` on, and the position after
/// them; `None` if the bytes end early or a word is not UTF-8.
pub open spec fn parse_words(b: Seq<u8>, pos: int, n: nat) -> Option<(Seq<Seq<char>>, int)>
    decreases n,
{
    if n == 0 {
        Some((seq![], pos))
    } else if 0 <= pos && pos < b.len() && pos + 1 + b[pos] <= b.len() && valid_utf8(
        b.subrange(pos + 1, pos + 1 + b[pos]),
    ) {
        let l = b[pos] as int;
        match parse_words(b, pos + 1 + l, (n - 1) as nat) {
            Some((rest, end)) => Some((seq![decode_utf8(b.subrange(pos + 1, pos + 1 + l))] + rest, end)),
            None => None,
        }
    } else {
        None
    }
}

/// The header: magic `AKLS`, version 1, and room for the dimensions.
pub open spec fn model_header_ok(b: Seq<u8>) -> bool {
    &&& b.len() >= 22
    &&& b[0] == 0x41 && b[1] == 0x4B && b[2] == 0x4C && b[3] == 0x53
    &&& le_u32(b, 4) == 1
}

/// A model file as plain values: its vocabulary, its dimensions, whether the
/// big matrices are quantized, and where the tensors start.
pub struct ModelShape {
    pub vocab: Seq<Seq<char>>,
    pub embed_dim: nat,
    pub hidden: nat,
    pub quantized: bool,
    pub weights_at: int,
}

/// What a model file holds, or `None` if it is not a model file: wrong magic
/// or version, a zero dimension, a truncated or non-UTF-8 vocabulary, or fewer
/// bytes than the seven tensors need.
pub open spec fn spec_parse_model(b: Seq<u8>) -> Option<ModelShape> {
    if !model_header_ok(b) {
        None
    } else {
        let v = le_u32(b, 8);
        let e = le_u32(b, 12);
        let h = le_u32(b, 16);
        let q = b[21] != 0;
        if v == 0 || e == 0 || h == 0 {
            None
        } else {
            match parse_words(b, 22, v as nat) {
                Some((words, end)) => if tensor_offset(end, tensor_counts(v, e, h), q, 7) <= b.len() {
                    Some(
                        ModelShape {
                            vocab: words,
                            embed_dim: e as nat,
                            hidden: h as nat,
                            quantized: q,
                            weights_at: end,
                        },
                    )
                } else {
                    None
                },
                None => None,
            }
        }
    }
}

/// A parsed model file: the vocabulary, the dimensions, and where each of the
/// [`TENSOR_COUNT`] tensors lies (indexed by [`EMB`] … [`PROJB`]).
pub struct ModelLayout {
    pub vocab: Vec<String>,
    pub embed_dim: usize,
    pub hidden: usize,
    pub quantized: bool,
    pub tensors: Vec<Span>,
}

/// The words of an owned vocabulary as plain values.
pub open spec fn words_view(v: Seq<String>) -> Seq<Seq<char>> {
    v.map_values(|s: String| s@)
}

/// `layout` describes the file `b` whose shape is `shape`: same vocabulary and
/// dimensions, and each tensor at its offset with its count.
pub open spec fn describes(layout: ModelLayout, shape: ModelShape) -> bool {
    let v = shape.vocab.len() as int;
    let counts = tensor_counts(v, shape.embed_dim as int, shape.hidden as int);
    &&& words_view(layout.vocab@) == shape.vocab
    &&& layout.embed_dim == shape.embed_dim
    &&& layout.hidden == shape.hidden
    &&& layout.quantized == shape.quantized
    &&& layout.tensors@.len() == 7
    &&& forall|i: int|
        0 <= i < 7 ==> {
            let s = #[trigger] layout.tensors@[i];
            &&& s.offset == tensor_offset(shape.weights_at, counts, shape.quantized, i as nat)
            &&& s.count == counts[i]
            &&& s.quantized == tensor_quantized(i, shape.quantized)
        }
}

proof fn lemma_parse_words_len(b: Seq<u8>, pos: int, n: nat)
    ensures
        parse_words(b, pos, n) matches Some((ws, end)) ==> ws.len() == n && end >= pos,
    decreases n,
{
    if n > 0 && 0 <= pos && pos < b.len() {
        lemma_parse_words_len(b, pos + 1 + b[pos], (n - 1) as nat);
    }
}

/// The spans of the tensors, from `start`, while they fit in `limit` bytes;
/// `None` when they do not.
fn place_tensors(start: usize, counts: &Vec<usize>, quant: bool, limit: usize) -> (res: Option<
    Vec<Span>,
>)
    requires
        counts@.len() == 7,
        start <= limit,
    ensures
        ({
            let cs = counts@.map_values(|c: usize| c as int);
            if tensor_offset(start as int, cs, quant, 7) <= limit {
                res matches Some(spans) && spans@.len() == 7 && forall|i: int|
                    0 <= i < 7 ==> {
                        let s = #[trigger] spans@[i];
                        &&& s.offset == tensor_offset(start as int, cs, quant, i as nat)
                        &&& s.count == cs[i]
                        &&& s.quantized == tensor_quantized(i, quant)
                    }
            } else {
                res is None
            }
        }),
{
    let ghost cs = counts@.map_values(|c: usize| c as int);
    let mut spans: Vec<Span> = Vec::new();
    let mut off: usize = start;
    let mut i: usize = 0;
    while i < 7
        invariant
            counts@.len() == 7,
            cs == counts@.map_values(|c: usize| c as int),
            i <= 7,
            off == tensor_offset(start as int, cs, quant, i as nat),
            off <= limit,
            spans@.len() == i,
            forall|k: int|
                0 <= k < i ==> {
                    let s = #[trigger] spans@[k];
                    &&& s.offset == tensor_offset(start as int, cs, quant, k as nat)
                    &&& s.count == cs[k]
                    &&& s.quantized == tensor_quantized(k, quant)
                },
        decreases 7 - i,
    {
        let q = i < 4 && quant;
        let n = counts[i];
        let room = limit - off;
        proof {
            assert forall|k: int| 0 <= k < cs.len() implies cs[k] >= 0 by {
                assert(cs[k] == counts@[k] as int);
            }
        }
        let size: usize = if q {
            if room < 4 || n > room - 4 {
                proof {
                    lemma_offsets_grow(start as int, cs, quant, (i + 1) as nat, 7);
                }
                return None;
            }
            n + 4
        } else {
            if n > room / 4 {
                proof {
                    assert(4 * n > room) by (nonlinear_arith)
                        requires
                            n > room / 4,
                    ;
                    lemma_offsets_grow(start as int, cs, quant, (i + 1) as nat, 7);
                }
                return None;
            }
            proof {
                assert(4 * n <= room) by (nonlinear_arith)
                    requires
                        n <= room / 4,
                ;
            }
            4 * n
        };
        spans.push(Span { offset: off, count: n, quantized: q });
        off = off + size;
        i += 1;
    }
    Some(spans)
}

/// Offsets never decrease from one tensor to a later one.
proof fn lemma_offsets_grow(start: int, counts: Seq<int>, quant: bool, i: nat, j: nat)
    requires
        i <= j,
        forall|k: int| 0 <= k < counts.len() ==> counts[k] >= 0,
        j <= counts.len(),
    ensures
        tensor_offset(start, counts, quant, i) <= tensor_offset(start, counts, quant, j),
    decreases j - i,
{
    if i < j {
        lemma_offsets_grow(start, counts, quant, i, (j - 1) as nat);
    }
}

/// The number of values of each tensor, or `None` when one of them does not
/// fit in a `usize`.
fn tensor_sizes(v: usize, e: usize, h: usize) -> (res: Option<Vec<usize>>)
    ensures
        match res {
            Some(c) => c@.map_values(|x: usize| x as int) == tensor_counts(v as int, e as int, h as int),
            None => exists|i: int| 0 <= i < 7 && #[trigger] tensor_counts(v as int, e as int, h as int)[i] > usize::MAX,
        },
{
    let ghost cs = tensor_counts(v as int, e as int, h as int);
    let ve = match v.checked_mul(e) {
        Some(x) => x,
        None => {
            assert(cs[0] > usize::MAX);
            return None;
        },
    };
    let h4 = match h.checked_mul(4) {
        Some(x) => x,
        None => {
            assert(cs[4] > usize::MAX);
            return None;
        },
    };
    let h4e = match h4.checked_mul(e) {
        Some(x) => x,
        None => {
            assert(cs[1] > usize::MAX);
            return None;
        },
    };
    let h4h = match h4.checked_mul(h) {
        Some(x) => x,
        None => {
            assert(cs[2] > usize::MAX);
            return None;
        },
    };
    let vh = match v.checked_mul(h) {
        Some(x) => x,
        None => {
            assert(cs[3] > usize::MAX);
            return None;
        },
    };
    let c = vec![ve, h4e, h4h, vh, h4, h4, v];
    assert(c@.map_values(|x: usize| x as int) =~= cs);
    Some(c)
}

/// With non-negative sizes, one tensor too large for a `usize` pushes the end
/// of the tensors past any byte count.
proof fn lemma_too_big(start: int, v: int, e: int, h: int, quant: bool, len: int)
    requires
        start >= 0,
        v >= 0,
        e >= 0,
        h >= 0,
        len <= usize::MAX,
        exists|i: int| 0 <= i < 7 && #[trigger] tensor_counts(v, e, h)[i] > usize::MAX,
    ensures
        tensor_offset(start, tensor_counts(v, e, h), quant, 7) > len,
{
    let cs = tensor_counts(v, e, h);
    let i = choose|i: int| 0 <= i < 7 && #[trigger] tensor_counts(v, e, h)[i] > usize::MAX;
    lemma_counts_nonneg(v, e, h);
    lemma_offsets_grow(start, cs, quant, 0, i as nat);
    lemma_offsets_grow(start, cs, quant, (i + 1) as nat, 7);
    assert(tensor_offset(start, cs, quant, (i + 1) as nat) == tensor_offset(start, cs, quant, i as nat)
        + span_bytes(cs[i], tensor_quantized(i, quant)));
}

proof fn lemma_counts_nonneg(v: int, e: int, h: int)
    requires
        v >= 0,
        e >= 0,
        h >= 0,
    ensures
        forall|k: int| 0 <= k < tensor_counts(v, e, h).len() ==> #[trigger] tensor_counts(v, e, h)[k] >= 0,
{
    assert(v * e >= 0) by (nonlinear_arith)
        requires
            v >= 0,
            e >= 0,
    ;
    assert(4 * h * e >= 0) by (nonlinear_arith)
        requires
            h >= 0,
            e >= 0,
    ;
    assert(4 * h * h >= 0) by (nonlinear_arith)
        requires
            h >= 0,
    ;
    assert(v * h >= 0) by (nonlinear_arith)
        requires
            v >= 0,
            h >= 0,
    ;
}

/// Parse the layout of a model file; `None` when the bytes are not a model file
/// (see [`spec_parse_model`]), so a bad file disables the model rather than
/// failing.
pub fn parse_model(bytes: &[u8]) -> (res: Option<ModelLayout>)
    ensures
        match spec_parse_model(bytes@) {
            Some(shape) => res matches Some(m) && describes(m, shape),
            None => res is None,
        },
        res matches Some(m) ==> 0 < m.vocab@.len() <= u32::MAX,
{
    let mut r = Reader::new(bytes);
    let magic = match r.take(4) {
        Some(m) => m,
        None => return None,
    };
    if !(magic[0] == 0x41 && magic[1] == 0x4B && magic[2] == 0x4C && magic[3] == 0x53) {
        return None;
    }
    let version = match r.u32() {
        Some(x) => x,
        None => return None,
    };
    if version != 1 {
        return None;
    }
    let v = match r.u32() {
        Some(x) => x,
        None => return None,
    };
    let e = match r.u32() {
        Some(x) => x,
        None => return None,
    };
    let h = match r.u32() {
        Some(x) => x,
        None => return None,
    };
    let _layers = match r.u8() {
        Some(x) => x,
        None => return None,
    };
    let quant_byte = match r.u8() {
        Some(x) => x,
        None => return None,
    };
    let ghost b = bytes@;
    assert(model_header_ok(b));
    if v == 0 || e == 0 || h == 0 {
        return None;
    }
    let quant = quant_byte != 0;
    let mut vocab: Vec<String> = Vec::new();
    let mut i: u32 = 0;
    while i < v
        invariant
            r.wf(),
            r.data() == b,
            b == bytes@,
            model_header_ok(b),
            v == le_u32(b, 8),
            e == le_u32(b, 12),
            h == le_u32(b, 16),
            quant == (b[21] != 0),
            v != 0 && e != 0 && h != 0,
            i <= v,
            vocab@.len() == i,
            r.position() >= 22,
            parse_words(b, 22, v as nat) == match parse_words(b, r.position(), (v - i) as nat) {
                Some((rest, end)) => Some((words_view(vocab@) + rest, end)),
                None => None,
            },
        decreases v - i,
    {
        let ghost p = r.position();
        let w = match r.string() {
            Some(w) => w,
            None => {
                assert(parse_words(b, p, (v - i) as nat) is None);
                return None;
            },
        };
        proof {
            let l = b[p] as int;
            assert(r.position() == p + 1 + l);
            assert(w@ == decode_utf8(b.subrange(p + 1, p + 1 + l)));
        }
        let ghost before = words_view(vocab@);
        vocab.push(w);
        proof {
            assert(words_view(vocab@) =~= before.push(w@));
            match parse_words(b, r.position(), (v - i - 1) as nat) {
                Some((rest, end)) => {
                    assert(words_view(vocab@) + rest =~= before + (seq![w@] + rest));
                },
                None => {},
            }
        }
        i += 1;
    }
    let ghost start = r.position();
    proof {
        assert(parse_words(b, start, 0) == Some((Seq::<Seq<char>>::empty(), start)));
        assert(words_view(vocab@) + Seq::<Seq<char>>::empty() =~= words_view(vocab@));
        lemma_parse_words_len(b, 22, v as nat);
    }
    let start_pos = r.offset();
    let counts = match tensor_sizes(v as usize, e as usize, h as usize) {
        Some(c) => c,
        None => {
            proof {
                lemma_too_big(start, v as int, e as int, h as int, quant, bytes.len() as int);
            }
            return None;
        },
    };
    assert(counts@.len() == 7) by {
        assert(counts@.map_values(|x: usize| x as int).len() == counts@.len());
    }
    let spans = match place_tensors(start_pos, &counts, quant, bytes.len()) {
        Some(s) => s,
        None => return None,
    };
    Some(ModelLayout { vocab, embed_dim: e as usize, hidden: h as usize, quantized: quant, tensors: spans })
}

/// The last position `< n` of `w` in `vocab`.
pub open spec fn last_index_of(vocab: Seq<Seq<char>>, w: Seq<char>, n: nat) -> Option<nat>
    decreases n,
{
    if n == 0 {
        None
    } else if vocab[n - 1] == w {
        Some((n - 1) as nat)
    } else {
        last_index_of(vocab, w, (n - 1) as nat)
    }
}

/// The id of `w`: its last position in the vocabulary (a later duplicate
/// replaces an earlier one), or `default` when it is not there.
pub open spec fn spec_word_id(vocab: Seq<Seq<char>>, w: Seq<char>, default: u32) -> u32 {
    match last_index_of(vocab, w, vocab.len()) {
        Some(i) => i as u32,
        None => default,
    }
}

/// The ids `< n` of the words that can complete `p`: the real words (ids from
/// [`FIRST_WORD_ID`] on) beginning with a non-empty `p`, in id order.
pub open spec fn spec_completion_ids(vocab: Seq<Seq<char>>, p: Seq<char>, n: nat) -> Seq<u32>
    decreases n,
{
    if n == 0 || p.len() == 0 {
        seq![]
    } else {
        let i = (n - 1) as nat;
        spec_completion_ids(vocab, p, i) + if i >= FIRST_WORD_ID && has_prefix(vocab[i as int], p) {
            seq![i as u32]
        } else {
            seq![]
        }
    }
}

impl ModelLayout {
    /// The vocabulary as plain values.
    pub open spec fn words(&self) -> Seq<Seq<char>> {
        words_view(self.vocab@)
    }

    /// The number of vocabulary words.
    pub fn vocab_size(&self) -> (res: usize)
        ensures
            res == self.vocab@.len(),
    {
        self.vocab.len()
    }

    /// The id of a committed word, or [`UNK_ID`] for a word outside the
    /// vocabulary.
    pub fn word_id(&self, word: &str) -> (res: u32)
        requires
            self.vocab@.len() <= u32::MAX,
        ensures
            res == spec_word_id(self.words(), word@, UNK_ID),
    {
        self.lookup(word, UNK_ID)
    }

    /// The id of the sentence-start token `<bos>`, or [`BOS_FALLBACK`] when the
    /// vocabulary lacks it.
    pub fn bos(&self) -> (res: u32)
        requires
            self.vocab@.len() <= u32::MAX,
        ensures
            res == spec_word_id(self.words(), "<bos>"@, BOS_FALLBACK),
    {
        self.lookup("<bos>", BOS_FALLBACK)
    }

    fn lookup(&self, word: &str, default: u32) -> (res: u32)
        requires
            self.vocab@.len() <= u32::MAX,
        ensures
            res == spec_word_id(self.words(), word@, default),
    {
        let w: String = word.to_owned();
        let ghost ws = self.words();
        let mut i: usize = self.vocab.len();
        while i > 0
            invariant
                i <= self.vocab@.len() <= u32::MAX,
                ws == self.words(),
                w@ == word@,
                last_index_of(ws, word@, ws.len()) == last_index_of(ws, word@, i as nat),
            decreases i,
        {
            if self.vocab[i - 1] == w {
                assert(ws[i - 1] == word@);
                return (i - 1) as u32;
            }
            assert(ws[i - 1] != word@);
            i -= 1;
        }
        default
    }

    /// The ids of the words that can complete `prefix` (see
    /// [`spec_completion_ids`]): the candidates the model then ranks.
    pub fn completion_ids(&self, prefix: &str) -> (res: Vec<u32>)
        requires
            self.vocab@.len() <= u32::MAX,
        ensures
            res@ == spec_completion_ids(self.words(), prefix@, self.vocab@.len()),
    {
        let p = chars_of(prefix);
        let mut out: Vec<u32> = Vec::new();
        if p.len() == 0 {
            return out;
        }
        let ghost ws = self.words();
        let mut i: usize = 0;
        while i < self.vocab.len()
            invariant
                i <= self.vocab@.len() <= u32::MAX,
                ws == self.words(),
                p@ == prefix@,
                p@.len() > 0,
                out@ == spec_completion_ids(ws, prefix@, i as nat),
            decreases self.vocab@.len() - i,
        {
            if i >= FIRST_WORD_ID {
                let w = chars_of(self.vocab[i].as_str());
                assert(ws[i as int] == w@);
                if starts_with_chars(&w, &p) {
                    out.push(i as u32);
                }
            }
            i += 1;
        }
        out
    }

    /// A token id clamped into the vocabulary.
    pub fn clamp_id(&self, id: u32) -> (res: usize)
        requires
            self.vocab@.len() > 0,
        ensures
            res == (if (id as int) < self.vocab@.len() { id as int } else { self.vocab@.len() - 1 }),
    {
        let n = self.vocab.len();
        if (id as usize) < n {
            id as usize
        } else {
            n - 1
        }
    }
}

/// The model's completion candidates for a prefix are exactly the real words
/// that begin with it: every id given is a real word with that prefix, and
/// every such word is given.
pub proof fn law_completion_ids_are_the_matching_words(vocab: Seq<Seq<char>>, p: Seq<char>, n: nat)
    requires
        n <= vocab.len() <= u32::MAX,
        p.len() > 0,
    ensures
        forall|k: int|
            0 <= k < spec_completion_ids(vocab, p, n).len() ==> {
                let id = #[trigger] spec_completion_ids(vocab, p, n)[k] as int;
                &&& FIRST_WORD_ID <= id < n
                &&& has_prefix(vocab[id], p)
            },
        forall|i: int|
            FIRST_WORD_ID <= i < n && has_prefix(#[trigger] vocab[i], p) ==> spec_completion_ids(
                vocab,
                p,
                n,
            ).contains(i as u32),
    decreases n,
{
    if n > 0 {
        let m = (n - 1) as nat;
        law_completion_ids_are_the_matching_words(vocab, p, m);
        let prev = spec_completion_ids(vocab, p, m);
        let cur = spec_completion_ids(vocab, p, n);
        assert forall|k: int| 0 <= k < cur.len() implies {
            let id = #[trigger] cur[k] as int;
            &&& FIRST_WORD_ID <= id < n
            &&& has_prefix(vocab[id], p)
        } by {
            if k < prev.len() {
                assert(cur[k] == prev[k]);
            }
        }
        assert forall|i: int| FIRST_WORD_ID <= i < n && has_prefix(#[trigger] vocab[i], p) implies cur.contains(
            i as u32,
        ) by {
            if i < m {
                let j = choose|j: int| 0 <= j < prev.len() && prev[j] == i as u32;
                assert(cur[j] == prev[j]);
            } else {
                assert(cur[prev.len() as int] == i as u32);
            }
        }
    }
}

} // verus!
