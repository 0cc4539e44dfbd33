//! A bounds-checked little-endian byte reader for the embedded binary tables.
//! Every read either succeeds and advances, or returns `None` (a truncated or
//! malformed table disables a feature rather than panicking).

use vstd::prelude::*;
use vstd::utf8::{decode_utf8, valid_utf8};

verus! {

/// The little-endian `u32` stored at `b[i..i + 4]`.
pub open spec fn le_u32(b: Seq<u8>, i: int) -> int {
    b[i] as int + b[i + 1] as int * 256 + b[i + 2] as int * 65536 + b[i + 3] as int * 16777216
}

/// `String::from_utf8`: `Some` exactly when the bytes are valid UTF-8, and
/// then the decoded characters.
#[verifier::external_body]
fn utf8_string(bytes: &[u8]) -> (res: Option<String>)
    ensures
        res is Some <==> valid_utf8(bytes@),
        res matches Some(s) ==> s@ == decode_utf8(bytes@),
{
    String::from_utf8(bytes.to_vec()).ok()
}

/// A cursor over a byte slice.
pub struct Reader<'a> {
    b: &'a [u8],
    pos: usize,
}

impl<'a> Reader<'a> {
    /// The bytes being read.
    pub closed spec fn data(&self) -> Seq<u8> {
        self.b@
    }

    /// The number of bytes consumed so far.
    pub closed spec fn position(&self) -> int {
        self.pos as int
    }

    /// The position is never negative.
    pub proof fn lemma_position_nonneg(&self)
        ensures
            self.position() >= 0,
    {
    }

    /// The cursor lies within the data.
    pub closed spec fn wf(&self) -> bool {
        self.pos <= self.b@.len()
    }

    /// The number of bytes consumed so far.
    pub fn offset(&self) -> (res: usize)
        requires
            self.wf(),
        ensures
            res == self.position(),
            res <= self.data().len(),
    {
        self.pos
    }

    /// A reader at the start of `b`.
    pub fn new(b: &'a [u8]) -> (r: Self)
        ensures
            r.wf(),
            r.data() == b@,
            r.position() == 0,
    {
        Reader { b, pos: 0 }
    }

    /// The next `n` bytes, or `None` (cursor unchanged) if fewer remain.
    pub fn take(&mut self, n: usize) -> (res: Option<&'a [u8]>)
        requires
            old(self).wf(),
        ensures
            final(self).wf(),
            final(self).data() == old(self).data(),
            old(self).position() + n <= old(self).data().len() ==> {
                &&& (res matches Some(s) && s@ == old(self).data().subrange(
                    old(self).position(),
                    old(self).position() + n,
                ))
                &&& final(self).position() == old(self).position() + n
            },
            old(self).position() + n > old(self).data().len() ==> res is None && final(self).position() == old(self).position(),
    {
        if n > self.b.len() - self.pos {
            return None;
        }
        let end = self.pos + n;
        let s = &self.b[self.pos..end];
        self.pos = end;
        Some(s)
    }

    /// The next byte.
    pub fn u8(&mut self) -> (res: Option<u8>)
        requires
            old(self).wf(),
        ensures
            final(self).wf(),
            final(self).data() == old(self).data(),
            old(self).position() < old(self).data().len() ==> res == Some(
                old(self).data()[old(self).position()],
            ) && final(self).position() == old(self).position() + 1,
            old(self).position() >= old(self).data().len() ==> res is None && final(self).position() == old(self).position(),
    {
        match self.take(1) {
            Some(s) => Some(s[0]),
            None => None,
        }
    }

    /// The next little-endian `u32`.
    pub fn u32(&mut self) -> (res: Option<u32>)
        requires
            old(self).wf(),
        ensures
            final(self).wf(),
            final(self).data() == old(self).data(),
            old(self).position() + 4 <= old(self).data().len() ==> (res matches Some(v) && v
                == le_u32(old(self).data(), old(self).position())) && final(self).position()
                == old(self).position() + 4,
            old(self).position() + 4 > old(self).data().len() ==> res is None && final(self).position() == old(self).position(),
    {
        match self.take(4) {
            Some(s) => {
                let v = (s[0] as u32) + (s[1] as u32) * 256 + (s[2] as u32) * 65536 + (s[3] as u32)
                    * 16777216;
                Some(v)
            },
            None => None,
        }
    }

    /// A string stored as a length byte followed by that many UTF-8 bytes.
    /// `None` if truncated or not UTF-8 (the bytes are consumed either way).
    pub fn string(&mut self) -> (res: Option<String>)
        requires
            old(self).wf(),
        ensures
            final(self).wf(),
            final(self).data() == old(self).data(),
            ({
                let d = old(self).data();
                let p = old(self).position();
                if p < d.len() && p + 1 + d[p] <= d.len() {
                    let bytes = d.subrange(p + 1, p + 1 + d[p]);
                    &&& final(self).position() == p + 1 + d[p]
                    &&& (res is Some <==> valid_utf8(bytes))
                    &&& (res matches Some(s) ==> s@ == decode_utf8(bytes))
                } else {
                    res is None
                }
            }),
    {
        let n = match self.u8() {
            Some(n) => n,
            None => return None,
        };
        match self.take(n as usize) {
            Some(bytes) => utf8_string(bytes),
            None => None,
        }
    }
}

} // verus!
