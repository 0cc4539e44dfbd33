//! Registration data: the registry key paths of the COM in-process server,
//! GUIDs in their braced text form, UTF-16 strings and `REG_SZ` value bytes,
//! and the language ids the input profile is registered under.

use vstd::prelude::*;
use vstd::string::StringExecFns;

use crate::text::string_of;

verus! {

/// The four desktop "keyboard transient" language ids. Ainu has no assigned
/// Windows LCID, so its profile is registered under all four; whichever one
/// Windows assigns when the user adds the language already has a profile.
pub const TRANSIENT_LANGIDS: [u16; 4] = [0x2000, 0x2400, 0x2800, 0x2C00];

/// The UTF-16 code units of one character.
pub open spec fn utf16_of(c: char) -> Seq<u16> {
    let v = (c as u32) as int;
    if v < 0x10000 {
        seq![v as u16]
    } else {
        seq![(0xD800 + (v - 0x10000) / 1024) as u16, (0xDC00 + (v - 0x10000) % 1024) as u16]
    }
}

/// The UTF-16 encoding of a character sequence.
pub open spec fn utf16(s: Seq<char>) -> Seq<u16>
    decreases s.len(),
{
    if s.len() == 0 {
        seq![]
    } else {
        utf16(s.drop_last()) + utf16_of(s.last())
    }
}

/// Little-endian bytes of a sequence of UTF-16 code units.
pub open spec fn le_bytes(w: Seq<u16>) -> Seq<u8>
    decreases w.len(),
{
    if w.len() == 0 {
        seq![]
    } else {
        le_bytes(w.drop_last()) + seq![(w.last() % 256) as u8, (w.last() / 256) as u8]
    }
}

/// Upper-case hex digit for `d < 16`.
pub open spec fn hex_char(d: int) -> char {
    if d < 10 {
        (('0' as int) + d) as char
    } else {
        (('A' as int) + d - 10) as char
    }
}

/// The lowest `n` hex digits of `g`, most significant first.
pub open spec fn hex_digits(g: int, n: nat) -> Seq<char>
    decreases n,
{
    if n == 0 {
        seq![]
    } else {
        hex_digits(g / 16, (n - 1) as nat).push(hex_char(g % 16))
    }
}

/// A GUID in braced text form, e.g. `{5ECECCEB-271D-4675-8EE5-8D129EF0CA08}`.
pub open spec fn braced(g: u128) -> Seq<char> {
    let d = hex_digits(g as int, 32);
    seq!['{'] + d.subrange(0, 8) + seq!['-'] + d.subrange(8, 12) + seq!['-'] + d.subrange(12, 16)
        + seq!['-'] + d.subrange(16, 20) + seq!['-'] + d.subrange(20, 32) + seq!['}']
}

/// UTF-16, NUL-terminated.
pub fn wide(s: &str) -> (res: Vec<u16>)
    ensures
        res@ == utf16(s@).push(0u16),
{
    let cs = crate::text::chars_of(s);
    let mut out: Vec<u16> = Vec::new();
    let mut i: usize = 0;
    while i < cs.len()
        invariant
            i <= cs.len(),
            out@ == utf16(cs@.take(i as int)),
        decreases cs.len() - i,
    {
        let c = cs[i];
        let v = c as u32;
        proof {
            vstd::utf8::char_is_scalar(c);
        }
        if v < 0x10000 {
            out.push(v as u16);
        } else {
            let u = v - 0x10000;
            out.push((0xD800 + u / 1024) as u16);
            out.push((0xDC00 + u % 1024) as u16);
        }
        assert(cs@.take(i + 1).drop_last() =~= cs@.take(i as int));
        assert(cs@.take(i + 1).last() == c);
        i += 1;
    }
    assert(cs@.take(cs.len() as int) =~= cs@);
    out.push(0);
    out
}

/// Bytes of a NUL-terminated wide string (`REG_SZ` data): each code unit
/// little-endian.
pub fn reg_sz_bytes(wide_nul: &[u16]) -> (res: Vec<u8>)
    ensures
        res@ == le_bytes(wide_nul@),
{
    let mut out: Vec<u8> = Vec::new();
    let mut i: usize = 0;
    while i < wide_nul.len()
        invariant
            i <= wide_nul.len(),
            out@ == le_bytes(wide_nul@.take(i as int)),
        decreases wide_nul.len() - i,
    {
        let u = wide_nul[i];
        out.push((u % 256) as u8);
        out.push((u / 256) as u8);
        assert(wide_nul@.take(i + 1).drop_last() =~= wide_nul@.take(i as int));
        assert(wide_nul@.take(i + 1).last() == u);
        assert(out@ =~= le_bytes(wide_nul@.take(i as int)) + seq![(u % 256) as u8, (u / 256) as u8]);
        i += 1;
    }
    assert(wide_nul@.take(wide_nul.len() as int) =~= wide_nul@);
    out
}

fn hex_digit(d: u8) -> (res: char)
    requires
        d < 16,
    ensures
        res == hex_char(d as int),
{
    if d < 10 {
        (48u8 + d) as char
    } else {
        (55u8 + d) as char
    }
}

/// Format a GUID as the canonical brace-wrapped upper-case string.
pub fn guid_braced(g: u128) -> (res: String)
    ensures
        res@ == braced(g),
{
    let mut digits: Vec<char> = Vec::new();
    let mut rest: u128 = g;
    let mut n: usize = 0;
    // Collected least significant first.
    while n < 32
        invariant
            n <= 32,
            digits@.len() == n,
            rest as int == (g as int) / pow16(n as nat),
            hex_digits(g as int, n as nat) =~= digits@.reverse(),
        decreases 32 - n,
    {
        let d = (rest % 16) as u8;
        let c = hex_digit(d);
        proof {
            lemma_pow16_step(n as nat);
            lemma_hex_digits_split(g as int, n as nat);
            assert((g as int) / pow16(n as nat) / 16 == (g as int) / pow16((n + 1) as nat)) by {
                lemma_div_div(g as int, pow16(n as nat), 16);
            }
            assert(digits@.push(c).reverse() =~= seq![c] + digits@.reverse());
        }
        digits.push(c);
        rest = rest / 16;
        n += 1;
    }
    let mut ordered: Vec<char> = Vec::new();
    let mut k: usize = 32;
    while k > 0
        invariant
            k <= 32,
            digits@.len() == 32,
            ordered@ == digits@.reverse().take(32 - k),
        decreases k,
    {
        k -= 1;
        ordered.push(digits[k]);
        assert(digits@.reverse().take(32 - k) =~= digits@.reverse().take(32 - k - 1).push(
            digits@[k as int],
        ));
    }
    assert(digits@.reverse().take(32) =~= digits@.reverse());
    let d = ordered;
    let mut out: Vec<char> = Vec::new();
    out.push('{');
    push_range(&mut out, &d, 0, 8);
    out.push('-');
    push_range(&mut out, &d, 8, 12);
    out.push('-');
    push_range(&mut out, &d, 12, 16);
    out.push('-');
    push_range(&mut out, &d, 16, 20);
    out.push('-');
    push_range(&mut out, &d, 20, 32);
    out.push('}');
    proof {
        assert(braced(g) =~= out@);
    }
    string_of(&out)
}

/// Append `d[from..to]` to `out`.
fn push_range(out: &mut Vec<char>, d: &Vec<char>, from: usize, to: usize)
    requires
        from <= to <= d.len(),
    ensures
        final(out)@ == old(out)@ + d@.subrange(from as int, to as int),
{
    let mut i = from;
    while i < to
        invariant
            from <= i <= to <= d.len(),
            out@ == old(out)@ + d@.subrange(from as int, i as int),
        decreases to - i,
    {
        out.push(d[i]);
        assert(d@.subrange(from as int, i + 1) =~= d@.subrange(from as int, i as int).push(
            d@[i as int],
        ));
        i += 1;
    }
}

/// 16 to the `n`.
pub open spec fn pow16(n: nat) -> int
    decreases n,
{
    if n == 0 {
        1
    } else {
        16 * pow16((n - 1) as nat)
    }
}

proof fn lemma_pow16_step(n: nat)
    ensures
        pow16(n) >= 1,
        pow16(n + 1) == 16 * pow16(n),
    decreases n,
{
    if n > 0 {
        lemma_pow16_step((n - 1) as nat);
    }
}

proof fn lemma_div_div(a: int, b: int, c: int)
    requires
        a >= 0,
        b >= 1,
        c >= 1,
    ensures
        a / b / c == a / (b * c),
{
    vstd::arithmetic::div_mod::lemma_div_denominator(a, b, c);
}

proof fn lemma_hex_digits_split(g: int, n: nat)
    requires
        g >= 0,
    ensures
        hex_digits(g, n + 1) == seq![hex_char((g / pow16(n)) % 16)] + hex_digits(g, n),
    decreases n,
{
    lemma_pow16_step(n);
    if n == 0 {
        assert(hex_digits(g / 16, 0) =~= Seq::<char>::empty());
        assert(hex_digits(g, 1) =~= seq![hex_char(g % 16)]);
        assert(hex_digits(g, 0) =~= Seq::<char>::empty());
    } else {
        lemma_hex_digits_split(g / 16, (n - 1) as nat);
        lemma_div_div(g, 16, pow16((n - 1) as nat));
        assert(hex_digits(g, n + 1) =~= hex_digits(g / 16, n).push(hex_char(g % 16)));
    }
}

/// `HKCR\CLSID\{..}` of a class.
pub fn clsid_key(g: u128) -> (res: String)
    ensures
        res@ == "CLSID\\"@ + braced(g),
{
    let mut s = String::from_str("CLSID\\");
    let b = guid_braced(g);
    s.append(b.as_str());
    s
}

/// `HKCR\CLSID\{..}\InProcServer32` of a class.
pub fn inproc_server_key(g: u128) -> (res: String)
    ensures
        res@ == "CLSID\\"@ + braced(g) + "\\InProcServer32"@,
{
    let mut s = clsid_key(g);
    s.append("\\InProcServer32");
    s
}

/// The DLL's path from a module-name query that wrote `len` code units into
/// `buf`: those units and a terminating NUL, or `None` when the query failed
/// (`len` is 0) or the path was cut off (`len` fills the buffer).
pub fn dll_path_from(buf: &[u16], len: u32) -> (res: Option<Vec<u16>>)
    ensures
        (len == 0 || len >= buf@.len()) ==> res is None,
        !(len == 0 || len >= buf@.len()) ==> (res matches Some(v) && v@ == buf@.take(
            len as int,
        ).push(0u16)),
{
    if len == 0 || len as usize >= buf.len() {
        return None;
    }
    let n = len as usize;
    let mut out: Vec<u16> = Vec::new();
    let mut i: usize = 0;
    while i < n
        invariant
            i <= n < buf@.len(),
            out@ == buf@.take(i as int),
        decreases n - i,
    {
        out.push(buf[i]);
        assert(buf@.take(i + 1) =~= buf@.take(i as int).push(buf@[i as int]));
        i += 1;
    }
    out.push(0);
    Some(out)
}

} // verus!
