//! Parsers for the byte-oriented named sections: SummaryInfo, AppInfo,
//! FileDepList and Preview.
//!
//! Every read of the [`ByteCursor`] is stated as a spec function from
//! the buffer and the position to the outcome and the position after
//! it; a failed read may still have consumed its length field, which
//! matters where a parser carries on past a failed optional string.
//! Text is decoded with std's lossy UTF-8 and UTF-16 conversions; the
//! contracts name the UTF-8 result [`spec_utf8_lossy`] and state the
//! UTF-16 one, [`spec_utf16_lossy`].
use vstd::prelude::*;

use crate::error::{Error, Result};
use crate::text::spec_utf16_lossy;
use crate::le::{le_read_u16, le_read_u32, lemma_le_at, push_bytes, spec_le16_value, spec_le32_value};

verus! {

// ----------------------------------------------------------------
// Text decoding.
// ----------------------------------------------------------------

/// What `String::from_utf8_lossy` makes of `bytes`.
pub uninterp spec fn spec_utf8_lossy(bytes: Seq<u8>) -> Seq<char>;

/// `String::from_utf8_lossy`, owned: `bytes` as UTF-8, each invalid
/// sequence replaced by U+FFFD. The contract only names the result.
#[verifier::external_body]
pub(crate) fn utf8_lossy(bytes: &[u8]) -> (s: String)
    ensures
        s@ == spec_utf8_lossy(bytes@),
{
    String::from_utf8_lossy(bytes).into_owned()
}

/// `String::from_utf16_lossy`: `units` as UTF-16, each unpaired
/// surrogate replaced by U+FFFD ([`spec_utf16_lossy`]).
#[verifier::external_body]
fn utf16_lossy(units: &[u16]) -> (s: String)
    ensures
        s@ == spec_utf16_lossy(units@),
{
    String::from_utf16_lossy(units)
}

// ----------------------------------------------------------------
// Byte-aligned reads.
// ----------------------------------------------------------------

/// The error of a read of `n` bytes at `pos`.
pub open spec fn spec_truncated(b: Seq<u8>, pos: int, n: int) -> Error {
    Error::Truncated { offset: pos as u64, wanted: n as usize, len: b.len() as u64 }
}

/// `u8` at `pos`, and the position after the read.
pub open spec fn spec_rd_u8(b: Seq<u8>, pos: int) -> (core::result::Result<u8, Error>, int) {
    if pos + 1 > b.len() {
        (Err(spec_truncated(b, pos, 1)), pos)
    } else {
        (Ok(b[pos]), pos + 1)
    }
}

/// Little-endian `u16` at `pos`, and the position after the read.
pub open spec fn spec_rd_u16(b: Seq<u8>, pos: int) -> (core::result::Result<u16, Error>, int) {
    if pos + 2 > b.len() {
        (Err(spec_truncated(b, pos, 2)), pos)
    } else {
        (Ok(spec_le16_value(b, pos)), pos + 2)
    }
}

/// Little-endian `u32` at `pos`, and the position after the read.
pub open spec fn spec_rd_u32(b: Seq<u8>, pos: int) -> (core::result::Result<u32, Error>, int) {
    if pos + 4 > b.len() {
        (Err(spec_truncated(b, pos, 4)), pos)
    } else {
        (Ok(spec_le32_value(b, pos)), pos + 4)
    }
}

/// Skip `n` bytes.
pub open spec fn spec_skip(b: Seq<u8>, pos: int, n: int) -> (core::result::Result<(), Error>, int) {
    if pos + n > b.len() {
        (Err(spec_truncated(b, pos, n)), pos)
    } else {
        (Ok(()), pos + n)
    }
}

/// A `u16`-length 8-bit string whose length counts a trailing NUL,
/// which is dropped when present.
pub open spec fn spec_rd_lenstr(b: Seq<u8>, pos: int) -> (core::result::Result<Seq<char>, Error>, int) {
    match spec_rd_u16(b, pos) {
        (Err(e), p) => (Err(e), p),
        (Ok(n), p) => if n == 0 {
            (Ok(Seq::empty()), p)
        } else if p + n > b.len() {
            (Err(spec_truncated(b, p, n as int)), p)
        } else {
            let end = p + n;
            let text_end = if b[end - 1] == 0 {
                end - 1
            } else {
                end
            };
            (Ok(spec_utf8_lossy(b.subrange(p, text_end))), end)
        },
    }
}

/// The `count` little-endian code units from `p`.
pub open spec fn spec_units(b: Seq<u8>, p: int, count: nat) -> Seq<u16> {
    Seq::new(count, |i: int| spec_le16_value(b, p + 2 * i))
}

/// `s` without its trailing zero code units.
pub open spec fn spec_trim_nuls(s: Seq<u16>) -> Seq<u16>
    decreases s.len(),
{
    if s.len() > 0 && s.last() == 0 {
        spec_trim_nuls(s.drop_last())
    } else {
        s
    }
}

/// A `u16`-count UTF-16 string; `nul_after` when a 2-byte NUL follows
/// the counted units (AppInfo), else the count includes the NUL
/// (SummaryInfo). Trailing zero units are dropped.
pub open spec fn spec_rd_ustr(b: Seq<u8>, pos: int, nul_after: bool) -> (core::result::Result<Seq<char>, Error>, int) {
    match spec_rd_u16(b, pos) {
        (Err(e), p) => (Err(e), p),
        (Ok(n), p) => if n == 0 {
            (Ok(Seq::empty()), p)
        } else {
            let need = if nul_after {
                2 * n + 2
            } else {
                2 * n
            };
            if p + need > b.len() {
                (Err(spec_truncated(b, p, need)), p)
            } else {
                (Ok(spec_utf16_lossy(spec_trim_nuls(spec_units(b, p, n as nat)))), p + need)
            }
        },
    }
}

/// A `u32`-length 8-bit string with no NUL; a length of 0 or
/// `u32::MAX` is the empty string.
pub open spec fn spec_rd_lenstr32(b: Seq<u8>, pos: int) -> (core::result::Result<Seq<char>, Error>, int) {
    match spec_rd_u32(b, pos) {
        (Err(e), p) => (Err(e), p),
        (Ok(n), p) => if n == 0 || n == u32::MAX {
            (Ok(Seq::empty()), p)
        } else if p + n > b.len() {
            (Err(spec_truncated(b, p, n as int)), p)
        } else {
            (Ok(spec_utf8_lossy(b.subrange(p, p + n))), p + n)
        },
    }
}

/// Byte-aligned cursor over a metadata section.
pub struct ByteCursor<'a> {
    bytes: &'a [u8],
    pos: usize,
}

impl<'a> ByteCursor<'a> {
    /// The buffer.
    pub closed spec fn data(&self) -> Seq<u8> {
        self.bytes@
    }

    /// The position.
    pub closed spec fn pos(&self) -> int {
        self.pos as int
    }

    /// The position is within the buffer.
    pub closed spec fn wf(&self) -> bool {
        self.pos <= self.bytes@.len() <= usize::MAX
    }

    /// A cursor at the start of `bytes`.
    pub fn new(bytes: &'a [u8]) -> (c: Self)
        ensures
            c.wf(),
            c.data() == bytes@,
            c.pos() == 0,
    {
        let _n = bytes.len();
        ByteCursor { bytes, pos: 0 }
    }

    /// The position, as a byte offset.
    fn position(&self) -> (p: usize)
        ensures
            p == self.pos(),
    {
        self.pos
    }

    /// `Ok` when `n` more bytes remain.
    fn need(&self, n: usize) -> (r: Result<()>)
        requires
            self.wf(),
        ensures
            self.pos() + n > self.data().len() ==> r == Err::<(), Error>(spec_truncated(self.data(), self.pos(), n as int)),
            self.pos() + n <= self.data().len() ==> r is Ok,
    {
        if n > self.bytes.len() - self.pos {
            Err(Error::Truncated { offset: self.pos as u64, wanted: n, len: self.bytes.len() as u64 })
        } else {
            Ok(())
        }
    }

    /// Skip `n` bytes.
    fn skip(&mut self, n: usize) -> (r: Result<()>)
        requires
            old(self).wf(),
        ensures
            final(self).wf(),
            final(self).data() == old(self).data(),
            (r, final(self).pos()) == spec_skip(old(self).data(), old(self).pos(), n as int),
    {
        match self.need(n) {
            Ok(()) => {},
            Err(e) => {
                return Err(e);
            },
        }
        self.pos += n;
        Ok(())
    }

    /// A `u8`.
    fn read_u8(&mut self) -> (r: Result<u8>)
        requires
            old(self).wf(),
        ensures
            final(self).wf(),
            final(self).data() == old(self).data(),
            (r, final(self).pos()) == spec_rd_u8(old(self).data(), old(self).pos()),
    {
        match self.need(1) {
            Ok(()) => {},
            Err(e) => {
                return Err(e);
            },
        }
        let b = self.bytes[self.pos];
        self.pos += 1;
        Ok(b)
    }

    /// A little-endian `u16`.
    fn read_u16(&mut self) -> (r: Result<u16>)
        requires
            old(self).wf(),
        ensures
            final(self).wf(),
            final(self).data() == old(self).data(),
            (r, final(self).pos()) == spec_rd_u16(old(self).data(), old(self).pos()),
    {
        match self.need(2) {
            Ok(()) => {},
            Err(e) => {
                return Err(e);
            },
        }
        proof {
            lemma_le_at(self.data(), self.pos());
        }
        let v = le_read_u16(&self.bytes[self.pos..self.pos + 2]);
        self.pos += 2;
        Ok(v)
    }

    /// A little-endian `u32`.
    fn read_u32(&mut self) -> (r: Result<u32>)
        requires
            old(self).wf(),
        ensures
            final(self).wf(),
            final(self).data() == old(self).data(),
            (r, final(self).pos()) == spec_rd_u32(old(self).data(), old(self).pos()),
    {
        match self.need(4) {
            Ok(()) => {},
            Err(e) => {
                return Err(e);
            },
        }
        proof {
            lemma_le_at(self.data(), self.pos());
        }
        let v = le_read_u32(&self.bytes[self.pos..self.pos + 4]);
        self.pos += 4;
        Ok(v)
    }

    /// Eight raw bytes.
    fn read_array(&mut self) -> (r: Result<[u8; 8]>)
        requires
            old(self).wf(),
        ensures
            final(self).wf(),
            final(self).data() == old(self).data(),
            old(self).pos() + 8 > old(self).data().len() ==> r == Err::<[u8; 8], Error>(
                spec_truncated(old(self).data(), old(self).pos(), 8),
            ) && final(self).pos() == old(self).pos(),
            old(self).pos() + 8 <= old(self).data().len() ==> (r matches Ok(a) && a@ == old(self).data().subrange(
                old(self).pos(),
                old(self).pos() + 8,
            ) && final(self).pos() == old(self).pos() + 8),
    {
        match self.need(8) {
            Ok(()) => {},
            Err(e) => {
                return Err(e);
            },
        }
        let p = self.pos;
        let b = self.bytes;
        let out: [u8; 8] = [b[p], b[p + 1], b[p + 2], b[p + 3], b[p + 4], b[p + 5], b[p + 6], b[p + 7]];
        self.pos += 8;
        proof {
            assert(out@ =~= old(self).data().subrange(old(self).pos(), old(self).pos() + 8));
        }
        Ok(out)
    }

    /// A `u16`-length 8-bit string.
    fn read_lenstr(&mut self) -> (r: Result<String>)
        requires
            old(self).wf(),
        ensures
            final(self).wf(),
            final(self).data() == old(self).data(),
            final(self).pos() == spec_rd_lenstr(old(self).data(), old(self).pos()).1,
            match spec_rd_lenstr(old(self).data(), old(self).pos()).0 {
                Ok(s) => r matches Ok(x) && x@ == s,
                Err(e) => r == Err::<String, Error>(e),
            },
    {
        let len = match self.read_u16() {
            Ok(v) => v as usize,
            Err(e) => {
                return Err(e);
            },
        };
        if len == 0 {
            return Ok(String::new());
        }
        match self.need(len) {
            Ok(()) => {},
            Err(e) => {
                return Err(e);
            },
        }
        let end = self.pos + len;
        let text_end = if self.bytes[end - 1] == 0 {
            end - 1
        } else {
            end
        };
        let s = utf8_lossy(&self.bytes[self.pos..text_end]);
        self.pos = end;
        Ok(s)
    }

    /// The `count` little-endian code units at the position.
    fn read_units(&self, count: usize) -> (v: Vec<u16>)
        requires
            self.wf(),
            self.pos() + 2 * count <= self.data().len(),
        ensures
            v@ == spec_units(self.data(), self.pos(), count as nat),
    {
        let mut u16s: Vec<u16> = Vec::new();
        let mut i: usize = 0;
        while i < count
            invariant
                self.wf(),
                self.pos() + 2 * count <= self.data().len(),
                i <= count,
                u16s@ == spec_units(self.data(), self.pos(), i as nat),
            decreases count - i,
        {
            let at = self.pos + i * 2;
            proof {
                lemma_le_at(self.data(), at as int);
            }
            u16s.push(le_read_u16(&self.bytes[at..at + 2]));
            i += 1;
            proof {
                assert(u16s@ =~= spec_units(self.data(), self.pos(), i as nat));
            }
        }
        u16s
    }

    /// A `u16`-count UTF-16 string followed by a 2-byte NUL.
    fn read_unicode_lenstr(&mut self) -> (r: Result<String>)
        requires
            old(self).wf(),
        ensures
            final(self).wf(),
            final(self).data() == old(self).data(),
            final(self).pos() == spec_rd_ustr(old(self).data(), old(self).pos(), true).1,
            match spec_rd_ustr(old(self).data(), old(self).pos(), true).0 {
                Ok(s) => r matches Ok(x) && x@ == s,
                Err(e) => r == Err::<String, Error>(e),
            },
    {
        let char_count = match self.read_u16() {
            Ok(v) => v as usize,
            Err(e) => {
                return Err(e);
            },
        };
        if char_count == 0 {
            return Ok(String::new());
        }
        let byte_count = char_count * 2;
        match self.need(byte_count + 2) {
            Ok(()) => {},
            Err(e) => {
                return Err(e);
            },
        }
        let mut u16s = self.read_units(char_count);
        self.pos += byte_count;
        self.pos += 2;
        trim_nuls(&mut u16s);
        Ok(utf16_lossy(u16s.as_slice()))
    }

    /// A `u16`-count UTF-16 string whose count includes its NUL.
    fn read_unicode_lenstr_inclusive_nul(&mut self) -> (r: Result<String>)
        requires
            old(self).wf(),
        ensures
            final(self).wf(),
            final(self).data() == old(self).data(),
            final(self).pos() == spec_rd_ustr(old(self).data(), old(self).pos(), false).1,
            match spec_rd_ustr(old(self).data(), old(self).pos(), false).0 {
                Ok(s) => r matches Ok(x) && x@ == s,
                Err(e) => r == Err::<String, Error>(e),
            },
    {
        let char_count = match self.read_u16() {
            Ok(v) => v as usize,
            Err(e) => {
                return Err(e);
            },
        };
        if char_count == 0 {
            return Ok(String::new());
        }
        let byte_count = char_count * 2;
        match self.need(byte_count) {
            Ok(()) => {},
            Err(e) => {
                return Err(e);
            },
        }
        let mut u16s = self.read_units(char_count);
        self.pos += byte_count;
        trim_nuls(&mut u16s);
        Ok(utf16_lossy(u16s.as_slice()))
    }

    /// A `u32`-length 8-bit string with no NUL.
    fn read_lenstr32(&mut self) -> (r: Result<String>)
        requires
            old(self).wf(),
        ensures
            final(self).wf(),
            final(self).data() == old(self).data(),
            final(self).pos() == spec_rd_lenstr32(old(self).data(), old(self).pos()).1,
            match spec_rd_lenstr32(old(self).data(), old(self).pos()).0 {
                Ok(s) => r matches Ok(x) && x@ == s,
                Err(e) => r == Err::<String, Error>(e),
            },
    {
        let len32 = match self.read_u32() {
            Ok(v) => v,
            Err(e) => {
                return Err(e);
            },
        };
        if len32 == 0 || len32 == u32::MAX {
            return Ok(String::new());
        }
        let len = len32 as usize;
        match self.need(len) {
            Ok(()) => {},
            Err(e) => {
                return Err(e);
            },
        }
        let s = utf8_lossy(&self.bytes[self.pos..self.pos + len]);
        self.pos += len;
        Ok(s)
    }
}

/// Drop the trailing zero code units.
fn trim_nuls(v: &mut Vec<u16>)
    ensures
        final(v)@ == spec_trim_nuls(old(v)@),
{
    loop
        invariant
            spec_trim_nuls(v@) == spec_trim_nuls(old(v)@),
        decreases v@.len(),
    {
        let n = v.len();
        if n == 0 || v[n - 1] != 0 {
            return;
        }
        v.pop();
    }
}

// ----------------------------------------------------------------
// Sequences of strings.
// ----------------------------------------------------------------

/// How the strings of a SummaryInfo section are encoded.
#[derive(Debug, Copy, Clone, PartialEq, Eq, Structural)]
pub enum StringEncoding {
    /// `u16` length, 8-bit text, trailing NUL (R18).
    Ansi,
    /// `u16` count of UTF-16 units including a NUL (R21 and later).
    Unicode,
}

/// One string in the given encoding.
pub open spec fn spec_rd_str(b: Seq<u8>, pos: int, enc: StringEncoding) -> (core::result::Result<Seq<char>, Error>, int) {
    match enc {
        StringEncoding::Ansi => spec_rd_lenstr(b, pos),
        StringEncoding::Unicode => spec_rd_ustr(b, pos, false),
    }
}

/// `n` strings in a row, or the first read's error.
pub open spec fn spec_rd_strs(b: Seq<u8>, pos: int, enc: StringEncoding, n: nat) -> core::result::Result<
    (Seq<Seq<char>>, int),
    Error,
>
    decreases n,
{
    if n == 0 {
        Ok((Seq::empty(), pos))
    } else {
        match spec_rd_str(b, pos, enc) {
            (Err(e), _) => Err(e),
            (Ok(s), p) => match spec_rd_strs(b, p, enc, (n - 1) as nat) {
                Err(e) => Err(e),
                Ok((ss, q)) => Ok((seq![s] + ss, q)),
            },
        }
    }
}

/// `n` `u32`-length strings in a row, or the first read's error.
pub open spec fn spec_rd_lenstr32s(b: Seq<u8>, pos: int, n: nat) -> core::result::Result<(Seq<Seq<char>>, int), Error>
    decreases n,
{
    if n == 0 {
        Ok((Seq::empty(), pos))
    } else {
        match spec_rd_lenstr32(b, pos) {
            (Err(e), _) => Err(e),
            (Ok(s), p) => match spec_rd_lenstr32s(b, p, (n - 1) as nat) {
                Err(e) => Err(e),
                Ok((ss, q)) => Ok((seq![s] + ss, q)),
            },
        }
    }
}

pub proof fn lemma_rd_strs_len(b: Seq<u8>, pos: int, enc: StringEncoding, n: nat)
    ensures
        spec_rd_strs(b, pos, enc, n) matches Ok((ss, _)) ==> ss.len() == n,
    decreases n,
{
    if n > 0 {
        lemma_rd_strs_len(b, spec_rd_str(b, pos, enc).1, enc, (n - 1) as nat);
    }
}

/// The texts of `v`.
pub open spec fn spec_texts(v: Seq<String>) -> Seq<Seq<char>> {
    Seq::new(v.len(), |i: int| v[i]@)
}

/// `done` followed by what `r` read.
pub open spec fn spec_prepend(done: Seq<Seq<char>>, r: core::result::Result<(Seq<Seq<char>>, int), Error>) -> core::result::Result<
    (Seq<Seq<char>>, int),
    Error,
> {
    match r {
        Err(e) => Err(e),
        Ok((ss, q)) => Ok((done + ss, q)),
    }
}

/// One string in the given encoding.
fn read_str(c: &mut ByteCursor, enc: StringEncoding) -> (r: Result<String>)
    requires
        old(c).wf(),
    ensures
        final(c).wf(),
        final(c).data() == old(c).data(),
        final(c).pos() == spec_rd_str(old(c).data(), old(c).pos(), enc).1,
        match spec_rd_str(old(c).data(), old(c).pos(), enc).0 {
            Ok(s) => r matches Ok(x) && x@ == s,
            Err(e) => r == Err::<String, Error>(e),
        },
{
    match enc {
        StringEncoding::Ansi => c.read_lenstr(),
        StringEncoding::Unicode => c.read_unicode_lenstr_inclusive_nul(),
    }
}

/// `n` strings in a row.
fn read_strs(c: &mut ByteCursor, enc: StringEncoding, n: usize) -> (r: Result<Vec<String>>)
    requires
        old(c).wf(),
    ensures
        final(c).wf(),
        final(c).data() == old(c).data(),
        match spec_rd_strs(old(c).data(), old(c).pos(), enc, n as nat) {
            Ok((ss, q)) => r matches Ok(v) && spec_texts(v@) == ss && final(c).pos() == q,
            Err(e) => r == Err::<Vec<String>, Error>(e),
        },
{
    let ghost b = c.data();
    let ghost target = spec_rd_strs(b, c.pos(), enc, n as nat);
    let mut out: Vec<String> = Vec::new();
    let mut k: usize = 0;
    while k < n
        invariant
            c.wf(),
            c.data() == b,
            b == old(c).data(),
            target == spec_rd_strs(old(c).data(), old(c).pos(), enc, n as nat),
            k <= n,
            target == spec_prepend(spec_texts(out@), spec_rd_strs(b, c.pos(), enc, (n - k) as nat)),
        decreases n - k,
    {
        let ghost p0 = c.pos();
        let s = match read_str(c, enc) {
            Ok(s) => s,
            Err(e) => {
                return Err(e);
            },
        };
        let ghost done = spec_texts(out@);
        out.push(s);
        proof {
            assert(spec_texts(out@) =~= done.push(s@));
            match spec_rd_strs(b, c.pos(), enc, (n - k - 1) as nat) {
                Ok((ss, q)) => {
                    assert(done + (seq![s@] + ss) =~= done.push(s@) + ss);
                },
                Err(_) => {},
            }
        }
        k += 1;
    }
    proof {
        assert(spec_texts(out@) + Seq::<Seq<char>>::empty() =~= spec_texts(out@));
    }
    Ok(out)
}

/// `n` `u32`-length strings in a row.
fn read_lenstr32s(c: &mut ByteCursor, n: usize) -> (r: Result<Vec<String>>)
    requires
        old(c).wf(),
    ensures
        final(c).wf(),
        final(c).data() == old(c).data(),
        match spec_rd_lenstr32s(old(c).data(), old(c).pos(), n as nat) {
            Ok((ss, q)) => r matches Ok(v) && spec_texts(v@) == ss && final(c).pos() == q,
            Err(e) => r == Err::<Vec<String>, Error>(e),
        },
{
    let ghost b = c.data();
    let ghost target = spec_rd_lenstr32s(b, c.pos(), n as nat);
    let mut out: Vec<String> = Vec::new();
    let mut k: usize = 0;
    while k < n
        invariant
            c.wf(),
            c.data() == b,
            b == old(c).data(),
            target == spec_rd_lenstr32s(old(c).data(), old(c).pos(), n as nat),
            k <= n,
            target == spec_prepend(spec_texts(out@), spec_rd_lenstr32s(b, c.pos(), (n - k) as nat)),
        decreases n - k,
    {
        let s = match c.read_lenstr32() {
            Ok(s) => s,
            Err(e) => {
                return Err(e);
            },
        };
        let ghost done = spec_texts(out@);
        out.push(s);
        proof {
            assert(spec_texts(out@) =~= done.push(s@));
            match spec_rd_lenstr32s(b, c.pos(), (n - k - 1) as nat) {
                Ok((ss, q)) => {
                    assert(done + (seq![s@] + ss) =~= done.push(s@) + ss);
                },
                Err(_) => {},
            }
        }
        k += 1;
    }
    proof {
        assert(spec_texts(out@) + Seq::<Seq<char>>::empty() =~= spec_texts(out@));
    }
    Ok(out)
}

// ----------------------------------------------------------------
// SummaryInfo.
// ----------------------------------------------------------------

/// Drawing-level metadata: title, author, keywords, and custom
/// property key/value pairs.
#[derive(Debug, Clone, PartialEq, Eq)]
pub struct SummaryInfo {
    pub title: String,
    pub subject: String,
    pub author: String,
    pub keywords: String,
    pub comments: String,
    pub last_saved_by: String,
    pub revision_number: String,
    pub hyperlink_base: String,
    /// Total editing time, raw.
    pub total_edit_time_raw: [u8; 8],
    /// Creation date (Julian day and milliseconds), raw.
    pub create_date_raw: [u8; 8],
    /// Modification date, raw.
    pub modified_date_raw: [u8; 8],
    /// Custom property key/value pairs.
    pub properties: Vec<(String, String)>,
}

impl Default for SummaryInfo {
    fn default() -> (s: SummaryInfo)
        ensures
            s.title@.len() == 0 && s.subject@.len() == 0 && s.author@.len() == 0 && s.keywords@.len() == 0,
            s.comments@.len() == 0 && s.last_saved_by@.len() == 0 && s.revision_number@.len() == 0,
            s.hyperlink_base@.len() == 0,
            s.total_edit_time_raw@ == Seq::new(8, |i: int| 0u8),
            s.create_date_raw@ == Seq::new(8, |i: int| 0u8),
            s.modified_date_raw@ == Seq::new(8, |i: int| 0u8),
            s.properties@.len() == 0,
    {
        let s = SummaryInfo {
            title: String::new(),
            subject: String::new(),
            author: String::new(),
            keywords: String::new(),
            comments: String::new(),
            last_saved_by: String::new(),
            revision_number: String::new(),
            hyperlink_base: String::new(),
            total_edit_time_raw: [0, 0, 0, 0, 0, 0, 0, 0],
            create_date_raw: [0, 0, 0, 0, 0, 0, 0, 0],
            modified_date_raw: [0, 0, 0, 0, 0, 0, 0, 0],
            properties: Vec::new(),
        };
        proof {
            assert(s.total_edit_time_raw@ =~= Seq::new(8, |i: int| 0u8));
        }
        s
    }
}

/// The layout of a SummaryInfo section in one encoding: its eight
/// strings, where its three 8-byte dates start, its property strings
/// (key, value, key, value, ...), and where the last property ends.
pub open spec fn spec_summary_layout(b: Seq<u8>, enc: StringEncoding) -> core::result::Result<
    (Seq<Seq<char>>, int, Seq<Seq<char>>, int),
    Error,
> {
    match spec_rd_strs(b, 0, enc, 8) {
        Err(e) => Err(e),
        Ok((head, p)) => if p + 8 > b.len() {
            Err(spec_truncated(b, p, 8))
        } else if p + 16 > b.len() {
            Err(spec_truncated(b, p + 8, 8))
        } else if p + 24 > b.len() {
            Err(spec_truncated(b, p + 16, 8))
        } else {
            match spec_rd_u16(b, p + 24) {
                (Err(e), _) => Err(e),
                (Ok(count), q) => match spec_rd_strs(b, q, enc, (2 * count) as nat) {
                    Err(e) => Err(e),
                    Ok((props, end)) => Ok((head, p, props, end)),
                },
            }
        },
    }
}

/// Whether `b` reads completely as a SummaryInfo section in `enc`:
/// the layout reads without error and its last property ends where
/// `b` ends.
pub open spec fn spec_summary_whole(b: Seq<u8>, enc: StringEncoding) -> bool {
    spec_summary_layout(b, enc) matches Ok(l) && l.3 == b.len()
}

/// `si` holds what the layout `l` of `b` reads.
pub open spec fn spec_summary_matches(
    si: SummaryInfo,
    b: Seq<u8>,
    l: (Seq<Seq<char>>, int, Seq<Seq<char>>, int),
) -> bool {
    let (head, p, props, _) = l;
    &&& si.title@ == head[0]
    &&& si.subject@ == head[1]
    &&& si.author@ == head[2]
    &&& si.keywords@ == head[3]
    &&& si.comments@ == head[4]
    &&& si.last_saved_by@ == head[5]
    &&& si.revision_number@ == head[6]
    &&& si.hyperlink_base@ == head[7]
    &&& si.total_edit_time_raw@ == b.subrange(p, p + 8)
    &&& si.create_date_raw@ == b.subrange(p + 8, p + 16)
    &&& si.modified_date_raw@ == b.subrange(p + 16, p + 24)
    &&& 2 * si.properties@.len() == props.len()
    &&& forall|i: int|
        0 <= i < si.properties@.len() ==> (#[trigger] si.properties@[i]).0@ == props[2 * i]
            && si.properties@[i].1@ == props[2 * i + 1]
}

impl SummaryInfo {
    /// Parse a decompressed `AcDb:SummaryInfo` payload: as UTF-16
    /// strings (R21 and later) when that layout reads the whole buffer
    /// without error, else as 8-bit strings (R18), whose error is
    /// reported.
    pub fn parse(bytes: &[u8]) -> (res: Result<SummaryInfo>)
        ensures
            if spec_summary_whole(bytes@, StringEncoding::Unicode) {
                res matches Ok(si) && spec_summary_matches(
                    si,
                    bytes@,
                    spec_summary_layout(bytes@, StringEncoding::Unicode)->Ok_0,
                )
            } else {
                match spec_summary_layout(bytes@, StringEncoding::Ansi) {
                    Ok(l) => res matches Ok(si) && spec_summary_matches(si, bytes@, l),
                    Err(e) => res == Err::<SummaryInfo, Error>(e),
                }
            },
    {
        match SummaryInfo::parse_with(bytes, StringEncoding::Unicode) {
            Ok((si, end)) => {
                if end == bytes.len() {
                    return Ok(si);
                }
            },
            Err(_) => {},
        }
        match SummaryInfo::parse_with(bytes, StringEncoding::Ansi) {
            Ok((si, _)) => Ok(si),
            Err(e) => Err(e),
        }
    }

    fn parse_with(bytes: &[u8], enc: StringEncoding) -> (res: Result<(SummaryInfo, usize)>)
        ensures
            match spec_summary_layout(bytes@, enc) {
                Ok(l) => res matches Ok((si, end)) && spec_summary_matches(si, bytes@, l) && end == l.3,
                Err(e) => res == Err::<(SummaryInfo, usize), Error>(e),
            },
    {
        let mut c = ByteCursor::new(bytes);
        proof {
            lemma_rd_strs_len(bytes@, 0, enc, 8);
        }
        let head = match read_strs(&mut c, enc, 8) {
            Ok(v) => v,
            Err(e) => {
                return Err(e);
            },
        };
        assert(head@.len() == spec_texts(head@).len());
        let total_edit_time_raw = match c.read_array() {
            Ok(a) => a,
            Err(e) => {
                return Err(e);
            },
        };
        let create_date_raw = match c.read_array() {
            Ok(a) => a,
            Err(e) => {
                return Err(e);
            },
        };
        let modified_date_raw = match c.read_array() {
            Ok(a) => a,
            Err(e) => {
                return Err(e);
            },
        };
        let prop_count = match c.read_u16() {
            Ok(v) => v as usize,
            Err(e) => {
                return Err(e);
            },
        };
        proof {
            lemma_rd_strs_len(bytes@, c.pos(), enc, (2 * prop_count) as nat);
        }
        let flat = match read_strs(&mut c, enc, 2 * prop_count) {
            Ok(v) => v,
            Err(e) => {
                return Err(e);
            },
        };
        assert(flat@.len() == spec_texts(flat@).len());
        let end = c.position();
        let mut properties: Vec<(String, String)> = Vec::new();
        let mut i: usize = 0;
        while i < prop_count
            invariant
                i <= prop_count <= 0xFFFF,
                flat@.len() == 2 * prop_count,
                properties@.len() == i,
                forall|j: int|
                    0 <= j < i ==> (#[trigger] properties@[j]).0@ == flat@[2 * j]@ && properties@[j].1@ == flat@[2
                        * j + 1]@,
            decreases prop_count - i,
        {
            let key = flat[2 * i].clone();
            let value = flat[2 * i + 1].clone();
            properties.push((key, value));
            i += 1;
        }
        Ok(
            (SummaryInfo {
                title: head[0].clone(),
                subject: head[1].clone(),
                author: head[2].clone(),
                keywords: head[3].clone(),
                comments: head[4].clone(),
                last_saved_by: head[5].clone(),
                revision_number: head[6].clone(),
                hyperlink_base: head[7].clone(),
                total_edit_time_raw,
                create_date_raw,
                modified_date_raw,
                properties,
            }, end),
        )
    }
}

// ----------------------------------------------------------------
// AppInfo.
// ----------------------------------------------------------------

/// The application that wrote the file.
#[derive(Debug, Clone, PartialEq, Eq)]
pub struct AppInfo {
    /// `"AppInfoDataList"` in the files common writers produce.
    pub name: String,
    /// Product information XML (R18).
    pub product_xml: String,
    /// Application version.
    pub version: String,
    /// Free-form comment (R21 and later).
    pub comment: String,
    /// Free-form product string (R21 and later).
    pub product: String,
}

impl Default for AppInfo {
    fn default() -> (a: AppInfo)
        ensures
            a.name@.len() == 0 && a.product_xml@.len() == 0 && a.version@.len() == 0,
            a.comment@.len() == 0 && a.product@.len() == 0,
    {
        AppInfo {
            name: String::new(),
            product_xml: String::new(),
            version: String::new(),
            comment: String::new(),
            product: String::new(),
        }
    }
}

/// The text of a read that may fail: empty on failure.
pub open spec fn spec_or_empty(r: core::result::Result<Seq<char>, Error>) -> Seq<char> {
    match r {
        Ok(s) => s,
        Err(_) => Seq::empty(),
    }
}

/// The R18 layout: name, a `u32`, a string, the product XML, and an
/// optional version; yields `(name, product_xml, version)`.
pub open spec fn spec_app_r18(b: Seq<u8>) -> core::result::Result<(Seq<char>, Seq<char>, Seq<char>), Error> {
    match spec_rd_lenstr(b, 0) {
        (Err(e), _) => Err(e),
        (Ok(name), p1) => match spec_rd_u32(b, p1) {
            (Err(e), _) => Err(e),
            (Ok(_), p2) => match spec_rd_lenstr(b, p2) {
                (Err(e), _) => Err(e),
                (Ok(_), p3) => match spec_rd_lenstr(b, p3) {
                    (Err(e), _) => Err(e),
                    (Ok(xml), p4) => Ok((name, xml, spec_or_empty(spec_rd_lenstr(b, p4).0))),
                },
            },
        },
    }
}

/// The R21 layout (after its leading `u32`): UTF-16 name, a `u32`, 16
/// checksum bytes, UTF-16 version, 16 bytes, optional comment, 16
/// bytes, optional product, optional 8-bit version that wins when not
/// empty; yields `(name, version, comment, product)`.
pub open spec fn spec_app_r21(b: Seq<u8>) -> core::result::Result<(Seq<char>, Seq<char>, Seq<char>, Seq<char>), Error> {
    match spec_rd_ustr(b, 0, true) {
        (Err(e), _) => Err(e),
        (Ok(name), p1) => match spec_rd_u32(b, p1) {
            (Err(e), _) => Err(e),
            (Ok(_), p2) => match spec_skip(b, p2, 16) {
                (Err(e), _) => Err(e),
                (Ok(_), p3) => match spec_rd_ustr(b, p3, true) {
                    (Err(e), _) => Err(e),
                    (Ok(ver), p4) => match spec_skip(b, p4, 16) {
                        (Err(e), _) => Err(e),
                        (Ok(_), p5) => {
                            let (cr, p6) = spec_rd_ustr(b, p5, true);
                            match spec_skip(b, p6, 16) {
                                (Err(e), _) => Err(e),
                                (Ok(_), p7) => {
                                    let (pr, p8) = spec_rd_ustr(b, p7, true);
                                    let app = spec_or_empty(spec_rd_lenstr(b, p8).0);
                                    Ok(
                                        (
                                            name,
                                            if app.len() == 0 {
                                                ver
                                            } else {
                                                app
                                            },
                                            spec_or_empty(cr),
                                            spec_or_empty(pr),
                                        ),
                                    )
                                },
                            }
                        },
                    },
                },
            },
        },
    }
}

/// Whether `b` opens with the `u32` 2 or 3 that marks the R21 layout.
pub open spec fn spec_app_is_r21(b: Seq<u8>) -> bool {
    b.len() >= 4 && (spec_le32_value(b, 0) == 2 || spec_le32_value(b, 0) == 3)
}

impl AppInfo {
    /// Parse an `AcDb:AppInfo` payload: the R21 layout when the payload
    /// opens with 2 or 3 and the rest reads as that layout, else the
    /// R18 layout, whose error is reported.
    pub fn parse(bytes: &[u8]) -> (res: Result<AppInfo>)
        ensures
            if spec_app_is_r21(bytes@) && spec_app_r21(bytes@.subrange(4, bytes@.len() as int)) is Ok {
                let (name, version, comment, product) = spec_app_r21(
                    bytes@.subrange(4, bytes@.len() as int),
                )->Ok_0;
                res matches Ok(a) && a.name@ == name && a.product_xml@.len() == 0 && a.version@ == version
                    && a.comment@ == comment && a.product@ == product
            } else {
                match spec_app_r18(bytes@) {
                    Ok((name, xml, version)) => res matches Ok(a) && a.name@ == name && a.product_xml@ == xml
                        && a.version@ == version && a.comment@.len() == 0 && a.product@.len() == 0,
                    Err(e) => res == Err::<AppInfo, Error>(e),
                }
            },
    {
        if bytes.len() >= 4 {
            proof {
                lemma_le_at(bytes@, 0);
            }
            let maybe_unknown = le_read_u32(&bytes[0..4]);
            if maybe_unknown == 2 || maybe_unknown == 3 {
                match AppInfo::parse_r21(&bytes[4..bytes.len()]) {
                    Ok(ai) => {
                        return Ok(ai);
                    },
                    Err(_) => {},
                }
            }
        }
        AppInfo::parse_r18(bytes)
    }

    fn parse_r18(bytes: &[u8]) -> (res: Result<AppInfo>)
        ensures
            match spec_app_r18(bytes@) {
                Ok((name, xml, version)) => res matches Ok(a) && a.name@ == name && a.product_xml@ == xml
                    && a.version@ == version && a.comment@.len() == 0 && a.product@.len() == 0,
                Err(e) => res == Err::<AppInfo, Error>(e),
            },
    {
        let mut c = ByteCursor::new(bytes);
        let name = match c.read_lenstr() {
            Ok(s) => s,
            Err(e) => {
                return Err(e);
            },
        };
        match c.read_u32() {
            Ok(_) => {},
            Err(e) => {
                return Err(e);
            },
        }
        match c.read_lenstr() {
            Ok(_) => {},
            Err(e) => {
                return Err(e);
            },
        }
        let product_xml = match c.read_lenstr() {
            Ok(s) => s,
            Err(e) => {
                return Err(e);
            },
        };
        let version = match c.read_lenstr() {
            Ok(s) => s,
            Err(_) => String::new(),
        };
        Ok(AppInfo { name, product_xml, version, comment: String::new(), product: String::new() })
    }

    fn parse_r21(bytes: &[u8]) -> (res: Result<AppInfo>)
        ensures
            match spec_app_r21(bytes@) {
                Ok((name, version, comment, product)) => res matches Ok(a) && a.name@ == name
                    && a.product_xml@.len() == 0 && a.version@ == version && a.comment@ == comment
                    && a.product@ == product,
                Err(e) => res == Err::<AppInfo, Error>(e),
            },
    {
        let mut c = ByteCursor::new(bytes);
        let name = match c.read_unicode_lenstr() {
            Ok(s) => s,
            Err(e) => {
                return Err(e);
            },
        };
        match c.read_u32() {
            Ok(_) => {},
            Err(e) => {
                return Err(e);
            },
        }
        match c.skip(16) {
            Ok(()) => {},
            Err(e) => {
                return Err(e);
            },
        }
        let version = match c.read_unicode_lenstr() {
            Ok(s) => s,
            Err(e) => {
                return Err(e);
            },
        };
        match c.skip(16) {
            Ok(()) => {},
            Err(e) => {
                return Err(e);
            },
        }
        let comment = match c.read_unicode_lenstr() {
            Ok(s) => s,
            Err(_) => String::new(),
        };
        match c.skip(16) {
            Ok(()) => {},
            Err(e) => {
                return Err(e);
            },
        }
        let product = match c.read_unicode_lenstr() {
            Ok(s) => s,
            Err(_) => String::new(),
        };
        let app_version = match c.read_lenstr() {
            Ok(s) => s,
            Err(_) => String::new(),
        };
        let version = if app_version.as_str().is_empty() {
            version
        } else {
            app_version
        };
        Ok(AppInfo { name, product_xml: String::new(), version, comment, product })
    }
}

// ----------------------------------------------------------------
// FileDepList.
// ----------------------------------------------------------------

/// One entry of the file-dependency list.
#[derive(Debug, Clone, PartialEq, Eq)]
pub struct FileDependency {
    pub full_filename: String,
    pub found_path: String,
    pub fingerprint_guid: String,
    pub version_guid: String,
    pub feature_index: i32,
    pub timestamp: i32,
    pub filesize: i32,
    pub affects_graphics: bool,
    pub reference_count: i32,
}

/// The file-dependency list: named features and the files that
/// depend on them.
#[derive(Debug, Clone, PartialEq, Eq)]
pub struct FileDepList {
    /// Named features (`"Acad:XRef"`, `"Acad:Image"`, ...).
    pub features: Vec<String>,
    /// Per-file dependencies.
    pub files: Vec<FileDependency>,
}

impl Default for FileDependency {
    fn default() -> (d: FileDependency)
        ensures
            d.full_filename@.len() == 0 && d.found_path@.len() == 0,
            d.fingerprint_guid@.len() == 0 && d.version_guid@.len() == 0,
            d.feature_index == 0 && d.timestamp == 0 && d.filesize == 0 && !d.affects_graphics,
            d.reference_count == 0,
    {
        FileDependency {
            full_filename: String::new(),
            found_path: String::new(),
            fingerprint_guid: String::new(),
            version_guid: String::new(),
            feature_index: 0,
            timestamp: 0,
            filesize: 0,
            affects_graphics: false,
            reference_count: 0,
        }
    }
}

impl Default for FileDepList {
    fn default() -> (d: FileDepList)
        ensures
            d.features@.len() == 0 && d.files@.len() == 0,
    {
        FileDepList { features: Vec::new(), files: Vec::new() }
    }
}

/// One file entry: four `u32`-length strings, `feature_index`,
/// `timestamp`, `filesize` (`u32`s read as `i32`), `affects_graphics`
/// (a `u16`, true when not 0) and `reference_count`.
pub open spec fn spec_rd_file(b: Seq<u8>, pos: int) -> core::result::Result<
    (Seq<Seq<char>>, i32, i32, i32, bool, i32, int),
    Error,
> {
    match spec_rd_lenstr32s(b, pos, 4) {
        Err(e) => Err(e),
        Ok((names, p)) => match spec_rd_u32(b, p) {
            (Err(e), _) => Err(e),
            (Ok(fi), p1) => match spec_rd_u32(b, p1) {
                (Err(e), _) => Err(e),
                (Ok(ts), p2) => match spec_rd_u32(b, p2) {
                    (Err(e), _) => Err(e),
                    (Ok(fs), p3) => match spec_rd_u16(b, p3) {
                        (Err(e), _) => Err(e),
                        (Ok(ag), p4) => match spec_rd_u32(b, p4) {
                            (Err(e), _) => Err(e),
                            (Ok(rc), p5) => Ok(
                                (
                                    names,
                                    #[verifier::truncate] (fi as i32),
                                    #[verifier::truncate] (ts as i32),
                                    #[verifier::truncate] (fs as i32),
                                    ag != 0,
                                    #[verifier::truncate] (rc as i32),
                                    p5,
                                ),
                            ),
                        },
                    },
                },
            },
        },
    }
}

/// `f` holds the file entry `r`.
pub open spec fn spec_file_matches(f: FileDependency, r: (Seq<Seq<char>>, i32, i32, i32, bool, i32, int)) -> bool {
    &&& f.full_filename@ == r.0[0]
    &&& f.found_path@ == r.0[1]
    &&& f.fingerprint_guid@ == r.0[2]
    &&& f.version_guid@ == r.0[3]
    &&& f.feature_index == r.1
    &&& f.timestamp == r.2
    &&& f.filesize == r.3
    &&& f.affects_graphics == r.4
    &&& f.reference_count == r.5
}

/// `n` file entries in a row.
pub open spec fn spec_rd_files(b: Seq<u8>, pos: int, n: nat) -> core::result::Result<
    (Seq<(Seq<Seq<char>>, i32, i32, i32, bool, i32, int)>, int),
    Error,
>
    decreases n,
{
    if n == 0 {
        Ok((Seq::empty(), pos))
    } else {
        match spec_rd_file(b, pos) {
            Err(e) => Err(e),
            Ok(r) => match spec_rd_files(b, r.6, (n - 1) as nat) {
                Err(e) => Err(e),
                Ok((rs, q)) => Ok((seq![r] + rs, q)),
            },
        }
    }
}

/// The layout of a FileDepList section: a `u32` count of features,
/// the features, a `u32` count of files, the files.
pub open spec fn spec_file_dep_list(b: Seq<u8>) -> core::result::Result<
    (Seq<Seq<char>>, Seq<(Seq<Seq<char>>, i32, i32, i32, bool, i32, int)>),
    Error,
> {
    match spec_rd_u32(b, 0) {
        (Err(e), _) => Err(e),
        (Ok(fc), p) => match spec_rd_lenstr32s(b, p, fc as nat) {
            Err(e) => Err(e),
            Ok((features, q)) => match spec_rd_u32(b, q) {
                (Err(e), _) => Err(e),
                (Ok(nc), r) => match spec_rd_files(b, r, nc as nat) {
                    Err(e) => Err(e),
                    Ok((files, _)) => Ok((features, files)),
                },
            },
        },
    }
}

pub proof fn lemma_rd_lenstr32s_len(b: Seq<u8>, pos: int, n: nat)
    ensures
        spec_rd_lenstr32s(b, pos, n) matches Ok((ss, _)) ==> ss.len() == n,
    decreases n,
{
    if n > 0 {
        lemma_rd_lenstr32s_len(b, spec_rd_lenstr32(b, pos).1, (n - 1) as nat);
    }
}

/// One file entry.
fn read_file(c: &mut ByteCursor) -> (res: Result<FileDependency>)
    requires
        old(c).wf(),
    ensures
        final(c).wf(),
        final(c).data() == old(c).data(),
        match spec_rd_file(old(c).data(), old(c).pos()) {
            Ok(r) => res matches Ok(f) && spec_file_matches(f, r) && final(c).pos() == r.6,
            Err(e) => res == Err::<FileDependency, Error>(e),
        },
{
    proof {
        lemma_rd_lenstr32s_len(c.data(), c.pos(), 4);
    }
    let names = match read_lenstr32s(c, 4) {
        Ok(v) => v,
        Err(e) => {
            return Err(e);
        },
    };
    assert(names@.len() == spec_texts(names@).len());
    let feature_index = match c.read_u32() {
        Ok(v) => #[verifier::truncate] (v as i32),
        Err(e) => {
            return Err(e);
        },
    };
    let timestamp = match c.read_u32() {
        Ok(v) => #[verifier::truncate] (v as i32),
        Err(e) => {
            return Err(e);
        },
    };
    let filesize = match c.read_u32() {
        Ok(v) => #[verifier::truncate] (v as i32),
        Err(e) => {
            return Err(e);
        },
    };
    let affects_graphics = match c.read_u16() {
        Ok(v) => v != 0,
        Err(e) => {
            return Err(e);
        },
    };
    let reference_count = match c.read_u32() {
        Ok(v) => #[verifier::truncate] (v as i32),
        Err(e) => {
            return Err(e);
        },
    };
    Ok(
        FileDependency {
            full_filename: names[0].clone(),
            found_path: names[1].clone(),
            fingerprint_guid: names[2].clone(),
            version_guid: names[3].clone(),
            feature_index,
            timestamp,
            filesize,
            affects_graphics,
            reference_count,
        },
    )
}

impl FileDepList {
    /// Parse an `AcDb:FileDepList` payload.
    pub fn parse(bytes: &[u8]) -> (res: Result<FileDepList>)
        ensures
            match spec_file_dep_list(bytes@) {
                Ok((features, files)) => res matches Ok(d) && spec_texts(d.features@) == features
                    && d.files@.len() == files.len() && forall|i: int|
                    0 <= i < files.len() ==> spec_file_matches(#[trigger] d.files@[i], files[i]),
                Err(e) => res == Err::<FileDepList, Error>(e),
            },
    {
        let mut c = ByteCursor::new(bytes);
        let feature_count = match c.read_u32() {
            Ok(v) => v as usize,
            Err(e) => {
                return Err(e);
            },
        };
        let features = match read_lenstr32s(&mut c, feature_count) {
            Ok(v) => v,
            Err(e) => {
                return Err(e);
            },
        };
        let file_count = match c.read_u32() {
            Ok(v) => v as usize,
            Err(e) => {
                return Err(e);
            },
        };
        let ghost b = bytes@;
        let ghost target = spec_rd_files(b, c.pos(), file_count as nat);
        assert(spec_file_dep_list(bytes@) == match target {
            Err(e) => Err(e),
            Ok((fs, _)) => Ok((spec_texts(features@), fs)),
        });
        let mut files: Vec<FileDependency> = Vec::new();
        let ghost mut done: Seq<(Seq<Seq<char>>, i32, i32, i32, bool, i32, int)> = Seq::empty();
        let mut k: usize = 0;
        while k < file_count
            invariant
                c.wf(),
                c.data() == b,
                b == bytes@,
                spec_file_dep_list(bytes@) == match target {
                    Err(e) => Err(e),
                    Ok((fs, _)) => Ok((spec_texts(features@), fs)),
                },
                k <= file_count,
                files@.len() == done.len(),
                forall|i: int| 0 <= i < done.len() ==> spec_file_matches(#[trigger] files@[i], done[i]),
                target == match spec_rd_files(b, c.pos(), (file_count - k) as nat) {
                    Err(e) => Err(e),
                    Ok((rs, q)) => Ok((done + rs, q)),
                },
            decreases file_count - k,
        {
            let ghost p0 = c.pos();
            let f = match read_file(&mut c) {
                Ok(f) => f,
                Err(e) => {
                    return Err(e);
                },
            };
            let ghost files_before = files@;
            let ghost done_before = done;
            proof {
                let r = spec_rd_file(b, p0)->Ok_0;
                match spec_rd_files(b, c.pos(), (file_count - k - 1) as nat) {
                    Ok((rs, q)) => {
                        assert(done + (seq![r] + rs) =~= done.push(r) + rs);
                    },
                    Err(_) => {},
                }
                done = done.push(r);
            }
            files.push(f);
            proof {
                assert forall|i: int| 0 <= i < done.len() implies spec_file_matches(#[trigger] files@[i], done[i]) by {
                    if i < files_before.len() {
                        assert(files@[i] == files_before[i]);
                        assert(done[i] == done_before[i]);
                    }
                }
            }
            k += 1;
        }
        proof {
            assert(done + Seq::<(Seq<Seq<char>>, i32, i32, i32, bool, i32, int)>::empty() =~= done);
        }
        Ok(FileDepList { features, files })
    }
}

// ----------------------------------------------------------------
// Preview.
// ----------------------------------------------------------------

/// Thumbnail image embedded in the drawing.
#[derive(Debug, Clone, PartialEq, Eq)]
pub struct Preview {
    /// Overall size reported by the preview header.
    pub overall_size: u32,
    /// The bitmap (a BMP, or the PNG of newer releases), if present.
    pub bmp: Option<Vec<u8>>,
    /// The Windows Metafile, if present.
    pub wmf: Option<Vec<u8>>,
    /// The per-image header data, if present.
    pub header_data: Option<Vec<u8>>,
}

/// The sentinel that opens a preview section.
pub open spec fn spec_start_sentinel() -> Seq<u8> {
    seq![0x1Fu8, 0x25, 0x6D, 0x07, 0xD4, 0x36, 0x28, 0x28, 0x9D, 0x57, 0xCA, 0x3F, 0x9D, 0x44, 0x10, 0x2B]
}

/// The sentinel that closes a preview body.
pub open spec fn spec_end_sentinel() -> Seq<u8> {
    seq![0xE0u8, 0xDA, 0x92, 0xF8, 0x2B, 0xC9, 0xD7, 0xD7, 0x62, 0xA8, 0x35, 0xC0, 0x62, 0xBB, 0xEF, 0xD4]
}

/// The PNG signature.
pub open spec fn spec_png_magic() -> Seq<u8> {
    seq![0x89u8, 0x50, 0x4E, 0x47, 0x0D, 0x0A, 0x1A, 0x0A]
}

/// The BMP signature, `"BM"`.
pub open spec fn spec_bmp_magic() -> Seq<u8> {
    seq![0x42u8, 0x4D]
}

/// Where the images of a preview lie, as `(start, size)` in the whole
/// payload: the entries' header data, BMP, WMF and PNG.
#[derive(Debug, Clone, Copy)]
pub struct PreviewRanges {
    pub header: Option<(usize, usize)>,
    pub bmp: Option<(usize, usize)>,
    pub wmf: Option<(usize, usize)>,
    pub png: Option<(usize, usize)>,
}

/// Read `left` image entries (code `u8`, start `u32`, size `u32`) from
/// `pos`, each recording its range under its code (1 header data, 2
/// BMP, 3 WMF, 6 PNG, others ignored); the first entry that cannot be
/// read ends the list.
pub open spec fn spec_preview_entries(b: Seq<u8>, pos: int, left: nat, r: PreviewRanges) -> PreviewRanges
    decreases left,
{
    if left == 0 {
        r
    } else {
        match spec_rd_u8(b, pos) {
            (Err(_), _) => r,
            (Ok(code), p1) => {
                let (s, p2) = spec_rd_u32(b, p1);
                let (z, p3) = spec_rd_u32(b, p2);
                match (s, z) {
                    (Ok(start), Ok(size)) => {
                        let rr = Some((start as usize, size as usize));
                        let r2 = if code == 1 {
                            PreviewRanges { header: rr, ..r }
                        } else if code == 2 {
                            PreviewRanges { bmp: rr, ..r }
                        } else if code == 3 {
                            PreviewRanges { wmf: rr, ..r }
                        } else if code == 6 {
                            PreviewRanges { png: rr, ..r }
                        } else {
                            r
                        };
                        spec_preview_entries(b, p3, (left - 1) as nat, r2)
                    },
                    _ => r,
                }
            },
        }
    }
}

/// The bytes of a range: none for a missing range, a zero start or
/// size, or one past the end of `b`.
pub open spec fn spec_extract(b: Seq<u8>, range: Option<(usize, usize)>) -> Option<Seq<u8>> {
    match range {
        None => None,
        Some((start, size)) => if start == 0 || size == 0 || start + size > usize::MAX || start + size > b.len() {
            None
        } else {
            Some(b.subrange(start as int, start + size))
        },
    }
}

/// The first `i` in `[from, limit)` where a PNG signature, or a BMP
/// signature with more than 54 bytes from it to the end, begins.
pub open spec fn spec_carve_start(b: Seq<u8>, from: int, limit: int) -> Option<int>
    decreases limit - from,
{
    if from >= limit {
        None
    } else if b.subrange(from, from + 8) == spec_png_magic() {
        Some(from)
    } else if b.subrange(from, from + 2) == spec_bmp_magic() && b.len() - from > 54 {
        Some(from)
    } else {
        spec_carve_start(b, from + 1, limit)
    }
}

/// The last start `j < k` of an end sentinel, or -1.
pub open spec fn spec_rfind_end(b: Seq<u8>, k: int) -> int
    decreases k,
{
    if k <= 0 {
        -1
    } else if b.subrange(k - 1, k + 15) == spec_end_sentinel() {
        k - 1
    } else {
        spec_rfind_end(b, k - 1)
    }
}

/// Where the last end sentinel starts, or the length of `b`.
pub open spec fn spec_end_of_image(b: Seq<u8>) -> int {
    if b.len() < 16 {
        b.len() as int
    } else {
        let j = spec_rfind_end(b, b.len() - 15);
        if j < 0 {
            b.len() as int
        } else {
            j
        }
    }
}

/// The image carved out of a payload whose table of contents gave
/// none: from the first PNG or BMP signature after the start sentinel
/// to the last end sentinel (or the end).
pub open spec fn spec_carve(b: Seq<u8>) -> Option<Seq<u8>> {
    let limit = if b.len() >= 8 {
        b.len() - 8
    } else {
        0
    };
    match spec_carve_start(b, 16, limit) {
        None => None,
        Some(s) => {
            let e = spec_end_of_image(b);
            Some(b.subrange(s, if e >= s { e } else { s }))
        },
    }
}

/// The table of contents of a preview payload that opens with the
/// start sentinel: overall size (0 when unreadable) and image ranges.
pub open spec fn spec_preview_toc(b: Seq<u8>) -> (u32, PreviewRanges) {
    let s = b.subrange(16, b.len() as int);
    let (ov, p1) = spec_rd_u32(s, 0);
    let (ic, p2) = spec_rd_u8(s, p1);
    let count: u8 = match ic {
        Ok(c) => c,
        Err(_) => 0,
    };
    let none = PreviewRanges { header: None, bmp: None, wmf: None, png: None };
    (
        match ov {
            Ok(v) => v,
            Err(_) => 0,
        },
        spec_preview_entries(s, p2, count as nat, none),
    )
}

/// The bitmap of a preview payload: the BMP range, else the PNG range,
/// else (when there is no WMF either) the carved image.
pub open spec fn spec_preview_bmp(b: Seq<u8>) -> Option<Seq<u8>> {
    let r = spec_preview_toc(b).1;
    let from_toc = match spec_extract(b, r.bmp) {
        Some(x) => Some(x),
        None => spec_extract(b, r.png),
    };
    if from_toc is None && spec_extract(b, r.wmf) is None {
        spec_carve(b)
    } else {
        from_toc
    }
}

/// `o` holds `s`.
pub open spec fn spec_opt_bytes(o: Option<Vec<u8>>, s: Option<Seq<u8>>) -> bool {
    match s {
        None => o is None,
        Some(x) => o matches Some(v) && v@ == x,
    }
}

/// Whether `pat` occurs in `b` at `at`.
fn matches_at(b: &[u8], at: usize, pat: &[u8]) -> (r: bool)
    requires
        at + pat@.len() <= b@.len(),
    ensures
        r == (b@.subrange(at as int, at + pat@.len()) == pat@),
{
    let n = b.len();
    let mut i: usize = 0;
    while i < pat.len()
        invariant
            n == b@.len(),
            at + pat@.len() <= b@.len(),
            i <= pat@.len(),
            forall|j: int| 0 <= j < i ==> b@[at + j] == pat@[j],
        decreases pat@.len() - i,
    {
        if b[at + i] != pat[i] {
            proof {
                assert(b@.subrange(at as int, at + pat@.len())[i as int] != pat@[i as int]);
            }
            return false;
        }
        i += 1;
    }
    proof {
        assert(b@.subrange(at as int, at + pat@.len()) =~= pat@);
    }
    true
}

/// The bytes of a range of `bytes`, when it is present and valid.
fn extract(bytes: &[u8], range: Option<(usize, usize)>) -> (r: Option<Vec<u8>>)
    ensures
        spec_opt_bytes(r, spec_extract(bytes@, range)),
{
    match range {
        None => None,
        Some((start, size)) => {
            if start == 0 || size == 0 {
                return None;
            }
            let end = match start.checked_add(size) {
                Some(e) => e,
                None => {
                    return None;
                },
            };
            if end > bytes.len() {
                return None;
            }
            let mut v: Vec<u8> = Vec::new();
            push_bytes(&mut v, &bytes[start..end]);
            Some(v)
        },
    }
}

/// Carve an image out of a preview payload (see [`spec_carve`]).
fn carve_image_magic(bytes: &[u8]) -> (r: Option<Vec<u8>>)
    ensures
        spec_opt_bytes(r, spec_carve(bytes@)),
{
    let start = match find_image_start(bytes) {
        Some(s) => s,
        None => {
            return None;
        },
    };
    let end_sentinel_start = last_end_sentinel(bytes);
    let end = if end_sentinel_start >= start {
        end_sentinel_start
    } else {
        start
    };
    let mut v: Vec<u8> = Vec::new();
    push_bytes(&mut v, &bytes[start..end]);
    Some(v)
}

/// Where the carved image starts (see [`spec_carve_start`]).
fn find_image_start(bytes: &[u8]) -> (r: Option<usize>)
    ensures
        r matches Some(s) ==> s < bytes@.len() && spec_carve_start(bytes@, 16, if bytes@.len() >= 8 {
            bytes@.len() - 8
        } else {
            0
        }) == Some(s as int),
        r is None ==> spec_carve_start(bytes@, 16, if bytes@.len() >= 8 {
            bytes@.len() - 8
        } else {
            0
        }) is None,
{
    let png: [u8; 8] = [0x89, 0x50, 0x4E, 0x47, 0x0D, 0x0A, 0x1A, 0x0A];
    let bmp: [u8; 2] = [0x42, 0x4D];
    let limit = bytes.len().saturating_sub(8);
    let mut start: usize = 16;
    while start < limit
        invariant
            limit == if bytes@.len() >= 8 {
                bytes@.len() - 8
            } else {
                0
            },
            16 <= start,
            png@ == spec_png_magic(),
            bmp@ == spec_bmp_magic(),
            spec_carve_start(bytes@, 16, limit as int) == spec_carve_start(bytes@, start as int, limit as int),
        decreases limit - start,
    {
        if matches_at(bytes, start, png.as_slice()) {
            return Some(start);
        }
        if matches_at(bytes, start, bmp.as_slice()) && bytes.len() - start > 54 {
            return Some(start);
        }
        start += 1;
    }
    None
}

/// Where the last end sentinel starts, or the length of `bytes`.
fn last_end_sentinel(bytes: &[u8]) -> (r: usize)
    ensures
        r == spec_end_of_image(bytes@),
        r <= bytes@.len(),
{
    let end: [u8; 16] = [
        0xE0,
        0xDA,
        0x92,
        0xF8,
        0x2B,
        0xC9,
        0xD7,
        0xD7,
        0x62,
        0xA8,
        0x35,
        0xC0,
        0x62,
        0xBB,
        0xEF,
        0xD4,
    ];
    if bytes.len() < 16 {
        return bytes.len();
    }
    let mut k: usize = bytes.len() - 15;
    while k > 0
        invariant
            bytes@.len() >= 16,
            k <= bytes@.len() - 15,
            end@ == spec_end_sentinel(),
            spec_rfind_end(bytes@, bytes@.len() - 15) == spec_rfind_end(bytes@, k as int),
        decreases k,
    {
        if matches_at(bytes, k - 1, end.as_slice()) {
            return k - 1;
        }
        k -= 1;
    }
    bytes.len()
}

impl Preview {
    /// Start sentinel before the preview body.
    pub const START_SENTINEL: [u8; 16] = [
        0x1F,
        0x25,
        0x6D,
        0x07,
        0xD4,
        0x36,
        0x28,
        0x28,
        0x9D,
        0x57,
        0xCA,
        0x3F,
        0x9D,
        0x44,
        0x10,
        0x2B,
    ];

    /// End sentinel after the preview body.
    pub const END_SENTINEL: [u8; 16] = [
        0xE0,
        0xDA,
        0x92,
        0xF8,
        0x2B,
        0xC9,
        0xD7,
        0xD7,
        0x62,
        0xA8,
        0x35,
        0xC0,
        0x62,
        0xBB,
        0xEF,
        0xD4,
    ];

    /// Parse a decompressed `AcDb:Preview` payload: the start sentinel,
    /// then a table of contents of image ranges; where the table yields
    /// no image, one is carved out by its signature.
    pub fn parse(bytes: &[u8]) -> (res: Result<Preview>)
        ensures
            bytes@.len() < 20 || bytes@.subrange(0, 16) != spec_start_sentinel() ==> res matches Err(
                Error::SectionMap(_),
            ),
            bytes@.len() >= 20 && bytes@.subrange(0, 16) == spec_start_sentinel() ==> (res matches Ok(p) && ({
                let (overall, r) = spec_preview_toc(bytes@);
                &&& p.overall_size == overall
                &&& spec_opt_bytes(p.bmp, spec_preview_bmp(bytes@))
                &&& spec_opt_bytes(p.wmf, spec_extract(bytes@, r.wmf))
                &&& spec_opt_bytes(p.header_data, spec_extract(bytes@, r.header))
            })),
    {
        let start_sentinel = Preview::START_SENTINEL;
        if bytes.len() < 20 || !matches_at(bytes, 0, start_sentinel.as_slice()) {
            return Err(Error::SectionMap("preview: start sentinel missing".to_string()));
        }
        let mut c = ByteCursor::new(&bytes[16..bytes.len()]);
        let overall_size = match c.read_u32() {
            Ok(v) => v,
            Err(_) => 0,
        };
        let images_present = match c.read_u8() {
            Ok(v) => v,
            Err(_) => 0,
        };
        let ghost s = bytes@.subrange(16, bytes@.len() as int);
        let ghost none = PreviewRanges { header: None, bmp: None, wmf: None, png: None };
        let mut ranges = PreviewRanges { header: None, bmp: None, wmf: None, png: None };
        let mut n: u8 = 0;
        loop
            invariant_except_break
                c.wf(),
                c.data() == s,
                n <= images_present,
                spec_preview_toc(bytes@).1 == spec_preview_entries(s, c.pos(), (images_present - n) as nat, ranges),
            ensures
                spec_preview_toc(bytes@).1 == ranges,
            decreases images_present - n,
        {
            if n >= images_present {
                break;
            }
            let code = match c.read_u8() {
                Ok(v) => v,
                Err(_) => {
                    break;
                },
            };
            let start = match c.read_u32() {
                Ok(v) => Some(v as usize),
                Err(_) => None,
            };
            let size = match c.read_u32() {
                Ok(v) => Some(v as usize),
                Err(_) => None,
            };
            let (start, size) = match (start, size) {
                (Some(a), Some(z)) => (a, z),
                _ => {
                    break;
                },
            };
            if code == 1 {
                ranges.header = Some((start, size));
            } else if code == 2 {
                ranges.bmp = Some((start, size));
            } else if code == 3 {
                ranges.wmf = Some((start, size));
            } else if code == 6 {
                ranges.png = Some((start, size));
            }
            n += 1;
        }
        let mut bmp = extract(bytes, ranges.bmp);
        let wmf = extract(bytes, ranges.wmf);
        let header_data = extract(bytes, ranges.header);
        if bmp.is_none() {
            bmp = extract(bytes, ranges.png);
        }
        if bmp.is_none() && wmf.is_none() {
            match carve_image_magic(bytes) {
                Some(v) => {
                    bmp = Some(v);
                },
                None => {},
            }
        }
        Ok(Preview { overall_size, bmp, wmf, header_data })
    }
}

} // verus!
