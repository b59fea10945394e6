//! `AcDb:Header` variable table.
//!
//! The section is a 16-byte sentinel, a little-endian `u32` size in
//! bits, then a bit stream of some two hundred system variables in a
//! fixed, release-dependent order. [`HeaderVars`] keeps the raw body;
//! targeted accessors read leading values without decoding the rest.
//! A `BD` (bit double) is handed out as the IEEE-754 bit pattern of the
//! `f64` it encodes.
use vstd::prelude::*;

use crate::bitcursor::{spec_read_bd, spec_read_bl, BitCursor};
use crate::error::Result;
use crate::le::{push_bytes, spec_le32_value};
use crate::version::Version;

verus! {

/// Decoded form of the `AcDb:Header` section.
#[derive(Debug, Clone)]
pub struct HeaderVars {
    /// The first 16 bytes of the section.
    pub sentinel: [u8; 16],
    /// The size-in-bits field that follows the sentinel.
    pub size_in_bits: u32,
    /// The variable bit stream (everything after the size field).
    pub body: Vec<u8>,
    /// The release whose field order the body follows.
    pub version: Version,
}

/// The sentinel that opens every copy of the `AcDb:Header` section.
pub open spec fn spec_sentinel() -> Seq<u8> {
    seq![0xCFu8, 0x7B, 0x1F, 0x23, 0xFD, 0xDE, 0x38, 0xA9, 0x5F, 0x7C, 0x68, 0xB8, 0x4E, 0x6D, 0x33, 0x5F]
}

/// The first `n` `BD` values from bit `pos`, stopping at the first
/// that cannot be read.
pub open spec fn spec_first_n_bds(b: Seq<u8>, pos: int, n: nat) -> Seq<u64>
    decreases n,
{
    if n == 0 {
        Seq::empty()
    } else {
        match spec_read_bd(b, pos) {
            Err(_) => Seq::empty(),
            Ok((v, p)) => seq![v] + spec_first_n_bds(b, p, (n - 1) as nat),
        }
    }
}

/// The first `n` `BL` values from bit `pos`, stopping at the first
/// that cannot be read.
pub open spec fn spec_first_n_bls(b: Seq<u8>, pos: int, n: nat) -> Seq<i32>
    decreases n,
{
    if n == 0 {
        Seq::empty()
    } else {
        match spec_read_bl(b, pos) {
            Err(_) => Seq::empty(),
            Ok((v, p)) => seq![v] + spec_first_n_bls(b, p, (n - 1) as nat),
        }
    }
}

impl HeaderVars {
    /// The sentinel that opens every copy of the `AcDb:Header` section.
    pub const SENTINEL: [u8; 16] = [
        0xCF,
        0x7B,
        0x1F,
        0x23,
        0xFD,
        0xDE,
        0x38,
        0xA9,
        0x5F,
        0x7C,
        0x68,
        0xB8,
        0x4E,
        0x6D,
        0x33,
        0x5F,
    ];

    /// Split a decompressed `AcDb:Header` payload into sentinel, size
    /// and body. A payload shorter than 20 bytes gives a zero sentinel,
    /// a zero size and an empty body; this never fails.
    pub fn parse(bytes: &[u8], version: Version) -> (res: Result<HeaderVars>)
        ensures
            res matches Ok(h) && h.version == version && if bytes@.len() < 20 {
                &&& h.sentinel@ == Seq::new(16, |i: int| 0u8)
                &&& h.size_in_bits == 0
                &&& h.body@.len() == 0
            } else {
                &&& h.sentinel@ == bytes@.subrange(0, 16)
                &&& h.size_in_bits == spec_le32_value(bytes@, 16)
                &&& h.body@ == bytes@.subrange(20, bytes@.len() as int)
            },
    {
        if bytes.len() < 20 {
            let h = HeaderVars {
                sentinel: [0, 0, 0, 0, 0, 0, 0, 0, 0, 0, 0, 0, 0, 0, 0, 0],
                size_in_bits: 0,
                body: Vec::new(),
                version,
            };
            proof {
                assert(h.sentinel@ =~= Seq::new(16, |i: int| 0u8));
            }
            return Ok(h);
        }
        let sentinel: [u8; 16] = [
            bytes[0],
            bytes[1],
            bytes[2],
            bytes[3],
            bytes[4],
            bytes[5],
            bytes[6],
            bytes[7],
            bytes[8],
            bytes[9],
            bytes[10],
            bytes[11],
            bytes[12],
            bytes[13],
            bytes[14],
            bytes[15],
        ];
        let lo = (bytes[16] as u32) + (bytes[17] as u32) * 256;
        let hi = (bytes[18] as u32) + (bytes[19] as u32) * 256;
        let size_in_bits = lo + hi * 65536;
        let mut body: Vec<u8> = Vec::new();
        push_bytes(&mut body, &bytes[20..bytes.len()]);
        let h = HeaderVars { sentinel, size_in_bits, body, version };
        proof {
            assert(h.sentinel@ =~= bytes@.subrange(0, 16));
            assert(h.body@ =~= bytes@.subrange(20, bytes@.len() as int));
        }
        Ok(h)
    }

    /// Whether the leading sentinel is the `AcDb:Header` sentinel.
    pub fn has_valid_sentinel(&self) -> (b: bool)
        ensures
            b == (self.sentinel@ == spec_sentinel()),
    {
        let expected = HeaderVars::SENTINEL;
        let mut i: usize = 0;
        while i < 16
            invariant
                0 <= i <= 16,
                expected@ == spec_sentinel(),
                forall|j: int| 0 <= j < i ==> self.sentinel@[j] == spec_sentinel()[j],
            decreases 16 - i,
        {
            if self.sentinel[i] != expected[i] {
                return false;
            }
            i += 1;
        }
        proof {
            assert(self.sentinel@ =~= spec_sentinel());
        }
        true
    }

    /// The bit pattern of the first `BD` of the body, if it can be read.
    pub fn read_first_bd(&self) -> (r: Option<u64>)
        requires
            self.body@.len() * 8 <= usize::MAX,
        ensures
            r == match spec_read_bd(self.body@, 0) {
                Ok((v, _)) => Some(v),
                Err(_) => None::<u64>,
            },
    {
        let mut c = BitCursor::new(self.body.as_slice());
        match c.read_bd() {
            Ok(v) => Some(v),
            Err(_) => None,
        }
    }

    /// The bit patterns of the first `n` `BD` values of the body,
    /// stopping at the first that cannot be read.
    pub fn read_first_n_bds(&self, n: usize) -> (v: Vec<u64>)
        requires
            self.body@.len() * 8 <= usize::MAX,
        ensures
            v@ == spec_first_n_bds(self.body@, 0, n as nat),
    {
        let mut c = BitCursor::new(self.body.as_slice());
        let mut out: Vec<u64> = Vec::new();
        let mut k: usize = 0;
        while k < n
            invariant
                c.wf(),
                c.data() == self.body@,
                k <= n,
                spec_first_n_bds(self.body@, 0, n as nat) == out@ + spec_first_n_bds(
                    self.body@,
                    c.pos(),
                    (n - k) as nat,
                ),
            decreases n - k,
        {
            let ghost p0 = c.pos();
            match c.read_bd() {
                Ok(v) => {
                    let ghost before = out@;
                    out.push(v);
                    proof {
                        assert(before + spec_first_n_bds(self.body@, p0, (n - k) as nat) =~= out@
                            + spec_first_n_bds(self.body@, c.pos(), (n - k - 1) as nat));
                    }
                },
                Err(_) => {
                    proof {
                        assert(out@ + Seq::<u64>::empty() =~= out@);
                    }
                    return out;
                },
            }
            k += 1;
        }
        proof {
            assert(out@ + Seq::<u64>::empty() =~= out@);
        }
        out
    }

    /// The first `n` `BL` values of the body, stopping at the first
    /// that cannot be read.
    pub fn read_first_n_bls(&self, n: usize) -> (v: Vec<i32>)
        requires
            self.body@.len() * 8 <= usize::MAX,
        ensures
            v@ == spec_first_n_bls(self.body@, 0, n as nat),
    {
        let mut c = BitCursor::new(self.body.as_slice());
        let mut out: Vec<i32> = Vec::new();
        let mut k: usize = 0;
        while k < n
            invariant
                c.wf(),
                c.data() == self.body@,
                k <= n,
                spec_first_n_bls(self.body@, 0, n as nat) == out@ + spec_first_n_bls(
                    self.body@,
                    c.pos(),
                    (n - k) as nat,
                ),
            decreases n - k,
        {
            let ghost p0 = c.pos();
            match c.read_bl() {
                Ok(v) => {
                    let ghost before = out@;
                    out.push(v);
                    proof {
                        assert(before + spec_first_n_bls(self.body@, p0, (n - k) as nat) =~= out@
                            + spec_first_n_bls(self.body@, c.pos(), (n - k - 1) as nat));
                    }
                },
                Err(_) => {
                    proof {
                        assert(out@ + Seq::<i32>::empty() =~= out@);
                    }
                    return out;
                },
            }
            k += 1;
        }
        proof {
            assert(out@ + Seq::<i32>::empty() =~= out@);
        }
        out
    }

    /// Length of the body in bytes.
    pub fn body_len(&self) -> (n: usize)
        ensures
            n == self.body@.len(),
    {
        self.body.len()
    }
}

} // verus!
