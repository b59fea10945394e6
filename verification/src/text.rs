//! Decimal numbers inside refusal messages and generated names, and
//! what UTF-16 text decodes to.
use vstd::prelude::*;

use crate::gltf::push_char;

verus! {

/// The decimal digits of `n`, most significant first, without leading
/// zeros.
pub open spec fn spec_decimal_digits(n: nat) -> Seq<char>
    decreases n,
{
    if n < 10 {
        seq![((n + 48) as u8) as char]
    } else {
        spec_decimal_digits(n / 10).push((((n % 10) + 48) as u8) as char)
    }
}

/// `v` in decimal, led by `-` when it is negative.
pub open spec fn spec_signed_decimal(v: int) -> Seq<char> {
    if v < 0 {
        seq!['-'] + spec_decimal_digits((-v) as nat)
    } else {
        spec_decimal_digits(v as nat)
    }
}

/// Append the decimal digits of `n`.
pub(crate) fn push_decimal(s: &mut String, n: u64)
    ensures
        final(s)@ == old(s)@ + spec_decimal_digits(n as nat),
    decreases n,
{
    if n >= 10 {
        push_decimal(s, n / 10);
    }
    let d: u8 = (n % 10) as u8 + 48;
    push_char(s, d as char);
    assert(final(s)@ =~= old(s)@ + spec_decimal_digits(n as nat));
}

/// Append `v` in decimal, with its sign when it is negative.
pub(crate) fn push_signed_decimal(s: &mut String, v: i64)
    ensures
        final(s)@ == old(s)@ + spec_signed_decimal(v as int),
{
    if v < 0 {
        push_char(s, '-');
        let magnitude: u64 = (0i128 - v as i128) as u64;
        push_decimal(s, magnitude);
        assert(final(s)@ =~= old(s)@ + spec_signed_decimal(v as int));
    } else {
        push_decimal(s, v as u64);
    }
}

/// `prefix` followed by `n` in decimal.
pub(crate) fn with_decimal(prefix: &str, n: u64) -> (s: String)
    ensures
        s@ == prefix@ + spec_decimal_digits(n as nat),
{
    let mut s = prefix.to_string();
    push_decimal(&mut s, n);
    s
}

/// The code point of the surrogate pair `hi`, `lo`.
pub open spec fn spec_pair_code(hi: u16, lo: u16) -> u32 {
    (0x10000 + (hi - 0xD800) * 0x400 + (lo - 0xDC00)) as u32
}

/// `units` read as UTF-16, from the front: a unit outside the
/// surrogate range is its character, a leading surrogate followed by a
/// trailing one is the pair's character, and any other surrogate is
/// unpaired (`None`) and the next unit is read afresh.
pub open spec fn spec_utf16_units(units: Seq<u16>) -> Seq<Option<char>>
    decreases units.len(),
{
    if units.len() == 0 {
        Seq::empty()
    } else {
        let a = units[0];
        if a < 0xD800 || a > 0xDFFF {
            seq![Some(a as char)] + spec_utf16_units(units.drop_first())
        } else if a <= 0xDBFF && units.len() >= 2 && 0xDC00 <= units[1] <= 0xDFFF {
            seq![Some(spec_pair_code(a, units[1]) as char)] + spec_utf16_units(
                units.subrange(2, units.len() as int),
            )
        } else {
            seq![None] + spec_utf16_units(units.drop_first())
        }
    }
}

/// `units` as text when no surrogate is unpaired, else `None`.
#[verifier::opaque]
pub open spec fn spec_utf16_strict(units: Seq<u16>) -> Option<Seq<char>> {
    let d = spec_utf16_units(units);
    if forall|i: int| 0 <= i < d.len() ==> (#[trigger] d[i]) is Some {
        Some(d.map_values(|o: Option<char>| o->Some_0))
    } else {
        None
    }
}

/// `units` as text, each unpaired surrogate replaced by U+FFFD.
#[verifier::opaque]
pub open spec fn spec_utf16_lossy(units: Seq<u16>) -> Seq<char> {
    spec_utf16_units(units).map_values(
        |o: Option<char>|
            match o {
                Some(c) => c,
                None => '\u{FFFD}',
            },
    )
}

} // verus!
