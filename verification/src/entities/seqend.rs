//! SEQEND entity: closes the sub-entity list an INSERT or a POLYLINE
//! opens. The record has no type-specific fields at all.
use vstd::prelude::*;

use crate::bitcursor::BitCursor;
use crate::error::{Error, Result};

verus! {

/// SEQEND carries no fields of its own.
#[derive(Debug, Clone, Copy, PartialEq, Eq, Structural)]
pub struct SeqEnd;

/// Decodes a `SeqEnd`: it reads nothing and always succeeds.
pub fn decode(c: &mut BitCursor<'_>) -> (r: Result<SeqEnd>)
    ensures
        *final(c) == *old(c),
        r == Ok::<SeqEnd, Error>(SeqEnd),
{
    Ok(SeqEnd)
}

} // verus!
