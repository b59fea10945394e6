//! Entity-graph helpers: bounded, cycle-safe handle walks and the
//! classification of block-record names into model space, paper space
//! and user blocks.
//!
//! Block names are compared by their UTF-8 bytes, which determine the
//! name: the contracts speak of `spec_bytes()`.
use vstd::prelude::*;

use std::collections::HashSet;
use vstd::string::StringSliceAdditionalSpecFns;
use vstd::utf8::encode_utf8;

use crate::error::{Error, Result};
use crate::header::concat_text;
use crate::limits::WalkerLimits;
use crate::text::{spec_decimal_digits, with_decimal};

verus! {

broadcast use vstd::std_specs::hash::group_hash_axioms;

// ----------------------------------------------------------------
// Bounded walks.
// ----------------------------------------------------------------

/// `chain` starts at `start`, holds no handle twice, and each handle
/// after the first is what `next` gave for the one before it.
pub open spec fn spec_walk_prefix<F: Fn(u64) -> Result<Option<u64>>>(next: F, start: u64, chain: Seq<u64>) -> bool {
    &&& chain.len() >= 1
    &&& chain[0] == start
    &&& forall|i: int, j: int| 0 <= i < j < chain.len() ==> chain[i] != chain[j]
    &&& forall|i: int|
        0 <= i < chain.len() - 1 ==> call_ensures(next, (#[trigger] chain[i],), Ok::<Option<u64>, Error>(Some(chain[i + 1])))
}

/// The message of the refusal of a walk longer than `max_handles`.
pub open spec fn spec_walk_cap_text(max_handles: usize) -> Seq<char> {
    "graph walk exceeded WalkerLimits::max_handles ("@ + spec_decimal_digits(max_handles as nat)
        + "); malformed or adversarial file"@
}

/// Follow `next` from `start`, collecting handles innermost first,
/// until `next` gives `None` or a handle already collected (a cycle,
/// which is not repeated). Fails with [`Error::SectionMap`] when the
/// chain would grow past `walker_limits.max_handles`, with a message
/// that names that limit, and with the
/// error `next` gives, if it gives one.
pub fn walk_with_cycle_detection<F>(start_handle: u64, walker_limits: WalkerLimits, next: F) -> (res: Result<Vec<u64>>) where
    F: Fn(u64) -> Result<Option<u64>>,

    requires
        forall|h: u64| call_requires(next, (h,)),
    ensures
        match res {
            Ok(chain) => {
                &&& spec_walk_prefix(next, start_handle, chain@)
                &&& chain@.len() <= walker_limits.max_handles
                &&& (call_ensures(next, (chain@.last(),), Ok::<Option<u64>, Error>(None)) || exists|x: u64|
                    #![trigger chain@.contains(x)]
                    call_ensures(next, (chain@.last(),), Ok::<Option<u64>, Error>(Some(x))) && chain@.contains(x))
            },
            Err(e) => {
                ||| (e matches Error::SectionMap(m) && m@ == spec_walk_cap_text(walker_limits.max_handles)
                    && exists|c: Seq<u64>|
                    #![trigger spec_walk_prefix(next, start_handle, c)]
                    spec_walk_prefix(next, start_handle, c) && c.len() == walker_limits.max_handles + 1)
                ||| exists|c: Seq<u64>|
                    #![trigger spec_walk_prefix(next, start_handle, c)]
                    spec_walk_prefix(next, start_handle, c) && c.len() <= walker_limits.max_handles && call_ensures(
                        next,
                        (c.last(),),
                        Err::<Option<u64>, Error>(e),
                    )
            },
        },
{
    let mut chain: Vec<u64> = Vec::new();
    let mut visited: HashSet<u64> = HashSet::new();
    let mut current = start_handle;
    loop
        invariant
            forall|h: u64| call_requires(next, (h,)),
            visited@ == chain@.to_set(),
            chain@.len() <= walker_limits.max_handles,
            chain@.len() == 0 ==> current == start_handle,
            chain@.len() > 0 ==> spec_walk_prefix(next, start_handle, chain@) && call_ensures(
                next,
                (chain@.last(),),
                Ok::<Option<u64>, Error>(Some(current)),
            ),
        decreases walker_limits.max_handles - chain@.len(),
    {
        if visited.contains(&current) {
            proof {
                assert(chain@.contains(current));
            }
            return Ok(chain);
        }
        visited.insert(current);
        let ghost before = chain@;
        chain.push(current);
        proof {
            assert forall|x: u64| #[trigger] chain@.contains(x) == (before.contains(x) || x == current) by {
                if before.contains(x) {
                    let i = choose|i: int| 0 <= i < before.len() && before[i] == x;
                    assert(chain@[i] == x);
                }
                if x == current {
                    assert(chain@[chain@.len() - 1] == x);
                }
                if chain@.contains(x) {
                    let i = choose|i: int| 0 <= i < chain@.len() && chain@[i] == x;
                    if i < before.len() {
                        assert(before[i] == x);
                    }
                }
            }
            assert(visited@ =~= chain@.to_set());
            assert(chain@.last() == current);
            if before.len() > 0 {
                assert forall|i: int| 0 <= i < chain@.len() - 1 implies call_ensures(
                    next,
                    (#[trigger] chain@[i],),
                    Ok::<Option<u64>, Error>(Some(chain@[i + 1])),
                ) by {
                    if i < before.len() - 1 {
                        assert(chain@[i] == before[i] && chain@[i + 1] == before[i + 1]);
                    } else {
                        assert(chain@[i] == before.last());
                    }
                }
                assert forall|i: int, j: int| 0 <= i < j < chain@.len() implies chain@[i] != chain@[j] by {
                    if j == chain@.len() - 1 {
                        assert(before.contains(before[i]));
                    } else {
                        assert(chain@[i] == before[i] && chain@[j] == before[j]);
                    }
                }
            }
            assert(spec_walk_prefix(next, start_handle, chain@));
        }
        if chain.len() > walker_limits.max_handles {
            let head = with_decimal("graph walk exceeded WalkerLimits::max_handles (", walker_limits.max_handles as u64);
            return Err(Error::SectionMap(concat_text(head.as_str(), "); malformed or adversarial file")));
        }
        match next(current) {
            Ok(Some(next_handle)) => {
                current = next_handle;
            },
            Ok(None) => {
                return Ok(chain);
            },
            Err(e) => {
                return Err(e);
            },
        }
    }
}

// ----------------------------------------------------------------
// Block-record names.
// ----------------------------------------------------------------

/// The canonical name of the model-space block record.
pub const MODEL_SPACE_BLOCK_NAME: &'static str = "*Model_Space";

/// The prefix of every paper-space block record name: `*Paper_Space`
/// for the first layout, `*Paper_Space0`, `*Paper_Space1`, ... after.
pub const PAPER_SPACE_BLOCK_PREFIX: &'static str = "*Paper_Space";

/// The bytes of `*Model_Space`.
pub open spec fn spec_model_space() -> Seq<u8> {
    seq![0x2Au8, 0x4D, 0x6F, 0x64, 0x65, 0x6C, 0x5F, 0x53, 0x70, 0x61, 0x63, 0x65]
}

/// The bytes of `*Paper_Space`.
pub open spec fn spec_paper_space() -> Seq<u8> {
    seq![0x2Au8, 0x50, 0x61, 0x70, 0x65, 0x72, 0x5F, 0x53, 0x70, 0x61, 0x63, 0x65]
}

/// `b` is `*Paper_Space`, or it followed by one or more ASCII digits.
pub open spec fn spec_is_paper_space(b: Seq<u8>) -> bool {
    &&& b.len() >= 12
    &&& b.subrange(0, 12) == spec_paper_space()
    &&& forall|i: int| 12 <= i < b.len() ==> 0x30 <= #[trigger] b[i] <= 0x39
}

proof fn lemma_literal_bytes()
    ensures
        MODEL_SPACE_BLOCK_NAME.spec_bytes() == spec_model_space(),
        PAPER_SPACE_BLOCK_PREFIX.spec_bytes() == spec_paper_space(),
{
    reveal_strlit("*Model_Space");
    reveal_strlit("*Paper_Space");
    vstd::string::is_ascii_spec_bytes(MODEL_SPACE_BLOCK_NAME);
    vstd::string::is_ascii_spec_bytes(PAPER_SPACE_BLOCK_PREFIX);
    assert(MODEL_SPACE_BLOCK_NAME.spec_bytes() =~= spec_model_space());
    assert(PAPER_SPACE_BLOCK_PREFIX.spec_bytes() =~= spec_paper_space());
}

/// Whether `b` starts with `p`.
fn starts_with_bytes(b: &[u8], p: &[u8]) -> (r: bool)
    ensures
        r == (p@.len() <= b@.len() && b@.subrange(0, p@.len() as int) == p@),
{
    if p.len() > b.len() {
        return false;
    }
    let mut i: usize = 0;
    while i < p.len()
        invariant
            p@.len() <= b@.len(),
            i <= p@.len(),
            forall|j: int| 0 <= j < i ==> b@[j] == p@[j],
        decreases p@.len() - i,
    {
        if b[i] != p[i] {
            proof {
                assert(b@.subrange(0, p@.len() as int)[i as int] != p@[i as int]);
            }
            return false;
        }
        i += 1;
    }
    proof {
        assert(b@.subrange(0, p@.len() as int) =~= p@);
    }
    true
}

/// Whether `name` is the model-space block record name (case-sensitive).
pub fn is_model_space_block_name(name: &str) -> (r: bool)
    ensures
        r == (name.spec_bytes() == spec_model_space()),
{
    proof {
        lemma_literal_bytes();
    }
    let b = name.as_bytes();
    let m = MODEL_SPACE_BLOCK_NAME.as_bytes();
    if b.len() != m.len() {
        return false;
    }
    let r = starts_with_bytes(b, m);
    proof {
        assert(b@.subrange(0, m@.len() as int) =~= b@);
    }
    r
}

/// Whether `name` is a paper-space block record name: `*Paper_Space`
/// optionally followed by ASCII digits (case-sensitive).
pub fn is_paper_space_block_name(name: &str) -> (r: bool)
    ensures
        r == spec_is_paper_space(name.spec_bytes()),
{
    proof {
        lemma_literal_bytes();
    }
    let b = name.as_bytes();
    let p = PAPER_SPACE_BLOCK_PREFIX.as_bytes();
    if !starts_with_bytes(b, p) {
        return false;
    }
    let mut i: usize = p.len();
    while i < b.len()
        invariant
            p@.len() == 12,
            b@ == name.spec_bytes(),
            b@.subrange(0, 12) == spec_paper_space(),
            12 <= i <= b@.len(),
            forall|j: int| 12 <= j < i ==> 0x30 <= #[trigger] b@[j] <= 0x39,
        decreases b@.len() - i,
    {
        if b[i] < 0x30 || b[i] > 0x39 {
            proof {
                assert(!(0x30 <= b@[i as int] <= 0x39));
            }
            return false;
        }
        i += 1;
    }
    true
}

/// The category of a block-record name.
#[derive(Debug, Clone, Copy, PartialEq, Eq, Structural)]
pub enum BlockSpace {
    /// The `*Model_Space` block.
    Model,
    /// A `*Paper_Space` block (the base layout or a numbered one).
    Paper,
    /// A user-defined block.
    Custom,
}

/// The category of the block-record name with UTF-8 bytes `b`.
pub open spec fn spec_classify(b: Seq<u8>) -> BlockSpace {
    if b == spec_model_space() {
        BlockSpace::Model
    } else if spec_is_paper_space(b) {
        BlockSpace::Paper
    } else {
        BlockSpace::Custom
    }
}

/// No block-record name is both the model-space name and a
/// paper-space name; the classification names exactly the one that
/// holds, and the bare `*Paper_Space` prefix is itself a paper-space
/// name.
pub proof fn lemma_block_space_exclusive(b: Seq<u8>)
    ensures
        !(b == spec_model_space() && spec_is_paper_space(b)),
        (spec_classify(b) == BlockSpace::Model) == (b == spec_model_space()),
        (spec_classify(b) == BlockSpace::Paper) == spec_is_paper_space(b),
        spec_is_paper_space(spec_paper_space()),
{
    if b == spec_model_space() && b.len() >= 12 {
        assert(b.subrange(0, 12)[1] != spec_paper_space()[1]);
    }
    assert(spec_paper_space().subrange(0, 12) =~= spec_paper_space());
}

/// Classify a block-record name.
pub fn classify_block_name(name: &str) -> (s: BlockSpace)
    ensures
        s == spec_classify(name.spec_bytes()),
{
    if is_model_space_block_name(name) {
        BlockSpace::Model
    } else if is_paper_space_block_name(name) {
        BlockSpace::Paper
    } else {
        BlockSpace::Custom
    }
}

/// Which layout an entity lives in, from its owning block's name.
#[derive(Debug, Clone, PartialEq, Eq)]
pub enum EntityLayoutMembership {
    /// The model-space block.
    Model,
    /// A paper-space block, by name.
    Paper(String),
    /// A user-defined block, by name.
    CustomBlock(String),
}

/// Where an entity owned by the block named `owner_block_name` lives.
pub fn membership_for(owner_block_name: &str) -> (m: EntityLayoutMembership)
    ensures
        match spec_classify(owner_block_name.spec_bytes()) {
            BlockSpace::Model => m is Model,
            BlockSpace::Paper => m matches EntityLayoutMembership::Paper(s) && s@ == owner_block_name@,
            BlockSpace::Custom => m matches EntityLayoutMembership::CustomBlock(s) && s@ == owner_block_name@,
        },
{
    match classify_block_name(owner_block_name) {
        BlockSpace::Model => EntityLayoutMembership::Model,
        BlockSpace::Paper => EntityLayoutMembership::Paper(owner_block_name.to_owned()),
        BlockSpace::Custom => EntityLayoutMembership::CustomBlock(owner_block_name.to_owned()),
    }
}

// ----------------------------------------------------------------
// Filtering (entity, owner-block-name) pairs.
// ----------------------------------------------------------------

/// `items` in reverse order, so that popping yields them in order.
fn reversed<T>(items: Vec<(T, String)>) -> (rev: Vec<(T, String)>)
    ensures
        rev@.len() == items@.len(),
        forall|j: int| 0 <= j < rev@.len() ==> #[trigger] rev@[j] == items@[items@.len() - 1 - j],
{
    let ghost orig = items@;
    let mut rem = items;
    let mut rev: Vec<(T, String)> = Vec::new();
    while rem.len() > 0
        invariant
            rem@ == orig.subrange(0, rem@.len() as int),
            rev@.len() + rem@.len() == orig.len(),
            forall|j: int| 0 <= j < rev@.len() ==> #[trigger] rev@[j] == orig[orig.len() - 1 - j],
        decreases rem@.len(),
    {
        let x = rem.pop().unwrap();
        rev.push(x);
        proof {
            assert(rem@ =~= orig.subrange(0, rem@.len() as int));
        }
    }
    rev
}

/// The pairs whose owner block is named exactly `layout_block_name`,
/// in their order.
pub fn filter_by_paper_space_block<T>(items: Vec<(T, String)>, layout_block_name: &str) -> (out: Vec<(T, String)>)
    ensures
        out@ == items@.filter(|p: (T, String)| p.1@ == layout_block_name@),
{
    let ghost orig = items@;
    let ghost pred = |p: (T, String)| p.1@ == layout_block_name@;
    let wanted = layout_block_name.to_owned();
    let mut rev = reversed(items);
    let mut out: Vec<(T, String)> = Vec::new();
    let ghost mut k: int = 0;
    proof {
        reveal(Seq::filter);
    }
    while rev.len() > 0
        invariant
            wanted@ == layout_block_name@,
            pred == (|p: (T, String)| p.1@ == layout_block_name@),
            0 <= k <= orig.len(),
            rev@.len() == orig.len() - k,
            forall|j: int| 0 <= j < rev@.len() ==> #[trigger] rev@[j] == orig[orig.len() - 1 - j],
            out@ == orig.subrange(0, k).filter(pred),
        decreases rev@.len(),
    {
        let x = rev.pop().unwrap();
        proof {
            reveal(Seq::filter);
            let s1 = orig.subrange(0, k + 1);
            assert(x == orig[k]);
            assert(s1.drop_last() =~= orig.subrange(0, k));
            assert(s1.last() == orig[k]);
            assert(s1.filter(pred) == (if pred(s1.last()) {
                s1.drop_last().filter(pred).push(s1.last())
            } else {
                s1.drop_last().filter(pred)
            }));
        }
        if x.1 == wanted {
            out.push(x);
        }
        proof {
            k = k + 1;
        }
    }
    proof {
        assert(orig.subrange(0, k) =~= orig);
    }
    out
}

/// The pairs whose owner block is of the category `wanted`, in their
/// order.
pub fn filter_by_block_space<T>(items: Vec<(T, String)>, wanted: BlockSpace) -> (out: Vec<(T, String)>)
    ensures
        out@ == items@.filter(|p: (T, String)| spec_classify(encode_utf8(p.1@)) == wanted),
{
    let ghost orig = items@;
    let ghost pred = |p: (T, String)| spec_classify(encode_utf8(p.1@)) == wanted;
    let mut rev = reversed(items);
    let mut out: Vec<(T, String)> = Vec::new();
    let ghost mut k: int = 0;
    proof {
        reveal(Seq::filter);
    }
    while rev.len() > 0
        invariant
            pred == (|p: (T, String)| spec_classify(encode_utf8(p.1@)) == wanted),
            0 <= k <= orig.len(),
            rev@.len() == orig.len() - k,
            forall|j: int| 0 <= j < rev@.len() ==> #[trigger] rev@[j] == orig[orig.len() - 1 - j],
            out@ == orig.subrange(0, k).filter(pred),
        decreases rev@.len(),
    {
        let x = rev.pop().unwrap();
        proof {
            reveal(Seq::filter);
            let s1 = orig.subrange(0, k + 1);
            assert(x == orig[k]);
            assert(s1.drop_last() =~= orig.subrange(0, k));
            assert(s1.last() == orig[k]);
            assert(s1.filter(pred) == (if pred(s1.last()) {
                s1.drop_last().filter(pred).push(s1.last())
            } else {
                s1.drop_last().filter(pred)
            }));
        }
        if classify_block_name(x.1.as_str()) == wanted {
            out.push(x);
        }
        proof {
            k = k + 1;
        }
    }
    proof {
        assert(orig.subrange(0, k) =~= orig);
    }
    out
}

} // verus!
