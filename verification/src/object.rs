//! Object stream walker for the `AcDb:AcDbObjects` section.
//!
//! Each record opens with a byte-aligned modular short (MS): the number
//! of payload bytes, not counting the 2-byte CRC that follows them. The
//! payload is bit-packed: for R2010 and later an unsigned modular char
//! (the handle stream size) comes first, then the object type, for
//! R2000 an `RL` object size in bits, then the object's handle.
//!
//! The walker runs in one of two modes. Built with
//! [`ObjectWalker::new`] it reads records one after another from the
//! start of the stream (past the 4-byte prefix that R2004 and later
//! streams carry). Built with [`ObjectWalker::with_handle_map`] it
//! visits every `(handle, offset)` pair of the handle map and reads the
//! record at each offset; a record that cannot be read there is
//! reported as skipped.
//!
//! Either way it visits at most `limits.max_handles` records: the next
//! step after that fails with [`Error::WalkerLimitExceeded`].
//!
//! Every step is stated by [`spec_step`], a function from the walker's
//! moving state to the step's outcome and the next state, and every
//! collector by the steps it is built from ([`spec_steps`]).
use vstd::prelude::*;

use crate::bitcursor::{
    spec_read_bb, spec_read_bs_u, spec_read_handle, spec_read_rc, spec_read_rl, BitCursor, Handle,
};
use crate::error::{Error, Result};
use crate::handle_map::{read_unsigned_mc, spec_umc, HandleEntry, HandleMap};
use crate::le::push_bytes;
use crate::limits::WalkerLimits;
use crate::object_type::{spec_from_code, ObjectType};
use crate::version::Version;

verus! {

// ----------------------------------------------------------------
// The record layout, as spec functions.
// ----------------------------------------------------------------

/// A byte-aligned modular short at byte `i`: 16-bit little-endian
/// modules, fifteen value bits each, `0x8000` marks continuation;
/// reading stops after the module that reaches bit 30.
pub open spec fn spec_read_ms(b: Seq<u8>, i: int, value: u32, shift: u32) -> core::result::Result<(u32, int), Error>
    decreases b.len() - i,
{
    if i < 0 || i + 1 >= b.len() {
        Err(Error::Truncated { offset: i as u64, wanted: 2, len: b.len() as u64 })
    } else {
        let module = ((b[i + 1] as u32) << 8u32) | (b[i] as u32);
        let v = value | ((module & 0x7FFF) << shift);
        if module & 0x8000 == 0 || shift + 15 >= 32 {
            Ok((v, i + 2))
        } else {
            spec_read_ms(b, i + 2, v, (shift + 15) as u32)
        }
    }
}

/// The object type field at bit `pos`: a `BS` before R2010; from R2010
/// a two-bit tag, then one byte (tag 0), one byte plus `0x1F0` (tag 1)
/// or a little-endian short.
pub open spec fn spec_object_type(b: Seq<u8>, pos: int, version: Version) -> core::result::Result<(u16, int), Error> {
    if version.is_r2010_plus() {
        match spec_read_bb(b, pos) {
            Err(e) => Err(e),
            Ok((tag, p1)) => match spec_read_rc(b, p1) {
                Err(e) => Err(e),
                Ok((x, p2)) => if tag == 0 {
                    Ok((x as u16, p2))
                } else if tag == 1 {
                    Ok(((x as u16 + 0x1F0) as u16, p2))
                } else {
                    match spec_read_rc(b, p2) {
                        Err(e) => Err(e),
                        Ok((y, p3)) => Ok((((y as u16) << 8u16) | (x as u16), p3)),
                    }
                },
            },
        }
    } else {
        spec_read_bs_u(b, pos)
    }
}

/// The bit position of the type field in a payload: past the handle
/// stream size for R2010 and later.
pub open spec fn spec_type_pos(payload: Seq<u8>, version: Version) -> core::result::Result<int, Error> {
    if version.is_r2010_plus() {
        match spec_umc(payload, 0, 0, 0) {
            Err(e) => Err(e),
            Ok((_, j)) => Ok(8 * j),
        }
    } else {
        Ok(0)
    }
}

/// The type code and handle of a record payload.
pub open spec fn spec_record_fields(payload: Seq<u8>, version: Version) -> core::result::Result<(u16, Handle), Error> {
    match spec_type_pos(payload, version) {
        Err(e) => Err(e),
        Ok(p0) => match spec_object_type(payload, p0, version) {
            Err(e) => Err(e),
            Ok((tc, p1)) => {
                let p2: core::result::Result<int, Error> = if version == Version::R2000 {
                    match spec_read_rl(payload, p1) {
                        Err(e) => Err(e),
                        Ok((_, p)) => Ok(p),
                    }
                } else {
                    Ok(p1)
                };
                match p2 {
                    Err(e) => Err(e),
                    Ok(p) => match spec_read_handle(payload, p) {
                        Err(e) => Err(e),
                        Ok((h, _)) => Ok((tc, h)),
                    },
                }
            },
        },
    }
}

/// The record at byte `start`: its size, type code, handle and payload
/// range; `None` for a zero size (trailing padding) or a record whose
/// payload and CRC run past the end of the stream.
#[verifier::opaque]
pub open spec fn spec_read_record(b: Seq<u8>, start: int, version: Version) -> core::result::Result<
    Option<(u32, u16, Handle, int, int)>,
    Error,
> {
    match spec_read_ms(b.subrange(start, b.len() as int), 0, 0, 0) {
        Err(e) => Err(e),
        Ok((size, consumed)) => if size == 0 {
            Ok(None)
        } else {
            let ps = start + consumed;
            let pe = ps + size;
            if pe + 2 > b.len() {
                Ok(None)
            } else {
                match spec_record_fields(b.subrange(ps, pe), version) {
                    Err(e) => Err(e),
                    Ok((tc, h)) => Ok(Some((size, tc, h, ps, pe))),
                }
            }
        },
    }
}

/// A single undecoded object of the object stream.
#[derive(Debug, Clone)]
pub struct RawObject {
    /// Byte offset of the record in the stream.
    pub stream_offset: usize,
    /// Payload size in bytes (from the leading MS; excludes the CRC).
    pub size_bytes: u32,
    /// Raw type code as encoded in the stream.
    pub type_code: u16,
    /// Classified form of `type_code`.
    pub kind: ObjectType,
    /// The object's handle.
    pub handle: Handle,
    /// The payload bytes.
    pub raw: Vec<u8>,
}

/// `o` is the record at `start`, its handle value replaced by `handle`
/// where one is given.
pub open spec fn spec_object_at(o: RawObject, b: Seq<u8>, version: Version, start: usize, handle: Option<u64>) -> bool {
    match spec_read_record(b, start as int, version) {
        Ok(Some((size, tc, h, ps, pe))) => {
            &&& o.stream_offset == start
            &&& o.size_bytes == size
            &&& o.type_code == tc
            &&& o.kind == spec_from_code(tc)
            &&& o.handle == match handle {
                Some(v) => Handle { code: h.code, counter: h.counter, value: v },
                None => h,
            }
            &&& o.raw@ == b.subrange(ps, pe)
        },
        _ => false,
    }
}

impl RawObject {
    /// Whether this object is a drawable entity.
    pub fn is_entity(&self) -> (b: bool)
        ensures
            b == crate::object_type::spec_is_entity(self.kind),
    {
        self.kind.is_entity()
    }
}

/// One entry of a lossy walk's skip list.
#[derive(Debug, Clone)]
pub struct SkippedEntry {
    pub handle: u64,
    pub offset: u64,
    pub reason: String,
}

/// One handle-driven walk step: an object, or a record that could not
/// be read at its handle's offset.
#[derive(Debug, Clone)]
pub enum ObjectWalkItem {
    /// A successfully read object.
    Object(RawObject),
    /// A record that could not be read.
    Skipped(SkippedEntry),
}

/// Summary of a [`ObjectWalker::collect_all_lossy`] pass.
#[derive(Debug, Clone)]
pub struct ObjectWalkSummary {
    /// Number of objects read.
    pub decoded_count: usize,
    /// Records stepped over because they could not be read.
    pub skipped: Vec<SkippedEntry>,
    /// Records a downstream consumer could not classify; the bare walk
    /// leaves it at 0.
    pub errored_count: usize,
    /// `(type_code, stream_offset)` of every object whose type code the
    /// format reserves.
    pub unknown_types: Vec<(u16, u64)>,
}

impl ObjectWalkSummary {
    /// Number of skipped records.
    pub fn skipped_count(&self) -> (n: usize)
        ensures
            n == self.skipped@.len(),
    {
        self.skipped.len()
    }
}

impl Default for ObjectWalkSummary {
    fn default() -> (s: ObjectWalkSummary)
        ensures
            s.decoded_count == 0,
            s.skipped@.len() == 0,
            s.errored_count == 0,
            s.unknown_types@.len() == 0,
    {
        ObjectWalkSummary { decoded_count: 0, skipped: Vec::new(), errored_count: 0, unknown_types: Vec::new() }
    }
}

// ----------------------------------------------------------------
// Walk steps.
// ----------------------------------------------------------------

/// The moving part of a walker: stream position, next handle-map
/// index, records visited.
#[derive(Debug, Clone, Copy, PartialEq, Eq, Structural)]
pub struct WalkState {
    pub pos: usize,
    pub idx: usize,
    pub visited: usize,
}

/// What one step yields: the object whose record starts at `start`
/// (with the handle value the map gave it, in handle-driven mode), or
/// a skipped handle-map entry.
#[derive(Debug, Clone, Copy, PartialEq, Eq, Structural)]
#[allow(inconsistent_fields)]
pub enum WalkStep {
    Object { start: usize, handle: Option<u64> },
    Skipped { handle: u64, offset: u64 },
}

/// One walk step from state `st` over stream `b`.
pub open spec fn spec_step(
    b: Seq<u8>,
    version: Version,
    map: Option<Seq<HandleEntry>>,
    max: usize,
    st: WalkState,
) -> (core::result::Result<Option<WalkStep>, Error>, WalkState) {
    if st.visited >= max {
        (Err(Error::WalkerLimitExceeded { limit: max, seen: st.visited }), st)
    } else {
        match map {
            Some(es) => if st.idx >= es.len() {
                (Ok(None), st)
            } else {
                let e = es[st.idx as int];
                let p = #[verifier::truncate] (e.offset as usize);
                let st1 = WalkState { pos: st.pos, idx: (st.idx + 1) as usize, visited: (st.visited + 1) as usize };
                let skip = WalkStep::Skipped { handle: e.handle, offset: e.offset };
                if p >= b.len() {
                    (Ok(Some(skip)), st1)
                } else {
                    match spec_read_record(b, p as int, version) {
                        Err(_) => (Ok(Some(skip)), WalkState { pos: p, ..st1 }),
                        Ok(None) => (Ok(Some(skip)), WalkState { pos: b.len() as usize, ..st1 }),
                        Ok(Some((_, _, _, _, pe))) => (
                            Ok(Some(WalkStep::Object { start: p, handle: Some(e.handle) })),
                            WalkState { pos: (pe + 2) as usize, ..st1 },
                        ),
                    }
                }
            },
            None => if st.pos >= b.len() {
                (Ok(None), st)
            } else {
                let st1 = WalkState { visited: (st.visited + 1) as usize, ..st };
                match spec_read_record(b, st.pos as int, version) {
                    Err(e) => (Err(e), st1),
                    Ok(None) => (Ok(None), WalkState { pos: b.len() as usize, ..st1 }),
                    Ok(Some((_, _, _, _, pe))) => (
                        Ok(Some(WalkStep::Object { start: st.pos, handle: None })),
                        WalkState { pos: (pe + 2) as usize, ..st1 },
                    ),
                }
            },
        }
    }
}

/// Every step of a walk from `st` until it ends, and the error that
/// ended it (`None` when it ran out of records).
pub open spec fn spec_steps(
    b: Seq<u8>,
    version: Version,
    map: Option<Seq<HandleEntry>>,
    max: usize,
    st: WalkState,
) -> (Seq<WalkStep>, Option<Error>)
    decreases max - st.visited,
{
    let (r, st1) = spec_step(b, version, map, max, st);
    match r {
        Err(e) => (Seq::empty(), Some(e)),
        Ok(None) => (Seq::empty(), None),
        Ok(Some(x)) => if st1.visited <= st.visited || st1.visited > max {
            (seq![x], None)
        } else {
            let (rest, err) = spec_steps(b, version, map, max, st1);
            (seq![x] + rest, err)
        },
    }
}

/// The handle a step stands for: the map's handle for either kind of
/// step in handle-driven mode, none for a sequential object.
pub open spec fn spec_step_handle(x: WalkStep) -> Option<u64> {
    match x {
        WalkStep::Object { handle, .. } => handle,
        WalkStep::Skipped { handle, .. } => Some(handle),
    }
}

/// A handle-driven walk visits every remaining handle-map entry
/// exactly once and in map order, each as an object or as a skipped
/// entry; it ends cleanly when the entries stay under the record limit
/// and with the limit error when they reach it.
pub proof fn lemma_map_walk_covers_entries(
    b: Seq<u8>,
    version: Version,
    es: Seq<HandleEntry>,
    max: usize,
    st: WalkState,
)
    requires
        st.idx <= es.len() <= usize::MAX,
        st.visited + (es.len() - st.idx) <= max,
    ensures
        spec_steps(b, version, Some(es), max, st).0.len() == es.len() - st.idx,
        forall|k: int|
            0 <= k < es.len() - st.idx ==> spec_step_handle(
                #[trigger] spec_steps(b, version, Some(es), max, st).0[k],
            ) == Some(es[st.idx + k].handle),
        st.visited + (es.len() - st.idx) < max ==> spec_steps(b, version, Some(es), max, st).1
            is None,
        st.visited + (es.len() - st.idx) == max ==> spec_steps(b, version, Some(es), max, st).1
            == Some(Error::WalkerLimitExceeded { limit: max, seen: max }),
    decreases es.len() - st.idx,
{
    let (r, st1) = spec_step(b, version, Some(es), max, st);
    if st.idx < es.len() {
        assert(st.visited < max);
        assert(st1.idx == st.idx + 1 && st1.visited == st.visited + 1);
        lemma_map_walk_covers_entries(b, version, es, max, st1);
        let (rest, err) = spec_steps(b, version, Some(es), max, st1);
        let x = r->Ok_0->Some_0;
        assert(spec_step_handle(x) == Some(es[st.idx as int].handle));
        assert(spec_steps(b, version, Some(es), max, st).0 == seq![x] + rest);
        assert forall|k: int| 0 <= k < es.len() - st.idx implies spec_step_handle(
            #[trigger] spec_steps(b, version, Some(es), max, st).0[k],
        ) == Some(es[st.idx + k].handle) by {
            if k > 0 {
                assert((seq![x] + rest)[k] == rest[k - 1]);
                assert(st1.idx + (k - 1) == st.idx + k);
            }
        }
    }
}

/// Whatever the stream and the map hold, a walk takes at most as many
/// steps as the record limit leaves.
pub proof fn lemma_walk_bounded(
    b: Seq<u8>,
    version: Version,
    map: Option<Seq<HandleEntry>>,
    max: usize,
    st: WalkState,
)
    ensures
        spec_steps(b, version, map, max, st).0.len() <= if st.visited <= max {
            max - st.visited
        } else {
            0
        },
    decreases max - st.visited,
{
    let (r, st1) = spec_step(b, version, map, max, st);
    if r matches Ok(Some(x)) {
        if st1.visited > st.visited && st1.visited <= max {
            lemma_walk_bounded(b, version, map, max, st1);
        }
    }
}

/// The objects among `steps`, in order.
pub open spec fn spec_objects(steps: Seq<WalkStep>) -> Seq<WalkStep>
    decreases steps.len(),
{
    if steps.len() == 0 {
        Seq::empty()
    } else {
        let rest = spec_objects(steps.drop_first());
        match steps[0] {
            WalkStep::Object { .. } => seq![steps[0]] + rest,
            WalkStep::Skipped { .. } => rest,
        }
    }
}

/// The skipped entries among `steps`, in order.
pub open spec fn spec_skips(steps: Seq<WalkStep>) -> Seq<WalkStep>
    decreases steps.len(),
{
    if steps.len() == 0 {
        Seq::empty()
    } else {
        let rest = spec_skips(steps.drop_first());
        match steps[0] {
            WalkStep::Skipped { .. } => seq![steps[0]] + rest,
            WalkStep::Object { .. } => rest,
        }
    }
}

/// `o` is the object that the step `r` names.
pub open spec fn spec_names_object(o: RawObject, b: Seq<u8>, version: Version, r: WalkStep) -> bool {
    match r {
        WalkStep::Object { start, handle } => spec_object_at(o, b, version, start, handle),
        WalkStep::Skipped { .. } => false,
    }
}

/// `objs` are the objects that the `Object` steps in `refs` name.
pub open spec fn spec_objects_match(objs: Seq<RawObject>, b: Seq<u8>, version: Version, refs: Seq<WalkStep>) -> bool {
    &&& objs.len() == refs.len()
    &&& forall|i: int| 0 <= i < objs.len() ==> spec_names_object(#[trigger] objs[i], b, version, refs[i])
}

/// `item` is what the step `r` names.
pub open spec fn spec_item_matches(
    item: Result<Option<ObjectWalkItem>>,
    r: core::result::Result<Option<WalkStep>, Error>,
    b: Seq<u8>,
    version: Version,
) -> bool {
    match r {
        Err(e) => item == Err::<Option<ObjectWalkItem>, Error>(e),
        Ok(None) => item matches Ok(None),
        Ok(Some(WalkStep::Object { start, handle })) => match item {
            Ok(Some(ObjectWalkItem::Object(o))) => spec_object_at(o, b, version, start, handle),
            _ => false,
        },
        Ok(Some(WalkStep::Skipped { handle, offset })) => match item {
            Ok(Some(ObjectWalkItem::Skipped(s))) => s.handle == handle && s.offset == offset,
            _ => false,
        },
    }
}

/// How a strict walk over `steps` ends.
#[derive(Debug)]
pub enum StrictEnd {
    /// Every record was read and none has a reserved type.
    Clean,
    /// The walk itself failed.
    Failed(Error),
    /// A handle-map entry whose record could not be read.
    SkippedRecord { handle: u64, offset: u64 },
    /// An object whose type code the format reserves.
    UnknownType { type_code: u16, offset: u64 },
}

/// The first failure a strict walk meets in `steps` (a skipped record
/// or an object of a reserved type), else how the walk ended.
pub open spec fn spec_strict_end(steps: Seq<WalkStep>, b: Seq<u8>, version: Version, end: Option<Error>) -> StrictEnd
    decreases steps.len(),
{
    if steps.len() == 0 {
        match end {
            None => StrictEnd::Clean,
            Some(e) => StrictEnd::Failed(e),
        }
    } else {
        match steps[0] {
            WalkStep::Skipped { handle, offset } => StrictEnd::SkippedRecord { handle, offset },
            WalkStep::Object { start, .. } => match spec_read_record(b, start as int, version) {
                Ok(Some((_, tc, _, _, _))) => match spec_from_code(tc) {
                    ObjectType::Unknown(code) => StrictEnd::UnknownType { type_code: code, offset: start as u64 },
                    _ => spec_strict_end(steps.drop_first(), b, version, end),
                },
                _ => spec_strict_end(steps.drop_first(), b, version, end),
            },
        }
    }
}

/// The `(type_code, offset)` of each object of a reserved type among
/// `steps`.
pub open spec fn spec_unknowns(steps: Seq<WalkStep>, b: Seq<u8>, version: Version) -> Seq<(u16, u64)>
    decreases steps.len(),
{
    if steps.len() == 0 {
        Seq::empty()
    } else {
        let rest = spec_unknowns(steps.drop_first(), b, version);
        match steps[0] {
            WalkStep::Object { start, .. } => match spec_read_record(b, start as int, version) {
                Ok(Some((_, tc, _, _, _))) => match spec_from_code(tc) {
                    ObjectType::Unknown(code) => seq![(code, start as u64)] + rest,
                    _ => rest,
                },
                _ => rest,
            },
            WalkStep::Skipped { .. } => rest,
        }
    }
}

/// The steps from `st` are the step from `st` followed by the steps
/// from where it leads.
pub proof fn lemma_steps_unfold(b: Seq<u8>, version: Version, map: Option<Seq<HandleEntry>>, max: usize, st: WalkState)
    ensures
        ({
            let (r, st1) = spec_step(b, version, map, max, st);
            let (s, e) = spec_steps(b, version, map, max, st);
            match r {
                Err(x) => s.len() == 0 && e == Some(x),
                Ok(None) => s.len() == 0 && e == None::<Error>,
                Ok(Some(x)) => {
                    &&& s == seq![x] + spec_steps(b, version, map, max, st1).0
                    &&& e == spec_steps(b, version, map, max, st1).1
                    &&& st.visited < st1.visited <= max
                },
            }
        }),
{
}

/// The filters over a sequence that starts with `x`.
pub proof fn lemma_filters_cons(x: WalkStep, rest: Seq<WalkStep>, b: Seq<u8>, version: Version, end: Option<Error>)
    ensures
        spec_objects(seq![x] + rest) == match x {
            WalkStep::Object { .. } => seq![x] + spec_objects(rest),
            WalkStep::Skipped { .. } => spec_objects(rest),
        },
        spec_skips(seq![x] + rest) == match x {
            WalkStep::Skipped { .. } => seq![x] + spec_skips(rest),
            WalkStep::Object { .. } => spec_skips(rest),
        },
        spec_unknowns(seq![x] + rest, b, version) == match x {
            WalkStep::Object { start, .. } => match spec_read_record(b, start as int, version) {
                Ok(Some((_, tc, _, _, _))) => match spec_from_code(tc) {
                    ObjectType::Unknown(code) => seq![(code, start as u64)] + spec_unknowns(rest, b, version),
                    _ => spec_unknowns(rest, b, version),
                },
                _ => spec_unknowns(rest, b, version),
            },
            WalkStep::Skipped { .. } => spec_unknowns(rest, b, version),
        },
        spec_strict_end(seq![x] + rest, b, version, end) == match x {
            WalkStep::Skipped { handle, offset } => StrictEnd::SkippedRecord { handle, offset },
            WalkStep::Object { start, .. } => match spec_read_record(b, start as int, version) {
                Ok(Some((_, tc, _, _, _))) => match spec_from_code(tc) {
                    ObjectType::Unknown(code) => StrictEnd::UnknownType { type_code: code, offset: start as u64 },
                    _ => spec_strict_end(rest, b, version, end),
                },
                _ => spec_strict_end(rest, b, version, end),
            },
        },
{
    assert((seq![x] + rest).drop_first() =~= rest);
    assert((seq![x] + rest)[0] == x);
}

pub proof fn lemma_objects_match_push(
    objs: Seq<RawObject>,
    b: Seq<u8>,
    version: Version,
    refs: Seq<WalkStep>,
    o: RawObject,
    r: WalkStep,
)
    requires
        spec_objects_match(objs, b, version, refs),
        r matches WalkStep::Object { start, handle } && spec_object_at(o, b, version, start, handle),
    ensures
        spec_objects_match(objs.push(o), b, version, refs.push(r)),
{
    let objs2 = objs.push(o);
    let refs2 = refs.push(r);
    assert forall|i: int| 0 <= i < objs2.len() implies spec_names_object(#[trigger] objs2[i], b, version, refs2[i]) by {
        if i < objs.len() {
            assert(objs2[i] == objs[i]);
            assert(refs2[i] == refs[i]);
        }
    }
}

/// `e` is the skipped entry that the step `r` names.
pub open spec fn spec_names_skip(e: SkippedEntry, r: WalkStep) -> bool {
    match r {
        WalkStep::Skipped { handle, offset } => e.handle == handle && e.offset == offset,
        WalkStep::Object { .. } => false,
    }
}

/// `v` are the skipped entries that the `Skipped` steps in `refs` name.
pub open spec fn spec_skips_match(v: Seq<SkippedEntry>, refs: Seq<WalkStep>) -> bool {
    &&& v.len() == refs.len()
    &&& forall|i: int| 0 <= i < v.len() ==> spec_names_skip(#[trigger] v[i], refs[i])
}

pub proof fn lemma_skips_match_push(v: Seq<SkippedEntry>, refs: Seq<WalkStep>, e: SkippedEntry, r: WalkStep)
    requires
        spec_skips_match(v, refs),
        spec_names_skip(e, r),
    ensures
        spec_skips_match(v.push(e), refs.push(r)),
{
    let v2 = v.push(e);
    let refs2 = refs.push(r);
    assert forall|i: int| 0 <= i < v2.len() implies spec_names_skip(#[trigger] v2[i], refs2[i]) by {
        if i < v.len() {
            assert(v2[i] == v[i]);
            assert(refs2[i] == refs[i]);
        }
    }
}

// ----------------------------------------------------------------
// The walker.
// ----------------------------------------------------------------

/// Walker over the records of an `AcDb:AcDbObjects` byte stream.
#[derive(Debug)]
pub struct ObjectWalker<'a> {
    bytes: &'a [u8],
    pos: usize,
    version: Version,
    handle_map: Option<&'a HandleMap>,
    handle_idx: usize,
    /// The cap on records visited.
    pub limits: WalkerLimits,
    /// Records the walker has tried to read so far.
    pub records_visited: usize,
}

impl<'a> ObjectWalker<'a> {
    /// The stream.
    pub closed spec fn data(&self) -> Seq<u8> {
        self.bytes@
    }

    /// The format release the stream is read as.
    pub closed spec fn version(&self) -> Version {
        self.version
    }

    /// The handle map's entries, in handle-driven mode.
    pub closed spec fn map(&self) -> Option<Seq<HandleEntry>> {
        match self.handle_map {
            Some(m) => Some(m.entries@),
            None => None,
        }
    }

    /// The moving state.
    pub closed spec fn state(&self) -> WalkState {
        WalkState { pos: self.pos, idx: self.handle_idx, visited: self.records_visited }
    }

    /// The stream's bit count fits `usize` and the position is within it.
    pub closed spec fn wf(&self) -> bool {
        &&& self.bytes@.len() * 8 <= usize::MAX
        &&& self.pos <= self.bytes@.len()
    }

    /// The walker's limits.
    pub closed spec fn walker_limits(&self) -> WalkerLimits {
        self.limits
    }

    /// The cap on records visited.
    pub closed spec fn max_handles(&self) -> usize {
        self.limits.max_handles
    }

    /// The steps this walker has left, and how the walk ends.
    pub open spec fn steps(&self) -> (Seq<WalkStep>, Option<Error>) {
        spec_steps(self.data(), self.version(), self.map(), self.max_handles(), self.state())
    }

    /// A sequential walker from the start of the stream, past the 4-byte
    /// prefix that R2004, R2010, R2013 and R2018 streams carry.
    pub fn new(bytes: &'a [u8], version: Version) -> (w: Self)
        requires
            bytes@.len() * 8 <= usize::MAX,
        ensures
            w.wf(),
            w.data() == bytes@,
            w.version() == version,
            w.map() == None::<Seq<HandleEntry>>,
            w.state() == (WalkState {
                pos: if bytes@.len() >= 4 && (version == Version::R2004 || version == Version::R2010 || version
                    == Version::R2013 || version == Version::R2018) {
                    4
                } else {
                    0
                },
                idx: 0,
                visited: 0,
            }),
            w.walker_limits() == WalkerLimits::spec_safe(),
            w.max_handles() == WalkerLimits::spec_safe().max_handles,
    {
        let initial: usize = if bytes.len() >= 4 && (version == Version::R2004 || version == Version::R2010
            || version == Version::R2013 || version == Version::R2018) {
            4
        } else {
            0
        };
        ObjectWalker {
            bytes,
            pos: initial,
            version,
            handle_map: None,
            handle_idx: 0,
            limits: WalkerLimits::safe(),
            records_visited: 0,
        }
    }

    /// A handle-driven walker: reads the record at each offset of
    /// `map`, in map order.
    pub fn with_handle_map(bytes: &'a [u8], version: Version, map: &'a HandleMap) -> (w: Self)
        requires
            bytes@.len() * 8 <= usize::MAX,
        ensures
            w.wf(),
            w.data() == bytes@,
            w.version() == version,
            w.map() == Some(map.entries@),
            w.state() == (WalkState { pos: 0, idx: 0, visited: 0 }),
            w.walker_limits() == WalkerLimits::spec_safe(),
            w.max_handles() == WalkerLimits::spec_safe().max_handles,
    {
        ObjectWalker {
            bytes,
            pos: 0,
            version,
            handle_map: Some(map),
            handle_idx: 0,
            limits: WalkerLimits::safe(),
            records_visited: 0,
        }
    }

    /// The same walker with another cap.
    pub fn with_limits(self, limits: WalkerLimits) -> (w: Self)
        ensures
            w.wf() == self.wf(),
            w.data() == self.data(),
            w.version() == self.version(),
            w.map() == self.map(),
            w.state() == self.state(),
            w.walker_limits() == limits,
            w.max_handles() == limits.max_handles,
    {
        let mut w = self;
        w.limits = limits;
        w
    }

    /// Read the record at the current position.
    fn read_one_at_pos(&mut self) -> (res: Result<Option<RawObject>>)
        requires
            old(self).wf(),
            old(self).state().pos < old(self).data().len(),
        ensures
            final(self).wf(),
            final(self).data() == old(self).data(),
            final(self).version() == old(self).version(),
            final(self).map() == old(self).map(),
            final(self).max_handles() == old(self).max_handles(),
            final(self).state().idx == old(self).state().idx,
            final(self).state().visited == old(self).state().visited,
            match spec_read_record(old(self).data(), old(self).state().pos as int, old(self).version()) {
                Err(e) => res == Err::<Option<RawObject>, Error>(e) && final(self).state().pos == old(
                    self,
                ).state().pos,
                Ok(None) => res matches Ok(None) && final(self).state().pos == old(self).data().len(),
                Ok(Some((_, _, _, _, pe))) => res matches Ok(Some(o)) && spec_object_at(
                    o,
                    old(self).data(),
                    old(self).version(),
                    old(self).state().pos,
                    None,
                ) && final(self).state().pos == pe + 2,
            },
    {
        let start = self.pos;
        proof {
            reveal(spec_read_record);
            lemma_ms_advances(self.bytes@.subrange(start as int, self.bytes@.len() as int), 0, 0, 0);
        }
        let (size_bytes, ms_consumed) = match read_ms_bytealigned(&self.bytes[start..self.bytes.len()]) {
            Ok(x) => x,
            Err(e) => {
                return Err(e);
            },
        };
        if size_bytes == 0 {
            self.pos = self.bytes.len();
            return Ok(None);
        }
        let payload_start = start + ms_consumed;
        if (payload_start as u64) + (size_bytes as u64) + 2 > self.bytes.len() as u64 {
            self.pos = self.bytes.len();
            return Ok(None);
        }
        let payload_end = payload_start + size_bytes as usize;
        let crc_end = payload_end + 2;
        let payload = &self.bytes[payload_start..payload_end];
        let (type_code, handle) = match read_record_fields(payload, self.version) {
            Ok(x) => x,
            Err(e) => {
                return Err(e);
            },
        };
        let kind = ObjectType::from_code(type_code);
        let mut raw: Vec<u8> = Vec::new();
        push_bytes(&mut raw, payload);
        self.pos = crc_end;
        Ok(Some(RawObject { stream_offset: start, size_bytes, type_code, kind, handle, raw }))
    }

    /// One step of the walk: an object, a skipped handle-map entry, or
    /// `None` at the end; an error once `limits.max_handles` records
    /// have been visited, or when a sequential read fails.
    fn next_item(&mut self) -> (res: Result<Option<ObjectWalkItem>>)
        requires
            old(self).wf(),
        ensures
            final(self).wf(),
            final(self).data() == old(self).data(),
            final(self).version() == old(self).version(),
            final(self).map() == old(self).map(),
            final(self).max_handles() == old(self).max_handles(),
            ({
                let (r, st) = spec_step(
                    old(self).data(),
                    old(self).version(),
                    old(self).map(),
                    old(self).max_handles(),
                    old(self).state(),
                );
                &&& final(self).state() == st
                &&& spec_item_matches(res, r, old(self).data(), old(self).version())
            }),
    {
        if self.records_visited >= self.limits.max_handles {
            return Err(Error::WalkerLimitExceeded { limit: self.limits.max_handles, seen: self.records_visited });
        }
        match self.handle_map {
            Some(map) => {
                if self.handle_idx >= map.entries.len() {
                    return Ok(None);
                }
                let entry = map.entries[self.handle_idx];
                self.handle_idx += 1;
                self.records_visited += 1;
                let pos = #[verifier::truncate] (entry.offset as usize);
                if pos >= self.bytes.len() {
                    return Ok(
                        Some(
                            ObjectWalkItem::Skipped(
                                SkippedEntry {
                                    handle: entry.handle,
                                    offset: entry.offset,
                                    reason: "offset past end of object stream".to_string(),
                                },
                            ),
                        ),
                    );
                }
                self.pos = pos;
                match self.read_one_at_pos() {
                    Ok(Some(raw)) => {
                        let mut raw = raw;
                        raw.handle.value = entry.handle;
                        Ok(Some(ObjectWalkItem::Object(raw)))
                    },
                    Ok(None) => Ok(
                        Some(
                            ObjectWalkItem::Skipped(
                                SkippedEntry {
                                    handle: entry.handle,
                                    offset: entry.offset,
                                    reason: "record read returned None (truncated or zero-length)".to_string(),
                                },
                            ),
                        ),
                    ),
                    Err(_) => Ok(
                        Some(
                            ObjectWalkItem::Skipped(
                                SkippedEntry {
                                    handle: entry.handle,
                                    offset: entry.offset,
                                    reason: "record could not be parsed".to_string(),
                                },
                            ),
                        ),
                    ),
                }
            },
            None => {
                if self.pos >= self.bytes.len() {
                    return Ok(None);
                }
                self.records_visited += 1;
                match self.read_one_at_pos() {
                    Ok(Some(raw)) => Ok(Some(ObjectWalkItem::Object(raw))),
                    Ok(None) => Ok(None),
                    Err(e) => Err(e),
                }
            },
        }
    }
}

impl<'a> ObjectWalker<'a> {
    /// The next object, stepping over skipped records; `None` at the
    /// end, an error when the walk fails.
    fn next(&mut self) -> (res: Result<Option<RawObject>>)
        requires
            old(self).wf(),
        ensures
            final(self).wf(),
            final(self).data() == old(self).data(),
            final(self).version() == old(self).version(),
            final(self).map() == old(self).map(),
            final(self).max_handles() == old(self).max_handles(),
            ({
                let (steps, end) = old(self).steps();
                let objs = spec_objects(steps);
                if objs.len() > 0 {
                    &&& res matches Ok(Some(o)) && (objs[0] matches WalkStep::Object { start, handle }
                        && spec_object_at(o, old(self).data(), old(self).version(), start, handle))
                    &&& spec_objects(final(self).steps().0) == objs.drop_first()
                    &&& final(self).steps().1 == end
                    &&& old(self).state().visited < final(self).state().visited <= old(self).max_handles()
                } else {
                    match end {
                        Some(e) => res == Err::<Option<RawObject>, Error>(e),
                        None => res matches Ok(None),
                    }
                }
            }),
    {
        let ghost b = self.data();
        let ghost v = self.version();
        let ghost objs0 = spec_objects(self.steps().0);
        let ghost end0 = self.steps().1;
        let ghost visited0 = self.state().visited;
        loop
            invariant
                self.wf(),
                self.data() == b,
                self.version() == v,
                self.map() == old(self).map(),
                self.max_handles() == old(self).max_handles(),
                b == old(self).data(),
                v == old(self).version(),
                objs0 == spec_objects(old(self).steps().0),
                end0 == old(self).steps().1,
                visited0 == old(self).state().visited,
                spec_objects(self.steps().0) == objs0,
                self.steps().1 == end0,
                visited0 <= self.state().visited,
            decreases self.max_handles() - self.state().visited,
        {
            let ghost st = self.state();
            proof {
                lemma_steps_unfold(b, v, self.map(), self.max_handles(), st);
            }
            let item = self.next_item();
            match item {
                Err(e) => {
                    return Err(e);
                },
                Ok(None) => {
                    return Ok(None);
                },
                Ok(Some(ObjectWalkItem::Object(raw))) => {
                    proof {
                        let (r, st1) = spec_step(b, v, self.map(), self.max_handles(), st);
                        let x = r->Ok_0->Some_0;
                        lemma_filters_cons(x, self.steps().0, b, v, end0);
                        assert(objs0.drop_first() =~= spec_objects(self.steps().0));
                    }
                    return Ok(Some(raw));
                },
                Ok(Some(ObjectWalkItem::Skipped(_))) => {
                    proof {
                        let (r, st1) = spec_step(b, v, self.map(), self.max_handles(), st);
                        let x = r->Ok_0->Some_0;
                        lemma_filters_cons(x, self.steps().0, b, v, end0);
                    }
                },
            }
        }
    }

    /// Every object of the walk, stepping over skipped records; the
    /// walk's error if it fails (in particular
    /// [`Error::WalkerLimitExceeded`] past `limits.max_handles`).
    pub fn collect_all(self) -> (res: Result<Vec<RawObject>>)
        requires
            self.wf(),
        ensures
            match self.steps().1 {
                Some(e) => res == Err::<Vec<RawObject>, Error>(e),
                None => res matches Ok(v) && spec_objects_match(
                    v@,
                    self.data(),
                    self.version(),
                    spec_objects(self.steps().0),
                ),
            },
    {
        let ghost w0 = self;
        let mut w = self;
        let mut out: Vec<RawObject> = Vec::new();
        let ghost mut refs: Seq<WalkStep> = Seq::empty();
        loop
            invariant
                w0 == self,
                w.wf(),
                w.data() == w0.data(),
                w.version() == w0.version(),
                w.map() == w0.map(),
                w.max_handles() == w0.max_handles(),
                w.steps().1 == w0.steps().1,
                spec_objects(w0.steps().0) == refs + spec_objects(w.steps().0),
                spec_objects_match(out@, w0.data(), w0.version(), refs),
            decreases w.max_handles() - w.state().visited,
        {
            let ghost pre = w.steps();
            let ghost objs = spec_objects(pre.0);
            let r = w.next();
            match r {
                Err(e) => {
                    proof {
                        assert(objs.len() == 0);
                        assert(pre.1 == Some(e));
                    }
                    return Err(e);
                },
                Ok(None) => {
                    proof {
                        assert(objs.len() == 0);
                        assert(pre.1 == None::<Error>);
                        assert(refs + objs =~= refs);
                    }
                    return Ok(out);
                },
                Ok(Some(raw)) => {
                    proof {
                        assert(refs.push(objs[0]) + spec_objects(w.steps().0) =~= refs + objs);
                    }
                    proof {
                        lemma_objects_match_push(out@, w0.data(), w0.version(), refs, raw, objs[0]);
                        refs = refs.push(objs[0]);
                    }
                    out.push(raw);
                },
            }
        }
    }
}

impl<'a> ObjectWalker<'a> {
    /// Every object of the walk; fails on the first record that could
    /// not be read ([`Error::ObjectWalk`]), on the first object whose
    /// type code the format reserves ([`Error::UnknownObjectType`]), or
    /// with the walk's own error.
    pub fn collect_all_strict(self) -> (res: Result<Vec<RawObject>>)
        requires
            self.wf(),
        ensures
            match spec_strict_end(self.steps().0, self.data(), self.version(), self.steps().1) {
                StrictEnd::Clean => res matches Ok(v) && spec_objects_match(
                    v@,
                    self.data(),
                    self.version(),
                    spec_objects(self.steps().0),
                ),
                StrictEnd::Failed(e) => res == Err::<Vec<RawObject>, Error>(e),
                StrictEnd::SkippedRecord { handle, offset } => res matches Err(
                    Error::ObjectWalk { handle: h, offset: o, .. },
                ) && h == handle && o == offset,
                StrictEnd::UnknownType { type_code, offset } => res == Err::<Vec<RawObject>, Error>(
                    Error::UnknownObjectType { type_code, offset },
                ),
            },
    {
        let ghost w0 = self;
        let ghost b = self.data();
        let ghost v = self.version();
        let ghost end0 = self.steps().1;
        let mut w = self;
        let mut out: Vec<RawObject> = Vec::new();
        let ghost mut refs: Seq<WalkStep> = Seq::empty();
        loop
            invariant
                w0 == self,
                b == w0.data(),
                v == w0.version(),
                end0 == w0.steps().1,
                w.wf(),
                w.data() == b,
                w.version() == v,
                w.map() == w0.map(),
                w.max_handles() == w0.max_handles(),
                w.steps().1 == end0,
                spec_strict_end(w0.steps().0, b, v, end0) == spec_strict_end(w.steps().0, b, v, end0),
                spec_objects(w0.steps().0) == refs + spec_objects(w.steps().0),
                spec_objects_match(out@, b, v, refs),
            decreases w.max_handles() - w.state().visited,
        {
            let ghost st = w.state();
            let ghost pre = w.steps();
            proof {
                lemma_steps_unfold(b, v, w.map(), w.max_handles(), st);
            }
            match w.next_item() {
                Err(e) => {
                    return Err(e);
                },
                Ok(None) => {
                    proof {
                        assert(refs + spec_objects(pre.0) =~= refs);
                    }
                    return Ok(out);
                },
                Ok(Some(ObjectWalkItem::Object(raw))) => {
                    proof {
                        lemma_filters_cons(pre.0[0], w.steps().0, b, v, end0);
                    }
                    match raw.kind {
                        ObjectType::Unknown(code) => {
                            return Err(Error::UnknownObjectType { type_code: code, offset: raw.stream_offset as u64 });
                        },
                        _ => {},
                    }
                    proof {
                        lemma_objects_match_push(out@, b, v, refs, raw, pre.0[0]);
                        assert(refs.push(pre.0[0]) + spec_objects(w.steps().0) =~= refs + spec_objects(pre.0));
                        refs = refs.push(pre.0[0]);
                    }
                    out.push(raw);
                },
                Ok(Some(ObjectWalkItem::Skipped(entry))) => {
                    proof {
                        lemma_filters_cons(pre.0[0], w.steps().0, b, v, end0);
                    }
                    return Err(Error::ObjectWalk { handle: entry.handle, offset: entry.offset, reason: entry.reason });
                },
            }
        }
    }

    /// Every object of the walk, with a summary of the records that
    /// could not be read and of the objects whose type code the format
    /// reserves (those are kept in the list too). The walk stops at
    /// its first error, which is not reported.
    pub fn collect_all_lossy(self) -> (res: (Vec<RawObject>, ObjectWalkSummary))
        requires
            self.wf(),
        ensures
            spec_objects_match(res.0@, self.data(), self.version(), spec_objects(self.steps().0)),
            res.1.decoded_count == spec_objects(self.steps().0).len(),
            spec_skips_match(res.1.skipped@, spec_skips(self.steps().0)),
            res.1.errored_count == 0,
            res.1.unknown_types@ == spec_unknowns(self.steps().0, self.data(), self.version()),
    {
        let ghost w0 = self;
        let ghost b = self.data();
        let ghost v = self.version();
        let mut w = self;
        let mut out: Vec<RawObject> = Vec::new();
        let mut summary = ObjectWalkSummary::default();
        let ghost mut refs: Seq<WalkStep> = Seq::empty();
        let ghost mut skips: Seq<WalkStep> = Seq::empty();
        loop
            invariant
                w0 == self,
                b == w0.data(),
                v == w0.version(),
                w.wf(),
                w.data() == b,
                w.version() == v,
                w.map() == w0.map(),
                w.max_handles() == w0.max_handles(),
                spec_objects(w0.steps().0) == refs + spec_objects(w.steps().0),
                spec_skips(w0.steps().0) == skips + spec_skips(w.steps().0),
                spec_unknowns(w0.steps().0, b, v) == summary.unknown_types@ + spec_unknowns(w.steps().0, b, v),
                spec_objects_match(out@, b, v, refs),
                spec_skips_match(summary.skipped@, skips),
                summary.decoded_count == out@.len(),
                out@.len() <= w.state().visited,
                summary.errored_count == 0,
            decreases w.max_handles() - w.state().visited,
        {
            let ghost st = w.state();
            let ghost pre = w.steps();
            proof {
                lemma_steps_unfold(b, v, w.map(), w.max_handles(), st);
            }
            match w.next_item() {
                Ok(Some(ObjectWalkItem::Object(raw))) => {
                    proof {
                        lemma_filters_cons(pre.0[0], w.steps().0, b, v, None);
                        lemma_objects_match_push(out@, b, v, refs, raw, pre.0[0]);
                        assert(refs.push(pre.0[0]) + spec_objects(w.steps().0) =~= refs + spec_objects(pre.0));
                        refs = refs.push(pre.0[0]);
                    }
                    let ghost unk_before = summary.unknown_types@;
                    match raw.kind {
                        ObjectType::Unknown(code) => {
                            summary.unknown_types.push((code, raw.stream_offset as u64));
                            proof {
                                assert(unk_before + spec_unknowns(pre.0, b, v) =~= summary.unknown_types@
                                    + spec_unknowns(w.steps().0, b, v));
                            }
                        },
                        _ => {},
                    }
                    summary.decoded_count += 1;
                    out.push(raw);
                },
                Ok(Some(ObjectWalkItem::Skipped(entry))) => {
                    proof {
                        lemma_filters_cons(pre.0[0], w.steps().0, b, v, None);
                        lemma_skips_match_push(summary.skipped@, skips, entry, pre.0[0]);
                        assert(skips.push(pre.0[0]) + spec_skips(w.steps().0) =~= skips + spec_skips(pre.0));
                        skips = skips.push(pre.0[0]);
                    }
                    summary.skipped.push(entry);
                },
                _ => {
                    proof {
                        assert(refs + spec_objects(pre.0) =~= refs);
                        assert(skips + spec_skips(pre.0) =~= skips);
                        assert(summary.unknown_types@ + spec_unknowns(pre.0, b, v) =~= summary.unknown_types@);
                    }
                    return (out, summary);
                },
            }
        }
    }
}

// ----------------------------------------------------------------
// Byte- and bit-level fields.
// ----------------------------------------------------------------

pub proof fn lemma_ms_advances(b: Seq<u8>, i: int, value: u32, shift: u32)
    ensures
        spec_read_ms(b, i, value, shift) matches Ok((_, j)) ==> i + 2 <= j <= b.len(),
    decreases b.len() - i,
{
    if 0 <= i && i + 1 < b.len() {
        let module = ((b[i + 1] as u32) << 8u32) | (b[i] as u32);
        lemma_ms_advances(b, i + 2, value | ((module & 0x7FFF) << shift), (shift + 15) as u32);
    }
}

/// Read a record payload's type code and handle.
fn read_record_fields(payload: &[u8], version: Version) -> (res: Result<(u16, Handle)>)
    requires
        payload@.len() * 8 <= usize::MAX,
    ensures
        match spec_record_fields(payload@, version) {
            Ok(x) => res == Ok::<(u16, Handle), Error>(x),
            Err(e) => res == Err::<(u16, Handle), Error>(e),
        },
{
    let mut cur = BitCursor::new(payload);
    if version.is_r2010_plus() {
        match read_mc_unsigned(&mut cur) {
            Ok(_) => {},
            Err(e) => {
                return Err(e);
            },
        }
    }
    let type_code = match read_object_type(&mut cur, version) {
        Ok(t) => t,
        Err(e) => {
            return Err(e);
        },
    };
    if version == Version::R2000 {
        match cur.read_rl() {
            Ok(_) => {},
            Err(e) => {
                return Err(e);
            },
        }
    }
    let handle = match cur.read_handle() {
        Ok(h) => h,
        Err(e) => {
            return Err(e);
        },
    };
    Ok((type_code, handle))
}

/// Read a byte-aligned modular short; returns the value and the bytes
/// consumed.
pub fn read_ms_bytealigned(bytes: &[u8]) -> (res: Result<(u32, usize)>)
    ensures
        match spec_read_ms(bytes@, 0, 0, 0) {
            Ok((v, j)) => res == Ok::<(u32, usize), Error>((v, j as usize)),
            Err(e) => res == Err::<(u32, usize), Error>(e),
        },
{
    let mut value: u32 = 0;
    let mut shift: u32 = 0;
    let mut i: usize = 0;
    loop
        invariant
            i <= bytes@.len(),
            shift <= 30,
            shift % 15 == 0,
            spec_read_ms(bytes@, i as int, value, shift) == spec_read_ms(bytes@, 0, 0, 0),
        decreases bytes@.len() - i,
    {
        if bytes.len() - i <= 1 {
            return Err(Error::Truncated { offset: i as u64, wanted: 2, len: bytes.len() as u64 });
        }
        let lo = bytes[i] as u32;
        let hi = bytes[i + 1] as u32;
        i += 2;
        let module = (hi << 8) | lo;
        let cont = (module & 0x8000) != 0;
        let data = module & 0x7FFF;
        value = value | (data << shift);
        shift += 15;
        if !cont || shift >= 32 {
            return Ok((value, i));
        }
    }
}

/// Read an unsigned modular char (the handle stream size) at a
/// byte-aligned cursor.
fn read_mc_unsigned(r: &mut BitCursor<'_>) -> (res: Result<u64>)
    requires
        old(r).wf(),
        old(r).pos() % 8 == 0,
    ensures
        final(r).wf(),
        final(r).data() == old(r).data(),
        match spec_umc(old(r).data(), old(r).pos() / 8, 0, 0) {
            Ok((v, j)) => res == Ok::<u64, Error>(v) && final(r).pos() == 8 * j,
            Err(e) => res == Err::<u64, Error>(e),
        },
{
    read_unsigned_mc(r)
}

/// Read the object type field.
pub fn read_object_type(c: &mut BitCursor<'_>, version: Version) -> (res: Result<u16>)
    requires
        old(c).wf(),
    ensures
        final(c).wf(),
        final(c).data() == old(c).data(),
        match spec_object_type(old(c).data(), old(c).pos(), version) {
            Ok((v, p)) => res == Ok::<u16, Error>(v) && final(c).pos() == p,
            Err(e) => res == Err::<u16, Error>(e),
        },
{
    if version.is_r2010_plus() {
        let tag = match c.read_bb() {
            Ok(t) => t,
            Err(e) => {
                return Err(e);
            },
        };
        let x = match c.read_rc() {
            Ok(v) => v as u16,
            Err(e) => {
                return Err(e);
            },
        };
        if tag == 0 {
            Ok(x)
        } else if tag == 1 {
            Ok(x + 0x1F0)
        } else {
            let msb = match c.read_rc() {
                Ok(v) => v as u16,
                Err(e) => {
                    return Err(e);
                },
            };
            Ok((msb << 8) | x)
        }
    } else {
        c.read_bs_u()
    }
}

} // verus!
