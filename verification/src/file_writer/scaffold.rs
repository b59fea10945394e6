//! The first stages of the writer: collect named sections, keep them
//! in name order, and frame each as a numbered data page.
use vstd::prelude::*;

use vstd::string::StringSliceAdditionalSpecFns;
use vstd::utf8::encode_utf8;

use crate::error::{Error, Result};
use crate::file_writer::bytes_eq;
use crate::lz77_encode::spec_compress;
use crate::section_writer::{build_section, spec_page, BuiltSection};
use crate::version::Version;

verus! {

/// `a` sorts before `b` byte by byte, a proper prefix first: the order
/// of `str`.
pub open spec fn spec_bytes_lt(a: Seq<u8>, b: Seq<u8>) -> bool
    decreases a.len(),
{
    if a.len() == 0 {
        b.len() > 0
    } else if b.len() == 0 {
        false
    } else if a[0] != b[0] {
        a[0] < b[0]
    } else {
        spec_bytes_lt(a.drop_first(), b.drop_first())
    }
}

/// No byte string sorts before itself.
pub proof fn lemma_bytes_lt_irreflexive(a: Seq<u8>)
    ensures
        !spec_bytes_lt(a, a),
    decreases a.len(),
{
    if a.len() > 0 {
        lemma_bytes_lt_irreflexive(a.drop_first());
    }
}

/// Of two different byte strings, one sorts before the other, and not
/// both ways.
pub proof fn lemma_bytes_lt_total(a: Seq<u8>, b: Seq<u8>)
    ensures
        a == b || spec_bytes_lt(a, b) || spec_bytes_lt(b, a),
        !(spec_bytes_lt(a, b) && spec_bytes_lt(b, a)),
    decreases a.len(),
{
    if a.len() > 0 && b.len() > 0 && a[0] == b[0] {
        lemma_bytes_lt_total(a.drop_first(), b.drop_first());
        if a.drop_first() == b.drop_first() {
            assert(a =~= seq![a[0]] + a.drop_first());
            assert(b =~= seq![b[0]] + b.drop_first());
        }
    } else if a.len() == 0 && b.len() == 0 {
        assert(a =~= b);
    }
}

/// The order is transitive.
pub proof fn lemma_bytes_lt_transitive(a: Seq<u8>, b: Seq<u8>, c: Seq<u8>)
    requires
        spec_bytes_lt(a, b),
        spec_bytes_lt(b, c),
    ensures
        spec_bytes_lt(a, c),
    decreases a.len(),
{
    if a.len() > 0 && a[0] == b[0] && b[0] == c[0] {
        lemma_bytes_lt_transitive(a.drop_first(), b.drop_first(), c.drop_first());
    }
}

/// Two byte-string sequences, each strictly ascending, that hold the
/// same strings are the same sequence.
pub proof fn lemma_sorted_same_elements(a: Seq<Seq<u8>>, b: Seq<Seq<u8>>)
    requires
        forall|i: int, j: int| 0 <= i < j < a.len() ==> spec_bytes_lt(#[trigger] a[i], #[trigger] a[j]),
        forall|i: int, j: int| 0 <= i < j < b.len() ==> spec_bytes_lt(#[trigger] b[i], #[trigger] b[j]),
        forall|x: Seq<u8>| a.contains(x) <==> b.contains(x),
    ensures
        a == b,
    decreases a.len(),
{
    if a.len() == 0 {
        if b.len() > 0 {
            assert(b.contains(b[0]));
        }
        assert(a =~= b);
    } else {
        assert(a.contains(a[0]));
        assert(b.contains(b[0]));
        let k = choose|k: int| 0 <= k < b.len() && b[k] == a[0];
        let m = choose|m: int| 0 <= m < a.len() && a[m] == b[0];
        lemma_bytes_lt_irreflexive(a[0]);
        if k > 0 {
            if m > 0 {
                lemma_bytes_lt_transitive(a[0], b[0], a[0]);
            }
        }
        assert(a[0] == b[0]);
        let a1 = a.drop_first();
        let b1 = b.drop_first();
        assert forall|x: Seq<u8>| a1.contains(x) <==> b1.contains(x) by {
            if a1.contains(x) {
                let i = choose|i: int| 0 <= i < a1.len() && a1[i] == x;
                assert(a[i + 1] == x);
                assert(b.contains(x));
                let j = choose|j: int| 0 <= j < b.len() && b[j] == x;
                if j == 0 {
                    lemma_bytes_lt_irreflexive(x);
                    assert(spec_bytes_lt(a[0], a[i + 1]));
                }
                assert(b1[j - 1] == x);
            }
            if b1.contains(x) {
                let j = choose|j: int| 0 <= j < b1.len() && b1[j] == x;
                assert(b[j + 1] == x);
                assert(a.contains(x));
                let i = choose|i: int| 0 <= i < a.len() && a[i] == x;
                if i == 0 {
                    lemma_bytes_lt_irreflexive(x);
                    assert(spec_bytes_lt(b[0], b[j + 1]));
                }
                assert(a1[i - 1] == x);
            }
        }
        lemma_sorted_same_elements(a1, b1);
        assert(a =~= seq![a[0]] + a1);
        assert(b =~= seq![b[0]] + b1);
    }
}

/// Whether `a` sorts before `b` byte by byte.
pub fn bytes_lt(a: &[u8], b: &[u8]) -> (r: bool)
    ensures
        r == spec_bytes_lt(a@, b@),
{
    let mut i: usize = 0;
    proof {
        assert(a@.skip(0) =~= a@);
        assert(b@.skip(0) =~= b@);
    }
    while i < a.len() && i < b.len()
        invariant
            i <= a@.len(),
            i <= b@.len(),
            spec_bytes_lt(a@, b@) == spec_bytes_lt(a@.skip(i as int), b@.skip(i as int)),
        decreases a@.len() - i,
    {
        if a[i] != b[i] {
            return a[i] < b[i];
        }
        proof {
            assert(a@.skip(i as int).drop_first() =~= a@.skip(i + 1));
            assert(b@.skip(i as int).drop_first() =~= b@.skip(i + 1));
        }
        i += 1;
    }
    i < b.len() && i == a.len()
}

/// The bytes of a name, by which sections are ordered.
pub open spec fn spec_key(name: Seq<char>) -> Seq<u8> {
    encode_utf8(name)
}

/// Collects named sections with their bytes, kept in ascending name
/// order, each name once, and frames them as numbered pages.
#[derive(Debug)]
pub struct WriterScaffold {
    sections: Vec<(String, Vec<u8>)>,
    /// The release the file is written for.
    pub version: Version,
}

/// A framed section with the name and number it was given.
#[derive(Debug, Clone)]
pub struct NamedBuiltSection {
    pub name: String,
    pub number: u32,
    /// File offset the page was framed for.
    pub page_offset: u32,
    pub built: BuiltSection,
}

/// The byte length of the page that frames `input`; 0 for an input
/// the compressor refuses.
pub open spec fn spec_page_len(input: Seq<u8>) -> nat {
    match spec_compress(input) {
        Ok(c) => spec_page(input, c, 0, 0).len(),
        Err(_) => 0,
    }
}

/// The compressor accepts `input`: its length is not 1, 2 or 3.
pub open spec fn spec_encodable(input: Seq<u8>) -> bool {
    !(1 <= input.len() <= 3)
}

/// The file offset given to page `i`: pages follow one another from
/// 0x100.
pub open spec fn spec_offset(payloads: Seq<Seq<u8>>, i: nat) -> nat
    decreases i,
{
    if i == 0 {
        0x100
    } else {
        spec_offset(payloads, (i - 1) as nat) + spec_page_len(payloads[i - 1])
    }
}

/// Every running offset that numbering reaches fits in a `u32`: that
/// after each page of an encodable prefix.
pub open spec fn spec_offsets_fit(payloads: Seq<Seq<u8>>) -> bool {
    forall|i: nat|
        i <= payloads.len() && (forall|j: int| 0 <= j < i ==> #[trigger] spec_encodable(payloads[j]))
            ==> #[trigger] spec_offset(payloads, i) <= u32::MAX
}

/// Section `i` of `names` and `payloads`, framed as page `i + 1`.
pub open spec fn spec_named(n: NamedBuiltSection, names: Seq<Seq<char>>, payloads: Seq<Seq<u8>>, i: int) -> bool {
    let p = payloads[i];
    let off = spec_offset(payloads, i as nat);
    &&& n.name@ == names[i]
    &&& n.number == (i + 1) as u32
    &&& n.page_offset == off
    &&& spec_compress(p) matches Ok(c) && n.built.bytes@ == spec_page(p, c, (i + 1) as u32, off as u32)
        && n.built.compressed_size == c.len() as u32 && n.built.decompressed_size == p.len() as u32
}

/// A page's length does not depend on its number or offset.
proof fn lemma_page_len(input: Seq<u8>, c: Seq<u8>, number: u32, offset: u32)
    ensures
        spec_page(input, c, number, offset).len() == spec_page(input, c, 0, 0).len(),
        spec_page(input, c, number, offset).len() >= c.len() + 32,
{
}

/// A page is longer than the bytes it frames.
proof fn lemma_page_len_covers(input: Seq<u8>)
    requires
        spec_encodable(input),
    ensures
        spec_page_len(input) >= input.len(),
{
    let c = spec_compress(input)->Ok_0;
    lemma_page_len(input, c, 0, 0);
}

impl WriterScaffold {
    /// The release the file is written for.
    pub closed spec fn target(&self) -> Version {
        self.version
    }

    /// The section names, in the order kept.
    pub closed spec fn names(&self) -> Seq<Seq<char>> {
        Seq::new(self.sections@.len(), |i: int| self.sections@[i].0@)
    }

    /// The sections' bytes, in the same order.
    pub closed spec fn payloads(&self) -> Seq<Seq<u8>> {
        Seq::new(self.sections@.len(), |i: int| self.sections@[i].1@)
    }

    /// The names' bytes, in the same order.
    pub open spec fn keys(&self) -> Seq<Seq<u8>> {
        self.names().map_values(|s: Seq<char>| spec_key(s))
    }

    /// Names strictly ascend in byte order, so none occurs twice.
    pub open spec fn wf(&self) -> bool {
        &&& self.payloads().len() == self.names().len()
        &&& forall|i: int, j: int| 0 <= i < j < self.names().len() ==> spec_bytes_lt(#[trigger] self.keys()[i], #[trigger] self.keys()[j])
    }

    /// An empty scaffold for `version`.
    pub fn new(version: Version) -> (s: Self)
        ensures
            s.wf(),
            s.names().len() == 0,
            s.target() == version,
    {
        WriterScaffold { sections: Vec::new(), version }
    }

    /// The order sections are added in leaves no trace: two scaffolds
    /// that hold the same names, each with the same bytes, keep them in
    /// the same order, so they number and frame them alike.
    pub proof fn lemma_order_free(a: &WriterScaffold, b: &WriterScaffold)
        requires
            a.wf(),
            b.wf(),
            forall|x: Seq<char>| a.names().contains(x) <==> b.names().contains(x),
            forall|i: int, j: int|
                0 <= i < a.names().len() && 0 <= j < b.names().len() && #[trigger] a.names()[i] == #[trigger] b.names()[j]
                    ==> a.payloads()[i] == b.payloads()[j],
        ensures
            a.names() == b.names(),
            a.payloads() == b.payloads(),
    {
        assert forall|x: Seq<u8>| a.keys().contains(x) <==> b.keys().contains(x) by {
            if a.keys().contains(x) {
                let i = choose|i: int| 0 <= i < a.keys().len() && a.keys()[i] == x;
                assert(a.names().contains(a.names()[i]));
                let j = choose|j: int| 0 <= j < b.names().len() && b.names()[j] == a.names()[i];
                assert(b.keys()[j] == x);
            }
            if b.keys().contains(x) {
                let j = choose|j: int| 0 <= j < b.keys().len() && b.keys()[j] == x;
                assert(b.names().contains(b.names()[j]));
                let i = choose|i: int| 0 <= i < a.names().len() && a.names()[i] == b.names()[j];
                assert(a.keys()[i] == x);
            }
        }
        lemma_sorted_same_elements(a.keys(), b.keys());
        assert forall|i: int| 0 <= i < a.names().len() implies a.names()[i] == b.names()[i] by {
            assert(a.keys()[i] == b.keys()[i]);
            vstd::utf8::encode_utf8_decode_utf8(a.names()[i]);
            vstd::utf8::encode_utf8_decode_utf8(b.names()[i]);
        }
        assert(a.names() =~= b.names());
        assert forall|i: int| 0 <= i < a.payloads().len() implies a.payloads()[i] == b.payloads()[i] by {
            assert(a.names()[i] == b.names()[i]);
        }
        assert(a.payloads() =~= b.payloads());
    }

    /// Add a section's bytes under `name`, replacing those of a section
    /// already added under the same name.
    pub fn add_section(&mut self, name: &str, bytes: Vec<u8>)
        requires
            old(self).wf(),
        ensures
            final(self).wf(),
            final(self).target() == old(self).target(),
            old(self).names().contains(name@) ==> exists|i: int|
                0 <= i < old(self).names().len() && old(self).names()[i] == name@
                    && final(self).names() == old(self).names()
                    && final(self).payloads() == old(self).payloads().update(i, bytes@),
            !old(self).names().contains(name@) ==> exists|i: int|
                0 <= i <= old(self).names().len()
                    && final(self).names() == old(self).names().insert(i, name@)
                    && final(self).payloads() == old(self).payloads().insert(i, bytes@),
    {
        let key = name.as_bytes();
        let n = self.sections.len();
        let mut j: usize = 0;
        while j < n && bytes_lt(self.sections[j].0.as_str().as_bytes(), key)
            invariant
                n == self.sections@.len(),
                *self == *old(self),
                self.wf(),
                key@ == spec_key(name@),
                j <= n,
                forall|p: int| 0 <= p < j ==> spec_bytes_lt(#[trigger] self.keys()[p], key@),
            decreases n - j,
        {
            assert(self.keys()[j as int] == spec_key(self.sections@[j as int].0@));
            j += 1;
        }
        proof {
            assert forall|p: int| 0 <= p < n implies #[trigger] self.keys()[p] == spec_key(self.sections@[p].0@) by {}
            vstd::utf8::encode_utf8_decode_utf8(name@);
        }
        if j < n && bytes_eq(self.sections[j].0.as_str().as_bytes(), key) {
            let kept = self.sections[j].0.clone();
            proof {
                vstd::utf8::encode_utf8_decode_utf8(self.sections@[j as int].0@);
                assert(self.names()[j as int] == name@);
            }
            self.sections.set(j, (kept, bytes));
            proof {
                assert(self.names() =~= old(self).names());
                assert(self.payloads() =~= old(self).payloads().update(j as int, bytes@));
                assert(self.keys() =~= old(self).keys());
            }
        } else {
            proof {
                if j < n {
                    lemma_bytes_lt_total(self.keys()[j as int], key@);
                }
                assert forall|p: int| j <= p < n implies spec_bytes_lt(key@, #[trigger] self.keys()[p]) by {
                    if p > j {
                        lemma_bytes_lt_transitive(key@, self.keys()[j as int], self.keys()[p]);
                    }
                }
                assert forall|p: int| 0 <= p < n implies #[trigger] self.names()[p] != name@ by {
                    assert(self.keys()[p] == spec_key(self.names()[p]));
                    lemma_bytes_lt_irreflexive(key@);
                    if p < j {
                        assert(spec_bytes_lt(self.keys()[p], key@));
                    } else {
                        assert(spec_bytes_lt(key@, self.keys()[p]));
                    }
                }
            }
            let owned = name.to_owned();
            self.sections.insert(j, (owned, bytes));
            proof {
                assert(self.names() =~= old(self).names().insert(j as int, name@));
                assert(self.payloads() =~= old(self).payloads().insert(j as int, bytes@));
                assert(self.keys() =~= old(self).keys().insert(j as int, key@));
            }
        }
    }

    /// The section names, in ascending byte order.
    pub fn section_names(&self) -> (v: Vec<String>)
        requires
            self.wf(),
        ensures
            v@.len() == self.names().len(),
            forall|i: int| 0 <= i < v@.len() ==> #[trigger] v@[i]@ == self.names()[i],
    {
        let mut v: Vec<String> = Vec::new();
        let mut i: usize = 0;
        while i < self.sections.len()
            invariant
                i <= self.sections@.len(),
                v@.len() == i,
                forall|k: int| 0 <= k < i ==> #[trigger] v@[k]@ == self.names()[k],
            decreases self.sections@.len() - i,
        {
            let s = self.sections[i].0.clone();
            v.push(s);
            i += 1;
        }
        v
    }

    /// Number the sections 1, 2, ... in name order and frame each as a
    /// page, the pages following one another from file offset 0x100.
    /// Fails at the first section, in that order, whose length the
    /// compressor refuses.
    pub fn build_sections(&mut self) -> (r: Result<Vec<NamedBuiltSection>>)
        requires
            old(self).wf(),
            spec_offsets_fit(old(self).payloads()),
            forall|j: int| 0 <= j < old(self).payloads().len() ==> #[trigger] old(self).payloads()[j].len() + 1024 <= usize::MAX / 2,
        ensures
            *final(self) == *old(self),
            r is Ok <==> (forall|j: int| 0 <= j < old(self).payloads().len() ==> #[trigger] spec_encodable(old(self).payloads()[j])),
            r matches Ok(v) ==> v@.len() == old(self).names().len() && forall|i: int|
                0 <= i < v@.len() ==> #[trigger] spec_named(v@[i], old(self).names(), old(self).payloads(), i),
            r matches Err(e) ==> exists|k: int|
                0 <= k < old(self).payloads().len() && !spec_encodable(old(self).payloads()[k])
                    && (forall|j: int| 0 <= j < k ==> #[trigger] spec_encodable(old(self).payloads()[j]))
                    && e == Error::Lz77UnencodableLength(old(self).payloads()[k].len() as usize),
    {
        let ghost payloads = self.payloads();
        let n = self.sections.len();
        let mut out: Vec<NamedBuiltSection> = Vec::new();
        let mut page_offset: u32 = 0x100;
        let mut i: usize = 0;
        while i < n
            invariant
                n == self.sections@.len(),
                payloads == self.payloads(),
                *self == *old(self),
                spec_offsets_fit(payloads),
                forall|j: int| 0 <= j < payloads.len() ==> #[trigger] payloads[j].len() + 1024 <= usize::MAX / 2,
                i <= n,
                out@.len() == i,
                page_offset == spec_offset(payloads, i as nat),
                forall|j: int| 0 <= j < i ==> #[trigger] spec_encodable(payloads[j]),
                forall|j: int| 0 <= j < i ==> #[trigger] spec_named(out@[j], self.names(), payloads, j),
            decreases n - i,
        {
            let entry = &self.sections[i];
            let ghost p = payloads[i as int];
            assert(entry.1@ == p);
            proof {
                if spec_encodable(p) {
                    assert(forall|j: int| 0 <= j < i + 1 ==> #[trigger] spec_encodable(payloads[j]));
                    assert(spec_offset(payloads, (i + 1) as nat) <= u32::MAX);
                    lemma_page_len_covers(p);
                }
            }
            let number = (i + 1) as u32;
            let built = match build_section(entry.1.as_slice(), number, page_offset) {
                Ok(b) => b,
                Err(e) => {
                    return Err(e);
                },
            };
            let ghost c = spec_compress(p)->Ok_0;
            proof {
                lemma_page_len(p, c, number, page_offset);
            }
            let page_size = built.bytes.len() as u32;
            let name = entry.0.clone();
            out.push(NamedBuiltSection { name, number, page_offset, built });
            proof {
                assert(forall|j: int| 0 <= j < i + 1 ==> #[trigger] spec_encodable(payloads[j]));
                assert(spec_offset(payloads, (i + 1) as nat) <= u32::MAX);
            }
            page_offset = page_offset + page_size;
            i += 1;
        }
        Ok(out)
    }
}

} // verus!
