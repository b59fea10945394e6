//! The glTF 2.0 writer, JSON and binary buffer emission: the output
//! selector, primitive topology codes, JSON string escaping, the JSON
//! document and the GLB binary container.
//!
//! Floating-point values (vertex bounds, node matrices, colours) reach
//! the JSON document as the number texts the caller formatted; the
//! document's structure, its indices, counts and byte offsets are
//! computed here.
use vstd::prelude::*;

use vstd::string::StringExecFns;

use crate::le::{push_bytes, push_u32_le, spec_le32, spec_le32_value};
use crate::text::{push_decimal, spec_decimal_digits};

verus! {

/// glTF primitive topology: the two of the seven topologies the
/// exporter emits.
#[derive(Debug, Clone, Copy, PartialEq, Eq, Structural)]
pub enum PrimitiveMode {
    /// `mode = 1`: pairs of vertex indices form segments.
    Lines,
    /// `mode = 4`: triples of vertex indices form triangles.
    Triangles,
}

impl PrimitiveMode {
    /// The glTF integer code of the mode (mesh.primitive.mode).
    pub fn as_gltf_code(self) -> (c: u32)
        ensures
            c == match self {
                PrimitiveMode::Lines => 1u32,
                PrimitiveMode::Triangles => 4u32,
            },
    {
        match self {
            PrimitiveMode::Lines => 1,
            PrimitiveMode::Triangles => 4,
        }
    }
}

/// Output container of an export.
#[derive(Debug, Clone, Copy, PartialEq, Eq, Structural)]
pub enum GltfFormat {
    /// glTF JSON text (UTF-8).
    Gltf,
    /// GLB binary container (a single self-contained file).
    Glb,
}

// ----------------------------------------------------------------
// JSON string escaping.
// ----------------------------------------------------------------

/// A lowercase hexadecimal digit.
pub open spec fn spec_hex_digit(d: u32) -> char {
    if d < 10 {
        ((d + 48) as u8) as char
    } else {
        ((d + 87) as u8) as char
    }
}

/// How one character is written inside a JSON string: backslash,
/// quote, newline, carriage return and tab by their short escapes,
/// other control characters as `\u00XX`, the rest as themselves.
pub open spec fn spec_escape_char(c: char) -> Seq<char> {
    if c == '\\' {
        seq!['\\', '\\']
    } else if c == '"' {
        seq!['\\', '"']
    } else if c == '\n' {
        seq!['\\', 'n']
    } else if c == '\r' {
        seq!['\\', 'r']
    } else if c == '\t' {
        seq!['\\', 't']
    } else if (c as u32) < 0x20 {
        seq!['\\', 'u', '0', '0', spec_hex_digit((c as u32) / 16), spec_hex_digit((c as u32) % 16)]
    } else {
        seq![c]
    }
}

/// `cs` escaped character by character.
pub open spec fn spec_json_escape(cs: Seq<char>) -> Seq<char>
    decreases cs.len(),
{
    if cs.len() == 0 {
        Seq::empty()
    } else {
        spec_json_escape(cs.drop_last()) + spec_escape_char(cs.last())
    }
}

/// `String::push`: appends `c`.
#[verifier::external_body]
pub(crate) fn push_char(s: &mut String, c: char)
    ensures
        final(s)@ == old(s)@.push(c),
{
    s.push(c)
}

/// A lowercase hexadecimal digit.
fn hex_digit(d: u32) -> (c: char)
    requires
        d < 16,
    ensures
        c == spec_hex_digit(d),
{
    if d < 10 {
        ((d + 48) as u8) as char
    } else {
        ((d + 87) as u8) as char
    }
}

/// Escape a string for a JSON string literal (RFC 8259): the
/// structural characters and the control range; non-ASCII text stays
/// as it is, UTF-8 being a valid JSON encoding.
pub fn json_escape(s: &str) -> (out: String)
    ensures
        out@ == spec_json_escape(s@),
{
    broadcast use vstd::string::axiom_spec_iter;

    let mut out = String::new();
    let mut chars = s.chars();
    let ghost mut k: int = 0;
    loop
        invariant
            0 <= k <= s@.len(),
            vstd::std_specs::iter::IteratorSpec::remaining(&chars) == s@.subrange(k, s@.len() as int),
            vstd::std_specs::iter::IteratorSpec::obeys_prophetic_iter_laws(&chars),
            out@ == spec_json_escape(s@.subrange(0, k)),
        decreases s@.len() - k,
    {
        let ghost before = chars;
        let next = chars.next();
        proof {
            vstd::string::next_postcondition(&before, &chars, next);
        }
        let ch = match next {
            Some(c) => c,
            None => {
                proof {
                    assert(s@.subrange(0, k) =~= s@);
                }
                return out;
            },
        };
        proof {
            let s1 = s@.subrange(0, k + 1);
            assert(ch == s@[k]);
            assert(s1.drop_last() =~= s@.subrange(0, k));
            assert(s1.last() == ch);
        }
        let ghost out0 = out@;
        if ch == '\\' {
            push_char(&mut out, '\\');
            push_char(&mut out, '\\');
        } else if ch == '"' {
            push_char(&mut out, '\\');
            push_char(&mut out, '"');
        } else if ch == '\n' {
            push_char(&mut out, '\\');
            push_char(&mut out, 'n');
        } else if ch == '\r' {
            push_char(&mut out, '\\');
            push_char(&mut out, 'r');
        } else if ch == '\t' {
            push_char(&mut out, '\\');
            push_char(&mut out, 't');
        } else if (ch as u32) < 0x20 {
            let v = ch as u32;
            push_char(&mut out, '\\');
            push_char(&mut out, 'u');
            push_char(&mut out, '0');
            push_char(&mut out, '0');
            push_char(&mut out, hex_digit(v / 16));
            push_char(&mut out, hex_digit(v % 16));
        } else {
            push_char(&mut out, ch);
        }
        proof {
            assert(out@ =~= out0 + spec_escape_char(ch));
            k = k + 1;
            assert(vstd::std_specs::iter::IteratorSpec::remaining(&chars) =~= s@.subrange(k, s@.len() as int));
        }
    }
}

// ----------------------------------------------------------------
// The GLB container.
// ----------------------------------------------------------------

/// `n` rounded up to a multiple of four.
pub open spec fn spec_pad4(n: int) -> int {
    (n + 3) / 4 * 4
}

/// `n` copies of `b`.
pub open spec fn spec_fill(n: int, b: u8) -> Seq<u8> {
    Seq::new(n as nat, |i: int| b)
}

/// The GLB encoding of a JSON text and a binary buffer: a 12-byte
/// header (`"glTF"`, version 2, total length), the JSON chunk padded
/// with spaces to four bytes, and, when `bin` is not empty, the BIN
/// chunk padded with zeros.
pub open spec fn spec_glb(json: Seq<u8>, bin: Seq<u8>) -> Seq<u8> {
    let jp = spec_pad4(json.len() as int);
    let bp = spec_pad4(bin.len() as int);
    let bin_chunk = if bin.len() == 0 {
        0
    } else {
        8 + bp
    };
    let total = 12 + 8 + jp + bin_chunk;
    let head = seq![0x67u8, 0x6C, 0x54, 0x46] + spec_le32(2) + spec_le32(total as u32);
    let json_chunk = spec_le32(jp as u32) + seq![0x4Au8, 0x53, 0x4F, 0x4E] + json + spec_fill(
        jp - json.len(),
        0x20,
    );
    let bin_part = if bin.len() == 0 {
        Seq::empty()
    } else {
        spec_le32(bp as u32) + seq![0x42u8, 0x49, 0x4E, 0x00] + bin + spec_fill(bp - bin.len(), 0)
    };
    head + json_chunk + bin_part
}

/// The length of the GLB encoding of a `json_len`-byte text and a
/// `bin_len`-byte buffer.
pub open spec fn spec_glb_len(json_len: int, bin_len: int) -> int {
    12 + 8 + spec_pad4(json_len) + if bin_len == 0 {
        0
    } else {
        8 + spec_pad4(bin_len)
    }
}

/// The GLB layout: the file opens with `glTF` and version 2, its
/// length is the header's length field and a multiple of four, and the
/// JSON chunk holds the whole text, padded by fewer than four bytes.
pub proof fn lemma_glb_layout(json: Seq<u8>, bin: Seq<u8>)
    requires
        spec_glb_len(json.len() as int, bin.len() as int) <= u32::MAX,
    ensures
        spec_glb(json, bin).len() == spec_glb_len(json.len() as int, bin.len() as int),
        spec_glb(json, bin).len() % 4 == 0,
        spec_glb(json, bin).subrange(0, 4) == seq![0x67u8, 0x6C, 0x54, 0x46],
        spec_le32_value(spec_glb(json, bin), 4) == 2,
        spec_le32_value(spec_glb(json, bin), 8) == spec_glb(json, bin).len(),
        spec_glb(json, bin).subrange(20, 20 + json.len() as int) == json,
        json.len() <= spec_pad4(json.len() as int) < json.len() + 4,
{
    let jp = spec_pad4(json.len() as int);
    let bp = spec_pad4(bin.len() as int);
    lemma_pad4_props(json.len());
    lemma_pad4_props(bin.len());
    lemma_glb_len_mod4(json.len(), bin.len());
    let total = spec_glb_len(json.len() as int, bin.len() as int);
    let v = total as u32;
    let head = seq![0x67u8, 0x6C, 0x54, 0x46] + spec_le32(2) + spec_le32(v);
    let json_chunk = spec_le32(jp as u32) + seq![0x4Au8, 0x53, 0x4F, 0x4E] + json + spec_fill(
        jp - json.len(),
        0x20,
    );
    let bin_part = if bin.len() == 0 {
        Seq::empty()
    } else {
        spec_le32(bp as u32) + seq![0x42u8, 0x49, 0x4E, 0x00] + bin + spec_fill(bp - bin.len(), 0)
    };
    let out = spec_glb(json, bin);
    assert(out == head + json_chunk + bin_part);
    lemma_header_bytes(head, v);
    lemma_chunk_bytes(json_chunk, jp as u32, seq![0x4Au8, 0x53, 0x4F, 0x4E], json, 0x20, jp - json.len());
    if bin.len() != 0 {
        lemma_chunk_bytes(bin_part, bp as u32, seq![0x42u8, 0x49, 0x4E, 0x00], bin, 0, bp - bin.len());
    }
    lemma_prefix_bytes(head, json_chunk + bin_part);
    assert(head + json_chunk + bin_part == head + (json_chunk + bin_part));
    assert forall|k: int| 0 <= k < json.len() implies #[trigger] out[20 + k] == json[k] by {
        assert(out[20 + k] == json_chunk[8 + k]);
    }
    assert(out.subrange(20, 20 + json.len() as int) =~= json);
}

proof fn lemma_glb_len_mod4(j: nat, b: nat)
    ensures
        spec_glb_len(j as int, b as int) % 4 == 0,
{
    let q1 = (j + 3) as int / 4;
    let q2 = (b + 3) as int / 4;
    if b == 0 {
        assert(spec_glb_len(j as int, b as int) == 4 * (5 + q1));
        vstd::arithmetic::div_mod::lemma_mod_multiples_basic(5 + q1, 4);
    } else {
        assert(spec_glb_len(j as int, b as int) == 4 * (7 + q1 + q2));
        vstd::arithmetic::div_mod::lemma_mod_multiples_basic(7 + q1 + q2, 4);
    }
}

/// The 12-byte GLB header holds the magic, the version and a length.
proof fn lemma_header_bytes(h: Seq<u8>, v: u32)
    requires
        h == seq![0x67u8, 0x6C, 0x54, 0x46] + spec_le32(2) + spec_le32(v),
    ensures
        h.len() == 12,
        h.subrange(0, 4) == seq![0x67u8, 0x6C, 0x54, 0x46],
        spec_le32_value(h, 4) == 2,
        spec_le32_value(h, 8) == v,
{
    crate::le::lemma_le32_roundtrip(v);
    crate::le::lemma_le32_roundtrip(2);
    assert(h.subrange(0, 4) =~= seq![0x67u8, 0x6C, 0x54, 0x46]);
    assert(h[4] == spec_le32(2)[0] && h[5] == spec_le32(2)[1] && h[6] == spec_le32(2)[2] && h[7]
        == spec_le32(2)[3]);
    assert(h[8] == spec_le32(v)[0] && h[9] == spec_le32(v)[1] && h[10] == spec_le32(v)[2] && h[11]
        == spec_le32(v)[3]);
}

/// A chunk is its length word, its tag, its data and its padding.
proof fn lemma_chunk_bytes(ch: Seq<u8>, len: u32, tag: Seq<u8>, data: Seq<u8>, pad: u8, n: int)
    requires
        tag.len() == 4,
        n >= 0,
        ch == spec_le32(len) + tag + data + spec_fill(n, pad),
    ensures
        ch.len() == 8 + data.len() + n,
        forall|k: int| 0 <= k < data.len() ==> #[trigger] ch[8 + k] == data[k],
{
    crate::le::lemma_le32_roundtrip(len);
    assert forall|k: int| 0 <= k < data.len() implies #[trigger] ch[8 + k] == data[k] by {
        assert((spec_le32(len) + tag + data)[8 + k] == data[k]);
    }
}

/// Bytes of a prefix keep their places in the whole, and so do the
/// little-endian words they make.
proof fn lemma_prefix_bytes(a: Seq<u8>, b: Seq<u8>)
    requires
        a.len() == 12,
    ensures
        (a + b).subrange(0, 4) == a.subrange(0, 4),
        spec_le32_value(a + b, 4) == spec_le32_value(a, 4),
        spec_le32_value(a + b, 8) == spec_le32_value(a, 8),
{
    assert((a + b).subrange(0, 4) =~= a.subrange(0, 4));
}

proof fn lemma_pad4_props(n: nat)
    ensures
        spec_pad4(n as int) % 4 == 0,
        n <= spec_pad4(n as int) < n + 4,
{
    vstd::arithmetic::div_mod::lemma_fundamental_div_mod(n + 3 as int, 4);
    vstd::arithmetic::div_mod::lemma_mod_multiples_basic((n + 3) as int / 4, 4);
}

/// Append `n` copies of `b`.
fn push_fill(out: &mut Vec<u8>, n: usize, b: u8)
    ensures
        final(out)@ == old(out)@ + spec_fill(n as int, b),
{
    let mut i: usize = 0;
    while i < n
        invariant
            i <= n,
            out@ == old(out)@ + spec_fill(i as int, b),
        decreases n - i,
    {
        out.push(b);
        i += 1;
        proof {
            assert(out@ =~= old(out)@ + spec_fill(i as int, b));
        }
    }
}

proof fn lemma_pad4(x: usize)
    requires
        x + 3 <= usize::MAX,
    ensures
        ((x + 3) as usize) & !3usize == spec_pad4(x as int),
        spec_pad4(x as int) >= x,
        spec_pad4(x as int) - x <= 3,
{
    let y = (x + 3) as usize;
    assert(y & !3usize == y - y % 4) by (bit_vector);
    assert((x + 3) / 4 * 4 == y - y % 4);
}

/// Encode a `(json, bin)` pair as a GLB file; the BIN chunk is left
/// out when `bin` is empty.
#[verifier::rlimit(40)]
#[verifier::spinoff_prover]
pub fn encode_glb(json: &[u8], bin: &[u8]) -> (out: Vec<u8>)
    requires
        json@.len() + bin@.len() + 64 <= usize::MAX,
    ensures
        out@ == spec_glb(json@, bin@),
{
    proof {
        lemma_pad4(json@.len() as usize);
        lemma_pad4(bin@.len() as usize);
    }
    let json_padded_len = (json.len() + 3) & !3;
    let bin_padded_len = (bin.len() + 3) & !3;
    let header_len = 12usize;
    let json_chunk_len = 8 + json_padded_len;
    let bin_chunk_len = if bin.len() == 0 {
        0
    } else {
        8 + bin_padded_len
    };
    let total_len = header_len + json_chunk_len + bin_chunk_len;
    let mut out: Vec<u8> = Vec::new();
    let ghost jp = spec_pad4(json@.len() as int);
    let ghost bp = spec_pad4(bin@.len() as int);
    push_bytes(&mut out, &[0x67, 0x6C, 0x54, 0x46]);
    push_u32_le(&mut out, 2);
    push_u32_le(&mut out, #[verifier::truncate] (total_len as u32));
    let ghost head = out@;
    assert(head =~= seq![0x67u8, 0x6C, 0x54, 0x46] + spec_le32(2) + spec_le32(
        #[verifier::truncate] (total_len as u32),
    ));
    push_u32_le(&mut out, #[verifier::truncate] (json_padded_len as u32));
    push_bytes(&mut out, &[0x4A, 0x53, 0x4F, 0x4E]);
    push_bytes(&mut out, json);
    push_fill(&mut out, json_padded_len - json.len(), 0x20);
    let ghost with_json = out@;
    assert(with_json =~= head + (spec_le32(#[verifier::truncate] (json_padded_len as u32)) + seq![
        0x4Au8,
        0x53,
        0x4F,
        0x4E,
    ] + json@ + spec_fill(jp - json@.len(), 0x20)));
    if bin.len() != 0 {
        push_u32_le(&mut out, #[verifier::truncate] (bin_padded_len as u32));
        push_bytes(&mut out, &[0x42, 0x49, 0x4E, 0x00]);
        push_bytes(&mut out, bin);
        push_fill(&mut out, bin_padded_len - bin.len(), 0x00);
        assert(out@ =~= with_json + (spec_le32(#[verifier::truncate] (bin_padded_len as u32)) + seq![
            0x42u8,
            0x49,
            0x4E,
            0x00,
        ] + bin@ + spec_fill(bp - bin@.len(), 0)));
    } else {
        assert(out@ =~= with_json + Seq::<u8>::empty());
    }
    out
}

// ----------------------------------------------------------------
// The JSON document.
// ----------------------------------------------------------------

/// One mesh of the document: its name, material, vertex count, index
/// count (the indices accessor's `count`), topology, and the POSITION
/// bounds as JSON number texts.
#[derive(Debug, Clone)]
pub struct GltfMeshRecord {
    pub name: String,
    pub material_index: usize,
    pub vertex_count: usize,
    pub index_count: usize,
    pub mode: PrimitiveMode,
    pub pos_min: Vec<String>,
    pub pos_max: Vec<String>,
}

/// One scene node: the mesh it shows and, when it has one, its matrix
/// as JSON number texts.
#[derive(Debug, Clone)]
pub struct GltfNodeRecord {
    pub mesh_index: usize,
    pub matrix: Option<Vec<String>>,
}

/// One material: its name and base colour as JSON number texts.
#[derive(Debug, Clone)]
pub struct GltfMaterialRecord {
    pub name: String,
    pub base_color: Vec<String>,
}

/// `n` in decimal.
pub open spec fn spec_dec(n: int) -> Seq<char> {
    spec_decimal_digits(n as nat)
}

/// `sep`, except before the first item of a list.
pub open spec fn spec_sep(first: bool, sep: Seq<char>) -> Seq<char> {
    if first {
        Seq::empty()
    } else {
        sep
    }
}

/// The first `k` texts of `xs`, separated by `, `.
pub open spec fn spec_number_list(xs: Seq<String>, k: int) -> Seq<char>
    decreases k,
{
    if k <= 0 {
        Seq::empty()
    } else {
        spec_number_list(xs, k - 1) + spec_sep(k == 1, ", "@) + xs[k - 1]@
    }
}

/// `0, 1, ..., k - 1`.
pub open spec fn spec_index_list(k: int) -> Seq<char>
    decreases k,
{
    if k <= 0 {
        Seq::empty()
    } else {
        spec_index_list(k - 1) + spec_sep(k == 1, ", "@) + spec_dec(k - 1)
    }
}

/// A node object.
pub open spec fn spec_node_item(n: GltfNodeRecord) -> Seq<char> {
    "\n    { \"mesh\": "@ + spec_dec(n.mesh_index as int) + match n.matrix {
        Some(m) => ", \"matrix\": ["@ + spec_number_list(m@, m@.len() as int) + "]"@,
        None => Seq::empty(),
    } + " }"@
}

/// The first `k` node objects, separated by commas.
pub open spec fn spec_nodes_json(ns: Seq<GltfNodeRecord>, k: int) -> Seq<char>
    decreases k,
{
    if k <= 0 {
        Seq::empty()
    } else {
        spec_nodes_json(ns, k - 1) + spec_sep(k == 1, ","@) + spec_node_item(ns[k - 1])
    }
}

/// The glTF code of a topology.
pub open spec fn spec_mode_code(m: PrimitiveMode) -> int {
    match m {
        PrimitiveMode::Lines => 1,
        PrimitiveMode::Triangles => 4,
    }
}

/// Mesh `i`'s object: its primitive uses accessors `2i` (POSITION) and
/// `2i + 1` (indices).
pub open spec fn spec_mesh_item(m: GltfMeshRecord, i: int) -> Seq<char> {
    "\n    { \"name\": \""@ + spec_json_escape(m.name@) + "\", \"primitives\": [ { \"attributes\": { \"POSITION\": "@
        + spec_dec(2 * i) + " }, \"indices\": "@ + spec_dec(2 * i + 1) + ", \"material\": "@ + spec_dec(
        m.material_index as int,
    ) + ", \"mode\": "@ + spec_dec(spec_mode_code(m.mode)) + " } ] }"@
}

/// The first `k` mesh objects, separated by commas.
pub open spec fn spec_meshes_json(ms: Seq<GltfMeshRecord>, k: int) -> Seq<char>
    decreases k,
{
    if k <= 0 {
        Seq::empty()
    } else {
        spec_meshes_json(ms, k - 1) + spec_sep(k == 1, ","@) + spec_mesh_item(ms[k - 1], k - 1)
    }
}

/// A material object: non-metallic and moderately rough.
pub open spec fn spec_material_item(m: GltfMaterialRecord) -> Seq<char> {
    "\n    { \"name\": \""@ + spec_json_escape(m.name@) + "\", \"pbrMetallicRoughness\": { \"baseColorFactor\": ["@
        + spec_number_list(m.base_color@, m.base_color@.len() as int)
        + "], \"metallicFactor\": 0.0, \"roughnessFactor\": 0.8 } }"@
}

/// The first `k` material objects, separated by commas.
pub open spec fn spec_materials_json(ms: Seq<GltfMaterialRecord>, k: int) -> Seq<char>
    decreases k,
{
    if k <= 0 {
        Seq::empty()
    } else {
        spec_materials_json(ms, k - 1) + spec_sep(k == 1, ","@) + spec_material_item(ms[k - 1])
    }
}

/// Where mesh `i`'s bytes start in the buffer: the meshes before it,
/// each 12 bytes a vertex (`f32` VEC3) and 4 bytes an index (`u32`).
pub open spec fn spec_bin_offset(ms: Seq<GltfMeshRecord>, i: int) -> int
    decreases i,
{
    if i <= 0 {
        0
    } else {
        spec_bin_offset(ms, i - 1) + 12 * ms[i - 1].vertex_count + 4 * ms[i - 1].index_count
    }
}

/// The two buffer views of a mesh whose bytes start at `off`: its
/// positions (target ARRAY_BUFFER), then its indices (target
/// ELEMENT_ARRAY_BUFFER).
pub open spec fn spec_view_pair(m: GltfMeshRecord, off: int) -> Seq<char> {
    "\n    { \"buffer\": 0, \"byteOffset\": "@ + spec_dec(off) + ", \"byteLength\": "@ + spec_dec(
        12 * m.vertex_count,
    ) + ", \"target\": 34962 }"@ + ","@ + "\n    { \"buffer\": 0, \"byteOffset\": "@ + spec_dec(
        off + 12 * m.vertex_count,
    ) + ", \"byteLength\": "@ + spec_dec(4 * m.index_count) + ", \"target\": 34963 }"@
}

/// The buffer views of the first `k` meshes, separated by commas.
pub open spec fn spec_views_json(ms: Seq<GltfMeshRecord>, k: int) -> Seq<char>
    decreases k,
{
    if k <= 0 {
        Seq::empty()
    } else {
        spec_views_json(ms, k - 1) + spec_sep(k == 1, ","@) + spec_view_pair(ms[k - 1], spec_bin_offset(ms, k - 1))
    }
}

/// Mesh `i`'s two accessors: POSITION (VEC3 of `f32`, with its bounds)
/// on view `2i`, indices (SCALAR `u32`) on view `2i + 1`.
pub open spec fn spec_accessor_pair(m: GltfMeshRecord, i: int) -> Seq<char> {
    "\n    { \"bufferView\": "@ + spec_dec(2 * i) + ", \"componentType\": 5126, \"count\": "@ + spec_dec(
        m.vertex_count as int,
    ) + ", \"type\": \"VEC3\", \"min\": ["@ + spec_number_list(m.pos_min@, m.pos_min@.len() as int)
        + "], \"max\": ["@ + spec_number_list(m.pos_max@, m.pos_max@.len() as int) + "] },"@
        + "\n    { \"bufferView\": "@ + spec_dec(2 * i + 1) + ", \"componentType\": 5125, \"count\": "@
        + spec_dec(m.index_count as int) + ", \"type\": \"SCALAR\" }"@
}

/// The accessors of the first `k` meshes, separated by commas.
pub open spec fn spec_accessors_json(ms: Seq<GltfMeshRecord>, k: int) -> Seq<char>
    decreases k,
{
    if k <= 0 {
        Seq::empty()
    } else {
        spec_accessors_json(ms, k - 1) + spec_sep(k == 1, ","@) + spec_accessor_pair(ms[k - 1], k - 1)
    }
}

/// The glTF JSON document: asset, one scene holding every node, the
/// nodes, meshes and materials, one buffer of `buffer_len` bytes, two
/// buffer views and two accessors per mesh.
pub open spec fn spec_gltf_json(
    scene_name: Seq<char>,
    meshes: Seq<GltfMeshRecord>,
    nodes: Seq<GltfNodeRecord>,
    materials: Seq<GltfMaterialRecord>,
    buffer_len: usize,
) -> Seq<char> {
    "{\n  \"asset\": { \"version\": \"2.0\", \"generator\": \"dwg glTF writer\" },\n  \"scene\": 0,\n  \"scenes\": [ { \"name\": \""@
        + spec_json_escape(scene_name) + "\", \"nodes\": ["@ + spec_index_list(nodes.len() as int)
        + "] } ],\n  \"nodes\": ["@ + spec_nodes_json(nodes, nodes.len() as int) + "\n  ],\n  \"meshes\": ["@
        + spec_meshes_json(meshes, meshes.len() as int) + "\n  ],\n  \"materials\": ["@ + spec_materials_json(
        materials,
        materials.len() as int,
    ) + "\n  ],\n  \"buffers\": [ { \"byteLength\": "@ + spec_dec(buffer_len as int)
        + " } ],\n  \"bufferViews\": ["@ + spec_views_json(meshes, meshes.len() as int)
        + "\n  ],\n  \"accessors\": ["@ + spec_accessors_json(meshes, meshes.len() as int) + "\n  ]\n}"@
}

proof fn lemma_bin_offset_mono(ms: Seq<GltfMeshRecord>, i: int, j: int)
    requires
        0 <= i <= j,
    ensures
        spec_bin_offset(ms, i) <= spec_bin_offset(ms, j),
    decreases j,
{
    if i < j {
        lemma_bin_offset_mono(ms, i, j - 1);
    }
}

/// Append the number texts of `xs`, separated by `, `.
fn push_number_list(out: &mut String, xs: &Vec<String>)
    ensures
        final(out)@ == old(out)@ + spec_number_list(xs@, xs@.len() as int),
{
    let ghost start = out@;
    let mut k: usize = 0;
    while k < xs.len()
        invariant
            k <= xs@.len(),
            out@ == start + spec_number_list(xs@, k as int),
        decreases xs@.len() - k,
    {
        if k > 0 {
            out.append(", ");
        }
        out.append(xs[k].as_str());
        assert(out@ =~= start + spec_number_list(xs@, k + 1));
        k += 1;
    }
    assert(old(out)@ == start);
}

/// Append `0, 1, ..., n - 1`.
fn push_index_list(out: &mut String, n: usize)
    ensures
        final(out)@ == old(out)@ + spec_index_list(n as int),
{
    let ghost start = out@;
    let mut k: usize = 0;
    while k < n
        invariant
            k <= n,
            out@ == start + spec_index_list(k as int),
        decreases n - k,
    {
        if k > 0 {
            out.append(", ");
        }
        push_decimal(out, k as u64);
        assert(out@ =~= start + spec_index_list(k + 1));
        k += 1;
    }
    assert(old(out)@ == start);
}

fn node_item(n: &GltfNodeRecord) -> (s: String)
    ensures
        s@ == spec_node_item(*n),
{
    let mut s = String::from_str("\n    { \"mesh\": ");
    push_decimal(&mut s, n.mesh_index as u64);
    match &n.matrix {
        Some(m) => {
            s.append(", \"matrix\": [");
            push_number_list(&mut s, m);
            s.append("]");
        },
        None => {},
    }
    s.append(" }");
    assert(s@ =~= spec_node_item(*n));
    s
}

fn mesh_item(m: &GltfMeshRecord, i: usize) -> (s: String)
    requires
        2 * i + 1 <= usize::MAX,
    ensures
        s@ == spec_mesh_item(*m, i as int),
{
    let mut s = String::from_str("\n    { \"name\": \"");
    let name = json_escape(m.name.as_str());
    s.append(name.as_str());
    s.append("\", \"primitives\": [ { \"attributes\": { \"POSITION\": ");
    push_decimal(&mut s, (2 * i) as u64);
    s.append(" }, \"indices\": ");
    push_decimal(&mut s, (2 * i + 1) as u64);
    s.append(", \"material\": ");
    push_decimal(&mut s, m.material_index as u64);
    s.append(", \"mode\": ");
    push_decimal(&mut s, m.mode.as_gltf_code() as u64);
    s.append(" } ] }");
    s
}

fn material_item(m: &GltfMaterialRecord) -> (s: String)
    ensures
        s@ == spec_material_item(*m),
{
    let mut s = String::from_str("\n    { \"name\": \"");
    let name = json_escape(m.name.as_str());
    s.append(name.as_str());
    s.append("\", \"pbrMetallicRoughness\": { \"baseColorFactor\": [");
    push_number_list(&mut s, &m.base_color);
    s.append("], \"metallicFactor\": 0.0, \"roughnessFactor\": 0.8 } }");
    s
}

fn view_pair(m: &GltfMeshRecord, off: usize) -> (s: String)
    requires
        off + 12 * m.vertex_count + 4 * m.index_count <= usize::MAX,
    ensures
        s@ == spec_view_pair(*m, off as int),
{
    let pos_len = 12 * m.vertex_count;
    let mut s = String::from_str("\n    { \"buffer\": 0, \"byteOffset\": ");
    push_decimal(&mut s, off as u64);
    s.append(", \"byteLength\": ");
    push_decimal(&mut s, pos_len as u64);
    s.append(", \"target\": 34962 }");
    s.append(",");
    s.append("\n    { \"buffer\": 0, \"byteOffset\": ");
    push_decimal(&mut s, (off + pos_len) as u64);
    s.append(", \"byteLength\": ");
    push_decimal(&mut s, (4 * m.index_count) as u64);
    s.append(", \"target\": 34963 }");
    s
}

fn accessor_pair(m: &GltfMeshRecord, i: usize) -> (s: String)
    requires
        2 * i + 1 <= usize::MAX,
    ensures
        s@ == spec_accessor_pair(*m, i as int),
{
    let mut s = String::from_str("\n    { \"bufferView\": ");
    push_decimal(&mut s, (2 * i) as u64);
    s.append(", \"componentType\": 5126, \"count\": ");
    push_decimal(&mut s, m.vertex_count as u64);
    s.append(", \"type\": \"VEC3\", \"min\": [");
    push_number_list(&mut s, &m.pos_min);
    s.append("], \"max\": [");
    push_number_list(&mut s, &m.pos_max);
    s.append("] },");
    s.append("\n    { \"bufferView\": ");
    push_decimal(&mut s, (2 * i + 1) as u64);
    s.append(", \"componentType\": 5125, \"count\": ");
    push_decimal(&mut s, m.index_count as u64);
    s.append(", \"type\": \"SCALAR\" }");
    s
}

/// The glTF JSON text of a document: [`spec_gltf_json`]. The buffer
/// views are laid out mesh by mesh, positions then indices, and the
/// buffer is `buffer_len` bytes long. The mesh count and the buffer
/// size the meshes take must fit `usize`.
#[verifier::rlimit(30)]
pub fn gltf_json(
    scene_name: &str,
    meshes: &[GltfMeshRecord],
    nodes: &[GltfNodeRecord],
    materials: &[GltfMaterialRecord],
    buffer_len: usize,
) -> (s: String)
    requires
        meshes@.len() <= usize::MAX / 2,
        spec_bin_offset(meshes@, meshes@.len() as int) <= usize::MAX,
    ensures
        s@ == spec_gltf_json(scene_name@, meshes@, nodes@, materials@, buffer_len),
{
    let mut out = String::from_str(
        "{\n  \"asset\": { \"version\": \"2.0\", \"generator\": \"dwg glTF writer\" },\n  \"scene\": 0,\n  \"scenes\": [ { \"name\": \"",
    );
    let scene = json_escape(scene_name);
    out.append(scene.as_str());
    out.append("\", \"nodes\": [");
    push_index_list(&mut out, nodes.len());
    out.append("] } ],\n  \"nodes\": [");
    let ghost p_nodes = out@;
    let mut k: usize = 0;
    while k < nodes.len()
        invariant
            k <= nodes@.len(),
            out@ == p_nodes + spec_nodes_json(nodes@, k as int),
        decreases nodes@.len() - k,
    {
        if k > 0 {
            out.append(",");
        }
        let item = node_item(&nodes[k]);
        out.append(item.as_str());
        assert(out@ =~= p_nodes + spec_nodes_json(nodes@, k + 1));
        k += 1;
    }
    out.append("\n  ],\n  \"meshes\": [");
    let ghost p_meshes = out@;
    let mut k: usize = 0;
    while k < meshes.len()
        invariant
            k <= meshes@.len() <= usize::MAX / 2,
            out@ == p_meshes + spec_meshes_json(meshes@, k as int),
        decreases meshes@.len() - k,
    {
        if k > 0 {
            out.append(",");
        }
        let item = mesh_item(&meshes[k], k);
        out.append(item.as_str());
        assert(out@ =~= p_meshes + spec_meshes_json(meshes@, k + 1));
        k += 1;
    }
    out.append("\n  ],\n  \"materials\": [");
    let ghost p_materials = out@;
    let mut k: usize = 0;
    while k < materials.len()
        invariant
            k <= materials@.len(),
            out@ == p_materials + spec_materials_json(materials@, k as int),
        decreases materials@.len() - k,
    {
        if k > 0 {
            out.append(",");
        }
        let item = material_item(&materials[k]);
        out.append(item.as_str());
        assert(out@ =~= p_materials + spec_materials_json(materials@, k + 1));
        k += 1;
    }
    out.append("\n  ],\n  \"buffers\": [ { \"byteLength\": ");
    push_decimal(&mut out, buffer_len as u64);
    out.append(" } ],\n  \"bufferViews\": [");
    let ghost p_views = out@;
    let mut k: usize = 0;
    let mut off: usize = 0;
    while k < meshes.len()
        invariant
            k <= meshes@.len(),
            off == spec_bin_offset(meshes@, k as int),
            spec_bin_offset(meshes@, meshes@.len() as int) <= usize::MAX,
            out@ == p_views + spec_views_json(meshes@, k as int),
        decreases meshes@.len() - k,
    {
        proof {
            lemma_bin_offset_mono(meshes@, k + 1, meshes@.len() as int);
        }
        if k > 0 {
            out.append(",");
        }
        let item = view_pair(&meshes[k], off);
        out.append(item.as_str());
        assert(out@ =~= p_views + spec_views_json(meshes@, k + 1));
        off = off + 12 * meshes[k].vertex_count + 4 * meshes[k].index_count;
        k += 1;
    }
    out.append("\n  ],\n  \"accessors\": [");
    let ghost p_acc = out@;
    let mut k: usize = 0;
    while k < meshes.len()
        invariant
            k <= meshes@.len() <= usize::MAX / 2,
            out@ == p_acc + spec_accessors_json(meshes@, k as int),
        decreases meshes@.len() - k,
    {
        if k > 0 {
            out.append(",");
        }
        let item = accessor_pair(&meshes[k], k);
        out.append(item.as_str());
        assert(out@ =~= p_acc + spec_accessors_json(meshes@, k + 1));
        k += 1;
    }
    out.append("\n  ]\n}");
    out
}

} // verus!
