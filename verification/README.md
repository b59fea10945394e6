# dwg

A reader and writer for AutoCAD DWG drawings, written in Verus: every
parser, encoder and decoder of `src/` carries a contract that Verus
proves, and the laws that tie them together (what a writer writes, the
matching reader reads back) are stated and proved as proof functions.

## Layout

- `src/` — the verified library.
  - `bitcursor`, `bitwriter` — the bit-level codes of the object stream
    (`B`, `BB`, `RC`, `RS`, `RL`, `RD`, `BS`, `BL`, `BD`, `DD`, `H`) and
    the laws that each written code reads back.
  - `lz77`, `lz77_encode` — section decompression and a literal-only
    encoder, with the round-trip law.
  - `cipher`, `crc` — the file-open header cipher, the CRC-16 and CRC-32.
  - `header`, `header_vars`, `metadata`, `handle_map`, `object`,
    `object_type`, `section`, `version`, `limits` — the reading side:
    file headers, metadata sections, the handle map, the object walker.
  - `entities` — one decoder per entity type; doubles are carried as
    their IEEE-754 bit patterns (`u64`), so each decoder is stated
    exactly as a spec function of the bytes.
  - `section_writer`, `file_writer` — the writing side: data pages,
    the page map and section info system pages, and the whole R2004
    file, with the law that the header parser reads back what the
    writer put in.
  - `graph`, `gltf`, `handle_allocator` — bounded handle walks, block
    classification, glTF binary framing, handle allocation.
- `tests/` — tests on concrete values, run against the compiled library.
- `app/` — what is not verified: file I/O, floating-point geometry,
  glTF JSON emission, and copies of the library's types that carry
  outside derives.

## Trusted items

The library leans on a few functions it does not prove, each a small
wrapper with a stated contract: `byteorder`'s little-endian reads and
writes, `std`'s lossy UTF-8 and lossy and strict UTF-16 string
conversions (the UTF-16 ones stated in `src/text.rs`, the UTF-8 one
named), and `String::push`. Decimal numbers in messages and names are
built from `String::push` in verified code (`src/text.rs`), and the
glTF JSON document is written by verified code in `src/gltf.rs`.
