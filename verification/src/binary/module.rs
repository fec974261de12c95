//! The module as decoded from the binary format, and the decoder.

use vstd::prelude::*;
use vstd::slice::slice_subrange;
use crate::binary::instruction::Instruction;
use crate::binary::leb128::{lemma_leb128_u32_length, read_leb128_u32, spec_leb128_u32};
use crate::binary::opcode::{spec_opcode, Opcode};
use crate::binary::section::{spec_section_code, Function, FunctionView, SectionCode};
use crate::binary::types::{spec_value_type, FuncType, FuncTypeView, FunctionLocal, ValueType};

verus! {

/// Why a byte sequence is not decoded into a module.
#[derive(Debug, Clone, Copy, PartialEq, Eq, Structural)]
pub enum DecodeError {
    /// The input ends too early, lacks the `\0asm` preamble, or holds an LEB128 number that is
    /// too long for 32 bits.
    Malformed,
    /// A section starts with a byte that is no known section code.
    UnknownSection(u8),
    /// A section of a known kind that the decoder does not handle (import, memory, export, data).
    UnsupportedSection(SectionCode),
    /// A byte that should name a value type names none.
    InvalidValueType(u8),
    /// An instruction starts with a byte that is no known opcode.
    InvalidOpcode(u8),
}

impl DecodeError {
    /// The decoder meets something it does not support, rather than malformed input.
    pub open spec fn is_unsupported(self) -> bool {
        !(self is Malformed)
    }
}

/// What a parser of the binary format gives: the bytes left after what it read, and the value.
pub type SpecParse<T> = Result<(Seq<u8>, T), DecodeError>;

/// An executable parse result agrees with a specified one, values compared through `view`.
pub open spec fn parsed_as<'a, T, U>(
    res: Result<(&'a [u8], T), DecodeError>,
    spec: SpecParse<U>,
    view: spec_fn(T) -> U,
) -> bool {
    match (res, spec) {
        (Ok((rest, v)), Ok((spec_rest, spec_v))) => rest@ == spec_rest && view(v) == spec_v,
        (Err(e), Err(spec_e)) => e == spec_e,
        _ => false,
    }
}

/// An executable result agrees with a specified one, values compared through `view`.
pub open spec fn result_as<T, U>(
    res: Result<T, DecodeError>,
    spec: Result<U, DecodeError>,
    view: spec_fn(T) -> U,
) -> bool {
    match (res, spec) {
        (Ok(v), Ok(spec_v)) => view(v) == spec_v,
        (Err(e), Err(spec_e)) => e == spec_e,
        _ => false,
    }
}

/// One byte.
pub open spec fn spec_le_u8(s: Seq<u8>) -> SpecParse<u8> {
    if s.len() > 0 {
        Ok((s.drop_first(), s[0]))
    } else {
        Err(DecodeError::Malformed)
    }
}

/// A little-endian `u32` in four bytes.
pub open spec fn spec_le_u32(s: Seq<u8>) -> SpecParse<u32> {
    if s.len() >= 4 {
        Ok((s.skip(4), (s[0] + 0x100 * s[1] + 0x1_0000 * s[2] + 0x100_0000 * s[3]) as u32))
    } else {
        Err(DecodeError::Malformed)
    }
}

/// An unsigned LEB128 number that fits in 32 bits.
pub open spec fn spec_leb_u32(s: Seq<u8>) -> SpecParse<u32> {
    match spec_leb128_u32(s) {
        Some((v, n)) => Ok((s.skip(n as int), v)),
        None => Err(DecodeError::Malformed),
    }
}

/// The next `n` bytes.
pub open spec fn spec_take(s: Seq<u8>, n: u32) -> SpecParse<Seq<u8>> {
    if n <= s.len() {
        Ok((s.skip(n as int), s.take(n as int)))
    } else {
        Err(DecodeError::Malformed)
    }
}

/// `n` values read one after the other by `p`.
pub open spec fn spec_repeat<T>(
    p: spec_fn(Seq<u8>) -> SpecParse<T>,
    s: Seq<u8>,
    n: nat,
) -> SpecParse<Seq<T>>
    decreases n,
{
    if n == 0 {
        Ok((s, Seq::empty()))
    } else {
        match spec_repeat(p, s, (n - 1) as nat) {
            Ok((rest, items)) => match p(rest) {
                Ok((rest2, item)) => Ok((rest2, items.push(item))),
                Err(e) => Err(e),
            },
            Err(e) => Err(e),
        }
    }
}

/// Once a repetition fails, a longer one fails the same way.
pub proof fn lemma_repeat_error<T>(p: spec_fn(Seq<u8>) -> SpecParse<T>, s: Seq<u8>, i: nat, n: nat)
    requires
        i <= n,
        spec_repeat(p, s, i) is Err,
    ensures
        spec_repeat(p, s, n) == spec_repeat(p, s, i),
    decreases n,
{
    if n > i {
        lemma_repeat_error(p, s, i, (n - 1) as nat);
    }
}

/// A value type byte, which must name a value type.
pub open spec fn spec_decode_value_type(s: Seq<u8>) -> SpecParse<ValueType> {
    match spec_le_u8(s) {
        Ok((rest, byte)) => match spec_value_type(byte) {
            Some(t) => Ok((rest, t)),
            None => Err(DecodeError::InvalidValueType(byte)),
        },
        Err(e) => Err(e),
    }
}

/// Value types, one per byte, until the bytes run out.
pub open spec fn spec_value_types(s: Seq<u8>) -> Result<Seq<ValueType>, DecodeError>
    decreases s.len(),
{
    if s.len() == 0 {
        Ok(Seq::empty())
    } else {
        match spec_value_type(s[0]) {
            Some(t) => match spec_value_types(s.drop_first()) {
                Ok(ts) => Ok(seq![t] + ts),
                Err(e) => Err(e),
            },
            None => Err(DecodeError::InvalidValueType(s[0])),
        }
    }
}

/// A count, then that many bytes read as value types.
pub open spec fn spec_sized_value_types(s: Seq<u8>) -> SpecParse<Seq<ValueType>> {
    match spec_leb_u32(s) {
        Ok((r1, size)) => match spec_take(r1, size) {
            Ok((r2, bytes)) => match spec_value_types(bytes) {
                Ok(ts) => Ok((r2, ts)),
                Err(e) => Err(e),
            },
            Err(e) => Err(e),
        },
        Err(e) => Err(e),
    }
}

/// One entry of the type section: a form byte (not checked), the parameters, the results.
pub open spec fn spec_func_type(s: Seq<u8>) -> SpecParse<FuncTypeView> {
    match spec_le_u8(s) {
        Ok((r1, _)) => match spec_sized_value_types(r1) {
            Ok((r2, params)) => match spec_sized_value_types(r2) {
                Ok((r3, results)) => Ok((r3, FuncTypeView { params, results })),
                Err(e) => Err(e),
            },
            Err(e) => Err(e),
        },
        Err(e) => Err(e),
    }
}

/// `spec_func_type` as a parser value.
pub open spec fn func_type_parser() -> spec_fn(Seq<u8>) -> SpecParse<FuncTypeView> {
    |x: Seq<u8>| spec_func_type(x)
}

/// The contents of a type section: a count, then that many function types.
pub open spec fn spec_type_section(s: Seq<u8>) -> Result<Seq<FuncTypeView>, DecodeError> {
    match spec_leb_u32(s) {
        Ok((r, count)) => match spec_repeat(func_type_parser(), r, count as nat) {
            Ok((_, types)) => Ok(types),
            Err(e) => Err(e),
        },
        Err(e) => Err(e),
    }
}

/// The views of a list of function types.
pub open spec fn func_types_view(v: Seq<FuncType>) -> Seq<FuncTypeView> {
    v.map_values(|f: FuncType| f@)
}

/// `spec_leb_u32` as a parser value.
pub open spec fn leb_parser() -> spec_fn(Seq<u8>) -> SpecParse<u32> {
    |x: Seq<u8>| spec_leb_u32(x)
}

/// The contents of a function section: a count, then that many type indices.
pub open spec fn spec_function_section(s: Seq<u8>) -> Result<Seq<u32>, DecodeError> {
    match spec_leb_u32(s) {
        Ok((r, count)) => match spec_repeat(leb_parser(), r, count as nat) {
            Ok((_, idxs)) => Ok(idxs),
            Err(e) => Err(e),
        },
        Err(e) => Err(e),
    }
}

/// One local declaration: a count, then a value type byte.
pub open spec fn spec_local(s: Seq<u8>) -> SpecParse<FunctionLocal> {
    match spec_leb_u32(s) {
        Ok((r1, type_count)) => match spec_le_u8(r1) {
            Ok((r2, byte)) => match spec_value_type(byte) {
                Some(t) => Ok((r2, FunctionLocal { type_count, value_type: t })),
                None => Err(DecodeError::InvalidValueType(byte)),
            },
            Err(e) => Err(e),
        },
        Err(e) => Err(e),
    }
}

/// `spec_local` as a parser value.
pub open spec fn local_parser() -> spec_fn(Seq<u8>) -> SpecParse<FunctionLocal> {
    |x: Seq<u8>| spec_local(x)
}

/// One instruction: an opcode byte, then for `local.get` the index as LEB128.
pub open spec fn spec_instruction(s: Seq<u8>) -> SpecParse<Instruction> {
    match spec_le_u8(s) {
        Ok((r, byte)) => match spec_opcode(byte) {
            Some(Opcode::LocalGet) => match spec_leb_u32(r) {
                Ok((r2, idx)) => Ok((r2, Instruction::LocalGet(idx))),
                Err(e) => Err(e),
            },
            Some(Opcode::I32Add) => Ok((r, Instruction::I32Add)),
            Some(Opcode::End) => Ok((r, Instruction::End)),
            None => Err(DecodeError::InvalidOpcode(byte)),
        },
        Err(e) => Err(e),
    }
}

/// Instructions, one after the other, until the bytes run out.
pub open spec fn spec_instructions(s: Seq<u8>) -> Result<Seq<Instruction>, DecodeError>
    decreases s.len(),
{
    if s.len() == 0 {
        Ok(Seq::empty())
    } else {
        match spec_instruction(s) {
            Ok((rest, inst)) => if rest.len() < s.len() {
                match spec_instructions(rest) {
                    Ok(insts) => Ok(seq![inst] + insts),
                    Err(e) => Err(e),
                }
            } else {
                Err(DecodeError::Malformed)
            },
            Err(e) => Err(e),
        }
    }
}

/// A function body: a count of local declarations, those declarations, then the instructions.
pub open spec fn spec_function_body(s: Seq<u8>) -> Result<FunctionView, DecodeError> {
    match spec_leb_u32(s) {
        Ok((r1, count)) => match spec_repeat(local_parser(), r1, count as nat) {
            Ok((r2, locals)) => match spec_instructions(r2) {
                Ok(code) => Ok(FunctionView { locals, code }),
                Err(e) => Err(e),
            },
            Err(e) => Err(e),
        },
        Err(e) => Err(e),
    }
}

/// One entry of the code section: the size of the body, then the body.
pub open spec fn spec_code_entry(s: Seq<u8>) -> SpecParse<FunctionView> {
    match spec_leb_u32(s) {
        Ok((r1, size)) => match spec_take(r1, size) {
            Ok((r2, body)) => match spec_function_body(body) {
                Ok(f) => Ok((r2, f)),
                Err(e) => Err(e),
            },
            Err(e) => Err(e),
        },
        Err(e) => Err(e),
    }
}

/// `spec_code_entry` as a parser value.
pub open spec fn code_entry_parser() -> spec_fn(Seq<u8>) -> SpecParse<FunctionView> {
    |x: Seq<u8>| spec_code_entry(x)
}

/// The contents of a code section: a count, then that many function bodies.
pub open spec fn spec_code_section(s: Seq<u8>) -> Result<Seq<FunctionView>, DecodeError> {
    match spec_leb_u32(s) {
        Ok((r, count)) => match spec_repeat(code_entry_parser(), r, count as nat) {
            Ok((_, fs)) => Ok(fs),
            Err(e) => Err(e),
        },
        Err(e) => Err(e),
    }
}

/// The views of a list of function bodies.
pub open spec fn functions_view(v: Seq<Function>) -> Seq<FunctionView> {
    v.map_values(|f: Function| f@)
}

/// A section header: the section code byte, which must be a known one, and the size as LEB128.
pub open spec fn spec_section_header(s: Seq<u8>) -> SpecParse<(SectionCode, u32)> {
    match spec_le_u8(s) {
        Ok((r1, code)) => match spec_leb_u32(r1) {
            Ok((r2, size)) => match spec_section_code(code) {
                Some(c) => Ok((r2, (c, size))),
                None => Err(DecodeError::UnknownSection(code)),
            },
            Err(e) => Err(e),
        },
        Err(e) => Err(e),
    }
}

/// One section, applied to the module decoded so far: a type, function or code section
/// replaces that part of the module; the other kinds are not supported.
pub open spec fn spec_section(s: Seq<u8>, m: ModuleView) -> SpecParse<ModuleView> {
    match spec_section_header(s) {
        Ok((r1, (code, size))) => match spec_take(r1, size) {
            Ok((rest, contents)) => match code {
                SectionCode::Type => match spec_type_section(contents) {
                    Ok(ts) => Ok((rest, ModuleView { type_section: Some(ts), ..m })),
                    Err(e) => Err(e),
                },
                SectionCode::Function => match spec_function_section(contents) {
                    Ok(idxs) => Ok((rest, ModuleView { function_section: Some(idxs), ..m })),
                    Err(e) => Err(e),
                },
                SectionCode::Code => match spec_code_section(contents) {
                    Ok(fs) => Ok((rest, ModuleView { code_section: Some(fs), ..m })),
                    Err(e) => Err(e),
                },
                _ => Err(DecodeError::UnsupportedSection(code)),
            },
            Err(e) => Err(e),
        },
        Err(e) => Err(e),
    }
}

/// Sections, one after the other, until the bytes run out.
pub open spec fn spec_sections(s: Seq<u8>, m: ModuleView) -> Result<ModuleView, DecodeError>
    decreases s.len(),
{
    if s.len() == 0 {
        Ok(m)
    } else {
        match spec_section(s, m) {
            Ok((rest, m2)) => if rest.len() < s.len() {
                spec_sections(rest, m2)
            } else {
                Err(DecodeError::Malformed)
            },
            Err(e) => Err(e),
        }
    }
}

/// The preamble of every module: `\0asm`.
pub open spec fn wasm_magic() -> Seq<u8> {
    seq![0x00u8, 0x61u8, 0x73u8, 0x6du8]
}

/// The module before any section is read.
pub open spec fn initial_module(version: u32) -> ModuleView {
    ModuleView {
        magic: "\0asm"@,
        version,
        type_section: None,
        function_section: None,
        code_section: None,
    }
}

/// A whole module: the preamble, the version as a little-endian `u32`, then the sections. The
/// bytes handed back are those after the version.
pub open spec fn spec_decode(s: Seq<u8>) -> SpecParse<ModuleView> {
    if s.len() >= 4 && s.take(4) == wasm_magic() {
        match spec_le_u32(s.skip(4)) {
            Ok((r, version)) => match spec_sections(r, initial_module(version)) {
                Ok(m) => Ok((r, m)),
                Err(e) => Err(e),
            },
            Err(e) => Err(e),
        }
    } else {
        Err(DecodeError::Malformed)
    }
}

/// Decoding `s` runs into something that the decoder does not support.
pub open spec fn decode_unsupported(s: Seq<u8>) -> bool {
    spec_decode(s) matches Err(e) && e.is_unsupported()
}

/// An instruction is never read from nothing.
pub proof fn lemma_instruction_progress(s: Seq<u8>)
    ensures
        spec_instruction(s) matches Ok((rest, _)) ==> rest.len() < s.len(),
{
    if s.len() > 0 {
        lemma_leb128_u32_length(s.drop_first(), 0, 0);
    }
}

/// A section is never read from nothing.
pub proof fn lemma_section_progress(s: Seq<u8>, m: ModuleView)
    ensures
        spec_section(s, m) matches Ok((rest, _)) ==> rest.len() < s.len(),
{
    if s.len() > 0 {
        lemma_leb128_u32_length(s.drop_first(), 0, 0);
    }
}

/// Sections never change a module's preamble or version.
pub proof fn lemma_sections_keep_header(s: Seq<u8>, m: ModuleView)
    ensures
        spec_sections(s, m) matches Ok(m2) ==> m2.magic == m.magic && m2.version == m.version,
    decreases s.len(),
{
    if s.len() > 0 {
        if let Ok((rest, m2)) = spec_section(s, m) {
            if rest.len() < s.len() {
                lemma_sections_keep_header(rest, m2);
            }
        }
    }
}

/// Every decoded module has the preamble `\0asm` and the version that bytes 4 to 8 of the input
/// hold, read as a little-endian number.
pub proof fn law_decoded_header(s: Seq<u8>)
    ensures
        spec_decode(s) matches Ok((_, m)) ==> {
            &&& m.magic == "\0asm"@
            &&& m.version == (s[4] + 0x100 * s[5] + 0x1_0000 * s[6] + 0x100_0000 * s[7]) as u32
        },
{
    if s.len() >= 8 {
        assert(s.skip(4).skip(4) == s.skip(8));
        assert(s.skip(4)[0] == s[4] && s.skip(4)[1] == s[5] && s.skip(4)[2] == s[6] && s.skip(4)[3] == s[7]);
        lemma_sections_keep_header(s.skip(8), initial_module(spec_le_u32(s.skip(4)).unwrap().1));
    }
}

/// Bytes after a complete LEB128 number do not change what is read, and are left over after it.
proof fn lemma_leb_u32_prefix(s: Seq<u8>, t: Seq<u8>)
    ensures
        spec_leb_u32(s) matches Ok((r, v)) ==> spec_leb_u32(s + t) == Ok::<_, DecodeError>((r + t, v)),
{
    if spec_leb128_u32(s) is Some {
        lemma_leb128_u32_length(s, 0, 0);
        crate::binary::leb128::lemma_leb128_u32_prefix(s, t, 0, 0);
        let n = spec_leb128_u32(s).unwrap().1;
        assert((s + t).skip(n as int) == s.skip(n as int) + t);
    }
}

/// Bytes after a complete section header do not change what is read.
proof fn lemma_section_header_prefix(s: Seq<u8>, t: Seq<u8>)
    ensures
        spec_section_header(s) matches Ok((r, h)) ==> spec_section_header(s + t) == Ok::<_, DecodeError>((r + t, h)),
{
    if s.len() > 0 {
        assert((s + t)[0] == s[0]);
        assert((s + t).drop_first() == s.drop_first() + t);
        lemma_leb_u32_prefix(s.drop_first(), t);
    }
}

/// Two sections that can stand in either order: the contents of at least one of them decode,
/// or both fail with the same error.
pub open spec fn sections_swappable(s1: Seq<u8>, s2: Seq<u8>) -> bool {
    ||| section_contents_decode(s1)
    ||| section_contents_decode(s2)
    ||| spec_section(s1, initial_module(0)) == spec_section(s2, initial_module(0))
}

/// A section whose header holds its size exactly: the bytes after the header are its contents,
/// and its kind is one that the decoder reads (type, function or code).
pub open spec fn section_framed(s: Seq<u8>) -> bool {
    spec_section_header(s) matches Ok((rest, (code, size))) && rest.len() == size && (code is Type
        || code is Function || code is Code)
}

/// The kind of a section, from its header.
pub open spec fn section_kind(s: Seq<u8>) -> SectionCode {
    spec_section_header(s).unwrap().1.0
}

/// The contents of a section decode.
pub open spec fn section_contents_decode(s: Seq<u8>) -> bool {
    spec_section(s, initial_module(0)) is Ok
}

/// A section that holds its size exactly is read whole, whatever follows it, and leaves nothing
/// of itself behind.
proof fn lemma_framed_section(s: Seq<u8>, t: Seq<u8>, m: ModuleView)
    requires
        section_framed(s),
    ensures
        s.len() > 0,
        spec_section(s + t, m) == match spec_section(s, m) {
            Ok((_, m1)) => Ok::<_, DecodeError>((t, m1)),
            Err(e) => Err(e),
        },
        spec_section(s, m) matches Ok((r, _)) ==> r.len() == 0,
        spec_section(s, m) is Ok <==> section_contents_decode(s),
        spec_section(s, m) is Err ==> spec_section(s, m) == spec_section(s, initial_module(0)),
{
    lemma_section_header_prefix(s, t);
    let (r, (code, size)) = spec_section_header(s).unwrap();
    assert((r + t).skip(size as int) == t);
    assert((r + t).take(size as int) == r.take(size as int));
}

/// Two sections of different kinds, each holding its size exactly, give the same module in
/// either order, as long as the contents of at least one of them decode or both fail with the
/// same error; a success is the module with both parts replaced.
pub proof fn law_sections_commute(s1: Seq<u8>, s2: Seq<u8>, m: ModuleView)
    requires
        section_framed(s1),
        section_framed(s2),
        section_kind(s1) != section_kind(s2),
        sections_swappable(s1, s2),
    ensures
        spec_sections(s1 + s2, m) == spec_sections(s2 + s1, m),
        spec_sections(s1 + s2, m) is Ok <==> section_contents_decode(s1) && section_contents_decode(s2),
        spec_sections(s1 + s2, m) matches Ok(m2) ==> m2 == spec_section(s2, spec_section(s1, m).unwrap().1).unwrap().1,
{
    lemma_framed_section(s1, s2, m);
    lemma_framed_section(s2, s1, m);
    let e: Seq<u8> = Seq::empty();
    assert(s1 + e == s1);
    assert(s2 + e == s2);
    if let Ok((_, m1)) = spec_section(s1, m) {
        lemma_framed_section(s2, e, m1);
    }
    if let Ok((_, m2)) = spec_section(s2, m) {
        lemma_framed_section(s1, e, m2);
    }
    reveal_with_fuel(spec_sections, 3);
}

/// The module that a byte sequence decodes to, without the bytes left after the version.
pub open spec fn decoded_module(s: Seq<u8>) -> Result<ModuleView, DecodeError> {
    match spec_decode(s) {
        Ok((_, m)) => Ok(m),
        Err(e) => Err(e),
    }
}

/// After the eight bytes of preamble and version, two sections of different kinds, each holding
/// its size exactly, decode to the same module in either order, as long as the contents of at
/// least one of them decode or both fail with the same error; the part whose kind is neither
/// stays absent.
pub proof fn law_decode_sections_commute(h: Seq<u8>, s1: Seq<u8>, s2: Seq<u8>)
    requires
        h.len() == 8,
        h.take(4) == wasm_magic(),
        section_framed(s1),
        section_framed(s2),
        section_kind(s1) != section_kind(s2),
        sections_swappable(s1, s2),
    ensures
        decoded_module(h + s1 + s2) == decoded_module(h + s2 + s1),
        decoded_module(h + s1 + s2) is Ok <==> section_contents_decode(s1) && section_contents_decode(s2),
        decoded_module(h + s1 + s2) matches Ok(m) ==> {
            &&& (section_kind(s1) != SectionCode::Type && section_kind(s2) != SectionCode::Type ==> m.type_section is None)
            &&& (section_kind(s1) != SectionCode::Function && section_kind(s2) != SectionCode::Function ==> m.function_section is None)
            &&& (section_kind(s1) != SectionCode::Code && section_kind(s2) != SectionCode::Code ==> m.code_section is None)
        },
{
    let a = h + s1 + s2;
    let b = h + s2 + s1;
    assert(a.take(4) == h.take(4));
    assert(b.take(4) == h.take(4));
    assert(a.skip(4).skip(4) == s1 + s2);
    assert(b.skip(4).skip(4) == s2 + s1);
    assert(a.skip(4).take(4) == h.skip(4));
    assert(b.skip(4).take(4) == h.skip(4));
    assert(a.skip(4)[0] == h[4] && a.skip(4)[1] == h[5] && a.skip(4)[2] == h[6] && a.skip(4)[3] == h[7]);
    assert(b.skip(4)[0] == h[4] && b.skip(4)[1] == h[5] && b.skip(4)[2] == h[6] && b.skip(4)[3] == h[7]);
    let v = spec_le_u32(a.skip(4)).unwrap().1;
    law_sections_commute(s1, s2, initial_module(v));
}

/// Bytes after a byte do not change it, and are left over after it.
proof fn lemma_le_u8_prefix(s: Seq<u8>, t: Seq<u8>)
    ensures
        spec_le_u8(s) matches Ok((r, v)) ==> spec_le_u8(s + t) == Ok::<_, DecodeError>((r + t, v)),
{
    if s.len() > 0 {
        assert((s + t)[0] == s[0]);
        assert((s + t).drop_first() == s.drop_first() + t);
    }
}

/// Bytes after the taken ones do not change them, and are left over after them.
proof fn lemma_take_prefix(s: Seq<u8>, t: Seq<u8>, n: u32)
    ensures
        spec_take(s, n) matches Ok((r, v)) ==> spec_take(s + t, n) == Ok::<_, DecodeError>((r + t, v)),
{
    if n <= s.len() {
        assert((s + t).skip(n as int) == s.skip(n as int) + t);
        assert((s + t).take(n as int) == s.take(n as int));
    }
}

/// Bytes after a complete list of value types do not change it.
proof fn lemma_sized_value_types_prefix(s: Seq<u8>, t: Seq<u8>)
    ensures
        spec_sized_value_types(s) matches Ok((r, v)) ==> spec_sized_value_types(s + t) == Ok::<_, DecodeError>((r + t, v)),
{
    lemma_leb_u32_prefix(s, t);
    if let Ok((r1, size)) = spec_leb_u32(s) {
        lemma_take_prefix(r1, t, size);
    }
}

/// Bytes after a complete function type do not change it, and are left over after it.
pub proof fn lemma_func_type_prefix(s: Seq<u8>, t: Seq<u8>)
    ensures
        spec_func_type(s) matches Ok((r, v)) ==> spec_func_type(s + t) == Ok::<_, DecodeError>((r + t, v)),
{
    lemma_le_u8_prefix(s, t);
    if let Ok((r1, _)) = spec_le_u8(s) {
        lemma_sized_value_types_prefix(r1, t);
        if let Ok((r2, _)) = spec_sized_value_types(r1) {
            lemma_sized_value_types_prefix(r2, t);
        }
    }
}

/// Bytes after a complete code entry do not change it, and are left over after it.
pub proof fn lemma_code_entry_prefix(s: Seq<u8>, t: Seq<u8>)
    ensures
        spec_code_entry(s) matches Ok((r, v)) ==> spec_code_entry(s + t) == Ok::<_, DecodeError>((r + t, v)),
{
    lemma_leb_u32_prefix(s, t);
    if let Ok((r1, size)) = spec_leb_u32(s) {
        lemma_take_prefix(r1, t, size);
    }
}

/// The byte sequences of `bs`, one after the other.
pub open spec fn concat_all(bs: Seq<Seq<u8>>) -> Seq<u8>
    decreases bs.len(),
{
    if bs.len() == 0 {
        Seq::empty()
    } else {
        concat_all(bs.drop_last()) + bs.last()
    }
}

/// Repeating a parser over pieces that it reads whole, whatever follows them, gives their values
/// in order and leaves what follows.
proof fn lemma_repeat_pieces<T>(p: spec_fn(Seq<u8>) -> SpecParse<T>, bs: Seq<Seq<u8>>, vs: Seq<T>, t: Seq<u8>)
    requires
        bs.len() == vs.len(),
        forall|i: int, u: Seq<u8>| 0 <= i < bs.len() ==> #[trigger] p(bs[i] + u) == Ok::<_, DecodeError>((u, vs[i])),
    ensures
        spec_repeat(p, concat_all(bs) + t, bs.len()) == Ok::<_, DecodeError>((t, vs)),
    decreases bs.len(),
{
    if bs.len() == 0 {
        assert(concat_all(bs) + t == t);
        assert(vs == Seq::<T>::empty());
    } else {
        let n = bs.len() - 1;
        let last = bs.last();
        assert forall|i: int, u: Seq<u8>| 0 <= i < bs.drop_last().len() implies #[trigger] p(bs.drop_last()[i] + u)
            == Ok::<_, DecodeError>((u, vs.drop_last()[i])) by {
            assert(p(bs[i] + u) == Ok::<_, DecodeError>((u, vs[i])));
        }
        lemma_repeat_pieces(p, bs.drop_last(), vs.drop_last(), last + t);
        assert(concat_all(bs) + t == concat_all(bs.drop_last()) + (last + t));
        assert(p(bs[n] + t) == Ok::<_, DecodeError>((t, vs[n])));
        assert(vs.drop_last().push(vs[n]) == vs);
    }
}

/// The type section holds a count, as LEB128, followed by the encodings of that many function
/// types one after the other: it decodes to those types, in that order.
pub proof fn law_type_section_in_order(c: Seq<u8>, bs: Seq<Seq<u8>>, ts: Seq<FuncTypeView>)
    requires
        bs.len() == ts.len(),
        spec_leb_u32(c) == Ok::<_, DecodeError>((Seq::<u8>::empty(), bs.len() as u32)),
        bs.len() <= u32::MAX,
        forall|i: int| 0 <= i < bs.len() ==> #[trigger] spec_func_type(bs[i]) == Ok::<_, DecodeError>((Seq::<u8>::empty(), ts[i])),
    ensures
        spec_type_section(c + concat_all(bs)) == Ok::<_, DecodeError>(ts),
{
    let body = concat_all(bs);
    let e: Seq<u8> = Seq::empty();
    lemma_leb_u32_prefix(c, body);
    assert(e + body == body);
    assert forall|i: int, u: Seq<u8>| 0 <= i < bs.len() implies #[trigger] func_type_parser()(bs[i] + u)
        == Ok::<_, DecodeError>((u, ts[i])) by {
        lemma_func_type_prefix(bs[i], u);
        assert(e + u == u);
    }
    assert(body + e == body);
    lemma_repeat_pieces(func_type_parser(), bs, ts, e);
}

/// The code section holds a count, as LEB128, followed by that many size-prefixed function
/// bodies one after the other: it decodes to those bodies, in that order.
pub proof fn law_code_section_in_order(c: Seq<u8>, bs: Seq<Seq<u8>>, fs: Seq<FunctionView>)
    requires
        bs.len() == fs.len(),
        spec_leb_u32(c) == Ok::<_, DecodeError>((Seq::<u8>::empty(), bs.len() as u32)),
        bs.len() <= u32::MAX,
        forall|i: int| 0 <= i < bs.len() ==> #[trigger] spec_code_entry(bs[i]) == Ok::<_, DecodeError>((Seq::<u8>::empty(), fs[i])),
    ensures
        spec_code_section(c + concat_all(bs)) == Ok::<_, DecodeError>(fs),
{
    let body = concat_all(bs);
    let e: Seq<u8> = Seq::empty();
    lemma_leb_u32_prefix(c, body);
    assert(e + body == body);
    assert forall|i: int, u: Seq<u8>| 0 <= i < bs.len() implies #[trigger] code_entry_parser()(bs[i] + u)
        == Ok::<_, DecodeError>((u, fs[i])) by {
        lemma_code_entry_prefix(bs[i], u);
        assert(e + u == u);
    }
    assert(body + e == body);
    lemma_repeat_pieces(code_entry_parser(), bs, fs, e);
}

/// A decoded module.
#[derive(Debug, PartialEq, Eq)]
pub struct Module {
    pub magic: String,
    pub version: u32,
    pub type_section: Option<Vec<FuncType>>,
    pub function_section: Option<Vec<u32>>,
    pub code_section: Option<Vec<Function>>,
}

/// What a `Module` holds.
pub struct ModuleView {
    pub magic: Seq<char>,
    pub version: u32,
    pub type_section: Option<Seq<FuncTypeView>>,
    pub function_section: Option<Seq<u32>>,
    pub code_section: Option<Seq<FunctionView>>,
}

impl View for Module {
    type V = ModuleView;

    open spec fn view(&self) -> ModuleView {
        ModuleView {
            magic: self.magic@,
            version: self.version,
            type_section: match self.type_section {
                Some(v) => Some(func_types_view(v@)),
                None => None,
            },
            function_section: match self.function_section {
                Some(v) => Some(v@),
                None => None,
            },
            code_section: match self.code_section {
                Some(v) => Some(functions_view(v@)),
                None => None,
            },
        }
    }
}

impl Default for Module {
    /// A module with the preamble `\0asm`, version 1 and no sections.
    fn default() -> (res: Self)
        ensures
            res@ == initial_module(1),
    {
        Module {
            magic: "\0asm".to_owned(),
            version: 1,
            type_section: None,
            function_section: None,
            code_section: None,
        }
    }
}

/// Reads one byte.
fn le_u8<'a>(input: &'a [u8]) -> (res: Result<(&'a [u8], u8), DecodeError>)
    ensures
        parsed_as(res, spec_le_u8(input@), |v: u8| v),
{
    if input.len() > 0 {
        Ok((slice_subrange(input, 1, input.len()), input[0]))
    } else {
        Err(DecodeError::Malformed)
    }
}

/// Reads a little-endian `u32`.
fn le_u32<'a>(input: &'a [u8]) -> (res: Result<(&'a [u8], u32), DecodeError>)
    ensures
        parsed_as(res, spec_le_u32(input@), |v: u32| v),
{
    if input.len() >= 4 {
        let v: u32 = input[0] as u32 + 0x100 * (input[1] as u32) + 0x1_0000 * (input[2] as u32)
            + 0x100_0000 * (input[3] as u32);
        Ok((slice_subrange(input, 4, input.len()), v))
    } else {
        Err(DecodeError::Malformed)
    }
}

/// Reads an unsigned LEB128 number of at most 32 bits.
fn leb_u32<'a>(input: &'a [u8]) -> (res: Result<(&'a [u8], u32), DecodeError>)
    ensures
        parsed_as(res, spec_leb_u32(input@), |v: u32| v),
        res matches Ok((rest, _)) ==> rest@.len() < input@.len(),
{
    proof {
        lemma_leb128_u32_length(input@, 0, 0);
    }
    match read_leb128_u32(input) {
        Some((rest, v)) => Ok((rest, v)),
        None => Err(DecodeError::Malformed),
    }
}

/// Splits off the next `n` bytes.
fn take<'a>(input: &'a [u8], n: u32) -> (res: Result<(&'a [u8], &'a [u8]), DecodeError>)
    ensures
        parsed_as(res, spec_take(input@, n), |v: &'a [u8]| v@),
{
    if (n as usize) <= input.len() {
        Ok((slice_subrange(input, n as usize, input.len()), slice_subrange(input, 0, n as usize)))
    } else {
        Err(DecodeError::Malformed)
    }
}

/// Reads one value type byte.
fn decode_value_type<'a>(input: &'a [u8]) -> (res: Result<(&'a [u8], ValueType), DecodeError>)
    ensures
        parsed_as(res, spec_decode_value_type(input@), |v: ValueType| v),
{
    let (input, byte) = le_u8(input)?;
    match ValueType::from_byte(byte) {
        Some(t) => Ok((input, t)),
        None => Err(DecodeError::InvalidValueType(byte)),
    }
}

/// Reads value types, one per byte, until the input runs out.
fn decode_value_types(input: &[u8]) -> (res: Result<Vec<ValueType>, DecodeError>)
    ensures
        result_as(res, spec_value_types(input@), |v: Vec<ValueType>| v@),
{
    let mut types: Vec<ValueType> = Vec::new();
    let mut remaining = input;
    while remaining.len() > 0
        invariant
            spec_value_types(input@) == match spec_value_types(remaining@) {
                Ok(ts) => Ok(types@ + ts),
                Err(e) => Err(e),
            },
        decreases remaining@.len(),
    {
        let (rest, t) = decode_value_type(remaining)?;
        assert(rest@ == remaining@.drop_first());
        assert(types@.push(t) == types@ + seq![t]);
        proof {
            let ts = spec_value_types(rest@);
            if ts is Ok {
                assert(types@ + (seq![t] + ts.unwrap()) == types@.push(t) + ts.unwrap());
            }
        }
        types.push(t);
        remaining = rest;
    }
    assert(types@ + Seq::<ValueType>::empty() == types@);
    Ok(types)
}

/// Reads a count, then that many bytes as value types.
fn decode_sized_value_types<'a>(input: &'a [u8]) -> (res: Result<(&'a [u8], Vec<ValueType>), DecodeError>)
    ensures
        parsed_as(res, spec_sized_value_types(input@), |v: Vec<ValueType>| v@),
{
    let (rest, size) = leb_u32(input)?;
    let (rest, types) = take(rest, size)?;
    let types = decode_value_types(types)?;
    Ok((rest, types))
}

/// Reads one entry of the type section.
fn decode_func_type<'a>(input: &'a [u8]) -> (res: Result<(&'a [u8], FuncType), DecodeError>)
    ensures
        parsed_as(res, spec_func_type(input@), |v: FuncType| v@),
{
    let (rest, _) = le_u8(input)?;
    let mut func = FuncType::default();
    let (rest, params) = decode_sized_value_types(rest)?;
    func.params = params;
    let (rest, results) = decode_sized_value_types(rest)?;
    func.results = results;
    Ok((rest, func))
}

/// Reads the contents of a type section.
fn decode_type_section(input: &[u8]) -> (res: Result<Vec<FuncType>, DecodeError>)
    ensures
        result_as(res, spec_type_section(input@), |v: Vec<FuncType>| func_types_view(v@)),
{
    let mut func_types: Vec<FuncType> = Vec::new();
    let (rest, count) = leb_u32(input)?;
    let mut remaining = rest;
    let ghost start = rest@;
    let ghost p = func_type_parser();
    assert(func_types_view(func_types@) == Seq::<FuncTypeView>::empty());
    for i in 0..count
        invariant
            p == func_type_parser(),
            spec_leb_u32(input@) == Ok::<_, DecodeError>((start, count)),
            spec_repeat(p, start, i as nat) == Ok::<_, DecodeError>((remaining@, func_types_view(func_types@))),
    {
        match decode_func_type(remaining) {
            Ok((rest, func)) => {
                let ghost old_types = func_types@;
                func_types.push(func);
                assert(func_types_view(func_types@) == func_types_view(old_types).push(func@));
                remaining = rest;
            },
            Err(e) => {
                proof {
                    assert(p(remaining@) == spec_func_type(remaining@));
                    assert(spec_repeat(p, start, (i + 1) as nat) is Err);
                    lemma_repeat_error(p, start, (i + 1) as nat, count as nat);
                }
                return Err(e);
            },
        }
    }
    Ok(func_types)
}

/// Reads the contents of a function section.
fn decode_function_section(input: &[u8]) -> (res: Result<Vec<u32>, DecodeError>)
    ensures
        result_as(res, spec_function_section(input@), |v: Vec<u32>| v@),
{
    let mut func_idx_list: Vec<u32> = Vec::new();
    let (rest, func_count) = leb_u32(input)?;
    let mut remaining = rest;
    let ghost start = rest@;
    let ghost p = leb_parser();
    for i in 0..func_count
        invariant
            p == leb_parser(),
            spec_leb_u32(input@) == Ok::<_, DecodeError>((start, func_count)),
            spec_repeat(p, start, i as nat) == Ok::<_, DecodeError>((remaining@, func_idx_list@)),
    {
        match leb_u32(remaining) {
            Ok((rest, func_idx)) => {
                func_idx_list.push(func_idx);
                remaining = rest;
            },
            Err(e) => {
                proof {
                    assert(p(remaining@) == spec_leb_u32(remaining@));
                    assert(spec_repeat(p, start, (i + 1) as nat) is Err);
                    lemma_repeat_error(p, start, (i + 1) as nat, func_count as nat);
                }
                return Err(e);
            },
        }
    }
    Ok(func_idx_list)
}

/// Reads one local declaration.
fn decode_local<'a>(input: &'a [u8]) -> (res: Result<(&'a [u8], FunctionLocal), DecodeError>)
    ensures
        parsed_as(res, spec_local(input@), |v: FunctionLocal| v),
{
    let (rest, type_count) = leb_u32(input)?;
    let (rest, value_type) = le_u8(rest)?;
    match ValueType::from_byte(value_type) {
        Some(t) => Ok((rest, FunctionLocal { type_count, value_type: t })),
        None => Err(DecodeError::InvalidValueType(value_type)),
    }
}

/// Reads one instruction.
fn decode_instructions<'a>(input: &'a [u8]) -> (res: Result<(&'a [u8], Instruction), DecodeError>)
    ensures
        parsed_as(res, spec_instruction(input@), |v: Instruction| v),
{
    let (input, byte) = le_u8(input)?;
    match Opcode::from_u8(byte) {
        Some(Opcode::LocalGet) => {
            let (rest, idx) = leb_u32(input)?;
            Ok((rest, Instruction::LocalGet(idx)))
        },
        Some(Opcode::I32Add) => Ok((input, Instruction::I32Add)),
        Some(Opcode::End) => Ok((input, Instruction::End)),
        None => Err(DecodeError::InvalidOpcode(byte)),
    }
}

/// Reads a function body: its local declarations, then instructions until the body ends.
fn decode_function_body(input: &[u8]) -> (res: Result<Function, DecodeError>)
    ensures
        result_as(res, spec_function_body(input@), |v: Function| v@),
{
    let mut body = Function::default();
    let (rest, count) = leb_u32(input)?;
    let mut remaining = rest;
    let ghost start = rest@;
    let ghost p = local_parser();
    assert(body.locals@ == Seq::<FunctionLocal>::empty());
    for i in 0..count
        invariant
            p == local_parser(),
            spec_leb_u32(input@) == Ok::<_, DecodeError>((start, count)),
            spec_repeat(p, start, i as nat) == Ok::<_, DecodeError>((remaining@, body.locals@)),
            body.code@.len() == 0,
    {
        match decode_local(remaining) {
            Ok((rest, local)) => {
                body.locals.push(local);
                remaining = rest;
            },
            Err(e) => {
                proof {
                    assert(p(remaining@) == spec_local(remaining@));
                    assert(spec_repeat(p, start, (i + 1) as nat) is Err);
                    lemma_repeat_error(p, start, (i + 1) as nat, count as nat);
                }
                return Err(e);
            },
        }
    }
    let ghost code_start = remaining@;
    assert(body.code@ == Seq::<Instruction>::empty());
    while remaining.len() > 0
        invariant
            spec_leb_u32(input@) == Ok::<_, DecodeError>((start, count)),
            spec_repeat(local_parser(), start, count as nat) == Ok::<_, DecodeError>((code_start, body.locals@)),
            spec_instructions(code_start) == match spec_instructions(remaining@) {
                Ok(insts) => Ok(body.code@ + insts),
                Err(e) => Err(e),
            },
        decreases remaining@.len(),
    {
        let (rest, inst) = decode_instructions(remaining)?;
        proof {
            lemma_instruction_progress(remaining@);
            let insts = spec_instructions(rest@);
            if insts is Ok {
                assert(body.code@ + (seq![inst] + insts.unwrap()) == body.code@.push(inst) + insts.unwrap());
            }
        }
        body.code.push(inst);
        remaining = rest;
    }
    assert(body.code@ + Seq::<Instruction>::empty() == body.code@);
    Ok(body)
}

/// Reads one entry of the code section.
fn decode_code_entry<'a>(input: &'a [u8]) -> (res: Result<(&'a [u8], Function), DecodeError>)
    ensures
        parsed_as(res, spec_code_entry(input@), |v: Function| v@),
{
    let (rest, size) = leb_u32(input)?;
    let (rest, body) = take(rest, size)?;
    let body = decode_function_body(body)?;
    Ok((rest, body))
}

/// Reads the contents of a code section.
fn decode_code_section(input: &[u8]) -> (res: Result<Vec<Function>, DecodeError>)
    ensures
        result_as(res, spec_code_section(input@), |v: Vec<Function>| functions_view(v@)),
{
    let mut functions: Vec<Function> = Vec::new();
    let (rest, count) = leb_u32(input)?;
    let mut remaining = rest;
    let ghost start = rest@;
    let ghost p = code_entry_parser();
    assert(functions_view(functions@) == Seq::<FunctionView>::empty());
    for i in 0..count
        invariant
            p == code_entry_parser(),
            spec_leb_u32(input@) == Ok::<_, DecodeError>((start, count)),
            spec_repeat(p, start, i as nat) == Ok::<_, DecodeError>((remaining@, functions_view(functions@))),
    {
        match decode_code_entry(remaining) {
            Ok((rest, body)) => {
                let ghost old_functions = functions@;
                functions.push(body);
                assert(functions_view(functions@) == functions_view(old_functions).push(body@));
                remaining = rest;
            },
            Err(e) => {
                proof {
                    assert(p(remaining@) == spec_code_entry(remaining@));
                    assert(spec_repeat(p, start, (i + 1) as nat) is Err);
                    lemma_repeat_error(p, start, (i + 1) as nat, count as nat);
                }
                return Err(e);
            },
        }
    }
    Ok(functions)
}

/// Reads a section header.
fn decode_section_header<'a>(input: &'a [u8]) -> (res: Result<(&'a [u8], (SectionCode, u32)), DecodeError>)
    ensures
        parsed_as(res, spec_section_header(input@), |v: (SectionCode, u32)| v),
{
    let (rest, code) = le_u8(input)?;
    let (rest, size) = leb_u32(rest)?;
    match SectionCode::from_u8(code) {
        Some(c) => Ok((rest, (c, size))),
        None => Err(DecodeError::UnknownSection(code)),
    }
}

impl Module {
    /// Decodes a module from its binary form. The result holds the bytes after the version
    /// and the module, exactly as `spec_decode` says, in particular which error comes first.
    pub fn decode<'a>(input: &'a [u8]) -> (res: Result<(&'a [u8], Module), DecodeError>)
        ensures
            parsed_as(res, spec_decode(input@), |m: Module| m@),
    {
        if input.len() < 4 || input[0] != 0x00 || input[1] != 0x61 || input[2] != 0x73 || input[3] != 0x6d {
            proof {
                if input@.len() >= 4 && input@.take(4) == wasm_magic() {
                    assert(input@.take(4)[0] == 0x00 && input@.take(4)[1] == 0x61);
                    assert(input@.take(4)[2] == 0x73 && input@.take(4)[3] == 0x6d);
                }
            }
            return Err(DecodeError::Malformed);
        }
        assert(input@.take(4) == wasm_magic());
        let after_magic = slice_subrange(input, 4, input.len());
        let (sections, version) = le_u32(after_magic)?;
        let mut module = Module {
            magic: "\0asm".to_owned(),
            version,
            type_section: None,
            function_section: None,
            code_section: None,
        };
        let mut remaining = sections;
        while remaining.len() > 0
            invariant
                spec_decode(input@) == match spec_sections(sections@, initial_module(version)) {
                    Ok(m) => Ok((sections@, m)),
                    Err(e) => Err(e),
                },
                spec_sections(sections@, initial_module(version)) == spec_sections(remaining@, module@),
            decreases remaining@.len(),
        {
            let (section_input, (code, size)) = decode_section_header(remaining)?;
            let (rest, section_contents) = take(section_input, size)?;
            proof {
                lemma_section_progress(remaining@, module@);
            }
            match code {
                SectionCode::Type => {
                    let types = decode_type_section(section_contents)?;
                    module.type_section = Some(types);
                },
                SectionCode::Function => {
                    let func_idx_list = decode_function_section(section_contents)?;
                    module.function_section = Some(func_idx_list);
                },
                SectionCode::Code => {
                    let functions = decode_code_section(section_contents)?;
                    module.code_section = Some(functions);
                },
                _ => {
                    return Err(DecodeError::UnsupportedSection(code));
                },
            }
            remaining = rest;
        }
        Ok((sections, module))
    }

    /// Decodes a module from its binary form. Inputs on which decoding meets a section, opcode or
    /// value type that it does not support are left out; on the others the result is the module
    /// that `spec_decode` gives, or `DecodeError::Malformed` exactly where that fails.
    pub fn new(input: &[u8]) -> (res: Result<Module, DecodeError>)
        requires
            !decode_unsupported(input@),
        ensures
            result_as(res, match spec_decode(input@) {
                Ok((_, m)) => Ok(m),
                Err(e) => Err(e),
            }, |m: Module| m@),
            res matches Err(e) ==> e == DecodeError::Malformed,
    {
        match Module::decode(input) {
            Ok((_, module)) => Ok(module),
            Err(e) => Err(e),
        }
    }
}

} // verus!
