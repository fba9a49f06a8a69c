//! DXBC containers as plain values: the `dxbc` crate scans the bytes and
//! decodes the chunks; each chunk and each `SHEX` instruction is turned into
//! the values of this module, on which the translators work.

use vstd::prelude::*;

verus! {

#[verifier::external_type_specification]
#[verifier::external_body]
pub struct ExDxbcChunk<'a>(dxbc::DxbcChunk<'a>);

#[verifier::external_type_specification]
#[verifier::external_body]
pub struct ExDxilData<'a>(dxbc::chunks::DxilData<'a>);

#[verifier::external_type_specification]
#[verifier::external_body]
pub struct ExInstruction(dxbc::shex::Instruction);

#[verifier::external_type_specification]
#[verifier::external_body]
pub struct ExOperand(dxbc::shex::Operand);

/// Register files (`D3D10_SB_OPERAND_TYPE`) that the translators check.
pub const REG_TEMP: u32 = 0;
pub const REG_INPUT: u32 = 1;
pub const REG_OUTPUT: u32 = 2;
pub const REG_IMMEDIATE32: u32 = 4;
pub const REG_SAMPLER: u32 = 6;
pub const REG_RESOURCE: u32 = 7;
pub const REG_CONSTANT_BUFFER: u32 = 8;
pub const REG_UAV: u32 = 30;
pub const REG_THREAD_ID: u32 = 32;

/// Opcodes (`D3D10_SB_OPCODE_TYPE` and its Shader Model 5 extensions) that
/// the translators check.
pub const OP_ADD: u32 = 0;
pub const OP_AND: u32 = 1;
pub const OP_DIV: u32 = 14;
pub const OP_ENDIF: u32 = 21;
pub const OP_GE: u32 = 29;
pub const OP_IADD: u32 = 30;
pub const OP_IF: u32 = 31;
pub const OP_IMAD: u32 = 35;
pub const OP_IMUL: u32 = 38;
pub const OP_ISHL: u32 = 41;
pub const OP_MAD: u32 = 50;
pub const OP_MIN: u32 = 51;
pub const OP_MAX: u32 = 52;
pub const OP_MOVC: u32 = 55;
pub const OP_MUL: u32 = 56;
pub const OP_RET: u32 = 62;
pub const OP_UDIV: u32 = 78;
pub const OP_ULT: u32 = 79;
pub const OP_DCL_OUTPUT_SIV: u32 = 103;
pub const OP_LD_STRUCTURED: u32 = 167;
pub const OP_STORE_STRUCTURED: u32 = 168;

/// The `float` resource return type (`D3D10_SB_RETURN_TYPE_FLOAT`).
pub const RETURN_FLOAT: u32 = 5;

/// What a `DXIL` chunk holds: the program header's shader kind and shader
/// model, the DXIL version and the LLVM bitcode.
#[derive(Debug)]
pub struct DxilChunkInfo {
    pub shader_kind: u16,
    pub major_version: u8,
    pub minor_version: u8,
    pub dxil_version: u32,
    pub bitcode: Vec<u8>,
}

/// How an operand selects components.
#[derive(Debug, Clone, Copy, PartialEq, Eq)]
pub enum ComponentSel {
    Zero,
    One,
    /// A write mask (bit 0 = x ... bit 3 = w).
    Mask(u8),
    Swizzle([u8; 4]),
    /// A single component (0 = x ... 3 = w).
    Scalar(u8),
}

/// An operand of a `SHEX` instruction.
#[derive(Debug)]
pub struct ShexOperand {
    /// The register file (`D3D10_SB_OPERAND_TYPE`).
    pub reg_type: u32,
    pub components: ComponentSel,
    pub negate: bool,
    /// The index levels: the value of each immediate 32-bit index, `None`
    /// for any other kind of index.
    pub indices: Vec<Option<u32>>,
    /// Inline immediate values.
    pub immediates: Vec<u32>,
}

/// The declaration an instruction is, with the data the translators read.
#[derive(Debug)]
pub enum ShexKind {
    /// Not a declaration.
    Generic,
    GlobalFlags,
    /// `dcl_input*`: interpolation mode and system value, as text.
    Input { interpolation: Option<Vec<u8>>, system_value: Option<Vec<u8>> },
    /// `dcl_output*`: system value, as text.
    Output { system_value: Option<Vec<u8>> },
    /// `dcl_resource`: dimension as text, return type of each component
    /// (`D3D10_SB_RESOURCE_RETURN_TYPE`).
    Resource { dimension: Vec<u8>, return_type: [u32; 4] },
    /// `dcl_sampler`: mode as text.
    Sampler { mode: Vec<u8> },
    ConstantBuffer,
    Temps,
    ThreadGroup { x: u32, y: u32, z: u32 },
    UavStructured { stride: u32 },
    /// Any other declaration.
    Other,
}

/// An instruction of a `SHEX` chunk: its opcode number, declaration kind
/// and operands.
#[derive(Debug)]
pub struct ShexInstruction {
    pub opcode: u32,
    pub kind: ShexKind,
    pub operands: Vec<ShexOperand>,
}

/// A chunk of a container, as far as the translators tell chunks apart.
#[derive(Debug)]
pub enum ChunkModel {
    Rdef,
    InputSignature,
    OutputSignature,
    /// `SHEX` / `SHDR`: the decoded program.
    Shader(Vec<ShexInstruction>),
    Dxil(DxilChunkInfo),
    Other,
}

/// The kind of a decoded chunk.
#[derive(Debug, Clone, Copy, PartialEq, Eq)]
pub enum ChunkTag {
    Rdef,
    InputSignature,
    OutputSignature,
    Shader,
    Dxil,
    Other,
}

/// Whether the four bytes at `i` are the `DXBC` magic.
pub open spec fn is_magic_at(b: Seq<u8>, i: int) -> bool {
    0 <= i && i + 4 <= b.len() && b[i] == 68 && b[i + 1] == 88 && b[i + 2] == 66 && b[i + 3] == 67
}

/// The first position at or after `i` where the `DXBC` magic stands.
pub open spec fn find_magic_from(b: Seq<u8>, i: int) -> Option<int>
    decreases b.len() - i,
{
    if i < 0 || i + 4 > b.len() {
        None
    } else if is_magic_at(b, i) {
        Some(i)
    } else {
        find_magic_from(b, i + 1)
    }
}

/// The little-endian 32-bit word at `i`.
pub open spec fn le_u32_at(b: Seq<u8>, i: int) -> int {
    b[i] as int + b[i + 1] as int * 256 + b[i + 2] as int * 65536 + b[i + 3] as int * 16777216
}

/// Whether `dxbc`'s container parser reads the chunk table of the header
/// at `o` from entry `i` on: it refuses the header where an entry's four
/// bytes run past the input, and stops at the first entry whose chunk
/// header (eight bytes) does.
pub open spec fn chunk_table_read_from(b: Seq<u8>, o: int, count: int, i: int) -> bool
    decreases count - i,
{
    if i < 0 || i >= count {
        true
    } else if o + 32 + 4 * i + 4 > b.len() {
        false
    } else if o + le_u32_at(b, o + 32 + 4 * i) + 8 > b.len() {
        true
    } else {
        chunk_table_read_from(b, o, count, i + 1)
    }
}

/// Whether `dxbc::scan_dxbc`, scanning from `pos`, comes to an end with
/// bounded allocations. At each `DXBC` magic it parses a header; where the
/// header's 32 bytes or its `total_size` run past the input, or its chunk
/// table cannot be read, it stops. Before reading the table it reserves
/// room for the header's chunk count, which must not exceed the input's
/// length. A header it accepts must have a non-zero `total_size`: the scan
/// goes on at `o + total_size`, and with zero it would find the same header
/// forever.
pub open spec fn scan_safe_from(b: Seq<u8>, pos: int) -> bool
    decreases b.len() - pos,
{
    if pos < 0 || pos + 4 > b.len() {
        true
    } else {
        match find_magic_from(b, pos) {
            None => true,
            Some(o) => {
                let total = le_u32_at(b, o + 24);
                let count = le_u32_at(b, o + 28);
                if o + 32 > b.len() || o + total > b.len() {
                    true
                } else if count > b.len() {
                    false
                } else if !chunk_table_read_from(b, o, count, 0) {
                    true
                } else if total == 0 || o + total <= pos {
                    false
                } else {
                    scan_safe_from(b, o + total)
                }
            },
        }
    }
}

/// Whether `dxbc::scan_dxbc` terminates on `b` with bounded allocations
/// (see [`scan_safe_from`]). On a header with a zero `total_size` the scan
/// would find the same header again forever.
pub open spec fn dxbc_scan_safe(b: Seq<u8>) -> bool {
    scan_safe_from(b, 0)
}

fn find_magic(bytes: &[u8], start: usize) -> (r: Option<usize>)
    requires
        start <= bytes@.len(),
    ensures
        match r {
            Some(o) => find_magic_from(bytes@, start as int) == Some(o as int) && start <= o && o + 4 <= bytes@.len(),
            None => find_magic_from(bytes@, start as int) is None,
        },
{
    let len = bytes.len();
    let mut i = start;
    while len - i >= 4
        invariant
            start <= i <= len,
            len == bytes@.len(),
            find_magic_from(bytes@, start as int) == find_magic_from(bytes@, i as int),
        decreases len - i,
    {
        if bytes[i] == 68 && bytes[i + 1] == 88 && bytes[i + 2] == 66 && bytes[i + 3] == 67 {
            return Some(i);
        }
        i = i + 1;
    }
    None
}

fn read_le_u32(bytes: &[u8], i: usize) -> (r: u32)
    requires
        i + 4 <= bytes@.len(),
    ensures
        r as int == le_u32_at(bytes@, i as int),
{
    bytes[i] as u32 + bytes[i + 1] as u32 * 256 + bytes[i + 2] as u32 * 65536 + bytes[i + 3] as u32 * 16777216
}

fn chunk_table_readable(bytes: &[u8], o: usize, count: usize) -> (ok: bool)
    requires
        o + 32 <= bytes@.len(),
        count <= bytes@.len(),
    ensures
        ok == chunk_table_read_from(bytes@, o as int, count as int, 0),
{
    let len = bytes.len();
    let mut i: usize = 0;
    while i < count
        invariant
            i <= count,
            count <= len,
            len == bytes@.len(),
            o + 32 <= len,
            chunk_table_read_from(bytes@, o as int, count as int, 0) == chunk_table_read_from(bytes@, o as int, count as int, i as int),
        decreases count - i,
    {
        if i >= (len - o - 32) / 4 {
            return false;
        }
        let rel = read_le_u32(bytes, o + 32 + 4 * i);
        if rel as usize > len - o - 8 {
            return true;
        }
        i = i + 1;
    }
    true
}

/// Whether `dxbc::scan_dxbc` terminates on `bytes` with bounded
/// allocations, which the functions that read DXBC containers require.
pub fn dxbc_scan_terminates(bytes: &[u8]) -> (ok: bool)
    ensures
        ok == dxbc_scan_safe(bytes@),
{
    let len = bytes.len();
    let mut pos: usize = 0;
    loop
        invariant
            pos <= len,
            len == bytes@.len(),
            dxbc_scan_safe(bytes@) == scan_safe_from(bytes@, pos as int),
        decreases len - pos,
    {
        if len - pos < 4 {
            return true;
        }
        let o = match find_magic(bytes, pos) {
            Some(o) => o,
            None => {
                return true;
            },
        };
        if len - o < 32 {
            return true;
        }
        let total = read_le_u32(bytes, o + 24);
        let count = read_le_u32(bytes, o + 28);
        if total as usize > len - o {
            return true;
        }
        if count as usize > len {
            return false;
        }
        if !chunk_table_readable(bytes, o, count as usize) {
            return true;
        }
        if total == 0 {
            return false;
        }
        pos = o + total as usize;
    }
}

/// A chunk as the container's table lists it: its FourCC and its bytes.
pub struct RawChunk {
    pub fourcc: [u8; 4],
    pub data: Vec<u8>,
}

/// A raw chunk as plain values: (FourCC, bytes).
pub open spec fn raw_chunk_view(c: RawChunk) -> (Seq<u8>, Seq<u8>) {
    (c.fourcc@, c.data@)
}

/// What `dxbc::scan_dxbc` finds in `bytes`: the FourCC and the bytes of
/// each chunk of the first container, in table order; `None` where it finds
/// no container.
pub uninterp spec fn dxbc_container_chunks(bytes: Seq<u8>) -> Option<Seq<(Seq<u8>, Seq<u8>)>>;

/// Calls `dxbc::scan_dxbc` and copies out the FourCC and bytes of each
/// chunk of the first container it returns. The outcome is a function of
/// the bytes alone (named [`dxbc_container_chunks`]); the scan accepts a
/// container only where its 32-byte header fits, so shorter input gives
/// none. The scan does not terminate on some inputs, which `requires`
/// leaves out.
#[verifier::external_body]
fn scan_first_container(bytes: &[u8]) -> (r: Option<Vec<RawChunk>>)
    requires
        dxbc_scan_safe(bytes@),
    ensures
        match dxbc_container_chunks(bytes@) {
            Some(cs) => r matches Some(v) && v@.map_values(|c: RawChunk| raw_chunk_view(c)) == cs,
            None => r is None,
        },
        bytes@.len() < 32 ==> r is None,
{
    dxbc::scan_dxbc(bytes).first().map(|c| c.chunks.iter().map(|k| RawChunk { fourcc: k.fourcc, data: k.data.to_vec() }).collect())
}

/// What `dxbc::shex::decode_with_fourcc` makes of a `SHEX`/`SHDR` chunk's
/// bytes: the decoded program (each instruction converted by
/// [`convert_instruction`]), or `Other` where it reports an error.
pub uninterp spec fn shex_chunk_model(data: Seq<u8>, fourcc: Seq<u8>) -> ChunkModel;

/// Calls `dxbc::shex::decode_with_fourcc`; the outcome is a function of its
/// arguments (named [`shex_chunk_model`]), a program or, on an error,
/// `Other`.
#[verifier::external_body]
fn decode_shex_chunk(data: &[u8], fourcc: [u8; 4]) -> (r: ChunkModel)
    ensures
        r == shex_chunk_model(data@, fourcc@),
        r is Shader || r is Other,
{
    dxbc::shex::decode_with_fourcc(data, fourcc)
        .map_or(ChunkModel::Other, |p| ChunkModel::Shader(p.instructions.iter().map(convert_instruction).collect()))
}

/// What `dxbc::chunks::dxil::parse_dxil` makes of a `DXIL` chunk's bytes:
/// its header fields and bitcode, or `Other` where it refuses them.
pub uninterp spec fn dxil_chunk_model(data: Seq<u8>) -> ChunkModel;

/// Calls `dxbc::chunks::dxil::parse_dxil`; the outcome is a function of the
/// bytes (named [`dxil_chunk_model`]), the chunk's fields or `Other`.
#[verifier::external_body]
fn parse_dxil_chunk(data: &[u8]) -> (r: ChunkModel)
    ensures
        r == dxil_chunk_model(data@),
        r is Dxil || r is Other,
{
    dxbc::chunks::dxil::parse_dxil(data).map_or(ChunkModel::Other, |x| ChunkModel::Dxil(dxil_info(&x)))
}

pub open spec fn fourcc_rdef() -> Seq<u8> { seq![82u8, 68, 69, 70] }
pub open spec fn fourcc_isgn() -> Seq<u8> { seq![73u8, 83, 71, 78] }
pub open spec fn fourcc_isg1() -> Seq<u8> { seq![73u8, 83, 71, 49] }
pub open spec fn fourcc_osgn() -> Seq<u8> { seq![79u8, 83, 71, 78] }
pub open spec fn fourcc_osg1() -> Seq<u8> { seq![79u8, 83, 71, 49] }
pub open spec fn fourcc_osg5() -> Seq<u8> { seq![79u8, 83, 71, 53] }
pub open spec fn fourcc_shex() -> Seq<u8> { seq![83u8, 72, 69, 88] }
pub open spec fn fourcc_shdr() -> Seq<u8> { seq![83u8, 72, 68, 82] }
pub open spec fn fourcc_dxil() -> Seq<u8> { seq![68u8, 88, 73, 76] }

/// The model of a chunk, by its FourCC: `RDEF` where its 28-byte header
/// is there (`Other` where it is cut short), the input and output
/// signatures by their FourCC alone, `SHEX`/`SHDR` and `DXIL` as their
/// decoders give them, anything else `Other`.
pub open spec fn chunk_model_of(fourcc: Seq<u8>, data: Seq<u8>) -> ChunkModel {
    if fourcc == fourcc_rdef() {
        if data.len() >= RDEF_HEADER_LEN { ChunkModel::Rdef } else { ChunkModel::Other }
    } else if fourcc == fourcc_isgn() || fourcc == fourcc_isg1() {
        ChunkModel::InputSignature
    } else if fourcc == fourcc_osgn() || fourcc == fourcc_osg1() || fourcc == fourcc_osg5() {
        ChunkModel::OutputSignature
    } else if fourcc == fourcc_shex() || fourcc == fourcc_shdr() {
        shex_chunk_model(data, fourcc)
    } else if fourcc == fourcc_dxil() {
        dxil_chunk_model(data)
    } else {
        ChunkModel::Other
    }
}

fn fourcc_eq(f: &[u8; 4], a: u8, b: u8, c: u8, d: u8) -> (r: bool)
    ensures
        r == (f@ == seq![a, b, c, d]),
{
    let r = f[0] == a && f[1] == b && f[2] == c && f[3] == d;
    proof {
        if r {
            assert(f@ =~= seq![a, b, c, d]);
        } else if f@ == seq![a, b, c, d] {
            assert(f@[0] == a && f@[1] == b && f@[2] == c && f@[3] == d);
        }
    }
    r
}

/// The length of an `RDEF` header. `dxbc`'s `parse_rdef` refuses a chunk
/// shorter than this and accepts every other one.
pub const RDEF_HEADER_LEN: usize = 28;

/// The model of a raw chunk (see [`chunk_model_of`]). The crate's other
/// chunk decoders are not called: its `RDEF` type decoder recurses without
/// bound on a type that names itself as a member and reserves room for
/// counts read from the chunk, and so does its signature decoder. Which
/// `RDEF` chunks `parse_rdef` accepts is decided by its header length
/// alone, which is tested here.
pub fn chunk_model(c: &RawChunk) -> (m: ChunkModel)
    ensures
        m == chunk_model_of(c.fourcc@, c.data@),
{
    let f = &c.fourcc;
    if fourcc_eq(f, 82, 68, 69, 70) {
        if c.data.len() >= RDEF_HEADER_LEN { ChunkModel::Rdef } else { ChunkModel::Other }
    } else if fourcc_eq(f, 73, 83, 71, 78) || fourcc_eq(f, 73, 83, 71, 49) {
        ChunkModel::InputSignature
    } else if fourcc_eq(f, 79, 83, 71, 78) || fourcc_eq(f, 79, 83, 71, 49) || fourcc_eq(f, 79, 83, 71, 53) {
        ChunkModel::OutputSignature
    } else if fourcc_eq(f, 83, 72, 69, 88) || fourcc_eq(f, 83, 72, 68, 82) {
        decode_shex_chunk(c.data.as_slice(), c.fourcc)
    } else if fourcc_eq(f, 68, 88, 73, 76) {
        parse_dxil_chunk(c.data.as_slice())
    } else {
        ChunkModel::Other
    }
}

/// The chunks of the first container that `dxbc::scan_dxbc` finds in
/// `bytes`, each as [`chunk_model_of`] gives it; `None` where it finds
/// none.
pub open spec fn dxbc_first_container(bytes: Seq<u8>) -> Option<Seq<ChunkModel>> {
    match dxbc_container_chunks(bytes) {
        None => None,
        Some(raws) => Some(raws.map_values(|r: (Seq<u8>, Seq<u8>)| chunk_model_of(r.0, r.1))),
    }
}

/// The modelled chunks of the first container in `bytes` (see
/// [`dxbc_first_container`]).
pub(crate) fn first_container_chunks(bytes: &[u8]) -> (r: Option<Vec<ChunkModel>>)
    requires
        dxbc_scan_safe(bytes@),
    ensures
        match dxbc_first_container(bytes@) {
            Some(cs) => r matches Some(v) && v@ == cs,
            None => r is None,
        },
        bytes@.len() < 32 ==> r is None,
{
    let raws = match scan_first_container(bytes) {
        None => {
            return None;
        },
        Some(v) => v,
    };
    let ghost cs = dxbc_container_chunks(bytes@)->0;
    let mut out: Vec<ChunkModel> = Vec::new();
    let mut i: usize = 0;
    while i < raws.len()
        invariant
            i <= raws@.len(),
            out@.len() == i,
            forall|j: int| 0 <= j < i ==> #[trigger] out@[j] == chunk_model_of(raws@[j].fourcc@, raws@[j].data@),
        decreases raws@.len() - i,
    {
        let m = chunk_model(&raws[i]);
        out.push(m);
        i = i + 1;
    }
    proof {
        assert(raws@.map_values(|c: RawChunk| raw_chunk_view(c)) == cs);
        let want = cs.map_values(|r: (Seq<u8>, Seq<u8>)| chunk_model_of(r.0, r.1));
        assert forall|j: int| 0 <= j < out@.len() implies out@[j] == want[j] by {
            assert(cs[j] == raw_chunk_view(raws@[j]));
        }
        assert(out@ =~= want);
    }
    Some(out)
}

/// The fields of a decoded `DXIL` chunk, moved into [`DxilChunkInfo`].
#[verifier::external_body]
fn dxil_info(x: &dxbc::chunks::DxilData) -> DxilChunkInfo {
    DxilChunkInfo {
        shader_kind: x.shader_kind,
        major_version: x.major_version,
        minor_version: x.minor_version,
        dxil_version: x.dxil_version,
        bitcode: x.bitcode.to_vec(),
    }
}

/// Converts a `SHEX` instruction: `Opcode::to_u32` of its opcode, its
/// declaration kind, and its operands (`Instruction::operands`).
#[verifier::external_body]
fn convert_instruction(ins: &dxbc::shex::Instruction) -> ShexInstruction {
    ShexInstruction {
        opcode: ins.opcode.to_u32(),
        kind: instruction_text_kind(ins).unwrap_or_else(|| instruction_plain_kind(ins)),
        operands: ins.operands().iter().map(convert_operand).collect(),
    }
}

/// The declaration kinds that carry text, one arm per variant; `None` for
/// the others.
#[verifier::external_body]
fn instruction_text_kind(ins: &dxbc::shex::Instruction) -> Option<ShexKind> {
    let text = |s: &str| s.as_bytes().to_vec();
    match &ins.kind {
        dxbc::shex::InstructionKind::DclInput { interpolation, system_value, .. } =>
            Some(ShexKind::Input { interpolation: interpolation.map(text), system_value: system_value.map(text) }),
        dxbc::shex::InstructionKind::DclOutput { system_value, .. } => Some(ShexKind::Output { system_value: system_value.map(text) }),
        dxbc::shex::InstructionKind::DclResource { dimension, return_type, .. } =>
            Some(ShexKind::Resource { dimension: text(dimension), return_type: return_type.map(|t| t.to_u32()) }),
        dxbc::shex::InstructionKind::DclSampler { mode, .. } => Some(ShexKind::Sampler { mode: text(mode) }),
        _ => None,
    }
}

/// The other declaration kinds, one arm per variant used here.
#[verifier::external_body]
fn instruction_plain_kind(ins: &dxbc::shex::Instruction) -> ShexKind {
    match &ins.kind {
        dxbc::shex::InstructionKind::Generic { .. } => ShexKind::Generic,
        dxbc::shex::InstructionKind::DclGlobalFlags { .. } => ShexKind::GlobalFlags,
        dxbc::shex::InstructionKind::DclConstantBuffer { .. } => ShexKind::ConstantBuffer,
        dxbc::shex::InstructionKind::DclTemps { .. } => ShexKind::Temps,
        dxbc::shex::InstructionKind::DclThreadGroup { x, y, z } => ShexKind::ThreadGroup { x: *x, y: *y, z: *z },
        dxbc::shex::InstructionKind::DclUavStructured { stride, .. } => ShexKind::UavStructured { stride: *stride },
        _ => ShexKind::Other,
    }
}

/// Converts an operand: `RegisterType::to_u32` of its register type, its
/// component selection, negate modifier, index levels and immediate values.
#[verifier::external_body]
fn convert_operand(op: &dxbc::shex::Operand) -> ShexOperand {
    ShexOperand {
        reg_type: op.reg_type.to_u32(),
        components: operand_components(op),
        negate: op.negate,
        indices: operand_indices(op),
        immediates: op.immediate_values.to_vec(),
    }
}

/// The operand's component selection, one arm per variant.
#[verifier::external_body]
fn operand_components(op: &dxbc::shex::Operand) -> ComponentSel {
    match &op.components {
        dxbc::shex::ComponentSelect::ZeroComponent => ComponentSel::Zero,
        dxbc::shex::ComponentSelect::OneComponent => ComponentSel::One,
        dxbc::shex::ComponentSelect::Mask(m) => ComponentSel::Mask(*m),
        dxbc::shex::ComponentSelect::Swizzle(s) => ComponentSel::Swizzle(*s),
        dxbc::shex::ComponentSelect::Scalar(c) => ComponentSel::Scalar(*c),
    }
}

/// The operand's index levels: an immediate 32-bit index as its value, any
/// other kind of index as `None`.
#[verifier::external_body]
fn operand_indices(op: &dxbc::shex::Operand) -> Vec<Option<u32>> {
    op.indices
        .iter()
        .map(|i| match i {
            dxbc::shex::OperandIndex::Imm32(v) => Some(*v),
            _ => None,
        })
        .collect()
}

} // verus!
