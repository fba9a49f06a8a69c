//! DXIL containers at the level of blocks: the summary of the `DXIL` chunk
//! and its bitstream's top-level blocks, and the instruction shape of the
//! single-function vector-add shader read from the module's type and
//! function blocks.

use vstd::prelude::*;
use crate::container::{ChunkModel, DxilChunkInfo};
use crate::dxil::{
    decode_function_instructions, decode_vector_add_dxil_shape, dxil_module_elements, find_module_block, find_sub_block,
    first_block_from, instructions_from, module_block_of, resolve_type_table, type_table_from, vector_add_shape,
    BcBlock, BcElement, DxilShapeError, DxilVectorAddShape, MissingPart,
};

verus! {

/// Why a DXIL container could not be read.
#[derive(Debug)]
pub enum DxilParseError {
    /// No DXBC container (wrong magic, or damaged bytes).
    NotADxbcContainer,
    /// The container has no `DXIL` chunk (a Shader Model 5 shader, or a
    /// damaged file).
    NoDxilChunk,
    /// The bitcode is not an LLVM bitstream: the reader's error text.
    InvalidBitcode(String),
}

/// A block of the bitstream as it stands, not interpreted.
#[derive(Debug)]
pub struct BitcodeBlockSummary {
    pub block_id: u32,
    /// The number of elements directly under the block (blocks and
    /// records).
    pub child_count: usize,
    /// The ids of the blocks directly under it, in order.
    pub child_block_ids: Vec<u32>,
}

/// The summary of a `DXIL` chunk.
#[derive(Debug)]
pub struct DxilModule {
    /// The shader kind of the program header (5 is compute).
    pub shader_kind: u16,
    pub shader_model_major: u8,
    pub shader_model_minor: u8,
    /// The DXIL version of the bitcode header.
    pub dxil_version: u32,
    /// The number of bytes of bitcode.
    pub bitcode_byte_len: usize,
    /// Whether the bitcode starts with LLVM's wrapper magic `BC 0xC0DE`.
    pub bitcode_has_llvm_magic: bool,
    /// The top-level blocks of the bitstream (usually one `MODULE_BLOCK`).
    pub top_level_blocks: Vec<BitcodeBlockSummary>,
}

/// The ids of the blocks among `elements`, in order.
pub open spec fn block_ids(elements: Seq<BcElement>) -> Seq<u32>
    decreases elements.len(),
{
    if elements.len() == 0 {
        Seq::empty()
    } else {
        let rest = block_ids(elements.drop_last());
        match elements.last() {
            BcElement::Block(b) => rest.push(b.id),
            BcElement::Record(_) => rest,
        }
    }
}

/// The blocks among `elements`, in order.
pub open spec fn blocks_of(elements: Seq<BcElement>) -> Seq<BcBlock>
    decreases elements.len(),
{
    if elements.len() == 0 {
        Seq::empty()
    } else {
        let rest = blocks_of(elements.drop_last());
        match elements.last() {
            BcElement::Block(b) => rest.push(b),
            BcElement::Record(_) => rest,
        }
    }
}

/// Whether `s` summarizes block `b`.
pub open spec fn summarizes(s: BitcodeBlockSummary, b: BcBlock) -> bool {
    &&& s.block_id == b.id
    &&& s.child_count == b.elements@.len()
    &&& s.child_block_ids@ == block_ids(b.elements@)
}

/// Whether `m` summarizes a `DXIL` chunk with this header and this
/// bitstream.
pub open spec fn is_dxil_summary(m: DxilModule, info: DxilChunkInfo, elements: Seq<BcElement>) -> bool {
    let blocks = blocks_of(elements);
    &&& m.shader_kind == info.shader_kind
    &&& m.shader_model_major == info.major_version
    &&& m.shader_model_minor == info.minor_version
    &&& m.dxil_version == info.dxil_version
    &&& m.bitcode_byte_len == info.bitcode@.len()
    &&& m.bitcode_has_llvm_magic == (info.bitcode@.len() >= 4 && info.bitcode@.take(4) == seq![0x42u8, 0x43u8, 0xc0u8, 0xdeu8])
    &&& m.top_level_blocks@.len() == blocks.len()
    &&& forall|k: int| 0 <= k < blocks.len() ==> summarizes(#[trigger] m.top_level_blocks@[k], blocks[k])
}

fn summarize_block(b: &BcBlock) -> (s: BitcodeBlockSummary)
    ensures
        summarizes(s, *b),
{
    let mut ids: Vec<u32> = Vec::new();
    let mut i: usize = 0;
    assert(b.elements@.take(0) =~= Seq::<BcElement>::empty());
    while i < b.elements.len()
        invariant
            i <= b.elements@.len(),
            ids@ == block_ids(b.elements@.take(i as int)),
        decreases b.elements@.len() - i,
    {
        assert(b.elements@.take(i as int + 1).drop_last() =~= b.elements@.take(i as int));
        match &b.elements[i] {
            BcElement::Block(sub) => {
                ids.push(sub.id);
            },
            BcElement::Record(_) => {},
        }
        i = i + 1;
    }
    assert(b.elements@.take(b.elements@.len() as int) =~= b.elements@);
    BitcodeBlockSummary { block_id: b.id, child_count: b.elements.len(), child_block_ids: ids }
}

/// Summarizes a `DXIL` chunk with its parsed bitstream.
pub fn summarize_dxil(info: &DxilChunkInfo, elements: &[BcElement]) -> (m: DxilModule)
    ensures
        is_dxil_summary(m, *info, elements@),
{
    let code = &info.bitcode;
    let magic = code.len() >= 4 && code[0] == 0x42 && code[1] == 0x43 && code[2] == 0xc0 && code[3] == 0xde;
    assert(magic == (code@.len() >= 4 && code@.take(4) == seq![0x42u8, 0x43u8, 0xc0u8, 0xdeu8])) by {
        if code@.len() >= 4 {
            if magic {
                assert(code@.take(4) =~= seq![0x42u8, 0x43u8, 0xc0u8, 0xdeu8]);
            } else if code@.take(4) == seq![0x42u8, 0x43u8, 0xc0u8, 0xdeu8] {
                assert(code@[0] == code@.take(4)[0]);
                assert(code@[1] == code@.take(4)[1]);
                assert(code@[2] == code@.take(4)[2]);
                assert(code@[3] == code@.take(4)[3]);
            }
        }
    }
    let mut blocks: Vec<BitcodeBlockSummary> = Vec::new();
    let mut i: usize = 0;
    assert(elements@.take(0) =~= Seq::<BcElement>::empty());
    while i < elements.len()
        invariant
            i <= elements@.len(),
            blocks@.len() == blocks_of(elements@.take(i as int)).len(),
            forall|k: int|
                0 <= k < blocks@.len() ==> summarizes(#[trigger] blocks@[k], blocks_of(elements@.take(i as int))[k]),
        decreases elements@.len() - i,
    {
        assert(elements@.take(i as int + 1).drop_last() =~= elements@.take(i as int));
        match &elements[i] {
            BcElement::Block(b) => {
                let s = summarize_block(b);
                blocks.push(s);
            },
            BcElement::Record(_) => {},
        }
        i = i + 1;
    }
    assert(elements@.take(elements@.len() as int) =~= elements@);
    DxilModule {
        shader_kind: info.shader_kind,
        shader_model_major: info.major_version,
        shader_model_minor: info.minor_version,
        dxil_version: info.dxil_version,
        bitcode_byte_len: code.len(),
        bitcode_has_llvm_magic: magic,
        top_level_blocks: blocks,
    }
}

/// Reads a DXBC container that holds a `DXIL` chunk and summarizes the
/// chunk (see [`summarize_dxil`]). For fewer than 32 bytes no container is
/// found.
pub fn parse_dxil_container(bytes: &[u8]) -> (r: Result<DxilModule, DxilParseError>)
    requires
        crate::container::dxbc_scan_safe(bytes@),
    ensures
        bytes@.len() < 32 ==> r is Err && r->Err_0 is NotADxbcContainer,
        match crate::container::dxbc_first_container(bytes@) {
            None => r is Err && r->Err_0 is NotADxbcContainer,
            Some(cs) => match crate::dxil::first_dxil_from(cs, 0) {
                None => r is Err && r->Err_0 is NoDxilChunk,
                Some(k) => cs[k] matches ChunkModel::Dxil(info) && if !crate::bitstream_check::bitcode_read_safe(info.bitcode@) {
                    r is Err && r->Err_0 is InvalidBitcode
                } else {
                    match crate::dxil::bitcode_elements(info.bitcode@) {
                        None => r is Err && r->Err_0 is InvalidBitcode,
                        Some(els) => r matches Ok(m) && is_dxil_summary(m, info, els),
                    }
                },
            },
        },
{
    let chunks = match crate::container::first_container_chunks(bytes) {
        Some(c) => c,
        None => {
            return Err(DxilParseError::NotADxbcContainer);
        },
    };
    let info = match crate::dxil::find_dxil_chunk(chunks.as_slice()) {
        Some(info) => info,
        None => {
            return Err(DxilParseError::NoDxilChunk);
        },
    };
    if !crate::bitstream_check::bitcode_reader_returns(info.bitcode.as_slice()) {
        return Err(DxilParseError::InvalidBitcode(refused_bitcode_text()));
    }
    match crate::dxil::parse_bitcode(info.bitcode.as_slice()) {
        Err(text) => Err(DxilParseError::InvalidBitcode(text)),
        Ok(elements) => {
            let m = summarize_dxil(info, elements.as_slice());
            let ghost gi = *info;
            let ghost ge = elements@;
            assert(is_dxil_summary(m, gi, ge));
            Ok(m)
        },
    }
}

/// The text of `InvalidBitcode` for a stream on which the bitcode reader
/// might not return.
fn refused_bitcode_text() -> (t: String) {
    "bitstream refused: the reader might not return on it".to_string()
}

/// Why the vector-add shape could not be read from a DXIL shader.
#[derive(Debug, Clone, Copy, PartialEq, Eq)]
pub enum DxilDecodeError {
    /// A part of the container or of the module is missing.
    Missing(MissingPart),
    /// The module has no `TYPE_BLOCK_ID_NEW` (17).
    NoTypeBlock,
    /// The instructions are not the vector-add shape.
    Shape(DxilShapeError),
}

/// The vector-add shape of a module block: its first type block (17) and
/// first function block (12), read as [`vector_add_shape`] reads them.
pub open spec fn module_vector_add_shape(mb: BcBlock) -> Result<DxilVectorAddShape, DxilDecodeError> {
    match first_block_from(mb.elements@, 17, 0) {
        None => Err(DxilDecodeError::NoTypeBlock),
        Some(t) => match first_block_from(mb.elements@, 12, 0) {
            None => Err(DxilDecodeError::Missing(MissingPart::FunctionBlock)),
            Some(f) => match (mb.elements@[t], mb.elements@[f]) {
                (BcElement::Block(tb), BcElement::Block(fb)) => match vector_add_shape(
                    type_table_from(tb.elements@, None),
                    instructions_from(fb.elements@),
                ) {
                    Ok(s) => Ok(s),
                    Err(e) => Err(DxilDecodeError::Shape(e)),
                },
                _ => Err(DxilDecodeError::NoTypeBlock),
            },
        },
    }
}

proof fn lemma_first_block_is_block(elements: Seq<BcElement>, id: u32, i: int)
    ensures
        first_block_from(elements, id, i) matches Some(k) ==> 0 <= k < elements.len() && (elements[k] matches BcElement::Block(
            b,
        ) && b.id == id),
    decreases elements.len() - i,
{
    if 0 <= i < elements.len() && !(elements[i] matches BcElement::Block(b) && b.id == id) {
        lemma_first_block_is_block(elements, id, i + 1);
    }
}

/// Reads the vector-add shape of a module block (see
/// [`module_vector_add_shape`]).
pub fn decode_module_vector_add(mb: &BcBlock) -> (r: Result<DxilVectorAddShape, DxilDecodeError>)
    ensures
        r == module_vector_add_shape(*mb),
{
    proof {
        lemma_first_block_is_block(mb.elements@, 17, 0);
        lemma_first_block_is_block(mb.elements@, 12, 0);
    }
    let t = match find_sub_block(mb, 17) {
        None => {
            return Err(DxilDecodeError::NoTypeBlock);
        },
        Some(t) => t,
    };
    let f = match find_sub_block(mb, 12) {
        None => {
            return Err(DxilDecodeError::Missing(MissingPart::FunctionBlock));
        },
        Some(f) => f,
    };
    match (&mb.elements[t], &mb.elements[f]) {
        (BcElement::Block(tb), BcElement::Block(fb)) => {
            let types = resolve_type_table(tb);
            let instructions = decode_function_instructions(fb);
            match decode_vector_add_dxil_shape(types.as_slice(), instructions.as_slice()) {
                Ok(s) => Ok(s),
                Err(e) => Err(DxilDecodeError::Shape(e)),
            }
        },
        _ => Err(DxilDecodeError::NoTypeBlock),
    }
}

/// Reads the vector-add shape of a DXIL shader: the module block of the
/// bitcode in its `DXIL` chunk goes through [`decode_module_vector_add`].
/// What cannot be found is `Missing(..)`, for fewer than 32 bytes
/// `Missing(Container)`.
pub fn decode_vector_add_dxil(bytes: &[u8]) -> (r: Result<DxilVectorAddShape, DxilDecodeError>)
    requires
        crate::container::dxbc_scan_safe(bytes@),
    ensures
        bytes@.len() < 32 ==> r == Err::<DxilVectorAddShape, DxilDecodeError>(DxilDecodeError::Missing(MissingPart::Container)),
        match crate::dxil::dxil_module_of(bytes@) {
            Err(p) => r == Err::<DxilVectorAddShape, DxilDecodeError>(DxilDecodeError::Missing(p)),
            Ok(mb) => r == module_vector_add_shape(mb),
        },
{
    let elements = match dxil_module_elements(bytes) {
        Ok(e) => e,
        Err(p) => {
            return Err(DxilDecodeError::Missing(p));
        },
    };
    match find_module_block(elements.as_slice()) {
        Some(mb) => {
            let r = decode_module_vector_add(mb);
            assert(module_vector_add_shape(*mb) == r);
            r
        },
        None => Err(DxilDecodeError::Missing(MissingPart::ModuleBlock)),
    }
}

} // verus!
