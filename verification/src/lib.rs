//! Translation of Direct3D shader bytecode to SPIR-V, and the FFV1 pieces
//! (range coder, plane coder) that the GPU kernels of this crate decode.
//!
//! The DXBC container and its chunks are read by the `dxbc` crate, DXIL
//! bitcode by `llvm-bitcode`, SPIR-V words are assembled by `rspirv`; what
//! this crate adds (the shape checks, the resolution of DXIL calls, the
//! modules emitted, the coders) is verified.

pub mod range_coder;
pub mod plane_codec;
pub mod coding_interval;
pub mod container;
pub mod dxil;
pub mod bitstream_check;
pub mod spirv_module;
pub mod spirv_templates;
pub mod spirv_gen;
pub mod chain;
pub mod dxil_spirv;
pub mod dxil_module;
pub mod graphics_shaders;
pub mod gemm;
pub mod med2d;
pub mod range_kernels;
pub mod graphics_data;

use vstd::prelude::*;
use crate::container::{ChunkModel, ChunkTag};

verus! {

/// What went wrong while reading a DXBC container.
#[derive(Debug, Clone, Copy, PartialEq, Eq)]
pub enum ParseProblem {
    /// No DXBC container was found (wrong magic, or the bytes are damaged).
    NoContainer,
}

impl ParseProblem {
    /// The problem as a message.
    pub fn message(&self) -> (m: &'static str)
        ensures
            m@ == "no DXBC container found (magic mismatch or damaged data)"@,
    {
        match self {
            ParseProblem::NoContainer => "no DXBC container found (magic mismatch or damaged data)",
        }
    }
}

/// Why a DXBC container could not be read.
#[derive(Debug, Clone, Copy, PartialEq, Eq)]
pub enum TranslateError {
    Parse(ParseProblem),
    /// A chunk the translation needs is not in the container.
    MissingChunk(ChunkTag),
}

/// The summary of a DXBC container that the translation needs.
#[derive(Debug, Clone, Copy, PartialEq, Eq)]
pub struct ShaderModule {
    /// The number of chunks in the container.
    pub chunk_count: usize,
    /// Whether an `RDEF` (resource definitions) chunk is there.
    pub has_resource_definitions: bool,
    /// Whether an `ISGN` (input signature) chunk is there.
    pub has_input_signature: bool,
    /// Whether an `OSGN` (output signature) chunk is there.
    pub has_output_signature: bool,
    /// The number of instructions of the (last) `SHEX`/`SHDR` chunk, where
    /// there is one.
    pub instruction_count: Option<usize>,
}

/// The kind of a chunk.
pub open spec fn chunk_tag_of(c: ChunkModel) -> ChunkTag {
    match c {
        ChunkModel::Rdef => ChunkTag::Rdef,
        ChunkModel::InputSignature => ChunkTag::InputSignature,
        ChunkModel::OutputSignature => ChunkTag::OutputSignature,
        ChunkModel::Shader(_) => ChunkTag::Shader,
        ChunkModel::Dxil(_) => ChunkTag::Dxil,
        ChunkModel::Other => ChunkTag::Other,
    }
}

/// Whether a chunk of kind `tag` is among `chunks`.
pub open spec fn has_chunk(chunks: Seq<ChunkModel>, tag: ChunkTag) -> bool {
    exists|k: int| 0 <= k < chunks.len() && chunk_tag_of(#[trigger] chunks[k]) == tag
}

/// The index of the last shader chunk among the first `n` chunks.
pub open spec fn last_shader_before(chunks: Seq<ChunkModel>, n: int) -> Option<int>
    decreases n,
{
    if n <= 0 {
        None
    } else if chunks[n - 1] is Shader {
        Some(n - 1)
    } else {
        last_shader_before(chunks, n - 1)
    }
}

/// The last shader chunk found is one, and among the first `n`.
pub proof fn lemma_last_shader_before(chunks: Seq<ChunkModel>, n: int)
    ensures
        last_shader_before(chunks, n) matches Some(k) ==> 0 <= k < n && chunks[k] is Shader,
    decreases n,
{
    if n > 0 && !(chunks[n - 1] is Shader) {
        lemma_last_shader_before(chunks, n - 1);
    }
}

/// The instruction count of the last shader chunk among the first `n`.
pub open spec fn last_instruction_count(chunks: Seq<ChunkModel>, n: int) -> Option<usize> {
    match last_shader_before(chunks, n) {
        Some(k) => match chunks[k] {
            ChunkModel::Shader(v) => Some(v@.len() as usize),
            _ => None,
        },
        None => None,
    }
}

/// The summary of a container with these chunks.
pub open spec fn summary_of(chunks: Seq<ChunkModel>) -> ShaderModule {
    ShaderModule {
        chunk_count: chunks.len() as usize,
        has_resource_definitions: has_chunk(chunks, ChunkTag::Rdef),
        has_input_signature: has_chunk(chunks, ChunkTag::InputSignature),
        has_output_signature: has_chunk(chunks, ChunkTag::OutputSignature),
        instruction_count: last_instruction_count(chunks, chunks.len() as int),
    }
}

/// Summarizes the decoded chunks of a container.
pub fn summarize_chunks(chunks: &[ChunkModel]) -> (m: ShaderModule)
    ensures
        m == summary_of(chunks@),
{
    let mut rdef = false;
    let mut isgn = false;
    let mut osgn = false;
    let mut count: Option<usize> = None;
    let mut i: usize = 0;
    while i < chunks.len()
        invariant
            i <= chunks@.len(),
            rdef == has_chunk(chunks@.take(i as int), ChunkTag::Rdef),
            isgn == has_chunk(chunks@.take(i as int), ChunkTag::InputSignature),
            osgn == has_chunk(chunks@.take(i as int), ChunkTag::OutputSignature),
            count == last_instruction_count(chunks@, i as int),
        decreases chunks@.len() - i,
    {
        let ghost before = chunks@.take(i as int);
        let ghost after = chunks@.take(i as int + 1);
        proof {
            assert forall|t: ChunkTag| has_chunk(after, t) == (has_chunk(before, t) || chunk_tag_of(chunks@[i as int]) == t) by {
                if has_chunk(after, t) {
                    let k = choose|k: int| 0 <= k < after.len() && chunk_tag_of(#[trigger] after[k]) == t;
                    if k < i {
                        assert(before[k] == after[k]);
                    }
                }
                if has_chunk(before, t) {
                    let k = choose|k: int| 0 <= k < before.len() && chunk_tag_of(#[trigger] before[k]) == t;
                    assert(after[k] == before[k]);
                }
                if chunk_tag_of(chunks@[i as int]) == t {
                    assert(after[i as int] == chunks@[i as int]);
                }
            }
        }
        match &chunks[i] {
            ChunkModel::Rdef => {
                rdef = true;
            },
            ChunkModel::InputSignature => {
                isgn = true;
            },
            ChunkModel::OutputSignature => {
                osgn = true;
            },
            ChunkModel::Shader(program) => {
                count = Some(program.len());
            },
            _ => {},
        }
        i = i + 1;
    }
    assert(chunks@.take(chunks@.len() as int) =~= chunks@);
    ShaderModule {
        chunk_count: chunks.len(),
        has_resource_definitions: rdef,
        has_input_signature: isgn,
        has_output_signature: osgn,
        instruction_count: count,
    }
}

/// Reads a DXBC container and summarizes it: the chunks of the first
/// container that `dxbc::scan_dxbc` finds, as [`summarize_chunks`] does.
/// Where no container is found (always so for fewer than 32 bytes) the
/// error is `Parse(NoContainer)`.
pub fn parse_dxbc(bytes: &[u8]) -> (r: Result<ShaderModule, TranslateError>)
    requires
        crate::container::dxbc_scan_safe(bytes@),
    ensures
        bytes@.len() < 32 ==> r == Err::<ShaderModule, TranslateError>(TranslateError::Parse(ParseProblem::NoContainer)),
        match crate::container::dxbc_first_container(bytes@) {
            None => r == Err::<ShaderModule, TranslateError>(TranslateError::Parse(ParseProblem::NoContainer)),
            Some(cs) => r == Ok::<ShaderModule, TranslateError>(summary_of(cs)),
        },
{
    match crate::container::first_container_chunks(bytes) {
        Some(chunks) => {
            let m = summarize_chunks(chunks.as_slice());
            assert(summary_of(chunks@) == m);
            Ok(m)
        },
        None => Err(TranslateError::Parse(ParseProblem::NoContainer)),
    }
}

} // verus!
