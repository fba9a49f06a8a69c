//! Compute kernels that run the range decoder's `get_rac` on the GPU, over
//! `u32` buffers holding one byte or one state per element: a single
//! invocation decoding with one adaptive state, and a work group whose
//! invocation 0 decodes one bit per context while all invocations load and
//! store the contexts through workgroup memory.

use vstd::prelude::*;
use crate::spirv_module::{
    lemma_template_nth, template_inst_at, template_insts_from, template_starts, template_module, template_module_words, InstructionView, OperandView,
};
use crate::spirv_templates::{
    RANGE_DECODER_PARALLEL_TEMPLATE, RANGE_DECODER_PARALLEL_TEMPLATE_BOUND, RANGE_DECODER_TEMPLATE,
    RANGE_DECODER_TEMPLATE_BOUND,
};

verus! {

/// The single-invocation decoding kernel.
#[derive(Debug)]
pub struct RangeDecoderKernel {
    pub spirv_words: Vec<u32>,
    /// The entry point's name (always `"main"`).
    pub entry_point: &'static str,
    /// Always `(1, 1, 1)`: one invocation carries the state.
    pub local_size: (u32, u32, u32),
}

/// The module that decodes `num_symbols` bits starting from
/// `initial_state`, with the byte stream at binding 0 (its first two
/// elements the initial `low`), the one-state and zero-state tables at
/// bindings 1 and 2 and the bits written to binding 3.
pub open spec fn range_decoder_words(initial_state: u32, num_symbols: u32) -> Seq<u32> {
    template_module_words(RANGE_DECODER_TEMPLATE@, seq![initial_state, num_symbols], RANGE_DECODER_TEMPLATE_BOUND)
}

/// Builds the single-invocation decoding kernel (see
/// [`range_decoder_words`]).
pub fn build_range_decoder_kernel(initial_state: u32, num_symbols: u32) -> (k: RangeDecoderKernel)
    ensures
        k.spirv_words@ == range_decoder_words(initial_state, num_symbols),
        k.entry_point@ == "main"@,
        k.local_size == (1u32, 1u32, 1u32),
{
    let params: Vec<u32> = vec![initial_state, num_symbols];
    assert(params@ =~= seq![initial_state, num_symbols]);
    let spirv_words = template_module(&RANGE_DECODER_TEMPLATE, params.as_slice(), RANGE_DECODER_TEMPLATE_BOUND);
    RangeDecoderKernel { spirv_words, entry_point: "main", local_size: (1, 1, 1) }
}

/// The work-group decoding kernel.
#[derive(Debug)]
pub struct ParallelRangeDecoderKernel {
    pub spirv_words: Vec<u32>,
    /// The entry point's name (always `"main"`).
    pub entry_point: &'static str,
    /// `(context_size, 1, 1)`.
    pub local_size: (u32, u32, u32),
}

/// The module of `context_size` invocations: each copies its context's
/// state (binding 2) into workgroup memory; after a barrier invocation 0
/// decodes one bit per context in order (byte stream at binding 0, the
/// zero-state table then the one-state table at binding 1, bits to binding
/// 3); after a second barrier each copies its state back.
pub open spec fn range_decoder_parallel_words(context_size: u32) -> Seq<u32> {
    template_module_words(RANGE_DECODER_PARALLEL_TEMPLATE@, seq![context_size], RANGE_DECODER_PARALLEL_TEMPLATE_BOUND)
}

/// Builds the work-group decoding kernel for `context_size` contexts (see
/// [`range_decoder_parallel_words`]).
pub fn build_range_decoder_parallel_kernel(context_size: u32) -> (k: ParallelRangeDecoderKernel)
    ensures
        k.spirv_words@ == range_decoder_parallel_words(context_size),
        k.entry_point@ == "main"@,
        k.local_size == (context_size, 1u32, 1u32),
{
    let params: Vec<u32> = vec![context_size];
    assert(params@ =~= seq![context_size]);
    let spirv_words = template_module(
        &RANGE_DECODER_PARALLEL_TEMPLATE,
        params.as_slice(),
        RANGE_DECODER_PARALLEL_TEMPLATE_BOUND,
    );
    ParallelRangeDecoderKernel { spirv_words, entry_point: "main", local_size: (context_size, 1, 1) }
}


/// The work-group kernel declares `context_size` invocations: its fourth
/// instruction is `OpExecutionMode %main LocalSize context_size 1 1`.
pub proof fn lemma_parallel_kernel_local_size(context_size: u32)
    ensures
        template_insts_from(RANGE_DECODER_PARALLEL_TEMPLATE@, seq![context_size], 0).len() > 3,
        template_insts_from(RANGE_DECODER_PARALLEL_TEMPLATE@, seq![context_size], 0)[3] == (InstructionView {
            opcode: 16,
            result_type: None,
            result_id: None,
            operands: seq![
                OperandView::Word(21),
                OperandView::Word(17),
                OperandView::Word(context_size),
                OperandView::Word(1),
                OperandView::Word(1),
            ],
        }),
{
    let t = RANGE_DECODER_PARALLEL_TEMPLATE@;
    let p = seq![context_size];
    let offs = seq![0int, 4, 9, 16, 24];
    assert(template_starts(t, p, offs)) by {
        reveal_with_fuel(template_starts, 5);
    }
    let i3 = template_inst_at(t, p, 16).unwrap().0;
    assert(i3.operands =~= seq![
        OperandView::Word(21),
        OperandView::Word(17),
        OperandView::Word(context_size),
        OperandView::Word(1),
        OperandView::Word(1),
    ]);
    lemma_template_nth(t, p, offs, 3);
}


/// The work-group memory holds one state per context: the kernel's
/// constant %13 is `context_size`, %14 is an array of `context_size`
/// 32-bit integers, and the variable %16 is that array in workgroup storage
/// (instructions 28 to 31 of the module).
pub proof fn lemma_parallel_kernel_workgroup_array(context_size: u32)
    ensures
        ({
            let insts = template_insts_from(RANGE_DECODER_PARALLEL_TEMPLATE@, seq![context_size], 0);
            &&& insts.len() > 31
            &&& insts[28] == (InstructionView {
                opcode: 43,
                result_type: Some(3u32),
                result_id: Some(13u32),
                operands: seq![OperandView::Word(context_size)],
            })
            &&& insts[29] == (InstructionView {
                opcode: 28,
                result_type: None,
                result_id: Some(14u32),
                operands: seq![OperandView::Word(3), OperandView::Word(13)],
            })
            &&& insts[30] == (InstructionView {
                opcode: 32,
                result_type: None,
                result_id: Some(15u32),
                operands: seq![OperandView::Word(4), OperandView::Word(14)],
            })
            &&& insts[31] == (InstructionView {
                opcode: 59,
                result_type: Some(15u32),
                result_id: Some(16u32),
                operands: seq![OperandView::Word(4)],
            })
        }),
{
    let t = RANGE_DECODER_PARALLEL_TEMPLATE@;
    let p = seq![context_size];
    let offs = seq![
        0int, 4, 9, 16, 24, 30, 35, 42, 48, 54, 60, 66, 72, 78, 84, 90, 96, 100, 105, 111, 115, 120, 125, 131,
        137, 143, 149, 155, 161, 167, 173, 179, 185,
    ];
    assert(template_starts(t, p, offs)) by {
        reveal_with_fuel(template_starts, 33);
    }
    let i28 = template_inst_at(t, p, 161).unwrap().0;
    let i29 = template_inst_at(t, p, 167).unwrap().0;
    let i30 = template_inst_at(t, p, 173).unwrap().0;
    let i31 = template_inst_at(t, p, 179).unwrap().0;
    assert(i28.operands =~= seq![OperandView::Word(context_size)]);
    assert(i29.operands =~= seq![OperandView::Word(3), OperandView::Word(13)]);
    assert(i30.operands =~= seq![OperandView::Word(4), OperandView::Word(14)]);
    assert(i31.operands =~= seq![OperandView::Word(4)]);
    lemma_template_nth(t, p, offs, 28);
    lemma_template_nth(t, p, offs, 29);
    lemma_template_nth(t, p, offs, 30);
    lemma_template_nth(t, p, offs, 31);
}

} // verus!
