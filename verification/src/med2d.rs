//! The two-dimensional MED (median edge detector) predictor of FFV1 as a
//! compute shader over an image of floats: the shader is recognised by its
//! exact opcode sequence, and the module computes, for each pixel, the
//! median prediction from its left, top and top-left neighbours (the pixel
//! itself standing in for a neighbour outside the image).

use vstd::prelude::*;
use crate::container::ShexInstruction;
use crate::gemm::{opcode_scan, same_opcodes, scan_opcodes};
use crate::spirv_gen::{shex_instructions, SpirvGenError, Unsupported};
use crate::spirv_module::{template_module, template_module_words};
use crate::spirv_templates::{MED2D_TEMPLATE, MED2D_TEMPLATE_BOUND};
use crate::{ParseProblem, TranslateError};

verus! {

/// The opcodes of the predictor as `fxc` compiles it (thirty instructions,
/// from `imul` to `ret`).
pub const MED2D_OPCODES: [u32; 30] = [
    38, 79, 31, 78, 167, 79, 30, 35, 167, 55, 79, 30, 35, 167, 55, 1, 35, 167, 55, 52, 29, 51, 29, 0, 0, 55, 55, 168,
    21, 62,
];

/// The shape of the predictor: `cb0`, the UAVs `u0` (image) and `u1`
/// (output), a thread-group size and the opcode sequence
/// [`MED2D_OPCODES`]; returns the thread-group size.
pub open spec fn med2d_shape(ins: Seq<ShexInstruction>) -> Result<(u32, u32, u32), Unsupported> {
    match opcode_scan(ins, true) {
        Err(e) => Err(e),
        Ok(st) => if !st.has_cbuffer {
            Err(Unsupported::NoConstantBuffer)
        } else if st.uavs != seq![0u32, 1u32] {
            Err(Unsupported::UavBindPoints)
        } else {
            match st.thread_group {
                None => Err(Unsupported::NoThreadGroup),
                Some(tg) => if st.opcodes != MED2D_OPCODES@ {
                    Err(Unsupported::OpcodeSequence)
                } else {
                    Ok(tg)
                },
            }
        },
    }
}

/// Matches a compute shader's instructions against the predictor's shape
/// (see [`med2d_shape`]).
pub fn verify_med_2d_shape(instructions: &[ShexInstruction]) -> (r: Result<(u32, u32, u32), Unsupported>)
    ensures
        r == med2d_shape(instructions@),
{
    let st = scan_opcodes(instructions, true)?;
    if !st.has_cbuffer {
        return Err(Unsupported::NoConstantBuffer);
    }
    let expected_uavs: Vec<u32> = vec![0, 1];
    assert(expected_uavs@ =~= seq![0u32, 1u32]);
    if !same_opcodes(st.uavs.as_slice(), expected_uavs.as_slice()) {
        return Err(Unsupported::UavBindPoints);
    }
    let tg = match st.thread_group {
        None => {
            return Err(Unsupported::NoThreadGroup);
        },
        Some(tg) => tg,
    };
    if !same_opcodes(st.opcodes.as_slice(), &MED2D_OPCODES) {
        return Err(Unsupported::OpcodeSequence);
    }
    Ok(tg)
}

/// A translated predictor; the image size is built into the module.
#[derive(Debug)]
pub struct Med2dTranslatedKernel {
    pub spirv_words: Vec<u32>,
    /// The entry point's name (always `"main"`).
    pub entry_point: &'static str,
    pub local_size: (u32, u32, u32),
    /// The UAV bind points of the image and of the output.
    pub image_uav: u32,
    pub output_uav: u32,
}

/// The module of the predictor over a `width` x `height` image: for `i <
/// width * height`, with `x = i % width` and `y = i / width`, the output at
/// `i` is the MED prediction from `left`, `top` and `top-left`.
pub open spec fn med2d_words(thread_group: (u32, u32, u32), width: u32, height: u32) -> Seq<u32> {
    template_module_words(
        MED2D_TEMPLATE@,
        seq![thread_group.0, thread_group.1, thread_group.2, 0u32, 1u32, width, height],
        MED2D_TEMPLATE_BOUND,
    )
}

/// The outcome of translating the predictor's instructions.
pub open spec fn med2d_translation_ok(
    ins: Seq<ShexInstruction>,
    width: u32,
    height: u32,
    r: Result<Med2dTranslatedKernel, SpirvGenError>,
) -> bool {
    match med2d_shape(ins) {
        Ok(tg) => r matches Ok(k) && k.spirv_words@ == med2d_words(tg, width, height) && k.entry_point@ == "main"@
            && k.local_size == tg && k.image_uav == 0 && k.output_uav == 1,
        Err(e) => r == Err::<Med2dTranslatedKernel, SpirvGenError>(SpirvGenError::UnsupportedShader(e)),
    }
}

/// Translates the predictor's instructions for a `width` x `height` image.
pub fn translate_med_predictor_2d_instructions(instructions: &[ShexInstruction], width: u32, height: u32) -> (r: Result<
    Med2dTranslatedKernel,
    SpirvGenError,
>)
    ensures
        med2d_translation_ok(instructions@, width, height, r),
{
    let tg = match verify_med_2d_shape(instructions) {
        Ok(tg) => tg,
        Err(e) => {
            return Err(SpirvGenError::UnsupportedShader(e));
        },
    };
    let params: Vec<u32> = vec![tg.0, tg.1, tg.2, 0, 1, width, height];
    assert(params@ =~= seq![tg.0, tg.1, tg.2, 0u32, 1u32, width, height]);
    let spirv_words = template_module(&MED2D_TEMPLATE, params.as_slice(), MED2D_TEMPLATE_BOUND);
    Ok(Med2dTranslatedKernel { spirv_words, entry_point: "main", local_size: tg, image_uav: 0, output_uav: 1 })
}

/// Translates the DXBC predictor for a `width` x `height` image: the
/// instructions of [`shex_instructions`] go through
/// [`translate_med_predictor_2d_instructions`].
pub fn translate_med_predictor_2d_shader(bytes: &[u8], width: u32, height: u32) -> (r: Result<
    Med2dTranslatedKernel,
    SpirvGenError,
>)
    requires
        crate::container::dxbc_scan_safe(bytes@),
    ensures
        bytes@.len() < 32 ==> r == Err::<Med2dTranslatedKernel, SpirvGenError>(
            SpirvGenError::Translate(TranslateError::Parse(ParseProblem::NoContainer)),
        ),
        match crate::spirv_gen::shex_of(bytes@) {
            Err(e) => r matches Err(e2) && e2 == e,
            Ok(ins) => med2d_translation_ok(ins, width, height, r),
        },
{
    let instructions = match shex_instructions(bytes) {
        Ok(v) => v,
        Err(e) => {
            return Err(e);
        },
    };
    let r = translate_med_predictor_2d_instructions(instructions.as_slice(), width, height);
    assert(med2d_translation_ok(instructions@, width, height, r));
    r
}

} // verus!
