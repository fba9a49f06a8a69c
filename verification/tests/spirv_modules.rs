//! The modules this crate emits, word for word against the same modules
//! built with `rspirv::dr::Builder` call by call.

use directx_shader_translate::chain::emit_chain_spirv_for_kernel;
use directx_shader_translate::graphics_shaders::{fixed_module, FixedShape};
use directx_shader_translate::range_kernels::{build_range_decoder_kernel, build_range_decoder_parallel_kernel};
use directx_shader_translate::spirv_gen::{collect_loads, emit_spirv_for_kernel, BinaryOp, RegExpr};
use directx_shader_translate::spirv_module::template_module;
use directx_shader_translate::spirv_templates::{GEMM2X2_TEMPLATE, GEMM2X2_TEMPLATE_BOUND, MED2D_TEMPLATE, MED2D_TEMPLATE_BOUND};
use rspirv::binary::Assemble;
use rspirv::dr::{Builder, Operand as DrOperand};
use rspirv::spirv;
use std::collections::HashMap;

struct VsIds {
    var_in_pos: u32,
    var_in_color: u32,
    var_out_position: u32,
    var_out_color: u32,
}

fn oracle_compute(thread_group: (u32, u32, u32), uav_a: u32, uav_b: u32, uav_c: u32, op: BinaryOp, bounds_check: bool) -> Vec<u32> {
    let mut b = Builder::new();
    b.set_version(1, 0);
    b.capability(spirv::Capability::Shader);
    b.memory_model(spirv::AddressingModel::Logical, spirv::MemoryModel::GLSL450);

    let void_ty = b.type_void();
    let voidf_ty = b.type_function(void_ty, vec![]);
    let float_ty = b.type_float(32, None);
    let uint_ty = b.type_int(32, 0);
    let uvec3_ty = b.type_vector(uint_ty, 3);

    let rt_array_ty = b.type_runtime_array(float_ty);
    b.decorate(rt_array_ty, spirv::Decoration::ArrayStride, vec![DrOperand::LiteralBit32(4)]);
    let buf_struct_ty = b.type_struct(vec![rt_array_ty]);
    b.decorate(buf_struct_ty, spirv::Decoration::BufferBlock, vec![]);
    b.member_decorate(buf_struct_ty, 0, spirv::Decoration::Offset, vec![DrOperand::LiteralBit32(0)]);
    let buf_ptr_ty = b.type_pointer(None, spirv::StorageClass::Uniform, buf_struct_ty);

    let make_buffer_var = |b: &mut Builder, binding: u32| -> u32 {
        let var = b.variable(buf_ptr_ty, None, spirv::StorageClass::Uniform, None);
        b.decorate(var, spirv::Decoration::DescriptorSet, vec![DrOperand::LiteralBit32(0)]);
        b.decorate(var, spirv::Decoration::Binding, vec![DrOperand::LiteralBit32(binding)]);
        var
    };
    let var_a = make_buffer_var(&mut b, uav_a);
    let var_b = make_buffer_var(&mut b, uav_b);
    let var_c = make_buffer_var(&mut b, uav_c);

    let params_struct_ty = b.type_struct(vec![uint_ty]);
    b.decorate(params_struct_ty, spirv::Decoration::Block, vec![]);
    b.member_decorate(params_struct_ty, 0, spirv::Decoration::Offset, vec![DrOperand::LiteralBit32(0)]);
    let params_ptr_ty = b.type_pointer(None, spirv::StorageClass::PushConstant, params_struct_ty);
    let var_params = b.variable(params_ptr_ty, None, spirv::StorageClass::PushConstant, None);
    let uint_ptr_pushconstant_ty = b.type_pointer(None, spirv::StorageClass::PushConstant, uint_ty);

    let gid_ptr_ty = b.type_pointer(None, spirv::StorageClass::Input, uvec3_ty);
    let var_gid = b.variable(gid_ptr_ty, None, spirv::StorageClass::Input, None);
    b.decorate(var_gid, spirv::Decoration::BuiltIn, vec![DrOperand::BuiltIn(spirv::BuiltIn::GlobalInvocationId)]);

    let float_ptr_uniform_ty = b.type_pointer(None, spirv::StorageClass::Uniform, float_ty);
    let bool_ty = b.type_bool();

    let main_fn = b
        .begin_function(void_ty, None, spirv::FunctionControl::NONE, voidf_ty)
        .expect("OpFunction");
    b.begin_block(None).expect("OpLabel");

    let const_0 = b.constant_bit32(uint_ty, 0);

    let gid_vec = b.load(uvec3_ty, None, var_gid, None, vec![]).expect("OpLoad gid");
    let idx = b
        .composite_extract(uint_ty, None, gid_vec, vec![0])
        .expect("OpCompositeExtract .x");

    let emit_body = |b: &mut Builder| {
        let ac_a = b
            .access_chain(float_ptr_uniform_ty, None, var_a, vec![const_0, idx])
            .expect("OpAccessChain a");
        let val_a = b.load(float_ty, None, ac_a, None, vec![]).expect("OpLoad a[i]");

        let ac_b = b
            .access_chain(float_ptr_uniform_ty, None, var_b, vec![const_0, idx])
            .expect("OpAccessChain b");
        let val_b = b.load(float_ty, None, ac_b, None, vec![]).expect("OpLoad b[i]");

        let result = match op {
            BinaryOp::Add => b.f_add(float_ty, None, val_a, val_b).expect("OpFAdd"),
            BinaryOp::Mul => b.f_mul(float_ty, None, val_a, val_b).expect("OpFMul"),
            BinaryOp::Sub => b.f_sub(float_ty, None, val_a, val_b).expect("OpFSub"),
            BinaryOp::Div => b.f_div(float_ty, None, val_a, val_b).expect("OpFDiv"),
            BinaryOp::MulNeg => {
                let product = b.f_mul(float_ty, None, val_a, val_b).expect("OpFMul");
                b.f_negate(float_ty, None, product).expect("OpFNegate")
            }
        };

        let ac_c = b
            .access_chain(float_ptr_uniform_ty, None, var_c, vec![const_0, idx])
            .expect("OpAccessChain c");
        b.store(ac_c, result, None, vec![]).expect("OpStore c[i]");
    };

    if bounds_check {
        let n_ptr = b
            .access_chain(uint_ptr_pushconstant_ty, None, var_params, vec![const_0])
            .expect("OpAccessChain params.n");
        let n_val = b.load(uint_ty, None, n_ptr, None, vec![]).expect("OpLoad n");
        let cond = b
            .u_less_than(bool_ty, None, idx, n_val)
            .expect("OpULessThan idx < n");

        let then_label = b.id();
        let merge_label = b.id();
        b.selection_merge(merge_label, spirv::SelectionControl::NONE)
            .expect("OpSelectionMerge");
        b.branch_conditional(cond, then_label, merge_label, vec![])
            .expect("OpBranchConditional");

        b.begin_block(Some(then_label)).expect("OpLabel then");
        emit_body(&mut b);
        b.branch(merge_label).expect("OpBranch to merge");

        b.begin_block(Some(merge_label)).expect("OpLabel merge");
    } else {
        emit_body(&mut b);
    }

    b.ret().expect("OpReturn");
    b.end_function().expect("OpFunctionEnd");

    b.entry_point(spirv::ExecutionModel::GLCompute, main_fn, "main", vec![var_gid]);
    b.execution_mode(
        main_fn,
        spirv::ExecutionMode::LocalSize,
        [thread_group.0, thread_group.1, thread_group.2],
    );

    let module = b.module();
    module.assemble()
}

fn oracle_chain(
    thread_group: (u32, u32, u32),
    root: &RegExpr,
    write_uav: u32,
    bounds_check: bool,
) -> Vec<u32> {
    let mut b = Builder::new();
    b.set_version(1, 0);
    b.capability(spirv::Capability::Shader);
    b.memory_model(spirv::AddressingModel::Logical, spirv::MemoryModel::GLSL450);

    let void_ty = b.type_void();
    let voidf_ty = b.type_function(void_ty, vec![]);
    let float_ty = b.type_float(32, None);
    let uint_ty = b.type_int(32, 0);
    let uvec3_ty = b.type_vector(uint_ty, 3);

    let rt_array_ty = b.type_runtime_array(float_ty);
    b.decorate(rt_array_ty, spirv::Decoration::ArrayStride, vec![DrOperand::LiteralBit32(4)]);
    let buf_struct_ty = b.type_struct(vec![rt_array_ty]);
    b.decorate(buf_struct_ty, spirv::Decoration::BufferBlock, vec![]);
    b.member_decorate(buf_struct_ty, 0, spirv::Decoration::Offset, vec![DrOperand::LiteralBit32(0)]);
    let buf_ptr_ty = b.type_pointer(None, spirv::StorageClass::Uniform, buf_struct_ty);

    let mut buffer_vars: HashMap<u32, u32> = HashMap::new();
    let ensure_buffer_var = |b: &mut Builder, binding: u32, vars: &mut HashMap<u32, u32>| -> u32 {
        *vars.entry(binding).or_insert_with(|| {
            let var = b.variable(buf_ptr_ty, None, spirv::StorageClass::Uniform, None);
            b.decorate(var, spirv::Decoration::DescriptorSet, vec![DrOperand::LiteralBit32(0)]);
            b.decorate(var, spirv::Decoration::Binding, vec![DrOperand::LiteralBit32(binding)]);
            var
        })
    };

    let mut all_uavs = Vec::new();
    collect_loads(root, &mut all_uavs);
    all_uavs.push(write_uav);
    for uav in &all_uavs {
        ensure_buffer_var(&mut b, *uav, &mut buffer_vars);
    }

    let gid_ptr_ty = b.type_pointer(None, spirv::StorageClass::Input, uvec3_ty);
    let var_gid = b.variable(gid_ptr_ty, None, spirv::StorageClass::Input, None);
    b.decorate(var_gid, spirv::Decoration::BuiltIn, vec![DrOperand::BuiltIn(spirv::BuiltIn::GlobalInvocationId)]);

    let float_ptr_uniform_ty = b.type_pointer(None, spirv::StorageClass::Uniform, float_ty);

    let params_struct_ty = b.type_struct(vec![uint_ty]);
    b.decorate(params_struct_ty, spirv::Decoration::Block, vec![]);
    b.member_decorate(params_struct_ty, 0, spirv::Decoration::Offset, vec![DrOperand::LiteralBit32(0)]);
    let params_ptr_ty = b.type_pointer(None, spirv::StorageClass::PushConstant, params_struct_ty);
    let var_params = b.variable(params_ptr_ty, None, spirv::StorageClass::PushConstant, None);
    let uint_ptr_pushconstant_ty = b.type_pointer(None, spirv::StorageClass::PushConstant, uint_ty);
    let bool_ty = b.type_bool();

    let main_fn = b.begin_function(void_ty, None, spirv::FunctionControl::NONE, voidf_ty).expect("OpFunction");
    b.begin_block(None).expect("OpLabel");

    let const_0 = b.constant_bit32(uint_ty, 0);
    let gid_vec = b.load(uvec3_ty, None, var_gid, None, vec![]).expect("OpLoad gid");
    let idx = b.composite_extract(uint_ty, None, gid_vec, vec![0]).expect("OpCompositeExtract .x");

    fn emit_expr(
        b: &mut Builder,
        expr: &RegExpr,
        buffer_vars: &HashMap<u32, u32>,
        float_ptr_uniform_ty: u32,
        float_ty: u32,
        const_0: u32,
        idx: u32,
    ) -> u32 {
        match expr {
            RegExpr::Load(uav) => {
                let var = *buffer_vars.get(uav).expect("buffer var must exist for every referenced UAV");
                let ac = b.access_chain(float_ptr_uniform_ty, None, var, vec![const_0, idx]).expect("OpAccessChain");
                b.load(float_ty, None, ac, None, vec![]).expect("OpLoad")
            }
            RegExpr::BinOp(op, lhs, rhs) => {
                let l = emit_expr(b, lhs, buffer_vars, float_ptr_uniform_ty, float_ty, const_0, idx);
                let r = emit_expr(b, rhs, buffer_vars, float_ptr_uniform_ty, float_ty, const_0, idx);
                match op {
                    BinaryOp::Add => b.f_add(float_ty, None, l, r).expect("OpFAdd"),
                    BinaryOp::Mul => b.f_mul(float_ty, None, l, r).expect("OpFMul"),
                    BinaryOp::Sub => b.f_sub(float_ty, None, l, r).expect("OpFSub"),
                    BinaryOp::Div => b.f_div(float_ty, None, l, r).expect("OpFDiv"),
                    BinaryOp::MulNeg => {
                        let p = b.f_mul(float_ty, None, l, r).expect("OpFMul");
                        b.f_negate(float_ty, None, p).expect("OpFNegate")
                    }
                }
            }
        }
    }

    let emit_body = |b: &mut Builder| {
        let result = emit_expr(b, root, &buffer_vars, float_ptr_uniform_ty, float_ty, const_0, idx);
        let write_var = *buffer_vars.get(&write_uav).expect("write buffer var must exist");
        let ac_out =
            b.access_chain(float_ptr_uniform_ty, None, write_var, vec![const_0, idx]).expect("OpAccessChain out");
        b.store(ac_out, result, None, vec![]).expect("OpStore out");
    };

    if bounds_check {
        let n_ptr = b
            .access_chain(uint_ptr_pushconstant_ty, None, var_params, vec![const_0])
            .expect("OpAccessChain params.n");
        let n_val = b.load(uint_ty, None, n_ptr, None, vec![]).expect("OpLoad n");
        let cond = b.u_less_than(bool_ty, None, idx, n_val).expect("OpULessThan idx < n");

        let then_label = b.id();
        let merge_label = b.id();
        b.selection_merge(merge_label, spirv::SelectionControl::NONE)
            .expect("OpSelectionMerge");
        b.branch_conditional(cond, then_label, merge_label, vec![])
            .expect("OpBranchConditional");

        b.begin_block(Some(then_label)).expect("OpLabel then");
        emit_body(&mut b);
        b.branch(merge_label).expect("OpBranch to merge");

        b.begin_block(Some(merge_label)).expect("OpLabel merge");
    } else {
        emit_body(&mut b);
    }

    b.ret().expect("OpReturn");
    b.end_function().expect("OpFunctionEnd");

    b.entry_point(spirv::ExecutionModel::GLCompute, main_fn, "main", vec![var_gid]);
    b.execution_mode(
        main_fn,
        spirv::ExecutionMode::LocalSize,
        [thread_group.0, thread_group.1, thread_group.2],
    );

    let module = b.module();
    module.assemble()
}

fn oracle_vertex() -> Vec<u32> {
    let mut b = Builder::new();
    b.set_version(1, 0);
    b.capability(spirv::Capability::Shader);
    b.memory_model(spirv::AddressingModel::Logical, spirv::MemoryModel::GLSL450);

    let void_ty = b.type_void();
    let voidf_ty = b.type_function(void_ty, vec![]);
    let float_ty = b.type_float(32, None);
    let vec3_ty = b.type_vector(float_ty, 3);
    let vec4_ty = b.type_vector(float_ty, 4);

    let ids = {
        let in_pos_ptr_ty = b.type_pointer(None, spirv::StorageClass::Input, vec3_ty);
        let var_in_pos = b.variable(in_pos_ptr_ty, None, spirv::StorageClass::Input, None);
        b.decorate(var_in_pos, spirv::Decoration::Location, vec![DrOperand::LiteralBit32(0)]);

        let in_color_ptr_ty = b.type_pointer(None, spirv::StorageClass::Input, vec4_ty);
        let var_in_color = b.variable(in_color_ptr_ty, None, spirv::StorageClass::Input, None);
        b.decorate(var_in_color, spirv::Decoration::Location, vec![DrOperand::LiteralBit32(1)]);

        let out_position_ptr_ty = b.type_pointer(None, spirv::StorageClass::Output, vec4_ty);
        let var_out_position = b.variable(out_position_ptr_ty, None, spirv::StorageClass::Output, None);
        b.decorate(var_out_position, spirv::Decoration::BuiltIn, vec![DrOperand::BuiltIn(spirv::BuiltIn::Position)]);

        let out_color_ptr_ty = b.type_pointer(None, spirv::StorageClass::Output, vec4_ty);
        let var_out_color = b.variable(out_color_ptr_ty, None, spirv::StorageClass::Output, None);
        b.decorate(var_out_color, spirv::Decoration::Location, vec![DrOperand::LiteralBit32(0)]);

        VsIds { var_in_pos, var_in_color, var_out_position, var_out_color }
    };

    let main_fn = b.begin_function(void_ty, None, spirv::FunctionControl::NONE, voidf_ty).expect("OpFunction");
    b.begin_block(None).expect("OpLabel");

    let pos_in = b.load(vec3_ty, None, ids.var_in_pos, None, vec![]).expect("OpLoad pos");
    let px = b.composite_extract(float_ty, None, pos_in, vec![0]).expect("extract x");
    let py = b.composite_extract(float_ty, None, pos_in, vec![1]).expect("extract y");
    let pz = b.composite_extract(float_ty, None, pos_in, vec![2]).expect("extract z");
    let one = b.constant_bit32(float_ty, 1.0f32.to_bits());
    let pos_out = b.composite_construct(vec4_ty, None, vec![px, py, pz, one]).expect("construct SV_POSITION");
    b.store(ids.var_out_position, pos_out, None, vec![]).expect("OpStore SV_POSITION");

    let color_in = b.load(vec4_ty, None, ids.var_in_color, None, vec![]).expect("OpLoad color");
    b.store(ids.var_out_color, color_in, None, vec![]).expect("OpStore COLOR");

    b.ret().expect("OpReturn");
    b.end_function().expect("OpFunctionEnd");

    b.entry_point(
        spirv::ExecutionModel::Vertex,
        main_fn,
        "main",
        vec![ids.var_in_pos, ids.var_in_color, ids.var_out_position, ids.var_out_color],
    );

    let module = b.module();
    module.assemble()
}

fn oracle_pixel() -> Vec<u32> {
    let mut b = Builder::new();
    b.set_version(1, 0);
    b.capability(spirv::Capability::Shader);
    b.memory_model(spirv::AddressingModel::Logical, spirv::MemoryModel::GLSL450);

    let void_ty = b.type_void();
    let voidf_ty = b.type_function(void_ty, vec![]);
    let float_ty = b.type_float(32, None);
    let vec4_ty = b.type_vector(float_ty, 4);

    let in_color_ptr_ty = b.type_pointer(None, spirv::StorageClass::Input, vec4_ty);
    let var_in_color = b.variable(in_color_ptr_ty, None, spirv::StorageClass::Input, None);
    b.decorate(var_in_color, spirv::Decoration::Location, vec![DrOperand::LiteralBit32(0)]);

    let out_color_ptr_ty = b.type_pointer(None, spirv::StorageClass::Output, vec4_ty);
    let var_out_color = b.variable(out_color_ptr_ty, None, spirv::StorageClass::Output, None);
    b.decorate(var_out_color, spirv::Decoration::Location, vec![DrOperand::LiteralBit32(0)]);

    let main_fn = b.begin_function(void_ty, None, spirv::FunctionControl::NONE, voidf_ty).expect("OpFunction");
    b.begin_block(None).expect("OpLabel");

    let color = b.load(vec4_ty, None, var_in_color, None, vec![]).expect("OpLoad color");
    b.store(var_out_color, color, None, vec![]).expect("OpStore SV_TARGET");

    b.ret().expect("OpReturn");
    b.end_function().expect("OpFunctionEnd");

    b.entry_point(spirv::ExecutionModel::Fragment, main_fn, "main", vec![var_in_color, var_out_color]);
    b.execution_mode(main_fn, spirv::ExecutionMode::OriginUpperLeft, []);

    let module = b.module();
    module.assemble()
}

fn oracle_sprite_vertex() -> Vec<u32> {
    let mut b = Builder::new();
    b.set_version(1, 0);
    b.capability(spirv::Capability::Shader);
    b.memory_model(spirv::AddressingModel::Logical, spirv::MemoryModel::GLSL450);

    let void_ty = b.type_void();
    let voidf_ty = b.type_function(void_ty, vec![]);
    let float_ty = b.type_float(32, None);
    let vec2_ty = b.type_vector(float_ty, 2);
    let vec3_ty = b.type_vector(float_ty, 3);
    let vec4_ty = b.type_vector(float_ty, 4);

    let in_pos_ptr_ty = b.type_pointer(None, spirv::StorageClass::Input, vec3_ty);
    let var_in_pos = b.variable(in_pos_ptr_ty, None, spirv::StorageClass::Input, None);
    b.decorate(var_in_pos, spirv::Decoration::Location, vec![DrOperand::LiteralBit32(0)]);

    let in_uv_ptr_ty = b.type_pointer(None, spirv::StorageClass::Input, vec2_ty);
    let var_in_uv = b.variable(in_uv_ptr_ty, None, spirv::StorageClass::Input, None);
    b.decorate(var_in_uv, spirv::Decoration::Location, vec![DrOperand::LiteralBit32(1)]);

    let out_position_ptr_ty = b.type_pointer(None, spirv::StorageClass::Output, vec4_ty);
    let var_out_position = b.variable(out_position_ptr_ty, None, spirv::StorageClass::Output, None);
    b.decorate(var_out_position, spirv::Decoration::BuiltIn, vec![DrOperand::BuiltIn(spirv::BuiltIn::Position)]);

    let out_uv_ptr_ty = b.type_pointer(None, spirv::StorageClass::Output, vec2_ty);
    let var_out_uv = b.variable(out_uv_ptr_ty, None, spirv::StorageClass::Output, None);
    b.decorate(var_out_uv, spirv::Decoration::Location, vec![DrOperand::LiteralBit32(0)]);

    let main_fn = b.begin_function(void_ty, None, spirv::FunctionControl::NONE, voidf_ty).expect("OpFunction");
    b.begin_block(None).expect("OpLabel");

    let pos_in = b.load(vec3_ty, None, var_in_pos, None, vec![]).expect("OpLoad pos");
    let px = b.composite_extract(float_ty, None, pos_in, vec![0]).expect("extract x");
    let py = b.composite_extract(float_ty, None, pos_in, vec![1]).expect("extract y");
    let pz = b.composite_extract(float_ty, None, pos_in, vec![2]).expect("extract z");
    let one = b.constant_bit32(float_ty, 1.0f32.to_bits());
    let pos_out = b.composite_construct(vec4_ty, None, vec![px, py, pz, one]).expect("construct SV_POSITION");
    b.store(var_out_position, pos_out, None, vec![]).expect("OpStore SV_POSITION");

    let uv_in = b.load(vec2_ty, None, var_in_uv, None, vec![]).expect("OpLoad uv");
    b.store(var_out_uv, uv_in, None, vec![]).expect("OpStore TEXCOORD");

    b.ret().expect("OpReturn");
    b.end_function().expect("OpFunctionEnd");

    b.entry_point(
        spirv::ExecutionModel::Vertex,
        main_fn,
        "main",
        vec![var_in_pos, var_in_uv, var_out_position, var_out_uv],
    );

    let module = b.module();
    module.assemble()
}

fn oracle_sprite_pixel() -> Vec<u32> {
    let mut b = Builder::new();
    b.set_version(1, 0);
    b.capability(spirv::Capability::Shader);
    b.memory_model(spirv::AddressingModel::Logical, spirv::MemoryModel::GLSL450);

    let void_ty = b.type_void();
    let voidf_ty = b.type_function(void_ty, vec![]);
    let float_ty = b.type_float(32, None);
    let vec2_ty = b.type_vector(float_ty, 2);
    let vec4_ty = b.type_vector(float_ty, 4);

    let in_uv_ptr_ty = b.type_pointer(None, spirv::StorageClass::Input, vec2_ty);
    let var_in_uv = b.variable(in_uv_ptr_ty, None, spirv::StorageClass::Input, None);
    b.decorate(var_in_uv, spirv::Decoration::Location, vec![DrOperand::LiteralBit32(0)]);

    let out_color_ptr_ty = b.type_pointer(None, spirv::StorageClass::Output, vec4_ty);
    let var_out_color = b.variable(out_color_ptr_ty, None, spirv::StorageClass::Output, None);
    b.decorate(var_out_color, spirv::Decoration::Location, vec![DrOperand::LiteralBit32(0)]);

    let image_ty = b.type_image(
        float_ty,
        spirv::Dim::Dim2D,
        0,
        0,
        0,
        1,
        spirv::ImageFormat::Unknown,
        None,
    );
    let sampled_image_ty = b.type_sampled_image(image_ty);
    let sampler_ptr_ty = b.type_pointer(None, spirv::StorageClass::UniformConstant, sampled_image_ty);
    let var_sampler = b.variable(sampler_ptr_ty, None, spirv::StorageClass::UniformConstant, None);
    b.decorate(var_sampler, spirv::Decoration::DescriptorSet, vec![DrOperand::LiteralBit32(0)]);
    b.decorate(var_sampler, spirv::Decoration::Binding, vec![DrOperand::LiteralBit32(0)]);

    let main_fn = b.begin_function(void_ty, None, spirv::FunctionControl::NONE, voidf_ty).expect("OpFunction");
    b.begin_block(None).expect("OpLabel");

    let uv = b.load(vec2_ty, None, var_in_uv, None, vec![]).expect("OpLoad uv");
    let sampled_image = b.load(sampled_image_ty, None, var_sampler, None, vec![]).expect("OpLoad sampledImage");
    let color = b
        .image_sample_implicit_lod(vec4_ty, None, sampled_image, uv, None, vec![])
        .expect("OpImageSampleImplicitLod");
    b.store(var_out_color, color, None, vec![]).expect("OpStore SV_TARGET");

    b.ret().expect("OpReturn");
    b.end_function().expect("OpFunctionEnd");

    b.entry_point(spirv::ExecutionModel::Fragment, main_fn, "main", vec![var_in_uv, var_out_color]);
    b.execution_mode(main_fn, spirv::ExecutionMode::OriginUpperLeft, []);

    let module = b.module();
    module.assemble()
}

fn oracle_gemm2x2(uav_a: u32, uav_b: u32, uav_c: u32) -> Vec<u32> {
    let mut b = Builder::new();
    b.set_version(1, 0);
    b.capability(spirv::Capability::Shader);
    b.memory_model(spirv::AddressingModel::Logical, spirv::MemoryModel::GLSL450);

    let void_ty = b.type_void();
    let voidf_ty = b.type_function(void_ty, vec![]);
    let float_ty = b.type_float(32, None);
    let uint_ty = b.type_int(32, 0);
    let uvec3_ty = b.type_vector(uint_ty, 3);

    let rt_array_ty = b.type_runtime_array(float_ty);
    b.decorate(rt_array_ty, spirv::Decoration::ArrayStride, vec![DrOperand::LiteralBit32(4)]);
    let buf_struct_ty = b.type_struct(vec![rt_array_ty]);
    b.decorate(buf_struct_ty, spirv::Decoration::BufferBlock, vec![]);
    b.member_decorate(buf_struct_ty, 0, spirv::Decoration::Offset, vec![DrOperand::LiteralBit32(0)]);
    let buf_ptr_ty = b.type_pointer(None, spirv::StorageClass::Uniform, buf_struct_ty);

    let make_buffer_var = |b: &mut Builder, binding: u32| -> u32 {
        let var = b.variable(buf_ptr_ty, None, spirv::StorageClass::Uniform, None);
        b.decorate(var, spirv::Decoration::DescriptorSet, vec![DrOperand::LiteralBit32(0)]);
        b.decorate(var, spirv::Decoration::Binding, vec![DrOperand::LiteralBit32(binding)]);
        var
    };
    let var_a = make_buffer_var(&mut b, uav_a);
    let var_b = make_buffer_var(&mut b, uav_b);
    let var_c = make_buffer_var(&mut b, uav_c);

    let params_struct_ty = b.type_struct(vec![uint_ty]);
    b.decorate(params_struct_ty, spirv::Decoration::Block, vec![]);
    b.member_decorate(params_struct_ty, 0, spirv::Decoration::Offset, vec![DrOperand::LiteralBit32(0)]);
    let params_ptr_ty = b.type_pointer(None, spirv::StorageClass::PushConstant, params_struct_ty);
    let _var_params = b.variable(params_ptr_ty, None, spirv::StorageClass::PushConstant, None);

    let gid_ptr_ty = b.type_pointer(None, spirv::StorageClass::Input, uvec3_ty);
    let var_gid = b.variable(gid_ptr_ty, None, spirv::StorageClass::Input, None);
    b.decorate(var_gid, spirv::Decoration::BuiltIn, vec![DrOperand::BuiltIn(spirv::BuiltIn::GlobalInvocationId)]);

    let float_ptr_uniform_ty = b.type_pointer(None, spirv::StorageClass::Uniform, float_ty);

    let main_fn = b
        .begin_function(void_ty, None, spirv::FunctionControl::NONE, voidf_ty)
        .expect("OpFunction");
    b.begin_block(None).expect("OpLabel");

    let const_0 = b.constant_bit32(uint_ty, 0);
    let const_1 = b.constant_bit32(uint_ty, 1);
    let const_2 = b.constant_bit32(uint_ty, 2);

    let gid_vec = b.load(uvec3_ty, None, var_gid, None, vec![]).expect("OpLoad gid");
    let j = b.composite_extract(uint_ty, None, gid_vec, vec![0]).expect("j = gid.x");
    let i = b.composite_extract(uint_ty, None, gid_vec, vec![1]).expect("i = gid.y");

    let i2 = b.i_mul(uint_ty, None, i, const_2).expect("i*2");
    let idx_a1 = b.i_add(uint_ty, None, i2, const_1).expect("i*2+1");

    let load_f32 = |b: &mut Builder, var: u32, idx: u32| -> u32 {
        let ac = b.access_chain(float_ptr_uniform_ty, None, var, vec![const_0, idx]).expect("OpAccessChain");
        b.load(float_ty, None, ac, None, vec![]).expect("OpLoad")
    };

    let a0 = load_f32(&mut b, var_a, i2);
    let a1 = load_f32(&mut b, var_a, idx_a1);

    let idx_b1 = b.i_add(uint_ty, None, const_2, j).expect("2+j");
    let b0 = load_f32(&mut b, var_b, j);
    let b1 = load_f32(&mut b, var_b, idx_b1);

    let t0 = b.f_mul(float_ty, None, a0, b0).expect("a0*b0");
    let t1 = b.f_mul(float_ty, None, a1, b1).expect("a1*b1");
    let result = b.f_add(float_ty, None, t0, t1).expect("a0*b0 + a1*b1");

    let idx_c = b.i_add(uint_ty, None, i2, j).expect("i*2+j");
    let ac_c = b
        .access_chain(float_ptr_uniform_ty, None, var_c, vec![const_0, idx_c])
        .expect("OpAccessChain c[idx_c]");
    b.store(ac_c, result, None, vec![]).expect("OpStore c[idx_c]");

    b.ret().expect("OpReturn");
    b.end_function().expect("OpFunctionEnd");

    b.entry_point(spirv::ExecutionModel::GLCompute, main_fn, "main", vec![var_gid]);
    b.execution_mode(main_fn, spirv::ExecutionMode::LocalSize, [2, 2, 1]);

    let module = b.module();
    module.assemble()
}

fn oracle_med2d(thread_group: (u32, u32, u32), image_uav: u32, output_uav: u32, width: u32, height: u32) -> Vec<u32> {
    let mut b = Builder::new();
    b.set_version(1, 0);
    b.capability(spirv::Capability::Shader);
    b.memory_model(spirv::AddressingModel::Logical, spirv::MemoryModel::GLSL450);

    let void_ty = b.type_void();
    let voidf_ty = b.type_function(void_ty, vec![]);
    let float_ty = b.type_float(32, None);
    let uint_ty = b.type_int(32, 0);
    let bool_ty = b.type_bool();
    let uvec3_ty = b.type_vector(uint_ty, 3);

    let rt_array_ty = b.type_runtime_array(float_ty);
    b.decorate(rt_array_ty, spirv::Decoration::ArrayStride, vec![DrOperand::LiteralBit32(4)]);
    let buf_struct_ty = b.type_struct(vec![rt_array_ty]);
    b.decorate(buf_struct_ty, spirv::Decoration::BufferBlock, vec![]);
    b.member_decorate(buf_struct_ty, 0, spirv::Decoration::Offset, vec![DrOperand::LiteralBit32(0)]);
    let buf_ptr_ty = b.type_pointer(None, spirv::StorageClass::Uniform, buf_struct_ty);
    let float_ptr_uniform_ty = b.type_pointer(None, spirv::StorageClass::Uniform, float_ty);

    let make_buffer_var = |b: &mut Builder, binding: u32| -> u32 {
        let var = b.variable(buf_ptr_ty, None, spirv::StorageClass::Uniform, None);
        b.decorate(var, spirv::Decoration::DescriptorSet, vec![DrOperand::LiteralBit32(0)]);
        b.decorate(var, spirv::Decoration::Binding, vec![DrOperand::LiteralBit32(binding)]);
        var
    };
    let var_image = make_buffer_var(&mut b, image_uav);
    let var_output = make_buffer_var(&mut b, output_uav);

    let gid_ptr_ty = b.type_pointer(None, spirv::StorageClass::Input, uvec3_ty);
    let var_gid = b.variable(gid_ptr_ty, None, spirv::StorageClass::Input, None);
    b.decorate(var_gid, spirv::Decoration::BuiltIn, vec![DrOperand::BuiltIn(spirv::BuiltIn::GlobalInvocationId)]);

    let main_fn = b.begin_function(void_ty, None, spirv::FunctionControl::NONE, voidf_ty).expect("OpFunction");
    b.begin_block(None).expect("OpLabel entry");

    let const_0 = b.constant_bit32(uint_ty, 0);
    let const_1u = b.constant_bit32(uint_ty, 1);
    let width = b.constant_bit32(uint_ty, width);
    let height = b.constant_bit32(uint_ty, height);

    let gid_vec = b.load(uvec3_ty, None, var_gid, None, vec![]).expect("OpLoad gid");
    let i = b.composite_extract(uint_ty, None, gid_vec, vec![0]).expect("OpCompositeExtract .x");

    let total = b.i_mul(uint_ty, None, width, height).expect("width*height");
    let in_bounds = b.u_less_than(bool_ty, None, i, total).expect("i < width*height");

    let then_label = b.id();
    let merge_label = b.id();
    b.selection_merge(merge_label, spirv::SelectionControl::NONE).expect("OpSelectionMerge");
    b.branch_conditional(in_bounds, then_label, merge_label, vec![]).expect("OpBranchConditional");

    b.begin_block(Some(then_label)).expect("OpLabel then");

    let x = b.u_mod(uint_ty, None, i, width).expect("i % width");
    let y = b.u_div(uint_ty, None, i, width).expect("i / width");

    let load_image_at = |b: &mut Builder, idx: u32| -> u32 {
        let ac = b.access_chain(float_ptr_uniform_ty, None, var_image, vec![const_0, idx]).expect("OpAccessChain Image[idx]");
        b.load(float_ty, None, ac, None, vec![]).expect("OpLoad Image[idx]")
    };
    let center = load_image_at(&mut b, i);

    let x_gt_0 = {
        let zero_u = b.constant_bit32(uint_ty, 0);
        b.u_greater_than(bool_ty, None, x, zero_u).expect("x > 0")
    };
    let x_minus_1 = b.i_sub(uint_ty, None, x, const_1u).expect("x-1");
    let y_mul_w = b.i_mul(uint_ty, None, y, width).expect("y*width");
    let idx_left = b.i_add(uint_ty, None, y_mul_w, x_minus_1).expect("y*width+(x-1)");
    let left_loaded = load_image_at(&mut b, idx_left);
    let left = b.select(float_ty, None, x_gt_0, left_loaded, center).expect("OpSelect left");

    let y_gt_0 = {
        let zero_u = b.constant_bit32(uint_ty, 0);
        b.u_greater_than(bool_ty, None, y, zero_u).expect("y > 0")
    };
    let y_minus_1 = b.i_sub(uint_ty, None, y, const_1u).expect("y-1");
    let ym1_mul_w = b.i_mul(uint_ty, None, y_minus_1, width).expect("(y-1)*width");
    let idx_top = b.i_add(uint_ty, None, ym1_mul_w, x).expect("(y-1)*width+x");
    let top_loaded = load_image_at(&mut b, idx_top);
    let top = b.select(float_ty, None, y_gt_0, top_loaded, center).expect("OpSelect top");

    let both_gt_0 = b.logical_and(bool_ty, None, x_gt_0, y_gt_0).expect("x>0 && y>0");
    let idx_topleft = b.i_add(uint_ty, None, ym1_mul_w, x_minus_1).expect("(y-1)*width+(x-1)");
    let topleft_loaded = load_image_at(&mut b, idx_topleft);
    let topleft = b.select(float_ty, None, both_gt_0, topleft_loaded, center).expect("OpSelect topleft");

    let glsl_ext = b.ext_inst_import("GLSL.std.450");
    const GLSL_STD_450_F_MIN: u32 = 37;
    const GLSL_STD_450_F_MAX: u32 = 40;
    let max_lt = b
        .ext_inst(float_ty, None, glsl_ext, GLSL_STD_450_F_MAX, vec![DrOperand::IdRef(left), DrOperand::IdRef(top)])
        .expect("FMax(left,top)");
    let min_lt = b
        .ext_inst(float_ty, None, glsl_ext, GLSL_STD_450_F_MIN, vec![DrOperand::IdRef(left), DrOperand::IdRef(top)])
        .expect("FMin(left,top)");
    let cond1 = b.f_ord_greater_than_equal(bool_ty, None, topleft, max_lt).expect("topleft >= max(left,top)");
    let cond2 = b.f_ord_less_than_equal(bool_ty, None, topleft, min_lt).expect("topleft <= min(left,top)");
    let sum_lt = b.f_add(float_ty, None, left, top).expect("left+top");
    let else_val = b.f_sub(float_ty, None, sum_lt, topleft).expect("left+top-topleft");
    let inner = b.select(float_ty, None, cond2, max_lt, else_val).expect("OpSelect inner");
    let pred = b.select(float_ty, None, cond1, min_lt, inner).expect("OpSelect outer (pred)");

    let ac_out = b.access_chain(float_ptr_uniform_ty, None, var_output, vec![const_0, i]).expect("OpAccessChain Output[i]");
    b.store(ac_out, pred, None, vec![]).expect("OpStore Output[i]");

    b.branch(merge_label).expect("branch to merge");
    b.begin_block(Some(merge_label)).expect("OpLabel merge");
    b.ret().expect("OpReturn");
    b.end_function().expect("OpFunctionEnd");

    b.entry_point(spirv::ExecutionModel::GLCompute, main_fn, "main", vec![var_gid]);
    b.execution_mode(main_fn, spirv::ExecutionMode::LocalSize, [thread_group.0, thread_group.1, thread_group.2]);

    let module = b.module();
    module.assemble()
}

fn oracle_range_decoder(initial_state: u32, num_symbols: u32) -> Vec<u32> {
    let mut b = Builder::new();
    b.set_version(1, 0);
    b.capability(spirv::Capability::Shader);
    b.memory_model(spirv::AddressingModel::Logical, spirv::MemoryModel::GLSL450);

    let void_ty = b.type_void();
    let voidf_ty = b.type_function(void_ty, vec![]);
    let uint_ty = b.type_int(32, 0);
    let bool_ty = b.type_bool();

    let rt_array_ty = b.type_runtime_array(uint_ty);
    b.decorate(rt_array_ty, spirv::Decoration::ArrayStride, vec![DrOperand::LiteralBit32(4)]);
    let buf_struct_ty = b.type_struct(vec![rt_array_ty]);
    b.decorate(buf_struct_ty, spirv::Decoration::BufferBlock, vec![]);
    b.member_decorate(buf_struct_ty, 0, spirv::Decoration::Offset, vec![DrOperand::LiteralBit32(0)]);
    let buf_ptr_ty = b.type_pointer(None, spirv::StorageClass::Uniform, buf_struct_ty);
    let uint_ptr_uniform_ty = b.type_pointer(None, spirv::StorageClass::Uniform, uint_ty);

    let make_buffer_var = |b: &mut Builder, binding: u32| -> u32 {
        let var = b.variable(buf_ptr_ty, None, spirv::StorageClass::Uniform, None);
        b.decorate(var, spirv::Decoration::DescriptorSet, vec![DrOperand::LiteralBit32(0)]);
        b.decorate(var, spirv::Decoration::Binding, vec![DrOperand::LiteralBit32(binding)]);
        var
    };
    let var_bytestream = make_buffer_var(&mut b, 0);
    let var_one_state = make_buffer_var(&mut b, 1);
    let var_zero_state = make_buffer_var(&mut b, 2);
    let var_output = make_buffer_var(&mut b, 3);

    let uint_ptr_function_ty = b.type_pointer(None, spirv::StorageClass::Function, uint_ty);

    let main_fn = b.begin_function(void_ty, None, spirv::FunctionControl::NONE, voidf_ty).expect("OpFunction");
    b.begin_block(None).expect("OpLabel entry");

    let const_0 = b.constant_bit32(uint_ty, 0);
    let const_1 = b.constant_bit32(uint_ty, 1);
    let const_2 = b.constant_bit32(uint_ty, 2);
    let const_256 = b.constant_bit32(uint_ty, 256);
    let const_0xff00 = b.constant_bit32(uint_ty, 0xFF00);

    let var_i = b.variable(uint_ptr_function_ty, None, spirv::StorageClass::Function, None);
    let var_state = b.variable(uint_ptr_function_ty, None, spirv::StorageClass::Function, None);
    let var_low = b.variable(uint_ptr_function_ty, None, spirv::StorageClass::Function, None);
    let var_range = b.variable(uint_ptr_function_ty, None, spirv::StorageClass::Function, None);
    let var_pos = b.variable(uint_ptr_function_ty, None, spirv::StorageClass::Function, None);

    let ac_b0 = b.access_chain(uint_ptr_uniform_ty, None, var_bytestream, vec![const_0, const_0]).expect("byte[0]");
    let b0 = b.load(uint_ty, None, ac_b0, None, vec![]).expect("load byte[0]");
    let ac_b1 = b.access_chain(uint_ptr_uniform_ty, None, var_bytestream, vec![const_0, const_1]).expect("byte[1]");
    let b1 = b.load(uint_ty, None, ac_b1, None, vec![]).expect("load byte[1]");
    let const_8 = b.constant_bit32(uint_ty, 8);
    let b0_shifted = b.shift_left_logical(uint_ty, None, b0, const_8).expect("byte[0]<<8");
    let low_init = b.bitwise_or(uint_ty, None, b0_shifted, b1).expect("(byte[0]<<8)|byte[1]");
    b.store(var_low, low_init, None, vec![]).expect("store low init");
    b.store(var_range, const_0xff00, None, vec![]).expect("store range init");
    b.store(var_pos, const_2, None, vec![]).expect("store pos init");
    b.store(var_i, const_0, None, vec![]).expect("store i init");
    let const_initial_state = b.constant_bit32(uint_ty, initial_state);
    b.store(var_state, const_initial_state, None, vec![]).expect("store state init");

    let loop_header = b.id();
    let loop_cond = b.id();
    let loop_body = b.id();
    let loop_continue = b.id();
    let loop_merge = b.id();
    b.branch(loop_header).expect("branch to loop header");

    b.begin_block(Some(loop_header)).expect("OpLabel loop_header");
    b.loop_merge(loop_merge, loop_continue, spirv::LoopControl::NONE, vec![]).expect("OpLoopMerge");
    b.branch(loop_cond).expect("branch to loop cond");

    b.begin_block(Some(loop_cond)).expect("OpLabel loop_cond");
    let i_val = b.load(uint_ty, None, var_i, None, vec![]).expect("load i");
    let const_num_symbols = b.constant_bit32(uint_ty, num_symbols);
    let cond = b.u_less_than(bool_ty, None, i_val, const_num_symbols).expect("i < num_symbols");
    b.branch_conditional(cond, loop_body, loop_merge, vec![]).expect("OpBranchConditional loop");

    b.begin_block(Some(loop_body)).expect("OpLabel loop_body");
    let state_val = b.load(uint_ty, None, var_state, None, vec![]).expect("load state");
    let range_val = b.load(uint_ty, None, var_range, None, vec![]).expect("load range");
    let low_val = b.load(uint_ty, None, var_low, None, vec![]).expect("load low");
    let range_times_state = b.i_mul(uint_ty, None, range_val, state_val).expect("range*state");
    let rangeoff = b.u_div(uint_ty, None, range_times_state, const_256).expect("(range*state)/256");
    let range_after = b.i_sub(uint_ty, None, range_val, rangeoff).expect("range-rangeoff");
    let bit_is_zero = b.u_less_than(bool_ty, None, low_val, range_after).expect("low < range_after");

    let branch_zero = b.id();
    let branch_one = b.id();
    let branch_merge = b.id();
    b.selection_merge(branch_merge, spirv::SelectionControl::NONE).expect("OpSelectionMerge bit");
    b.branch_conditional(bit_is_zero, branch_zero, branch_one, vec![]).expect("OpBranchConditional bit");

    b.begin_block(Some(branch_zero)).expect("OpLabel branch_zero");
    b.store(var_range, range_after, None, vec![]).expect("store range (bit=0)");
    let ac_zero_next = b
        .access_chain(uint_ptr_uniform_ty, None, var_zero_state, vec![const_0, state_val])
        .expect("zero_state[state]");
    let zero_next_state = b.load(uint_ty, None, ac_zero_next, None, vec![]).expect("load zero_state[state]");
    b.store(var_state, zero_next_state, None, vec![]).expect("store state (bit=0)");
    let ac_out0 = b.access_chain(uint_ptr_uniform_ty, None, var_output, vec![const_0, i_val]).expect("output[i] (bit=0)");
    b.store(ac_out0, const_0, None, vec![]).expect("store output[i]=0");
    b.branch(branch_merge).expect("branch_zero -> branch_merge");

    b.begin_block(Some(branch_one)).expect("OpLabel branch_one");
    let low_after = b.i_sub(uint_ty, None, low_val, range_after).expect("low-range_after");
    b.store(var_low, low_after, None, vec![]).expect("store low (bit=1)");
    b.store(var_range, rangeoff, None, vec![]).expect("store range (bit=1)");
    let ac_one_next = b
        .access_chain(uint_ptr_uniform_ty, None, var_one_state, vec![const_0, state_val])
        .expect("one_state[state]");
    let one_next_state = b.load(uint_ty, None, ac_one_next, None, vec![]).expect("load one_state[state]");
    b.store(var_state, one_next_state, None, vec![]).expect("store state (bit=1)");
    let ac_out1 = b.access_chain(uint_ptr_uniform_ty, None, var_output, vec![const_0, i_val]).expect("output[i] (bit=1)");
    b.store(ac_out1, const_1, None, vec![]).expect("store output[i]=1");
    b.branch(branch_merge).expect("branch_one -> branch_merge");

    b.begin_block(Some(branch_merge)).expect("OpLabel branch_merge");
    let range_val2 = b.load(uint_ty, None, var_range, None, vec![]).expect("load range (refill)");
    let need_refill = b.u_less_than(bool_ty, None, range_val2, const_256).expect("range < 256");
    let refill_then = b.id();
    let refill_merge = b.id();
    b.selection_merge(refill_merge, spirv::SelectionControl::NONE).expect("OpSelectionMerge refill");
    b.branch_conditional(need_refill, refill_then, refill_merge, vec![]).expect("OpBranchConditional refill");

    b.begin_block(Some(refill_then)).expect("OpLabel refill_then");
    let range_val3 = b.i_mul(uint_ty, None, range_val2, const_256).expect("range*256");
    b.store(var_range, range_val3, None, vec![]).expect("store range (refill)");
    let low_val2 = b.load(uint_ty, None, var_low, None, vec![]).expect("load low (refill)");
    let low_val3 = b.i_mul(uint_ty, None, low_val2, const_256).expect("low*256");
    let pos_val = b.load(uint_ty, None, var_pos, None, vec![]).expect("load pos");
    let ac_next_byte =
        b.access_chain(uint_ptr_uniform_ty, None, var_bytestream, vec![const_0, pos_val]).expect("bytestream[pos]");
    let next_byte = b.load(uint_ty, None, ac_next_byte, None, vec![]).expect("load bytestream[pos]");
    let low_val4 = b.i_add(uint_ty, None, low_val3, next_byte).expect("low*256+byte");
    b.store(var_low, low_val4, None, vec![]).expect("store low (refill)");
    let pos_val2 = b.i_add(uint_ty, None, pos_val, const_1).expect("pos+1");
    b.store(var_pos, pos_val2, None, vec![]).expect("store pos (refill)");
    b.branch(refill_merge).expect("refill_then -> refill_merge");

    b.begin_block(Some(refill_merge)).expect("OpLabel refill_merge");
    b.branch(loop_continue).expect("branch to loop_continue");

    b.begin_block(Some(loop_continue)).expect("OpLabel loop_continue");
    let i_val2 = b.load(uint_ty, None, var_i, None, vec![]).expect("load i (continue)");
    let i_val3 = b.i_add(uint_ty, None, i_val2, const_1).expect("i+1");
    b.store(var_i, i_val3, None, vec![]).expect("store i (continue)");
    b.branch(loop_header).expect("branch back to loop_header");

    b.begin_block(Some(loop_merge)).expect("OpLabel loop_merge");
    b.ret().expect("OpReturn");
    b.end_function().expect("OpFunctionEnd");

    b.entry_point(spirv::ExecutionModel::GLCompute, main_fn, "main", vec![]);
    b.execution_mode(main_fn, spirv::ExecutionMode::LocalSize, [1, 1, 1]);

    let module = b.module();
    let spirv_words = module.assemble();
    spirv_words
}

fn oracle_range_decoder_parallel(context_size: u32) -> Vec<u32> {
    let mut b = Builder::new();
    b.set_version(1, 0);
    b.capability(spirv::Capability::Shader);
    b.memory_model(spirv::AddressingModel::Logical, spirv::MemoryModel::GLSL450);

    let void_ty = b.type_void();
    let voidf_ty = b.type_function(void_ty, vec![]);
    let uint_ty = b.type_int(32, 0);
    let bool_ty = b.type_bool();

    let rt_array_ty = b.type_runtime_array(uint_ty);
    b.decorate(rt_array_ty, spirv::Decoration::ArrayStride, vec![DrOperand::LiteralBit32(4)]);
    let buf_struct_ty = b.type_struct(vec![rt_array_ty]);
    b.decorate(buf_struct_ty, spirv::Decoration::BufferBlock, vec![]);
    b.member_decorate(buf_struct_ty, 0, spirv::Decoration::Offset, vec![DrOperand::LiteralBit32(0)]);
    let buf_ptr_ty = b.type_pointer(None, spirv::StorageClass::Uniform, buf_struct_ty);
    let uint_ptr_uniform_ty = b.type_pointer(None, spirv::StorageClass::Uniform, uint_ty);

    let make_buffer_var = |b: &mut Builder, binding: u32| -> u32 {
        let var = b.variable(buf_ptr_ty, None, spirv::StorageClass::Uniform, None);
        b.decorate(var, spirv::Decoration::DescriptorSet, vec![DrOperand::LiteralBit32(0)]);
        b.decorate(var, spirv::Decoration::Binding, vec![DrOperand::LiteralBit32(binding)]);
        var
    };
    let var_bytestream = make_buffer_var(&mut b, 0);
    let var_zero_one_state = make_buffer_var(&mut b, 1);
    let var_context_states = make_buffer_var(&mut b, 2);
    let var_output = make_buffer_var(&mut b, 3);

    let const_32_len = b.constant_bit32(uint_ty, context_size);
    let shared_array_ty = b.type_array(uint_ty, const_32_len);
    let shared_ptr_ty = b.type_pointer(None, spirv::StorageClass::Workgroup, shared_array_ty);
    let var_shared_state = b.variable(shared_ptr_ty, None, spirv::StorageClass::Workgroup, None);
    let uint_ptr_workgroup_ty = b.type_pointer(None, spirv::StorageClass::Workgroup, uint_ty);

    let uint_ptr_input_ty = b.type_pointer(None, spirv::StorageClass::Input, uint_ty);
    let var_lane = b.variable(uint_ptr_input_ty, None, spirv::StorageClass::Input, None);
    b.decorate(var_lane, spirv::Decoration::BuiltIn, vec![DrOperand::BuiltIn(spirv::BuiltIn::LocalInvocationIndex)]);

    let uint_ptr_function_ty = b.type_pointer(None, spirv::StorageClass::Function, uint_ty);

    let main_fn = b.begin_function(void_ty, None, spirv::FunctionControl::NONE, voidf_ty).expect("OpFunction");
    b.begin_block(None).expect("OpLabel entry");

    let const_0 = b.constant_bit32(uint_ty, 0);
    let const_1 = b.constant_bit32(uint_ty, 1);
    let const_2 = b.constant_bit32(uint_ty, 2);
    let const_8 = b.constant_bit32(uint_ty, 8);
    let const_256 = b.constant_bit32(uint_ty, 256);
    let const_0xff00 = b.constant_bit32(uint_ty, 0xFF00);
    let const_32 = b.constant_bit32(uint_ty, context_size);
    let scope_workgroup = b.constant_bit32(uint_ty, spirv::Scope::Workgroup as u32);
    let semantics_release_workgroup =
        b.constant_bit32(uint_ty, (spirv::MemorySemantics::ACQUIRE_RELEASE | spirv::MemorySemantics::WORKGROUP_MEMORY).bits());

    let var_i = b.variable(uint_ptr_function_ty, None, spirv::StorageClass::Function, None);
    let var_low = b.variable(uint_ptr_function_ty, None, spirv::StorageClass::Function, None);
    let var_range = b.variable(uint_ptr_function_ty, None, spirv::StorageClass::Function, None);
    let var_pos = b.variable(uint_ptr_function_ty, None, spirv::StorageClass::Function, None);

    let lane = b.load(uint_ty, None, var_lane, None, vec![]).expect("load lane");
    let ac_ctx_in = b.access_chain(uint_ptr_uniform_ty, None, var_context_states, vec![const_0, lane]).expect("context_states[lane]");
    let my_initial_state = b.load(uint_ty, None, ac_ctx_in, None, vec![]).expect("load context_states[lane]");
    let ac_shared_in = b.access_chain(uint_ptr_workgroup_ty, None, var_shared_state, vec![lane]).expect("shared_state[lane] (write)");
    b.store(ac_shared_in, my_initial_state, None, vec![]).expect("store shared_state[lane]");

    b.control_barrier(scope_workgroup, scope_workgroup, semantics_release_workgroup).expect("OpControlBarrier #1");

    let is_lane0 = b.i_equal(bool_ty, None, lane, const_0).expect("lane == 0");
    let then_label = b.id();
    let after_serial_label = b.id();
    b.selection_merge(after_serial_label, spirv::SelectionControl::NONE).expect("OpSelectionMerge lane0");
    b.branch_conditional(is_lane0, then_label, after_serial_label, vec![]).expect("OpBranchConditional lane0");

    b.begin_block(Some(then_label)).expect("OpLabel then (lane0)");
    let ac_b0 = b.access_chain(uint_ptr_uniform_ty, None, var_bytestream, vec![const_0, const_0]).expect("byte[0]");
    let b0 = b.load(uint_ty, None, ac_b0, None, vec![]).expect("load byte[0]");
    let ac_b1 = b.access_chain(uint_ptr_uniform_ty, None, var_bytestream, vec![const_0, const_1]).expect("byte[1]");
    let b1 = b.load(uint_ty, None, ac_b1, None, vec![]).expect("load byte[1]");
    let b0_shifted = b.shift_left_logical(uint_ty, None, b0, const_8).expect("byte[0]<<8");
    let low_init = b.bitwise_or(uint_ty, None, b0_shifted, b1).expect("(byte[0]<<8)|byte[1]");
    b.store(var_low, low_init, None, vec![]).expect("store low init");
    b.store(var_range, const_0xff00, None, vec![]).expect("store range init");
    b.store(var_pos, const_2, None, vec![]).expect("store pos init");
    b.store(var_i, const_0, None, vec![]).expect("store i init");
    let loop_header = b.id();
    let loop_cond = b.id();
    let loop_body = b.id();
    let loop_continue = b.id();
    let loop_merge = b.id();
    b.branch(loop_header).expect("branch to loop header");

    b.begin_block(Some(loop_header)).expect("OpLabel loop_header");
    b.loop_merge(loop_merge, loop_continue, spirv::LoopControl::NONE, vec![]).expect("OpLoopMerge");
    b.branch(loop_cond).expect("branch to loop cond");

    b.begin_block(Some(loop_cond)).expect("OpLabel loop_cond");
    let i_val = b.load(uint_ty, None, var_i, None, vec![]).expect("load i");
    let cond = b.u_less_than(bool_ty, None, i_val, const_32).expect("i < context_size");
    b.branch_conditional(cond, loop_body, loop_merge, vec![]).expect("OpBranchConditional loop");

    b.begin_block(Some(loop_body)).expect("OpLabel loop_body");
    let ac_shared_i = b.access_chain(uint_ptr_workgroup_ty, None, var_shared_state, vec![i_val]).expect("shared_state[i]");
    let state_i = b.load(uint_ty, None, ac_shared_i, None, vec![]).expect("load shared_state[i]");
    let range_val = b.load(uint_ty, None, var_range, None, vec![]).expect("load range");
    let low_val = b.load(uint_ty, None, var_low, None, vec![]).expect("load low");
    let range_times_state = b.i_mul(uint_ty, None, range_val, state_i).expect("range*state_i");
    let rangeoff = b.u_div(uint_ty, None, range_times_state, const_256).expect("(range*state_i)/256");
    let range_after = b.i_sub(uint_ty, None, range_val, rangeoff).expect("range-rangeoff");
    let bit_is_zero = b.u_less_than(bool_ty, None, low_val, range_after).expect("low < range_after");

    let branch_zero = b.id();
    let branch_one = b.id();
    let branch_merge = b.id();
    b.selection_merge(branch_merge, spirv::SelectionControl::NONE).expect("OpSelectionMerge bit");
    b.branch_conditional(bit_is_zero, branch_zero, branch_one, vec![]).expect("OpBranchConditional bit");

    b.begin_block(Some(branch_zero)).expect("OpLabel branch_zero");
    b.store(var_range, range_after, None, vec![]).expect("store range (bit=0)");
    let ac_zos0 =
        b.access_chain(uint_ptr_uniform_ty, None, var_zero_one_state, vec![const_0, state_i]).expect("zero_one_state[state_i]");
    let new_state0 = b.load(uint_ty, None, ac_zos0, None, vec![]).expect("load zero_one_state[state_i]");
    let ac_shared_i0 = b.access_chain(uint_ptr_workgroup_ty, None, var_shared_state, vec![i_val]).expect("shared_state[i] (write, bit=0)");
    b.store(ac_shared_i0, new_state0, None, vec![]).expect("store shared_state[i] (bit=0)");
    let ac_out0 = b.access_chain(uint_ptr_uniform_ty, None, var_output, vec![const_0, i_val]).expect("output[i] (bit=0)");
    b.store(ac_out0, const_0, None, vec![]).expect("store output[i]=0");
    b.branch(branch_merge).expect("branch_zero -> branch_merge");

    b.begin_block(Some(branch_one)).expect("OpLabel branch_one");
    let low_after = b.i_sub(uint_ty, None, low_val, range_after).expect("low-range_after");
    b.store(var_low, low_after, None, vec![]).expect("store low (bit=1)");
    b.store(var_range, rangeoff, None, vec![]).expect("store range (bit=1)");
    let state_i_plus_256 = b.i_add(uint_ty, None, state_i, const_256).expect("state_i+256");
    let ac_zos1 = b
        .access_chain(uint_ptr_uniform_ty, None, var_zero_one_state, vec![const_0, state_i_plus_256])
        .expect("zero_one_state[256+state_i]");
    let new_state1 = b.load(uint_ty, None, ac_zos1, None, vec![]).expect("load zero_one_state[256+state_i]");
    let ac_shared_i1 = b.access_chain(uint_ptr_workgroup_ty, None, var_shared_state, vec![i_val]).expect("shared_state[i] (write, bit=1)");
    b.store(ac_shared_i1, new_state1, None, vec![]).expect("store shared_state[i] (bit=1)");
    let ac_out1 = b.access_chain(uint_ptr_uniform_ty, None, var_output, vec![const_0, i_val]).expect("output[i] (bit=1)");
    b.store(ac_out1, const_1, None, vec![]).expect("store output[i]=1");
    b.branch(branch_merge).expect("branch_one -> branch_merge");

    b.begin_block(Some(branch_merge)).expect("OpLabel branch_merge");
    let range_val2 = b.load(uint_ty, None, var_range, None, vec![]).expect("load range (refill)");
    let need_refill = b.u_less_than(bool_ty, None, range_val2, const_256).expect("range < 256");
    let refill_then = b.id();
    let refill_merge = b.id();
    b.selection_merge(refill_merge, spirv::SelectionControl::NONE).expect("OpSelectionMerge refill");
    b.branch_conditional(need_refill, refill_then, refill_merge, vec![]).expect("OpBranchConditional refill");

    b.begin_block(Some(refill_then)).expect("OpLabel refill_then");
    let range_val3 = b.i_mul(uint_ty, None, range_val2, const_256).expect("range*256");
    b.store(var_range, range_val3, None, vec![]).expect("store range (refill)");
    let low_val2 = b.load(uint_ty, None, var_low, None, vec![]).expect("load low (refill)");
    let low_val3 = b.i_mul(uint_ty, None, low_val2, const_256).expect("low*256");
    let pos_val = b.load(uint_ty, None, var_pos, None, vec![]).expect("load pos");
    let ac_next_byte =
        b.access_chain(uint_ptr_uniform_ty, None, var_bytestream, vec![const_0, pos_val]).expect("bytestream[pos]");
    let next_byte = b.load(uint_ty, None, ac_next_byte, None, vec![]).expect("load bytestream[pos]");
    let low_val4 = b.i_add(uint_ty, None, low_val3, next_byte).expect("low*256+byte");
    b.store(var_low, low_val4, None, vec![]).expect("store low (refill)");
    let pos_val2 = b.i_add(uint_ty, None, pos_val, const_1).expect("pos+1");
    b.store(var_pos, pos_val2, None, vec![]).expect("store pos (refill)");
    b.branch(refill_merge).expect("refill_then -> refill_merge");

    b.begin_block(Some(refill_merge)).expect("OpLabel refill_merge");
    b.branch(loop_continue).expect("branch to loop_continue");

    b.begin_block(Some(loop_continue)).expect("OpLabel loop_continue");
    let i_val2 = b.load(uint_ty, None, var_i, None, vec![]).expect("load i (continue)");
    let i_val3 = b.i_add(uint_ty, None, i_val2, const_1).expect("i+1");
    b.store(var_i, i_val3, None, vec![]).expect("store i (continue)");
    b.branch(loop_header).expect("branch back to loop_header");

    b.begin_block(Some(loop_merge)).expect("OpLabel loop_merge (end of lane0 serial work)");
    b.branch(after_serial_label).expect("branch to after_serial_label");

    b.begin_block(Some(after_serial_label)).expect("OpLabel after_serial_label");
    b.control_barrier(scope_workgroup, scope_workgroup, semantics_release_workgroup).expect("OpControlBarrier #2");

    let ac_shared_out = b.access_chain(uint_ptr_workgroup_ty, None, var_shared_state, vec![lane]).expect("shared_state[lane] (read back)");
    let final_state = b.load(uint_ty, None, ac_shared_out, None, vec![]).expect("load shared_state[lane] (final)");
    let ac_ctx_out = b.access_chain(uint_ptr_uniform_ty, None, var_context_states, vec![const_0, lane]).expect("context_states[lane] (write back)");
    b.store(ac_ctx_out, final_state, None, vec![]).expect("store context_states[lane] (final)");

    b.ret().expect("OpReturn");
    b.end_function().expect("OpFunctionEnd");

    b.entry_point(spirv::ExecutionModel::GLCompute, main_fn, "main", vec![var_lane]);
    b.execution_mode(main_fn, spirv::ExecutionMode::LocalSize, [context_size, 1, 1]);

    let module = b.module();
    let spirv_words = module.assemble();
    spirv_words
}

fn load(u: u32) -> RegExpr {
    RegExpr::Load(u)
}

fn bin(op: BinaryOp, l: RegExpr, r: RegExpr) -> RegExpr {
    RegExpr::BinOp(op, Box::new(l), Box::new(r))
}

const OPS: [BinaryOp; 5] = [BinaryOp::Add, BinaryOp::Mul, BinaryOp::Sub, BinaryOp::Div, BinaryOp::MulNeg];

#[test]
fn element_wise_modules_match_the_builder_for_every_operation_and_bounds_check() {
    for op in OPS {
        for bounds in [false, true] {
            for (tg, a, b, c) in [((64, 1, 1), 0, 1, 2), ((8, 4, 2), 3, 5, 7), ((1, 1, 1), 2, 2, 0)] {
                assert_eq!(
                    emit_spirv_for_kernel(tg, a, b, c, op, bounds),
                    oracle_compute(tg, a, b, c, op, bounds),
                    "op {:?}, bounds {}, uavs {} {} {}",
                    op,
                    bounds,
                    a,
                    b,
                    c
                );
            }
        }
    }
}

#[test]
fn chain_modules_match_the_builder() {
    let trees = vec![
        (bin(BinaryOp::Mul, bin(BinaryOp::Add, load(0), load(1)), load(0)), 2),
        (bin(BinaryOp::Div, bin(BinaryOp::Mul, bin(BinaryOp::Add, load(0), load(1)), load(0)), load(1)), 2),
        (bin(BinaryOp::Sub, load(1), load(0)), 2),
        (bin(BinaryOp::Add, load(5), bin(BinaryOp::Mul, load(3), load(9))), 3),
        (bin(BinaryOp::MulNeg, load(0), load(1)), 0),
        (bin(BinaryOp::Add, load(4), load(4)), 4),
    ];
    for (root, write) in trees.iter() {
        for bounds in [false, true] {
            for tg in [(64, 1, 1), (16, 2, 1)] {
                assert_eq!(
                    emit_chain_spirv_for_kernel(tg, root, *write, bounds),
                    oracle_chain(tg, root, *write, bounds),
                    "tree {:?}, write {}, bounds {}",
                    root,
                    write,
                    bounds
                );
            }
        }
    }
}

#[test]
fn graphics_modules_match_the_builder() {
    assert_eq!(fixed_module(FixedShape::TriangleVertex), oracle_vertex());
    assert_eq!(fixed_module(FixedShape::TrianglePixel), oracle_pixel());
    assert_eq!(fixed_module(FixedShape::SpriteVertex), oracle_sprite_vertex());
    assert_eq!(fixed_module(FixedShape::SpritePixel), oracle_sprite_pixel());
}

#[test]
fn gemm2x2_module_matches_the_builder() {
    for (a, b, c) in [(0, 1, 2), (4, 6, 1)] {
        assert_eq!(template_module(&GEMM2X2_TEMPLATE, &[a, b, c], GEMM2X2_TEMPLATE_BOUND), oracle_gemm2x2(a, b, c));
    }
}

#[test]
fn med2d_module_matches_the_builder() {
    for (tg, w, h) in [((64, 1, 1), 20, 15), ((32, 1, 1), 4, 4), ((1, 1, 1), 0, 1)] {
        assert_eq!(
            template_module(&MED2D_TEMPLATE, &[tg.0, tg.1, tg.2, 0, 1, w, h], MED2D_TEMPLATE_BOUND),
            oracle_med2d(tg, 0, 1, w, h)
        );
    }
}

#[test]
fn range_decoder_modules_match_the_builder() {
    for (s, n) in [(128, 16), (0, 0), (255, 1000)] {
        let k = build_range_decoder_kernel(s, n);
        assert_eq!(k.spirv_words, oracle_range_decoder(s, n));
        assert_eq!(k.local_size, (1, 1, 1));
        assert_eq!(k.entry_point, "main");
    }
    for cs in [32, 64] {
        let k = build_range_decoder_parallel_kernel(cs);
        assert_eq!(k.spirv_words, oracle_range_decoder_parallel(cs));
        assert_eq!(k.local_size, (cs, 1, 1));
    }
}

#[test]
fn emitted_modules_parse_back_with_an_entry_point_main() {
    let words = emit_spirv_for_kernel((64, 1, 1), 0, 1, 2, BinaryOp::Add, true);
    assert_eq!(words[0], 0x0723_0203);
    let bytes: Vec<u8> = words.iter().flat_map(|w| w.to_le_bytes()).collect();
    let module = rspirv::dr::load_bytes(&bytes).expect("the module parses back");
    assert!(module.entry_points.iter().any(|ep| ep
        .operands
        .iter()
        .any(|op| matches!(op, rspirv::dr::Operand::LiteralString(s) if s == "main"))));
}

/// The instructions of a SPIR-V module after its five header words, as
/// (opcode, operand words).
fn module_instructions(words: &[u32]) -> Vec<(u32, Vec<u32>)> {
    let mut out = Vec::new();
    let mut pos = 5;
    while pos < words.len() {
        let count = (words[pos] >> 16) as usize;
        let opcode = words[pos] & 0xFFFF;
        out.push((opcode, words[pos + 1..pos + count].to_vec()));
        pos += count;
    }
    out
}

#[test]
fn the_parallel_kernel_shares_one_state_per_context() {
    for cs in [1u32, 8, 64] {
        let k = build_range_decoder_parallel_kernel(cs);
        let insts = module_instructions(&k.spirv_words);
        let local_size = insts.iter().find(|(op, w)| *op == 16 && w[1] == 17).expect("LocalSize");
        assert_eq!(&local_size.1[2..], &[cs, 1, 1]);
        let array = insts.iter().find(|(op, _)| *op == 28).expect("OpTypeArray");
        let length_id = array.1[2];
        let length = insts.iter().find(|(op, w)| *op == 43 && w[1] == length_id).expect("length constant");
        assert_eq!(length.1[2], cs);
        let pointer = insts.iter().find(|(op, w)| *op == 32 && w[2] == array.1[0]).expect("pointer to the array");
        assert_eq!(pointer.1[1], 4, "workgroup storage");
    }
}
