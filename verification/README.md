# directx_shader_translate

Direct3D shader bytecode to SPIR-V, an FFV1 range coder and plane coder,
and the plain data of a small Vulkan renderer, written in Verus.

Layout of `src/`:

- `container.rs`, `lib.rs`: DXBC containers and their chunks (read by the
  `dxbc` crate), summarised as plain values.
- `spirv_gen.rs`, `chain.rs`, `gemm.rs`, `med2d.rs`, `graphics_shaders.rs`:
  the shape checks of compute, vertex and pixel shader programs and the
  SPIR-V modules they lead to.
- `dxil.rs`, `dxil_module.rs`, `dxil_spirv.rs`: DXIL bitcode (read by
  `llvm-bitcode`), the resolution of its `dx.op` calls and the modules
  built from them.
- `bitstream_check.rs`: which bitstreams `llvm-bitcode`'s reader returns
  on, checked before it is called.
- `spirv_module.rs`, `spirv_templates.rs`: the binary form of SPIR-V
  modules (instructions assembled by `rspirv`).
- `range_coder.rs`, `plane_codec.rs`, `coding_interval.rs`,
  `range_kernels.rs`: the FFV1 range coder, the plane coder, the proof that
  decoding gives back what was coded, and the GPU decoder kernels.
- `graphics_data.rs`: colours, PNG textures (decoded by `png`), device
  information and memory-type selection.

`app/` holds the window program and the offscreen Vulkan renderer (`ash`,
`ash-window`, `winit`), which use the library.
