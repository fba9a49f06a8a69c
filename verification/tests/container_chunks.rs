//! Chunks told apart by their FourCC.

use directx_shader_translate::container::{chunk_model, ChunkModel, RawChunk};

fn model(fourcc: &[u8; 4], data: Vec<u8>) -> ChunkModel {
    chunk_model(&RawChunk { fourcc: *fourcc, data })
}

#[test]
fn resource_and_signature_chunks_are_known_by_their_fourcc() {
    assert!(matches!(model(b"RDEF", vec![0; 28]), ChunkModel::Rdef));
    assert!(matches!(model(b"RDEF", vec![0; 27]), ChunkModel::Other));
    assert!(matches!(model(b"ISGN", vec![1, 2, 3]), ChunkModel::InputSignature));
    assert!(matches!(model(b"ISG1", vec![]), ChunkModel::InputSignature));
    assert!(matches!(model(b"OSGN", vec![]), ChunkModel::OutputSignature));
    assert!(matches!(model(b"OSG1", vec![]), ChunkModel::OutputSignature));
    assert!(matches!(model(b"OSG5", vec![]), ChunkModel::OutputSignature));
    assert!(matches!(model(b"STAT", vec![0; 16]), ChunkModel::Other));
}

#[test]
fn program_chunks_too_short_to_decode_are_other() {
    assert!(matches!(model(b"SHEX", vec![0; 4]), ChunkModel::Other));
    assert!(matches!(model(b"SHDR", vec![0; 4]), ChunkModel::Other));
    assert!(matches!(model(b"DXIL", vec![0; 8]), ChunkModel::Other));
}

#[test]
fn an_empty_compute_program_decodes_to_no_instructions() {
    // Version token: compute shader (type 5) 5.0; length: two dwords.
    let data = vec![0x50, 0x00, 0x05, 0x00, 0x02, 0x00, 0x00, 0x00];
    match model(b"SHEX", data) {
        ChunkModel::Shader(program) => assert!(program.is_empty()),
        _ => panic!("expected a decoded program"),
    }
}
