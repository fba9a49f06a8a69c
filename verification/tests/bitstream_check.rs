//! The check that the bitcode reader returns on a stream, on streams built
//! bit by bit.

use directx_shader_translate::bitstream_check::bitcode_reader_returns;

/// Bits written least significant first, as the bitstream format lays them.
struct BitWriter {
    bytes: Vec<u8>,
    bits: usize,
}

impl BitWriter {
    fn new() -> Self {
        BitWriter { bytes: Vec::new(), bits: 0 }
    }

    fn fixed(&mut self, value: u64, width: usize) {
        for k in 0..width {
            if self.bits % 8 == 0 {
                self.bytes.push(0);
            }
            if (value >> k) & 1 == 1 {
                let last = self.bytes.len() - 1;
                self.bytes[last] |= 1 << (self.bits % 8);
            }
            self.bits += 1;
        }
    }

    fn vbr(&mut self, mut value: u64, width: usize) {
        let payload = width - 1;
        loop {
            let chunk = value & ((1 << payload) - 1);
            value >>= payload;
            if value == 0 {
                self.fixed(chunk, width);
                return;
            }
            self.fixed(chunk | (1 << payload), width);
        }
    }

    fn align32(&mut self) {
        while self.bits % 32 != 0 {
            self.fixed(0, 1);
        }
    }

    fn words(&self) -> u64 {
        (self.bits / 32) as u64
    }
}

fn with_magic(w: &BitWriter) -> Vec<u8> {
    let mut out = vec![b'B', b'C', 0xC0, 0xDE];
    out.extend_from_slice(&w.bytes);
    out
}

/// A block with id `id` (abbreviation width 3) holding one unabbreviated
/// record with code 1 and the operands 5 and 7.
fn one_block(id: u64) -> Vec<u8> {
    let mut body = BitWriter::new();
    body.fixed(3, 3);
    body.vbr(1, 6);
    body.vbr(2, 6);
    body.vbr(5, 6);
    body.vbr(7, 6);
    body.fixed(0, 3);
    body.align32();
    let mut top = BitWriter::new();
    top.fixed(1, 2);
    top.vbr(id, 8);
    top.vbr(3, 4);
    top.align32();
    top.fixed(body.words(), 32);
    let mut out = with_magic(&top);
    out.extend_from_slice(&body.bytes);
    out
}

#[test]
fn a_well_formed_stream_is_read() {
    let bytes = one_block(8);
    assert!(bitcode_reader_returns(&bytes));
    let bc = llvm_bitcode::Bitcode::new(&bytes).expect("reads");
    assert_eq!(bc.elements.len(), 1);
}

#[test]
fn streams_the_reader_refuses_with_an_error_are_accepted() {
    assert!(bitcode_reader_returns(&[]));
    assert!(bitcode_reader_returns(&[b'B', b'C']));
    // A record cut short after its code.
    let mut w = BitWriter::new();
    w.fixed(3, 2);
    w.vbr(1, 6);
    w.vbr(4, 6);
    w.vbr(9, 6);
    let bytes = with_magic(&w);
    assert!(bitcode_reader_returns(&bytes));
    assert!(llvm_bitcode::Bitcode::new(&bytes).is_err());
}

#[test]
fn a_vbr_value_longer_than_64_bits_is_refused() {
    let mut w = BitWriter::new();
    w.fixed(3, 2);
    for _ in 0..16 {
        w.fixed(0b10_0000, 6);
    }
    w.fixed(0, 32);
    assert!(!bitcode_reader_returns(&with_magic(&w)));
}

#[test]
fn an_abbreviation_asking_for_more_operands_than_bits_is_refused() {
    let mut w = BitWriter::new();
    w.fixed(2, 2);
    w.vbr(1 << 40, 5);
    w.fixed(0, 32);
    assert!(!bitcode_reader_returns(&with_magic(&w)));
}

#[test]
fn a_setbid_without_its_operand_is_refused() {
    let mut body = BitWriter::new();
    body.fixed(3, 2);
    body.vbr(1, 6);
    body.vbr(0, 6);
    body.fixed(0, 2);
    body.align32();
    let mut top = BitWriter::new();
    top.fixed(1, 2);
    top.vbr(0, 8);
    top.vbr(2, 4);
    top.align32();
    top.fixed(body.words(), 32);
    let mut bytes = with_magic(&top);
    bytes.extend_from_slice(&body.bytes);
    assert!(!bitcode_reader_returns(&bytes));
}
