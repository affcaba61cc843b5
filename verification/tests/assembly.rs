use riscv_dm::assembly::{addi, csrr, csrw, lw, sw, EBREAK};

#[test]
fn ebreak_is_the_break_instruction() {
    assert_eq!(EBREAK, 0x0010_0073);
}

#[test]
fn lw_encodes_a_word_load() {
    // lw s0, 0(s0)
    assert_eq!(lw(0, 8, 2, 8), 0x0004_2403);
}

#[test]
fn lw_encodes_a_byte_load_into_s1() {
    // lb s1, 0(s0)
    assert_eq!(lw(0, 8, 0, 9), 0x0004_0483);
}

#[test]
fn sw_encodes_a_byte_store() {
    // sb s1, 0(s0)
    assert_eq!(sw(0, 8, 0, 9), 0x0094_0023);
}

#[test]
fn sw_splits_the_offset() {
    // sw s1, 0x7e4(s0): the offset is 0b0111_1110_0100
    assert_eq!(sw(0x7e4, 8, 2, 9), (0x3f << 25) | (9 << 20) | (8 << 15) | (2 << 12) | (4 << 7) | 0x23);
}

#[test]
fn addi_encodes_an_increment() {
    // addi s0, s0, 4
    assert_eq!(addi(8, 8, 4), 0x0044_0413);
}

#[test]
fn csrr_reads_into_a_register() {
    // csrr s0, mstatus
    assert_eq!(csrr(8, 0x300), 0x3000_2473);
}

#[test]
fn csrw_writes_from_a_register() {
    // csrw mstatus, s0
    assert_eq!(csrw(0x300, 8), 0x3004_1073);
}
