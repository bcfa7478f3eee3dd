use plrs_xilinx::registers::{
    FULL_REG_READ, FULL_REG_WRITE, INTERRUPT_ALL, INTERRUPT_ENABLED, INTERRUPT_RX_COMPLETE,
    INTERRUPT_RX_ERROR, INTERRUPT_RX_OVER_READ, INTERRUPT_RX_PROGRAMMABLE_EMPTY,
    INTERRUPT_RX_PROGRAMMABLE_FULL, INTERRUPT_RX_RESET_COMPLETE, INTERRUPT_RX_UNDER_READ,
    INTERRUPT_RX_UNDER_RUN, INTERRUPT_TX_COMPLETE, INTERRUPT_TX_ERROR,
    INTERRUPT_TX_LENGTH_MISMATCH, INTERRUPT_TX_OVER_RUN, INTERRUPT_TX_PROGRAMMABLE_EMPTY,
    INTERRUPT_TX_PROGRAMMABLE_FULL, INTERRUPT_TX_RESET_COMPLETE, REG_AXI4_STREAM_RESET,
    REG_INTERRUPT_ENABLE, REG_INTERRUPT_STATUS, REG_RX_DATA, REG_RX_DESTINATION, REG_RX_LENGTH,
    REG_RX_OCCUPANCY, REG_RX_RESET, REG_TX_DATA, REG_TX_DESTINATION, REG_TX_LENGTH, REG_TX_RESET,
    REG_TX_VACANCY, RESET_MAGIC, RX_LENGTH_MASK, TX_DESTINATION_MASK,
};

#[test]
fn control_registers_lie_four_bytes_apart() {
    let registers = [
        REG_INTERRUPT_STATUS,
        REG_INTERRUPT_ENABLE,
        REG_TX_RESET,
        REG_TX_VACANCY,
        REG_TX_DATA,
        REG_TX_LENGTH,
        REG_RX_RESET,
        REG_RX_OCCUPANCY,
        REG_RX_DATA,
        REG_RX_LENGTH,
        REG_AXI4_STREAM_RESET,
        REG_TX_DESTINATION,
        REG_RX_DESTINATION,
    ];
    for (index, offset) in registers.iter().enumerate() {
        assert_eq!(*offset, 4 * index);
    }
}

#[test]
fn control_register_offsets() {
    assert_eq!(REG_INTERRUPT_STATUS, 0x00);
    assert_eq!(REG_INTERRUPT_ENABLE, 0x04);
    assert_eq!(REG_TX_RESET, 0x08);
    assert_eq!(REG_TX_VACANCY, 0x0c);
    assert_eq!(REG_TX_DATA, 0x10);
    assert_eq!(REG_TX_LENGTH, 0x14);
    assert_eq!(REG_RX_RESET, 0x18);
    assert_eq!(REG_RX_OCCUPANCY, 0x1c);
    assert_eq!(REG_RX_DATA, 0x20);
    assert_eq!(REG_RX_LENGTH, 0x24);
    assert_eq!(REG_AXI4_STREAM_RESET, 0x28);
    assert_eq!(REG_TX_DESTINATION, 0x2c);
    assert_eq!(REG_RX_DESTINATION, 0x30);
}

#[test]
fn data_region_offsets() {
    assert_eq!(FULL_REG_WRITE, 0x0000);
    assert_eq!(FULL_REG_READ, 0x1000);
}

#[test]
fn reset_word() {
    assert_eq!(RESET_MAGIC, 0xa5);
}

#[test]
fn interrupts_take_the_top_bits_in_order() {
    let interrupts = [
        INTERRUPT_RX_UNDER_READ,
        INTERRUPT_RX_OVER_READ,
        INTERRUPT_RX_UNDER_RUN,
        INTERRUPT_TX_OVER_RUN,
        INTERRUPT_TX_COMPLETE,
        INTERRUPT_RX_COMPLETE,
        INTERRUPT_TX_LENGTH_MISMATCH,
        INTERRUPT_TX_RESET_COMPLETE,
        INTERRUPT_RX_RESET_COMPLETE,
        INTERRUPT_TX_PROGRAMMABLE_FULL,
        INTERRUPT_TX_PROGRAMMABLE_EMPTY,
        INTERRUPT_RX_PROGRAMMABLE_FULL,
        INTERRUPT_RX_PROGRAMMABLE_EMPTY,
    ];
    for (index, bit) in interrupts.iter().enumerate() {
        assert_eq!(*bit, 1u32 << (31 - index));
    }
}

#[test]
fn masks_of_several_interrupts() {
    assert_eq!(INTERRUPT_ALL, 0xfff8_0000);
    assert_eq!(INTERRUPT_RX_ERROR, 0xe000_0000);
    assert_eq!(INTERRUPT_TX_ERROR, 0x1200_0000);
    assert_eq!(INTERRUPT_ENABLED, 0xfe00_0000);
    assert_eq!(INTERRUPT_RX_ERROR | INTERRUPT_RX_COMPLETE, 0xe400_0000);
    assert_eq!(INTERRUPT_TX_ERROR | INTERRUPT_TX_COMPLETE, 0x1a00_0000);
}

#[test]
fn enabled_interrupts_are_the_completions_and_the_errors() {
    assert_eq!(
        INTERRUPT_ENABLED,
        INTERRUPT_TX_COMPLETE | INTERRUPT_RX_COMPLETE | INTERRUPT_RX_ERROR | INTERRUPT_TX_ERROR
    );
    assert_eq!(INTERRUPT_ENABLED.count_ones(), 7);
    assert_eq!(INTERRUPT_ALL.count_ones(), 13);
}

#[test]
fn field_masks() {
    assert_eq!(RX_LENGTH_MASK, 0x003f_ffff);
    assert_eq!(TX_DESTINATION_MASK, 0x0f);
}
