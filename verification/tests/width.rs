use plrs_xilinx::StreamFifoValue;

const ALL: [StreamFifoValue; 5] = [
    StreamFifoValue::U32,
    StreamFifoValue::U64,
    StreamFifoValue::U128,
    StreamFifoValue::U256,
    StreamFifoValue::U512,
];

#[test]
fn byte_count_of_each_width() {
    assert_eq!(StreamFifoValue::U32.byte_count(), 4);
    assert_eq!(StreamFifoValue::U64.byte_count(), 8);
    assert_eq!(StreamFifoValue::U128.byte_count(), 16);
    assert_eq!(StreamFifoValue::U256.byte_count(), 32);
    assert_eq!(StreamFifoValue::U512.byte_count(), 64);
}

#[test]
fn bits_of_each_width() {
    assert_eq!(StreamFifoValue::U32.bits(), 32);
    assert_eq!(StreamFifoValue::U64.bits(), 64);
    assert_eq!(StreamFifoValue::U128.bits(), 128);
    assert_eq!(StreamFifoValue::U256.bits(), 256);
    assert_eq!(StreamFifoValue::U512.bits(), 512);
}

#[test]
fn byte_count_is_positive_and_an_eighth_of_the_bits() {
    for width in ALL {
        assert!(width.byte_count() > 0);
        assert_eq!(width.byte_count(), width.bits() / 8);
    }
}

#[test]
fn try_from_bits_gives_back_each_width() {
    for width in ALL {
        assert_eq!(StreamFifoValue::try_from_bits(width.bits()), Some(width));
    }
}

#[test]
fn try_from_bits_of_each_bit_count() {
    assert_eq!(StreamFifoValue::try_from_bits(32), Some(StreamFifoValue::U32));
    assert_eq!(StreamFifoValue::try_from_bits(64), Some(StreamFifoValue::U64));
    assert_eq!(StreamFifoValue::try_from_bits(128), Some(StreamFifoValue::U128));
    assert_eq!(StreamFifoValue::try_from_bits(256), Some(StreamFifoValue::U256));
    assert_eq!(StreamFifoValue::try_from_bits(512), Some(StreamFifoValue::U512));
}

#[test]
fn try_from_bits_refuses_other_bit_counts() {
    for bits in [0usize, 1, 4, 8, 16, 31, 33, 63, 65, 96, 127, 255, 511, 513, 1024, usize::MAX] {
        assert_eq!(StreamFifoValue::try_from_bits(bits), None);
    }
}

#[test]
fn try_from_bits_does_not_take_byte_counts() {
    for width in ALL {
        if width.byte_count() != 32 && width.byte_count() != 64 {
            assert_eq!(StreamFifoValue::try_from_bits(width.byte_count()), None);
        }
    }
}

#[test]
fn widths_up_to_128_bits_are_transferable() {
    assert!(StreamFifoValue::U32.transferable());
    assert!(StreamFifoValue::U64.transferable());
    assert!(StreamFifoValue::U128.transferable());
    assert!(!StreamFifoValue::U256.transferable());
    assert!(!StreamFifoValue::U512.transferable());
}
