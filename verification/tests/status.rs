use plrs_xilinx::receive::{packet_bytes, packet_destination, receive_error};
use plrs_xilinx::registers::{
    INTERRUPT_ALL, INTERRUPT_RX_COMPLETE, INTERRUPT_RX_OVER_READ, INTERRUPT_RX_UNDER_READ,
    INTERRUPT_RX_UNDER_RUN, INTERRUPT_TX_COMPLETE, INTERRUPT_TX_LENGTH_MISMATCH,
    INTERRUPT_TX_OVER_RUN,
};
use plrs_xilinx::transmit::transmit_error;
use plrs_xilinx::Error;

#[test]
fn transmit_error_of_each_status() {
    assert_eq!(transmit_error(0), None);
    assert_eq!(transmit_error(INTERRUPT_TX_COMPLETE), None);
    assert_eq!(transmit_error(INTERRUPT_TX_OVER_RUN), Some(Error::OverRun));
    assert_eq!(transmit_error(INTERRUPT_TX_LENGTH_MISMATCH), Some(Error::LengthMismatch));
    assert_eq!(
        transmit_error(INTERRUPT_TX_OVER_RUN | INTERRUPT_TX_LENGTH_MISMATCH),
        Some(Error::OverRun)
    );
    assert_eq!(transmit_error(INTERRUPT_ALL), Some(Error::OverRun));
}

#[test]
fn transmit_error_does_not_see_the_receiver() {
    assert_eq!(
        transmit_error(INTERRUPT_RX_OVER_READ | INTERRUPT_RX_UNDER_READ | INTERRUPT_RX_UNDER_RUN),
        None
    );
    assert_eq!(transmit_error(!0x1200_0000), None);
}

#[test]
fn receive_error_of_each_status() {
    assert_eq!(receive_error(0), None);
    assert_eq!(receive_error(INTERRUPT_RX_COMPLETE), None);
    assert_eq!(receive_error(INTERRUPT_RX_OVER_READ), Some(Error::OverRun));
    assert_eq!(receive_error(INTERRUPT_RX_UNDER_READ), Some(Error::UnderRun));
    assert_eq!(receive_error(INTERRUPT_RX_UNDER_RUN), Some(Error::UnderRun));
    assert_eq!(
        receive_error(INTERRUPT_RX_UNDER_READ | INTERRUPT_RX_UNDER_RUN),
        Some(Error::UnderRun)
    );
    assert_eq!(
        receive_error(INTERRUPT_RX_OVER_READ | INTERRUPT_RX_UNDER_RUN),
        Some(Error::OverRun)
    );
    assert_eq!(receive_error(INTERRUPT_ALL), Some(Error::OverRun));
}

#[test]
fn receive_error_does_not_see_the_transmitter() {
    assert_eq!(receive_error(INTERRUPT_TX_OVER_RUN | INTERRUPT_TX_LENGTH_MISMATCH), None);
    assert_eq!(receive_error(!0xe000_0000), None);
}

#[test]
fn packet_bytes_keeps_22_bits() {
    assert_eq!(packet_bytes(0), 0);
    assert_eq!(packet_bytes(16), 16);
    assert_eq!(packet_bytes(0x003f_ffff), 0x003f_ffff);
    assert_eq!(packet_bytes(0x0040_0000), 0);
    assert_eq!(packet_bytes(0xffff_ffff), 0x003f_ffff);
    assert_eq!(packet_bytes(0x8040_0010), 16);
}

#[test]
fn packet_destination_keeps_eight_bits() {
    assert_eq!(packet_destination(0), 0);
    assert_eq!(packet_destination(7), 7);
    assert_eq!(packet_destination(0xff), 0xff);
    assert_eq!(packet_destination(0x100), 0);
    assert_eq!(packet_destination(0xffff_ff23), 0x23);
}
