use pointify::usb_control::{
    bulk_out_len, copy_range, descriptor, handle_ep0_out, handle_in, handle_setup, parse_setup,
    usb_event, SetupPacket, UsbDeviceState, UsbEvent, CTRL_IDLE, CTRL_RX_ACK, CTRL_STALL,
    CTRL_TX_ACK,
};

fn setup(request_type: u8, request: u8, value: u16, length: u16) -> SetupPacket {
    SetupPacket { request_type, request, value, length }
}

#[test]
fn descriptors_by_type_and_index() {
    let dev = descriptor(0x0100).unwrap();
    assert_eq!(dev.len(), 18);
    assert_eq!(&dev[..2], &[0x12, 0x01]);
    assert_eq!(&dev[8..12], &[0x00, 0x02, 0xDB, 0x02]);
    let cfg = descriptor(0x0200).unwrap();
    assert_eq!(cfg.len(), 67);
    assert_eq!(cfg[2], 67);
    assert_eq!(descriptor(0x0300).unwrap(), vec![0x04, 0x03, 0x09, 0x04]);
    let product = descriptor(0x0302).unwrap();
    let text: Vec<u8> = product[2..].iter().step_by(2).copied().collect();
    assert_eq!(text, b"Pointify".to_vec());
    assert_eq!(descriptor(0x0304), None);
    assert_eq!(descriptor(0x0400), None);
}

#[test]
fn setup_packet_is_little_endian() {
    let p = parse_setup(&[0x80, 6, 0x00, 0x01, 0, 0, 0x40, 0x00]);
    assert_eq!(p, setup(0x80, 6, 0x0100, 64));
    let p = parse_setup(&[0x21, 0x20, 0x34, 0x12, 0, 0, 0x07, 0x01, 0xEE]);
    assert_eq!(p, setup(0x21, 0x20, 0x1234, 0x0107));
}

#[test]
fn configuration_descriptor_sent_in_two_packets() {
    let mut st = UsbDeviceState::new();
    let w = handle_setup(&mut st, setup(0x80, 6, 0x0200, 255));
    let cfg = descriptor(0x0200).unwrap();
    assert_eq!(w.buffer, cfg[..64].to_vec());
    assert_eq!(w.tx_len, Some(64));
    assert_eq!(w.ctrl, CTRL_TX_ACK);
    assert_eq!(st.pending.len(), 3);
    let w2 = handle_in(&mut st, 0, 0x40);
    assert_eq!(w2.buffer, cfg[64..].to_vec());
    assert_eq!(w2.tx_len, Some(3));
    assert_eq!(w2.ctrl, 0x00);
    assert_eq!(w2.dev_addr, None);
    let w3 = handle_in(&mut st, 0, 0x00);
    assert!(w3.buffer.is_empty());
    assert_eq!(w3.tx_len, Some(0));
    assert_eq!(w3.ctrl, CTRL_RX_ACK);
}

#[test]
fn descriptor_request_limited_by_w_length() {
    let mut st = UsbDeviceState::new();
    let w = handle_setup(&mut st, setup(0x80, 6, 0x0100, 8));
    assert_eq!(w.buffer, descriptor(0x0100).unwrap()[..8].to_vec());
    assert_eq!(w.tx_len, Some(8));
    assert!(st.pending.is_empty());
}

#[test]
fn unknown_descriptor_is_stalled() {
    let mut st = UsbDeviceState::new();
    let w = handle_setup(&mut st, setup(0x80, 6, 0x0309, 255));
    assert_eq!(w.ctrl, CTRL_STALL);
    assert_eq!(w.tx_len, Some(0));
}

#[test]
fn set_address_applied_after_status_stage() {
    let mut st = UsbDeviceState::new();
    let w = handle_setup(&mut st, setup(0x00, 5, 0x92, 0));
    assert_eq!(w.ctrl, CTRL_TX_ACK);
    assert_eq!(w.dev_addr, None);
    assert_eq!(st.address, 0x12);
    let w2 = handle_in(&mut st, 0x80, 0x40);
    assert_eq!(w2.dev_addr, Some(0x92));
    assert_eq!(st.setup_req_code, 0);
    let w3 = handle_in(&mut st, 0x92, 0x00);
    assert_eq!(w3.dev_addr, None);
}

#[test]
fn set_configuration_and_status() {
    let mut st = UsbDeviceState::new();
    handle_setup(&mut st, setup(0x00, 9, 1, 0));
    assert_eq!(st.config, 1);
    let w = handle_setup(&mut st, setup(0x80, 0, 0, 1));
    assert_eq!(w.buffer, vec![0, 0]);
    assert_eq!(w.tx_len, Some(1));
    st.bus_reset();
    assert_eq!(st.config, 0);
    assert_eq!(st.address, 0);
}

#[test]
fn unknown_standard_requests() {
    let mut st = UsbDeviceState::new();
    let w = handle_setup(&mut st, setup(0x80, 10, 0, 1));
    assert_eq!(w.ctrl, CTRL_TX_ACK);
    assert_eq!(w.tx_len, Some(0));
    let w = handle_setup(&mut st, setup(0x00, 3, 0, 0));
    assert_eq!(w.ctrl, CTRL_STALL);
    let w = handle_setup(&mut st, setup(0x40, 1, 0, 0));
    assert_eq!(w.ctrl, CTRL_STALL);
}

#[test]
fn line_coding_get_and_set() {
    let mut st = UsbDeviceState::new();
    let w = handle_setup(&mut st, setup(0xA1, 0x21, 0, 7));
    assert_eq!(w.buffer, vec![0x00, 0xC2, 0x01, 0x00, 0x00, 0x00, 0x08]);
    assert_eq!(w.tx_len, Some(7));
    let w = handle_setup(&mut st, setup(0x21, 0x20, 0, 7));
    assert_eq!(w.ctrl, CTRL_RX_ACK);
    assert_eq!(w.tx_len, None);
    let w = handle_ep0_out(&mut st, 7, &[0x80, 0x25, 0, 0, 0, 0, 8, 0]);
    assert_eq!(w.ctrl, CTRL_TX_ACK);
    assert_eq!(st.line_coding, vec![0x80, 0x25, 0, 0, 0, 0, 8]);
    assert_eq!(st.setup_req_code, 0);
    let w = handle_setup(&mut st, setup(0xA1, 0x21, 0, 4));
    assert_eq!(w.buffer, vec![0x80, 0x25, 0, 0, 0, 0, 8]);
    assert_eq!(w.tx_len, Some(4));
}

#[test]
fn short_line_coding_is_ignored() {
    let mut st = UsbDeviceState::new();
    handle_setup(&mut st, setup(0x21, 0x20, 0, 7));
    handle_ep0_out(&mut st, 3, &[1, 2, 3, 4, 5, 6, 7]);
    assert_eq!(st.line_coding, vec![0x00, 0xC2, 0x01, 0x00, 0x00, 0x00, 0x08]);
    let w = handle_ep0_out(&mut st, 0, &[0; 7]);
    assert_eq!(w.ctrl, CTRL_IDLE);
}

#[test]
fn class_control_line_state_and_unknown() {
    let mut st = UsbDeviceState::new();
    let w = handle_setup(&mut st, setup(0x21, 0x22, 3, 0));
    assert_eq!(w.ctrl, CTRL_TX_ACK);
    let w = handle_setup(&mut st, setup(0x21, 0x7F, 0, 0));
    assert_eq!(w.ctrl, CTRL_STALL);
}

#[test]
fn bulk_packets_accepted_when_they_fit() {
    assert_eq!(bulk_out_len(0, 64), None);
    assert_eq!(bulk_out_len(10, 64), Some(10));
    assert_eq!(bulk_out_len(64, 64), Some(64));
    assert_eq!(bulk_out_len(65, 64), None);
}

#[test]
fn interrupt_flags_to_events() {
    assert_eq!(usb_event(0x01, 0, 0), (UsbEvent::BusReset, Some(3)));
    assert_eq!(usb_event(0x03, 0x30, 0), (UsbEvent::BusReset, Some(3)));
    assert_eq!(usb_event(0x02, 0x30, 0), (UsbEvent::Setup, Some(2)));
    assert_eq!(usb_event(0x02, 0x32, 0), (UsbEvent::Setup, Some(2)));
    assert_eq!(usb_event(0x02, 0x20, 0), (UsbEvent::ControlIn, Some(2)));
    assert_eq!(usb_event(0x02, 0x02, 0), (UsbEvent::BulkOut, Some(2)));
    assert_eq!(usb_event(0x02, 0x02, 0x20), (UsbEvent::ControlOut, Some(2)));
    assert_eq!(usb_event(0x02, 0x00, 0), (UsbEvent::ControlOut, Some(2)));
    assert_eq!(usb_event(0x02, 0x10, 0), (UsbEvent::OtherTransfer, Some(2)));
    assert_eq!(usb_event(0x04, 0, 0), (UsbEvent::Suspend, Some(4)));
    assert_eq!(usb_event(0x00, 0x30, 0), (UsbEvent::Idle, None));
}

#[test]
fn copies_byte_ranges() {
    let v = vec![1u8, 2, 3, 4, 5];
    assert_eq!(copy_range(&v, 1, 4), vec![2, 3, 4]);
    assert!(copy_range(&v, 2, 2).is_empty());
}
