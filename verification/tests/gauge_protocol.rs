use pointify::serial::wire_voltage;
use pointify::firmware::{
    command_for_word, commands_for_packet, duty_u16, duty_u32, is_5v_supply,
    outputs_zeroed_before_bootloader, FirmwareCommand,
    PwmOutput,
};
use pointify::gauge_protocol::{
    bootloader_frame, decode_frame, decode_gauge_word, encode_frame, encode_gauge_word,
    reset_frame, words_to_bytes, GaugeWord,
};

#[test]
fn word_carries_voltage_index_and_level() {
    assert_eq!(encode_gauge_word(true, 3, 512), 0x8E00);
    assert_eq!(encode_gauge_word(false, 0, 0), 0);
    assert_eq!(encode_gauge_word(false, 31, 1023), 0x7FFF);
}

#[test]
fn word_caps_level_and_wraps_index() {
    assert_eq!(encode_gauge_word(false, 1, 5000), 0x07FF);
    assert_eq!(encode_gauge_word(false, 33, 0), 0x0400);
}

#[test]
fn decodes_word_fields() {
    assert_eq!(
        decode_gauge_word(0x8E00),
        GaugeWord { five_volt: true, index: 3, value: 512 }
    );
    assert_eq!(
        decode_gauge_word(0x7FFF),
        GaugeWord { five_volt: false, index: 31, value: 1023 }
    );
}

#[test]
fn frame_is_big_endian_words_per_slot() {
    assert_eq!(
        encode_frame(&vec![0, 1023, 512], false, 3),
        vec![0x00, 0x00, 0x07, 0xFF, 0x0A, 0x00]
    );
}

#[test]
fn frame_pads_missing_levels_with_zero() {
    assert_eq!(encode_frame(&vec![], true, 2), vec![0x80, 0x00, 0x84, 0x00]);
    assert!(encode_frame(&vec![5, 6], false, 0).is_empty());
}

#[test]
fn raw_words_serialise_big_endian() {
    assert_eq!(words_to_bytes(&vec![0x1234, 0x0001]), vec![0x12, 0x34, 0x00, 0x01]);
}

#[test]
fn decoding_ignores_trailing_odd_byte() {
    assert_eq!(
        decode_frame(&[0x84, 0x00, 0x07]),
        vec![GaugeWord { five_volt: true, index: 1, value: 0 }]
    );
    assert!(decode_frame(&[]).is_empty());
}

#[test]
fn frame_roundtrip_on_concrete_levels() {
    let bytes = encode_frame(&vec![100, 2000], true, 3);
    assert_eq!(
        decode_frame(&bytes),
        vec![
            GaugeWord { five_volt: true, index: 0, value: 100 },
            GaugeWord { five_volt: true, index: 1, value: 1023 },
            GaugeWord { five_volt: true, index: 2, value: 0 },
        ]
    );
}

#[test]
fn reset_frame_zeroes_eight_gauges() {
    let expected: Vec<u8> = (0u16..8).flat_map(|i| (i << 10).to_be_bytes()).collect();
    assert_eq!(reset_frame(), expected);
}

#[test]
fn bootloader_request_bytes() {
    assert_eq!(bootloader_frame(), vec![0x7F, 0xFF]);
    assert_eq!(
        commands_for_packet(&bootloader_frame(), false),
        vec![FirmwareCommand::EnterBootloader]
    );
}

#[test]
fn supply_is_5v_below_threshold() {
    assert!(is_5v_supply(1199));
    assert!(!is_5v_supply(1200));
    assert!(!is_5v_supply(2000));
}

#[test]
fn duty_scales_level_to_timer_range() {
    assert_eq!(duty_u32(1023, 1000, false), 1000);
    assert_eq!(duty_u32(512, 1000, false), 500);
    assert_eq!(duty_u32(0, 1000, true), 0);
    assert_eq!(duty_u32(1023, 1000, true), 600);
}

#[test]
fn duty_of_sixteen_bit_timer() {
    assert_eq!(duty_u16(1023, 47999, false), 47999);
    assert_eq!(duty_u16(1023, 48000, true), 28800);
}

#[test]
fn word_selects_wired_output() {
    assert_eq!(
        command_for_word(0x8E00, true),
        FirmwareCommand::SetDuty { output: PwmOutput::Tim2Ch4, value: 512, scale_3v: false }
    );
    assert_eq!(
        command_for_word(0x0E00, true),
        FirmwareCommand::SetDuty { output: PwmOutput::Tim2Ch4, value: 512, scale_3v: true }
    );
    assert_eq!(
        command_for_word(0x0E00, false),
        FirmwareCommand::SetDuty { output: PwmOutput::Tim2Ch4, value: 512, scale_3v: false }
    );
    assert_eq!(
        command_for_word(7 << 10, false),
        FirmwareCommand::SetDuty { output: PwmOutput::Tim3Ch2, value: 0, scale_3v: false }
    );
    assert_eq!(
        command_for_word(0x03FF, false),
        FirmwareCommand::SetDuty { output: PwmOutput::Tim1Ch1N, value: 1023, scale_3v: false }
    );
}

#[test]
fn unwired_indices_are_ignored() {
    assert_eq!(command_for_word(8 << 10, false), FirmwareCommand::Ignore);
    assert_eq!(command_for_word(0x7FFE, false), FirmwareCommand::Ignore);
    assert_eq!(command_for_word(0xFFFF, true), FirmwareCommand::EnterBootloader);
}

#[test]
fn application_frame_drives_firmware_outputs() {
    let bytes = encode_frame(&vec![1023, 10], false, 2);
    assert_eq!(
        commands_for_packet(&bytes, true),
        vec![
            FirmwareCommand::SetDuty { output: PwmOutput::Tim1Ch1N, value: 1023, scale_3v: true },
            FirmwareCommand::SetDuty { output: PwmOutput::Tim1Ch3N, value: 10, scale_3v: true },
        ]
    );
}

#[test]
fn three_volt_overshoot_scaled_only_once() {
    let wire = wire_voltage("3", true);
    let bytes = encode_frame(&vec![600], wire.five_volt, 1);
    assert_eq!(
        commands_for_packet(&bytes, true),
        vec![FirmwareCommand::SetDuty { output: PwmOutput::Tim1Ch1N, value: 600, scale_3v: false }]
    );
    let wire = wire_voltage("3", false);
    let bytes = encode_frame(&vec![600], wire.five_volt, 1);
    assert_eq!(
        commands_for_packet(&bytes, true),
        vec![FirmwareCommand::SetDuty { output: PwmOutput::Tim1Ch1N, value: 600, scale_3v: true }]
    );
}

#[test]
fn bootloader_zeroes_every_gauge_output() {
    let zeroed = outputs_zeroed_before_bootloader();
    assert_eq!(
        zeroed,
        vec![
            PwmOutput::Tim2Ch1,
            PwmOutput::Tim2Ch2,
            PwmOutput::Tim2Ch3,
            PwmOutput::Tim2Ch4,
            PwmOutput::Tim3Ch1,
            PwmOutput::Tim3Ch2,
            PwmOutput::Tim1Ch1N,
            PwmOutput::Tim1Ch3N,
        ]
    );
    for index in 0u16..8 {
        match command_for_word(index << 10, true) {
            FirmwareCommand::SetDuty { output, .. } => assert!(zeroed.contains(&output)),
            other => panic!("gauge {} gave {:?}", index, other),
        }
    }
}
