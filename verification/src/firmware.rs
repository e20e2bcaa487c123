//! Command handling of the gauge firmware: which PWM output a received gauge
//! word drives, and at which duty.
use vstd::prelude::*;
use crate::gauge_protocol::{
    decode_frame, decode_frame_spec, decode_spec, GaugeWord, BOOTLOADER_INDEX, PWM_MAX,
};

verus! {

/// Raw ADC reading of the internal reference below which the supply is 5 V.
pub const VREF_5V_THRESHOLD: u32 = 1200;

/// The eight PWM outputs wired to gauges, named by timer and channel.
#[derive(Clone, Copy, Debug, PartialEq, Eq, Structural)]
pub enum PwmOutput {
    /// TIM1 channel 1 complementary output (PA7).
    Tim1Ch1N,
    /// TIM1 channel 3 complementary output (PB1).
    Tim1Ch3N,
    /// TIM3 channel 1 (PC19).
    Tim3Ch1,
    /// TIM3 channel 2 (PC18).
    Tim3Ch2,
    /// TIM2 channel 4 (PA3).
    Tim2Ch4,
    /// TIM2 channel 3 (PA2).
    Tim2Ch3,
    /// TIM2 channel 2 (PA1).
    Tim2Ch2,
    /// TIM2 channel 1 (PA0).
    Tim2Ch1,
}

/// What the firmware does with one received word.
#[derive(Clone, Copy, Debug, PartialEq, Eq, Structural)]
pub enum FirmwareCommand {
    /// Set `output` to PWM level `value` (0..=1023), scaled by 3/5 when
    /// `scale_3v` holds.
    SetDuty { output: PwmOutput, value: u16, scale_3v: bool },
    /// Zero every output and reboot into the USB bootloader.
    EnterBootloader,
    /// The word addresses no output.
    Ignore,
}

/// The output wired to gauge `index`, if any.
pub open spec fn output_for_index(index: u8) -> Option<PwmOutput> {
    if index == 0 {
        Some(PwmOutput::Tim1Ch1N)
    } else if index == 1 {
        Some(PwmOutput::Tim1Ch3N)
    } else if index == 2 {
        Some(PwmOutput::Tim3Ch1)
    } else if index == 3 {
        Some(PwmOutput::Tim2Ch4)
    } else if index == 4 {
        Some(PwmOutput::Tim2Ch3)
    } else if index == 5 {
        Some(PwmOutput::Tim2Ch2)
    } else if index == 6 {
        Some(PwmOutput::Tim2Ch1)
    } else if index == 7 {
        Some(PwmOutput::Tim3Ch2)
    } else {
        None
    }
}

/// The command a decoded word stands for on a board whose supply is 5 V
/// exactly when `supply_5v` holds.
pub open spec fn command_spec(g: GaugeWord, supply_5v: bool) -> FirmwareCommand {
    match output_for_index(g.index) {
        Some(output) => FirmwareCommand::SetDuty {
            output,
            value: g.value,
            scale_3v: supply_5v && !g.five_volt,
        },
        None => if g.index == BOOTLOADER_INDEX && g.value == PWM_MAX {
            FirmwareCommand::EnterBootloader
        } else {
            FirmwareCommand::Ignore
        },
    }
}

/// The duty a 32-bit timer channel gets for PWM level `value`.
pub open spec fn duty_spec(value: int, max_duty: int, scale_3v: bool) -> int {
    if scale_3v {
        (value * max_duty * 3) / 5115int
    } else {
        (value * max_duty) / 1023int
    }
}

/// Whether the supply is 5 V, from the raw internal-reference ADC reading.
pub fn is_5v_supply(vref_raw: u32) -> (r: bool)
    ensures
        r == (vref_raw < VREF_5V_THRESHOLD),
{
    vref_raw < VREF_5V_THRESHOLD
}

/// Duty of a 32-bit timer channel: `value / 1023` of `max_duty`, times 3/5
/// when a 3 V gauge runs on a 5 V supply.
pub fn duty_u32(value: u16, max_duty: u32, scale_3v: bool) -> (d: u32)
    requires
        value as int * max_duty as int * (if scale_3v { 3int } else { 1int }) <= u32::MAX,
    ensures
        d as int == duty_spec(value as int, max_duty as int, scale_3v),
{
    if scale_3v {
        assert(value as int * max_duty as int * 3 == value as int * (max_duty as int * 3))
            by (nonlinear_arith);
        (value as u32 * max_duty * 3) / (1023 * 5)
    } else {
        (value as u32 * max_duty) / 1023
    }
}

/// Duty of a 16-bit timer register: as `duty_u32`, truncated to 16 bits.
pub fn duty_u16(value: u16, max_duty: u16, scale_3v: bool) -> (d: u16)
    requires
        value as int * max_duty as int * (if scale_3v { 3int } else { 1int }) <= u32::MAX,
    ensures
        d as int == duty_spec(value as int, max_duty as int, scale_3v) % 65536,
{
    let wide: u32 = if scale_3v {
        (value as u32 * max_duty as u32 * 3) / (1023 * 5)
    } else {
        (value as u32 * max_duty as u32) / 1023
    };
    assert(wide as u16 == wide % 65536) by (bit_vector);
    wide as u16
}

/// The command for one raw word.
pub fn command_for_word(raw: u16, supply_5v: bool) -> (c: FirmwareCommand)
    ensures
        c == command_spec(decode_spec(raw), supply_5v),
{
    let g = crate::gauge_protocol::decode_gauge_word(raw);
    let scale_3v = supply_5v && !g.five_volt;
    let output = if g.index == 0 {
        Some(PwmOutput::Tim1Ch1N)
    } else if g.index == 1 {
        Some(PwmOutput::Tim1Ch3N)
    } else if g.index == 2 {
        Some(PwmOutput::Tim3Ch1)
    } else if g.index == 3 {
        Some(PwmOutput::Tim2Ch4)
    } else if g.index == 4 {
        Some(PwmOutput::Tim2Ch3)
    } else if g.index == 5 {
        Some(PwmOutput::Tim2Ch2)
    } else if g.index == 6 {
        Some(PwmOutput::Tim2Ch1)
    } else if g.index == 7 {
        Some(PwmOutput::Tim3Ch2)
    } else {
        None
    };
    match output {
        Some(output) => FirmwareCommand::SetDuty { output, value: g.value, scale_3v },
        None => {
            if g.index == BOOTLOADER_INDEX && g.value == PWM_MAX {
                FirmwareCommand::EnterBootloader
            } else {
                FirmwareCommand::Ignore
            }
        },
    }
}

/// The commands for the bytes received in one USB packet, one per complete
/// pair of bytes, in order.
pub fn commands_for_packet(bytes: &[u8], supply_5v: bool) -> (cmds: Vec<FirmwareCommand>)
    ensures
        cmds@ == decode_frame_spec(bytes@).map_values(|g: GaugeWord| command_spec(g, supply_5v)),
{
    let words = decode_frame(bytes);
    let mut cmds: Vec<FirmwareCommand> = Vec::new();
    let mut i: usize = 0;
    while i < words.len()
        invariant
            words@ == decode_frame_spec(bytes@),
            i <= words@.len(),
            cmds@.len() == i,
            forall|k: int| 0 <= k < i ==> cmds@[k] == command_spec(#[trigger] words@[k], supply_5v),
        decreases words@.len() - i,
    {
        let g = words[i];
        let raw: u16 = (if g.five_volt { 32768u16 } else { 0u16 }) + (g.index as u16) * 1024 + g.value;
        proof {
            let w = crate::gauge_protocol::word_at(bytes@, i as int);
            assert(g == decode_spec(w));
            assert(raw as int == w as int);
        }
        cmds.push(command_for_word(raw, supply_5v));
        i = i + 1;
    }
    assert(cmds@ =~= decode_frame_spec(bytes@).map_values(|g: GaugeWord| command_spec(g, supply_5v)));
    cmds
}

/// A frame built by the application for gauge slots `0..count` makes the
/// firmware set, for each slot below 8, the output wired to that slot to the
/// slot's capped level, scaled by 3/5 exactly when a 3 V gauge runs on a 5 V
/// supply.
pub proof fn law_frame_drives_gauges(pwms: Seq<u16>, five_volt: bool, count: nat, supply_5v: bool)
    ensures
        ({
            let cmds = decode_frame_spec(crate::gauge_protocol::frame_spec(pwms, five_volt, count))
                .map_values(|g: GaugeWord| command_spec(g, supply_5v));
            &&& cmds.len() == count
            &&& forall|i: int|
                0 <= i < count && i < 8 ==> #[trigger] cmds[i] == (FirmwareCommand::SetDuty {
                    output: output_for_index(i as u8)->0,
                    value: (if i < pwms.len() {
                        crate::gauge_protocol::min_int(pwms[i] as int, 1023)
                    } else {
                        0
                    }) as u16,
                    scale_3v: supply_5v && !five_volt,
                })
        }),
{
    crate::gauge_protocol::law_frame_roundtrip(pwms, five_volt, count);
}

/// The two-byte bootloader request makes the firmware enter its bootloader,
/// whatever the supply.
pub proof fn law_bootloader_request(supply_5v: bool)
    ensures
        decode_frame_spec(seq![0x7Fu8, 0xFFu8]).map_values(
            |g: GaugeWord| command_spec(g, supply_5v),
        ) == seq![FirmwareCommand::EnterBootloader],
{
    crate::gauge_protocol::law_bootloader_frame_decodes();
    assert(decode_frame_spec(seq![0x7Fu8, 0xFFu8]).map_values(
        |g: GaugeWord| command_spec(g, supply_5v),
    ) =~= seq![FirmwareCommand::EnterBootloader]);
}

/// Full level gives full duty, no level gives none, the duty never exceeds the
/// timer's maximum, and the 3 V scaling never raises it.
pub proof fn law_duty_bounds(value: int, max_duty: int)
    requires
        0 <= value <= 1023,
        0 <= max_duty,
    ensures
        duty_spec(1023, max_duty, false) == max_duty,
        duty_spec(0, max_duty, false) == 0,
        duty_spec(0, max_duty, true) == 0,
        0 <= duty_spec(value, max_duty, true) <= duty_spec(value, max_duty, false) <= max_duty,
{
    assert((1023 * max_duty) / 1023 == max_duty) by (nonlinear_arith)
        requires max_duty >= 0;
    assert(0 <= value * max_duty <= 1023 * max_duty) by (nonlinear_arith)
        requires 0 <= value <= 1023, max_duty >= 0;
    assert((value * max_duty) / 1023 <= max_duty) by (nonlinear_arith)
        requires 0 <= value * max_duty <= 1023 * max_duty, max_duty >= 0;
    assert(value * max_duty * 3 == (value * max_duty) * 3) by (nonlinear_arith);
    let x = value * max_duty;
    assert((x * 3) / 5115 <= x / 1023) by (nonlinear_arith)
        requires x >= 0;
    assert(0 <= (x * 3) / 5115) by (nonlinear_arith)
        requires x >= 0;
}

/// The 3/5 scaling of a 3 V gauge happens once: a frame sent with the wire
/// voltage of a 3 V gauge in overshoot mode makes the firmware drive every
/// wired slot unscaled (the application scaled the level down itself), and a
/// frame for a 3 V gauge without overshoot is scaled by the firmware exactly
/// on a 5 V supply.
pub proof fn law_single_3v_scaling(pwms: Seq<u16>, overshoot: bool, count: nat, supply_5v: bool)
    ensures
        ({
            let wire = crate::serial::wire_voltage_spec("3"@, overshoot);
            let cmds = decode_frame_spec(crate::gauge_protocol::frame_spec(pwms, wire.five_volt, count))
                .map_values(|g: GaugeWord| command_spec(g, supply_5v));
            forall|i: int|
                0 <= i < count && i < 8 ==> (#[trigger] cmds[i] is SetDuty && cmds[i]->scale_3v == (
                supply_5v && !wire.scale_down))
        }),
{
    let wire = crate::serial::wire_voltage_spec("3"@, overshoot);
    law_frame_drives_gauges(pwms, wire.five_volt, count, supply_5v);
    reveal_strlit("3");
    reveal_strlit("5");
    assert("3"@[0] != "5"@[0]);
}

/// The outputs zeroed, in order, before rebooting into the bootloader.
pub open spec fn bootloader_zero_order() -> Seq<PwmOutput> {
    seq![
        PwmOutput::Tim2Ch1,
        PwmOutput::Tim2Ch2,
        PwmOutput::Tim2Ch3,
        PwmOutput::Tim2Ch4,
        PwmOutput::Tim3Ch1,
        PwmOutput::Tim3Ch2,
        PwmOutput::Tim1Ch1N,
        PwmOutput::Tim1Ch3N,
    ]
}

/// The outputs to set to duty 0, in order, on `EnterBootloader`, as visual
/// confirmation before the reboot.
pub fn outputs_zeroed_before_bootloader() -> (v: Vec<PwmOutput>)
    ensures
        v@ == bootloader_zero_order(),
{
    let v = vec![
        PwmOutput::Tim2Ch1,
        PwmOutput::Tim2Ch2,
        PwmOutput::Tim2Ch3,
        PwmOutput::Tim2Ch4,
        PwmOutput::Tim3Ch1,
        PwmOutput::Tim3Ch2,
        PwmOutput::Tim1Ch1N,
        PwmOutput::Tim1Ch3N,
    ];
    assert(v@ =~= bootloader_zero_order());
    v
}

/// Entering the bootloader zeroes every gauge output: the output of each
/// gauge index 0 to 7 is among the outputs zeroed first, each of them once.
pub proof fn law_bootloader_zeroes_all_gauges(index: u8)
    requires
        index < 8,
    ensures
        output_for_index(index) matches Some(o) && bootloader_zero_order().contains(o),
        bootloader_zero_order().no_duplicates(),
{
    let z = bootloader_zero_order();
    assert(z[0] == PwmOutput::Tim2Ch1);
    assert(z[1] == PwmOutput::Tim2Ch2);
    assert(z[2] == PwmOutput::Tim2Ch3);
    assert(z[3] == PwmOutput::Tim2Ch4);
    assert(z[4] == PwmOutput::Tim3Ch1);
    assert(z[5] == PwmOutput::Tim3Ch2);
    assert(z[6] == PwmOutput::Tim1Ch1N);
    assert(z[7] == PwmOutput::Tim1Ch3N);
}

/// The board's wiring, by gauge index: 0 -> TIM1 CH1N (PA7), 1 -> TIM1 CH3N
/// (PB1), 2 -> TIM3 CH1, 3 -> TIM2 CH4 (PA3), 4 -> TIM2 CH3 (PA2), 5 -> TIM2
/// CH2 (PA1), 6 -> TIM2 CH1 (PA0), 7 -> TIM3 CH2. A word for gauge index `i`
/// below 8 (bits 10 to 14) sets exactly that output to the word's level (low
/// ten bits), scaled to 3 V when the supply is 5 V and the word's top bit
/// does not mark a 5 V gauge; distinct gauges drive distinct outputs.
pub proof fn law_gauge_wiring(raw: u16, supply_5v: bool)
    requires
        (raw as int / 1024) % 32 < 8,
    ensures
        command_spec(decode_spec(raw), supply_5v) == (FirmwareCommand::SetDuty {
            output: seq![
                PwmOutput::Tim1Ch1N,
                PwmOutput::Tim1Ch3N,
                PwmOutput::Tim3Ch1,
                PwmOutput::Tim2Ch4,
                PwmOutput::Tim2Ch3,
                PwmOutput::Tim2Ch2,
                PwmOutput::Tim2Ch1,
                PwmOutput::Tim3Ch2,
            ][(raw as int / 1024) % 32],
            value: (raw as int % 1024) as u16,
            scale_3v: supply_5v && raw < 32768,
        }),
        forall|i: u8, j: u8|
            i < 8 && j < 8 && i != j ==> #[trigger] output_for_index(i) != #[trigger] output_for_index(
                j,
            ),
{
}

} // verus!
