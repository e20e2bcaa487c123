//! The gauge firmware's USB CDC-ACM device logic: the control-endpoint state
//! machine (standard and CDC class requests, descriptor transfers) and the
//! dispatch of USB interrupt flags. Every handler returns the register values
//! to write; the caller owns the hardware.
use vstd::prelude::*;

verus! {

/// Size of the control endpoint's packet buffer.
pub const EP0_SIZE: usize = 64;

pub const USB_REQ_GET_STATUS: u8 = 0;
pub const USB_REQ_CLEAR_FEATURE: u8 = 1;
pub const USB_REQ_SET_ADDRESS: u8 = 5;
pub const USB_REQ_GET_DESCRIPTOR: u8 = 6;
pub const USB_REQ_SET_CONFIGURATION: u8 = 9;

pub const DESC_DEVICE: u8 = 1;
pub const DESC_CONFIGURATION: u8 = 2;
pub const DESC_STRING: u8 = 3;

pub const CDC_SET_LINE_CODING: u8 = 0x20;
pub const CDC_GET_LINE_CODING: u8 = 0x21;
pub const CDC_SET_CONTROL_LINE_STATE: u8 = 0x22;

pub const USB_REQ_TYPE_STANDARD: u8 = 0x00;
pub const USB_REQ_TYPE_CLASS: u8 = 0x20;
pub const USB_REQ_TYPE_MASK: u8 = 0x60;

pub const UEP_T_RES_ACK: u8 = 0x00;
pub const UEP_T_RES_NAK: u8 = 0x02;
pub const UEP_T_RES_STALL: u8 = 0x03;
pub const UEP_T_RES_MASK: u8 = 0x03;
pub const UEP_R_RES_ACK: u8 = 0x00;
pub const UEP_R_RES_NAK: u8 = 0x08;
pub const UEP_R_RES_STALL: u8 = 0x0C;
pub const UEP_T_TOG: u8 = 0x40;
pub const UEP_R_TOG: u8 = 0x80;

/// Control value that answers the data or status stage with ACK.
pub const CTRL_TX_ACK: u8 = 0x40;
/// Control value that stalls both directions.
pub const CTRL_STALL: u8 = 0xCF;
/// Control value that accepts the OUT data/status stage.
pub const CTRL_RX_ACK: u8 = 0x80;
/// Control value after a completed status OUT stage.
pub const CTRL_IDLE: u8 = 0x02;

/// The device descriptor (VID 0x0200, PID 0x02DB, CDC class, USB 1.1).
pub open spec fn device_descriptor_spec() -> Seq<u8> {
    seq![
        0x12u8, 0x01, 0x10, 0x01, 0x02, 0x02, 0x00, 0x40, 0x00, 0x02, 0xDB, 0x02, 0x00, 0x01, 0x01,
        0x02, 0x03, 0x01,
    ]
}

/// The configuration descriptor: CDC communication interface with its
/// notification endpoint, CDC data interface with bulk OUT 2 and IN 3.
pub open spec fn configuration_descriptor_spec() -> Seq<u8> {
    seq![
        0x09u8, 0x02, 67, 0x00, 0x02, 0x01, 0x00, 0x80, 0x32, 0x09, 0x04, 0x00, 0x00, 0x01, 0x02,
        0x02, 0x01, 0x00, 0x05, 0x24, 0x00, 0x10, 0x01, 0x05, 0x24, 0x01, 0x00, 0x01, 0x04, 0x24,
        0x02, 0x02, 0x05, 0x24, 0x06, 0x00, 0x01, 0x07, 0x05, 0x81, 0x03, 0x08, 0x00, 0xFF, 0x09,
        0x04, 0x01, 0x00, 0x02, 0x0A, 0x00, 0x00, 0x00, 0x07, 0x05, 0x02, 0x02, 0x40, 0x00, 0x00,
        0x07, 0x05, 0x83, 0x02, 0x40, 0x00, 0x00,
    ]
}

/// String descriptor `index` (language list, manufacturer, product, serial).
pub open spec fn string_descriptor_spec(index: u8) -> Option<Seq<u8>> {
    if index == 0 {
        Some(seq![0x04u8, 0x03, 0x09, 0x04])
    } else if index == 1 {
        Some(
            seq![
                18u8, 0x03, 0x70, 0, 0x6F, 0, 0x69, 0, 0x6E, 0, 0x74, 0, 0x69, 0, 0x66, 0, 0x79, 0,
            ],
        )
    } else if index == 2 {
        Some(
            seq![
                18u8, 0x03, 0x50, 0, 0x6F, 0, 0x69, 0, 0x6E, 0, 0x74, 0, 0x69, 0, 0x66, 0, 0x79, 0,
            ],
        )
    } else if index == 3 {
        Some(seq![10u8, 0x03, 0x30, 0, 0x30, 0, 0x30, 0, 0x31, 0])
    } else {
        None
    }
}

/// The descriptor a GET_DESCRIPTOR request's value names, if the device has it.
pub open spec fn descriptor_spec(w_value: u16) -> Option<Seq<u8>> {
    let desc_type = (w_value as int / 256) as u8;
    let desc_index = (w_value as int % 256) as u8;
    if desc_type == DESC_DEVICE {
        Some(device_descriptor_spec())
    } else if desc_type == DESC_CONFIGURATION {
        Some(configuration_descriptor_spec())
    } else if desc_type == DESC_STRING {
        string_descriptor_spec(desc_index)
    } else {
        None
    }
}

/// The bytes of descriptor `w_value`, if the device has it.
pub fn descriptor(w_value: u16) -> (d: Option<Vec<u8>>)
    ensures
        match descriptor_spec(w_value) {
            Some(s) => d is Some && d->0@ == s,
            None => d is None,
        },
{
    let desc_type = (w_value >> 8u16) as u8;
    let desc_index = (w_value & 0xFF) as u8;
    assert((w_value >> 8u16) as u8 == (w_value as int / 256) as u8) by (bit_vector);
    assert((w_value & 0xFF) as u8 == (w_value as int % 256) as u8) by (bit_vector);
    let d = if desc_type == DESC_DEVICE {
        Some(
            vec![
                0x12u8, 0x01, 0x10, 0x01, 0x02, 0x02, 0x00, 0x40, 0x00, 0x02, 0xDB, 0x02, 0x00, 0x01,
                0x01, 0x02, 0x03, 0x01,
            ],
        )
    } else if desc_type == DESC_CONFIGURATION {
        Some(
            vec![
                0x09u8, 0x02, 67, 0x00, 0x02, 0x01, 0x00, 0x80, 0x32, 0x09, 0x04, 0x00, 0x00, 0x01,
                0x02, 0x02, 0x01, 0x00, 0x05, 0x24, 0x00, 0x10, 0x01, 0x05, 0x24, 0x01, 0x00, 0x01,
                0x04, 0x24, 0x02, 0x02, 0x05, 0x24, 0x06, 0x00, 0x01, 0x07, 0x05, 0x81, 0x03, 0x08,
                0x00, 0xFF, 0x09, 0x04, 0x01, 0x00, 0x02, 0x0A, 0x00, 0x00, 0x00, 0x07, 0x05, 0x02,
                0x02, 0x40, 0x00, 0x00, 0x07, 0x05, 0x83, 0x02, 0x40, 0x00, 0x00,
            ],
        )
    } else if desc_type == DESC_STRING {
        if desc_index == 0 {
            Some(vec![0x04u8, 0x03, 0x09, 0x04])
        } else if desc_index == 1 {
            Some(
                vec![
                    18u8, 0x03, 0x70, 0, 0x6F, 0, 0x69, 0, 0x6E, 0, 0x74, 0, 0x69, 0, 0x66, 0, 0x79,
                    0,
                ],
            )
        } else if desc_index == 2 {
            Some(
                vec![
                    18u8, 0x03, 0x50, 0, 0x6F, 0, 0x69, 0, 0x6E, 0, 0x74, 0, 0x69, 0, 0x66, 0, 0x79,
                    0,
                ],
            )
        } else if desc_index == 3 {
            Some(vec![10u8, 0x03, 0x30, 0, 0x30, 0, 0x30, 0, 0x31, 0])
        } else {
            None
        }
    } else {
        None
    };
    proof {
        if d is Some {
            assert(d->0@ =~= descriptor_spec(w_value)->0);
        }
    }
    d
}


/// The eight bytes of a SETUP packet, decoded.
#[derive(Clone, Copy, Debug, PartialEq, Eq, Structural)]
pub struct SetupPacket {
    pub request_type: u8,
    pub request: u8,
    pub value: u16,
    pub length: u16,
}

/// Decodes a SETUP packet from the start of the control buffer
/// (little-endian `wValue` at bytes 2..4, `wLength` at bytes 6..8).
pub fn parse_setup(buf: &[u8]) -> (p: SetupPacket)
    requires
        buf@.len() >= 8,
    ensures
        p.request_type == buf@[0],
        p.request == buf@[1],
        p.value as int == buf@[2] as int + 256 * buf@[3] as int,
        p.length as int == buf@[6] as int + 256 * buf@[7] as int,
{
    SetupPacket {
        request_type: buf[0],
        request: buf[1],
        value: buf[2] as u16 + 256 * (buf[3] as u16),
        length: buf[6] as u16 + 256 * (buf[7] as u16),
    }
}

/// State of the control endpoint and the device.
pub struct UsbDeviceState {
    /// Selected configuration (0: not configured).
    pub config: u8,
    /// Address assigned by SET_ADDRESS, applied after its status stage.
    pub address: u8,
    /// Request code of the last SETUP packet still awaiting its completion.
    pub setup_req_code: u8,
    /// Descriptor bytes still to be sent on later IN tokens.
    pub pending: Vec<u8>,
    /// CDC line coding (rate, stop bits, parity, data bits): 7 bytes.
    pub line_coding: Vec<u8>,
}

/// The state as plain values.
pub struct UsbView {
    pub config: u8,
    pub address: u8,
    pub setup_req_code: u8,
    pub pending: Seq<u8>,
    pub line_coding: Seq<u8>,
}

impl View for UsbDeviceState {
    type V = UsbView;

    open spec fn view(&self) -> UsbView {
        UsbView {
            config: self.config,
            address: self.address,
            setup_req_code: self.setup_req_code,
            pending: self.pending@,
            line_coding: self.line_coding@,
        }
    }
}

/// Register values a handler asks the caller to write.
pub struct Ep0Write {
    /// Bytes to place at the start of the control endpoint's buffer.
    pub buffer: Vec<u8>,
    /// Value for the control endpoint's transmit length register, if written.
    pub tx_len: Option<u8>,
    /// Value for the control endpoint's control register.
    pub ctrl: u8,
    /// Value for the device address register, if written.
    pub dev_addr: Option<u8>,
}

pub open spec fn min_nat(a: int, b: int) -> int {
    if a <= b { a } else { b }
}

impl UsbDeviceState {
    pub open spec fn wf(&self) -> bool {
        self.line_coding@.len() == 7 && self.pending@.len() <= 255
    }

    /// The state after power-up: unconfigured, address 0, 115200 baud 8N1.
    pub fn new() -> (s: Self)
        ensures
            s.wf(),
            s.config == 0,
            s.address == 0,
            s.setup_req_code == 0,
            s.pending@.len() == 0,
            s.line_coding@ == seq![0x00u8, 0xC2, 0x01, 0x00, 0x00, 0x00, 0x08],
    {
        let s = UsbDeviceState {
            config: 0,
            address: 0,
            setup_req_code: 0,
            pending: Vec::new(),
            line_coding: vec![0x00u8, 0xC2, 0x01, 0x00, 0x00, 0x00, 0x08],
        };
        assert(s.line_coding@ =~= seq![0x00u8, 0xC2, 0x01, 0x00, 0x00, 0x00, 0x08]);
        s
    }

    /// USB bus reset: unconfigured, address 0, no pending transfer.
    pub fn bus_reset(&mut self)
        requires
            old(self).wf(),
        ensures
            final(self).wf(),
            final(self).config == 0,
            final(self).address == 0,
            final(self).pending@.len() == 0,
            final(self).setup_req_code == old(self).setup_req_code,
            final(self).line_coding@ == old(self).line_coding@,
    {
        self.config = 0;
        self.address = 0;
        self.pending = Vec::new();
    }
}

/// The answer that stalls both directions.
pub fn stall() -> (w: Ep0Write)
    ensures
        w.buffer@.len() == 0,
        w.tx_len == Some(0u8),
        w.ctrl == CTRL_STALL,
        w.dev_addr is None,
{
    Ep0Write { buffer: Vec::new(), tx_len: Some(0), ctrl: CTRL_STALL, dev_addr: None }
}

/// A zero-length status/data stage answered with ACK.
pub fn zero_length() -> (w: Ep0Write)
    ensures
        w.buffer@.len() == 0,
        w.tx_len == Some(0u8),
        w.ctrl == CTRL_TX_ACK,
        w.dev_addr is None,
{
    Ep0Write { buffer: Vec::new(), tx_len: Some(0), ctrl: CTRL_TX_ACK, dev_addr: None }
}

/// Bytes `from..to` of `v`.
pub fn copy_range(v: &Vec<u8>, from: usize, to: usize) -> (r: Vec<u8>)
    requires
        from <= to <= v@.len(),
    ensures
        r@ == v@.subrange(from as int, to as int),
{
    let mut r: Vec<u8> = Vec::new();
    let mut i = from;
    while i < to
        invariant
            from <= i <= to <= v@.len(),
            r@ == v@.subrange(from as int, i as int),
        decreases to - i,
    {
        r.push(v[i]);
        assert(v@.subrange(from as int, i + 1) =~= v@.subrange(from as int, i as int).push(v@[i as int]));
        i = i + 1;
    }
    r
}

/// The answer to a standard request.
pub open spec fn standard_reply_ok(
    pre: UsbView,
    post: UsbView,
    p: SetupPacket,
    w: Ep0Write,
) -> bool {
    let acked = w.buffer@.len() == 0 && w.tx_len == Some(0u8) && w.ctrl == CTRL_TX_ACK;
    let stalled = w.buffer@.len() == 0 && w.tx_len == Some(0u8) && w.ctrl == CTRL_STALL;
    &&& w.dev_addr is None
    &&& post.line_coding == pre.line_coding
    &&& post.setup_req_code == pre.setup_req_code
    &&& if p.request == USB_REQ_GET_STATUS {
        &&& w.buffer@ == seq![0u8, 0u8]
        &&& w.tx_len == Some(min_nat(p.length as int, 2) as u8)
        &&& w.ctrl == CTRL_TX_ACK
        &&& post.config == pre.config && post.address == pre.address
        &&& post.pending == pre.pending
    } else if p.request == USB_REQ_CLEAR_FEATURE {
        acked && post.config == pre.config && post.address == pre.address && post.pending
            == pre.pending
    } else if p.request == USB_REQ_SET_ADDRESS {
        acked && post.config == pre.config && post.address as int == p.value as int % 128
            && post.pending == pre.pending
    } else if p.request == USB_REQ_GET_DESCRIPTOR {
        &&& post.config == pre.config && post.address == pre.address
        &&& match descriptor_spec(p.value) {
            None => stalled && post.pending == pre.pending,
            Some(d) => {
                let send_len = min_nat(p.length as int, d.len() as int);
                let chunk = min_nat(send_len, EP0_SIZE as int);
                &&& w.buffer@ == d.subrange(0, chunk)
                &&& w.tx_len == Some(chunk as u8)
                &&& w.ctrl == CTRL_TX_ACK
                &&& post.pending == d.subrange(chunk, send_len)
            },
        }
    } else if p.request == USB_REQ_SET_CONFIGURATION {
        acked && post.config as int == p.value as int % 256 && post.address == pre.address
            && post.pending == pre.pending
    } else {
        &&& post.config == pre.config && post.address == pre.address
        &&& post.pending == pre.pending
        &&& if p.request_type >= 0x80 { acked } else { stalled }
    }
}

/// Handles a standard request (GET_STATUS, CLEAR_FEATURE, SET_ADDRESS,
/// GET_DESCRIPTOR, SET_CONFIGURATION; other device-to-host requests get an
/// empty answer, other host-to-device ones a stall).
pub fn standard_request(state: &mut UsbDeviceState, p: SetupPacket) -> (w: Ep0Write)
    requires
        old(state).wf(),
    ensures
        final(state).wf(),
        standard_reply_ok(old(state)@, final(state)@, p, w),
{
    if p.request == USB_REQ_GET_STATUS {
        let len: u8 = if p.length < 2 { p.length as u8 } else { 2 };
        let buffer = vec![0u8, 0u8];
        assert(buffer@ =~= seq![0u8, 0u8]);
        Ep0Write { buffer, tx_len: Some(len), ctrl: CTRL_TX_ACK, dev_addr: None }
    } else if p.request == USB_REQ_CLEAR_FEATURE {
        zero_length()
    } else if p.request == USB_REQ_SET_ADDRESS {
        let v = p.value;
        state.address = (v & 0x7F) as u8;
        assert((v & 0x7F) as u8 as int == v as int % 128) by (bit_vector);
        zero_length()
    } else if p.request == USB_REQ_GET_DESCRIPTOR {
        match descriptor(p.value) {
            None => stall(),
            Some(desc) => {
                let send_len: usize = if (p.length as usize) < desc.len() {
                    p.length as usize
                } else {
                    desc.len()
                };
                let chunk: usize = if send_len < EP0_SIZE { send_len } else { EP0_SIZE };
                let buffer = copy_range(&desc, 0, chunk);
                state.pending = copy_range(&desc, chunk, send_len);
                Ep0Write { buffer, tx_len: Some(chunk as u8), ctrl: CTRL_TX_ACK, dev_addr: None }
            },
        }
    } else if p.request == USB_REQ_SET_CONFIGURATION {
        let v = p.value;
        state.config = (v & 0xFF) as u8;
        assert((v & 0xFF) as u8 as int == v as int % 256) by (bit_vector);
        zero_length()
    } else {
        let t = p.request_type;
        assert((t & 0x80 != 0) == (t >= 0x80)) by (bit_vector);
        if t & 0x80 != 0 {
            zero_length()
        } else {
            stall()
        }
    }
}

/// The answer to a CDC class request.
pub open spec fn class_reply_ok(
    pre: UsbView,
    post: UsbView,
    p: SetupPacket,
    w: Ep0Write,
) -> bool {
    &&& w.dev_addr is None
    &&& post.line_coding == pre.line_coding
    &&& post.config == pre.config && post.address == pre.address
    &&& post.pending == pre.pending
    &&& post.setup_req_code == pre.setup_req_code
    &&& if p.request == CDC_GET_LINE_CODING {
        &&& w.buffer@ == pre.line_coding
        &&& w.tx_len == Some(min_nat(p.length as int, 7) as u8)
        &&& w.ctrl == CTRL_TX_ACK
    } else if p.request == CDC_SET_LINE_CODING {
        w.buffer@.len() == 0 && w.tx_len is None && w.ctrl == CTRL_RX_ACK
    } else if p.request == CDC_SET_CONTROL_LINE_STATE {
        w.buffer@.len() == 0 && w.tx_len == Some(0u8) && w.ctrl == CTRL_TX_ACK
    } else {
        w.buffer@.len() == 0 && w.tx_len == Some(0u8) && w.ctrl == CTRL_STALL
    }
}

/// Handles a CDC class request (GET/SET_LINE_CODING,
/// SET_CONTROL_LINE_STATE; anything else is stalled).
pub fn class_request(state: &UsbDeviceState, p: SetupPacket) -> (w: Ep0Write)
    requires
        state.wf(),
    ensures
        class_reply_ok(state@, state@, p, w),
{
    if p.request == CDC_GET_LINE_CODING {
        let len: u8 = if p.length < 7 { p.length as u8 } else { 7 };
        let buffer = copy_range(&state.line_coding, 0, 7);
        assert(buffer@ =~= state.line_coding@);
        Ep0Write { buffer, tx_len: Some(len), ctrl: CTRL_TX_ACK, dev_addr: None }
    } else if p.request == CDC_SET_LINE_CODING {
        Ep0Write { buffer: Vec::new(), tx_len: None, ctrl: CTRL_RX_ACK, dev_addr: None }
    } else if p.request == CDC_SET_CONTROL_LINE_STATE {
        zero_length()
    } else {
        stall()
    }
}

/// Handles a SETUP packet: records its request code, drops any pending
/// descriptor data, and answers by request type (standard, class, else stall).
pub fn handle_setup(state: &mut UsbDeviceState, p: SetupPacket) -> (w: Ep0Write)
    requires
        old(state).wf(),
    ensures
        final(state).wf(),
        final(state).setup_req_code == p.request,
        ({
            let mid = UsbView { setup_req_code: p.request, pending: Seq::empty(), ..old(state)@ };
            let kind = p.request_type as int % 128 / 32;
            if kind == 0 {
                standard_reply_ok(mid, final(state)@, p, w)
            } else if kind == 1 {
                class_reply_ok(mid, final(state)@, p, w)
            } else {
                final(state)@ == mid && w.buffer@.len() == 0 && w.tx_len == Some(0u8) && w.ctrl
                    == CTRL_STALL && w.dev_addr is None
            }
        }),
{
    state.setup_req_code = p.request;
    state.pending = Vec::new();
    let t = p.request_type;
    let kind = t & USB_REQ_TYPE_MASK;
    assert((t & 0x60) as int == (t as int % 128 / 32) * 32) by (bit_vector);
    if kind == USB_REQ_TYPE_STANDARD {
        standard_request(state, p)
    } else if kind == USB_REQ_TYPE_CLASS {
        class_request(state, p)
    } else {
        stall()
    }
}


/// Handles an IN token on the control endpoint: applies a pending
/// SET_ADDRESS (keeping the top bit of `current_dev_addr`), then sends the
/// next chunk (at most 64 bytes) of pending descriptor data toggling
/// `current_ctrl`'s data toggle, or, when nothing is pending, accepts the
/// status OUT stage.
pub fn handle_in(state: &mut UsbDeviceState, current_dev_addr: u8, current_ctrl: u8) -> (w: Ep0Write)
    requires
        old(state).wf(),
    ensures
        final(state).wf(),
        final(state).config == old(state).config,
        final(state).address == old(state).address,
        final(state).line_coding@ == old(state).line_coding@,
        if old(state).setup_req_code == USB_REQ_SET_ADDRESS {
            &&& w.dev_addr == Some(
                ((current_dev_addr as int / 128) * 128 + old(state).address as int % 128) as u8,
            )
            &&& final(state).setup_req_code == 0
        } else {
            &&& w.dev_addr is None
            &&& final(state).setup_req_code == old(state).setup_req_code
        },
        ({
            let p = old(state).pending@;
            let chunk = min_nat(p.len() as int, EP0_SIZE as int);
            if p.len() > 0 {
                &&& w.buffer@ == p.subrange(0, chunk)
                &&& final(state).pending@ == p.subrange(chunk, p.len() as int)
                &&& w.tx_len == Some(chunk as u8)
                &&& w.ctrl == ((current_ctrl ^ UEP_T_TOG) & !UEP_T_RES_MASK) | UEP_T_RES_ACK
            } else {
                &&& w.buffer@.len() == 0
                &&& final(state).pending@.len() == 0
                &&& w.tx_len == Some(0u8)
                &&& w.ctrl == CTRL_RX_ACK
            }
        }),
{
    let dev_addr = if state.setup_req_code == USB_REQ_SET_ADDRESS {
        let addr = state.address;
        let a = addr & 0x7F;
        let keep = current_dev_addr & 0x80;
        assert((current_dev_addr & 0x80) | (addr & 0x7F) == ((current_dev_addr as int / 128) * 128
            + addr as int % 128) as u8) by (bit_vector);
        state.setup_req_code = 0;
        Some(keep | a)
    } else {
        None
    };
    let n = state.pending.len();
    if n > 0 {
        let chunk: usize = if n < EP0_SIZE { n } else { EP0_SIZE };
        let buffer = copy_range(&state.pending, 0, chunk);
        let rest = copy_range(&state.pending, chunk, n);
        state.pending = rest;
        let ctrl = ((current_ctrl ^ UEP_T_TOG) & !UEP_T_RES_MASK) | UEP_T_RES_ACK;
        Ep0Write { buffer, tx_len: Some(chunk as u8), ctrl, dev_addr }
    } else {
        Ep0Write { buffer: Vec::new(), tx_len: Some(0), ctrl: CTRL_RX_ACK, dev_addr }
    }
}

/// The line coding after an OUT packet of `rx_len` bytes on the control
/// endpoint: the packet's first 7 bytes when it is the 7-byte data stage of
/// SET_LINE_CODING, else unchanged.
pub open spec fn line_coding_after_out(pre: UsbView, rx_len: u8, buf: Seq<u8>) -> Seq<u8> {
    if pre.setup_req_code == CDC_SET_LINE_CODING && rx_len == 7 {
        buf.subrange(0, 7)
    } else {
        pre.line_coding
    }
}

/// What SET_LINE_CODING stores, GET_LINE_CODING reads back: after the 7-byte
/// data stage of a SET_LINE_CODING, a GET_LINE_CODING request answers with
/// exactly those 7 bytes, of which it sends the requested length (at most 7).
pub proof fn law_line_coding_roundtrip(
    pre: UsbView,
    buf: Seq<u8>,
    after: UsbView,
    p: SetupPacket,
    w: Ep0Write,
)
    requires
        pre.setup_req_code == CDC_SET_LINE_CODING,
        buf.len() >= 7,
        after.line_coding == line_coding_after_out(pre, 7, buf),
        p.request == CDC_GET_LINE_CODING,
        class_reply_ok(after, after, p, w),
    ensures
        w.buffer@ == buf.subrange(0, 7),
        w.tx_len == Some(min_nat(p.length as int, 7) as u8),
{
}

/// Handles an OUT packet on the control endpoint: the data stage of
/// SET_LINE_CODING (stored when exactly 7 bytes arrived, then acknowledged),
/// or a status OUT stage.
pub fn handle_ep0_out(state: &mut UsbDeviceState, rx_len: u8, buf: &[u8]) -> (w: Ep0Write)
    requires
        old(state).wf(),
        buf@.len() >= 7,
    ensures
        final(state).wf(),
        final(state).config == old(state).config,
        final(state).address == old(state).address,
        final(state).pending@ == old(state).pending@,
        w.buffer@.len() == 0,
        w.tx_len == Some(0u8),
        w.dev_addr is None,
        final(state).line_coding@ == line_coding_after_out(old(state)@, rx_len, buf@),
        if old(state).setup_req_code == CDC_SET_LINE_CODING {
            &&& final(state).setup_req_code == 0
            &&& w.ctrl == CTRL_TX_ACK
        } else {
            &&& final(state).setup_req_code == old(state).setup_req_code
            &&& w.ctrl == CTRL_IDLE
        },
{
    if state.setup_req_code == CDC_SET_LINE_CODING {
        if rx_len == 7 {
            let mut lc: Vec<u8> = Vec::new();
            let mut i: usize = 0;
            while i < 7
                invariant
                    i <= 7,
                    buf@.len() >= 7,
                    lc@ == buf@.subrange(0, i as int),
                decreases 7 - i,
            {
                lc.push(buf[i]);
                assert(buf@.subrange(0, i + 1) =~= buf@.subrange(0, i as int).push(buf@[i as int]));
                i = i + 1;
            }
            state.line_coding = lc;
        }
        state.setup_req_code = 0;
        zero_length()
    } else {
        Ep0Write { buffer: Vec::new(), tx_len: Some(0), ctrl: CTRL_IDLE, dev_addr: None }
    }
}

/// How many bytes of a bulk OUT packet of `rx_len` bytes to hand over: all of
/// them when there are some and they fit in `capacity`, else none.
pub fn bulk_out_len(rx_len: u8, capacity: usize) -> (r: Option<usize>)
    ensures
        r == if rx_len > 0 && rx_len as int <= capacity { Some(rx_len as usize) } else { None::<usize> },
{
    let len = rx_len as usize;
    if len > 0 && len <= capacity {
        Some(len)
    } else {
        None
    }
}

/// What a poll of the USB interrupt flags handles.
#[derive(Clone, Copy, Debug, PartialEq, Eq, Structural)]
pub enum UsbEvent {
    /// Bus reset (acknowledged together with any transfer flag).
    BusReset,
    /// SETUP packet on the control endpoint.
    Setup,
    /// IN token on the control endpoint.
    ControlIn,
    /// OUT packet on the control endpoint.
    ControlOut,
    /// Bulk data on the data OUT endpoint.
    BulkOut,
    /// A transfer with another token (acknowledged, nothing else done).
    OtherTransfer,
    /// Suspend.
    Suspend,
    /// No flag set.
    Idle,
}

/// The event a poll handles for interrupt flags `flags`, transfer status
/// `int_st` and the recorded setup request code, and the value written back
/// to the interrupt-flag register to acknowledge it.
pub open spec fn usb_event_spec(flags: u8, int_st: u8, setup_req_code: u8) -> (UsbEvent, Option<u8>) {
    let token = (int_st as int / 16) % 4;
    let ep = int_st as int % 16;
    if flags as int % 2 == 1 {
        (UsbEvent::BusReset, Some(3u8))
    } else if (flags as int / 2) % 2 == 1 {
        let ev = if token == 3 {
            UsbEvent::Setup
        } else if token == 2 {
            UsbEvent::ControlIn
        } else if token == 0 {
            if setup_req_code == CDC_SET_LINE_CODING || ep == 0 {
                UsbEvent::ControlOut
            } else {
                UsbEvent::BulkOut
            }
        } else {
            UsbEvent::OtherTransfer
        };
        (ev, Some(2u8))
    } else if (flags as int / 4) % 2 == 1 {
        (UsbEvent::Suspend, Some(4u8))
    } else {
        (UsbEvent::Idle, None)
    }
}

/// Decides what a poll of the USB interrupt flags handles (see
/// `usb_event_spec`).
pub fn usb_event(flags: u8, int_st: u8, setup_req_code: u8) -> (r: (UsbEvent, Option<u8>))
    ensures
        r == usb_event_spec(flags, int_st, setup_req_code),
{
    assert((flags & 0x01 != 0) == (flags as int % 2 == 1)) by (bit_vector);
    assert((flags & 0x02 != 0) == ((flags as int / 2) % 2 == 1)) by (bit_vector);
    assert((flags & 0x04 != 0) == ((flags as int / 4) % 2 == 1)) by (bit_vector);
    assert(((int_st >> 4u8) & 0x03) as int == (int_st as int / 16) % 4) by (bit_vector);
    assert((int_st & 0x0F) as int == int_st as int % 16) by (bit_vector);
    if flags & 0x01 != 0 {
        return (UsbEvent::BusReset, Some(3));
    }
    if flags & 0x02 != 0 {
        let ep = int_st & 0x0F;
        let token = (int_st >> 4u8) & 0x03;
        let ev = if token == 3 {
            UsbEvent::Setup
        } else if token == 2 {
            UsbEvent::ControlIn
        } else if token == 0 {
            if setup_req_code == CDC_SET_LINE_CODING || ep == 0 {
                UsbEvent::ControlOut
            } else {
                UsbEvent::BulkOut
            }
        } else {
            UsbEvent::OtherTransfer
        };
        return (ev, Some(2));
    }
    if flags & 0x04 != 0 {
        return (UsbEvent::Suspend, Some(4));
    }
    (UsbEvent::Idle, None)
}

/// The chunks in which pending descriptor data leaves on successive IN
/// tokens: at most 64 bytes each, in order.
pub open spec fn in_chunks(p: Seq<u8>) -> Seq<Seq<u8>>
    decreases p.len(),
{
    if p.len() == 0 {
        Seq::empty()
    } else {
        let c = min_nat(p.len() as int, EP0_SIZE as int);
        seq![p.subrange(0, c)] + in_chunks(p.subrange(c, p.len() as int))
    }
}

/// The concatenation of chunks.
pub open spec fn concat_chunks(cs: Seq<Seq<u8>>) -> Seq<u8>
    decreases cs.len(),
{
    if cs.len() == 0 {
        Seq::empty()
    } else {
        cs[0] + concat_chunks(cs.drop_first())
    }
}

proof fn lemma_in_chunks(p: Seq<u8>)
    ensures
        concat_chunks(in_chunks(p)) == p,
        forall|i: int|
            0 <= i < in_chunks(p).len() ==> 0 < (#[trigger] in_chunks(p)[i]).len() <= EP0_SIZE,
    decreases p.len(),
{
    if p.len() > 0 {
        let c = min_nat(p.len() as int, EP0_SIZE as int);
        let rest = p.subrange(c, p.len() as int);
        lemma_in_chunks(rest);
        let cs = in_chunks(p);
        assert(cs.drop_first() =~= in_chunks(rest));
        assert(p =~= p.subrange(0, c) + rest);
        assert forall|i: int| 0 <= i < cs.len() implies 0 < (#[trigger] cs[i]).len() <= EP0_SIZE by {
            if i > 0 {
                assert(cs[i] == in_chunks(rest)[i - 1]);
            }
        }
    }
}

/// A GET_DESCRIPTOR request for a descriptor the device has delivers, in its
/// first data packet followed by the chunks of successive IN tokens, exactly
/// the first `min(wLength, length)` bytes of the descriptor, at most 64 bytes
/// per packet.
pub proof fn law_descriptor_transfer(pre: UsbView, post: UsbView, p: SetupPacket, w: Ep0Write)
    requires
        p.request == USB_REQ_GET_DESCRIPTOR,
        descriptor_spec(p.value) is Some,
        standard_reply_ok(pre, post, p, w),
    ensures
        ({
            let d = descriptor_spec(p.value)->0;
            let send_len = min_nat(p.length as int, d.len() as int);
            &&& w.buffer@ + concat_chunks(in_chunks(post.pending)) == d.subrange(0, send_len)
            &&& w.buffer@.len() <= EP0_SIZE
            &&& forall|i: int|
                0 <= i < in_chunks(post.pending).len() ==> (#[trigger] in_chunks(post.pending)[i]).len()
                    <= EP0_SIZE
        }),
{
    let d = descriptor_spec(p.value)->0;
    let send_len = min_nat(p.length as int, d.len() as int);
    let chunk = min_nat(send_len, EP0_SIZE as int);
    lemma_in_chunks(post.pending);
    assert(d.subrange(0, chunk) + d.subrange(chunk, send_len) =~= d.subrange(0, send_len));
}

} // verus!
