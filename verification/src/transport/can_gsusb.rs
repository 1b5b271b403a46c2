//! Cyphal/CAN over the gs_usb / candleLight USB protocol.
//!
//! The protocol side of the driver: frame layout, device selection, control
//! payloads and the bit timing search. Talking to the USB device itself is left
//! to the caller.

use rusb::Error as RusbError;
use vstd::prelude::*;

use crate::text;
use crate::transport::handler::{
    self, CommandAction, GetInfoOrder, ResponseOutcome, Step, WorkerAction,
};
use crate::transport::messages;
use crate::transport::state::{self, GetInfoAnswer, WorkerState};
use crate::transport::TransportCommand;
use crate::wire;

verus! {

// ─── bit timing ──────────────────────────────────────────────────────────────

/// Timing capabilities that a device reports.
#[derive(Clone, Copy, Debug, PartialEq, Eq)]
pub struct GsDeviceBtConst {
    pub feature: u32,
    pub fclk_can: u32,
    pub tseg1_min: u32,
    pub tseg1_max: u32,
    pub tseg2_min: u32,
    pub tseg2_max: u32,
    pub sjw_max: u32,
    pub brp_min: u32,
    pub brp_max: u32,
    pub brp_inc: u32,
}

/// Timing parameters that a device is set to.
#[derive(Clone, Copy, Debug, PartialEq, Eq)]
pub struct GsDeviceBittiming {
    pub prop_seg: u32,
    pub phase_seg1: u32,
    pub phase_seg2: u32,
    pub sjw: u32,
    pub brp: u32,
}

/// The step in which a device's prescaler can be set.
pub open spec fn brp_step(bt: GsDeviceBtConst) -> int {
    if bt.brp_inc == 0 {
        1
    } else {
        bt.brp_inc as int
    }
}

/// The prescaler tried for a bit of `1 + tseg1 + tseg2` quanta: the exact
/// quotient, rounded to the nearest multiple of the step.
pub open spec fn rounded_brp(bitrate: int, bt: GsDeviceBtConst, tseg1: int, tseg2: int) -> int {
    let exact = bt.fclk_can as int / bitrate / (1 + tseg1 + tseg2);
    ((exact + brp_step(bt) / 2) / brp_step(bt)) * brp_step(bt)
}

/// Whether the two segment lengths give `bitrate` with a prescaler that the device
/// allows: the device clock, divided by the prescaler and by the quanta of a bit, each
/// quotient rounded down, is `bitrate`.
pub open spec fn fits(bitrate: int, bt: GsDeviceBtConst, tseg1: int, tseg2: int) -> bool {
    let total = 1 + tseg1 + tseg2;
    let brp = rounded_brp(bitrate, bt, tseg1, tseg2);
    &&& bitrate > 0
    &&& bt.fclk_can as int / bitrate / total != 0
    &&& brp != 0
    &&& bt.brp_min <= brp <= bt.brp_max
    &&& bt.fclk_can as int / brp / total == bitrate
}

/// Whether the segment lengths are within the device's limits.
pub open spec fn in_limits(bt: GsDeviceBtConst, tseg1: int, tseg2: int) -> bool {
    &&& bt.tseg1_min <= tseg1 <= bt.tseg1_max
    &&& bt.tseg2_min <= tseg2 <= bt.tseg2_max
}

/// Whether `(a1, a2)` is tried before `(b1, b2)`: longer first segments first,
/// then longer second segments.
pub open spec fn tried_before(a1: int, a2: int, b1: int, b2: int) -> bool {
    a1 > b1 || (a1 == b1 && a2 > b2)
}

/// The parameters for the given segment lengths. The first segment is split
/// evenly between the propagation and the first phase segment.
pub open spec fn timing_for(
    bitrate: int,
    bt: GsDeviceBtConst,
    tseg1: int,
    tseg2: int,
) -> GsDeviceBittiming {
    GsDeviceBittiming {
        prop_seg: (tseg1 - tseg1 / 2) as u32,
        phase_seg1: (tseg1 / 2) as u32,
        phase_seg2: tseg2 as u32,
        sjw: if bt.sjw_max == 0 {
            0
        } else {
            1
        },
        brp: rounded_brp(bitrate, bt, tseg1, tseg2) as u32,
    }
}

/// Whether `(tseg1, tseg2)` is the first pair, in the order of trial, that fits.
pub open spec fn first_fit(bitrate: int, bt: GsDeviceBtConst, tseg1: int, tseg2: int) -> bool {
    &&& in_limits(bt, tseg1, tseg2)
    &&& fits(bitrate, bt, tseg1, tseg2)
    &&& forall|u1: int, u2: int|
        #![trigger fits(bitrate, bt, u1, u2)]
        in_limits(bt, u1, u2) && tried_before(u1, u2, tseg1, tseg2) ==> !fits(bitrate, bt, u1, u2)
}

/// Whether no pair of segment lengths within the limits fits.
pub open spec fn nothing_fits(bitrate: int, bt: GsDeviceBtConst) -> bool {
    forall|u1: int, u2: int|
        #![trigger fits(bitrate, bt, u1, u2)]
        in_limits(bt, u1, u2) ==> !fits(bitrate, bt, u1, u2)
}

/// Whether `timing` is that of the first fit, if anything fits.
pub open spec fn is_timing(
    bitrate: u32,
    bt: GsDeviceBtConst,
    timing: Option<GsDeviceBittiming>,
) -> bool {
    match timing {
        Some(t) => {
            let tseg1 = t.prop_seg + t.phase_seg1;
            let tseg2 = t.phase_seg2 as int;
            &&& first_fit(bitrate as int, bt, tseg1, tseg2)
            &&& t == timing_for(bitrate as int, bt, tseg1, tseg2)
        },
        None => nothing_fits(bitrate as int, bt),
    }
}

/// The prescaler for the given segment lengths, if they fit.
fn try_segments(bitrate: u32, bt: &GsDeviceBtConst, tseg1: u32, tseg2: u32) -> (brp: Option<u32>)
    ensures
        brp is Some <==> fits(bitrate as int, *bt, tseg1 as int, tseg2 as int),
        brp matches Some(b) ==> b == rounded_brp(bitrate as int, *bt, tseg1 as int, tseg2 as int),
{
    if bitrate == 0 {
        return None;
    }
    let total: u64 = 1 + tseg1 as u64 + tseg2 as u64;
    let fclk: u64 = bt.fclk_can as u64;
    let exact: u64 = fclk / (bitrate as u64) / total;
    proof {
        let q = fclk as int / bitrate as int;
        assert(0 <= q <= fclk) by (nonlinear_arith)
            requires
                q == fclk as int / bitrate as int,
                bitrate > 0,
                fclk >= 0,
        ;
        assert(0 <= q / total as int <= q) by (nonlinear_arith)
            requires
                q >= 0,
                total > 0,
        ;
    }
    if exact == 0 {
        return None;
    }
    let inc: u64 = if bt.brp_inc == 0 {
        1
    } else {
        bt.brp_inc as u64
    };
    let steps: u64 = (exact + inc / 2) / inc;
    proof {
        assert(0 <= steps * inc <= exact + inc / 2) by (nonlinear_arith)
            requires
                inc > 0,
                steps == (exact + inc / 2) / inc as int,
        ;
    }
    let brp: u64 = steps * inc;
    if brp == 0 || brp < bt.brp_min as u64 || brp > bt.brp_max as u64 {
        return None;
    }
    let actual: u64 = fclk / brp / total;
    if actual == bitrate as u64 {
        Some(brp as u32)
    } else {
        None
    }
}

/// Search the segment lengths and prescaler that give `bitrate`.
///
/// The search goes from long to short segments and takes the first that fits:
/// `bitrate = fclk_can / (brp * (1 + tseg1 + tseg2))`.
pub fn compute_bittiming(bitrate: u32, bt: &GsDeviceBtConst) -> (timing: Option<GsDeviceBittiming>)
    ensures
        is_timing(bitrate, *bt, timing),
{
    let mut next1: u64 = bt.tseg1_max as u64 + 1;
    while next1 > bt.tseg1_min as u64
        invariant
            next1 <= bt.tseg1_max + 1,
            forall|u1: int, u2: int|
                #![trigger fits(bitrate as int, *bt, u1, u2)]
                in_limits(*bt, u1, u2) && u1 >= next1 ==> !fits(bitrate as int, *bt, u1, u2),
        decreases next1,
    {
        let tseg1: u32 = (next1 - 1) as u32;
        let mut next2: u64 = bt.tseg2_max as u64 + 1;
        while next2 > bt.tseg2_min as u64
            invariant
                bt.tseg1_min <= tseg1 <= bt.tseg1_max,
                next1 == tseg1 + 1,
                next2 <= bt.tseg2_max + 1,
                forall|u1: int, u2: int|
                    #![trigger fits(bitrate as int, *bt, u1, u2)]
                    in_limits(*bt, u1, u2) && u1 >= next1 ==> !fits(bitrate as int, *bt, u1, u2),
                forall|u2: int|
                    #![trigger fits(bitrate as int, *bt, tseg1 as int, u2)]
                    in_limits(*bt, tseg1 as int, u2) && u2 >= next2 ==> !fits(
                        bitrate as int,
                        *bt,
                        tseg1 as int,
                        u2,
                    ),
            decreases next2,
        {
            let tseg2: u32 = (next2 - 1) as u32;
            if let Some(brp) = try_segments(bitrate, bt, tseg1, tseg2) {
                let sjw: u32 = if bt.sjw_max == 0 {
                    0
                } else {
                    1
                };
                let phase_seg1: u32 = tseg1 / 2;
                let prop_seg: u32 = tseg1 - phase_seg1;
                return Some(
                    GsDeviceBittiming { prop_seg, phase_seg1, phase_seg2: tseg2, sjw, brp },
                );
            }
            next2 = next2 - 1;
        }
        next1 = next1 - 1;
    }
    None
}

/// Parameters found for a bitrate divide the device clock down to that bitrate, each
/// quotient rounded down, and lie within what the device allows.
pub proof fn bittiming_gives_bitrate(bitrate: u32, bt: GsDeviceBtConst, t: GsDeviceBittiming)
    requires
        is_timing(bitrate, bt, Some(t)),
    ensures
        ({
            &&& bt.fclk_can as int / t.brp as int / (1 + t.prop_seg + t.phase_seg1 + t.phase_seg2)
                == bitrate
            &&& bt.brp_min <= t.brp <= bt.brp_max
            &&& bt.tseg1_min <= t.prop_seg + t.phase_seg1 <= bt.tseg1_max
            &&& bt.tseg2_min <= t.phase_seg2 <= bt.tseg2_max
            &&& t.sjw <= bt.sjw_max
            &&& bt.sjw_max > 0 ==> t.sjw == 1
            &&& bt.brp_inc > 0 ==> t.brp as int % bt.brp_inc as int == 0
            &&& t.phase_seg1 <= t.prop_seg <= t.phase_seg1 + 1
        }),
{
    let tseg1 = t.prop_seg + t.phase_seg1;
    let tseg2 = t.phase_seg2 as int;
    let exact = bt.fclk_can as int / bitrate as int / (1 + tseg1 + tseg2);
    let step = brp_step(bt);
    vstd::arithmetic::div_mod::lemma_mod_multiples_basic((exact + step / 2) / step, step);
}

/// Whether the prescaler and the segment lengths divide the device clock down to the
/// bitrate without a remainder, and the device can be set to them.
pub open spec fn is_exact(
    bitrate: int,
    bt: GsDeviceBtConst,
    brp: int,
    tseg1: int,
    tseg2: int,
) -> bool {
    &&& bt.fclk_can == bitrate * brp * (1 + tseg1 + tseg2)
    &&& brp > 0
    &&& bt.brp_min <= brp <= bt.brp_max
    &&& bt.brp_inc > 0 ==> brp % bt.brp_inc as int == 0
    &&& bt.tseg1_min <= tseg1 <= bt.tseg1_max
    &&& bt.tseg2_min <= tseg2 <= bt.tseg2_max
}

/// The search is complete: whenever some setting of the device gives the bitrate without
/// a remainder, parameters are found. What is found has no shorter a first segment than
/// any such setting, and no shorter a second one where the first is the same.
pub proof fn possible_bitrates_are_found(
    bitrate: u32,
    bt: GsDeviceBtConst,
    timing: Option<GsDeviceBittiming>,
    brp: int,
    tseg1: int,
    tseg2: int,
)
    requires
        is_timing(bitrate, bt, timing),
        bitrate > 0,
        is_exact(bitrate as int, bt, brp, tseg1, tseg2),
    ensures
        timing matches Some(t) && {
            ||| t.prop_seg + t.phase_seg1 > tseg1
            ||| t.prop_seg + t.phase_seg1 == tseg1 && t.phase_seg2 > tseg2
            ||| t.prop_seg + t.phase_seg1 == tseg1 && t.phase_seg2 == tseg2 && t.brp == brp
        },
{
    let total = 1 + tseg1 + tseg2;
    let fclk = bt.fclk_can as int;
    let step = brp_step(bt);
    let b = bitrate as int;
    vstd::arithmetic::mul::lemma_mul_is_associative(b, brp, total);
    vstd::arithmetic::mul::lemma_mul_is_commutative(b, brp);
    vstd::arithmetic::mul::lemma_mul_is_associative(brp, b, total);
    vstd::arithmetic::div_mod::lemma_div_multiples_vanish(brp * total, b);
    vstd::arithmetic::div_mod::lemma_div_multiples_vanish(b * total, brp);
    vstd::arithmetic::mul::lemma_mul_is_commutative(brp, total);
    vstd::arithmetic::mul::lemma_mul_is_commutative(b, total);
    vstd::arithmetic::div_mod::lemma_div_multiples_vanish(brp, total);
    vstd::arithmetic::div_mod::lemma_div_multiples_vanish(b, total);
    assert(fclk / b / total == brp);
    assert(fclk / brp / total == b);
    let q = brp / step;
    assert(brp == q * step) by {
        vstd::arithmetic::div_mod::lemma_fundamental_div_mod(brp, step);
        vstd::arithmetic::mul::lemma_mul_is_commutative(q, step);
    }
    assert((brp + step / 2) / step == q) by (nonlinear_arith)
        requires
            brp == q * step,
            step > 0,
    ;
    assert(rounded_brp(b, bt, tseg1, tseg2) == brp);
    assert(fits(b, bt, tseg1, tseg2));
}

// ─── errors ──────────────────────────────────────────────────────────────────

/// What went wrong on the USB.
#[derive(Clone, Copy, Debug, PartialEq, Eq)]
pub enum UsbError {
    /// Input/output error.
    Io,
    /// Invalid parameter.
    InvalidParam,
    /// Access denied (insufficient permissions).
    Access,
    /// No such device (it may have been disconnected).
    NoDevice,
    /// Entity not found.
    NotFound,
    /// Resource busy.
    Busy,
    /// Operation timed out.
    Timeout,
    /// Overflow.
    Overflow,
    /// Pipe error.
    Pipe,
    /// System call interrupted (perhaps due to signal).
    Interrupted,
    /// Insufficient memory.
    NoMem,
    /// Operation not supported or unimplemented on this platform.
    NotSupported,
    /// The device returned a malformed descriptor.
    BadDescriptor,
    /// Other error.
    Other,
}

/// Error type for the gs_usb driver.
#[derive(Debug)]
pub enum GsUsbError {
    Usb(UsbError),
    InvalidFrame,
    UnsupportedBitrate(u32),
}

/// What went wrong on the USB, in words.
pub open spec fn usb_words(e: UsbError) -> Seq<char> {
    match e {
        UsbError::Io => "Input/Output Error"@,
        UsbError::InvalidParam => "Invalid parameter"@,
        UsbError::Access => "Access denied (insufficient permissions)"@,
        UsbError::NoDevice => "No such device (it may have been disconnected)"@,
        UsbError::NotFound => "Entity not found"@,
        UsbError::Busy => "Resource busy"@,
        UsbError::Timeout => "Operation timed out"@,
        UsbError::Overflow => "Overflow"@,
        UsbError::Pipe => "Pipe error"@,
        UsbError::Interrupted => "System call interrupted (perhaps due to signal)"@,
        UsbError::NoMem => "Insufficient memory"@,
        UsbError::NotSupported => "Operation not supported or unimplemented on this platform"@,
        UsbError::BadDescriptor => "Malformed descriptor"@,
        UsbError::Other => "Other error"@,
    }
}

/// `rusb::Error`'s `Display`, for the error of the same name: each has a fixed text.
#[verifier::external_body]
fn usb_error_text(e: UsbError) -> (s: String)
    ensures
        s@ == usb_words(e),
{
    let error = match e {
        UsbError::Io => RusbError::Io, UsbError::InvalidParam => RusbError::InvalidParam,
        UsbError::Access => RusbError::Access, UsbError::NoDevice => RusbError::NoDevice,
        UsbError::NotFound => RusbError::NotFound, UsbError::Busy => RusbError::Busy,
        UsbError::Timeout => RusbError::Timeout, UsbError::Overflow => RusbError::Overflow,
        UsbError::Pipe => RusbError::Pipe, UsbError::Interrupted => RusbError::Interrupted,
        UsbError::NoMem => RusbError::NoMem, UsbError::NotSupported => RusbError::NotSupported,
        UsbError::BadDescriptor => RusbError::BadDescriptor, UsbError::Other => RusbError::Other,
    };
    error.to_string()
}

impl GsUsbError {
    /// The error in words.
    pub fn message(&self) -> (s: String)
        ensures
            match *self {
                GsUsbError::Usb(e) => s@ == "USB error: "@ + usb_words(e),
                GsUsbError::InvalidFrame => s@ == "Invalid CAN frame"@,
                GsUsbError::UnsupportedBitrate(bitrate) => s@ == "Unsupported bitrate: "@
                    + text::decimal(bitrate as nat),
            },
    {
        match self {
            GsUsbError::Usb(e) => {
                let detail = usb_error_text(*e);
                handler::detail_text("USB error: ", detail.as_str())
            },
            GsUsbError::InvalidFrame => "Invalid CAN frame".to_owned(),
            GsUsbError::UnsupportedBitrate(bitrate) => {
                let digits = text::decimal_string(*bitrate as u128);
                handler::detail_text("Unsupported bitrate: ", digits.as_str())
            },
        }
    }
}

impl From<UsbError> for GsUsbError {
    fn from(e: UsbError) -> (error: Self) {
        GsUsbError::Usb(e)
    }
}

impl vstd::std_specs::convert::FromSpecImpl<UsbError> for GsUsbError {
    open spec fn obeys_from_spec() -> bool {
        true
    }

    open spec fn from_spec(e: UsbError) -> Self {
        GsUsbError::Usb(e)
    }
}

// ─── protocol constants and frames ───────────────────────────────────────────

/// Control request type for transfers to the device.
pub const GS_USB_REQ_HOST_FORMAT: u8 = 0x40;

/// Control request type for transfers from the device.
pub const GS_USB_REQ_DEVICE_FORMAT: u8 = 0xC0;

/// Control request that sets the bit timing.
pub const GS_USB_BREQ_SET_BITTIMING: u8 = 1;

/// Control request that sets the operating mode.
pub const GS_USB_BREQ_SET_MODE: u8 = 3;

/// Control request that reads the timing capabilities.
pub const GS_USB_BREQ_BT_CONST: u8 = 4;

/// The normal operating mode.
pub const GS_CAN_MODE_NORMAL: u32 = 0;

/// Endpoint that received frames come from.
pub const BULK_IN_ENDPOINT: u8 = 0x81;

/// Endpoint that frames to send go to.
pub const BULK_OUT_ENDPOINT: u8 = 0x01;

/// Marks an extended (29-bit) identifier.
pub const GS_CAN_EFF_FLAG: u32 = 0x8000_0000;

/// Marks a remote transmission request.
pub const GS_CAN_RTR_FLAG: u32 = 0x4000_0000;

/// Marks an error frame.
pub const GS_CAN_ERR_FLAG: u32 = 0x2000_0000;

/// The bits of an extended identifier.
pub const CAN_ID_MASK: u32 = 0x1FFF_FFFF;

/// Bytes of a host frame: echo ID, CAN ID, DLC, channel, flags, padding, data.
pub const GS_HOST_FRAME_SIZE: usize = 20;

/// A CAN data frame with an extended identifier.
pub struct CanFrame {
    /// Reception time, or transmission deadline, in wrapping microseconds.
    pub timestamp: u32,
    /// Extended identifier.
    pub id: u32,
    /// Payload.
    pub data: Vec<u8>,
}

/// `canadensis_can::CanId::try_from` accepts a raw identifier exactly when it
/// has no bit outside the low 29.
#[verifier::external_body]
fn can_id_accepts(raw: u32) -> (ok: bool)
    ensures
        ok == (raw <= CAN_ID_MASK),
{
    canadensis_can::CanId::try_from(raw).is_ok()
}

/// The number of payload bytes that a frame carries.
pub open spec fn carried(len: int) -> int {
    if len < 8 {
        len
    } else {
        8
    }
}

/// The host frame for a payload sent under `id` and numbered `echo_id`.
pub open spec fn frame_bytes(id: u32, data: Seq<u8>, echo_id: u32) -> Seq<u8> {
    le_prefix(id, echo_id) + seq![(data.len() % 256) as u8, 0, 0, 0] + Seq::new(
        8,
        |k: int|
            if k < data.len() {
                data[k]
            } else {
                0
            },
    )
}

/// The echo ID and the flagged identifier at the start of a host frame.
pub open spec fn le_prefix(id: u32, echo_id: u32) -> Seq<u8> {
    wire::le_bytes(echo_id) + wire::le_bytes(id | GS_CAN_EFF_FLAG)
}

/// Whether a host frame holds a data frame with an extended identifier.
pub open spec fn is_data_frame(buf: Seq<u8>) -> bool {
    let can_id = wire::le_u32(buf, 4);
    &&& buf.len() >= GS_HOST_FRAME_SIZE
    &&& can_id & GS_CAN_RTR_FLAG == 0
    &&& can_id & GS_CAN_ERR_FLAG == 0
    &&& can_id & GS_CAN_EFF_FLAG != 0
}

/// Whether `frame` is the frame in a host frame that was received at `now`.
pub open spec fn holds_frame(buf: Seq<u8>, now: u32, frame: CanFrame) -> bool {
    &&& frame.timestamp == now
    &&& frame.id == wire::le_u32(buf, 4) & CAN_ID_MASK
    &&& frame.id <= CAN_ID_MASK
    &&& frame.data@ == buf.subrange(12, 12 + carried(buf[8] as int))
}

/// A frame with an extended identifier and at most eight payload bytes comes
/// back from its host frame with the same identifier and payload.
pub proof fn frame_round_trip(id: u32, data: Seq<u8>, echo_id: u32)
    requires
        id <= CAN_ID_MASK,
        data.len() <= 8,
    ensures
        ({
            let buf = frame_bytes(id, data, echo_id);
            &&& is_data_frame(buf)
            &&& wire::le_u32(buf, 0) == echo_id
            &&& wire::le_u32(buf, 4) & CAN_ID_MASK == id
            &&& buf.subrange(12, 12 + carried(buf[8] as int)) == data
        }),
{
    let buf = frame_bytes(id, data, echo_id);
    let flagged = id | GS_CAN_EFF_FLAG;
    wire::le_bytes_read_back(echo_id);
    wire::le_bytes_read_back(flagged);
    assert(buf.subrange(0, 4) =~= wire::le_bytes(echo_id));
    assert(buf.subrange(4, 8) =~= wire::le_bytes(flagged));
    assert forall|i: int| 0 <= i < 4 implies buf[4 + i] == wire::le_bytes(flagged)[i] by {
        assert(buf.subrange(4, 8)[i] == buf[4 + i]);
    }
    assert(buf[4] == wire::le_bytes(flagged)[0]);
    assert(buf[5] == wire::le_bytes(flagged)[1]);
    assert(buf[6] == wire::le_bytes(flagged)[2]);
    assert(buf[7] == wire::le_bytes(flagged)[3]);
    assert(wire::le_u32(buf, 4) == flagged);
    assert(id <= 0x1FFF_FFFFu32 ==> {
        &&& (id | 0x8000_0000u32) & 0x1FFF_FFFFu32 == id
        &&& (id | 0x8000_0000u32) & 0x4000_0000u32 == 0
        &&& (id | 0x8000_0000u32) & 0x2000_0000u32 == 0
        &&& (id | 0x8000_0000u32) & 0x8000_0000u32 != 0
    }) by (bit_vector);
    assert(buf.subrange(12, 12 + data.len() as int) =~= data);
}

// ─── driver ──────────────────────────────────────────────────────────────────

/// Whether `a` lies before `b` on a wrapping microsecond clock: going back from
/// `a` to `b` takes more than half of the clock's range.
pub open spec fn ticks_before(a: u32, b: u32) -> bool {
    (a - b) % 0x1_0000_0000 > 0x7FFF_FFFF
}

/// Comparing two `canadensis_core::time::Microseconds32` values with `<` takes
/// into account that the clock wraps around.
#[verifier::external_body]
fn microseconds_less(a: u32, b: u32) -> (less: bool)
    ensures
        less == ticks_before(a, b),
{
    canadensis_core::time::Microseconds32::from_ticks(a)
        < canadensis_core::time::Microseconds32::from_ticks(b)
}

/// The protocol state of a gs_usb device.
pub struct GsUsbDriver {
    /// Channel of the device that is used.
    pub channel: u8,
    /// Echo ID of the next frame.
    pub echo_counter: u32,
}

impl GsUsbDriver {
    /// A driver for the first channel, whose first frame is numbered zero.
    pub fn new() -> (driver: Self)
        ensures
            driver.channel == 0,
            driver.echo_counter == 0,
    {
        GsUsbDriver { channel: 0, echo_counter: 0 }
    }

    /// Lay out `frame` as a host frame. At most eight payload bytes are carried.
    pub fn encode_frame(frame: &CanFrame, echo_id: u32) -> (buf: Vec<u8>)
        ensures
            buf@ == frame_bytes(frame.id, frame.data@, echo_id),
            buf@.len() == GS_HOST_FRAME_SIZE,
    {
        let mut buf: Vec<u8> = Vec::new();
        wire::push_u32(&mut buf, echo_id);
        wire::push_u32(&mut buf, frame.id | GS_CAN_EFF_FLAG);
        buf.push((frame.data.len() % 256) as u8);
        buf.push(0);
        buf.push(0);
        buf.push(0);
        let ghost head = le_prefix(frame.id, echo_id) + seq![(frame.data@.len() % 256) as u8, 0, 0, 0];
        assert(buf@ =~= head);
        let mut k: usize = 0;
        while k < 8
            invariant
                k <= 8,
                head.len() == 12,
                buf@.len() == 12 + k,
                forall|i: int| 0 <= i < 12 ==> buf@[i] == head[i],
                forall|i: int|
                    0 <= i < k ==> #[trigger] buf@[12 + i] == (if i < frame.data@.len() {
                        frame.data@[i]
                    } else {
                        0
                    }),
            decreases 8 - k,
        {
            if k < frame.data.len() {
                buf.push(frame.data[k]);
            } else {
                buf.push(0);
            }
            k = k + 1;
        }
        proof {
            let want = frame_bytes(frame.id, frame.data@, echo_id);
            assert forall|i: int| 0 <= i < 20 implies buf@[i] == want[i] by {
                if i >= 12 {
                    assert(buf@[12 + (i - 12)] == want[i]);
                }
            }
            assert(buf@ =~= want);
        }
        buf
    }

    /// Read a host frame received at `now`. Short buffers, remote requests, error
    /// frames and frames without an extended identifier are skipped.
    pub fn decode_frame(buf: &[u8], now: u32) -> (frame: Option<CanFrame>)
        ensures
            frame is Some <==> is_data_frame(buf@),
            frame matches Some(f) ==> holds_frame(buf@, now, f),
    {
        if buf.len() < GS_HOST_FRAME_SIZE {
            return None;
        }
        let can_id = wire::read_u32(buf, 4);
        if can_id & GS_CAN_RTR_FLAG != 0 || can_id & GS_CAN_ERR_FLAG != 0 {
            return None;
        }
        if can_id & GS_CAN_EFF_FLAG == 0 {
            return None;
        }
        let raw_id: u32 = can_id & CAN_ID_MASK;
        assert(can_id & 0x1FFF_FFFF <= 0x1FFF_FFFF) by (bit_vector);
        if !can_id_accepts(raw_id) {
            return None;
        }
        let dlc: usize = buf[8] as usize;
        let len: usize = if dlc < 8 {
            dlc
        } else {
            8
        };
        let mut data: Vec<u8> = Vec::new();
        let mut k: usize = 0;
        while k < len
            invariant
                k <= len <= 8,
                buf@.len() >= 20,
                data@ == buf@.subrange(12, 12 + k),
            decreases len - k,
        {
            data.push(buf[12 + k]);
            k = k + 1;
            assert(data@ =~= buf@.subrange(12, 12 + k));
        }
        Some(CanFrame { timestamp: now, id: raw_id, data })
    }

    /// The host frame to write for `frame`, or `None` when its deadline has
    /// passed and it is dropped. Every frame that is not dropped takes the next
    /// echo ID.
    pub fn transmit(&mut self, frame: &CanFrame, now: u32) -> (buf: Option<Vec<u8>>)
        ensures
            buf is None <==> ticks_before(frame.timestamp, now),
            buf matches Some(b) ==> b@ == frame_bytes(
                frame.id,
                frame.data@,
                old(self).echo_counter,
            ) && final(self).echo_counter == (old(self).echo_counter + 1) % 0x1_0000_0000,
            buf is None ==> final(self).echo_counter == old(self).echo_counter,
            final(self).channel == old(self).channel,
    {
        if microseconds_less(frame.timestamp, now) {
            return None;
        }
        let echo_id: u32 = self.echo_counter;
        self.echo_counter = self.echo_counter.wrapping_add(1);
        Some(Self::encode_frame(frame, echo_id))
    }

    /// The frame in a buffer that was read from the device at `now`.
    pub fn receive(buf: &[u8], now: u32) -> (frame: Result<CanFrame, GsUsbError>)
        ensures
            match frame {
                Ok(f) => is_data_frame(buf@) && holds_frame(buf@, now, f),
                Err(e) => !is_data_frame(buf@) && e is InvalidFrame,
            },
    {
        match Self::decode_frame(buf, now) {
            Some(frame) => Ok(frame),
            None => Err(GsUsbError::InvalidFrame),
        }
    }

    /// The position of the device to open among the attached ones. Where there are too
    /// few wanted ones, none is found.
    pub fn choose_device(
        devices: &Vec<Option<(u16, u16)>>,
        index: u32,
        vid: Option<u16>,
        pid: Option<u16>,
    ) -> (picked: Result<usize, GsUsbError>)
        ensures
            match picked {
                Ok(i) => is_pick(devices@, index, vid, pid, Some(i)),
                Err(e) => is_pick(devices@, index, vid, pid, None) && e == GsUsbError::Usb(
                    UsbError::NotFound,
                ),
            },
    {
        match select_device(devices, index, vid, pid) {
            Some(i) => Ok(i),
            None => Err(GsUsbError::from(UsbError::NotFound)),
        }
    }

    /// The bit timing for a device that described its capabilities in `reply`.
    pub fn choose_timing(reply: &[u8], bitrate: u32) -> (timing: Result<
        GsDeviceBittiming,
        GsUsbError,
    >)
        ensures
            if reply@.len() < 40 {
                timing matches Err(e) && e == GsUsbError::Usb(UsbError::Other)
            } else {
                match timing {
                    Ok(t) => is_timing(bitrate, bt_const_of(reply@), Some(t)),
                    Err(e) => is_timing(bitrate, bt_const_of(reply@), None) && e
                        == GsUsbError::UnsupportedBitrate(bitrate),
                }
            },
    {
        match read_bt_const(reply) {
            Some(bt) => match compute_bittiming(bitrate, &bt) {
                Some(timing) => Ok(timing),
                None => Err(GsUsbError::UnsupportedBitrate(bitrate)),
            },
            None => Err(GsUsbError::from(UsbError::Other)),
        }
    }
}

// ─── devices ─────────────────────────────────────────────────────────────────

/// Whether the identifiers are those of a known candleLight adapter: CANable,
/// CANable Pro or Microchip CAN Bus Analyzer.
pub open spec fn is_candlelight(vid: u16, pid: u16) -> bool {
    ||| vid == 0x1d50 && pid == 0x606f
    ||| vid == 0x1d50 && pid == 0x5740
    ||| vid == 0x04d8 && pid == 0x0053
}

/// Whether a device is wanted: it has the vendor and the product that are given, and
/// is a known adapter when no vendor is given. A device whose descriptor could not be
/// read is never wanted.
pub open spec fn wanted(
    device: Option<(u16, u16)>,
    vid: Option<u16>,
    pid: Option<u16>,
) -> bool {
    match device {
        None => false,
        Some((dev_vid, dev_pid)) => match (vid, pid) {
            (Some(v), Some(p)) => dev_vid == v && dev_pid == p,
            (Some(v), None) => dev_vid == v,
            (None, Some(p)) => is_candlelight(dev_vid, dev_pid) && dev_pid == p,
            (None, None) => is_candlelight(dev_vid, dev_pid),
        },
    }
}

/// How many of the devices are wanted.
pub open spec fn count_wanted(
    devices: Seq<Option<(u16, u16)>>,
    vid: Option<u16>,
    pid: Option<u16>,
) -> nat
    decreases devices.len(),
{
    if devices.len() == 0 {
        0
    } else {
        count_wanted(devices.drop_last(), vid, pid) + if wanted(devices.last(), vid, pid) {
            1nat
        } else {
            0nat
        }
    }
}

/// Whether `picked` is the position of the wanted device with the given index, if
/// there are that many.
pub open spec fn is_pick(
    devices: Seq<Option<(u16, u16)>>,
    index: u32,
    vid: Option<u16>,
    pid: Option<u16>,
    picked: Option<usize>,
) -> bool {
    match picked {
        Some(i) => {
            &&& i < devices.len()
            &&& wanted(devices[i as int], vid, pid)
            &&& count_wanted(devices.take(i as int), vid, pid) == index
        },
        None => count_wanted(devices, vid, pid) <= index,
    }
}

fn is_known_adapter(vid: u16, pid: u16) -> (known: bool)
    ensures
        known == is_candlelight(vid, pid),
{
    (vid == 0x1d50 && pid == 0x606f) || (vid == 0x1d50 && pid == 0x5740) || (vid == 0x04d8 && pid
        == 0x0053)
}

fn is_wanted(device: Option<(u16, u16)>, vid: Option<u16>, pid: Option<u16>) -> (yes: bool)
    ensures
        yes == wanted(device, vid, pid),
{
    match device {
        None => false,
        Some((dev_vid, dev_pid)) => match (vid, pid) {
            (Some(v), Some(p)) => dev_vid == v && dev_pid == p,
            (Some(v), None) => dev_vid == v,
            (None, Some(p)) => is_known_adapter(dev_vid, dev_pid) && dev_pid == p,
            (None, None) => is_known_adapter(dev_vid, dev_pid),
        },
    }
}

/// Pick the wanted device with the given index (0 = first) from the vendor and
/// product identifiers of the attached devices.
pub fn select_device(
    devices: &Vec<Option<(u16, u16)>>,
    index: u32,
    vid: Option<u16>,
    pid: Option<u16>,
) -> (picked: Option<usize>)
    ensures
        is_pick(devices@, index, vid, pid, picked),
{
    let mut i: usize = 0;
    let mut seen: u64 = 0;
    assert(devices@.take(0) =~= Seq::empty());
    while i < devices.len()
        invariant
            i <= devices@.len(),
            seen == count_wanted(devices@.take(i as int), vid, pid),
            seen <= index,
        decreases devices@.len() - i,
    {
        proof {
            assert(devices@.take(i + 1).drop_last() =~= devices@.take(i as int));
        }
        if is_wanted(devices[i], vid, pid) {
            if seen == index as u64 {
                return Some(i);
            }
            seen = seen + 1;
        }
        i = i + 1;
    }
    assert(devices@.take(i as int) =~= devices@);
    None
}

// ─── control payloads ────────────────────────────────────────────────────────

/// The capabilities in a control reply of at least forty bytes.
pub open spec fn bt_const_of(buf: Seq<u8>) -> GsDeviceBtConst {
    GsDeviceBtConst {
        feature: wire::le_u32(buf, 0),
        fclk_can: wire::le_u32(buf, 4),
        tseg1_min: wire::le_u32(buf, 8),
        tseg1_max: wire::le_u32(buf, 12),
        tseg2_min: wire::le_u32(buf, 16),
        tseg2_max: wire::le_u32(buf, 20),
        sjw_max: wire::le_u32(buf, 24),
        brp_min: wire::le_u32(buf, 28),
        brp_max: wire::le_u32(buf, 32),
        brp_inc: wire::le_u32(buf, 36),
    }
}

/// Read the timing capabilities from a control reply; `None` when it is short.
pub fn read_bt_const(buf: &[u8]) -> (bt: Option<GsDeviceBtConst>)
    ensures
        bt == (if buf@.len() < 40 {
            None
        } else {
            Some(bt_const_of(buf@))
        }),
{
    if buf.len() < 40 {
        return None;
    }
    Some(
        GsDeviceBtConst {
            feature: wire::read_u32(buf, 0),
            fclk_can: wire::read_u32(buf, 4),
            tseg1_min: wire::read_u32(buf, 8),
            tseg1_max: wire::read_u32(buf, 12),
            tseg2_min: wire::read_u32(buf, 16),
            tseg2_max: wire::read_u32(buf, 20),
            sjw_max: wire::read_u32(buf, 24),
            brp_min: wire::read_u32(buf, 28),
            brp_max: wire::read_u32(buf, 32),
            brp_inc: wire::read_u32(buf, 36),
        },
    )
}

/// The control payload that sets the bit timing.
pub fn set_bittiming_payload(timing: &GsDeviceBittiming) -> (buf: Vec<u8>)
    ensures
        buf@ == wire::le_bytes(timing.prop_seg) + wire::le_bytes(timing.phase_seg1)
            + wire::le_bytes(timing.phase_seg2) + wire::le_bytes(timing.sjw) + wire::le_bytes(
            timing.brp,
        ),
{
    let mut buf: Vec<u8> = Vec::new();
    wire::push_u32(&mut buf, timing.prop_seg);
    assert(buf@ =~= wire::le_bytes(timing.prop_seg));
    wire::push_u32(&mut buf, timing.phase_seg1);
    wire::push_u32(&mut buf, timing.phase_seg2);
    wire::push_u32(&mut buf, timing.sjw);
    wire::push_u32(&mut buf, timing.brp);
    buf
}

/// The control payload that sets the operating mode, with no flags.
pub fn set_mode_payload(mode: u32) -> (buf: Vec<u8>)
    ensures
        buf@ == wire::le_bytes(mode) + wire::le_bytes(0),
{
    let mut buf: Vec<u8> = Vec::new();
    wire::push_u32(&mut buf, mode);
    assert(buf@ =~= wire::le_bytes(mode));
    wire::push_u32(&mut buf, 0);
    buf
}

// ─── identifiers in configuration files ──────────────────────────────────────

/// `s` without a leading `0x` or `0X`.
pub open spec fn without_hex_prefix(s: Seq<char>) -> Seq<char> {
    if s.len() >= 2 && s[0] == '0' && (s[1] == 'x' || s[1] == 'X') {
        s.skip(2)
    } else {
        s
    }
}

/// Read a hexadecimal identifier such as `0x1d50` or `606f`.
pub fn parse_hex_u16(s: &str) -> (v: Option<u16>)
    ensures
        v == text::parsed_u16(without_hex_prefix(text::trim(s@)), 16),
{
    let chars = text::chars_of(s);
    let (from, to) = text::trim_bounds(&chars);
    let ghost trimmed = chars@.subrange(from as int, to as int);
    let mut start: usize = from;
    if to - from >= 2 && chars[from] == '0' && (chars[from + 1] == 'x' || chars[from + 1] == 'X') {
        start = from + 2;
    }
    assert(chars@.subrange(start as int, to as int) =~= without_hex_prefix(trimmed));
    text::parse_u16(&chars, start, to, 16)
}

// ─── handler ─────────────────────────────────────────────────────────────────

/// `CanNodeId::try_from` accepts the seven-bit node IDs.
#[verifier::external_body]
pub(crate) fn can_node_id_accepts(node_id: u8) -> (accepted: bool)
    ensures
        accepted == (node_id <= 127),
{
    canadensis_can::CanNodeId::try_from(node_id).is_ok()
}

/// Whether a CAN transport can have the node ID.
pub fn is_node_id(node_id: u8) -> (valid: bool)
    ensures
        valid == (node_id <= 127),
{
    can_node_id_accepts(node_id)
}

/// Why a CAN worker refuses a command, if it does.
pub open spec fn refusal_of(cmd: TransportCommand) -> Option<Seq<char>> {
    match cmd {
        TransportCommand::GetInfo { node_id, .. } if node_id > 127 => Some(
            "CAN node ID "@ + text::decimal(node_id as nat) + " is out of range (0–127)"@,
        ),
        _ => None,
    }
}

/// What a gs_usb worker does with commands and transfers.
pub struct GsUsbHandler {
    pub state: WorkerState,
    pub local_node_id: u16,
    /// When the per-second tasks were run last.
    pub last_second: u128,
}

impl GsUsbHandler {
    /// The handler of a worker that starts at time `now`.
    pub fn new(local_node_id: u16, now: u128) -> (handler: Self)
        ensures
            handler.local_node_id == local_node_id,
            handler.last_second == now,
            state::is_new(handler.state),
    {
        GsUsbHandler { state: WorkerState::default(), local_node_id, last_second: now }
    }

    /// What to do about a command at time `now`.
    pub fn on_command(&self, cmd: TransportCommand, has_requester: bool, now: u128) -> (step: Step)
        ensures
            exists|action: CommandAction| #[trigger]
                handler::plain_action(
                    self.state,
                    cmd,
                    self.local_node_id,
                    refusal_of(cmd),
                    has_requester,
                    now,
                    action,
                ) && handler::follows(action, step),
    {
        let action = self.handle_command(cmd, has_requester, now);
        assert(handler::plain_action(
            self.state,
            cmd,
            self.local_node_id,
            refusal_of(cmd),
            has_requester,
            now,
            action,
        ));
        handler::step_for(action)
    }

    /// What to do once there are no more commands at time `now`.
    pub fn on_commands_done(&mut self, now: u128) -> (step: Step)
        ensures
            final(self).local_node_id == old(self).local_node_id,
            final(self).last_second == old(self).last_second,
            step.next is Receive,
            exists|answer: Option<GetInfoAnswer>| #[trigger]
                state::times_out(old(self).state, final(self).state, now, answer)
                    && handler::delivers(answer, step.deliver),
    {
        handler::plain_commands_done(&mut self.state, now)
    }

    /// What to do once a GetInfo request has been sent, or could not be.
    pub fn on_request_settled(&mut self, order: GetInfoOrder, error: Option<String>, now: u128) -> (
        step: Step)
        ensures
            final(self).local_node_id == old(self).local_node_id,
            final(self).last_second == old(self).last_second,
            handler::request_settled(
                old(self).state,
                final(self).state,
                order,
                match error {
                    Some(e) => Some(e@),
                    None => None,
                },
                now,
                step,
            ),
    {
        handler::plain_request_settled(&mut self.state, order, error, now)
    }

    /// What to do once transfers have been received at time `now`.
    pub fn on_received(&mut self, now: u128) -> (next: WorkerAction)
        ensures
            final(self).local_node_id == old(self).local_node_id,
            final(self).state == old(self).state,
            if handler::is_second_due(old(self).last_second, now) {
                final(self).last_second == now && next is RunPerSecondTasks
            } else {
                final(self).last_second == old(self).last_second && next is Continue
            },
    {
        handler::after_receiving(&mut self.last_second, now)
    }

    /// Decide what to do about a command at time `now`.
    pub fn handle_command(&self, cmd: TransportCommand, has_requester: bool, now: u128) -> (action:
        CommandAction)
        ensures
            handler::plain_action(
                self.state,
                cmd,
                self.local_node_id,
                refusal_of(cmd),
                has_requester,
                now,
                action,
            ),
    {
        let refusal: Option<String> = match &cmd {
            TransportCommand::GetInfo { node_id, .. } => if *node_id > 127 {
                let mut message = handler::number_text("CAN node ID ", *node_id);
                message.append(" is out of range (0–127)");
                Some(message)
            } else if can_node_id_accepts(*node_id as u8) {
                None
            } else {
                Some("Invalid node ID".to_owned())
            },
            _ => None,
        };
        handler::plain_command(
            &self.state,
            cmd,
            self.local_node_id,
            refusal,
            has_requester,
            now,
        )
    }

    /// Process a message at time `now`.
    pub fn handle_message(
        &mut self,
        subject: u16,
        source: Option<u16>,
        payload: &[u8],
        now: u128,
    ) -> (handled: bool)
        ensures
            handled == (subject == messages::HEARTBEAT_SUBJECT),
            final(self).local_node_id == old(self).local_node_id,
            final(self).last_second == old(self).last_second,
            if handled {
                state::after_heartbeat(
                    old(self).state,
                    final(self).state,
                    handler::heard_node(source, payload@),
                    now,
                )
            } else {
                final(self).state == old(self).state
            },
    {
        handler::plain_message(&mut self.state, subject, source, payload, now)
    }

    /// Process a response.
    pub fn handle_response(&mut self, service: u16, payload: &[u8]) -> (outcome: ResponseOutcome)
        ensures
            final(self).local_node_id == old(self).local_node_id,
            final(self).last_second == old(self).last_second,
            handler::plain_answered(
                old(self).state,
                final(self).state,
                service,
                payload@,
                outcome,
            ),
    {
        handler::plain_response(&mut self.state, service, payload)
    }
}

// ─── laws ────────────────────────────────────────────────────────────────────

/// The words of a control reply are the capabilities in the order of the protocol:
/// features, clock, the limits of the first segment, of the second, of the jump width and
/// of the prescaler, and the prescaler's step.
pub proof fn capabilities_stand_in_order(buf: Seq<u8>, words: Seq<u32>)
    requires
        words.len() == 10,
        buf.len() >= 40,
        forall|i: int|
            0 <= i < 10 ==> #[trigger] buf.subrange(4 * i, 4 * i + 4) == wire::le_bytes(words[i]),
    ensures
        ({
            let bt = bt_const_of(buf);
            &&& seq![bt.feature, bt.fclk_can, bt.tseg1_min, bt.tseg1_max, bt.tseg2_min]
                == words.take(5)
            &&& seq![bt.tseg2_max, bt.sjw_max, bt.brp_min, bt.brp_max, bt.brp_inc] == words.skip(5)
        }),
{
    let bt = bt_const_of(buf);
    assert forall|i: int| 0 <= i < 10 implies wire::le_u32(buf, 4 * i) == #[trigger] words[i] by {
        assert(buf.subrange(4 * i, 4 * i + 4) == wire::le_bytes(words[i]));
        wire::le_bytes_read_back_at(buf, 4 * i, words[i]);
    }
    assert(wire::le_u32(buf, 0) == words[0]);
    assert(wire::le_u32(buf, 4) == words[1]);
    assert(wire::le_u32(buf, 8) == words[2]);
    assert(wire::le_u32(buf, 12) == words[3]);
    assert(wire::le_u32(buf, 16) == words[4]);
    assert(wire::le_u32(buf, 20) == words[5]);
    assert(wire::le_u32(buf, 24) == words[6]);
    assert(wire::le_u32(buf, 28) == words[7]);
    assert(wire::le_u32(buf, 32) == words[8]);
    assert(wire::le_u32(buf, 36) == words[9]);
    assert(seq![bt.feature, bt.fclk_can, bt.tseg1_min, bt.tseg1_max, bt.tseg2_min] =~= words.take(
        5,
    ));
    assert(seq![bt.tseg2_max, bt.sjw_max, bt.brp_min, bt.brp_max, bt.brp_inc] =~= words.skip(5));
}

/// Counting the wanted devices: none before the start, and one more at each that is
/// wanted.
proof fn wanted_are_counted(
    devices: Seq<Option<(u16, u16)>>,
    vid: Option<u16>,
    pid: Option<u16>,
    from: int,
    to: int,
)
    requires
        0 <= from <= to <= devices.len(),
    ensures
        count_wanted(devices.take(from), vid, pid) <= count_wanted(devices.take(to), vid, pid),
        count_wanted(devices.take(from), vid, pid) == count_wanted(devices.take(to), vid, pid)
            <==> forall|i: int| from <= i < to ==> !wanted(#[trigger] devices[i], vid, pid),
    decreases to - from,
{
    if from < to {
        wanted_are_counted(devices, vid, pid, from, to - 1);
        assert(devices.take(to).drop_last() =~= devices.take(to - 1));
        assert(devices.take(to).last() == devices[to - 1]);
    }
}

/// The device with index 0 is the first wanted one, and the device with the next index is
/// the first wanted one behind it: between them no device is wanted, and where there is
/// no such device, none behind is.
pub proof fn devices_are_picked_in_order(
    devices: Seq<Option<(u16, u16)>>,
    vid: Option<u16>,
    pid: Option<u16>,
    first: Option<usize>,
    index: u32,
    here: usize,
    next: Option<usize>,
)
    requires
        is_pick(devices, 0, vid, pid, first),
        index < u32::MAX,
        is_pick(devices, index, vid, pid, Some(here)),
        is_pick(devices, (index + 1) as u32, vid, pid, next),
    ensures
        match first {
            Some(f) => f < devices.len() && wanted(devices[f as int], vid, pid) && forall|i: int|
                0 <= i < f ==> !wanted(#[trigger] devices[i], vid, pid),
            None => forall|i: int|
                0 <= i < devices.len() ==> !wanted(#[trigger] devices[i], vid, pid),
        },
        match next {
            Some(n) => here < n < devices.len() && wanted(devices[n as int], vid, pid) && forall|
                i: int,
            |
                here < i < n ==> !wanted(#[trigger] devices[i], vid, pid),
            None => forall|i: int|
                here < i < devices.len() ==> !wanted(#[trigger] devices[i], vid, pid),
        },
{
    assert(devices.take(devices.len() as int) =~= devices);
    assert(devices.take(0) =~= Seq::<Option<(u16, u16)>>::empty());
    match first {
        Some(f) => wanted_are_counted(devices, vid, pid, 0, f as int),
        None => wanted_are_counted(devices, vid, pid, 0, devices.len() as int),
    }
    let h = here as int;
    assert(devices.take(h + 1).drop_last() =~= devices.take(h));
    assert(devices.take(h + 1).last() == devices[h]);
    match next {
        Some(n) => {
            if n <= here {
                wanted_are_counted(devices, vid, pid, n as int, h);
            } else {
                wanted_are_counted(devices, vid, pid, h + 1, n as int);
            }
        },
        None => wanted_are_counted(devices, vid, pid, h + 1, devices.len() as int),
    }
}

/// A frame whose deadline lies up to half of the clock's range ahead is still sent, and
/// one whose deadline has passed by up to half of it is not, whether or not the clock
/// wrapped around in between.
pub proof fn deadlines_wrap_around(deadline: u32, now: u32, span: u32)
    requires
        span < 0x8000_0000,
    ensures
        deadline == (now + span) % 0x1_0000_0000 ==> !ticks_before(deadline, now),
        span > 0 && now == (deadline + span) % 0x1_0000_0000 ==> ticks_before(deadline, now),
{
}

/// A device whose descriptor was read is wanted where it has all that is asked for: the
/// vendor and the product where they are given, and to be one of the three known adapters
/// where no vendor is.
pub proof fn devices_are_wanted_as_given(
    dev_vid: u16,
    dev_pid: u16,
    vid: Option<u16>,
    pid: Option<u16>,
)
    ensures
        wanted(None, vid, pid) == false,
        wanted(Some((dev_vid, dev_pid)), vid, pid) <==> {
            &&& vid matches Some(v) ==> dev_vid == v
            &&& pid matches Some(p) ==> dev_pid == p
            &&& vid is None ==> seq![
                (0x1d50u16, 0x606fu16),
                (0x1d50u16, 0x5740u16),
                (0x04d8u16, 0x0053u16),
            ].contains((dev_vid, dev_pid))
        },
{
    let known = seq![(0x1d50u16, 0x606fu16), (0x1d50u16, 0x5740u16), (0x04d8u16, 0x0053u16)];
    assert(known[0] == (0x1d50u16, 0x606fu16));
    assert(known[1] == (0x1d50u16, 0x5740u16));
    assert(known[2] == (0x04d8u16, 0x0053u16));
}

} // verus!
