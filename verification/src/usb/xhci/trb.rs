//! The 16-byte xHCI Transfer Request Block and its bit fields.
//!
//! A TRB is four little-endian DWORDs: the 64-bit parameter, the status
//! DWORD and the control DWORD.  The accessors below read and replace the
//! individual fields of the status and control DWORDs; every setter states
//! that the field reads back as written and that every other bit is kept.

use vstd::prelude::*;

verus! {

// ============================================================
// Generic control bits
// ============================================================

pub const CONTROL_CYCLE: u32 = 0x0000_0001;

pub const CONTROL_ENT: u32 = 0x0000_0002;

pub const CONTROL_ISP: u32 = 0x0000_0004;

pub const CONTROL_NO_SNOOP: u32 = 0x0000_0008;

pub const CONTROL_CHAIN: u32 = 0x0000_0010;

pub const CONTROL_IOC: u32 = 0x0000_0020;

pub const CONTROL_IDT: u32 = 0x0000_0040;

pub const CONTROL_BEI: u32 = 0x0000_0200;

// ============================================================
// TRB type field (control bits 15:10)
// ============================================================

pub const TRB_TYPE_SHIFT: u32 = 10;

pub const TRB_TYPE_BITMASK: u32 = 0x0000_FC00;

pub const TRB_TYPE_MASK: u32 = TRB_TYPE_BITMASK;

// ============================================================
// Status fields
// ============================================================

pub const STATUS_TRANSFER_LENGTH_MASK: u32 = 0x0001_FFFF;

pub const STATUS_TD_SIZE_MASK: u32 = 0x003E_0000;

pub const STATUS_TD_SIZE_SHIFT: u32 = 17;

pub const STATUS_INTERRUPT_TARGET_MASK: u32 = 0xFFC0_0000;

pub const STATUS_INTERRUPT_TARGET_SHIFT: u32 = 22;

pub const STATUS_EVENT_LENGTH_MASK: u32 = 0x00FF_FFFF;

pub const STATUS_COMPLETION_CODE_MASK: u32 = 0xFF00_0000;

pub const STATUS_COMPLETION_CODE_SHIFT: u32 = 24;

// ============================================================
// Control transfer fields
// ============================================================

pub const CONTROL_DIRECTION_IN: u32 = 0x0001_0000;

pub const CONTROL_TRANSFER_TYPE_MASK: u32 = 0x0003_0000;

pub const CONTROL_TRANSFER_TYPE_SHIFT: u32 = 16;

pub const TRANSFER_TYPE_RESERVED: u8 = 0;

pub const TRANSFER_TYPE_RESERVED_1: u8 = 1;

pub const TRANSFER_TYPE_OUT: u8 = 2;

pub const TRANSFER_TYPE_IN: u8 = 3;

// ============================================================
// Isochronous fields
// ============================================================

pub const ISOCH_START_IMMEDIATELY: u32 = 0x8000_0000;

pub const ISOCH_FRAME_ID_MASK: u32 = 0x7FF0_0000;

pub const ISOCH_FRAME_ID_SHIFT: u32 = 20;

pub const ISOCH_TOTAL_BURST_COUNT_MASK: u32 = 0x0000_0180;

pub const ISOCH_TOTAL_BURST_COUNT_SHIFT: u32 = 7;

pub const ISOCH_TLBPC_MASK: u32 = 0x000F_0000;

pub const ISOCH_TLBPC_SHIFT: u32 = 16;

// ============================================================
// Event fields
// ============================================================

pub const EVENT_DATA: u32 = 0x0000_0004;

pub const EVENT_SLOT_ID_MASK: u32 = 0xFF00_0000;

pub const EVENT_SLOT_ID_SHIFT: u32 = 24;

pub const EVENT_ENDPOINT_ID_MASK: u32 = 0x001F_0000;

pub const EVENT_ENDPOINT_ID_SHIFT: u32 = 16;

// ============================================================
// Command-specific bits
// ============================================================

pub const COMMAND_BSR: u32 = 0x0000_0200;

pub const COMMAND_DC: u32 = 0x0000_0200;

pub const COMMAND_TSP: u32 = 0x0000_0200;

pub const COMMAND_SCT_MASK: u32 = 0x0000_000E;

pub const COMMAND_SCT_SHIFT: u32 = 1;

pub const COMMAND_STREAM_ID_MASK: u32 = 0xFFFF_0000;

pub const COMMAND_STREAM_ID_SHIFT: u32 = 16;

// ============================================================
// Link TRB
// ============================================================

pub const LINK_TOGGLE_CYCLE: u32 = 0x0000_0002;

// ============================================================
// Completion codes
// ============================================================

/// xHCI completion codes (value 30 is reserved).
#[derive(Debug, Clone, Copy, PartialEq, Eq, Structural)]
pub enum CompletionCode {
    Invalid,
    Success,
    DataBufferError,
    BabbleDetectedError,
    UsbTransactionError,
    TrbError,
    StallError,
    ResourceError,
    BandwidthError,
    NoSlotsAvailableError,
    InvalidStreamTypeError,
    SlotNotEnabledError,
    EndpointNotEnabledError,
    ShortPacket,
    RingUnderrun,
    RingOverrun,
    VfEventRingFullError,
    ParameterError,
    BandwidthOverrunError,
    ContextStateError,
    NoPingResponseError,
    EventRingFullError,
    IncompatibleDeviceError,
    MissedServiceError,
    CommandRingStopped,
    CommandAborted,
    Stopped,
    StoppedLengthInvalid,
    StoppedShortPacket,
    MaxExitLatencyTooLargeError,
    IsochBufferOverrun,
    EventLostError,
    UndefinedError,
    InvalidStreamIdError,
    SecondaryBandwidthError,
    SplitTransactionError,
}

impl CompletionCode {
    /// The numeric code of each completion code.
    pub open spec fn value(self) -> u8 {
        match self {
            CompletionCode::Invalid => 0,
            CompletionCode::Success => 1,
            CompletionCode::DataBufferError => 2,
            CompletionCode::BabbleDetectedError => 3,
            CompletionCode::UsbTransactionError => 4,
            CompletionCode::TrbError => 5,
            CompletionCode::StallError => 6,
            CompletionCode::ResourceError => 7,
            CompletionCode::BandwidthError => 8,
            CompletionCode::NoSlotsAvailableError => 9,
            CompletionCode::InvalidStreamTypeError => 10,
            CompletionCode::SlotNotEnabledError => 11,
            CompletionCode::EndpointNotEnabledError => 12,
            CompletionCode::ShortPacket => 13,
            CompletionCode::RingUnderrun => 14,
            CompletionCode::RingOverrun => 15,
            CompletionCode::VfEventRingFullError => 16,
            CompletionCode::ParameterError => 17,
            CompletionCode::BandwidthOverrunError => 18,
            CompletionCode::ContextStateError => 19,
            CompletionCode::NoPingResponseError => 20,
            CompletionCode::EventRingFullError => 21,
            CompletionCode::IncompatibleDeviceError => 22,
            CompletionCode::MissedServiceError => 23,
            CompletionCode::CommandRingStopped => 24,
            CompletionCode::CommandAborted => 25,
            CompletionCode::Stopped => 26,
            CompletionCode::StoppedLengthInvalid => 27,
            CompletionCode::StoppedShortPacket => 28,
            CompletionCode::MaxExitLatencyTooLargeError => 29,
            CompletionCode::IsochBufferOverrun => 31,
            CompletionCode::EventLostError => 32,
            CompletionCode::UndefinedError => 33,
            CompletionCode::InvalidStreamIdError => 34,
            CompletionCode::SecondaryBandwidthError => 35,
            CompletionCode::SplitTransactionError => 36,
        }
    }

    /// The numbers that name a completion code: 0 to 36 except 30.
    pub open spec fn is_defined(value: u8) -> bool {
        value <= 36 && value != 30
    }

    /// Decodes a numeric completion code; reserved and undefined values give
    /// `None`.
    #[inline(always)]
    pub fn from_u8(value: u8) -> (r: Option<Self>)
        ensures
            r.is_some() <==> Self::is_defined(value),
            r matches Some(code) ==> code.value() == value,
    {
        match value {
            0 => Some(CompletionCode::Invalid),
            1 => Some(CompletionCode::Success),
            2 => Some(CompletionCode::DataBufferError),
            3 => Some(CompletionCode::BabbleDetectedError),
            4 => Some(CompletionCode::UsbTransactionError),
            5 => Some(CompletionCode::TrbError),
            6 => Some(CompletionCode::StallError),
            7 => Some(CompletionCode::ResourceError),
            8 => Some(CompletionCode::BandwidthError),
            9 => Some(CompletionCode::NoSlotsAvailableError),
            10 => Some(CompletionCode::InvalidStreamTypeError),
            11 => Some(CompletionCode::SlotNotEnabledError),
            12 => Some(CompletionCode::EndpointNotEnabledError),
            13 => Some(CompletionCode::ShortPacket),
            14 => Some(CompletionCode::RingUnderrun),
            15 => Some(CompletionCode::RingOverrun),
            16 => Some(CompletionCode::VfEventRingFullError),
            17 => Some(CompletionCode::ParameterError),
            18 => Some(CompletionCode::BandwidthOverrunError),
            19 => Some(CompletionCode::ContextStateError),
            20 => Some(CompletionCode::NoPingResponseError),
            21 => Some(CompletionCode::EventRingFullError),
            22 => Some(CompletionCode::IncompatibleDeviceError),
            23 => Some(CompletionCode::MissedServiceError),
            24 => Some(CompletionCode::CommandRingStopped),
            25 => Some(CompletionCode::CommandAborted),
            26 => Some(CompletionCode::Stopped),
            27 => Some(CompletionCode::StoppedLengthInvalid),
            28 => Some(CompletionCode::StoppedShortPacket),
            29 => Some(CompletionCode::MaxExitLatencyTooLargeError),
            31 => Some(CompletionCode::IsochBufferOverrun),
            32 => Some(CompletionCode::EventLostError),
            33 => Some(CompletionCode::UndefinedError),
            34 => Some(CompletionCode::InvalidStreamIdError),
            35 => Some(CompletionCode::SecondaryBandwidthError),
            36 => Some(CompletionCode::SplitTransactionError),
            _ => None,
        }
    }

    /// Decodes the completion code held in bits 31:24 of a status DWORD.
    #[inline(always)]
    pub fn from_status(status: u32) -> (r: Option<Self>)
        ensures
            r.is_some() <==> Self::is_defined((status >> 24u32) as u8),
            r matches Some(code) ==> code.value() as u32 == status >> 24u32,
    {
        let field = (status & STATUS_COMPLETION_CODE_MASK) >> STATUS_COMPLETION_CODE_SHIFT;
        proof {
            lemma_trb_bits();
            assert((status & 0xFF00_0000u32) >> 24u32 == status >> 24u32);
            assert(status >> 24u32 < 256);
        }
        Self::from_u8(field as u8)
    }

    /// The numeric value of this completion code.
    #[inline(always)]
    pub fn code(self) -> (r: u8)
        ensures
            r == self.value(),
    {
        match self {
            CompletionCode::Invalid => 0,
            CompletionCode::Success => 1,
            CompletionCode::DataBufferError => 2,
            CompletionCode::BabbleDetectedError => 3,
            CompletionCode::UsbTransactionError => 4,
            CompletionCode::TrbError => 5,
            CompletionCode::StallError => 6,
            CompletionCode::ResourceError => 7,
            CompletionCode::BandwidthError => 8,
            CompletionCode::NoSlotsAvailableError => 9,
            CompletionCode::InvalidStreamTypeError => 10,
            CompletionCode::SlotNotEnabledError => 11,
            CompletionCode::EndpointNotEnabledError => 12,
            CompletionCode::ShortPacket => 13,
            CompletionCode::RingUnderrun => 14,
            CompletionCode::RingOverrun => 15,
            CompletionCode::VfEventRingFullError => 16,
            CompletionCode::ParameterError => 17,
            CompletionCode::BandwidthOverrunError => 18,
            CompletionCode::ContextStateError => 19,
            CompletionCode::NoPingResponseError => 20,
            CompletionCode::EventRingFullError => 21,
            CompletionCode::IncompatibleDeviceError => 22,
            CompletionCode::MissedServiceError => 23,
            CompletionCode::CommandRingStopped => 24,
            CompletionCode::CommandAborted => 25,
            CompletionCode::Stopped => 26,
            CompletionCode::StoppedLengthInvalid => 27,
            CompletionCode::StoppedShortPacket => 28,
            CompletionCode::MaxExitLatencyTooLargeError => 29,
            CompletionCode::IsochBufferOverrun => 31,
            CompletionCode::EventLostError => 32,
            CompletionCode::UndefinedError => 33,
            CompletionCode::InvalidStreamIdError => 34,
            CompletionCode::SecondaryBandwidthError => 35,
            CompletionCode::SplitTransactionError => 36,
        }
    }

    /// Every completion code has a defined number, and no two codes share
    /// one: decoding the number of a code gives that code back.
    pub proof fn lemma_code_round_trip(a: CompletionCode, b: CompletionCode)
        ensures
            Self::is_defined(a.value()),
            a.value() == b.value() ==> a == b,
    {
    }
}

// ============================================================
// TRB types
// ============================================================

/// TRB types: transfer TRBs 1..=8, command TRBs 9..=23 and event TRBs
/// 32..=39.
#[derive(Debug, Clone, Copy, PartialEq, Eq, Structural)]
pub enum TrbType {
    Normal,
    SetupStage,
    DataStage,
    StatusStage,
    Isoch,
    Link,
    EventData,
    NoOp,
    EnableSlotCommand,
    DisableSlotCommand,
    AddressDeviceCommand,
    ConfigureEndpointCommand,
    EvaluateContextCommand,
    ResetEndpointCommand,
    StopEndpointCommand,
    SetTrDequeuePointerCommand,
    ResetDeviceCommand,
    ForceEventCommand,
    NegotiateBandwidthCommand,
    SetLatencyToleranceValueCommand,
    GetPortBandwidthCommand,
    ForceHeaderCommand,
    NoOpCommand,
    TransferEvent,
    CommandCompletionEvent,
    PortStatusChangeEvent,
    BandwidthRequestEvent,
    DoorbellEvent,
    HostControllerEvent,
    DeviceNotificationEvent,
    MfIndexWrapEvent,
}

impl TrbType {
    /// The numeric type of each TRB type.
    pub open spec fn value(self) -> u8 {
        match self {
            TrbType::Normal => 1,
            TrbType::SetupStage => 2,
            TrbType::DataStage => 3,
            TrbType::StatusStage => 4,
            TrbType::Isoch => 5,
            TrbType::Link => 6,
            TrbType::EventData => 7,
            TrbType::NoOp => 8,
            TrbType::EnableSlotCommand => 9,
            TrbType::DisableSlotCommand => 10,
            TrbType::AddressDeviceCommand => 11,
            TrbType::ConfigureEndpointCommand => 12,
            TrbType::EvaluateContextCommand => 13,
            TrbType::ResetEndpointCommand => 14,
            TrbType::StopEndpointCommand => 15,
            TrbType::SetTrDequeuePointerCommand => 16,
            TrbType::ResetDeviceCommand => 17,
            TrbType::ForceEventCommand => 18,
            TrbType::NegotiateBandwidthCommand => 19,
            TrbType::SetLatencyToleranceValueCommand => 20,
            TrbType::GetPortBandwidthCommand => 21,
            TrbType::ForceHeaderCommand => 22,
            TrbType::NoOpCommand => 23,
            TrbType::TransferEvent => 32,
            TrbType::CommandCompletionEvent => 33,
            TrbType::PortStatusChangeEvent => 34,
            TrbType::BandwidthRequestEvent => 35,
            TrbType::DoorbellEvent => 36,
            TrbType::HostControllerEvent => 37,
            TrbType::DeviceNotificationEvent => 38,
            TrbType::MfIndexWrapEvent => 39,
        }
    }

    /// The numbers that name a TRB type.
    pub open spec fn is_defined(value: u8) -> bool {
        (1 <= value && value <= 23) || (32 <= value && value <= 39)
    }

    /// The numeric type.
    #[inline(always)]
    pub fn as_u8(self) -> (r: u8)
        ensures
            r == self.value(),
    {
        match self {
            TrbType::Normal => 1,
            TrbType::SetupStage => 2,
            TrbType::DataStage => 3,
            TrbType::StatusStage => 4,
            TrbType::Isoch => 5,
            TrbType::Link => 6,
            TrbType::EventData => 7,
            TrbType::NoOp => 8,
            TrbType::EnableSlotCommand => 9,
            TrbType::DisableSlotCommand => 10,
            TrbType::AddressDeviceCommand => 11,
            TrbType::ConfigureEndpointCommand => 12,
            TrbType::EvaluateContextCommand => 13,
            TrbType::ResetEndpointCommand => 14,
            TrbType::StopEndpointCommand => 15,
            TrbType::SetTrDequeuePointerCommand => 16,
            TrbType::ResetDeviceCommand => 17,
            TrbType::ForceEventCommand => 18,
            TrbType::NegotiateBandwidthCommand => 19,
            TrbType::SetLatencyToleranceValueCommand => 20,
            TrbType::GetPortBandwidthCommand => 21,
            TrbType::ForceHeaderCommand => 22,
            TrbType::NoOpCommand => 23,
            TrbType::TransferEvent => 32,
            TrbType::CommandCompletionEvent => 33,
            TrbType::PortStatusChangeEvent => 34,
            TrbType::BandwidthRequestEvent => 35,
            TrbType::DoorbellEvent => 36,
            TrbType::HostControllerEvent => 37,
            TrbType::DeviceNotificationEvent => 38,
            TrbType::MfIndexWrapEvent => 39,
        }
    }

    /// The numeric type widened to 32 bits.
    #[inline(always)]
    pub fn as_u32(self) -> (r: u32)
        ensures
            r == self.value() as u32,
    {
        self.as_u8() as u32
    }

    /// The type placed in bits 15:10 of a control DWORD.
    #[inline(always)]
    pub fn control_bits(self) -> (r: u32)
        ensures
            r == (self.value() as u32) << TRB_TYPE_SHIFT,
            r & !TRB_TYPE_BITMASK == 0,
            (r & TRB_TYPE_BITMASK) >> TRB_TYPE_SHIFT == self.value() as u32,
    {
        let v = self.as_u32();
        proof {
            lemma_trb_bits();
            assert(v <= 39);
            assert((v << 10u32) & !0xFC00u32 == 0 && ((v << 10u32) & 0xFC00u32) >> 10u32 == v);
        }
        v << TRB_TYPE_SHIFT
    }

    /// Decodes a numeric TRB type; undefined values give `None`.
    #[inline(always)]
    pub fn from_u8(value: u8) -> (r: Option<Self>)
        ensures
            r.is_some() <==> Self::is_defined(value),
            r matches Some(t) ==> t.value() == value,
    {
        match value {
            1 => Some(TrbType::Normal),
            2 => Some(TrbType::SetupStage),
            3 => Some(TrbType::DataStage),
            4 => Some(TrbType::StatusStage),
            5 => Some(TrbType::Isoch),
            6 => Some(TrbType::Link),
            7 => Some(TrbType::EventData),
            8 => Some(TrbType::NoOp),
            9 => Some(TrbType::EnableSlotCommand),
            10 => Some(TrbType::DisableSlotCommand),
            11 => Some(TrbType::AddressDeviceCommand),
            12 => Some(TrbType::ConfigureEndpointCommand),
            13 => Some(TrbType::EvaluateContextCommand),
            14 => Some(TrbType::ResetEndpointCommand),
            15 => Some(TrbType::StopEndpointCommand),
            16 => Some(TrbType::SetTrDequeuePointerCommand),
            17 => Some(TrbType::ResetDeviceCommand),
            18 => Some(TrbType::ForceEventCommand),
            19 => Some(TrbType::NegotiateBandwidthCommand),
            20 => Some(TrbType::SetLatencyToleranceValueCommand),
            21 => Some(TrbType::GetPortBandwidthCommand),
            22 => Some(TrbType::ForceHeaderCommand),
            23 => Some(TrbType::NoOpCommand),
            32 => Some(TrbType::TransferEvent),
            33 => Some(TrbType::CommandCompletionEvent),
            34 => Some(TrbType::PortStatusChangeEvent),
            35 => Some(TrbType::BandwidthRequestEvent),
            36 => Some(TrbType::DoorbellEvent),
            37 => Some(TrbType::HostControllerEvent),
            38 => Some(TrbType::DeviceNotificationEvent),
            39 => Some(TrbType::MfIndexWrapEvent),
            _ => None,
        }
    }

    /// Every TRB type has a defined number, and no two types share one.
    pub proof fn lemma_type_round_trip(a: TrbType, b: TrbType)
        ensures
            Self::is_defined(a.value()),
            a.value() == b.value() ==> a == b,
    {
    }
}

// ============================================================
// Transfer Request Block
// ============================================================

/// One 16-byte xHCI Transfer Request Block.
#[derive(Debug, Clone, Copy, Default, PartialEq, Eq, Structural)]
pub struct Trb {
    /// DWORDs 0-1: the type-dependent parameter (a buffer or ring pointer).
    pub parameter: u64,
    /// DWORD 2: type-dependent status and length fields.
    pub status: u32,
    /// DWORD 3: cycle bit, TRB type and type-specific flags.
    pub control: u32,
}

/// The bit facts behind the field accessors: a field read from its mask
/// fits its type, and writing a value that fits its field reads back as
/// that value while every other bit stays.
proof fn lemma_trb_bits()
    by (bit_vector)
    ensures
        forall|w: u32| #[trigger] ((w & 0xFF00_0000u32) >> 24u32) == w >> 24u32,
        forall|w: u32| #[trigger] (w >> 24u32) < 256,
        forall|v: u32|
            v <= 39 ==> (#[trigger] (v << 10u32)) & !0xFC00u32 == 0 && ((v << 10u32) & 0xFC00u32) >> 10u32 == v,
        forall|w: u32, l: u32|
            (#[trigger] ((w & !0x0001_FFFFu32) | (l & 0x0001_FFFFu32))) & 0x0001_FFFFu32 == l & 0x0001_FFFFu32 && ((w
                & !0x0001_FFFFu32) | (l & 0x0001_FFFFu32)) & !0x0001_FFFFu32 == w & !0x0001_FFFFu32,
        forall|v: u8| #[trigger] (v & 0x3u8) <= 0x3,
        forall|v: u16| #[trigger] (v & 0x07FFu16) <= 0x07FF,
        forall|x: u32| #[trigger] (x | 0u32) == x,
        forall|w: u32| #[trigger] ((w & 0xFF00_0000u32) >> 24u32) < 256,
        forall|w: u32| #[trigger] ((w & 0xFC00u32) >> 10u32) < 64,
        forall|w: u32| #[trigger] ((w & 0x003E_0000u32) >> 17u32) < 256,
        forall|w: u32| #[trigger] ((w & 0xFFC0_0000u32) >> 22u32) < 65536,
        forall|w: u32| #[trigger] ((w & 0x001F_0000u32) >> 16u32) < 256,
        forall|w: u32| #[trigger] ((w & 0x0003_0000u32) >> 16u32) < 256,
        forall|w: u32| #[trigger] ((w & 0x7FF0_0000u32) >> 20u32) < 65536,
        forall|w: u32| #[trigger] ((w & 0x0000_0180u32) >> 7u32) < 256,
        forall|w: u32| #[trigger] ((w & 0x000F_0000u32) >> 16u32) < 256,
        forall|w: u32, f: u32|
            f <= 31 ==> ((#[trigger] ((w & !0x003E_0000u32) | (f << 17u32))) & 0x003E_0000u32) >> 17u32 == f && ((w
                & !0x003E_0000u32) | (f << 17u32)) & !0x003E_0000u32 == w & !0x003E_0000u32,
        forall|w: u32, f: u32|
            f <= 0x03FF ==> ((#[trigger] ((w & !0xFFC0_0000u32) | (f << 22u32))) & 0xFFC0_0000u32) >> 22u32 == f && ((w
                & !0xFFC0_0000u32) | (f << 22u32)) & !0xFFC0_0000u32 == w & !0xFFC0_0000u32,
        forall|w: u32, f: u32|
            f <= 255 ==> ((#[trigger] ((w & !0xFF00_0000u32) | (f << 24u32))) & 0xFF00_0000u32) >> 24u32 == f && ((w
                & !0xFF00_0000u32) | (f << 24u32)) & !0xFF00_0000u32 == w & !0xFF00_0000u32,
        forall|w: u32, f: u32|
            f <= 31 ==> ((#[trigger] ((w & !0x001F_0000u32) | (f << 16u32))) & 0x001F_0000u32) >> 16u32 == f && ((w
                & !0x001F_0000u32) | (f << 16u32)) & !0x001F_0000u32 == w & !0x001F_0000u32,
        forall|w: u32, f: u32|
            f <= 3 ==> ((#[trigger] ((w & !0x0003_0000u32) | (f << 16u32))) & 0x0003_0000u32) >> 16u32 == f && ((w
                & !0x0003_0000u32) | (f << 16u32)) & !0x0003_0000u32 == w & !0x0003_0000u32,
        forall|w: u32, f: u32|
            f <= 0x07FF ==> ((#[trigger] ((w & !0x7FF0_0000u32) | (f << 20u32))) & 0x7FF0_0000u32) >> 20u32 == f && ((w
                & !0x7FF0_0000u32) | (f << 20u32)) & !0x7FF0_0000u32 == w & !0x7FF0_0000u32,
        forall|w: u32, f: u32|
            f <= 3 ==> ((#[trigger] ((w & !0x0000_0180u32) | (f << 7u32))) & 0x0000_0180u32) >> 7u32 == f && ((w
                & !0x0000_0180u32) | (f << 7u32)) & !0x0000_0180u32 == w & !0x0000_0180u32,
        forall|w: u32, f: u32|
            f <= 15 ==> ((#[trigger] ((w & !0x000F_0000u32) | (f << 16u32))) & 0x000F_0000u32) >> 16u32 == f && ((w
                & !0x000F_0000u32) | (f << 16u32)) & !0x000F_0000u32 == w & !0x000F_0000u32,
        forall|w: u32, f: u32|
            f <= 39 ==> ((#[trigger] ((w & !0xFC00u32) | (f << 10u32))) & 0xFC00u32) >> 10u32 == f && ((w
                & !0xFC00u32) | (f << 10u32)) & !0xFC00u32 == w & !0xFC00u32,
{
}

/// Setting a flag makes it read back set, clearing it makes it read back
/// clear, and neither touches any other bit.
proof fn lemma_flag_update(word: u32, mask: u32)
    by (bit_vector)
    requires
        mask != 0,
    ensures
        (word | mask) & mask != 0,
        (word | mask) & !mask == word & !mask,
        (word & !mask) & mask == 0,
        (word & !mask) & !mask == word & !mask,
{
}

impl Trb {
    /// A TRB with the given parameter, status and control words.
    #[inline(always)]
    pub fn new(parameter: u64, status: u32, control: u32) -> (r: Self)
        ensures
            r == (Trb { parameter, status, control }),
    {
        Trb { parameter, status, control }
    }

    /// The all-zero TRB.
    #[inline(always)]
    pub fn zero() -> (r: Self)
        ensures
            r == (Trb { parameter: 0, status: 0, control: 0 }),
    {
        Trb { parameter: 0, status: 0, control: 0 }
    }

    /// The numeric TRB type held in control bits 15:10.
    pub open spec fn type_field(self) -> u32 {
        (self.control & TRB_TYPE_BITMASK) >> TRB_TYPE_SHIFT
    }

    /// Reads the TRB type field (control bits 15:10).
    #[inline(always)]
    pub fn trb_type(&self) -> (r: u8)
        ensures
            r as u32 == self.type_field(),
    {
        let field = (self.control & TRB_TYPE_BITMASK) >> TRB_TYPE_SHIFT;
        proof {
            lemma_trb_bits();
            let word = self.control;
            assert((word & 0xFC00u32) >> 10u32 < 64);
        }
        field as u8
    }

    /// Decodes the TRB type field; an undefined type gives `None`.
    #[inline(always)]
    pub fn trb_type_enum(&self) -> (r: Option<TrbType>)
        ensures
            r.is_some() <==> TrbType::is_defined(self.type_field() as u8),
            r matches Some(t) ==> t.value() as u32 == self.type_field(),
    {
        TrbType::from_u8(self.trb_type())
    }

    /// Whether the TRB type field names the given type.
    #[inline(always)]
    pub fn is_type(&self, trb_type: TrbType) -> (r: bool)
        ensures
            r == (self.type_field() == trb_type.value() as u32),
    {
        self.trb_type() == trb_type.as_u8()
    }

    /// Sets or clears one bit of the control DWORD.
    fn set_control_flag(&mut self, mask: u32, enabled: bool)
        requires
            mask != 0,
        ensures
            final(self).parameter == old(self).parameter,
            final(self).status == old(self).status,
            (final(self).control & mask != 0) == enabled,
            final(self).control & !mask == old(self).control & !mask,
    {
        proof {
            lemma_trb_bits();
            lemma_flag_update(self.control, mask);
        }
        if enabled {
            self.control = self.control | mask;
        } else {
            self.control = self.control & !mask;
        }
    }

    /// Reads the Cycle bit (control bit 0).
    #[inline(always)]
    pub fn cycle_bit(&self) -> (r: bool)
        ensures
            r == (self.control & CONTROL_CYCLE != 0),
    {
        (self.control & CONTROL_CYCLE) != 0
    }

    /// Reads the Cycle bit; the same as `cycle_bit`.
    #[inline(always)]
    pub fn cycle(&self) -> (r: bool)
        ensures
            r == (self.control & CONTROL_CYCLE != 0),
    {
        self.cycle_bit()
    }

    /// Sets or clears the Cycle bit; every other bit of the block is kept.
    #[inline(always)]
    pub fn set_cycle(&mut self, cycle: bool)
        ensures
            final(self).parameter == old(self).parameter,
            final(self).status == old(self).status,
            (final(self).control & CONTROL_CYCLE != 0) == cycle,
            final(self).control & !CONTROL_CYCLE == old(self).control & !CONTROL_CYCLE,
    {
        self.set_control_flag(CONTROL_CYCLE, cycle);
    }

    /// This TRB with its Cycle bit set to `cycle`.
    #[inline(always)]
    pub fn with_cycle(self, cycle: bool) -> (r: Self)
        ensures
            r.parameter == self.parameter,
            r.status == self.status,
            (r.control & CONTROL_CYCLE != 0) == cycle,
            r.control & !CONTROL_CYCLE == self.control & !CONTROL_CYCLE,
    {
        let mut trb = self;
        trb.set_cycle(cycle);
        trb
    }

    /// Reads the Link TRB Toggle Cycle flag; the same as `link_toggle_cycle`.
    #[inline(always)]
    pub fn link_toggle(&self) -> (r: bool)
        ensures
            r == (self.control & LINK_TOGGLE_CYCLE != 0),
    {
        self.link_toggle_cycle()
    }

    /// Sets or clears the Link TRB Toggle Cycle flag; the same as
    /// `set_link_toggle_cycle`.
    #[inline(always)]
    pub fn set_link_toggle(&mut self, enabled: bool)
        ensures
            final(self).parameter == old(self).parameter,
            final(self).status == old(self).status,
            (final(self).control & LINK_TOGGLE_CYCLE != 0) == enabled,
            final(self).control & !LINK_TOGGLE_CYCLE == old(self).control & !LINK_TOGGLE_CYCLE,
    {
        self.set_link_toggle_cycle(enabled);
    }

    /// Reads the Transfer Length field (status bits 16:0).
    #[inline(always)]
    pub fn transfer_length(&self) -> (r: u32)
        ensures
            r == self.status & STATUS_TRANSFER_LENGTH_MASK,
    {
        self.status & STATUS_TRANSFER_LENGTH_MASK
    }

    /// Replaces the Transfer Length field with the low 17 bits of `length`;
    /// every other bit of the block is kept.
    #[inline(always)]
    pub fn set_transfer_length(&mut self, length: u32)
        ensures
            final(self).parameter == old(self).parameter,
            final(self).control == old(self).control,
            final(self).status & STATUS_TRANSFER_LENGTH_MASK == length & STATUS_TRANSFER_LENGTH_MASK,
            final(self).status & !STATUS_TRANSFER_LENGTH_MASK == old(self).status & !STATUS_TRANSFER_LENGTH_MASK,
    {
        let word = self.status;
        proof {
            lemma_trb_bits();
            assert(((word & !0x0001_FFFFu32) | (length & 0x0001_FFFFu32)) & 0x0001_FFFFu32 == length & 0x0001_FFFFu32
                && ((word & !0x0001_FFFFu32) | (length & 0x0001_FFFFu32)) & !0x0001_FFFFu32 == word & !0x0001_FFFFu32);
        }
        self.status = (word & !STATUS_TRANSFER_LENGTH_MASK) | (length & STATUS_TRANSFER_LENGTH_MASK);
    }

    /// Reads the event Transfer Length field (status bits 23:0).
    #[inline(always)]
    pub fn event_length(&self) -> (r: u32)
        ensures
            r == self.status & STATUS_EVENT_LENGTH_MASK,
    {
        self.status & STATUS_EVENT_LENGTH_MASK
    }

    /// Reads the Completion Code field (status bits 31:24).
    #[inline(always)]
    pub fn completion_code(&self) -> (r: u8)
        ensures
            r as u32 == (self.status & STATUS_COMPLETION_CODE_MASK) >> STATUS_COMPLETION_CODE_SHIFT,
    {
        let field = (self.status & STATUS_COMPLETION_CODE_MASK) >> STATUS_COMPLETION_CODE_SHIFT;
        proof {
            lemma_trb_bits();
            let word = self.status;
            assert((word & 0xFF00_0000u32) >> 24u32 < 256);
        }
        field as u8
    }

    /// Decodes the Completion Code field; an undefined code gives `None`.
    #[inline(always)]
    pub fn completion(&self) -> (r: Option<CompletionCode>)
        ensures
            r.is_some() <==> CompletionCode::is_defined(
                ((self.status & STATUS_COMPLETION_CODE_MASK) >> STATUS_COMPLETION_CODE_SHIFT) as u8,
            ),
            r matches Some(code) ==> code.value() as u32 == (self.status & STATUS_COMPLETION_CODE_MASK)
                >> STATUS_COMPLETION_CODE_SHIFT,
    {
        CompletionCode::from_u8(self.completion_code())
    }

    /// Reads the Evaluate Next TRB (ENT) flag of the control word.
    #[inline(always)]
    pub fn evaluate_next_event_data(&self) -> (r: bool)
        ensures
            r == (self.control & CONTROL_ENT != 0),
    {
        (self.control & CONTROL_ENT) != 0
    }

    /// Sets or clears the Evaluate Next TRB (ENT) flag; every other bit of the block is kept.
    #[inline(always)]
    pub fn set_evaluate_next_event_data(&mut self, enabled: bool)
        ensures
            final(self).parameter == old(self).parameter,
            final(self).status == old(self).status,
            (final(self).control & CONTROL_ENT != 0) == enabled,
            final(self).control & !CONTROL_ENT == old(self).control & !CONTROL_ENT,
    {
        self.set_control_flag(CONTROL_ENT, enabled);
    }

    /// Reads the Chain flag of the control word.
    #[inline(always)]
    pub fn chain(&self) -> (r: bool)
        ensures
            r == (self.control & CONTROL_CHAIN != 0),
    {
        (self.control & CONTROL_CHAIN) != 0
    }

    /// Sets or clears the Chain flag; every other bit of the block is kept.
    #[inline(always)]
    pub fn set_chain(&mut self, enabled: bool)
        ensures
            final(self).parameter == old(self).parameter,
            final(self).status == old(self).status,
            (final(self).control & CONTROL_CHAIN != 0) == enabled,
            final(self).control & !CONTROL_CHAIN == old(self).control & !CONTROL_CHAIN,
    {
        self.set_control_flag(CONTROL_CHAIN, enabled);
    }

    /// Reads the Interrupt On Completion flag of the control word.
    #[inline(always)]
    pub fn interrupt_on_completion(&self) -> (r: bool)
        ensures
            r == (self.control & CONTROL_IOC != 0),
    {
        (self.control & CONTROL_IOC) != 0
    }

    /// Sets or clears the Interrupt On Completion flag; every other bit of the block is kept.
    #[inline(always)]
    pub fn set_interrupt_on_completion(&mut self, enabled: bool)
        ensures
            final(self).parameter == old(self).parameter,
            final(self).status == old(self).status,
            (final(self).control & CONTROL_IOC != 0) == enabled,
            final(self).control & !CONTROL_IOC == old(self).control & !CONTROL_IOC,
    {
        self.set_control_flag(CONTROL_IOC, enabled);
    }

    /// Reads the Interrupt on Short Packet flag of the control word.
    #[inline(always)]
    pub fn interrupt_on_short_packet(&self) -> (r: bool)
        ensures
            r == (self.control & CONTROL_ISP != 0),
    {
        (self.control & CONTROL_ISP) != 0
    }

    /// Sets or clears the Interrupt on Short Packet flag; every other bit of the block is kept.
    #[inline(always)]
    pub fn set_interrupt_on_short_packet(&mut self, enabled: bool)
        ensures
            final(self).parameter == old(self).parameter,
            final(self).status == old(self).status,
            (final(self).control & CONTROL_ISP != 0) == enabled,
            final(self).control & !CONTROL_ISP == old(self).control & !CONTROL_ISP,
    {
        self.set_control_flag(CONTROL_ISP, enabled);
    }

    /// Reads the No Snoop flag of the control word.
    #[inline(always)]
    pub fn no_snoop(&self) -> (r: bool)
        ensures
            r == (self.control & CONTROL_NO_SNOOP != 0),
    {
        (self.control & CONTROL_NO_SNOOP) != 0
    }

    /// Sets or clears the No Snoop flag; every other bit of the block is kept.
    #[inline(always)]
    pub fn set_no_snoop(&mut self, enabled: bool)
        ensures
            final(self).parameter == old(self).parameter,
            final(self).status == old(self).status,
            (final(self).control & CONTROL_NO_SNOOP != 0) == enabled,
            final(self).control & !CONTROL_NO_SNOOP == old(self).control & !CONTROL_NO_SNOOP,
    {
        self.set_control_flag(CONTROL_NO_SNOOP, enabled);
    }

    /// Reads the Immediate Data flag of the control word.
    #[inline(always)]
    pub fn immediate_data(&self) -> (r: bool)
        ensures
            r == (self.control & CONTROL_IDT != 0),
    {
        (self.control & CONTROL_IDT) != 0
    }

    /// Sets or clears the Immediate Data flag; every other bit of the block is kept.
    #[inline(always)]
    pub fn set_immediate_data(&mut self, enabled: bool)
        ensures
            final(self).parameter == old(self).parameter,
            final(self).status == old(self).status,
            (final(self).control & CONTROL_IDT != 0) == enabled,
            final(self).control & !CONTROL_IDT == old(self).control & !CONTROL_IDT,
    {
        self.set_control_flag(CONTROL_IDT, enabled);
    }

    /// Reads the Block Event Interrupt flag of the control word.
    #[inline(always)]
    pub fn block_event_interrupt(&self) -> (r: bool)
        ensures
            r == (self.control & CONTROL_BEI != 0),
    {
        (self.control & CONTROL_BEI) != 0
    }

    /// Sets or clears the Block Event Interrupt flag; every other bit of the block is kept.
    #[inline(always)]
    pub fn set_block_event_interrupt(&mut self, enabled: bool)
        ensures
            final(self).parameter == old(self).parameter,
            final(self).status == old(self).status,
            (final(self).control & CONTROL_BEI != 0) == enabled,
            final(self).control & !CONTROL_BEI == old(self).control & !CONTROL_BEI,
    {
        self.set_control_flag(CONTROL_BEI, enabled);
    }

    /// Reads the Link TRB Toggle Cycle flag of the control word.
    #[inline(always)]
    pub fn link_toggle_cycle(&self) -> (r: bool)
        ensures
            r == (self.control & LINK_TOGGLE_CYCLE != 0),
    {
        (self.control & LINK_TOGGLE_CYCLE) != 0
    }

    /// Sets or clears the Link TRB Toggle Cycle flag; every other bit of the block is kept.
    #[inline(always)]
    pub fn set_link_toggle_cycle(&mut self, enabled: bool)
        ensures
            final(self).parameter == old(self).parameter,
            final(self).status == old(self).status,
            (final(self).control & LINK_TOGGLE_CYCLE != 0) == enabled,
            final(self).control & !LINK_TOGGLE_CYCLE == old(self).control & !LINK_TOGGLE_CYCLE,
    {
        self.set_control_flag(LINK_TOGGLE_CYCLE, enabled);
    }

    /// Reads the control-transfer direction-IN flag of the control word.
    #[inline(always)]
    pub fn direction_in(&self) -> (r: bool)
        ensures
            r == (self.control & CONTROL_DIRECTION_IN != 0),
    {
        (self.control & CONTROL_DIRECTION_IN) != 0
    }

    /// Sets or clears the control-transfer direction-IN flag; every other bit of the block is kept.
    #[inline(always)]
    pub fn set_direction_in(&mut self, enabled: bool)
        ensures
            final(self).parameter == old(self).parameter,
            final(self).status == old(self).status,
            (final(self).control & CONTROL_DIRECTION_IN != 0) == enabled,
            final(self).control & !CONTROL_DIRECTION_IN == old(self).control & !CONTROL_DIRECTION_IN,
    {
        self.set_control_flag(CONTROL_DIRECTION_IN, enabled);
    }

    /// Reads the Start Isoch ASAP flag of the control word.
    #[inline(always)]
    pub fn isoch_start_immediately(&self) -> (r: bool)
        ensures
            r == (self.control & ISOCH_START_IMMEDIATELY != 0),
    {
        (self.control & ISOCH_START_IMMEDIATELY) != 0
    }

    /// Sets or clears the Start Isoch ASAP flag; every other bit of the block is kept.
    #[inline(always)]
    pub fn set_isoch_start_immediately(&mut self, enabled: bool)
        ensures
            final(self).parameter == old(self).parameter,
            final(self).status == old(self).status,
            (final(self).control & ISOCH_START_IMMEDIATELY != 0) == enabled,
            final(self).control & !ISOCH_START_IMMEDIATELY == old(self).control & !ISOCH_START_IMMEDIATELY,
    {
        self.set_control_flag(ISOCH_START_IMMEDIATELY, enabled);
    }

    /// Reads the TD Size field (status bits 21:17).
    #[inline(always)]
    pub fn td_size(&self) -> (r: u8)
        ensures
            r as u32 == (self.status & STATUS_TD_SIZE_MASK) >> STATUS_TD_SIZE_SHIFT,
    {
        let field = (self.status & STATUS_TD_SIZE_MASK) >> STATUS_TD_SIZE_SHIFT;
        proof {
            lemma_trb_bits();
            let word = self.status;
            assert((word & 0x003E_0000u32) >> 17u32 < 256);
        }
        field as u8
    }

    /// Replaces the TD Size field (status bits 21:17); the stored value is limited to 31, and every
    /// other bit of the block is kept.
    #[inline(always)]
    pub fn set_td_size(&mut self, value: u8)
        ensures
            final(self).parameter == old(self).parameter,
            final(self).control == old(self).control,
            (final(self).status & STATUS_TD_SIZE_MASK) >> STATUS_TD_SIZE_SHIFT == (if value > 31 { 31 } else { value }) as u32,
            final(self).status & !STATUS_TD_SIZE_MASK == old(self).status & !STATUS_TD_SIZE_MASK,
    {
        let value = if value > 31 { 31 } else { value };
        let field = value as u32;
        let word = self.status;
        proof {
            lemma_trb_bits();
            assert(field <= 31);
            assert((((word & !0x003E_0000u32) | (field << 17u32)) & 0x003E_0000u32) >> 17u32 == field
                && ((word & !0x003E_0000u32) | (field << 17u32)) & !0x003E_0000u32 == word & !0x003E_0000u32);
        }
        self.status = (word & !STATUS_TD_SIZE_MASK) | (field << STATUS_TD_SIZE_SHIFT);
    }

    /// Reads the Interrupter Target field (status bits 31:22).
    #[inline(always)]
    pub fn interrupter_target(&self) -> (r: u16)
        ensures
            r as u32 == (self.status & STATUS_INTERRUPT_TARGET_MASK) >> STATUS_INTERRUPT_TARGET_SHIFT,
    {
        let field = (self.status & STATUS_INTERRUPT_TARGET_MASK) >> STATUS_INTERRUPT_TARGET_SHIFT;
        proof {
            lemma_trb_bits();
            let word = self.status;
            assert((word & 0xFFC0_0000u32) >> 22u32 < 65536);
        }
        field as u16
    }

    /// Replaces the Interrupter Target field (status bits 31:22); the stored value is limited to 0x03FF, and every
    /// other bit of the block is kept.
    #[inline(always)]
    pub fn set_interrupter_target(&mut self, value: u16)
        ensures
            final(self).parameter == old(self).parameter,
            final(self).control == old(self).control,
            (final(self).status & STATUS_INTERRUPT_TARGET_MASK) >> STATUS_INTERRUPT_TARGET_SHIFT == (if value > 0x03FF { 0x03FF } else { value }) as u32,
            final(self).status & !STATUS_INTERRUPT_TARGET_MASK == old(self).status & !STATUS_INTERRUPT_TARGET_MASK,
    {
        let value = if value > 0x03FF { 0x03FF } else { value };
        let field = value as u32;
        let word = self.status;
        proof {
            lemma_trb_bits();
            assert(field <= 0x03FF);
            assert((((word & !0xFFC0_0000u32) | (field << 22u32)) & 0xFFC0_0000u32) >> 22u32 == field
                && ((word & !0xFFC0_0000u32) | (field << 22u32)) & !0xFFC0_0000u32 == word & !0xFFC0_0000u32);
        }
        self.status = (word & !STATUS_INTERRUPT_TARGET_MASK) | (field << STATUS_INTERRUPT_TARGET_SHIFT);
    }

    /// Reads the Slot ID field (control bits 31:24).
    #[inline(always)]
    pub fn slot_id(&self) -> (r: u8)
        ensures
            r as u32 == (self.control & EVENT_SLOT_ID_MASK) >> EVENT_SLOT_ID_SHIFT,
    {
        let field = (self.control & EVENT_SLOT_ID_MASK) >> EVENT_SLOT_ID_SHIFT;
        proof {
            lemma_trb_bits();
            let word = self.control;
            assert((word & 0xFF00_0000u32) >> 24u32 < 256);
        }
        field as u8
    }

    /// Replaces the Slot ID field (control bits 31:24); the stored value is the argument, and every
    /// other bit of the block is kept.
    #[inline(always)]
    pub fn set_slot_id(&mut self, value: u8)
        ensures
            final(self).parameter == old(self).parameter,
            final(self).status == old(self).status,
            (final(self).control & EVENT_SLOT_ID_MASK) >> EVENT_SLOT_ID_SHIFT == value as u32,
            final(self).control & !EVENT_SLOT_ID_MASK == old(self).control & !EVENT_SLOT_ID_MASK,
    {
        
        let field = value as u32;
        let word = self.control;
        proof {
            lemma_trb_bits();
            assert(field <= 255);
            assert((((word & !0xFF00_0000u32) | (field << 24u32)) & 0xFF00_0000u32) >> 24u32 == field
                && ((word & !0xFF00_0000u32) | (field << 24u32)) & !0xFF00_0000u32 == word & !0xFF00_0000u32);
        }
        self.control = (word & !EVENT_SLOT_ID_MASK) | (field << EVENT_SLOT_ID_SHIFT);
    }

    /// Reads the Endpoint ID field (control bits 20:16).
    #[inline(always)]
    pub fn endpoint_id(&self) -> (r: u8)
        ensures
            r as u32 == (self.control & EVENT_ENDPOINT_ID_MASK) >> EVENT_ENDPOINT_ID_SHIFT,
    {
        let field = (self.control & EVENT_ENDPOINT_ID_MASK) >> EVENT_ENDPOINT_ID_SHIFT;
        proof {
            lemma_trb_bits();
            let word = self.control;
            assert((word & 0x001F_0000u32) >> 16u32 < 256);
        }
        field as u8
    }

    /// Replaces the Endpoint ID field (control bits 20:16); the stored value is limited to 31, and every
    /// other bit of the block is kept.
    #[inline(always)]
    pub fn set_endpoint_id(&mut self, value: u8)
        ensures
            final(self).parameter == old(self).parameter,
            final(self).status == old(self).status,
            (final(self).control & EVENT_ENDPOINT_ID_MASK) >> EVENT_ENDPOINT_ID_SHIFT == (if value > 31 { 31 } else { value }) as u32,
            final(self).control & !EVENT_ENDPOINT_ID_MASK == old(self).control & !EVENT_ENDPOINT_ID_MASK,
    {
        let value = if value > 31 { 31 } else { value };
        let field = value as u32;
        let word = self.control;
        proof {
            lemma_trb_bits();
            assert(field <= 31);
            assert((((word & !0x001F_0000u32) | (field << 16u32)) & 0x001F_0000u32) >> 16u32 == field
                && ((word & !0x001F_0000u32) | (field << 16u32)) & !0x001F_0000u32 == word & !0x001F_0000u32);
        }
        self.control = (word & !EVENT_ENDPOINT_ID_MASK) | (field << EVENT_ENDPOINT_ID_SHIFT);
    }

    /// Reads the Transfer Type field (control bits 17:16).
    #[inline(always)]
    pub fn transfer_type(&self) -> (r: u8)
        ensures
            r as u32 == (self.control & CONTROL_TRANSFER_TYPE_MASK) >> CONTROL_TRANSFER_TYPE_SHIFT,
    {
        let field = (self.control & CONTROL_TRANSFER_TYPE_MASK) >> CONTROL_TRANSFER_TYPE_SHIFT;
        proof {
            lemma_trb_bits();
            let word = self.control;
            assert((word & 0x0003_0000u32) >> 16u32 < 256);
        }
        field as u8
    }

    /// Replaces the Transfer Type field (control bits 17:16); the stored value is masked with 0x3, and every
    /// other bit of the block is kept.
    #[inline(always)]
    pub fn set_transfer_type(&mut self, value: u8)
        ensures
            final(self).parameter == old(self).parameter,
            final(self).status == old(self).status,
            (final(self).control & CONTROL_TRANSFER_TYPE_MASK) >> CONTROL_TRANSFER_TYPE_SHIFT == (value & 0x3) as u32,
            final(self).control & !CONTROL_TRANSFER_TYPE_MASK == old(self).control & !CONTROL_TRANSFER_TYPE_MASK,
    {
        let masked = value & 0x3;
        proof {
            lemma_trb_bits();
            assert(masked <= 0x3);
        }
        let value = masked;
        let field = value as u32;
        let word = self.control;
        proof {
            lemma_trb_bits();
            assert(field <= 0x3);
            assert((((word & !0x0003_0000u32) | (field << 16u32)) & 0x0003_0000u32) >> 16u32 == field
                && ((word & !0x0003_0000u32) | (field << 16u32)) & !0x0003_0000u32 == word & !0x0003_0000u32);
        }
        self.control = (word & !CONTROL_TRANSFER_TYPE_MASK) | (field << CONTROL_TRANSFER_TYPE_SHIFT);
    }

    /// Reads the isochronous Frame ID field (control bits 30:20).
    #[inline(always)]
    pub fn frame_id(&self) -> (r: u16)
        ensures
            r as u32 == (self.control & ISOCH_FRAME_ID_MASK) >> ISOCH_FRAME_ID_SHIFT,
    {
        let field = (self.control & ISOCH_FRAME_ID_MASK) >> ISOCH_FRAME_ID_SHIFT;
        proof {
            lemma_trb_bits();
            let word = self.control;
            assert((word & 0x7FF0_0000u32) >> 20u32 < 65536);
        }
        field as u16
    }

    /// Replaces the isochronous Frame ID field (control bits 30:20); the stored value is masked with 0x07FF, and every
    /// other bit of the block is kept.
    #[inline(always)]
    pub fn set_frame_id(&mut self, value: u16)
        ensures
            final(self).parameter == old(self).parameter,
            final(self).status == old(self).status,
            (final(self).control & ISOCH_FRAME_ID_MASK) >> ISOCH_FRAME_ID_SHIFT == (value & 0x07FF) as u32,
            final(self).control & !ISOCH_FRAME_ID_MASK == old(self).control & !ISOCH_FRAME_ID_MASK,
    {
        let masked = value & 0x07FF;
        proof {
            lemma_trb_bits();
            assert(masked <= 0x07FF);
        }
        let value = masked;
        let field = value as u32;
        let word = self.control;
        proof {
            lemma_trb_bits();
            assert(field <= 0x07FF);
            assert((((word & !0x7FF0_0000u32) | (field << 20u32)) & 0x7FF0_0000u32) >> 20u32 == field
                && ((word & !0x7FF0_0000u32) | (field << 20u32)) & !0x7FF0_0000u32 == word & !0x7FF0_0000u32);
        }
        self.control = (word & !ISOCH_FRAME_ID_MASK) | (field << ISOCH_FRAME_ID_SHIFT);
    }

    /// Reads the isochronous Total Burst Count field (control bits 8:7).
    #[inline(always)]
    pub fn total_burst_count(&self) -> (r: u8)
        ensures
            r as u32 == (self.control & ISOCH_TOTAL_BURST_COUNT_MASK) >> ISOCH_TOTAL_BURST_COUNT_SHIFT,
    {
        let field = (self.control & ISOCH_TOTAL_BURST_COUNT_MASK) >> ISOCH_TOTAL_BURST_COUNT_SHIFT;
        proof {
            lemma_trb_bits();
            let word = self.control;
            assert((word & 0x0000_0180u32) >> 7u32 < 256);
        }
        field as u8
    }

    /// Replaces the isochronous Total Burst Count field (control bits 8:7); the stored value is limited to 3, and every
    /// other bit of the block is kept.
    #[inline(always)]
    pub fn set_total_burst_count(&mut self, value: u8)
        ensures
            final(self).parameter == old(self).parameter,
            final(self).status == old(self).status,
            (final(self).control & ISOCH_TOTAL_BURST_COUNT_MASK) >> ISOCH_TOTAL_BURST_COUNT_SHIFT == (if value > 3 { 3 } else { value }) as u32,
            final(self).control & !ISOCH_TOTAL_BURST_COUNT_MASK == old(self).control & !ISOCH_TOTAL_BURST_COUNT_MASK,
    {
        let value = if value > 3 { 3 } else { value };
        let field = value as u32;
        let word = self.control;
        proof {
            lemma_trb_bits();
            assert(field <= 3);
            assert((((word & !0x0000_0180u32) | (field << 7u32)) & 0x0000_0180u32) >> 7u32 == field
                && ((word & !0x0000_0180u32) | (field << 7u32)) & !0x0000_0180u32 == word & !0x0000_0180u32);
        }
        self.control = (word & !ISOCH_TOTAL_BURST_COUNT_MASK) | (field << ISOCH_TOTAL_BURST_COUNT_SHIFT);
    }

    /// Reads the isochronous TLBPC field (control bits 19:16).
    #[inline(always)]
    pub fn tlbpc(&self) -> (r: u8)
        ensures
            r as u32 == (self.control & ISOCH_TLBPC_MASK) >> ISOCH_TLBPC_SHIFT,
    {
        let field = (self.control & ISOCH_TLBPC_MASK) >> ISOCH_TLBPC_SHIFT;
        proof {
            lemma_trb_bits();
            let word = self.control;
            assert((word & 0x000F_0000u32) >> 16u32 < 256);
        }
        field as u8
    }

    /// Replaces the isochronous TLBPC field (control bits 19:16); the stored value is limited to 15, and every
    /// other bit of the block is kept.
    #[inline(always)]
    pub fn set_tlbpc(&mut self, value: u8)
        ensures
            final(self).parameter == old(self).parameter,
            final(self).status == old(self).status,
            (final(self).control & ISOCH_TLBPC_MASK) >> ISOCH_TLBPC_SHIFT == (if value > 15 { 15 } else { value }) as u32,
            final(self).control & !ISOCH_TLBPC_MASK == old(self).control & !ISOCH_TLBPC_MASK,
    {
        let value = if value > 15 { 15 } else { value };
        let field = value as u32;
        let word = self.control;
        proof {
            lemma_trb_bits();
            assert(field <= 15);
            assert((((word & !0x000F_0000u32) | (field << 16u32)) & 0x000F_0000u32) >> 16u32 == field
                && ((word & !0x000F_0000u32) | (field << 16u32)) & !0x000F_0000u32 == word & !0x000F_0000u32);
        }
        self.control = (word & !ISOCH_TLBPC_MASK) | (field << ISOCH_TLBPC_SHIFT);
    }

    /// This TRB with its type field replaced by `trb_type`; every other bit
    /// is kept.
    #[inline(always)]
    pub fn with_type(self, trb_type: TrbType) -> (r: Self)
        ensures
            r.parameter == self.parameter,
            r.status == self.status,
            r.type_field() == trb_type.value() as u32,
            r.control & !TRB_TYPE_BITMASK == self.control & !TRB_TYPE_BITMASK,
    {
        let bits = trb_type.control_bits();
        let v = trb_type.as_u32();
        let word = self.control;
        proof {
            lemma_trb_bits();
            assert((((word & !0xFC00u32) | (v << 10u32)) & 0xFC00u32) >> 10u32 == v
                && ((word & !0xFC00u32) | (v << 10u32)) & !0xFC00u32 == word & !0xFC00u32);
        }
        Trb { parameter: self.parameter, status: self.status, control: (word & !TRB_TYPE_BITMASK) | bits }
    }

    /// This TRB with the bits of `flags` set in its control DWORD.
    #[inline(always)]
    pub fn with_flags(self, flags: u32) -> (r: Self)
        ensures
            r == (Trb { control: self.control | flags, ..self }),
    {
        Trb { parameter: self.parameter, status: self.status, control: self.control | flags }
    }

    /// This TRB with its parameter replaced.
    #[inline(always)]
    pub fn with_parameter(self, parameter: u64) -> (r: Self)
        ensures
            r == (Trb { parameter, ..self }),
    {
        Trb { parameter, status: self.status, control: self.control }
    }

    /// This TRB with its status DWORD replaced.
    #[inline(always)]
    pub fn with_status(self, status: u32) -> (r: Self)
        ensures
            r == (Trb { status, ..self }),
    {
        Trb { parameter: self.parameter, status, control: self.control }
    }

    /// A command TRB of the given type, parameter and extra control flags,
    /// with a zero status.
    #[inline(always)]
    pub fn command(trb_type: TrbType, parameter: u64, control_flags: u32) -> (r: Self)
        ensures
            r == (Trb {
                parameter,
                status: 0,
                control: ((trb_type.value() as u32) << TRB_TYPE_SHIFT) | control_flags,
            }),
    {
        Trb { parameter, status: 0, control: trb_type.control_bits() | control_flags }
    }

    /// A Link TRB pointing at `segment_phys`, with the given Cycle and Toggle
    /// Cycle bits.
    #[inline(always)]
    pub fn link(segment_phys: u64, cycle: bool, toggle_cycle: bool) -> (r: Self)
        ensures
            r.parameter == segment_phys,
            r.status == 0,
            r.control == ((TrbType::Link.value() as u32) << TRB_TYPE_SHIFT)
                | (if cycle { CONTROL_CYCLE } else { 0 })
                | (if toggle_cycle { LINK_TOGGLE_CYCLE } else { 0 }),
    {
        let mut control = TrbType::Link.control_bits();
        let base = control;
        if cycle {
            control = control | CONTROL_CYCLE;
        }
        let with_cycle = control;
        if toggle_cycle {
            control = control | LINK_TOGGLE_CYCLE;
        }
        proof {
            lemma_trb_bits();
            assert(base | 0u32 == base);
            assert(with_cycle | 0u32 == with_cycle);
        }
        Trb { parameter: segment_phys, status: 0, control }
    }

    /// An Enable Slot command TRB with the given Cycle bit.
    #[inline(always)]
    pub fn enable_slot(cycle: bool) -> (r: Self)
        ensures
            r.parameter == 0,
            r.status == 0,
            r.control == ((TrbType::EnableSlotCommand.value() as u32) << TRB_TYPE_SHIFT) | (if cycle {
                CONTROL_CYCLE
            } else {
                0
            }),
    {
        let mut trb = Self::command(TrbType::EnableSlotCommand, 0, 0);
        proof {
            lemma_trb_bits();
            let v = TrbType::EnableSlotCommand.value() as u32;
            assert((v << 10u32) | 0u32 == v << 10u32);
        }
        if cycle {
            trb.control = trb.control | CONTROL_CYCLE;
        }
        trb
    }

    /// A No Op command TRB with the given Cycle bit.
    #[inline(always)]
    pub fn noop_command(cycle: bool) -> (r: Self)
        ensures
            r.parameter == 0,
            r.status == 0,
            r.control == ((TrbType::NoOpCommand.value() as u32) << TRB_TYPE_SHIFT) | (if cycle {
                CONTROL_CYCLE
            } else {
                0
            }),
    {
        let mut trb = Self::command(TrbType::NoOpCommand, 0, 0);
        proof {
            lemma_trb_bits();
            let v = TrbType::NoOpCommand.value() as u32;
            assert((v << 10u32) | 0u32 == v << 10u32);
        }
        if cycle {
            trb.control = trb.control | CONTROL_CYCLE;
        }
        trb
    }
}

} // verus!
