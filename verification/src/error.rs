//! Errors of the diagnostic codec.

use vstd::prelude::*;

verus! {

/// A field of a diagnostic frame, named so that an error can say where a
/// frame went wrong.
#[derive(Clone, Copy, Debug, PartialEq, Eq, Structural)]
pub enum Field {
    /// The byte that tells a log record from a response.
    Discriminant,
    PendingMsgs,
    OuterLength,
    InnerLength,
    LogType,
    Timestamp,
    ChannelType,
    RadioBearer,
    MessageType,
    Length,
    Msg,
    ExtHeaderVersion,
    RrcRelMaj,
    RrcRelMin,
    NrRrcRelMaj,
    NrRrcRelMin,
    BearerId,
    PhyCellId,
    Earfcn,
    SfnSubfn,
    PduNum,
    SibMask,
    Len,
    Packet,
    RrcRel,
    RrcVersionMinor,
    RrcVersionMajor,
    IsUplink,
    Opcode,
    Subopcode,
    Status,
    LogMaskSizes,
    DataType,
    NumMessages,
    Data,
}

/// What is wrong with a frame.
#[derive(Clone, Copy, Debug, PartialEq, Eq, Structural)]
pub enum FrameError {
    /// The buffer ends before the named field is complete.
    Incomplete(Field),
    /// The named length field is smaller than the fixed part it has to cover.
    BadLength(Field),
    /// No log body is defined for this log type.
    UnknownLogType(u16),
    /// No response payload is defined for this opcode.
    UnknownOpcode(u32),
    /// No log-configuration response is defined for this subopcode.
    UnknownSubopcode(u32),
    /// The bit offset handed in is not a whole number of bytes.
    Unaligned,
}

} // verus!
