//! What a response carries behind its header. The opcode chooses the family
//! and the subopcode the layout within it; only the log-configuration
//! family is defined.

use vstd::prelude::*;
use crate::error::{FrameError, Field};
use crate::wire::{read_u32, u32_at};

verus! {

/// The opcode of the log-configuration family.
pub const OPCODE_LOG_CONFIG: u32 = 115;

/// The subopcode that asks for, or answers with, the sizes of the log masks.
pub const SUBOPCODE_RETRIEVE_ID_RANGES: u32 = 1;

/// The subopcode that sets a log mask, or acknowledges it.
pub const SUBOPCODE_SET_MASK: u32 = 3;

/// The payload of a response.
#[derive(Debug, Clone, PartialEq)]
pub enum ResponsePayload {
    LogConfig(LogConfigResponse),
}

/// The payload of a log-configuration response.
#[derive(Debug, Clone, PartialEq)]
pub enum LogConfigResponse {
    /// The size in bits of the mask of each of the sixteen log types.
    RetrieveIdRanges { log_mask_sizes: [u32; 16] },
    /// The acknowledgement of a mask, which carries nothing.
    SetMask,
}

/// What a `ResponsePayload` holds.
pub enum ResponsePayloadView {
    LogConfig(LogConfigResponseView),
}

/// What a `LogConfigResponse` holds, with the sizes as a sequence.
pub enum LogConfigResponseView {
    RetrieveIdRanges { log_mask_sizes: Seq<u32> },
    SetMask,
}

impl View for LogConfigResponse {
    type V = LogConfigResponseView;

    open spec fn view(&self) -> LogConfigResponseView {
        match *self {
            LogConfigResponse::RetrieveIdRanges { log_mask_sizes } =>
                LogConfigResponseView::RetrieveIdRanges { log_mask_sizes: log_mask_sizes@ },
            LogConfigResponse::SetMask => LogConfigResponseView::SetMask,
        }
    }
}

impl View for ResponsePayload {
    type V = ResponsePayloadView;

    open spec fn view(&self) -> ResponsePayloadView {
        match *self {
            ResponsePayload::LogConfig(inner) => ResponsePayloadView::LogConfig(inner@),
        }
    }
}

/// The sixteen 32-bit sizes that stand at `at`.
pub open spec fn mask_sizes_at(s: Seq<u8>, at: int) -> Seq<u32> {
    Seq::new(16, |i: int| u32_at(s, at + 4 * i))
}

/// What the bytes of `s` from `at` on decode to as the payload of a
/// log-configuration response with the given subopcode.
pub open spec fn parse_log_config_response(s: Seq<u8>, at: int, subopcode: u32) -> Result<
    (LogConfigResponseView, int),
    FrameError,
> {
    if subopcode == SUBOPCODE_RETRIEVE_ID_RANGES {
        if s.len() - at < 64 {
            Err(FrameError::Incomplete(Field::LogMaskSizes))
        } else {
            Ok(
                (
                    LogConfigResponseView::RetrieveIdRanges {
                        log_mask_sizes: mask_sizes_at(s, at),
                    },
                    at + 64,
                ),
            )
        }
    } else if subopcode == SUBOPCODE_SET_MASK {
        Ok((LogConfigResponseView::SetMask, at))
    } else {
        Err(FrameError::UnknownSubopcode(subopcode))
    }
}

/// What the bytes of `s` from `at` on decode to as the payload of a response
/// with the given opcode and subopcode.
pub open spec fn parse_response_payload(s: Seq<u8>, at: int, opcode: u32, subopcode: u32)
    -> Result<(ResponsePayloadView, int), FrameError> {
    if opcode == OPCODE_LOG_CONFIG {
        match parse_log_config_response(s, at, subopcode) {
            Ok((inner, next)) => Ok((ResponsePayloadView::LogConfig(inner), next)),
            Err(e) => Err(e),
        }
    } else {
        Err(FrameError::UnknownOpcode(opcode))
    }
}

impl LogConfigResponse {
    /// Decodes the payload that stands at `at` in a log-configuration
    /// response with the given subopcode, and says where the bytes behind it
    /// begin.
    pub fn read(data: &[u8], at: usize, subopcode: u32) -> (r: Result<
        (LogConfigResponse, usize),
        FrameError,
    >)
        ensures
            match r {
                Ok((payload, next)) => parse_log_config_response(data@, at as int, subopcode)
                    == Ok::<(LogConfigResponseView, int), FrameError>((payload@, next as int)),
                Err(e) => parse_log_config_response(data@, at as int, subopcode) == Err::<
                    (LogConfigResponseView, int),
                    FrameError,
                >(e),
            },
    {
        if subopcode == SUBOPCODE_RETRIEVE_ID_RANGES {
            if at > data.len() || data.len() - at < 64 {
                return Err(FrameError::Incomplete(Field::LogMaskSizes));
            }
            let total: usize = data.len();
            let mut log_mask_sizes: [u32; 16] = [0u32; 16];
            let mut i: usize = 0;
            while i < 16
                invariant
                    i <= 16,
                    at + 64 <= data@.len(),
                    data@.len() == total,
                    forall|k: int| 0 <= k < i ==> log_mask_sizes@[k] == u32_at(data@, at + 4 * k),
                decreases 16 - i,
            {
                match read_u32(data, at + 4 * i, Field::LogMaskSizes) {
                    Ok(size) => {
                        log_mask_sizes[i] = size;
                    },
                    Err(_) => {},
                }
                i += 1;
            }
            assert(log_mask_sizes@ == mask_sizes_at(data@, at as int));
            Ok((LogConfigResponse::RetrieveIdRanges { log_mask_sizes }, at + 64))
        } else if subopcode == SUBOPCODE_SET_MASK {
            Ok((LogConfigResponse::SetMask, at))
        } else {
            Err(FrameError::UnknownSubopcode(subopcode))
        }
    }
}

impl ResponsePayload {
    /// Decodes the payload that stands at `at` in a response with the given
    /// opcode and subopcode, and says where the bytes behind it begin.
    pub fn read(data: &[u8], at: usize, opcode: u32, subopcode: u32) -> (r: Result<
        (ResponsePayload, usize),
        FrameError,
    >)
        ensures
            match r {
                Ok((payload, next)) => parse_response_payload(
                    data@,
                    at as int,
                    opcode,
                    subopcode,
                ) == Ok::<(ResponsePayloadView, int), FrameError>((payload@, next as int)),
                Err(e) => parse_response_payload(data@, at as int, opcode, subopcode) == Err::<
                    (ResponsePayloadView, int),
                    FrameError,
                >(e),
            },
    {
        if opcode == OPCODE_LOG_CONFIG {
            let (inner, next) = LogConfigResponse::read(data, at, subopcode)?;
            Ok((ResponsePayload::LogConfig(inner), next))
        } else {
            Err(FrameError::UnknownOpcode(opcode))
        }
    }
}

} // verus!
