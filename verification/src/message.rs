//! A message of the modem: a log record or the response to a request. The
//! first byte tells them apart: 16 opens a log record, anything else is the
//! lowest byte of a response's opcode.

use vstd::prelude::*;
use vstd::slice::slice_subrange;
use crate::error::{FrameError, Field};
use crate::logs::{parse_log_body, LogBody, LogBodyView};
use crate::response::{parse_response_payload, ResponsePayload, ResponsePayloadView};
use crate::timestamp::Timestamp;
use crate::wire::{read_u16, read_u32, read_u64, read_u8, u16_at, u32_at, u64_at};

verus! {

/// The first byte of a log record.
pub const LOG_DISCRIMINANT: u8 = 16;

/// The bytes of a log record's inner header, which its inner length counts:
/// the inner length itself, the log type and the timestamp.
pub const LOG_INNER_HEADER_LEN: u16 = 12;

/// A message of the modem.
#[derive(Debug, Clone, PartialEq)]
pub enum Message {
    Log {
        pending_msgs: u8,
        outer_length: u16,
        inner_length: u16,
        log_type: u16,
        timestamp: Timestamp,
        body: LogBody,
    },
    Response { opcode: u32, subopcode: u32, status: u32, payload: ResponsePayload },
}

/// What a `Message` holds.
pub enum MessageView {
    Log {
        pending_msgs: u8,
        outer_length: u16,
        inner_length: u16,
        log_type: u16,
        timestamp: Timestamp,
        body: LogBodyView,
    },
    Response { opcode: u32, subopcode: u32, status: u32, payload: ResponsePayloadView },
}

impl View for Message {
    type V = MessageView;

    open spec fn view(&self) -> MessageView {
        match *self {
            Message::Log { pending_msgs, outer_length, inner_length, log_type, timestamp, body } =>
                MessageView::Log {
                    pending_msgs,
                    outer_length,
                    inner_length,
                    log_type,
                    timestamp,
                    body: body@,
                },
            Message::Response { opcode, subopcode, status, payload } => MessageView::Response {
                opcode,
                subopcode,
                status,
                payload: payload@,
            },
        }
    }
}

/// What the bytes of `s` from `at` on decode to as a log record whose first
/// byte has been read: the pending flag, the two lengths, the log type and
/// the timestamp, then the body that the log type calls for. The body is
/// told how many bytes the inner length leaves behind the inner header; an
/// inner length that does not even cover that header is refused.
pub open spec fn parse_log(s: Seq<u8>, at: int) -> Result<(MessageView, int), FrameError> {
    let avail = s.len() - at;
    let inner_length = u16_at(s, at + 3);
    let log_type = u16_at(s, at + 5);
    if avail < 1 {
        Err(FrameError::Incomplete(Field::PendingMsgs))
    } else if avail < 3 {
        Err(FrameError::Incomplete(Field::OuterLength))
    } else if avail < 5 {
        Err(FrameError::Incomplete(Field::InnerLength))
    } else if avail < 7 {
        Err(FrameError::Incomplete(Field::LogType))
    } else if avail < 15 {
        Err(FrameError::Incomplete(Field::Timestamp))
    } else if inner_length < LOG_INNER_HEADER_LEN {
        Err(FrameError::BadLength(Field::InnerLength))
    } else {
        match parse_log_body(
            s,
            at + 15,
            log_type,
            (inner_length - LOG_INNER_HEADER_LEN) as u16,
        ) {
            Ok((body, next)) => Ok(
                (
                    MessageView::Log {
                        pending_msgs: s[at],
                        outer_length: u16_at(s, at + 1),
                        inner_length,
                        log_type,
                        timestamp: Timestamp { ts: u64_at(s, at + 7) },
                        body,
                    },
                    next,
                ),
            ),
            Err(e) => Err(e),
        }
    }
}

/// What the bytes of `s` from `at` on decode to as a response: opcode,
/// subopcode and status, then the payload that the first two call for.
pub open spec fn parse_response(s: Seq<u8>, at: int) -> Result<(MessageView, int), FrameError> {
    let avail = s.len() - at;
    let opcode = u32_at(s, at);
    let subopcode = u32_at(s, at + 4);
    if avail < 4 {
        Err(FrameError::Incomplete(Field::Opcode))
    } else if avail < 8 {
        Err(FrameError::Incomplete(Field::Subopcode))
    } else if avail < 12 {
        Err(FrameError::Incomplete(Field::Status))
    } else {
        match parse_response_payload(s, at + 12, opcode, subopcode) {
            Ok((payload, next)) => Ok(
                (
                    MessageView::Response {
                        opcode,
                        subopcode,
                        status: u32_at(s, at + 8),
                        payload,
                    },
                    next,
                ),
            ),
            Err(e) => Err(e),
        }
    }
}

/// What the bytes of `s` from `at` on decode to: the message and the place
/// behind it, or what is wrong with the first field that is.
pub open spec fn parse_message(s: Seq<u8>, at: int) -> Result<(MessageView, int), FrameError> {
    if s.len() - at < 1 {
        Err(FrameError::Incomplete(Field::Discriminant))
    } else if s[at] == LOG_DISCRIMINANT {
        parse_log(s, at + 1)
    } else {
        parse_response(s, at)
    }
}

/// What `from_bytes` makes of a buffer `s` and a bit offset into it: the
/// message and the number of bytes in front of what is left, or the error.
/// An offset that is not a whole number of bytes is refused.
pub open spec fn decode_message(s: Seq<u8>, bit_offset: int) -> Result<
    (MessageView, int),
    FrameError,
> {
    if bit_offset % 8 != 0 {
        Err(FrameError::Unaligned)
    } else {
        parse_message(s, bit_offset / 8)
    }
}

/// A message that decodes ends inside the buffer, and a log record is what
/// decodes exactly when the first byte is 16.
pub proof fn lemma_parsed_message_kind(s: Seq<u8>, at: int)
    requires
        0 <= at,
        parse_message(s, at) is Ok,
    ensures
        at < parse_message(s, at)->Ok_0.1 <= s.len(),
        parse_message(s, at)->Ok_0.0 is Log <==> s[at] == LOG_DISCRIMINANT,
{
}

/// What lies behind a message has no bearing on it: a buffer that goes on
/// behind the message decodes to the same message.
pub proof fn lemma_message_ignores_tail(s: Seq<u8>, tail: Seq<u8>, at: int)
    requires
        0 <= at,
        parse_message(s, at) is Ok,
    ensures
        parse_message(s + tail, at) == parse_message(s, at),
{
    let t = s + tail;
    assert(forall|i: int| 0 <= i < s.len() ==> t[i] == s[i]);
    if s[at] == LOG_DISCRIMINANT {
        let inner_length = u16_at(s, at + 4);
        crate::logs::lemma_log_body_ignores_tail(
            s,
            tail,
            at + 16,
            u16_at(s, at + 6),
            (inner_length - LOG_INNER_HEADER_LEN) as u16,
        );
    } else if u32_at(s, at + 4) == crate::response::SUBOPCODE_RETRIEVE_ID_RANGES {
        assert(crate::response::mask_sizes_at(t, at + 12) =~= crate::response::mask_sizes_at(
            s,
            at + 12,
        ));
    }
}

impl Message {
    /// Decodes one message at `at`, and says where the bytes behind it begin.
    pub fn read(data: &[u8], at: usize) -> (r: Result<(Message, usize), FrameError>)
        ensures
            match r {
                Ok((message, next)) => parse_message(data@, at as int) == Ok::<
                    (MessageView, int),
                    FrameError,
                >((message@, next as int)),
                Err(e) => parse_message(data@, at as int) == Err::<
                    (MessageView, int),
                    FrameError,
                >(e),
            },
    {
        let total: usize = data.len();
        assert(data@.len() == total);
        let tag: u8 = read_u8(data, at, Field::Discriminant)?;
        if tag == LOG_DISCRIMINANT {
            let pending_msgs: u8 = read_u8(data, at + 1, Field::PendingMsgs)?;
            let outer_length: u16 = read_u16(data, at + 2, Field::OuterLength)?;
            let inner_length: u16 = read_u16(data, at + 4, Field::InnerLength)?;
            let log_type: u16 = read_u16(data, at + 6, Field::LogType)?;
            let ts: u64 = read_u64(data, at + 8, Field::Timestamp)?;
            if inner_length < LOG_INNER_HEADER_LEN {
                return Err(FrameError::BadLength(Field::InnerLength));
            }
            let (body, next) = LogBody::read(
                data,
                at + 16,
                log_type,
                inner_length - LOG_INNER_HEADER_LEN,
            )?;
            Ok(
                (
                    Message::Log {
                        pending_msgs,
                        outer_length,
                        inner_length,
                        log_type,
                        timestamp: Timestamp { ts },
                        body,
                    },
                    next,
                ),
            )
        } else {
            let opcode: u32 = read_u32(data, at, Field::Opcode)?;
            let subopcode: u32 = read_u32(data, at + 4, Field::Subopcode)?;
            let status: u32 = read_u32(data, at + 8, Field::Status)?;
            let (payload, next) = ResponsePayload::read(data, at + 12, opcode, subopcode)?;
            Ok((Message::Response { opcode, subopcode, status, payload }, next))
        }
    }

    /// Decodes the message that begins `input.1` bits into `input.0`, and
    /// hands back what follows it.
    pub fn from_bytes<'a>(input: (&'a [u8], usize)) -> (r: Result<
        ((&'a [u8], usize), Message),
        FrameError,
    >)
        ensures
            match r {
                Ok((rest, message)) => {
                    &&& decode_message(input.0@, input.1 as int) matches Ok((view, next))
                    &&& message@ == view
                    &&& rest.0@ == input.0@.subrange(next, input.0@.len() as int)
                    &&& rest.1 == 0
                },
                Err(e) => decode_message(input.0@, input.1 as int) == Err::<
                    (MessageView, int),
                    FrameError,
                >(e),
            },
    {
        if input.1 % 8 != 0 {
            return Err(FrameError::Unaligned);
        }
        let (message, next) = Message::read(input.0, input.1 / 8)?;
        proof {
            lemma_parsed_message_kind(input.0@, input.1 as int / 8);
        }
        let rest: &[u8] = slice_subrange(input.0, next, input.0.len());
        Ok(((rest, 0), message))
    }
}

/// What decoding makes of one frame that holds one message from its first
/// byte on: the message, or the error. Bytes behind the message are left
/// unread.
pub open spec fn decode_frame(frame: Seq<u8>) -> Result<MessageView, FrameError> {
    match parse_message(frame, 0) {
        Ok((message, _)) => Ok(message),
        Err(e) => Err(e),
    }
}

/// Whether `decoded` is what decoding makes of `frame`.
pub open spec fn decodes_to(frame: Seq<u8>, decoded: Result<Message, FrameError>) -> bool {
    match decoded {
        Ok(message) => decode_frame(frame) == Ok::<MessageView, FrameError>(message@),
        Err(e) => decode_frame(frame) == Err::<MessageView, FrameError>(e),
    }
}

/// Decodes every frame on its own. There is one result for each frame, in
/// the frames' order, and it is what that frame alone decodes to: a frame
/// that is malformed yields its error and has no bearing on the others.
pub fn decode_all(frames: &Vec<Vec<u8>>) -> (decoded: Vec<Result<Message, FrameError>>)
    ensures
        decoded@.len() == frames@.len(),
        forall|i: int| 0 <= i < frames@.len() ==> decodes_to(frames@[i]@, #[trigger] decoded@[i]),
{
    let mut decoded: Vec<Result<Message, FrameError>> = Vec::new();
    let mut i: usize = 0;
    while i < frames.len()
        invariant
            i <= frames@.len(),
            decoded@.len() == i,
            forall|j: int| 0 <= j < i ==> decodes_to(frames@[j]@, #[trigger] decoded@[j]),
        decreases frames@.len() - i,
    {
        let one: Result<Message, FrameError> = match Message::read(frames[i].as_slice(), 0) {
            Ok((message, _)) => Ok(message),
            Err(e) => Err(e),
        };
        decoded.push(one);
        i += 1;
    }
    decoded
}

} // verus!
