//! The frames that pass between host and modem. Outbound, a request that has
//! already been HDLC-encapsulated travels behind a type tag; inbound, a
//! container holds a type tag, a count, and that many blobs, each behind its
//! own length.

use vstd::prelude::*;
use vstd::slice::slice_subrange;
use crate::error::{Field, FrameError};
use crate::wire::{
    i32_bits, read_bytes, read_u32, u32_at, u32_bytes, write_bytes, write_i32, write_u32,
};

verus! {

/// The tag of a frame that user space sends or is sent.
pub const DATA_TYPE_USER_SPACE: u32 = 32;

/// The value of the MDM field: all bits set.
pub const MDM_FIELD: i32 = -1;

/// The kind of a frame, as its tag tells it. A tag that is not known is
/// kept as it came.
#[derive(Debug, Clone, Copy, PartialEq, Eq, Structural)]
pub enum DataType {
    UserSpace,
    Other(u32),
}

impl DataType {
    /// The tag that this kind is written as.
    pub open spec fn tag(self) -> u32 {
        match self {
            DataType::UserSpace => DATA_TYPE_USER_SPACE,
            DataType::Other(tag) => tag,
        }
    }

    /// The kind that a tag is read as.
    pub open spec fn of_tag(tag: u32) -> DataType {
        if tag == DATA_TYPE_USER_SPACE {
            DataType::UserSpace
        } else {
            DataType::Other(tag)
        }
    }

    /// Whether this is the value that its own tag is read as: every kind but
    /// `Other(32)`, which is written as the tag of `UserSpace`.
    pub open spec fn canonical(self) -> bool {
        self != DataType::Other(DATA_TYPE_USER_SPACE)
    }

    fn tag_value(&self) -> (tag: u32)
        ensures
            tag == self.tag(),
    {
        match self {
            DataType::UserSpace => DATA_TYPE_USER_SPACE,
            DataType::Other(tag) => *tag,
        }
    }

    fn from_tag(tag: u32) -> (kind: DataType)
        ensures
            kind == DataType::of_tag(tag),
    {
        if tag == DATA_TYPE_USER_SPACE {
            DataType::UserSpace
        } else {
            DataType::Other(tag)
        }
    }

    /// Encodes the kind as its tag, a little-endian 32-bit number. Encoding
    /// cannot fail.
    pub fn to_bytes(&self) -> (r: Result<Vec<u8>, FrameError>)
        ensures
            r matches Ok(bytes) && bytes@ == u32_bytes(self.tag()),
    {
        let mut out: Vec<u8> = Vec::new();
        write_u32(&mut out, self.tag_value());
        assert(out@ == u32_bytes(self.tag()));
        Ok(out)
    }

    /// Decodes the kind whose tag begins `input.1` bits into `input.0`, and
    /// hands back what follows the tag.
    pub fn from_bytes<'a>(input: (&'a [u8], usize)) -> (r: Result<
        ((&'a [u8], usize), DataType),
        FrameError,
    >)
        ensures
            match r {
                Ok((rest, kind)) => {
                    &&& input.1 % 8 == 0
                    &&& input.1 / 8 + 4 <= input.0@.len()
                    &&& kind == DataType::of_tag(u32_at(input.0@, input.1 as int / 8))
                    &&& rest.0@ == input.0@.subrange(
                        input.1 as int / 8 + 4,
                        input.0@.len() as int,
                    )
                    &&& rest.1 == 0
                },
                Err(e) => if input.1 % 8 != 0 {
                    e == FrameError::Unaligned
                } else {
                    input.1 / 8 + 4 > input.0@.len() && e == FrameError::Incomplete(
                        Field::DataType,
                    )
                },
            },
    {
        if input.1 % 8 != 0 {
            return Err(FrameError::Unaligned);
        }
        let at: usize = input.1 / 8;
        let tag: u32 = read_u32(input.0, at, Field::DataType)?;
        let rest: &[u8] = slice_subrange(input.0, at + 4, input.0.len());
        Ok(((rest, 0), DataType::from_tag(tag)))
    }
}

/// A kind that is written and read again is the same kind, unless it is the
/// one kind that shares its tag with another.
pub proof fn lemma_data_type_round_trip(kind: DataType, tail: Seq<u8>)
    requires
        kind.canonical(),
    ensures
        DataType::of_tag(u32_at(u32_bytes(kind.tag()) + tail, 0)) == kind,
{
    crate::wire::lemma_u32_bytes_read_back(kind.tag(), tail);
}

/// A request on its way to the modem.
#[derive(Debug, Clone)]
pub struct RequestContainer {
    pub data_type: DataType,
    /// Whether the request goes to the MDM. The flag is not written; it
    /// decides whether the MDM field is.
    pub use_mdm: bool,
    /// The field that routes a request to the MDM, written only where
    /// `use_mdm` is set.
    pub mdm_field: i32,
    /// The request, HDLC-encapsulated by the caller.
    pub hdlc_encapsulated_request: Vec<u8>,
}

impl RequestContainer {
    /// A container for a request that has been HDLC-encapsulated, with the
    /// MDM field all ones.
    pub fn new(data_type: DataType, use_mdm: bool, hdlc_encapsulated_request: Vec<u8>) -> (r:
        RequestContainer)
        ensures
            r.data_type == data_type,
            r.use_mdm == use_mdm,
            r.mdm_field == MDM_FIELD,
            r.hdlc_encapsulated_request == hdlc_encapsulated_request,
    {
        RequestContainer { data_type, use_mdm, mdm_field: MDM_FIELD, hdlc_encapsulated_request }
    }

    /// The bytes that the container is written as: the tag, the MDM field
    /// where the request goes to the MDM, and the request as it is.
    pub open spec fn encoding(self) -> Seq<u8> {
        u32_bytes(self.data_type.tag()) + (if self.use_mdm {
            u32_bytes(i32_bits(self.mdm_field))
        } else {
            Seq::<u8>::empty()
        }) + self.hdlc_encapsulated_request@
    }

    /// Encodes the container. Encoding cannot fail.
    pub fn to_bytes(&self) -> (r: Result<Vec<u8>, FrameError>)
        ensures
            r matches Ok(bytes) && bytes@ == self.encoding(),
            r matches Ok(bytes) && (self.use_mdm && self.mdm_field == MDM_FIELD ==> bytes@
                == u32_bytes(self.data_type.tag()) + seq![255u8, 255u8, 255u8, 255u8]
                + self.hdlc_encapsulated_request@),
    {
        let mut out: Vec<u8> = Vec::new();
        write_u32(&mut out, self.data_type.tag_value());
        if self.use_mdm {
            write_i32(&mut out, self.mdm_field);
        }
        write_bytes(&mut out, self.hdlc_encapsulated_request.as_slice());
        assert(out@ == self.encoding());
        assert(u32_bytes(i32_bits(MDM_FIELD)) == seq![255u8, 255u8, 255u8, 255u8]);
        Ok(out)
    }
}

/// One blob of a container: its length, and that many bytes.
#[derive(Debug, Clone)]
pub struct HdlcEncapsulatedMessage {
    pub len: u32,
    pub data: Vec<u8>,
}

/// What an `HdlcEncapsulatedMessage` holds, with the bytes as a sequence.
pub struct HdlcEncapsulatedMessageView {
    pub len: u32,
    pub data: Seq<u8>,
}

impl View for HdlcEncapsulatedMessage {
    type V = HdlcEncapsulatedMessageView;

    open spec fn view(&self) -> HdlcEncapsulatedMessageView {
        HdlcEncapsulatedMessageView { len: self.len, data: self.data@ }
    }
}

/// A frame from the modem: a tag, a count, and that many blobs.
#[derive(Debug, Clone)]
pub struct MessagesContainer {
    pub data_type: DataType,
    pub num_messages: u32,
    pub messages: Vec<HdlcEncapsulatedMessage>,
}

/// What a `MessagesContainer` holds, with the blobs as a sequence.
pub struct MessagesContainerView {
    pub data_type: DataType,
    pub num_messages: u32,
    pub messages: Seq<HdlcEncapsulatedMessageView>,
}

/// What each of the blobs holds.
pub open spec fn blob_views(blobs: Seq<HdlcEncapsulatedMessage>) -> Seq<
    HdlcEncapsulatedMessageView,
> {
    Seq::new(blobs.len(), |i: int| blobs[i]@)
}

impl View for MessagesContainer {
    type V = MessagesContainerView;

    open spec fn view(&self) -> MessagesContainerView {
        MessagesContainerView {
            data_type: self.data_type,
            num_messages: self.num_messages,
            messages: blob_views(self.messages@),
        }
    }
}

/// What the bytes of `s` from `at` on decode to as one blob: the blob and
/// the place behind it, or the field that the buffer ends in.
pub open spec fn parse_blob(s: Seq<u8>, at: int) -> Result<
    (HdlcEncapsulatedMessageView, int),
    FrameError,
> {
    let avail = s.len() - at;
    let len = u32_at(s, at);
    if avail < 4 {
        Err(FrameError::Incomplete(Field::Len))
    } else if avail < 4 + len {
        Err(FrameError::Incomplete(Field::Data))
    } else {
        Ok((HdlcEncapsulatedMessageView { len, data: s.subrange(at + 4, at + 4 + len) }, at + 4 + len))
    }
}

/// What the bytes of `s` from `at` on decode to as `count` blobs, one behind
/// the other: the blobs in their order and the place behind the last, or the
/// error of the first blob that has one.
pub open spec fn parse_blobs(s: Seq<u8>, at: int, count: nat) -> Result<
    (Seq<HdlcEncapsulatedMessageView>, int),
    FrameError,
>
    decreases count,
{
    if count == 0 {
        Ok((Seq::empty(), at))
    } else {
        match parse_blobs(s, at, (count - 1) as nat) {
            Err(e) => Err(e),
            Ok((blobs, next)) => match parse_blob(s, next) {
                Err(e) => Err(e),
                Ok((blob, end)) => Ok((blobs.push(blob), end)),
            },
        }
    }
}

/// What the bytes of `s` from `at` on decode to as a container: the tag, the
/// count, and exactly that many blobs.
pub open spec fn parse_container(s: Seq<u8>, at: int) -> Result<
    (MessagesContainerView, int),
    FrameError,
> {
    let avail = s.len() - at;
    let num_messages = u32_at(s, at + 4);
    if avail < 4 {
        Err(FrameError::Incomplete(Field::DataType))
    } else if avail < 8 {
        Err(FrameError::Incomplete(Field::NumMessages))
    } else {
        match parse_blobs(s, at + 8, num_messages as nat) {
            Err(e) => Err(e),
            Ok((messages, next)) => Ok(
                (
                    MessagesContainerView {
                        data_type: DataType::of_tag(u32_at(s, at)),
                        num_messages,
                        messages,
                    },
                    next,
                ),
            ),
        }
    }
}

/// What `from_bytes` makes of a buffer `s` and a bit offset into it. An
/// offset that is not a whole number of bytes is refused.
pub open spec fn decode_container(s: Seq<u8>, bit_offset: int) -> Result<
    (MessagesContainerView, int),
    FrameError,
> {
    if bit_offset % 8 != 0 {
        Err(FrameError::Unaligned)
    } else {
        parse_container(s, bit_offset / 8)
    }
}

/// Blobs that decode are as many as were asked for, each as long as its
/// length says, and they end inside the buffer.
pub proof fn lemma_parsed_blobs(s: Seq<u8>, at: int, count: nat)
    requires
        0 <= at <= s.len(),
        parse_blobs(s, at, count) is Ok,
    ensures
        parse_blobs(s, at, count)->Ok_0.0.len() == count,
        at <= parse_blobs(s, at, count)->Ok_0.1 <= s.len(),
        forall|i: int|
            0 <= i < count ==> (#[trigger] parse_blobs(s, at, count)->Ok_0.0[i]).data.len()
                == parse_blobs(s, at, count)->Ok_0.0[i].len,
    decreases count,
{
    if count > 0 {
        lemma_parsed_blobs(s, at, (count - 1) as nat);
    }
}

/// Once a blob fails, asking for more blobs fails the same way.
pub proof fn lemma_blob_error_stays(s: Seq<u8>, at: int, failed: nat, count: nat)
    requires
        failed <= count,
        parse_blobs(s, at, failed) is Err,
    ensures
        parse_blobs(s, at, count) == parse_blobs(s, at, failed),
    decreases count,
{
    if failed < count {
        lemma_blob_error_stays(s, at, failed, (count - 1) as nat);
    }
}

impl HdlcEncapsulatedMessage {
    /// Decodes the blob that stands at `at`, and says where the bytes behind
    /// it begin.
    pub fn read(data: &[u8], at: usize) -> (r: Result<(HdlcEncapsulatedMessage, usize), FrameError>)
        ensures
            match r {
                Ok((blob, next)) => parse_blob(data@, at as int) == Ok::<
                    (HdlcEncapsulatedMessageView, int),
                    FrameError,
                >((blob@, next as int)),
                Err(e) => parse_blob(data@, at as int) == Err::<
                    (HdlcEncapsulatedMessageView, int),
                    FrameError,
                >(e),
            },
    {
        let total: usize = data.len();
        assert(data@.len() == total);
        let len: u32 = read_u32(data, at, Field::Len)?;
        let bytes: Vec<u8> = read_bytes(data, at + 4, len as usize, Field::Data)?;
        Ok((HdlcEncapsulatedMessage { len, data: bytes }, at + 4 + len as usize))
    }

    /// Decodes the blob that begins `input.1` bits into `input.0`, and hands
    /// back what follows it.
    pub fn from_bytes<'a>(input: (&'a [u8], usize)) -> (r: Result<
        ((&'a [u8], usize), HdlcEncapsulatedMessage),
        FrameError,
    >)
        ensures
            match r {
                Ok((rest, blob)) => {
                    &&& input.1 % 8 == 0
                    &&& parse_blob(input.0@, input.1 as int / 8) matches Ok((view, next))
                    &&& blob@ == view
                    &&& rest.0@ == input.0@.subrange(next, input.0@.len() as int)
                    &&& rest.1 == 0
                },
                Err(e) => if input.1 % 8 != 0 {
                    e == FrameError::Unaligned
                } else {
                    parse_blob(input.0@, input.1 as int / 8) == Err::<
                        (HdlcEncapsulatedMessageView, int),
                        FrameError,
                    >(e)
                },
            },
    {
        if input.1 % 8 != 0 {
            return Err(FrameError::Unaligned);
        }
        let (blob, next) = HdlcEncapsulatedMessage::read(input.0, input.1 / 8)?;
        let rest: &[u8] = slice_subrange(input.0, next, input.0.len());
        Ok(((rest, 0), blob))
    }
}

impl MessagesContainer {
    /// Decodes the container that stands at `at`, and says where the bytes
    /// behind it begin.
    pub fn read(data: &[u8], at: usize) -> (r: Result<(MessagesContainer, usize), FrameError>)
        ensures
            match r {
                Ok((container, next)) => parse_container(data@, at as int) == Ok::<
                    (MessagesContainerView, int),
                    FrameError,
                >((container@, next as int)) && next <= data@.len(),
                Err(e) => parse_container(data@, at as int) == Err::<
                    (MessagesContainerView, int),
                    FrameError,
                >(e),
            },
    {
        let total: usize = data.len();
        assert(data@.len() == total);
        let tag: u32 = read_u32(data, at, Field::DataType)?;
        let num_messages: u32 = read_u32(data, at + 4, Field::NumMessages)?;
        let mut messages: Vec<HdlcEncapsulatedMessage> = Vec::new();
        let mut next: usize = at + 8;
        let mut i: u32 = 0;
        assert(blob_views(messages@) == Seq::<HdlcEncapsulatedMessageView>::empty());
        while i < num_messages
            invariant
                i <= num_messages,
                at + 8 <= next <= data@.len(),
                num_messages == u32_at(data@, at + 4),
                parse_blobs(data@, at + 8, i as nat) == Ok::<
                    (Seq<HdlcEncapsulatedMessageView>, int),
                    FrameError,
                >((blob_views(messages@), next as int)),
            decreases num_messages - i,
        {
            match HdlcEncapsulatedMessage::read(data, next) {
                Ok((blob, end)) => {
                    let ghost before = messages@;
                    messages.push(blob);
                    assert(blob_views(messages@) == blob_views(before).push(blob@));
                    next = end;
                },
                Err(e) => {
                    proof {
                        assert(parse_blobs(data@, at + 8, (i + 1) as nat) == Err::<
                            (Seq<HdlcEncapsulatedMessageView>, int),
                            FrameError,
                        >(e));
                        lemma_blob_error_stays(
                            data@,
                            at + 8,
                            (i + 1) as nat,
                            num_messages as nat,
                        );
                    }
                    return Err(e);
                },
            }
            i = i + 1;
        }
        Ok((MessagesContainer { data_type: DataType::from_tag(tag), num_messages, messages }, next))
    }

    /// Decodes the container that begins `input.1` bits into `input.0`, and
    /// hands back what follows it.
    pub fn from_bytes<'a>(input: (&'a [u8], usize)) -> (r: Result<
        ((&'a [u8], usize), MessagesContainer),
        FrameError,
    >)
        ensures
            match r {
                Ok((rest, container)) => {
                    &&& decode_container(input.0@, input.1 as int) matches Ok((view, next))
                    &&& container@ == view
                    &&& rest.0@ == input.0@.subrange(next, input.0@.len() as int)
                    &&& rest.1 == 0
                },
                Err(e) => decode_container(input.0@, input.1 as int) == Err::<
                    (MessagesContainerView, int),
                    FrameError,
                >(e),
            },
    {
        if input.1 % 8 != 0 {
            return Err(FrameError::Unaligned);
        }
        let (container, next) = MessagesContainer::read(input.0, input.1 / 8)?;
        let rest: &[u8] = slice_subrange(input.0, next, input.0.len());
        Ok(((rest, 0), container))
    }
}

} // verus!
