//! Requests to the modem and their encoding. A request is written as its
//! opcode and subopcode, each a little-endian 32-bit number, and what the
//! subopcode calls for behind them.

use vstd::prelude::*;
use crate::error::FrameError;
use crate::response::{OPCODE_LOG_CONFIG, SUBOPCODE_RETRIEVE_ID_RANGES, SUBOPCODE_SET_MASK};
use crate::wire::{u32_bytes, write_bytes, write_u32};

verus! {

/// A request to the modem.
#[derive(Debug, Clone, PartialEq)]
pub enum Request {
    LogConfig(LogConfigRequest),
}

/// A request about which log records the modem sends.
#[derive(Debug, Clone, PartialEq)]
pub enum LogConfigRequest {
    /// Asks for the size of the mask of each log type.
    RetrieveIdRanges,
    /// Sets the mask of one log type: bit `i` of the mask, counted from the
    /// lowest bit of the first byte, asks for the log code `i` of that type.
    SetMask { log_type: u32, log_mask_bitsize: u32, log_mask: Vec<u8> },
}

/// What a `Request` holds.
pub enum RequestView {
    LogConfig(LogConfigRequestView),
}

/// What a `LogConfigRequest` holds, with the mask as a sequence.
pub enum LogConfigRequestView {
    RetrieveIdRanges,
    SetMask { log_type: u32, log_mask_bitsize: u32, log_mask: Seq<u8> },
}

impl View for LogConfigRequest {
    type V = LogConfigRequestView;

    open spec fn view(&self) -> LogConfigRequestView {
        match *self {
            LogConfigRequest::RetrieveIdRanges => LogConfigRequestView::RetrieveIdRanges,
            LogConfigRequest::SetMask { log_type, log_mask_bitsize, log_mask } =>
                LogConfigRequestView::SetMask { log_type, log_mask_bitsize, log_mask: log_mask@ },
        }
    }
}

impl View for Request {
    type V = RequestView;

    open spec fn view(&self) -> RequestView {
        match *self {
            Request::LogConfig(inner) => RequestView::LogConfig(inner@),
        }
    }
}

impl LogConfigRequestView {
    /// The bytes that the request is written as: the subopcode, and for a
    /// mask the log type, the mask's size in bits and the mask as it is.
    pub open spec fn encoding(self) -> Seq<u8> {
        match self {
            LogConfigRequestView::RetrieveIdRanges => u32_bytes(SUBOPCODE_RETRIEVE_ID_RANGES),
            LogConfigRequestView::SetMask { log_type, log_mask_bitsize, log_mask } => u32_bytes(
                SUBOPCODE_SET_MASK,
            ) + u32_bytes(log_type) + u32_bytes(log_mask_bitsize) + log_mask,
        }
    }
}

impl RequestView {
    /// The bytes that the request is written as: the opcode, then the
    /// request of that family.
    pub open spec fn encoding(self) -> Seq<u8> {
        match self {
            RequestView::LogConfig(inner) => u32_bytes(OPCODE_LOG_CONFIG) + inner.encoding(),
        }
    }
}

impl LogConfigRequest {
    /// Encodes the request. Encoding cannot fail.
    pub fn to_bytes(&self) -> (r: Result<Vec<u8>, FrameError>)
        ensures
            r matches Ok(bytes) && bytes@ == self@.encoding(),
    {
        let mut out: Vec<u8> = Vec::new();
        self.write(&mut out);
        assert(Seq::<u8>::empty() + self@.encoding() == self@.encoding());
        Ok(out)
    }

    /// Appends the request's encoding to `out`.
    pub fn write(&self, out: &mut Vec<u8>)
        ensures
            final(out)@ == old(out)@ + self@.encoding(),
    {
        match self {
            LogConfigRequest::RetrieveIdRanges => {
                write_u32(out, SUBOPCODE_RETRIEVE_ID_RANGES);
            },
            LogConfigRequest::SetMask { log_type, log_mask_bitsize, log_mask } => {
                write_u32(out, SUBOPCODE_SET_MASK);
                write_u32(out, *log_type);
                write_u32(out, *log_mask_bitsize);
                write_bytes(out, log_mask.as_slice());
                assert(out@ == old(out)@ + (u32_bytes(SUBOPCODE_SET_MASK) + u32_bytes(*log_type)
                    + u32_bytes(*log_mask_bitsize) + log_mask@));
            },
        }
    }
}

impl Request {
    /// Encodes the request. Encoding cannot fail.
    pub fn to_bytes(&self) -> (r: Result<Vec<u8>, FrameError>)
        ensures
            r matches Ok(bytes) && bytes@ == self@.encoding(),
    {
        let mut out: Vec<u8> = Vec::new();
        match self {
            Request::LogConfig(inner) => {
                write_u32(&mut out, OPCODE_LOG_CONFIG);
                inner.write(&mut out);
            },
        }
        assert(out@ == self@.encoding());
        Ok(out)
    }
}

/// The log code of the `i`-th log of a log type: the type in the bits from
/// the twelfth up, the index below them.
pub open spec fn log_code(log_type: u32, i: u32) -> u32 {
    (log_type << 12u32) | i
}

/// Whether bit `k` of `byte` is set, the lowest bit being bit 0.
pub open spec fn bit_of(byte: u8, k: u8) -> bool {
    (byte >> k) & 1u8 == 1u8
}

/// Whether bit `i` of a mask is set: bit `i % 8` of byte `i / 8`.
pub open spec fn mask_bit(mask: Seq<u8>, i: int) -> bool {
    bit_of(mask[i / 8], (i % 8) as u8)
}

/// Whether `mask` is the mask of `bitsize` bits that asks for exactly those
/// logs of `log_type` whose codes are among `accepted`: it has a byte for
/// every eight bits begun, bit `i` is set if and only if the code of log `i`
/// is accepted, and the bits behind the last log are clear.
pub open spec fn is_log_mask(mask: Seq<u8>, log_type: u32, bitsize: u32, accepted: Seq<u32>)
    -> bool {
    &&& mask.len() == (bitsize + 7) / 8
    &&& forall|i: int|
        0 <= i < 8 * mask.len() ==> (#[trigger] mask_bit(mask, i) <==> i < bitsize
            && accepted.contains(log_code(log_type, i as u32)))
}

proof fn lemma_bit_of_zero(k: u8)
    by (bit_vector)
    requires
        k < 8,
    ensures
        !bit_of(0u8, k),
{
}

proof fn lemma_bit_of_set(byte: u8, n: u8, k: u8)
    by (bit_vector)
    requires
        n < 8,
        k < 8,
    ensures
        bit_of(byte | (1u8 << n), k) == (k == n || bit_of(byte, k)),
{
}

proof fn lemma_bits_make_byte(a: u8, b: u8)
    by (bit_vector)
    requires
        bit_of(a, 0) == bit_of(b, 0),
        bit_of(a, 1) == bit_of(b, 1),
        bit_of(a, 2) == bit_of(b, 2),
        bit_of(a, 3) == bit_of(b, 3),
        bit_of(a, 4) == bit_of(b, 4),
        bit_of(a, 5) == bit_of(b, 5),
        bit_of(a, 6) == bit_of(b, 6),
        bit_of(a, 7) == bit_of(b, 7),
    ensures
        a == b,
{
}

/// There is one mask for a log type, a size and a set of accepted codes: two
/// masks that both qualify are the same bytes.
pub proof fn lemma_log_mask_unique(
    a: Seq<u8>,
    b: Seq<u8>,
    log_type: u32,
    bitsize: u32,
    accepted: Seq<u32>,
)
    requires
        is_log_mask(a, log_type, bitsize, accepted),
        is_log_mask(b, log_type, bitsize, accepted),
    ensures
        a == b,
{
    assert forall|j: int| 0 <= j < a.len() implies a[j] == b[j] by {
        assert forall|k: u8| k < 8 implies bit_of(a[j], k) == bit_of(b[j], k) by {
            let i = 8 * j + k;
            assert(i / 8 == j && i % 8 == k);
            assert(mask_bit(a, i) == mask_bit(b, i));
        }
        lemma_bits_make_byte(a[j], b[j]);
    }
    assert(a =~= b);
}

/// Whether `code` is among `codes`.
pub fn contains_code(codes: &[u32], code: u32) -> (found: bool)
    ensures
        found == codes@.contains(code),
{
    let mut i: usize = 0;
    while i < codes.len()
        invariant
            i <= codes@.len(),
            forall|j: int| 0 <= j < i ==> codes@[j] != code,
        decreases codes@.len() - i,
    {
        if codes[i] == code {
            return true;
        }
        i += 1;
    }
    false
}

/// Builds the request that sets the mask of `log_type` to `log_mask_bitsize`
/// bits, of which bit `i` is set if and only if the log code of log `i` is
/// among `accepted_log_codes`.
pub fn build_log_mask_request(log_type: u32, log_mask_bitsize: u32, accepted_log_codes: &[u32])
    -> (request: Request)
    ensures
        request@ matches RequestView::LogConfig(
            LogConfigRequestView::SetMask { log_type: t, log_mask_bitsize: n, log_mask },
        ) && t == log_type && n == log_mask_bitsize && is_log_mask(
            log_mask,
            log_type,
            log_mask_bitsize,
            accepted_log_codes@,
        ),
{
    let mut current_byte: u8 = 0;
    let mut num_bits_written: u8 = 0;
    let mut log_mask: Vec<u8> = Vec::new();
    let mut i: u32 = 0;
    proof {
        assert forall|k: u8| k < 8 implies !#[trigger] bit_of(current_byte, k) by {
            lemma_bit_of_zero(k);
        }
    }
    while i < log_mask_bitsize
        invariant
            i <= log_mask_bitsize,
            i < log_mask_bitsize ==> log_mask@.len() == i / 8 && num_bits_written == i % 8,
            i == log_mask_bitsize ==> log_mask@.len() == (log_mask_bitsize + 7) / 8
                && num_bits_written == 0,
            forall|j: int|
                0 <= j < 8 * log_mask@.len() ==> (#[trigger] mask_bit(log_mask@, j) <==> j < i
                    && accepted_log_codes@.contains(log_code(log_type, j as u32))),
            forall|k: u8|
                k < 8 ==> (#[trigger] bit_of(current_byte, k) <==> k < num_bits_written
                    && accepted_log_codes@.contains(
                    log_code(log_type, (8 * log_mask@.len() + k) as u32),
                )),
        decreases log_mask_bitsize - i,
    {
        let code: u32 = (log_type << 12u32) | i;
        let ghost before = current_byte;
        if contains_code(accepted_log_codes, code) {
            current_byte = current_byte | (1u8 << num_bits_written);
        }
        proof {
            assert forall|k: u8| k < 8 implies (#[trigger] bit_of(current_byte, k) <==> k
                < num_bits_written + 1 && accepted_log_codes@.contains(
                log_code(log_type, (8 * log_mask@.len() + k) as u32),
            )) by {
                lemma_bit_of_set(before, num_bits_written, k);
            }
        }
        num_bits_written = num_bits_written + 1;
        if num_bits_written == 8 || i == log_mask_bitsize - 1 {
            let ghost full = log_mask@;
            log_mask.push(current_byte);
            proof {
                assert forall|j: int| 0 <= j < 8 * log_mask@.len() implies (#[trigger] mask_bit(
                    log_mask@,
                    j,
                ) <==> j < i + 1 && accepted_log_codes@.contains(log_code(log_type, j as u32))) by {
                    if j < 8 * full.len() {
                        assert(log_mask@[j / 8] == full[j / 8]);
                        assert(mask_bit(log_mask@, j) == mask_bit(full, j));
                    } else {
                        let k = (j - 8 * full.len()) as u8;
                        assert(j / 8 == full.len() && j % 8 == k as int);
                        assert(log_mask@[j / 8] == current_byte);
                        assert(mask_bit(log_mask@, j) == bit_of(current_byte, k));
                    }
                }
            }
            current_byte = 0;
            num_bits_written = 0;
            proof {
                assert forall|k: u8| k < 8 implies !#[trigger] bit_of(current_byte, k) by {
                    lemma_bit_of_zero(k);
                }
            }
        }
        i = i + 1;
    }
    Request::LogConfig(LogConfigRequest::SetMask { log_type, log_mask_bitsize, log_mask })
}

} // verus!
