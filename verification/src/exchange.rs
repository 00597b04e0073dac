//! One request/response exchange: the request that opens it, the states it
//! passes through, and the clock offset and round-trip delay it ends with.
//!
//! The transport and the local clock stay outside: the caller sends and
//! receives the bytes, samples its clock, and reports both here.

use crate::codec::{
    buffer_after_write, u32_wire, u64_wire, CodecError, TryReadFromBytes, TryWriteToBytes,
};
use crate::ntp_message_protocol::{lemma_header_round_trip, NtpPacketHeader};
use crate::types::{
    ntp_leap_no_warning, ntp_mode_client, ntp_version_4, NtpShort, NtpTimestamp, Poll, Precision,
    RefId, Stratum,
};
use vstd::prelude::*;

verus! {

/// The stage at which an exchange failed, and why.
#[derive(Debug, Clone, Copy, PartialEq, Eq, Structural)]
pub enum ExchangeError {
    /// The transport could not send the request or deliver a reply.
    TransportError,
    /// The request could not be encoded.
    EncodeError(CodecError),
    /// The reply could not be decoded.
    DecodeError(CodecError),
}

/// Clock offset and round-trip delay, both in units of 1/2^32 second.
///
/// A negative delay is passed on as it is: it tells that the two clocks
/// drifted apart during the exchange and that the measurement is unreliable.
#[derive(Debug, Clone, Copy, PartialEq, Eq, Structural)]
pub struct ExchangeResult {
    pub offset: i128,
    pub delay: i128,
}

/// Progress of one exchange.
#[derive(Debug, Clone, PartialEq, Eq)]
pub enum ExchangeState {
    /// Nothing was sent yet.
    Idle,
    /// The request left at local time `t1`.
    RequestSent { t1: NtpTimestamp },
    /// The reply arrived at local time `t4` and was decoded.
    ResponseReceived { t1: NtpTimestamp, t4: NtpTimestamp, response: NtpPacketHeader },
    /// Offset and delay are known.
    Computed(ExchangeResult),
    /// The exchange failed and yields no result.
    Failed(ExchangeError),
}

/// A header is a client request: version 4, client mode, no leap warning,
/// and zero in every other field.
pub open spec fn is_request(h: NtpPacketHeader) -> bool {
    &&& h.leap_indicator@ == 0
    &&& h.version_number@ == 4
    &&& h.mode@ == 3
    &&& h.stratum@ == 0
    &&& h.poll@ == 0
    &&& h.precision@ == 0
    &&& h.rootdelay@ == 0
    &&& h.rootdisp@ == 0
    &&& h.refid@@ == seq![0u8, 0u8, 0u8, 0u8]
    &&& h.reftime@ == 0
    &&& h.org@ == 0
    &&& h.rec@ == 0
    &&& h.xmt@ == 0
}

/// The wire image of a request: 0x23 for version 4 in client mode, then 47
/// zero bytes.
pub open spec fn request_wire() -> Seq<u8> {
    Seq::new(48, |i: int| if i == 0 { 0x23u8 } else { 0u8 })
}

/// Every request has the same wire image.
pub proof fn lemma_request_wire(h: NtpPacketHeader)
    requires
        is_request(h),
    ensures
        h.wf(),
        h.wire() == request_wire(),
{
    reveal(u32_wire);
    reveal(u64_wire);
    lemma_header_round_trip(h);
    assert(h.refid.wire() =~= seq![0u8, 0u8, 0u8, 0u8]);
    assert(h.wire() =~= request_wire());
}

/// Clock offset from the four timestamps: half of what the two one-way
/// differences add up to, rounded down.
pub open spec fn offset_of(t1: int, t2: int, t3: int, t4: int) -> int {
    ((t2 - t1) + (t3 - t4)) / 2
}

/// Round-trip delay from the four timestamps: the time the exchange took
/// here less the time the server held the request.
pub open spec fn delay_of(t1: int, t2: int, t3: int, t4: int) -> int {
    (t4 - t1) - (t3 - t2)
}

/// Seconds from 1900-01-01, where timestamps start, to 1970-01-01.
pub const JAN_1970: u64 = 2_208_988_800;

/// The timestamp of an instant given as seconds and nanoseconds since
/// 1970-01-01. The seconds wrap around at 2^32, and the fraction is rounded
/// down to a multiple of 1/2^32 second.
pub fn timestamp_from_unix(secs: u64, nanos: u32) -> (r: NtpTimestamp)
    requires
        nanos < 1_000_000_000,
    ensures
        r@ == (secs + JAN_1970) % 0x1_0000_0000 * 0x1_0000_0000 + nanos * 0x1_0000_0000
            / 1_000_000_000,
{
    let seconds: u64 = (secs % 0x1_0000_0000 + JAN_1970) % 0x1_0000_0000;
    let fraction: u64 = (nanos as u64) * 0x1_0000_0000 / 1_000_000_000;
    NtpTimestamp::new(seconds as u32, fraction as u32)
}

/// The request that opens an exchange.
pub fn request() -> (r: NtpPacketHeader)
    ensures
        is_request(r),
        r.wf(),
{
    NtpPacketHeader {
        leap_indicator: ntp_leap_no_warning(),
        version_number: ntp_version_4(),
        mode: ntp_mode_client(),
        stratum: Stratum::from(0),
        poll: Poll::from(0),
        precision: Precision::from(0),
        rootdelay: NtpShort::new(0, 0),
        rootdisp: NtpShort::new(0, 0),
        refid: RefId::from([0, 0, 0, 0]),
        reftime: NtpTimestamp::new(0, 0),
        org: NtpTimestamp::new(0, 0),
        rec: NtpTimestamp::new(0, 0),
        xmt: NtpTimestamp::new(0, 0),
    }
}

/// Encodes the request at the start of `buffer` and returns its width, 48.
/// A buffer of fewer than 48 bytes is left as it was.
pub fn encode_request(buffer: &mut [u8]) -> (r: Result<usize, ExchangeError>)
    ensures
        old(buffer)@.len() >= 48 ==> r == Ok::<usize, ExchangeError>(48),
        old(buffer)@.len() < 48 ==> r == Err::<usize, ExchangeError>(
            ExchangeError::EncodeError(CodecError::BufferTooSmall),
        ),
        final(buffer)@ == buffer_after_write(request_wire(), old(buffer)@),
{
    let packet = request();
    proof {
        lemma_request_wire(packet);
    }
    match packet.try_write_to_bytes(buffer) {
        Ok(n) => Ok(n),
        Err(e) => Err(ExchangeError::EncodeError(e)),
    }
}

/// Offset and delay from the local send time `t1`, the server's receive
/// time `t2`, the server's transmit time `t3` and the local receive time `t4`.
pub fn compute_exchange(
    t1: NtpTimestamp,
    t2: NtpTimestamp,
    t3: NtpTimestamp,
    t4: NtpTimestamp,
) -> (r: ExchangeResult)
    ensures
        r.offset == offset_of(t1@ as int, t2@ as int, t3@ as int, t4@ as int),
        r.delay == delay_of(t1@ as int, t2@ as int, t3@ as int, t4@ as int),
{
    let a: i128 = t1.0 as i128;
    let b: i128 = t2.0 as i128;
    let c: i128 = t3.0 as i128;
    let d: i128 = t4.0 as i128;
    let sum: i128 = (b - a) + (c - d);
    let offset: i128 = if sum >= 0 {
        sum / 2
    } else {
        -((1 - sum) / 2)
    };
    let delay: i128 = (d - a) - (c - b);
    ExchangeResult { offset, delay }
}

impl ExchangeState {
    /// Idle to RequestSent: the request was handed to the transport, and the
    /// local clock read `t1` no later than that. Any other state stays as it
    /// is.
    pub fn request_sent(self, t1: NtpTimestamp) -> (r: ExchangeState)
        ensures
            self is Idle ==> r == (ExchangeState::RequestSent { t1 }),
            !(self is Idle) ==> r == self,
    {
        match self {
            ExchangeState::Idle => ExchangeState::RequestSent { t1 },
            _ => self,
        }
    }

    /// RequestSent to ResponseReceived: `bytes` arrived, and the local clock
    /// read `t4` no earlier than that. A reply that does not decode ends the
    /// exchange. Any other state stays as it is.
    pub fn response_received(self, bytes: &[u8], t4: NtpTimestamp) -> (r: ExchangeState)
        ensures
            self is RequestSent && bytes@.len() < 48 ==> r == ExchangeState::Failed(
                ExchangeError::DecodeError(CodecError::BufferTooSmall),
            ),
            self is RequestSent && bytes@.len() >= 48 ==> r == (ExchangeState::ResponseReceived {
                t1: self->RequestSent_t1,
                t4,
                response: NtpPacketHeader::parse(bytes@.take(48))->Ok_0,
            }),
            !(self is RequestSent) ==> r == self,
    {
        match self {
            ExchangeState::RequestSent { t1 } => {
                match NtpPacketHeader::try_read_from_bytes(bytes) {
                    Ok((response, _)) => ExchangeState::ResponseReceived { t1, t4, response },
                    Err(e) => ExchangeState::Failed(ExchangeError::DecodeError(e)),
                }
            },
            _ => self,
        }
    }

    /// ResponseReceived to Computed: offset and delay from the two local
    /// times and the receive and transmit times that the reply carries. Any
    /// other state stays as it is.
    pub fn compute(self) -> (r: ExchangeState)
        ensures
            !(self is ResponseReceived) ==> r == self,
            self is ResponseReceived ==> r == ExchangeState::Computed(
                ExchangeResult {
                    offset: offset_of(
                        self->ResponseReceived_t1@ as int,
                        self->response.rec@ as int,
                        self->response.xmt@ as int,
                        self->ResponseReceived_t4@ as int,
                    ) as i128,
                    delay: delay_of(
                        self->ResponseReceived_t1@ as int,
                        self->response.rec@ as int,
                        self->response.xmt@ as int,
                        self->ResponseReceived_t4@ as int,
                    ) as i128,
                },
            ),
    {
        match self {
            ExchangeState::ResponseReceived { t1, t4, response } => ExchangeState::Computed(
                compute_exchange(t1, response.rec, response.xmt, t4),
            ),
            _ => self,
        }
    }

    /// What the exchange ended with: the result once it is computed, the
    /// error once it has failed, and nothing while it is still under way.
    pub fn outcome(&self) -> (r: Option<Result<ExchangeResult, ExchangeError>>)
        ensures
            r == match *self {
                ExchangeState::Computed(result) => Some(
                    Ok::<ExchangeResult, ExchangeError>(result),
                ),
                ExchangeState::Failed(error) => Some(
                    Err::<ExchangeResult, ExchangeError>(error),
                ),
                _ => None,
            },
    {
        match self {
            ExchangeState::Computed(result) => Some(Ok(*result)),
            ExchangeState::Failed(error) => Some(Err(*error)),
            _ => None,
        }
    }

    /// Any state to Failed: the transport reported an error.
    pub fn transport_failed(self) -> (r: ExchangeState)
        ensures
            r == ExchangeState::Failed(ExchangeError::TransportError),
    {
        ExchangeState::Failed(ExchangeError::TransportError)
    }
}

} // verus!
