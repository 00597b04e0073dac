//! The 48-byte packet header and its wire layout.

use crate::codec::{
    array_of, buffer_after_write, i8_of_wire_byte, i8_wire_byte, lemma_array_round_trip,
    lemma_array_wire_round_trip, lemma_u32_round_trip, lemma_u32_wire_round_trip,
    lemma_u64_round_trip, lemma_u64_wire_round_trip, lemma_written_prefix, read_outcome,
    u32_of_wire, u64_of_wire, write_outcome, CodecError, TryReadFromBytes, TryWriteToBytes,
};
use crate::types::{Leap, Mode, NtpShort, NtpTimestamp, Poll, Precision, RefId, Stratum, Version};
use vstd::prelude::*;

verus! {

/// Number of bytes that a header occupies on the wire.
pub const HEADER_WIDTH: usize = 48;

/// The header of a request or a reply, field by field in wire order.
#[derive(Debug, Clone, PartialEq, Eq)]
pub struct NtpPacketHeader {
    pub leap_indicator: Leap,
    pub version_number: Version,
    pub mode: Mode,
    pub stratum: Stratum,
    pub poll: Poll,
    pub precision: Precision,
    pub rootdelay: NtpShort,
    pub rootdisp: NtpShort,
    pub refid: RefId,
    pub reftime: NtpTimestamp,
    pub org: NtpTimestamp,
    pub rec: NtpTimestamp,
    pub xmt: NtpTimestamp,
}

/// The leading byte: the leap indicator in the two highest bits, the version
/// in the next three, the mode in the three lowest.
pub open spec fn first_byte(leap: u8, version: u8, mode: u8) -> u8 {
    (leap * 64 + version * 8 + mode) as u8
}

/// The leading byte holds the three fields side by side: the leap indicator
/// shifted left by six bits, the version shifted left by three, and the
/// mode; each field is read back by dividing the other two away.
pub proof fn lemma_first_byte_packing(leap: u8, version: u8, mode: u8)
    requires
        leap <= 3,
        version <= 7,
        mode <= 7,
    ensures
        first_byte(leap, version, mode) == (leap << 6) | (version << 3) | mode,
        first_byte(leap, version, mode) / 64 == leap,
        first_byte(leap, version, mode) / 8 % 8 == version,
        first_byte(leap, version, mode) % 8 == mode,
{
    assert(leap * 64 + version * 8 + mode == (leap << 6) | (version << 3) | mode)
        by (bit_vector)
        requires
            leap <= 3,
            version <= 7,
            mode <= 7,
    ;
}

impl NtpPacketHeader {
    /// Each of the three packed fields fits in its bits.
    pub open spec fn wf(&self) -> bool {
        &&& self.leap_indicator.wf()
        &&& self.version_number.wf()
        &&& self.mode.wf()
    }
}

/// Writes `field` into `bytes` from offset `at` on, and returns the offset
/// behind it.
fn write_field<T: TryWriteToBytes>(field: &T, bytes: &mut [u8], at: usize) -> (r: Result<
    usize,
    CodecError,
>)
    requires
        at <= old(bytes)@.len(),
    ensures
        final(bytes)@ == old(bytes)@.take(at as int) + buffer_after_write(
            field.wire(),
            old(bytes)@.skip(at as int),
        ),
        match write_outcome(field.wire(), old(bytes)@.skip(at as int)) {
            Ok(n) => r == Ok::<usize, CodecError>((at + n) as usize),
            Err(e) => r == Err::<usize, CodecError>(e),
        },
{
    assert(bytes.len() == bytes@.len());
    let (_, rest) = bytes.split_at_mut(at);
    assert(rest@ =~= old(bytes)@.skip(at as int));
    let n = field.try_write_to_bytes(rest)?;
    Ok(at + n)
}

/// A region that holds `written` in front of the rest of `before` holds
/// `written + wire` in front of the rest of `before` once `wire` has been
/// written behind `written`.
proof fn lemma_field_written(before: Seq<u8>, now: Seq<u8>, written: Seq<u8>, wire: Seq<u8>)
    requires
        written.len() + wire.len() <= before.len(),
        now == written + before.skip(written.len() as int),
    ensures
        now.take(written.len() as int) + buffer_after_write(
            wire,
            now.skip(written.len() as int),
        ) == (written + wire) + before.skip((written.len() + wire.len()) as int),
{
    let at = written.len() as int;
    assert(now.skip(at) =~= before.skip(at));
    assert(now.take(at) + (wire + before.skip(at).skip(wire.len() as int)) =~= (written + wire)
        + before.skip(at + wire.len()));
}

impl TryWriteToBytes for NtpPacketHeader {
    /// The leading byte, then each field's wire image in the fixed order.
    open spec fn wire(&self) -> Seq<u8> {
        seq![first_byte(self.leap_indicator@, self.version_number@, self.mode@)]
            + self.stratum.wire() + self.poll.wire() + self.precision.wire()
            + self.rootdelay.wire() + self.rootdisp.wire() + self.refid.wire()
            + self.reftime.wire() + self.org.wire() + self.rec.wire() + self.xmt.wire()
    }

    fn try_write_to_bytes(&self, bytes: &mut [u8]) -> (r: Result<usize, CodecError>) {
        proof {
            lemma_header_layout(*self);
        }
        if bytes.len() < HEADER_WIDTH {
            return Err(CodecError::BufferTooSmall);
        }
        let leap: u8 = u8::from(self.leap_indicator);
        let version: u8 = u8::from(self.version_number);
        let mode: u8 = u8::from(self.mode);
        let packed: u8 = (leap << 6) | (version << 3) | mode;
        proof {
            lemma_first_byte_packing(leap, version, mode);
        }
        bytes[0] = packed;
        let mut total_bytes: usize = 1;
        let ghost mut written: Seq<u8> = seq![packed];
        assert(bytes@ =~= written + old(bytes)@.skip(1));
        assert(total_bytes == written.len());
        proof {
            lemma_field_written(old(bytes)@, bytes@, written, self.stratum.wire());
            written = written + self.stratum.wire();
        }
        total_bytes = write_field(&self.stratum, bytes, total_bytes)?;
        proof {
            lemma_field_written(old(bytes)@, bytes@, written, self.poll.wire());
            written = written + self.poll.wire();
        }
        total_bytes = write_field(&self.poll, bytes, total_bytes)?;
        proof {
            lemma_field_written(old(bytes)@, bytes@, written, self.precision.wire());
            written = written + self.precision.wire();
        }
        total_bytes = write_field(&self.precision, bytes, total_bytes)?;
        proof {
            lemma_field_written(old(bytes)@, bytes@, written, self.rootdelay.wire());
            written = written + self.rootdelay.wire();
        }
        total_bytes = write_field(&self.rootdelay, bytes, total_bytes)?;
        proof {
            lemma_field_written(old(bytes)@, bytes@, written, self.rootdisp.wire());
            written = written + self.rootdisp.wire();
        }
        total_bytes = write_field(&self.rootdisp, bytes, total_bytes)?;
        proof {
            lemma_field_written(old(bytes)@, bytes@, written, self.refid.wire());
            written = written + self.refid.wire();
        }
        total_bytes = write_field(&self.refid, bytes, total_bytes)?;
        proof {
            lemma_field_written(old(bytes)@, bytes@, written, self.reftime.wire());
            written = written + self.reftime.wire();
        }
        total_bytes = write_field(&self.reftime, bytes, total_bytes)?;
        proof {
            lemma_field_written(old(bytes)@, bytes@, written, self.org.wire());
            written = written + self.org.wire();
        }
        total_bytes = write_field(&self.org, bytes, total_bytes)?;
        proof {
            lemma_field_written(old(bytes)@, bytes@, written, self.rec.wire());
            written = written + self.rec.wire();
        }
        total_bytes = write_field(&self.rec, bytes, total_bytes)?;
        proof {
            lemma_field_written(old(bytes)@, bytes@, written, self.xmt.wire());
            written = written + self.xmt.wire();
        }
        total_bytes = write_field(&self.xmt, bytes, total_bytes)?;
        assert(written =~= self.wire());
        Ok(total_bytes)
    }
}

impl<'a> TryReadFromBytes<'a> for NtpPacketHeader {
    open spec fn width() -> nat {
        48
    }

    /// The header that 48 bytes stand for. No leading byte is rejected: each
    /// of its three fields always fits its bits.
    open spec fn parse(wire: Seq<u8>) -> Result<Self, CodecError> {
        Ok(
            NtpPacketHeader {
                leap_indicator: Leap::of(wire[0] / 64),
                version_number: Version::of(wire[0] / 8 % 8),
                mode: Mode::of(wire[0] % 8),
                stratum: Stratum::of(wire[1]),
                poll: Poll::of(i8_of_wire_byte(wire[2])),
                precision: Precision::of(i8_of_wire_byte(wire[3])),
                rootdelay: NtpShort::of(u32_of_wire(wire.subrange(4, 8))),
                rootdisp: NtpShort::of(u32_of_wire(wire.subrange(8, 12))),
                refid: RefId::of(array_of::<4>(wire.subrange(12, 16))),
                reftime: NtpTimestamp::of(u64_of_wire(wire.subrange(16, 24))),
                org: NtpTimestamp::of(u64_of_wire(wire.subrange(24, 32))),
                rec: NtpTimestamp::of(u64_of_wire(wire.subrange(32, 40))),
                xmt: NtpTimestamp::of(u64_of_wire(wire.subrange(40, 48))),
            },
        )
    }

    fn try_read_from_bytes(bytes: &'a [u8]) -> (r: Result<(Self, usize), CodecError>) {
        let mut total_bytes: usize = 0;

        if bytes.is_empty() {
            return Err(CodecError::BufferTooSmall);
        }
        let packed: u8 = bytes[0];
        proof {
            assert((packed & 0b11_000_000) >> 6 == packed / 64
                && (packed & 0b00_111_000) >> 3 == packed / 8 % 8
                && packed & 0b00_000_111 == packed % 8
                && packed / 64 <= 3
                && packed / 8 % 8 <= 7
                && packed % 8 <= 7) by (bit_vector);
        }
        let leap_indicator = Leap::try_from((packed & 0b11_000_000) >> 6)?;
        let version_number = Version::try_from((packed & 0b00_111_000) >> 3)?;
        let mode = Mode::try_from(packed & 0b00_000_111)?;
        total_bytes += 1;
        let (stratum, size) = Stratum::try_read_from_bytes(&bytes[total_bytes..bytes.len()])?;
        total_bytes += size;

        let (poll, size) = Poll::try_read_from_bytes(&bytes[total_bytes..bytes.len()])?;
        total_bytes += size;

        let (precision, size) = Precision::try_read_from_bytes(&bytes[total_bytes..bytes.len()])?;
        total_bytes += size;

        let (rootdelay, size) = NtpShort::try_read_from_bytes(&bytes[total_bytes..bytes.len()])?;
        total_bytes += size;

        let (rootdisp, size) = NtpShort::try_read_from_bytes(&bytes[total_bytes..bytes.len()])?;
        total_bytes += size;

        let (refid, size) = RefId::try_read_from_bytes(&bytes[total_bytes..bytes.len()])?;
        total_bytes += size;

        let (reftime, size) = NtpTimestamp::try_read_from_bytes(
            &bytes[total_bytes..bytes.len()],
        )?;
        total_bytes += size;

        let (org, size) = NtpTimestamp::try_read_from_bytes(&bytes[total_bytes..bytes.len()])?;
        total_bytes += size;

        let (rec, size) = NtpTimestamp::try_read_from_bytes(&bytes[total_bytes..bytes.len()])?;
        total_bytes += size;

        let (xmt, size) = NtpTimestamp::try_read_from_bytes(&bytes[total_bytes..bytes.len()])?;
        total_bytes += size;
        proof {
            let len = bytes@.len() as int;
            let w = bytes@.take(48);
            assert(bytes@.subrange(4, len).take(4) =~= w.subrange(4, 8));
            assert(bytes@.subrange(8, len).take(4) =~= w.subrange(8, 12));
            assert(bytes@.subrange(12, len).take(4) =~= w.subrange(12, 16));
            assert(bytes@.subrange(16, len).take(8) =~= w.subrange(16, 24));
            assert(bytes@.subrange(24, len).take(8) =~= w.subrange(24, 32));
            assert(bytes@.subrange(32, len).take(8) =~= w.subrange(32, 40));
            assert(bytes@.subrange(40, len).take(8) =~= w.subrange(40, 48));
        }

        Ok(
            (
                Self {
                    leap_indicator,
                    version_number,
                    mode,
                    stratum,
                    poll,
                    precision,
                    rootdelay,
                    rootdisp,
                    refid,
                    reftime,
                    org,
                    rec,
                    xmt,
                },
                total_bytes,
            ),
        )
    }
}

/// Where each of eleven consecutive fields of the header's widths lies in
/// their concatenation.
proof fn lemma_layout(
    a: Seq<u8>,
    b: Seq<u8>,
    c: Seq<u8>,
    d: Seq<u8>,
    e: Seq<u8>,
    f: Seq<u8>,
    g: Seq<u8>,
    h: Seq<u8>,
    i: Seq<u8>,
    j: Seq<u8>,
    k: Seq<u8>,
)
    requires
        a.len() == 1 && b.len() == 1 && c.len() == 1 && d.len() == 1,
        e.len() == 4 && f.len() == 4 && g.len() == 4,
        h.len() == 8 && i.len() == 8 && j.len() == 8 && k.len() == 8,
    ensures
        ({
            let w = a + b + c + d + e + f + g + h + i + j + k;
            &&& w.len() == 48
            &&& w[0] == a[0]
            &&& w[1] == b[0]
            &&& w[2] == c[0]
            &&& w[3] == d[0]
            &&& w.subrange(4, 8) == e
            &&& w.subrange(8, 12) == f
            &&& w.subrange(12, 16) == g
            &&& w.subrange(16, 24) == h
            &&& w.subrange(24, 32) == i
            &&& w.subrange(32, 40) == j
            &&& w.subrange(40, 48) == k
        }),
{
    let w = a + b + c + d + e + f + g + h + i + j + k;
    assert(w.subrange(4, 8) =~= e);
    assert(w.subrange(8, 12) =~= f);
    assert(w.subrange(12, 16) =~= g);
    assert(w.subrange(16, 24) =~= h);
    assert(w.subrange(24, 32) =~= i);
    assert(w.subrange(32, 40) =~= j);
    assert(w.subrange(40, 48) =~= k);
}

/// Where each field lies in the wire image of a header.
proof fn lemma_header_layout(h: NtpPacketHeader)
    ensures
        ({
            let w = h.wire();
            &&& w.len() == 48
            &&& w[0] == first_byte(h.leap_indicator@, h.version_number@, h.mode@)
            &&& w[1] == h.stratum@
            &&& w[2] == i8_wire_byte(h.poll@)
            &&& w[3] == i8_wire_byte(h.precision@)
            &&& w.subrange(4, 8) == h.rootdelay@.wire()
            &&& w.subrange(8, 12) == h.rootdisp@.wire()
            &&& w.subrange(12, 16) == h.refid@.wire()
            &&& w.subrange(16, 24) == h.reftime@.wire()
            &&& w.subrange(24, 32) == h.org@.wire()
            &&& w.subrange(32, 40) == h.rec@.wire()
            &&& w.subrange(40, 48) == h.xmt@.wire()
        }),
{
    lemma_u32_round_trip(h.rootdelay@);
    lemma_u32_round_trip(h.rootdisp@);
    lemma_u64_round_trip(h.reftime@);
    lemma_u64_round_trip(h.org@);
    lemma_u64_round_trip(h.rec@);
    lemma_u64_round_trip(h.xmt@);
    lemma_layout(
        seq![first_byte(h.leap_indicator@, h.version_number@, h.mode@)],
        h.stratum.wire(),
        h.poll.wire(),
        h.precision.wire(),
        h.rootdelay.wire(),
        h.rootdisp.wire(),
        h.refid.wire(),
        h.reftime.wire(),
        h.org.wire(),
        h.rec.wire(),
        h.xmt.wire(),
    );
}

/// A wire image that holds each field of a valid header at its place reads
/// back as that header.
proof fn lemma_parse_of_layout(w: Seq<u8>, h: NtpPacketHeader)
    requires
        h.wf(),
        w.len() == 48,
        w[0] == first_byte(h.leap_indicator@, h.version_number@, h.mode@),
        w[1] == h.stratum@,
        w[2] == i8_wire_byte(h.poll@),
        w[3] == i8_wire_byte(h.precision@),
        w.subrange(4, 8) == h.rootdelay@.wire(),
        w.subrange(8, 12) == h.rootdisp@.wire(),
        w.subrange(12, 16) == h.refid@.wire(),
        w.subrange(16, 24) == h.reftime@.wire(),
        w.subrange(24, 32) == h.org@.wire(),
        w.subrange(32, 40) == h.rec@.wire(),
        w.subrange(40, 48) == h.xmt@.wire(),
    ensures
        NtpPacketHeader::parse(w) == Ok::<NtpPacketHeader, CodecError>(h),
{
    lemma_u32_round_trip(h.rootdelay@);
    lemma_u32_round_trip(h.rootdisp@);
    lemma_array_round_trip(h.refid@);
    lemma_u64_round_trip(h.reftime@);
    lemma_u64_round_trip(h.org@);
    lemma_u64_round_trip(h.rec@);
    lemma_u64_round_trip(h.xmt@);
}

/// The wire image of a valid header has 48 bytes, and reading it back gives
/// the header that was written.
pub proof fn lemma_header_round_trip(h: NtpPacketHeader)
    requires
        h.wf(),
    ensures
        h.wire().len() == NtpPacketHeader::width(),
        h.wire().len() == 48,
        NtpPacketHeader::parse(h.wire()) == Ok::<NtpPacketHeader, CodecError>(h),
{
    lemma_header_layout(h);
    lemma_parse_of_layout(h.wire(), h);
}

/// A sequence of 48 bytes is its eleven fields laid end to end.
proof fn lemma_fields_joined(w: Seq<u8>)
    requires
        w.len() == 48,
    ensures
        w == seq![w[0]] + seq![w[1]] + seq![w[2]] + seq![w[3]] + w.subrange(4, 8) + w.subrange(
            8,
            12,
        ) + w.subrange(12, 16) + w.subrange(16, 24) + w.subrange(24, 32) + w.subrange(32, 40)
            + w.subrange(40, 48),
{
    assert(w =~= seq![w[0]] + seq![w[1]] + seq![w[2]] + seq![w[3]] + w.subrange(4, 8)
        + w.subrange(8, 12) + w.subrange(12, 16) + w.subrange(16, 24) + w.subrange(24, 32)
        + w.subrange(32, 40) + w.subrange(40, 48));
}

/// Every sequence of 48 bytes reads as a valid header, and the wire image of
/// that header is the same 48 bytes: no bit of the image is lost.
pub proof fn lemma_header_wire_round_trip(w: Seq<u8>)
    requires
        w.len() == 48,
    ensures
        NtpPacketHeader::parse(w) is Ok,
        NtpPacketHeader::parse(w)->Ok_0.wf(),
        NtpPacketHeader::parse(w)->Ok_0.wire() == w,
{
    let h = NtpPacketHeader::parse(w)->Ok_0;
    let b = w[0];
    assert(b / 64 <= 3
        && b / 8 % 8 <= 7
        && b % 8 <= 7
        && (b / 64) * 64 + (b / 8 % 8) * 8 + b % 8 == b) by (bit_vector);
    assert(seq![first_byte(h.leap_indicator@, h.version_number@, h.mode@)] == seq![w[0]]);
    assert(h.stratum.wire() == seq![w[1]]);
    assert(h.poll.wire() == seq![w[2]]);
    assert(h.precision.wire() == seq![w[3]]);
    assert(h.rootdelay.wire() == w.subrange(4, 8)) by {
        lemma_u32_wire_round_trip(w.subrange(4, 8));
    }
    assert(h.rootdisp.wire() == w.subrange(8, 12)) by {
        lemma_u32_wire_round_trip(w.subrange(8, 12));
    }
    assert(h.refid.wire() == w.subrange(12, 16)) by {
        lemma_array_wire_round_trip::<4>(w.subrange(12, 16));
    }
    assert(h.reftime.wire() == w.subrange(16, 24)) by {
        lemma_u64_wire_round_trip(w.subrange(16, 24));
    }
    assert(h.org.wire() == w.subrange(24, 32)) by {
        lemma_u64_wire_round_trip(w.subrange(24, 32));
    }
    assert(h.rec.wire() == w.subrange(32, 40)) by {
        lemma_u64_wire_round_trip(w.subrange(32, 40));
    }
    assert(h.xmt.wire() == w.subrange(40, 48)) by {
        lemma_u64_wire_round_trip(w.subrange(40, 48));
    }
    lemma_fields_joined(w);
}

/// Encoding a valid header into any region of at least 48 bytes succeeds with
/// width 48, and decoding that region afterwards gives the same header back.
pub proof fn lemma_encode_then_decode(h: NtpPacketHeader, region: Seq<u8>)
    requires
        h.wf(),
        region.len() >= 48,
    ensures
        write_outcome(h.wire(), region) == Ok::<usize, CodecError>(48),
        buffer_after_write(h.wire(), region).len() == region.len(),
        read_outcome(
            NtpPacketHeader::parse(buffer_after_write(h.wire(), region).take(48)),
            NtpPacketHeader::width(),
            buffer_after_write(h.wire(), region).len(),
        ) == Ok::<(NtpPacketHeader, usize), CodecError>((h, 48)),
{
    lemma_header_round_trip(h);
    lemma_written_prefix(h.wire(), region);
}

/// Encoding a header into a region of fewer than 48 bytes fails with
/// `BufferTooSmall` and leaves the region as it was; decoding from such a
/// region fails with `BufferTooSmall` too.
pub proof fn lemma_header_short_buffer(h: NtpPacketHeader, region: Seq<u8>)
    requires
        region.len() < 48,
    ensures
        write_outcome(h.wire(), region) == Err::<usize, CodecError>(CodecError::BufferTooSmall),
        buffer_after_write(h.wire(), region) == region,
        read_outcome(
            NtpPacketHeader::parse(region.take(48)),
            NtpPacketHeader::width(),
            region.len(),
        ) == Err::<(NtpPacketHeader, usize), CodecError>(CodecError::BufferTooSmall),
{
    lemma_header_layout(h);
}

} // verus!
