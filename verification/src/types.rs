//! The value types that make up a packet header.

use crate::codec::{
    lemma_array_round_trip, lemma_i8_round_trip, lemma_u32_round_trip, lemma_u64_round_trip,
    CodecError, TryReadFromBytes, TryWriteToBytes,
};
use vstd::prelude::*;
use vstd::std_specs::convert::{FromSpecImpl, TryFromSpecImpl};

verus! {

/// Two-bit leap indicator: a number from 0 to 3.
#[derive(Debug, Clone, Copy, PartialEq, Eq, Structural)]
pub struct Leap(pub(crate) u8);

impl Leap {
    /// The number that the indicator carries.
    pub open(crate) spec fn view(&self) -> u8 {
        self.0
    }

    /// The indicator that carries `v`.
    pub open(crate) spec fn of(v: u8) -> Leap {
        Leap(v)
    }

    /// The number fits in two bits.
    #[verifier::type_invariant]
    pub open(crate) spec fn wf(&self) -> bool {
        self.0 <= 3
    }
}

impl TryFrom<u8> for Leap {
    type Error = CodecError;

    /// Accepts the numbers from 0 to 3 and rejects every other one as
    /// out of range.
    fn try_from(value: u8) -> (r: Result<Self, CodecError>) {
        if value > 3 {
            return Err(CodecError::ValueOutOfRange);
        }
        Ok(Self(value))
    }
}

impl TryFromSpecImpl<u8> for Leap {
    open spec fn obeys_try_from_spec() -> bool {
        true
    }

    open spec fn try_from_spec(v: u8) -> Result<Self, CodecError> {
        if v > 3 {
            Err(CodecError::ValueOutOfRange)
        } else {
            Ok(Leap::of(v))
        }
    }
}

impl From<Leap> for u8 {
    fn from(value: Leap) -> (r: u8)
        ensures
            r <= 3,
    {
        proof {
            use_type_invariant(&value);
        }
        value.0
    }
}

impl FromSpecImpl<Leap> for u8 {
    open spec fn obeys_from_spec() -> bool {
        true
    }

    open spec fn from_spec(v: Leap) -> u8 {
        v@
    }
}

/// No leap second is announced.
pub fn ntp_leap_no_warning() -> (r: Leap)
    ensures
        r@ == 0,
{
    Leap(0)
}

/// The last minute of the day has 61 seconds.
pub fn ntp_leap_last_minute_has_61_seconds() -> (r: Leap)
    ensures
        r@ == 1,
{
    Leap(1)
}

/// The last minute of the day has 59 seconds.
pub fn ntp_leap_last_minute_has_59_seconds() -> (r: Leap)
    ensures
        r@ == 2,
{
    Leap(2)
}

/// The clock is not synchronized.
pub fn ntp_leap_unknown() -> (r: Leap)
    ensures
        r@ == 3,
{
    Leap(3)
}

/// Three-bit protocol version: a number from 0 to 7.
#[derive(Debug, Clone, Copy, PartialEq, Eq, Structural)]
pub struct Version(pub(crate) u8);

impl Version {
    /// The number that the version carries.
    pub open(crate) spec fn view(&self) -> u8 {
        self.0
    }

    /// The version that carries `v`.
    pub open(crate) spec fn of(v: u8) -> Version {
        Version(v)
    }

    /// The number fits in three bits.
    #[verifier::type_invariant]
    pub open(crate) spec fn wf(&self) -> bool {
        self.0 <= 7
    }
}

impl TryFrom<u8> for Version {
    type Error = CodecError;

    /// Accepts the numbers from 0 to 7 and rejects every other one as
    /// out of range.
    fn try_from(value: u8) -> (r: Result<Self, CodecError>) {
        if value > 7 {
            return Err(CodecError::ValueOutOfRange);
        }
        Ok(Self(value))
    }
}

impl TryFromSpecImpl<u8> for Version {
    open spec fn obeys_try_from_spec() -> bool {
        true
    }

    open spec fn try_from_spec(v: u8) -> Result<Self, CodecError> {
        if v > 7 {
            Err(CodecError::ValueOutOfRange)
        } else {
            Ok(Version::of(v))
        }
    }
}

impl From<Version> for u8 {
    fn from(value: Version) -> (r: u8)
        ensures
            r <= 7,
    {
        proof {
            use_type_invariant(&value);
        }
        value.0
    }
}

impl FromSpecImpl<Version> for u8 {
    open spec fn obeys_from_spec() -> bool {
        true
    }

    open spec fn from_spec(v: Version) -> u8 {
        v@
    }
}

/// Version 4, the current one.
pub fn ntp_version_4() -> (r: Version)
    ensures
        r@ == 4,
{
    Version(4)
}

/// Three-bit association mode: a number from 0 to 7.
#[derive(Debug, Clone, Copy, PartialEq, Eq, Structural)]
pub struct Mode(pub(crate) u8);

impl Mode {
    /// The number that the mode carries.
    pub open(crate) spec fn view(&self) -> u8 {
        self.0
    }

    /// The mode that carries `v`.
    pub open(crate) spec fn of(v: u8) -> Mode {
        Mode(v)
    }

    /// The number fits in three bits.
    #[verifier::type_invariant]
    pub open(crate) spec fn wf(&self) -> bool {
        self.0 <= 7
    }
}

impl TryFrom<u8> for Mode {
    type Error = CodecError;

    /// Accepts the numbers from 0 to 7 and rejects every other one as
    /// out of range.
    fn try_from(value: u8) -> (r: Result<Self, CodecError>) {
        if value > 7 {
            return Err(CodecError::ValueOutOfRange);
        }
        Ok(Self(value))
    }
}

impl TryFromSpecImpl<u8> for Mode {
    open spec fn obeys_try_from_spec() -> bool {
        true
    }

    open spec fn try_from_spec(v: u8) -> Result<Self, CodecError> {
        if v > 7 {
            Err(CodecError::ValueOutOfRange)
        } else {
            Ok(Mode::of(v))
        }
    }
}

impl From<Mode> for u8 {
    fn from(value: Mode) -> (r: u8)
        ensures
            r <= 7,
    {
        proof {
            use_type_invariant(&value);
        }
        value.0
    }
}

impl FromSpecImpl<Mode> for u8 {
    open spec fn obeys_from_spec() -> bool {
        true
    }

    open spec fn from_spec(v: Mode) -> u8 {
        v@
    }
}

/// Reserved.
pub fn ntp_mode_reserved() -> (r: Mode)
    ensures
        r@ == 0,
{
    Mode(0)
}

/// Symmetric active.
pub fn ntp_mode_symmetric_active() -> (r: Mode)
    ensures
        r@ == 1,
{
    Mode(1)
}

/// Symmetric passive.
pub fn ntp_mode_symmetric_passive() -> (r: Mode)
    ensures
        r@ == 2,
{
    Mode(2)
}

/// Client.
pub fn ntp_mode_client() -> (r: Mode)
    ensures
        r@ == 3,
{
    Mode(3)
}

/// Server.
pub fn ntp_mode_server() -> (r: Mode)
    ensures
        r@ == 4,
{
    Mode(4)
}

/// Broadcast.
pub fn ntp_mode_broadcast() -> (r: Mode)
    ensures
        r@ == 5,
{
    Mode(5)
}

/// Control message.
pub fn ntp_mode_control_message() -> (r: Mode)
    ensures
        r@ == 6,
{
    Mode(6)
}

/// Reserved for private use.
pub fn ntp_mode_reserved_for_private_use() -> (r: Mode)
    ensures
        r@ == 7,
{
    Mode(7)
}

/// Distance from the reference clock, in hops; every 8-bit number is
/// valid.
#[derive(Debug, Clone, Copy, PartialEq, Eq, Structural)]
pub struct Stratum(pub(crate) u8);

impl Stratum {
    /// The number that the value carries.
    pub open(crate) spec fn view(&self) -> u8 {
        self.0
    }

    /// The value that carries `v`.
    pub open(crate) spec fn of(v: u8) -> Stratum {
        Stratum(v)
    }
}

impl From<u8> for Stratum {
    fn from(value: u8) -> (r: Stratum) {
        Self(value)
    }
}

impl FromSpecImpl<u8> for Stratum {
    open spec fn obeys_from_spec() -> bool {
        true
    }

    open spec fn from_spec(v: u8) -> Stratum {
        Stratum::of(v)
    }
}

impl From<Stratum> for u8 {
    fn from(value: Stratum) -> (r: u8) {
        value.0
    }
}

impl FromSpecImpl<Stratum> for u8 {
    open spec fn obeys_from_spec() -> bool {
        true
    }

    open spec fn from_spec(v: Stratum) -> u8 {
        v@
    }
}

impl TryWriteToBytes for Stratum {
    open spec fn wire(&self) -> Seq<u8> {
        self@.wire()
    }

    fn try_write_to_bytes(&self, bytes: &mut [u8]) -> (r: Result<usize, CodecError>) {
        self.0.try_write_to_bytes(bytes)
    }
}

impl<'a> TryReadFromBytes<'a> for Stratum {
    open spec fn width() -> nat {
        1
    }

    open spec fn parse(wire: Seq<u8>) -> Result<Self, CodecError> {
        match u8::parse(wire) {
            Ok(v) => Ok(Stratum::of(v)),
            Err(e) => Err(e),
        }
    }

    fn try_read_from_bytes(bytes: &'a [u8]) -> (r: Result<(Self, usize), CodecError>) {
        let (value, size) = u8::try_read_from_bytes(bytes)?;
        Ok((Self(value), size))
    }
}

/// A stratum read back from its wire image is the one that was written.
pub proof fn lemma_stratum_round_trip(x: Stratum)
    ensures
        x.wire().len() == Stratum::width(),
        Stratum::parse(x.wire()) == Ok::<Stratum, CodecError>(x),
{
}

/// Polling interval as a signed base-2 exponent of seconds.
#[derive(Debug, Clone, Copy, PartialEq, Eq, Structural)]
pub struct Poll(pub(crate) i8);

impl Poll {
    /// The exponent that the value carries.
    pub open(crate) spec fn view(&self) -> i8 {
        self.0
    }

    /// The value that carries `v`.
    pub open(crate) spec fn of(v: i8) -> Poll {
        Poll(v)
    }
}

impl From<i8> for Poll {
    fn from(value: i8) -> (r: Poll) {
        Self(value)
    }
}

impl FromSpecImpl<i8> for Poll {
    open spec fn obeys_from_spec() -> bool {
        true
    }

    open spec fn from_spec(v: i8) -> Poll {
        Poll::of(v)
    }
}

impl From<Poll> for i8 {
    fn from(value: Poll) -> (r: i8) {
        value.0
    }
}

impl FromSpecImpl<Poll> for i8 {
    open spec fn obeys_from_spec() -> bool {
        true
    }

    open spec fn from_spec(v: Poll) -> i8 {
        v@
    }
}

impl TryWriteToBytes for Poll {
    open spec fn wire(&self) -> Seq<u8> {
        self@.wire()
    }

    fn try_write_to_bytes(&self, bytes: &mut [u8]) -> (r: Result<usize, CodecError>) {
        self.0.try_write_to_bytes(bytes)
    }
}

impl<'a> TryReadFromBytes<'a> for Poll {
    open spec fn width() -> nat {
        1
    }

    open spec fn parse(wire: Seq<u8>) -> Result<Self, CodecError> {
        match i8::parse(wire) {
            Ok(v) => Ok(Poll::of(v)),
            Err(e) => Err(e),
        }
    }

    fn try_read_from_bytes(bytes: &'a [u8]) -> (r: Result<(Self, usize), CodecError>) {
        let (value, size) = i8::try_read_from_bytes(bytes)?;
        Ok((Self(value), size))
    }
}

/// A poll exponent read back from its wire image is the one that was
/// written.
pub proof fn lemma_poll_round_trip(x: Poll)
    ensures
        x.wire().len() == Poll::width(),
        Poll::parse(x.wire()) == Ok::<Poll, CodecError>(x),
{
    lemma_i8_round_trip(x@);
}

/// Clock precision as a signed base-2 exponent of seconds.
#[derive(Debug, Clone, Copy, PartialEq, Eq, Structural)]
pub struct Precision(pub(crate) i8);

impl Precision {
    /// The exponent that the value carries.
    pub open(crate) spec fn view(&self) -> i8 {
        self.0
    }

    /// The value that carries `v`.
    pub open(crate) spec fn of(v: i8) -> Precision {
        Precision(v)
    }
}

impl From<i8> for Precision {
    fn from(value: i8) -> (r: Precision) {
        Self(value)
    }
}

impl FromSpecImpl<i8> for Precision {
    open spec fn obeys_from_spec() -> bool {
        true
    }

    open spec fn from_spec(v: i8) -> Precision {
        Precision::of(v)
    }
}

impl From<Precision> for i8 {
    fn from(value: Precision) -> (r: i8) {
        value.0
    }
}

impl FromSpecImpl<Precision> for i8 {
    open spec fn obeys_from_spec() -> bool {
        true
    }

    open spec fn from_spec(v: Precision) -> i8 {
        v@
    }
}

impl TryWriteToBytes for Precision {
    open spec fn wire(&self) -> Seq<u8> {
        self@.wire()
    }

    fn try_write_to_bytes(&self, bytes: &mut [u8]) -> (r: Result<usize, CodecError>) {
        self.0.try_write_to_bytes(bytes)
    }
}

impl<'a> TryReadFromBytes<'a> for Precision {
    open spec fn width() -> nat {
        1
    }

    open spec fn parse(wire: Seq<u8>) -> Result<Self, CodecError> {
        match i8::parse(wire) {
            Ok(v) => Ok(Precision::of(v)),
            Err(e) => Err(e),
        }
    }

    fn try_read_from_bytes(bytes: &'a [u8]) -> (r: Result<(Self, usize), CodecError>) {
        let (value, size) = i8::try_read_from_bytes(bytes)?;
        Ok((Self(value), size))
    }
}

/// A precision exponent read back from its wire image is the one that was
/// written.
pub proof fn lemma_precision_round_trip(x: Precision)
    ensures
        x.wire().len() == Precision::width(),
        Precision::parse(x.wire()) == Ok::<Precision, CodecError>(x),
{
    lemma_i8_round_trip(x@);
}

/// Four opaque bytes that identify the reference.
#[derive(Debug, Clone, Copy, PartialEq, Eq)]
pub struct RefId(pub(crate) [u8; 4]);

impl RefId {
    /// The bytes that the value carries.
    pub open(crate) spec fn view(&self) -> [u8; 4] {
        self.0
    }

    /// The value that carries `v`.
    pub open(crate) spec fn of(v: [u8; 4]) -> RefId {
        RefId(v)
    }
}

impl TryWriteToBytes for RefId {
    open spec fn wire(&self) -> Seq<u8> {
        self@.wire()
    }

    fn try_write_to_bytes(&self, bytes: &mut [u8]) -> (r: Result<usize, CodecError>) {
        self.0.try_write_to_bytes(bytes)
    }
}

impl<'a> TryReadFromBytes<'a> for RefId {
    open spec fn width() -> nat {
        4
    }

    open spec fn parse(wire: Seq<u8>) -> Result<Self, CodecError> {
        match <[u8; 4]>::parse(wire) {
            Ok(v) => Ok(RefId::of(v)),
            Err(e) => Err(e),
        }
    }

    fn try_read_from_bytes(bytes: &'a [u8]) -> (r: Result<(Self, usize), CodecError>) {
        let (value, size) = <[u8; 4]>::try_read_from_bytes(bytes)?;
        Ok((Self(value), size))
    }
}

/// A reference identifier read back from its wire image is the one that was
/// written.
pub proof fn lemma_ref_id_round_trip(x: RefId)
    ensures
        x.wire().len() == RefId::width(),
        RefId::parse(x.wire()) == Ok::<RefId, CodecError>(x),
{
    lemma_array_round_trip(x@);
}

impl From<[u8; 4]> for RefId {
    fn from(value: [u8; 4]) -> (r: RefId) {
        Self(value)
    }
}

impl FromSpecImpl<[u8; 4]> for RefId {
    open spec fn obeys_from_spec() -> bool {
        true
    }

    open spec fn from_spec(v: [u8; 4]) -> RefId {
        RefId::of(v)
    }
}

impl From<RefId> for [u8; 4] {
    fn from(value: RefId) -> (r: [u8; 4]) {
        value.0
    }
}

impl FromSpecImpl<RefId> for [u8; 4] {
    open spec fn obeys_from_spec() -> bool {
        true
    }

    open spec fn from_spec(v: RefId) -> [u8; 4] {
        v@
    }
}

/// Sixteen opaque bytes of a message digest.
#[derive(Debug, Clone, Copy, PartialEq, Eq)]
pub struct Digest(pub(crate) [u8; 16]);

impl Digest {
    /// The bytes that the value carries.
    pub open(crate) spec fn view(&self) -> [u8; 16] {
        self.0
    }

    /// The value that carries `v`.
    pub open(crate) spec fn of(v: [u8; 16]) -> Digest {
        Digest(v)
    }
}

impl From<[u8; 16]> for Digest {
    fn from(value: [u8; 16]) -> (r: Digest) {
        Self(value)
    }
}

impl FromSpecImpl<[u8; 16]> for Digest {
    open spec fn obeys_from_spec() -> bool {
        true
    }

    open spec fn from_spec(v: [u8; 16]) -> Digest {
        Digest::of(v)
    }
}

impl From<Digest> for [u8; 16] {
    fn from(value: Digest) -> (r: [u8; 16]) {
        value.0
    }
}

impl FromSpecImpl<Digest> for [u8; 16] {
    open spec fn obeys_from_spec() -> bool {
        true
    }

    open spec fn from_spec(v: Digest) -> [u8; 16] {
        v@
    }
}

impl TryWriteToBytes for Digest {
    open spec fn wire(&self) -> Seq<u8> {
        self@.wire()
    }

    fn try_write_to_bytes(&self, bytes: &mut [u8]) -> (r: Result<usize, CodecError>) {
        self.0.try_write_to_bytes(bytes)
    }
}

/// Short fixed-point duration: 16 bits of seconds above 16 bits of
/// fraction.
#[derive(Debug, Clone, Copy, PartialEq, Eq, Structural)]
pub struct NtpShort(pub(crate) u32);

impl NtpShort {
    /// The 32-bit pattern that the value carries.
    pub open(crate) spec fn view(&self) -> u32 {
        self.0
    }

    /// The value that carries `v`.
    pub open(crate) spec fn of(v: u32) -> NtpShort {
        NtpShort(v)
    }
}

impl From<NtpShort> for u32 {
    fn from(value: NtpShort) -> (r: u32) {
        value.0
    }
}

impl FromSpecImpl<NtpShort> for u32 {
    open spec fn obeys_from_spec() -> bool {
        true
    }

    open spec fn from_spec(v: NtpShort) -> u32 {
        v@
    }
}

impl TryWriteToBytes for NtpShort {
    open spec fn wire(&self) -> Seq<u8> {
        self@.wire()
    }

    fn try_write_to_bytes(&self, bytes: &mut [u8]) -> (r: Result<usize, CodecError>) {
        self.0.try_write_to_bytes(bytes)
    }
}

impl<'a> TryReadFromBytes<'a> for NtpShort {
    open spec fn width() -> nat {
        4
    }

    open spec fn parse(wire: Seq<u8>) -> Result<Self, CodecError> {
        match u32::parse(wire) {
            Ok(v) => Ok(NtpShort::of(v)),
            Err(e) => Err(e),
        }
    }

    fn try_read_from_bytes(bytes: &'a [u8]) -> (r: Result<(Self, usize), CodecError>) {
        let (value, size) = u32::try_read_from_bytes(bytes)?;
        Ok((Self(value), size))
    }
}

/// A short fixed-point value read back from its wire image is the one that was
/// written.
pub proof fn lemma_ntp_short_round_trip(x: NtpShort)
    ensures
        x.wire().len() == NtpShort::width(),
        NtpShort::parse(x.wire()) == Ok::<NtpShort, CodecError>(x),
{
    lemma_u32_round_trip(x@);
}

impl NtpShort {
    /// Packs whole seconds and a fraction in units of 1/65536 second.
    pub fn new(seconds: u16, fraction: u16) -> (r: Self)
        ensures
            r@ == seconds * 0x1_0000 + fraction,
    {
        let bits: u32 = ((seconds as u32) << 16) | (fraction as u32);
        proof {
            assert(bits == seconds * 0x1_0000 + fraction) by (bit_vector)
                requires
                    bits == ((seconds as u32) << 16) | (fraction as u32),
            ;
        }
        Self(bits)
    }
}

/// Fixed-point timestamp: 32 bits of seconds since 1900-01-01 above 32 bits
/// of fraction.
#[derive(Debug, Clone, Copy, PartialEq, Eq, Structural)]
pub struct NtpTimestamp(pub(crate) u64);

impl NtpTimestamp {
    /// The 64-bit pattern that the value carries.
    pub open(crate) spec fn view(&self) -> u64 {
        self.0
    }

    /// The value that carries `v`.
    pub open(crate) spec fn of(v: u64) -> NtpTimestamp {
        NtpTimestamp(v)
    }
}

impl NtpTimestamp {
    /// Packs whole seconds and a fraction in units of 1/2^32 second.
    pub fn new(seconds: u32, fraction: u32) -> (r: Self)
        ensures
            r@ == seconds * 0x1_0000_0000 + fraction,
    {
        let bits: u64 = ((seconds as u64) << 32) | (fraction as u64);
        proof {
            assert(bits == seconds * 0x1_0000_0000 + fraction) by (bit_vector)
                requires
                    bits == ((seconds as u64) << 32) | (fraction as u64),
            ;
        }
        Self(bits)
    }
}

impl From<NtpTimestamp> for u64 {
    fn from(value: NtpTimestamp) -> (r: u64) {
        value.0
    }
}

impl FromSpecImpl<NtpTimestamp> for u64 {
    open spec fn obeys_from_spec() -> bool {
        true
    }

    open spec fn from_spec(v: NtpTimestamp) -> u64 {
        v@
    }
}

impl TryWriteToBytes for NtpTimestamp {
    open spec fn wire(&self) -> Seq<u8> {
        self@.wire()
    }

    fn try_write_to_bytes(&self, bytes: &mut [u8]) -> (r: Result<usize, CodecError>) {
        self.0.try_write_to_bytes(bytes)
    }
}

impl<'a> TryReadFromBytes<'a> for NtpTimestamp {
    open spec fn width() -> nat {
        8
    }

    open spec fn parse(wire: Seq<u8>) -> Result<Self, CodecError> {
        match u64::parse(wire) {
            Ok(v) => Ok(NtpTimestamp::of(v)),
            Err(e) => Err(e),
        }
    }

    fn try_read_from_bytes(bytes: &'a [u8]) -> (r: Result<(Self, usize), CodecError>) {
        let (value, size) = u64::try_read_from_bytes(bytes)?;
        Ok((Self(value), size))
    }
}

/// A timestamp read back from its wire image is the one that was written.
pub proof fn lemma_ntp_timestamp_round_trip(x: NtpTimestamp)
    ensures
        x.wire().len() == NtpTimestamp::width(),
        NtpTimestamp::parse(x.wire()) == Ok::<NtpTimestamp, CodecError>(x),
{
    lemma_u64_round_trip(x@);
}

/// A date as an era, an offset within the era and a fraction of a second.
#[derive(Debug, Clone, Copy, PartialEq, Eq, Structural)]
pub struct NtpDate {
    era_number: u32,
    era_offset: u32,
    fraction: u64,
}

} // verus!
