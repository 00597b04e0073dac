//! Big-endian wire codec for fixed-width integers and byte arrays.

use vstd::prelude::*;

verus! {

/// Why an encode or decode step failed.
#[derive(Debug, Clone, Copy, PartialEq, Eq, Structural)]
pub enum CodecError {
    /// The byte region is shorter than the fixed width of the value.
    BufferTooSmall,
    /// A field holds a number that its bit width cannot carry.
    ValueOutOfRange,
}

/// What a write of `wire` into a region holding `buf` returns: the width of
/// the value when it fits, `BufferTooSmall` otherwise.
pub open spec fn write_outcome(wire: Seq<u8>, buf: Seq<u8>) -> Result<usize, CodecError> {
    if buf.len() < wire.len() {
        Err(CodecError::BufferTooSmall)
    } else {
        Ok(wire.len() as usize)
    }
}

/// What a region holding `buf` holds after a write of `wire`: the wire image
/// followed by the untouched rest when it fits, `buf` as it was otherwise.
pub open spec fn buffer_after_write(wire: Seq<u8>, buf: Seq<u8>) -> Seq<u8> {
    if buf.len() < wire.len() {
        buf
    } else {
        wire + buf.skip(wire.len() as int)
    }
}

/// A value with a fixed-width wire image that can be written at the start of
/// a byte region.
pub trait TryWriteToBytes {
    /// The wire image of the value.
    spec fn wire(&self) -> Seq<u8>;

    /// Writes the wire image at offset 0 of `bytes` and returns its width.
    /// A region that is too short is left as it was.
    fn try_write_to_bytes(&self, bytes: &mut [u8]) -> (r: Result<usize, CodecError>)
        ensures
            r == write_outcome(self.wire(), old(bytes)@),
            final(bytes)@ == buffer_after_write(self.wire(), old(bytes)@),
    ;
}

/// A value that can be read from the start of a byte region.
pub trait TryReadFromBytes<'a>: Sized {
    /// The number of bytes a value of this type occupies on the wire.
    spec fn width() -> nat;

    /// The value that a wire image of exactly `width()` bytes stands for.
    spec fn parse(wire: Seq<u8>) -> Result<Self, CodecError>;

    /// Reads a value from offset 0 of `bytes` and returns it with its width.
    fn try_read_from_bytes(bytes: &'a [u8]) -> (r: Result<(Self, usize), CodecError>)
        ensures
            r == read_outcome(
                Self::parse(bytes@.take(Self::width() as int)),
                Self::width(),
                bytes@.len(),
            ),
    ;
}

/// What a read returns from a region of `len` bytes, for a type of the given
/// width whose leading bytes parse as `parsed`.
pub open spec fn read_outcome<T>(parsed: Result<T, CodecError>, width: nat, len: nat) -> Result<
    (T, usize),
    CodecError,
> {
    if len < width {
        Err(CodecError::BufferTooSmall)
    } else {
        match parsed {
            Ok(v) => Ok((v, width as usize)),
            Err(e) => Err(e),
        }
    }
}

impl TryWriteToBytes for u8 {
    open spec fn wire(&self) -> Seq<u8> {
        seq![*self]
    }

    fn try_write_to_bytes(&self, bytes: &mut [u8]) -> (r: Result<usize, CodecError>) {
        if bytes.len() < 1 {
            return Err(CodecError::BufferTooSmall);
        }
        bytes[0] = *self;
        proof {
            assert(bytes@ =~= self.wire() + old(bytes)@.skip(1));
        }
        Ok(1)
    }
}

impl<'a> TryReadFromBytes<'a> for u8 {
    open spec fn width() -> nat {
        1
    }

    open spec fn parse(wire: Seq<u8>) -> Result<Self, CodecError> {
        Ok(wire[0])
    }

    fn try_read_from_bytes(bytes: &'a [u8]) -> (r: Result<(Self, usize), CodecError>) {
        if bytes.len() < 1 {
            return Err(CodecError::BufferTooSmall);
        }
        Ok((bytes[0], 1))
    }
}

/// The byte that carries a signed 8-bit number in two's complement.
pub open spec fn i8_wire_byte(x: i8) -> u8 {
    if x < 0 {
        (x + 256) as u8
    } else {
        x as u8
    }
}

/// The signed 8-bit number that a byte carries in two's complement.
pub open spec fn i8_of_wire_byte(b: u8) -> i8 {
    if b >= 128 {
        (b - 256) as i8
    } else {
        b as i8
    }
}

impl TryWriteToBytes for i8 {
    open spec fn wire(&self) -> Seq<u8> {
        seq![i8_wire_byte(*self)]
    }

    fn try_write_to_bytes(&self, bytes: &mut [u8]) -> (r: Result<usize, CodecError>) {
        if bytes.len() < 1 {
            return Err(CodecError::BufferTooSmall);
        }
        let x: i8 = *self;
        let b: u8 = #[verifier::truncate] (x as u8);
        proof {
            assert(b == i8_wire_byte(x)) by (bit_vector)
                requires
                    b == x as u8,
            ;
        }
        bytes[0] = b;
        proof {
            assert(bytes@ =~= self.wire() + old(bytes)@.skip(1));
        }
        Ok(1)
    }
}

impl<'a> TryReadFromBytes<'a> for i8 {
    open spec fn width() -> nat {
        1
    }

    open spec fn parse(wire: Seq<u8>) -> Result<Self, CodecError> {
        Ok(i8_of_wire_byte(wire[0]))
    }

    fn try_read_from_bytes(bytes: &'a [u8]) -> (r: Result<(Self, usize), CodecError>) {
        if bytes.len() < 1 {
            return Err(CodecError::BufferTooSmall);
        }
        let b: u8 = bytes[0];
        let x: i8 = #[verifier::truncate] (b as i8);
        proof {
            assert(x == i8_of_wire_byte(b)) by (bit_vector)
                requires
                    x == b as i8,
            ;
        }
        Ok((x, 1))
    }
}

/// Big-endian wire image of a 16-bit number: most significant byte first.
#[verifier::opaque]
pub open spec fn u16_wire(x: u16) -> Seq<u8> {
    seq![(x / 0x100) as u8, (x % 0x100) as u8]
}

/// The 16-bit number whose big-endian wire image starts `wire`.
#[verifier::opaque]
pub open spec fn u16_of_wire(wire: Seq<u8>) -> u16 {
    (wire[0] * 0x100 + wire[1]) as u16
}

impl TryWriteToBytes for u16 {
    open spec fn wire(&self) -> Seq<u8> {
        u16_wire(*self)
    }

    fn try_write_to_bytes(&self, bytes: &mut [u8]) -> (r: Result<usize, CodecError>) {
        proof {
            reveal(u16_wire);
        }
        if bytes.len() < 2 {
            return Err(CodecError::BufferTooSmall);
        }
        let x: u16 = *self;
        let b0: u8 = #[verifier::truncate] ((x >> 8) as u8);
        let b1: u8 = #[verifier::truncate] (x as u8);
        proof {
            assert(b0 == (x / 0x100) as u8 && b1 == (x % 0x100) as u8) by (bit_vector)
                requires
                    b0 == (x >> 8) as u8,
                    b1 == x as u8,
            ;
        }
        bytes[0] = b0;
        bytes[1] = b1;
        proof {
            assert(bytes@ =~= self.wire() + old(bytes)@.skip(2));
        }
        Ok(2)
    }
}

impl<'a> TryReadFromBytes<'a> for u16 {
    open spec fn width() -> nat {
        2
    }

    open spec fn parse(wire: Seq<u8>) -> Result<Self, CodecError> {
        Ok(u16_of_wire(wire))
    }

    fn try_read_from_bytes(bytes: &'a [u8]) -> (r: Result<(Self, usize), CodecError>) {
        if bytes.len() < 2 {
            return Err(CodecError::BufferTooSmall);
        }
        let b0: u8 = bytes[0];
        let b1: u8 = bytes[1];
        let value: u16 = ((b0 as u16) << 8) | (b1 as u16);
        proof {
            reveal(u16_of_wire);
            assert(value == b0 * 0x100 + b1) by (bit_vector)
                requires
                    value == ((b0 as u16) << 8) | (b1 as u16),
            ;
        }
        Ok((value, 2))
    }
}

/// The unsigned 16-bit number with the two's-complement bits of `x`.
pub open spec fn i16_bits(x: i16) -> u16 {
    if x < 0 {
        (x + 0x1_0000) as u16
    } else {
        x as u16
    }
}

/// The signed 16-bit number with the two's-complement bits of `u`.
pub open spec fn i16_of_bits(u: u16) -> i16 {
    if u >= 0x8000 {
        (u - 0x1_0000) as i16
    } else {
        u as i16
    }
}

impl TryWriteToBytes for i16 {
    open spec fn wire(&self) -> Seq<u8> {
        u16_wire(i16_bits(*self))
    }

    fn try_write_to_bytes(&self, bytes: &mut [u8]) -> (r: Result<usize, CodecError>) {
        let x: i16 = *self;
        let u: u16 = #[verifier::truncate] (x as u16);
        proof {
            assert(u == i16_bits(x)) by (bit_vector)
                requires
                    u == x as u16,
            ;
        }
        u.try_write_to_bytes(bytes)
    }
}

impl<'a> TryReadFromBytes<'a> for i16 {
    open spec fn width() -> nat {
        2
    }

    open spec fn parse(wire: Seq<u8>) -> Result<Self, CodecError> {
        Ok(i16_of_bits(u16_of_wire(wire)))
    }

    fn try_read_from_bytes(bytes: &'a [u8]) -> (r: Result<(Self, usize), CodecError>) {
        match u16::try_read_from_bytes(bytes) {
            Ok((u, size)) => {
                let x: i16 = #[verifier::truncate] (u as i16);
                proof {
                    assert(x == i16_of_bits(u)) by (bit_vector)
                        requires
                            x == u as i16,
                    ;
                }
                Ok((x, size))
            },
            Err(e) => Err(e),
        }
    }
}

/// Big-endian wire image of a 32-bit number: most significant byte first.
#[verifier::opaque]
pub open spec fn u32_wire(x: u32) -> Seq<u8> {
    seq![
        (x / 0x100_0000) as u8,
        (x / 0x1_0000 % 0x100) as u8,
        (x / 0x100 % 0x100) as u8,
        (x % 0x100) as u8,
    ]
}

/// The 32-bit number whose big-endian wire image starts `wire`.
#[verifier::opaque]
pub open spec fn u32_of_wire(wire: Seq<u8>) -> u32 {
    (wire[0] * 0x100_0000 + wire[1] * 0x1_0000 + wire[2] * 0x100 + wire[3]) as u32
}

impl TryWriteToBytes for u32 {
    open spec fn wire(&self) -> Seq<u8> {
        u32_wire(*self)
    }

    fn try_write_to_bytes(&self, bytes: &mut [u8]) -> (r: Result<usize, CodecError>) {
        proof {
            reveal(u32_wire);
        }
        if bytes.len() < 4 {
            return Err(CodecError::BufferTooSmall);
        }
        let x: u32 = *self;
        let b0: u8 = #[verifier::truncate] ((x >> 24) as u8);
        let b1: u8 = #[verifier::truncate] ((x >> 16) as u8);
        let b2: u8 = #[verifier::truncate] ((x >> 8) as u8);
        let b3: u8 = #[verifier::truncate] (x as u8);
        proof {
            assert(b0 == (x / 0x100_0000) as u8
                && b1 == (x / 0x1_0000 % 0x100) as u8
                && b2 == (x / 0x100 % 0x100) as u8
                && b3 == (x % 0x100) as u8) by (bit_vector)
                requires
                    b0 == (x >> 24) as u8,
                    b1 == (x >> 16) as u8,
                    b2 == (x >> 8) as u8,
                    b3 == x as u8,
            ;
        }
        bytes[0] = b0;
        bytes[1] = b1;
        bytes[2] = b2;
        bytes[3] = b3;
        proof {
            assert(bytes@ =~= self.wire() + old(bytes)@.skip(4));
        }
        Ok(4)
    }
}

impl<'a> TryReadFromBytes<'a> for u32 {
    open spec fn width() -> nat {
        4
    }

    open spec fn parse(wire: Seq<u8>) -> Result<Self, CodecError> {
        Ok(u32_of_wire(wire))
    }

    fn try_read_from_bytes(bytes: &'a [u8]) -> (r: Result<(Self, usize), CodecError>) {
        if bytes.len() < 4 {
            return Err(CodecError::BufferTooSmall);
        }
        let b0: u8 = bytes[0];
        let b1: u8 = bytes[1];
        let b2: u8 = bytes[2];
        let b3: u8 = bytes[3];
        let value: u32 = ((b0 as u32) << 24)
            | ((b1 as u32) << 16)
            | ((b2 as u32) << 8)
            | (b3 as u32);
        proof {
            reveal(u32_of_wire);
            assert(value == b0 * 0x100_0000 + b1 * 0x1_0000 + b2 * 0x100 + b3) by (bit_vector)
                requires
                    value == ((b0 as u32) << 24)
                        | ((b1 as u32) << 16)
                        | ((b2 as u32) << 8)
                        | (b3 as u32),
            ;
        }
        Ok((value, 4))
    }
}

/// The unsigned 32-bit number with the two's-complement bits of `x`.
pub open spec fn i32_bits(x: i32) -> u32 {
    if x < 0 {
        (x + 0x1_0000_0000) as u32
    } else {
        x as u32
    }
}

/// The signed 32-bit number with the two's-complement bits of `u`.
pub open spec fn i32_of_bits(u: u32) -> i32 {
    if u >= 0x8000_0000 {
        (u - 0x1_0000_0000) as i32
    } else {
        u as i32
    }
}

impl TryWriteToBytes for i32 {
    open spec fn wire(&self) -> Seq<u8> {
        u32_wire(i32_bits(*self))
    }

    fn try_write_to_bytes(&self, bytes: &mut [u8]) -> (r: Result<usize, CodecError>) {
        let x: i32 = *self;
        let u: u32 = #[verifier::truncate] (x as u32);
        proof {
            assert(u == i32_bits(x)) by (bit_vector)
                requires
                    u == x as u32,
            ;
        }
        u.try_write_to_bytes(bytes)
    }
}

impl<'a> TryReadFromBytes<'a> for i32 {
    open spec fn width() -> nat {
        4
    }

    open spec fn parse(wire: Seq<u8>) -> Result<Self, CodecError> {
        Ok(i32_of_bits(u32_of_wire(wire)))
    }

    fn try_read_from_bytes(bytes: &'a [u8]) -> (r: Result<(Self, usize), CodecError>) {
        match u32::try_read_from_bytes(bytes) {
            Ok((u, size)) => {
                let x: i32 = #[verifier::truncate] (u as i32);
                proof {
                    assert(x == i32_of_bits(u)) by (bit_vector)
                        requires
                            x == u as i32,
                    ;
                }
                Ok((x, size))
            },
            Err(e) => Err(e),
        }
    }
}

/// Big-endian wire image of a 64-bit number: most significant byte first.
#[verifier::opaque]
pub open spec fn u64_wire(x: u64) -> Seq<u8> {
    seq![
        (x / 0x100_0000_0000_0000) as u8,
        (x / 0x1_0000_0000_0000 % 0x100) as u8,
        (x / 0x100_0000_0000 % 0x100) as u8,
        (x / 0x1_0000_0000 % 0x100) as u8,
        (x / 0x100_0000 % 0x100) as u8,
        (x / 0x1_0000 % 0x100) as u8,
        (x / 0x100 % 0x100) as u8,
        (x % 0x100) as u8,
    ]
}

/// The 64-bit number whose big-endian wire image starts `wire`.
#[verifier::opaque]
pub open spec fn u64_of_wire(wire: Seq<u8>) -> u64 {
    (wire[0] * 0x100_0000_0000_0000
        + wire[1] * 0x1_0000_0000_0000
        + wire[2] * 0x100_0000_0000
        + wire[3] * 0x1_0000_0000
        + wire[4] * 0x100_0000
        + wire[5] * 0x1_0000
        + wire[6] * 0x100
        + wire[7]) as u64
}

impl TryWriteToBytes for u64 {
    open spec fn wire(&self) -> Seq<u8> {
        u64_wire(*self)
    }

    fn try_write_to_bytes(&self, bytes: &mut [u8]) -> (r: Result<usize, CodecError>) {
        proof {
            reveal(u64_wire);
        }
        if bytes.len() < 8 {
            return Err(CodecError::BufferTooSmall);
        }
        let x: u64 = *self;
        let b0: u8 = #[verifier::truncate] ((x >> 56) as u8);
        let b1: u8 = #[verifier::truncate] ((x >> 48) as u8);
        let b2: u8 = #[verifier::truncate] ((x >> 40) as u8);
        let b3: u8 = #[verifier::truncate] ((x >> 32) as u8);
        let b4: u8 = #[verifier::truncate] ((x >> 24) as u8);
        let b5: u8 = #[verifier::truncate] ((x >> 16) as u8);
        let b6: u8 = #[verifier::truncate] ((x >> 8) as u8);
        let b7: u8 = #[verifier::truncate] (x as u8);
        proof {
            assert(b0 == (x / 0x100_0000_0000_0000) as u8
                && b1 == (x / 0x1_0000_0000_0000 % 0x100) as u8
                && b2 == (x / 0x100_0000_0000 % 0x100) as u8
                && b3 == (x / 0x1_0000_0000 % 0x100) as u8) by (bit_vector)
                requires
                    b0 == (x >> 56) as u8,
                    b1 == (x >> 48) as u8,
                    b2 == (x >> 40) as u8,
                    b3 == (x >> 32) as u8,
            ;
            assert(b4 == (x / 0x100_0000 % 0x100) as u8
                && b5 == (x / 0x1_0000 % 0x100) as u8
                && b6 == (x / 0x100 % 0x100) as u8
                && b7 == (x % 0x100) as u8) by (bit_vector)
                requires
                    b4 == (x >> 24) as u8,
                    b5 == (x >> 16) as u8,
                    b6 == (x >> 8) as u8,
                    b7 == x as u8,
            ;
        }
        bytes[0] = b0;
        bytes[1] = b1;
        bytes[2] = b2;
        bytes[3] = b3;
        bytes[4] = b4;
        bytes[5] = b5;
        bytes[6] = b6;
        bytes[7] = b7;
        proof {
            assert(bytes@ =~= self.wire() + old(bytes)@.skip(8));
        }
        Ok(8)
    }
}

impl<'a> TryReadFromBytes<'a> for u64 {
    open spec fn width() -> nat {
        8
    }

    open spec fn parse(wire: Seq<u8>) -> Result<Self, CodecError> {
        Ok(u64_of_wire(wire))
    }

    fn try_read_from_bytes(bytes: &'a [u8]) -> (r: Result<(Self, usize), CodecError>) {
        if bytes.len() < 8 {
            return Err(CodecError::BufferTooSmall);
        }
        let b0: u8 = bytes[0];
        let b1: u8 = bytes[1];
        let b2: u8 = bytes[2];
        let b3: u8 = bytes[3];
        let b4: u8 = bytes[4];
        let b5: u8 = bytes[5];
        let b6: u8 = bytes[6];
        let b7: u8 = bytes[7];
        let value: u64 = ((b0 as u64) << 56)
            | ((b1 as u64) << 48)
            | ((b2 as u64) << 40)
            | ((b3 as u64) << 32)
            | ((b4 as u64) << 24)
            | ((b5 as u64) << 16)
            | ((b6 as u64) << 8)
            | (b7 as u64);
        proof {
            reveal(u64_of_wire);
            assert(value == b0 * 0x100_0000_0000_0000
                + b1 * 0x1_0000_0000_0000
                + b2 * 0x100_0000_0000
                + b3 * 0x1_0000_0000
                + b4 * 0x100_0000
                + b5 * 0x1_0000
                + b6 * 0x100
                + b7) by (bit_vector)
                requires
                    value == ((b0 as u64) << 56)
                        | ((b1 as u64) << 48)
                        | ((b2 as u64) << 40)
                        | ((b3 as u64) << 32)
                        | ((b4 as u64) << 24)
                        | ((b5 as u64) << 16)
                        | ((b6 as u64) << 8)
                        | (b7 as u64),
            ;
        }
        Ok((value, 8))
    }
}

/// The unsigned 64-bit number with the two's-complement bits of `x`.
pub open spec fn i64_bits(x: i64) -> u64 {
    if x < 0 {
        (x + 0x1_0000_0000_0000_0000) as u64
    } else {
        x as u64
    }
}

/// The signed 64-bit number with the two's-complement bits of `u`.
pub open spec fn i64_of_bits(u: u64) -> i64 {
    if u >= 0x8000_0000_0000_0000 {
        (u - 0x1_0000_0000_0000_0000) as i64
    } else {
        u as i64
    }
}

impl TryWriteToBytes for i64 {
    open spec fn wire(&self) -> Seq<u8> {
        u64_wire(i64_bits(*self))
    }

    fn try_write_to_bytes(&self, bytes: &mut [u8]) -> (r: Result<usize, CodecError>) {
        let x: i64 = *self;
        let u: u64 = #[verifier::truncate] (x as u64);
        proof {
            assert(u == i64_bits(x)) by (bit_vector)
                requires
                    u == x as u64,
            ;
        }
        u.try_write_to_bytes(bytes)
    }
}

impl<'a> TryReadFromBytes<'a> for i64 {
    open spec fn width() -> nat {
        8
    }

    open spec fn parse(wire: Seq<u8>) -> Result<Self, CodecError> {
        Ok(i64_of_bits(u64_of_wire(wire)))
    }

    fn try_read_from_bytes(bytes: &'a [u8]) -> (r: Result<(Self, usize), CodecError>) {
        match u64::try_read_from_bytes(bytes) {
            Ok((u, size)) => {
                let x: i64 = #[verifier::truncate] (u as i64);
                proof {
                    assert(x == i64_of_bits(u)) by (bit_vector)
                        requires
                            x == u as i64,
                    ;
                }
                Ok((x, size))
            },
            Err(e) => Err(e),
        }
    }
}

/// The array of `N` bytes that holds the sequence `s`.
pub open spec fn array_of<const N: usize>(s: Seq<u8>) -> [u8; N] {
    choose|a: [u8; N]| a@ == s
}

impl<const N: usize> TryWriteToBytes for [u8; N] {
    open spec fn wire(&self) -> Seq<u8> {
        self@
    }

    fn try_write_to_bytes(&self, bytes: &mut [u8]) -> (r: Result<usize, CodecError>) {
        if bytes.len() < N {
            return Err(CodecError::BufferTooSmall);
        }
        let mut i: usize = 0;
        while i < N
            invariant
                i <= N,
                N <= bytes@.len(),
                bytes@.len() == old(bytes)@.len(),
                forall|j: int| 0 <= j < i ==> bytes@[j] == self@[j],
                forall|j: int| i <= j < bytes@.len() ==> bytes@[j] == old(bytes)@[j],
            decreases N - i,
        {
            bytes[i] = self[i];
            i += 1;
        }
        proof {
            assert(bytes@ =~= self.wire() + old(bytes)@.skip(N as int));
        }
        Ok(N)
    }
}

impl<'a, const N: usize> TryReadFromBytes<'a> for [u8; N] {
    open spec fn width() -> nat {
        N as nat
    }

    open spec fn parse(wire: Seq<u8>) -> Result<Self, CodecError> {
        Ok(array_of::<N>(wire))
    }

    fn try_read_from_bytes(bytes: &'a [u8]) -> (r: Result<(Self, usize), CodecError>) {
        if bytes.len() < N {
            return Err(CodecError::BufferTooSmall);
        }
        let mut array: [u8; N] = [0u8; N];
        let mut i: usize = 0;
        while i < N
            invariant
                i <= N,
                N <= bytes@.len(),
                forall|j: int| 0 <= j < i ==> array@[j] == bytes@[j],
            decreases N - i,
        {
            array[i] = bytes[i];
            i += 1;
        }
        proof {
            assert(array@ =~= bytes@.take(N as int));
            assert(array_of::<N>(bytes@.take(N as int)) =~= array);
        }
        Ok((array, N))
    }
}

/// A write into a region that is shorter than the wire image fails with
/// `BufferTooSmall` and leaves the region as it was.
pub proof fn lemma_short_buffer_write(wire: Seq<u8>, region: Seq<u8>)
    requires
        region.len() < wire.len(),
    ensures
        write_outcome(wire, region) == Err::<usize, CodecError>(CodecError::BufferTooSmall),
        buffer_after_write(wire, region) == region,
{
}

/// A read from a region that is shorter than the width of the value fails
/// with `BufferTooSmall`, whatever the region holds.
pub proof fn lemma_short_buffer_read<T>(parsed: Result<T, CodecError>, width: nat, len: nat)
    requires
        len < width,
    ensures
        read_outcome(parsed, width, len) == Err::<(T, usize), CodecError>(
            CodecError::BufferTooSmall,
        ),
{
}

/// A write into a region with room for the wire image returns its width,
/// puts the image at the start of the region, and leaves the length of the
/// region and every byte behind the image as they were.
pub proof fn lemma_written_prefix(wire: Seq<u8>, region: Seq<u8>)
    requires
        wire.len() <= region.len(),
    ensures
        write_outcome(wire, region) == Ok::<usize, CodecError>(wire.len() as usize),
        buffer_after_write(wire, region).len() == region.len(),
        buffer_after_write(wire, region).take(wire.len() as int) == wire,
        buffer_after_write(wire, region).skip(wire.len() as int) == region.skip(
            wire.len() as int,
        ),
{
    assert(buffer_after_write(wire, region).take(wire.len() as int) =~= wire);
    assert(buffer_after_write(wire, region).skip(wire.len() as int) =~= region.skip(
        wire.len() as int,
    ));
}

/// A signed byte read back from its wire image is the byte that was written.
pub proof fn lemma_i8_round_trip(x: i8)
    ensures
        x.wire().len() == i8::width(),
        i8::parse(x.wire()) == Ok::<i8, CodecError>(x),
{
}

/// A 16-bit number read back from its wire image is the number that was
/// written.
pub proof fn lemma_u16_round_trip(x: u16)
    ensures
        x.wire().len() == u16::width(),
        u16::parse(x.wire()) == Ok::<u16, CodecError>(x),
{
    reveal(u16_wire);
    reveal(u16_of_wire);
}

/// A signed 16-bit number read back from its wire image is the number that
/// was written.
pub proof fn lemma_i16_round_trip(x: i16)
    ensures
        x.wire().len() == i16::width(),
        i16::parse(x.wire()) == Ok::<i16, CodecError>(x),
{
    lemma_u16_round_trip(i16_bits(x));
}

/// A 32-bit number read back from its wire image is the number that was
/// written.
pub proof fn lemma_u32_round_trip(x: u32)
    ensures
        x.wire().len() == u32::width(),
        u32::parse(x.wire()) == Ok::<u32, CodecError>(x),
{
    reveal(u32_wire);
    reveal(u32_of_wire);
}

/// A signed 32-bit number read back from its wire image is the number that
/// was written.
pub proof fn lemma_i32_round_trip(x: i32)
    ensures
        x.wire().len() == i32::width(),
        i32::parse(x.wire()) == Ok::<i32, CodecError>(x),
{
    lemma_u32_round_trip(i32_bits(x));
}

/// A 64-bit number read back from its wire image is the number that was
/// written.
pub proof fn lemma_u64_round_trip(x: u64)
    ensures
        x.wire().len() == u64::width(),
        u64::parse(x.wire()) == Ok::<u64, CodecError>(x),
{
    reveal(u64_wire);
    reveal(u64_of_wire);
    assert(x == (x / 0x100_0000_0000_0000) * 0x100_0000_0000_0000
        + (x / 0x1_0000_0000_0000 % 0x100) * 0x1_0000_0000_0000
        + (x / 0x100_0000_0000 % 0x100) * 0x100_0000_0000
        + (x / 0x1_0000_0000 % 0x100) * 0x1_0000_0000
        + (x / 0x100_0000 % 0x100) * 0x100_0000
        + (x / 0x1_0000 % 0x100) * 0x1_0000
        + (x / 0x100 % 0x100) * 0x100
        + x % 0x100) by (bit_vector);
    assert(x / 0x100_0000_0000_0000 < 0x100) by (bit_vector);
}

/// A signed 64-bit number read back from its wire image is the number that
/// was written.
pub proof fn lemma_i64_round_trip(x: i64)
    ensures
        x.wire().len() == i64::width(),
        i64::parse(x.wire()) == Ok::<i64, CodecError>(x),
{
    lemma_u64_round_trip(i64_bits(x));
}

/// A byte array read back from its wire image is the array that was written.
pub proof fn lemma_array_round_trip<const N: usize>(a: [u8; N])
    ensures
        a.wire().len() == <[u8; N]>::width(),
        <[u8; N]>::parse(a.wire()) == Ok::<[u8; N], CodecError>(a),
{
    assert(array_of::<N>(a@) =~= a);
}

/// A byte written from the signed number it carries is that byte again.
pub proof fn lemma_i8_wire_round_trip(wire: Seq<u8>)
    requires
        wire.len() == 1,
    ensures
        i8::parse(wire) is Ok,
        i8::parse(wire)->Ok_0.wire() == wire,
{
    assert(seq![i8_wire_byte(i8_of_wire_byte(wire[0]))] =~= wire);
}

/// Two bytes written from the 16-bit number they carry are those bytes again.
pub proof fn lemma_u16_wire_round_trip(wire: Seq<u8>)
    requires
        wire.len() == 2,
    ensures
        u16::parse(wire) is Ok,
        u16::parse(wire)->Ok_0.wire() == wire,
{
    reveal(u16_wire);
    reveal(u16_of_wire);
    assert(u16_wire(u16_of_wire(wire)) =~= wire);
}

/// Four bytes written from the 32-bit number they carry are those bytes
/// again.
pub proof fn lemma_u32_wire_round_trip(wire: Seq<u8>)
    requires
        wire.len() == 4,
    ensures
        u32::parse(wire) is Ok,
        u32::parse(wire)->Ok_0.wire() == wire,
{
    reveal(u32_wire);
    reveal(u32_of_wire);
    let b0 = wire[0];
    let b1 = wire[1];
    let b2 = wire[2];
    let b3 = wire[3];
    let x: u32 = u32_of_wire(wire);
    assert(x / 0x100_0000 == b0
        && x / 0x1_0000 % 0x100 == b1
        && x / 0x100 % 0x100 == b2
        && x % 0x100 == b3) by (bit_vector)
        requires
            x == b0 * 0x100_0000 + b1 * 0x1_0000 + b2 * 0x100 + b3,
    ;
    assert(u32_wire(x) =~= wire);
}

/// Eight bytes written from the 64-bit number they carry are those bytes
/// again.
pub proof fn lemma_u64_wire_round_trip(wire: Seq<u8>)
    requires
        wire.len() == 8,
    ensures
        u64::parse(wire) is Ok,
        u64::parse(wire)->Ok_0.wire() == wire,
{
    reveal(u64_wire);
    reveal(u64_of_wire);
    let b0 = wire[0];
    let b1 = wire[1];
    let b2 = wire[2];
    let b3 = wire[3];
    let b4 = wire[4];
    let b5 = wire[5];
    let b6 = wire[6];
    let b7 = wire[7];
    let x: u64 = u64_of_wire(wire);
    assert(x / 0x100_0000_0000_0000 == b0
        && x / 0x1_0000_0000_0000 % 0x100 == b1
        && x / 0x100_0000_0000 % 0x100 == b2
        && x / 0x1_0000_0000 % 0x100 == b3
        && x / 0x100_0000 % 0x100 == b4
        && x / 0x1_0000 % 0x100 == b5
        && x / 0x100 % 0x100 == b6
        && x % 0x100 == b7) by (bit_vector)
        requires
            x == b0 * 0x100_0000_0000_0000
                + b1 * 0x1_0000_0000_0000
                + b2 * 0x100_0000_0000
                + b3 * 0x1_0000_0000
                + b4 * 0x100_0000
                + b5 * 0x1_0000
                + b6 * 0x100
                + b7,
    ;
    assert(u64_wire(x) =~= wire);
}

/// An array of `N` bytes that agrees with `s` on its first `k` bytes.
proof fn array_with_prefix<const N: usize>(s: Seq<u8>, k: nat) -> (a: [u8; N])
    requires
        s.len() == N,
        k <= N,
    ensures
        forall|i: int| 0 <= i < k ==> a@[i] == s[i],
    decreases k,
{
    if k == 0 {
        vstd::array::spec_array_fill_for_copy_type::<u8, N>(0u8)
    } else {
        let shorter = array_with_prefix::<N>(s, (k - 1) as nat);
        vstd::array::spec_array_update(shorter, k - 1, s[k - 1])
    }
}

/// The bytes of an array written from the array they stand for are those
/// bytes again.
pub proof fn lemma_array_wire_round_trip<const N: usize>(wire: Seq<u8>)
    requires
        wire.len() == N,
    ensures
        <[u8; N]>::parse(wire) is Ok,
        <[u8; N]>::parse(wire)->Ok_0.wire() == wire,
{
    let a = array_with_prefix::<N>(wire, N as nat);
    assert(a@ =~= wire);
}

} // verus!
