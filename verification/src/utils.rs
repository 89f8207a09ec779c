//! Wire primitives: fixed-width integer writers over a growing byte buffer,
//! in big-endian, little-endian or the machine's native byte order.

use vstd::prelude::*;

verus! {

/// The two byte orders the wire protocol can use for multi-byte integers.
#[derive(Clone, Copy, Debug, PartialEq, Eq, Structural)]
pub enum ByteOrder {
    Big,
    Little,
}

/// The byte order of the machine this code runs on.
///
/// Relies on `u16::to_ne_bytes`: the first byte of `1u16` in native order is
/// `1` exactly on a little-endian machine. The result depends on the machine,
/// so nothing is promised of it; in particular the mapping from the observed
/// byte to the variant is the one unverified decision here — were it
/// inverted, the order byte of a SETUP request would mislabel the payload's
/// byte order on the wire, and nothing verified would catch that.
#[verifier::external_body]
pub(crate) fn native_byte_order() -> ByteOrder {
    if 1u16.to_ne_bytes()[0] == 1 {
        ByteOrder::Little
    } else {
        ByteOrder::Big
    }
}

/// The two bytes of `n` in big-endian order.
pub open spec fn spec_u16_be(n: u16) -> Seq<u8> {
    seq![(n / 0x100) as u8, (n % 0x100) as u8]
}

/// The two bytes of `n` in little-endian order.
pub open spec fn spec_u16_le(n: u16) -> Seq<u8> {
    seq![(n % 0x100) as u8, (n / 0x100) as u8]
}

/// The four bytes of `n` in big-endian order.
pub open spec fn spec_u32_be(n: u32) -> Seq<u8> {
    seq![
        (n / 0x1000000) as u8,
        ((n / 0x10000) % 0x100) as u8,
        ((n / 0x100) % 0x100) as u8,
        (n % 0x100) as u8,
    ]
}

/// The four bytes of `n` in little-endian order.
pub open spec fn spec_u32_le(n: u32) -> Seq<u8> {
    spec_u32_be(n).reverse()
}

/// The eight bytes of `n` in big-endian order.
pub open spec fn spec_u64_be(n: u64) -> Seq<u8> {
    seq![
        (n / 0x100000000000000) as u8,
        ((n / 0x1000000000000) % 0x100) as u8,
        ((n / 0x10000000000) % 0x100) as u8,
        ((n / 0x100000000) % 0x100) as u8,
        ((n / 0x1000000) % 0x100) as u8,
        ((n / 0x10000) % 0x100) as u8,
        ((n / 0x100) % 0x100) as u8,
        (n % 0x100) as u8,
    ]
}

/// The eight bytes of `n` in little-endian order.
pub open spec fn spec_u64_le(n: u64) -> Seq<u8> {
    spec_u64_be(n).reverse()
}

/// The unsigned 16-bit value with the same bit pattern as `n`.
pub open spec fn spec_i16_bits(n: i16) -> u16 {
    if n >= 0 {
        n as u16
    } else {
        (n + 0x10000) as u16
    }
}

/// The unsigned 32-bit value with the same bit pattern as `n`.
pub open spec fn spec_i32_bits(n: i32) -> u32 {
    if n >= 0 {
        n as u32
    } else {
        (n + 0x100000000) as u32
    }
}

/// The unsigned 64-bit value with the same bit pattern as `n`.
pub open spec fn spec_i64_bits(n: i64) -> u64 {
    if n >= 0 {
        n as u64
    } else {
        (n + 0x10000000000000000) as u64
    }
}

/// The unsigned byte with the same bit pattern as `n`.
pub open spec fn spec_i8_bits(n: i8) -> u8 {
    if n >= 0 {
        n as u8
    } else {
        (n + 0x100) as u8
    }
}

/// The unsigned 16-bit value with the bit pattern of `n`, computed without a
/// reinterpreting cast: for negative `n`, `0xFFFF - (-(n + 1))` equals
/// `n + 0x10000`.
pub fn i16_bits(n: i16) -> (r: u16)
    ensures
        r == spec_i16_bits(n),
{
    if n >= 0 {
        n as u16
    } else {
        0xFFFFu16 - ((-(n + 1)) as u16)
    }
}

/// The unsigned 32-bit value with the bit pattern of `n`.
pub fn i32_bits(n: i32) -> (r: u32)
    ensures
        r == spec_i32_bits(n),
{
    if n >= 0 {
        n as u32
    } else {
        0xFFFFFFFFu32 - ((-(n + 1)) as u32)
    }
}

/// The unsigned 64-bit value with the bit pattern of `n`.
pub fn i64_bits(n: i64) -> (r: u64)
    ensures
        r == spec_i64_bits(n),
{
    if n >= 0 {
        n as u64
    } else {
        0xFFFFFFFFFFFFFFFFu64 - ((-(n + 1)) as u64)
    }
}

/// The unsigned byte with the bit pattern of `n`.
pub fn i8_bits(n: i8) -> (r: u8)
    ensures
        r == spec_i8_bits(n),
{
    if n >= 0 {
        n as u8
    } else {
        0xFFu8 - ((-(n + 1)) as u8)
    }
}

/// The value of two big-endian bytes.
pub open spec fn be16_val(b: Seq<u8>) -> u16
    recommends
        b.len() == 2,
{
    (b[0] * 0x100 + b[1]) as u16
}

/// The value of two little-endian bytes.
pub open spec fn le16_val(b: Seq<u8>) -> u16
    recommends
        b.len() == 2,
{
    (b[1] * 0x100 + b[0]) as u16
}

/// The value of four big-endian bytes.
pub open spec fn be32_val(b: Seq<u8>) -> u32
    recommends
        b.len() == 4,
{
    (b[0] * 0x1000000 + b[1] * 0x10000 + b[2] * 0x100 + b[3]) as u32
}

/// The value of four little-endian bytes.
pub open spec fn le32_val(b: Seq<u8>) -> u32
    recommends
        b.len() == 4,
{
    be32_val(b.reverse())
}

/// The value of eight big-endian bytes.
pub open spec fn be64_val(b: Seq<u8>) -> u64
    recommends
        b.len() == 8,
{
    (b[0] * 0x100000000000000 + b[1] * 0x1000000000000 + b[2] * 0x10000000000 + b[3] * 0x100000000
        + b[4] * 0x1000000 + b[5] * 0x10000 + b[6] * 0x100 + b[7]) as u64
}

/// The value of eight little-endian bytes.
pub open spec fn le64_val(b: Seq<u8>) -> u64
    recommends
        b.len() == 8,
{
    be64_val(b.reverse())
}

/// The signed 16-bit value whose bit pattern is `n`.
pub fn i16_from_bits(n: u16) -> (r: i16)
    ensures
        spec_i16_bits(r) == n,
{
    if n < 0x8000 {
        n as i16
    } else {
        -((0xFFFFu16 - n) as i16) - 1
    }
}

/// The signed 32-bit value whose bit pattern is `n`.
pub fn i32_from_bits(n: u32) -> (r: i32)
    ensures
        spec_i32_bits(r) == n,
{
    if n < 0x80000000 {
        n as i32
    } else {
        -((0xFFFFFFFFu32 - n) as i32) - 1
    }
}

/// The signed 64-bit value whose bit pattern is `n`.
pub fn i64_from_bits(n: u64) -> (r: i64)
    ensures
        spec_i64_bits(r) == n,
{
    if n < 0x8000000000000000 {
        n as i64
    } else {
        -((0xFFFFFFFFFFFFFFFFu64 - n) as i64) - 1
    }
}

/// The signed byte whose bit pattern is `n`.
pub fn i8_from_bits(n: u8) -> (r: i8)
    ensures
        spec_i8_bits(r) == n,
{
    if n < 0x80 {
        n as i8
    } else {
        -((0xFFu8 - n) as i8) - 1
    }
}

/// Reading fixed-width integers from a byte buffer, front to back. Each
/// operation consumes exactly its byte width, or fails without consuming
/// anything when fewer bytes remain — a short read never zero-fills.
pub struct ByteReader {
    data: Vec<u8>,
    pos: usize,
}

impl ByteReader {
    /// The reader's cursor never passes the end of its buffer.
    pub closed spec fn wf(&self) -> bool {
        self.pos <= self.data@.len()
    }

    /// The bytes not yet consumed.
    pub closed spec fn remaining(&self) -> Seq<u8> {
        self.data@.skip(self.pos as int)
    }

    pub fn new(data: Vec<u8>) -> (r: Self)
        ensures
            r.wf(),
            r.remaining() == data@,
    {
        let r = ByteReader { data, pos: 0 };
        proof {
            assert(r.remaining() =~= r.data@);
        }
        r
    }

    /// How many bytes are left.
    pub fn remaining_len(&self) -> (r: usize)
        requires
            self.wf(),
        ensures
            r == self.remaining().len(),
    {
        self.data.len() - self.pos
    }

    /// Consumes exactly `n` bytes, or fails leaving the reader unchanged.
    pub fn read_exact(&mut self, n: usize) -> (r: Option<Vec<u8>>)
        requires
            old(self).wf(),
        ensures
            final(self).wf(),
            old(self).remaining().len() >= n ==> (r matches Option::Some(v) && v@ == old(
                self,
            ).remaining().take(n as int) && final(self).remaining() == old(self).remaining().skip(
                n as int,
            )),
            old(self).remaining().len() < n ==> r is None && *final(self) == *old(self),
    {
        if n > self.data.len() - self.pos {
            return Option::None;
        }
        let chunk = vstd::slice::slice_to_vec(
            vstd::slice::slice_subrange(self.data.as_slice(), self.pos, self.pos + n),
        );
        self.pos = self.pos + n;
        proof {
            assert(chunk@ =~= old(self).remaining().take(n as int));
            assert(self.remaining() =~= old(self).remaining().skip(n as int));
        }
        Option::Some(chunk)
    }

    pub fn read_u8(&mut self) -> (r: Option<u8>)
        requires
            old(self).wf(),
        ensures
            final(self).wf(),
            old(self).remaining().len() >= 1 ==> r == Option::Some(old(self).remaining()[0])
                && final(self).remaining() == old(self).remaining().skip(1),
            old(self).remaining().len() < 1 ==> r is None && *final(self) == *old(self),
    {
        if self.pos >= self.data.len() {
            return Option::None;
        }
        let b = self.data[self.pos];
        self.pos = self.pos + 1;
        proof {
            assert(self.remaining() =~= old(self).remaining().skip(1));
        }
        Option::Some(b)
    }

    pub fn read_i8(&mut self) -> (r: Option<i8>)
        requires
            old(self).wf(),
        ensures
            final(self).wf(),
            old(self).remaining().len() >= 1 ==> (r matches Option::Some(v) && spec_i8_bits(v) == old(self).remaining()[0] && final(self).remaining() == old(self).remaining().skip(1)),
            old(self).remaining().len() < 1 ==> r is None && *final(self) == *old(self),
    {
        match self.read_u8() {
            Option::Some(b) => Option::Some(i8_from_bits(b)),
            Option::None => Option::None,
        }
    }

    pub fn read_u16_be(&mut self) -> (r: Option<u16>)
        requires
            old(self).wf(),
        ensures
            final(self).wf(),
            old(self).remaining().len() >= 2 ==> r == Option::Some(
                be16_val(old(self).remaining().take(2)),
            ) && final(self).remaining() == old(self).remaining().skip(2),
            old(self).remaining().len() < 2 ==> r is None && *final(self) == *old(self),
    {
        if self.data.len() - self.pos < 2 {
            return Option::None;
        }
        let b0 = self.data[self.pos];
        let b1 = self.data[self.pos + 1];
        self.pos = self.pos + 2;
        proof {
            assert(self.remaining() =~= old(self).remaining().skip(2));
        }
        Option::Some(b0 as u16 * 0x100 + b1 as u16)
    }

    pub fn read_u16_le(&mut self) -> (r: Option<u16>)
        requires
            old(self).wf(),
        ensures
            final(self).wf(),
            old(self).remaining().len() >= 2 ==> r == Option::Some(
                le16_val(old(self).remaining().take(2)),
            ) && final(self).remaining() == old(self).remaining().skip(2),
            old(self).remaining().len() < 2 ==> r is None && *final(self) == *old(self),
    {
        if self.data.len() - self.pos < 2 {
            return Option::None;
        }
        let b0 = self.data[self.pos];
        let b1 = self.data[self.pos + 1];
        self.pos = self.pos + 2;
        proof {
            assert(self.remaining() =~= old(self).remaining().skip(2));
        }
        Option::Some(b1 as u16 * 0x100 + b0 as u16)
    }

    pub fn read_u16_ne(&mut self) -> (r: Option<u16>)
        requires
            old(self).wf(),
        ensures
            final(self).wf(),
            old(self).remaining().len() >= 2 ==> (r == Option::Some(
                be16_val(old(self).remaining().take(2)),
            ) || r == Option::Some(le16_val(old(self).remaining().take(2)))) && final(self).remaining() == old(self).remaining().skip(2),
            old(self).remaining().len() < 2 ==> r is None && *final(self) == *old(self),
    {
        match native_byte_order() {
            ByteOrder::Big => self.read_u16_be(),
            ByteOrder::Little => self.read_u16_le(),
        }
    }

    pub fn read_i16_be(&mut self) -> (r: Option<i16>)
        requires
            old(self).wf(),
        ensures
            final(self).wf(),
            old(self).remaining().len() >= 2 ==> (r matches Option::Some(v) && spec_i16_bits(v)
                == be16_val(old(self).remaining().take(2)) && final(self).remaining() == old(self).remaining().skip(2)),
            old(self).remaining().len() < 2 ==> r is None && *final(self) == *old(self),
    {
        match self.read_u16_be() {
            Option::Some(n) => Option::Some(i16_from_bits(n)),
            Option::None => Option::None,
        }
    }

    pub fn read_i16_le(&mut self) -> (r: Option<i16>)
        requires
            old(self).wf(),
        ensures
            final(self).wf(),
            old(self).remaining().len() >= 2 ==> (r matches Option::Some(v) && spec_i16_bits(v)
                == le16_val(old(self).remaining().take(2)) && final(self).remaining() == old(self).remaining().skip(2)),
            old(self).remaining().len() < 2 ==> r is None && *final(self) == *old(self),
    {
        match self.read_u16_le() {
            Option::Some(n) => Option::Some(i16_from_bits(n)),
            Option::None => Option::None,
        }
    }

    pub fn read_i16_ne(&mut self) -> (r: Option<i16>)
        requires
            old(self).wf(),
        ensures
            final(self).wf(),
            old(self).remaining().len() >= 2 ==> (r matches Option::Some(v) && (spec_i16_bits(v)
                == be16_val(old(self).remaining().take(2)) || spec_i16_bits(v) == le16_val(
                old(self).remaining().take(2),
            )) && final(self).remaining() == old(self).remaining().skip(2)),
            old(self).remaining().len() < 2 ==> r is None && *final(self) == *old(self),
    {
        match self.read_u16_ne() {
            Option::Some(n) => Option::Some(i16_from_bits(n)),
            Option::None => Option::None,
        }
    }

    pub fn read_u32_be(&mut self) -> (r: Option<u32>)
        requires
            old(self).wf(),
        ensures
            final(self).wf(),
            old(self).remaining().len() >= 4 ==> r == Option::Some(
                be32_val(old(self).remaining().take(4)),
            ) && final(self).remaining() == old(self).remaining().skip(4),
            old(self).remaining().len() < 4 ==> r is None && *final(self) == *old(self),
    {
        if self.data.len() - self.pos < 4 {
            return Option::None;
        }
        let b0 = self.data[self.pos];
        let b1 = self.data[self.pos + 1];
        let b2 = self.data[self.pos + 2];
        let b3 = self.data[self.pos + 3];
        self.pos = self.pos + 4;
        proof {
            assert(self.remaining() =~= old(self).remaining().skip(4));
        }
        Option::Some(b0 as u32 * 0x1000000 + b1 as u32 * 0x10000 + b2 as u32 * 0x100 + b3 as u32)
    }

    pub fn read_u32_le(&mut self) -> (r: Option<u32>)
        requires
            old(self).wf(),
        ensures
            final(self).wf(),
            old(self).remaining().len() >= 4 ==> r == Option::Some(
                le32_val(old(self).remaining().take(4)),
            ) && final(self).remaining() == old(self).remaining().skip(4),
            old(self).remaining().len() < 4 ==> r is None && *final(self) == *old(self),
    {
        if self.data.len() - self.pos < 4 {
            return Option::None;
        }
        let b0 = self.data[self.pos];
        let b1 = self.data[self.pos + 1];
        let b2 = self.data[self.pos + 2];
        let b3 = self.data[self.pos + 3];
        self.pos = self.pos + 4;
        proof {
            assert(self.remaining() =~= old(self).remaining().skip(4));
            assert(old(self).remaining().take(4).reverse() =~= seq![
                old(self).remaining()[3],
                old(self).remaining()[2],
                old(self).remaining()[1],
                old(self).remaining()[0],
            ]);
        }
        Option::Some(b3 as u32 * 0x1000000 + b2 as u32 * 0x10000 + b1 as u32 * 0x100 + b0 as u32)
    }

    pub fn read_u32_ne(&mut self) -> (r: Option<u32>)
        requires
            old(self).wf(),
        ensures
            final(self).wf(),
            old(self).remaining().len() >= 4 ==> (r == Option::Some(
                be32_val(old(self).remaining().take(4)),
            ) || r == Option::Some(le32_val(old(self).remaining().take(4)))) && final(self).remaining() == old(self).remaining().skip(4),
            old(self).remaining().len() < 4 ==> r is None && *final(self) == *old(self),
    {
        match native_byte_order() {
            ByteOrder::Big => self.read_u32_be(),
            ByteOrder::Little => self.read_u32_le(),
        }
    }

    pub fn read_i32_be(&mut self) -> (r: Option<i32>)
        requires
            old(self).wf(),
        ensures
            final(self).wf(),
            old(self).remaining().len() >= 4 ==> (r matches Option::Some(v) && spec_i32_bits(v)
                == be32_val(old(self).remaining().take(4)) && final(self).remaining() == old(self).remaining().skip(4)),
            old(self).remaining().len() < 4 ==> r is None && *final(self) == *old(self),
    {
        match self.read_u32_be() {
            Option::Some(n) => Option::Some(i32_from_bits(n)),
            Option::None => Option::None,
        }
    }

    pub fn read_i32_le(&mut self) -> (r: Option<i32>)
        requires
            old(self).wf(),
        ensures
            final(self).wf(),
            old(self).remaining().len() >= 4 ==> (r matches Option::Some(v) && spec_i32_bits(v)
                == le32_val(old(self).remaining().take(4)) && final(self).remaining() == old(self).remaining().skip(4)),
            old(self).remaining().len() < 4 ==> r is None && *final(self) == *old(self),
    {
        match self.read_u32_le() {
            Option::Some(n) => Option::Some(i32_from_bits(n)),
            Option::None => Option::None,
        }
    }

    pub fn read_i32_ne(&mut self) -> (r: Option<i32>)
        requires
            old(self).wf(),
        ensures
            final(self).wf(),
            old(self).remaining().len() >= 4 ==> (r matches Option::Some(v) && (spec_i32_bits(v)
                == be32_val(old(self).remaining().take(4)) || spec_i32_bits(v) == le32_val(
                old(self).remaining().take(4),
            )) && final(self).remaining() == old(self).remaining().skip(4)),
            old(self).remaining().len() < 4 ==> r is None && *final(self) == *old(self),
    {
        match self.read_u32_ne() {
            Option::Some(n) => Option::Some(i32_from_bits(n)),
            Option::None => Option::None,
        }
    }

    pub fn read_u64_be(&mut self) -> (r: Option<u64>)
        requires
            old(self).wf(),
        ensures
            final(self).wf(),
            old(self).remaining().len() >= 8 ==> r == Option::Some(
                be64_val(old(self).remaining().take(8)),
            ) && final(self).remaining() == old(self).remaining().skip(8),
            old(self).remaining().len() < 8 ==> r is None && *final(self) == *old(self),
    {
        if self.data.len() - self.pos < 8 {
            return Option::None;
        }
        let b0 = self.data[self.pos];
        let b1 = self.data[self.pos + 1];
        let b2 = self.data[self.pos + 2];
        let b3 = self.data[self.pos + 3];
        let b4 = self.data[self.pos + 4];
        let b5 = self.data[self.pos + 5];
        let b6 = self.data[self.pos + 6];
        let b7 = self.data[self.pos + 7];
        self.pos = self.pos + 8;
        proof {
            assert(self.remaining() =~= old(self).remaining().skip(8));
        }
        Option::Some(
            b0 as u64 * 0x100000000000000 + b1 as u64 * 0x1000000000000 + b2 as u64 * 0x10000000000
                + b3 as u64 * 0x100000000 + b4 as u64 * 0x1000000 + b5 as u64 * 0x10000 + b6 as u64
                * 0x100 + b7 as u64,
        )
    }

    pub fn read_u64_le(&mut self) -> (r: Option<u64>)
        requires
            old(self).wf(),
        ensures
            final(self).wf(),
            old(self).remaining().len() >= 8 ==> r == Option::Some(
                le64_val(old(self).remaining().take(8)),
            ) && final(self).remaining() == old(self).remaining().skip(8),
            old(self).remaining().len() < 8 ==> r is None && *final(self) == *old(self),
    {
        if self.data.len() - self.pos < 8 {
            return Option::None;
        }
        let b0 = self.data[self.pos];
        let b1 = self.data[self.pos + 1];
        let b2 = self.data[self.pos + 2];
        let b3 = self.data[self.pos + 3];
        let b4 = self.data[self.pos + 4];
        let b5 = self.data[self.pos + 5];
        let b6 = self.data[self.pos + 6];
        let b7 = self.data[self.pos + 7];
        self.pos = self.pos + 8;
        proof {
            assert(self.remaining() =~= old(self).remaining().skip(8));
            assert(old(self).remaining().take(8).reverse() =~= seq![
                old(self).remaining()[7],
                old(self).remaining()[6],
                old(self).remaining()[5],
                old(self).remaining()[4],
                old(self).remaining()[3],
                old(self).remaining()[2],
                old(self).remaining()[1],
                old(self).remaining()[0],
            ]);
        }
        Option::Some(
            b7 as u64 * 0x100000000000000 + b6 as u64 * 0x1000000000000 + b5 as u64 * 0x10000000000
                + b4 as u64 * 0x100000000 + b3 as u64 * 0x1000000 + b2 as u64 * 0x10000 + b1 as u64
                * 0x100 + b0 as u64,
        )
    }

    pub fn read_u64_ne(&mut self) -> (r: Option<u64>)
        requires
            old(self).wf(),
        ensures
            final(self).wf(),
            old(self).remaining().len() >= 8 ==> (r == Option::Some(
                be64_val(old(self).remaining().take(8)),
            ) || r == Option::Some(le64_val(old(self).remaining().take(8)))) && final(self).remaining() == old(self).remaining().skip(8),
            old(self).remaining().len() < 8 ==> r is None && *final(self) == *old(self),
    {
        match native_byte_order() {
            ByteOrder::Big => self.read_u64_be(),
            ByteOrder::Little => self.read_u64_le(),
        }
    }

    pub fn read_i64_be(&mut self) -> (r: Option<i64>)
        requires
            old(self).wf(),
        ensures
            final(self).wf(),
            old(self).remaining().len() >= 8 ==> (r matches Option::Some(v) && spec_i64_bits(v)
                == be64_val(old(self).remaining().take(8)) && final(self).remaining() == old(self).remaining().skip(8)),
            old(self).remaining().len() < 8 ==> r is None && *final(self) == *old(self),
    {
        match self.read_u64_be() {
            Option::Some(n) => Option::Some(i64_from_bits(n)),
            Option::None => Option::None,
        }
    }

    pub fn read_i64_le(&mut self) -> (r: Option<i64>)
        requires
            old(self).wf(),
        ensures
            final(self).wf(),
            old(self).remaining().len() >= 8 ==> (r matches Option::Some(v) && spec_i64_bits(v)
                == le64_val(old(self).remaining().take(8)) && final(self).remaining() == old(self).remaining().skip(8)),
            old(self).remaining().len() < 8 ==> r is None && *final(self) == *old(self),
    {
        match self.read_u64_le() {
            Option::Some(n) => Option::Some(i64_from_bits(n)),
            Option::None => Option::None,
        }
    }

    pub fn read_i64_ne(&mut self) -> (r: Option<i64>)
        requires
            old(self).wf(),
        ensures
            final(self).wf(),
            old(self).remaining().len() >= 8 ==> (r matches Option::Some(v) && (spec_i64_bits(v)
                == be64_val(old(self).remaining().take(8)) || spec_i64_bits(v) == le64_val(
                old(self).remaining().take(8),
            )) && final(self).remaining() == old(self).remaining().skip(8)),
            old(self).remaining().len() < 8 ==> r is None && *final(self) == *old(self),
    {
        match self.read_u64_ne() {
            Option::Some(n) => Option::Some(i64_from_bits(n)),
            Option::None => Option::None,
        }
    }
}

/// Writing fixed-width integers to a byte sink, in a chosen byte order.
/// Each operation appends exactly the integer's byte width.
/// The native-order operations append the value's bytes in whichever of the
/// two orders the machine uses, so they promise one of the two encodings.
pub trait WriteBytesExt {
    /// The bytes written to the sink so far.
    spec fn buffered(&self) -> Seq<u8>;

    fn write_bytes(&mut self, data: &[u8])
        ensures
            final(self).buffered() == old(self).buffered() + data@,
    ;

    fn write_u8(&mut self, n: u8)
        ensures
            final(self).buffered() == old(self).buffered() + seq![n],
    ;

    fn write_i8(&mut self, n: i8)
        ensures
            final(self).buffered() == old(self).buffered() + seq![spec_i8_bits(n)],
    ;

    fn write_u16_be(&mut self, n: u16)
        ensures
            final(self).buffered() == old(self).buffered() + spec_u16_be(n),
    ;

    fn write_u16_le(&mut self, n: u16)
        ensures
            final(self).buffered() == old(self).buffered() + spec_u16_le(n),
    ;

    fn write_u16_ne(&mut self, n: u16)
        ensures
            final(self).buffered() == old(self).buffered() + spec_u16_be(n) || final(self).buffered() == old(self).buffered() + spec_u16_le(n),
    ;

    fn write_i16_be(&mut self, n: i16)
        ensures
            final(self).buffered() == old(self).buffered() + spec_u16_be(spec_i16_bits(n)),
    ;

    fn write_i16_le(&mut self, n: i16)
        ensures
            final(self).buffered() == old(self).buffered() + spec_u16_le(spec_i16_bits(n)),
    ;

    fn write_i16_ne(&mut self, n: i16)
        ensures
            final(self).buffered() == old(self).buffered() + spec_u16_be(spec_i16_bits(n)) || final(self).buffered() == old(self).buffered() + spec_u16_le(spec_i16_bits(n)),
    ;

    fn write_u32_be(&mut self, n: u32)
        ensures
            final(self).buffered() == old(self).buffered() + spec_u32_be(n),
    ;

    fn write_u32_le(&mut self, n: u32)
        ensures
            final(self).buffered() == old(self).buffered() + spec_u32_le(n),
    ;

    fn write_u32_ne(&mut self, n: u32)
        ensures
            final(self).buffered() == old(self).buffered() + spec_u32_be(n) || final(self).buffered() == old(self).buffered() + spec_u32_le(n),
    ;

    fn write_i32_be(&mut self, n: i32)
        ensures
            final(self).buffered() == old(self).buffered() + spec_u32_be(spec_i32_bits(n)),
    ;

    fn write_i32_le(&mut self, n: i32)
        ensures
            final(self).buffered() == old(self).buffered() + spec_u32_le(spec_i32_bits(n)),
    ;

    fn write_i32_ne(&mut self, n: i32)
        ensures
            final(self).buffered() == old(self).buffered() + spec_u32_be(spec_i32_bits(n)) || final(self).buffered() == old(self).buffered() + spec_u32_le(spec_i32_bits(n)),
    ;

    fn write_u64_be(&mut self, n: u64)
        ensures
            final(self).buffered() == old(self).buffered() + spec_u64_be(n),
    ;

    fn write_u64_le(&mut self, n: u64)
        ensures
            final(self).buffered() == old(self).buffered() + spec_u64_le(n),
    ;

    fn write_u64_ne(&mut self, n: u64)
        ensures
            final(self).buffered() == old(self).buffered() + spec_u64_be(n) || final(self).buffered() == old(self).buffered() + spec_u64_le(n),
    ;

    fn write_i64_be(&mut self, n: i64)
        ensures
            final(self).buffered() == old(self).buffered() + spec_u64_be(spec_i64_bits(n)),
    ;

    fn write_i64_le(&mut self, n: i64)
        ensures
            final(self).buffered() == old(self).buffered() + spec_u64_le(spec_i64_bits(n)),
    ;

    fn write_i64_ne(&mut self, n: i64)
        ensures
            final(self).buffered() == old(self).buffered() + spec_u64_be(spec_i64_bits(n)) || final(self).buffered() == old(self).buffered() + spec_u64_le(spec_i64_bits(n)),
    ;
}

impl WriteBytesExt for Vec<u8> {
    open spec fn buffered(&self) -> Seq<u8> {
        self@
    }

    fn write_bytes(&mut self, data: &[u8]) {
        self.extend_from_slice(data);
    }

    fn write_u8(&mut self, n: u8) {
        self.push(n);
    }

    fn write_i8(&mut self, n: i8) {
        self.push(i8_bits(n));
    }

    fn write_u16_be(&mut self, n: u16) {
        self.push((n / 0x100) as u8);
        self.push((n % 0x100) as u8);
        assert(self@ =~= old(self)@ + spec_u16_be(n));
    }

    fn write_u16_le(&mut self, n: u16) {
        self.push((n % 0x100) as u8);
        self.push((n / 0x100) as u8);
        assert(self@ =~= old(self)@ + spec_u16_le(n));
    }

    fn write_u16_ne(&mut self, n: u16) {
        match native_byte_order() {
            ByteOrder::Big => self.write_u16_be(n),
            ByteOrder::Little => self.write_u16_le(n),
        }
    }

    fn write_i16_be(&mut self, n: i16) {
        self.write_u16_be(i16_bits(n));
    }

    fn write_i16_le(&mut self, n: i16) {
        self.write_u16_le(i16_bits(n));
    }

    fn write_i16_ne(&mut self, n: i16) {
        self.write_u16_ne(i16_bits(n));
    }

    fn write_u32_be(&mut self, n: u32) {
        self.push((n / 0x1000000) as u8);
        self.push(((n / 0x10000) % 0x100) as u8);
        self.push(((n / 0x100) % 0x100) as u8);
        self.push((n % 0x100) as u8);
        assert(self@ =~= old(self)@ + spec_u32_be(n));
    }

    fn write_u32_le(&mut self, n: u32) {
        self.push((n % 0x100) as u8);
        self.push(((n / 0x100) % 0x100) as u8);
        self.push(((n / 0x10000) % 0x100) as u8);
        self.push((n / 0x1000000) as u8);
        assert(self@ =~= old(self)@ + spec_u32_be(n).reverse());
    }

    fn write_u32_ne(&mut self, n: u32) {
        match native_byte_order() {
            ByteOrder::Big => self.write_u32_be(n),
            ByteOrder::Little => self.write_u32_le(n),
        }
    }

    fn write_i32_be(&mut self, n: i32) {
        self.write_u32_be(i32_bits(n));
    }

    fn write_i32_le(&mut self, n: i32) {
        self.write_u32_le(i32_bits(n));
    }

    fn write_i32_ne(&mut self, n: i32) {
        self.write_u32_ne(i32_bits(n));
    }

    fn write_u64_be(&mut self, n: u64) {
        self.push((n / 0x100000000000000) as u8);
        self.push(((n / 0x1000000000000) % 0x100) as u8);
        self.push(((n / 0x10000000000) % 0x100) as u8);
        self.push(((n / 0x100000000) % 0x100) as u8);
        self.push(((n / 0x1000000) % 0x100) as u8);
        self.push(((n / 0x10000) % 0x100) as u8);
        self.push(((n / 0x100) % 0x100) as u8);
        self.push((n % 0x100) as u8);
        assert(self@ =~= old(self)@ + spec_u64_be(n));
    }

    fn write_u64_le(&mut self, n: u64) {
        self.push((n % 0x100) as u8);
        self.push(((n / 0x100) % 0x100) as u8);
        self.push(((n / 0x10000) % 0x100) as u8);
        self.push(((n / 0x1000000) % 0x100) as u8);
        self.push(((n / 0x100000000) % 0x100) as u8);
        self.push(((n / 0x10000000000) % 0x100) as u8);
        self.push(((n / 0x1000000000000) % 0x100) as u8);
        self.push((n / 0x100000000000000) as u8);
        assert(self@ =~= old(self)@ + spec_u64_be(n).reverse());
    }

    fn write_u64_ne(&mut self, n: u64) {
        match native_byte_order() {
            ByteOrder::Big => self.write_u64_be(n),
            ByteOrder::Little => self.write_u64_le(n),
        }
    }

    fn write_i64_be(&mut self, n: i64) {
        self.write_u64_be(i64_bits(n));
    }

    fn write_i64_le(&mut self, n: i64) {
        self.write_u64_le(i64_bits(n));
    }

    fn write_i64_ne(&mut self, n: i64) {
        self.write_u64_ne(i64_bits(n));
    }
}

} // verus!
