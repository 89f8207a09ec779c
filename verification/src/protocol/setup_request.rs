//! The SETUP request: the first message on a new connection, carrying the
//! protocol version and the authorization protocol name and data, in the
//! exact wire layout the server expects.

use super::pad;
use super::spec_pad;
use super::Serialize;
use super::PROTOCOL_MAJOR_VERSION;
use super::PROTOCOL_MINOR_VERSION;
use crate::utils::native_byte_order;
use crate::utils::spec_u16_be;
use crate::utils::spec_u16_le;
use crate::utils::ByteOrder;
use crate::utils::WriteBytesExt;
use vstd::prelude::*;
use vstd::utf8::encode_utf8;

verus! {

/// The byte that records the connection's byte order: `B` for big-endian,
/// `l` for little-endian.
pub open spec fn spec_order_byte(order: ByteOrder) -> u8 {
    match order {
        ByteOrder::Big => 0x42,
        ByteOrder::Little => 0x6C,
    }
}

/// The two bytes of `n` in the given order.
pub open spec fn spec_u16_ordered(order: ByteOrder, n: u16) -> Seq<u8> {
    match order {
        ByteOrder::Big => spec_u16_be(n),
        ByteOrder::Little => spec_u16_le(n),
    }
}

/// `n` filler zero bytes.
pub open spec fn zero_bytes(n: int) -> Seq<u8> {
    Seq::new(n as nat, |i: int| 0u8)
}

/// The exact wire layout of a SETUP request: the byte-order indicator, an
/// unused byte, the protocol version, the two field lengths, two unused
/// bytes, then each field padded to the 4-byte alignment rule.
pub open spec fn spec_setup_bytes(name: Seq<u8>, data: Seq<u8>, order: ByteOrder) -> Seq<u8>
    recommends
        name.len() <= 65535,
        data.len() <= 65535,
{
    seq![spec_order_byte(order), 0u8] + spec_u16_ordered(order, PROTOCOL_MAJOR_VERSION)
        + spec_u16_ordered(order, PROTOCOL_MINOR_VERSION) + spec_u16_ordered(
        order,
        name.len() as u16,
    ) + spec_u16_ordered(order, data.len() as u16) + seq![0u8, 0u8] + name + zero_bytes(
        spec_pad(name.len() as int),
    ) + data + zero_bytes(spec_pad(data.len() as int))
}

/// Why building a SETUP request failed: a field longer than the 16-bit wire
/// length can carry.
#[derive(Debug, PartialEq, Eq, Structural)]
pub enum SetupRequestError {
    OversizedField,
}

/// A request for a connection to the X server. Both fields fit the unsigned
/// 16-bit wire length, checked at construction, never at serialization.
#[derive(Debug)]
pub struct SetupRequest {
    auth_protocol_name: String,
    auth_protocol_data: Vec<u8>,
}

impl SetupRequest {
    /// Both fields' byte lengths fit an unsigned 16-bit integer.
    #[verifier::type_invariant]
    pub closed spec fn wf(&self) -> bool {
        encode_utf8(self.auth_protocol_name@).len() <= 65535 && self.auth_protocol_data@.len()
            <= 65535
    }

    /// The authorization protocol name, as the bytes that go on the wire.
    pub closed spec fn spec_name_bytes(&self) -> Seq<u8> {
        encode_utf8(self.auth_protocol_name@)
    }

    /// The authorization protocol data.
    pub closed spec fn spec_data_bytes(&self) -> Seq<u8> {
        self.auth_protocol_data@
    }

    /// Builds a request; fails, before any byte is produced, exactly when
    /// name or data exceeds 65535 bytes.
    pub fn new(auth_protocol_name: &str, auth_protocol_data: &[u8]) -> (r: Result<
        SetupRequest,
        SetupRequestError,
    >)
        ensures
            (match r {
                Result::Ok(req) => encode_utf8(auth_protocol_name@).len() <= 65535
                    && auth_protocol_data@.len() <= 65535 && req.spec_name_bytes() == encode_utf8(
                    auth_protocol_name@,
                ) && req.spec_data_bytes() == auth_protocol_data@,
                Result::Err(e) => (encode_utf8(auth_protocol_name@).len() > 65535
                    || auth_protocol_data@.len() > 65535) && e == SetupRequestError::OversizedField,
            }),
    {
        let name_bytes: &[u8] = auth_protocol_name.as_bytes();
        if name_bytes.len() > 65535 {
            return Result::Err(SetupRequestError::OversizedField);
        }
        if auth_protocol_data.len() > 65535 {
            return Result::Err(SetupRequestError::OversizedField);
        }
        Result::Ok(
            SetupRequest {
                auth_protocol_name: auth_protocol_name.to_owned(),
                auth_protocol_data: vstd::slice::slice_to_vec(auth_protocol_data),
            },
        )
    }

    /// Appends the exact wire bytes of the request, in the given byte order.
    pub fn serialize_ordered<W: WriteBytesExt>(&self, order: ByteOrder, writer: &mut W)
        ensures
            final(writer).buffered() == old(writer).buffered() + spec_setup_bytes(
                self.spec_name_bytes(),
                self.spec_data_bytes(),
                order,
            ),
    {
        proof {
            use_type_invariant(self);
        }
        let mut out: Vec<u8> = Vec::new();
        let name_bytes: &[u8] = self.auth_protocol_name.as_str().as_bytes();
        let name_len = name_bytes.len();
        let data_len = self.auth_protocol_data.len();
        match order {
            ByteOrder::Big => {
                out.write_u8(0x42);
                out.write_u8(0);
                out.write_u16_be(PROTOCOL_MAJOR_VERSION);
                out.write_u16_be(PROTOCOL_MINOR_VERSION);
                out.write_u16_be(name_len as u16);
                out.write_u16_be(data_len as u16);
            },
            ByteOrder::Little => {
                out.write_u8(0x6C);
                out.write_u8(0);
                out.write_u16_le(PROTOCOL_MAJOR_VERSION);
                out.write_u16_le(PROTOCOL_MINOR_VERSION);
                out.write_u16_le(name_len as u16);
                out.write_u16_le(data_len as u16);
            },
        }
        out.write_u8(0);
        out.write_u8(0);
        out.write_bytes(name_bytes);
        write_padding(&mut out, pad(name_len));
        out.write_bytes(self.auth_protocol_data.as_slice());
        write_padding(&mut out, pad(data_len));
        proof {
            assert(out@ =~= spec_setup_bytes(
                self.spec_name_bytes(),
                self.spec_data_bytes(),
                order,
            ));
        }
        writer.write_bytes(out.as_slice());
    }
}

/// Appends `p` filler zero bytes.
fn write_padding(out: &mut Vec<u8>, p: usize)
    ensures
        final(out)@ == old(out)@ + zero_bytes(p as int),
{
    let mut k: usize = 0;
    while k < p
        invariant
            k <= p,
            out@ == old(out)@ + zero_bytes(k as int),
        decreases p - k,
    {
        out.push(0);
        k += 1;
        proof {
            assert(old(out)@ + zero_bytes(k - 1) + seq![0u8] =~= old(out)@ + zero_bytes(k as int));
        }
    }
    proof {
        assert(out@ =~= old(out)@ + zero_bytes(p as int));
    }
}

impl Serialize for SetupRequest {
    /// A byte sequence encodes the request when it is the exact layout in
    /// one of the two byte orders.
    open spec fn is_encoding(&self, bytes: Seq<u8>) -> bool {
        exists|order: ByteOrder|
            bytes == #[trigger] spec_setup_bytes(
                self.spec_name_bytes(),
                self.spec_data_bytes(),
                order,
            )
    }

    /// Serializes in the machine's own byte order, which the first byte of
    /// the layout records.
    fn serialize<W: WriteBytesExt>(&self, writer: &mut W) {
        let order = native_byte_order();
        self.serialize_ordered(order, writer);
        proof {
            let e = spec_setup_bytes(self.spec_name_bytes(), self.spec_data_bytes(), order);
            assert(self.is_encoding(e));
        }
    }
}

} // verus!
