//! Wire-format rules shared by the protocol messages: the 4-byte alignment
//! rule, the protocol version constants, and the serialization capability
//! pair any message family implements once and injects into the framed
//! transport.

mod setup_codec;
mod setup_request;

pub use setup_codec::SetupCodec;
pub use setup_request::{SetupRequest, SetupRequestError};

use crate::framed::DecodeStep;
use crate::framed::FramedError;
use crate::utils::WriteBytesExt;
use vstd::prelude::*;

verus! {

pub use setup_request::spec_setup_bytes;

/// Encoding a typed message to outgoing bytes, through any byte sink.
pub trait Serialize {
    /// Which byte sequences encode this message.
    spec fn is_encoding(&self, bytes: Seq<u8>) -> bool;

    fn serialize<W: WriteBytesExt>(&self, writer: &mut W)
        ensures
            exists|e: Seq<u8>|
                #![trigger self.is_encoding(e)]
                final(writer).buffered() == old(writer).buffered() + e && self.is_encoding(e),
    ;
}

/// Decoding a typed message from buffered bytes, or reporting
/// not-yet-enough-data: the extension point for the SETUP response and any
/// later message family.
pub trait Deserialize: Sized + View {
    /// What this message type makes of a buffer's front.
    spec fn decoded_from(src: Seq<u8>) -> DecodeStep<Self::V>;

    fn deserialize(src: &mut Vec<u8>) -> (r: Result<Option<Self>, FramedError>)
        ensures
            (match Self::decoded_from(old(src)@) {
                DecodeStep::Incomplete => r matches Result::Ok(o) && o is None && final(src)@ == old(
                    src,
                )@,
                DecodeStep::Invalid => (r matches Result::Err(e) && e is InvalidData) && final(src)@
                    == old(src)@,
                DecodeStep::Item(v, used) => (r matches Result::Ok(o) && o matches Option::Some(
                    item,
                ) && item@ == v && 0 <= used <= old(src)@.len() && final(src)@ == old(
                    src,
                )@.skip(used)),
            }),
    ;
}

/// X Window System protocol major version.
pub const PROTOCOL_MAJOR_VERSION: u16 = 11;

/// X Window System protocol minor version.
pub const PROTOCOL_MINOR_VERSION: u16 = 0;

/// The number of filler bytes that take a length of `n` up to a multiple of 4.
pub open spec fn spec_pad(n: int) -> int {
    (4 - (n % 4)) % 4
}

/// Filler-byte count for the protocol's 4-byte alignment rule: appending
/// `pad(e)` zero bytes after `e` bytes of payload aligns the total to 4.
pub fn pad(e: usize) -> (r: usize)
    ensures
        r == spec_pad(e as int),
        0 <= r <= 3,
        (e as int + r as int) % 4 == 0,
{
    let r = (4 - (e % 4)) % 4;
    proof {
        lemma_pad_aligns(e as int);
    }
    r
}

/// The alignment rule behind [`pad`]: for every length `n >= 0`, the padded
/// length `n + spec_pad(n)` is a multiple of 4, and the filler count is at
/// most 3.
pub proof fn lemma_pad_aligns(n: int)
    requires
        n >= 0,
    ensures
        0 <= spec_pad(n) <= 3,
        (n + spec_pad(n)) % 4 == 0,
{
    let m = n % 4;
    assert(0 <= m < 4);
    assert(n == 4 * (n / 4) + m);
    if m == 0 {
        assert((n + spec_pad(n)) % 4 == 0);
    } else {
        assert(spec_pad(n) == 4 - m);
        assert(n + spec_pad(n) == 4 * (n / 4) + 4);
        assert((4 * (n / 4) + 4) % 4 == 0) by {
            let k = n / 4;
            assert((4 * k + 4) == 4 * (k + 1));
            assert((4 * (k + 1)) % 4 == 0) by (nonlinear_arith);
        }
    }
}

} // verus!
