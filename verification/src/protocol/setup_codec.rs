//! The codec the SETUP exchange runs on. Decoding the server's SETUP
//! response is the designed but unimplemented extension point, so the
//! decoder reports not-yet-enough-data for every buffer.

use crate::framed::DecodeStep;
use crate::framed::Decoder;
use crate::framed::Encoder;
use crate::framed::FramedError;
use vstd::prelude::*;

verus! {

/// The SETUP message family's codec for the framed transport.
#[derive(Default)]
pub struct SetupCodec {}

impl Encoder for SetupCodec {
    type Item = ();

    open spec fn encoding_of(item: ()) -> Seq<u8> {
        Seq::<u8>::empty()
    }

    fn encode(&mut self, item: (), dst: &mut Vec<u8>) -> (r: Result<(), FramedError>) {
        proof {
            assert(dst@ =~= old(dst)@ + Seq::<u8>::empty());
        }
        Result::Ok(())
    }
}

impl Decoder for SetupCodec {
    type Item = ();

    open spec fn decoded(src: Seq<u8>) -> DecodeStep<()> {
        DecodeStep::Incomplete
    }

    fn decode(&mut self, src: &mut Vec<u8>) -> (r: Result<Option<()>, FramedError>) {
        Result::Ok(Option::None)
    }
}

} // verus!
