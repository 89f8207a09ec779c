//! The connection orchestrator: composing a resolved display address, an
//! externally supplied stream, and the framed SETUP transport into one
//! handshake.

use crate::display::Display;
use crate::display::DisplayError;
use crate::framed::Framed;
use crate::framed::StreamError;
use crate::framed::StreamMarker;
use crate::protocol::SetupCodec;
use vstd::prelude::*;

verus! {

/// An address kind the local transport cannot route: a capability gap,
/// rejected before any I/O is attempted, distinct from a runtime fault.
#[derive(Debug, PartialEq, Eq, Structural)]
pub enum CapabilityError {
    HostnameNotSupported,
    ScreenNotSupported,
}

/// Why opening a connection failed: no usable display address, an address
/// kind the transport cannot route, or the transport itself.
#[derive(Debug)]
pub enum ConnectionError {
    DisplayNotAvailable(DisplayError),
    Unsupported(CapabilityError),
    Io(StreamError),
}

impl Display {
    /// The display number of an address the local transport can serve: one
    /// with no hostname and no explicit screen. Hostname-routed and
    /// explicit-screen addresses are each rejected with their own
    /// capability gap.
    pub fn local_display(&self) -> (r: Result<u16, CapabilityError>)
        ensures
            (match r {
                Result::Ok(n) => self@.hostname is None && self@.screen is None && n
                    == self@.display,
                Result::Err(e) => (e == CapabilityError::HostnameNotSupported <==> self@.hostname
                    is Some) && (e == CapabilityError::ScreenNotSupported <==> (self@.hostname
                    is None && self@.screen is Some)),
            }),
    {
        if self.hostname.is_some() {
            return Result::Err(CapabilityError::HostnameNotSupported);
        }
        if self.screen.is_some() {
            return Result::Err(CapabilityError::ScreenNotSupported);
        }
        Result::Ok(self.display)
    }
}

/// A connection to the X server over any duplex byte stream.
/// Open one over a stream you supply with [`Connection::setup`].
pub struct Connection<S: StreamMarker> {
    _framed: Framed<S, SetupCodec>,
}

impl<S: StreamMarker> Connection<S> {
    /// The bytes the connection's transport has read but not consumed.
    pub closed spec fn buffered(&self) -> Seq<u8> {
        self._framed.buffered()
    }

    /// The bytes the connection's stream has yet to serve.
    pub closed spec fn upcoming(&self) -> Seq<u8> {
        self._framed.upcoming()
    }

    /// Sets a connection up over any supplied duplex byte stream, pairing it
    /// with the SETUP codec: the transport starts with an empty buffer and
    /// the stream's bytes untouched.
    pub fn setup(stream: S) -> (r: Result<Connection<S>, ConnectionError>)
        ensures
            (r matches Result::Ok(c) && c.buffered() == Seq::<u8>::empty() && c.upcoming()
                == stream.serving()),
    {
        let setup_codec = SetupCodec {  };
        let _framed = Framed::new(stream, setup_codec);
        Result::Ok(Connection { _framed })
    }
}

} // verus!
