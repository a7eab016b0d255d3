//! LAN addresses, bounded peer admission, the version hello and frame lengths.
use vstd::prelude::*;

pub mod address;
pub mod framing;
pub mod hello;
pub mod peer_limit;

verus! {

/// Closed LAN error vocabulary without peer addresses or operating system text.
#[derive(Clone, Copy, Debug, PartialEq, Eq, Structural)]
pub enum LanError {
    BindFailed,
    AcceptFailed,
    ConnectFailed,
    ConnectionSetupFailed,
    ConnectionClosed,
    HandshakeTimedOut,
    InvalidHello,
    UnsupportedVersion,
    HandshakeIoFailed,
    PeerLimitReached,
    PeerLimitUnavailable,
    ShutdownFailed,
}

/// The description of a `LanError`.
pub open spec fn lan_error_text(error: LanError) -> Seq<char> {
    match error {
        LanError::BindFailed => "LAN listener could not bind"@,
        LanError::AcceptFailed => "LAN listener could not accept a connection"@,
        LanError::ConnectFailed => "LAN peer connection failed"@,
        LanError::ConnectionSetupFailed => "LAN connection limits could not be applied"@,
        LanError::ConnectionClosed => "LAN peer closed during handshake"@,
        LanError::HandshakeTimedOut => "LAN version handshake timed out"@,
        LanError::InvalidHello => "LAN peer sent an invalid hello"@,
        LanError::UnsupportedVersion => "LAN peer uses an unsupported protocol version"@,
        LanError::HandshakeIoFailed => "LAN version handshake failed"@,
        LanError::PeerLimitReached => "LAN peer connection limit reached"@,
        LanError::PeerLimitUnavailable => "LAN peer connection limiter is unavailable"@,
        LanError::ShutdownFailed => "LAN connection could not close cleanly"@,
    }
}

impl LanError {
    /// Short human-readable description.
    pub fn message(&self) -> (text: &'static str)
        ensures
            text@ == lan_error_text(*self),
    {
        match self {
            LanError::BindFailed => "LAN listener could not bind",
            LanError::AcceptFailed => "LAN listener could not accept a connection",
            LanError::ConnectFailed => "LAN peer connection failed",
            LanError::ConnectionSetupFailed => "LAN connection limits could not be applied",
            LanError::ConnectionClosed => "LAN peer closed during handshake",
            LanError::HandshakeTimedOut => "LAN version handshake timed out",
            LanError::InvalidHello => "LAN peer sent an invalid hello",
            LanError::UnsupportedVersion => "LAN peer uses an unsupported protocol version",
            LanError::HandshakeIoFailed => "LAN version handshake failed",
            LanError::PeerLimitReached => "LAN peer connection limit reached",
            LanError::PeerLimitUnavailable => "LAN peer connection limiter is unavailable",
            LanError::ShutdownFailed => "LAN connection could not close cleanly",
        }
    }
}

} // verus!
