//! Which addresses count as LAN addresses, and the checks on address text.
use vstd::prelude::*;

verus! {

/// Longest accepted address text.
pub const MAX_ADDRESS_TEXT_BYTES: usize = 64;

/// Why an address was refused.
#[derive(Clone, Copy, Debug, PartialEq, Eq, Structural)]
pub enum AddressError {
    Empty,
    TooLong,
    Invalid,
    MissingPort,
    OutsideLan,
}

/// The description of a `AddressError`.
pub open spec fn address_error_text(error: AddressError) -> Seq<char> {
    match error {
        AddressError::Empty => "LAN address is empty"@,
        AddressError::TooLong => "LAN address is too long"@,
        AddressError::Invalid => "LAN address is invalid"@,
        AddressError::MissingPort => "LAN peer port is missing"@,
        AddressError::OutsideLan => "address is outside the allowed LAN ranges"@,
    }
}

impl AddressError {
    /// Short human-readable description that never repeats the address.
    pub fn message(&self) -> (text: &'static str)
        ensures
            text@ == address_error_text(*self),
    {
        match self {
            AddressError::Empty => "LAN address is empty",
            AddressError::TooLong => "LAN address is too long",
            AddressError::Invalid => "LAN address is invalid",
            AddressError::MissingPort => "LAN peer port is missing",
            AddressError::OutsideLan => "address is outside the allowed LAN ranges",
        }
    }
}

/// An IP address as plain numbers: four octets or eight 16-bit segments.
#[derive(Clone, Copy, Debug, PartialEq, Eq, Structural)]
pub enum LanIp {
    V4(u8, u8, u8, u8),
    V6(u16, u16, u16, u16, u16, u16, u16, u16),
}

/// Private (10/8, 172.16/12, 192.168/16), link-local (169.254/16) and
/// loopback (127/8) IPv4 addresses; loopback (::1), unique-local (fc00::/7)
/// and link-local (fe80::/10) IPv6 addresses.
pub open spec fn lan_ip(ip: LanIp) -> bool {
    match ip {
        LanIp::V4(a, b, _, _) => a == 10 || (a == 172 && 16 <= b <= 31) || (a == 192 && b == 168)
            || (a == 169 && b == 254) || a == 127,
        LanIp::V6(s0, s1, s2, s3, s4, s5, s6, s7) => (s0 == 0 && s1 == 0 && s2 == 0 && s3 == 0
            && s4 == 0 && s5 == 0 && s6 == 0 && s7 == 1) || (0xfc00 <= s0 <= 0xfdff) || (0xfe80
            <= s0 <= 0xfebf),
    }
}

pub fn is_lan_ip(ip: LanIp) -> (lan: bool)
    ensures
        lan == lan_ip(ip),
        private_v4(ip) ==> lan,
{
    match ip {
        LanIp::V4(a, b, _, _) => a == 10 || (a == 172 && 16 <= b && b <= 31) || (a == 192 && b
            == 168) || (a == 169 && b == 254) || a == 127,
        LanIp::V6(s0, s1, s2, s3, s4, s5, s6, s7) => (s0 == 0 && s1 == 0 && s2 == 0 && s3 == 0
            && s4 == 0 && s5 == 0 && s6 == 0 && s7 == 1) || (0xfc00 <= s0 && s0 <= 0xfdff) || (
        0xfe80 <= s0 && s0 <= 0xfebf),
    }
}

/// Address text must be non-empty and at most 64 bytes before it is parsed.
pub fn check_address_text(len: usize) -> (result: Result<(), AddressError>)
    ensures
        len == 0 ==> result == Err::<(), AddressError>(AddressError::Empty),
        len > MAX_ADDRESS_TEXT_BYTES ==> result == Err::<(), AddressError>(AddressError::TooLong),
        1 <= len <= MAX_ADDRESS_TEXT_BYTES ==> result is Ok,
{
    if len == 0 {
        return Err(AddressError::Empty);
    }
    if len > MAX_ADDRESS_TEXT_BYTES {
        return Err(AddressError::TooLong);
    }
    Ok(())
}

/// An IPv4 address in one of the private ranges of RFC 1918: 10/8,
/// 172.16/12 or 192.168/16.
pub open spec fn private_v4(ip: LanIp) -> bool {
    ip matches LanIp::V4(a, b, _, _) && (a == 10 || (a == 172 && 16 <= b && b <= 31) || (a == 192
        && b == 168))
}

/// A listener may bind only a LAN address; port zero asks for an ephemeral port.
pub fn check_bind_address(ip: LanIp, port: u16) -> (result: Result<(), AddressError>)
    ensures
        private_v4(ip) ==> result is Ok,
        ip == LanIp::V4(127, 0, 0, 1) ==> result is Ok,
        lan_ip(ip) ==> result is Ok,
        !lan_ip(ip) ==> result == Err::<(), AddressError>(AddressError::OutsideLan),
{
    proof {
        law_lan_ranges();
    }
    if !is_lan_ip(ip) {
        return Err(AddressError::OutsideLan);
    }
    Ok(())
}

/// A peer must be a LAN address with a port.
pub fn check_peer_address(ip: LanIp, port: u16) -> (result: Result<(), AddressError>)
    ensures
        port == 0 ==> result == Err::<(), AddressError>(AddressError::MissingPort),
        port != 0 && private_v4(ip) ==> result is Ok,
        port != 0 && ip == LanIp::V4(127, 0, 0, 1) ==> result is Ok,
        port != 0 && !lan_ip(ip) ==> result == Err::<(), AddressError>(AddressError::OutsideLan),
        port != 0 && lan_ip(ip) ==> result is Ok,
{
    proof {
        law_lan_ranges();
    }
    if port == 0 {
        return Err(AddressError::MissingPort);
    }
    if !is_lan_ip(ip) {
        return Err(AddressError::OutsideLan);
    }
    Ok(())
}

/// Which addresses are LAN addresses: every address of the private IPv4
/// ranges (10/8, 172.16/12, 192.168/16), of IPv4 link-local (169.254/16)
/// and loopback (127/8), IPv6 loopback (::1), unique-local (fc00::/7) and
/// link-local (fe80::/10) addresses are; public addresses and the ranges'
/// neighbours are not.
pub proof fn law_lan_ranges()
    ensures
        forall|b: u8, c: u8, d: u8| #[trigger] lan_ip(LanIp::V4(10, b, c, d)),
        forall|b: u8, c: u8, d: u8|
            16 <= b <= 31 ==> #[trigger] lan_ip(LanIp::V4(172, b, c, d)),
        forall|c: u8, d: u8| #[trigger] lan_ip(LanIp::V4(192, 168, c, d)),
        forall|c: u8, d: u8| #[trigger] lan_ip(LanIp::V4(169, 254, c, d)),
        forall|b: u8, c: u8, d: u8| #[trigger] lan_ip(LanIp::V4(127, b, c, d)),
        forall|ip: LanIp| #[trigger] private_v4(ip) ==> lan_ip(ip),
        forall|b: u8, c: u8, d: u8|
            b < 16 || b > 31 ==> !#[trigger] lan_ip(LanIp::V4(172, b, c, d)),
        forall|b: u8, c: u8, d: u8| b != 168 ==> !#[trigger] lan_ip(LanIp::V4(192, b, c, d)),
        forall|b: u8, c: u8, d: u8| b != 254 ==> !#[trigger] lan_ip(LanIp::V4(169, b, c, d)),
        !lan_ip(LanIp::V4(8, 8, 8, 8)),
        !lan_ip(LanIp::V4(0, 0, 0, 0)),
        !lan_ip(LanIp::V4(255, 255, 255, 255)),
        lan_ip(LanIp::V6(0, 0, 0, 0, 0, 0, 0, 1)),
        !lan_ip(LanIp::V6(0, 0, 0, 0, 0, 0, 0, 0)),
        forall|s0: u16, s1: u16, s2: u16, s3: u16, s4: u16, s5: u16, s6: u16, s7: u16|
            0xfc00 <= s0 <= 0xfdff ==> #[trigger] lan_ip(LanIp::V6(s0, s1, s2, s3, s4, s5, s6, s7)),
        forall|s0: u16, s1: u16, s2: u16, s3: u16, s4: u16, s5: u16, s6: u16, s7: u16|
            0xfe80 <= s0 <= 0xfebf ==> #[trigger] lan_ip(LanIp::V6(s0, s1, s2, s3, s4, s5, s6, s7)),
        forall|s1: u16, s2: u16, s3: u16, s4: u16, s5: u16, s6: u16, s7: u16|
            !#[trigger] lan_ip(LanIp::V6(0x2001, s1, s2, s3, s4, s5, s6, s7)),
{
}

} // verus!
