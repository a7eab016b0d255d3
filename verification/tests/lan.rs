use lantern::lan::address::{check_address_text, check_peer_address, AddressError, LanIp};
use lantern::lan::framing::{decode_frame_length, encode_frame_length, FrameError, MAX_FRAME_BYTES};
use lantern::lan::hello::{decode_hello, encode_hello, LAN_PROTOCOL_VERSION};
use lantern::lan::peer_limit::{
    PeerTable, MAX_CONNECTION_ATTEMPTS_PER_PEER_WINDOW, MAX_TRACKED_PEERS,
    PEER_ATTEMPT_WINDOW_MILLISECONDS,
};
use lantern::lan::LanError;

#[test]
fn hello_has_one_fixed_vector() {
    assert_eq!(encode_hello(), [0x4c, 0x41, 0x4e, 0x54, 0x01, 0x01, 0x00, 0x00]);
    assert!(decode_hello(encode_hello()).is_ok());
}

#[test]
fn unsupported_version_has_a_separate_closed_error() {
    let mut hello = encode_hello();
    hello[5] = LAN_PROTOCOL_VERSION + 1;
    assert_eq!(decode_hello(hello), Err(LanError::UnsupportedVersion));
}

#[test]
fn every_non_version_field_is_strict() {
    for index in [0_usize, 1, 2, 3, 4, 6, 7] {
        let mut hello = encode_hello();
        hello[index] ^= 0x80;
        assert_eq!(decode_hello(hello), Err(LanError::InvalidHello));
    }
}

#[test]
fn minimum_and_maximum_frames_have_big_endian_prefixes() {
    assert_eq!(encode_frame_length(1), Ok([0, 0, 0, 1]));
    assert_eq!(encode_frame_length(MAX_FRAME_BYTES), Ok([0, 1, 0, 0]));
}

#[test]
fn empty_oversized_and_capacity_excess_are_rejected_before_body_read() {
    assert_eq!(
        decode_frame_length([0, 0, 0, 0], MAX_FRAME_BYTES),
        Err(FrameError::ProtocolViolation)
    );
    assert_eq!(
        decode_frame_length([0, 1, 0, 1], MAX_FRAME_BYTES),
        Err(FrameError::ProtocolViolation)
    );
    assert_eq!(decode_frame_length([0, 0, 0, 2], 1), Err(FrameError::ResourceExhausted));
    assert_eq!(encode_frame_length(0), Err(FrameError::ProtocolViolation));
    assert_eq!(encode_frame_length(MAX_FRAME_BYTES + 1), Err(FrameError::ProtocolViolation));
}

#[test]
fn frame_prefixes_follow_only_the_documented_length_rule() {
    let mut state = 0x4c41_4e46_5241_4d45_u64;
    for _ in 0..256 {
        state ^= state << 13;
        state ^= state >> 7;
        state ^= state << 17;
        let bytes = state.to_le_bytes();
        let prefix = [bytes[0] & 0x01, bytes[1] & 0x01, bytes[2], bytes[3]];
        let capacity = usize::from(u16::from_le_bytes([bytes[4], bytes[5]])) + usize::from(bytes[6] & 1);
        let logical = u32::from_be_bytes(prefix) as usize;
        let result = decode_frame_length(prefix, capacity);
        if logical == 0 || logical > MAX_FRAME_BYTES {
            assert_eq!(result, Err(FrameError::ProtocolViolation));
        } else if logical > capacity {
            assert_eq!(result, Err(FrameError::ResourceExhausted));
        } else {
            assert_eq!(result, Ok(logical));
            assert_eq!(encode_frame_length(logical), Ok(prefix));
        }
    }
}

fn peer(last: u8) -> LanIp {
    LanIp::V4(10, 0, 0, last)
}

#[test]
fn active_connection_blocks_a_second_connection_from_the_same_peer() {
    let mut table = PeerTable::new();
    let now = 1_000;
    assert!(table.reserve(peer(1), now).is_ok());
    assert_eq!(table.reserve(peer(1), now), Err(LanError::PeerLimitReached));
    table.release(peer(1));
    assert!(table.reserve(peer(1), now).is_ok());
}

#[test]
fn reconnect_attempts_are_limited_across_separate_connections() {
    let mut table = PeerTable::new();
    let now = 1_000;
    for _ in 0..MAX_CONNECTION_ATTEMPTS_PER_PEER_WINDOW {
        assert!(table.reserve(peer(2), now).is_ok());
        table.release(peer(2));
    }

    assert_eq!(table.reserve(peer(2), now), Err(LanError::PeerLimitReached));
    assert!(table.reserve(peer(2), now + PEER_ATTEMPT_WINDOW_MILLISECONDS).is_ok());
}

#[test]
fn peer_table_has_a_fixed_entry_limit() {
    let mut table = PeerTable::new();
    let now = 1_000;
    for number in 0..MAX_TRACKED_PEERS {
        let third = u8::try_from(number / 256).unwrap_or_else(|_| panic!("third octet fits"));
        let fourth = u8::try_from(number % 256).unwrap_or_else(|_| panic!("fourth octet fits"));
        assert!(table.reserve(LanIp::V4(10, 1, third, fourth), now).is_ok());
    }
    assert_eq!(table.len(), MAX_TRACKED_PEERS);
    assert_eq!(table.reserve(LanIp::V4(10, 2, 0, 1), now), Err(LanError::PeerLimitReached));
}

#[test]
fn public_address_errors_do_not_repeat_untrusted_text() {
    let marker = "public-peer-marker.example:38383";
    assert!(check_address_text(marker.len()).is_ok());
    for error in [
        AddressError::Empty,
        AddressError::TooLong,
        AddressError::Invalid,
        AddressError::MissingPort,
        AddressError::OutsideLan,
    ] {
        assert!(!error.message().contains(marker));
        assert!(!format!("{error:?}").contains(marker));
    }
}

#[test]
fn only_lan_peers_with_ports_are_accepted() {
    assert_eq!(check_peer_address(LanIp::V4(192, 168, 1, 2), 0), Err(AddressError::MissingPort));
    assert_eq!(check_peer_address(LanIp::V4(8, 8, 8, 8), 53), Err(AddressError::OutsideLan));
    assert!(check_peer_address(LanIp::V4(172, 16, 0, 1), 38383).is_ok());
    assert_eq!(check_peer_address(LanIp::V4(172, 32, 0, 1), 38383), Err(AddressError::OutsideLan));
    assert!(check_peer_address(LanIp::V6(0xfe80, 0, 0, 0, 0, 0, 0, 1), 1).is_ok());
    assert!(check_peer_address(LanIp::V6(0, 0, 0, 0, 0, 0, 0, 1), 1).is_ok());
    assert_eq!(check_address_text(0), Err(AddressError::Empty));
    assert_eq!(check_address_text(65), Err(AddressError::TooLong));
}
