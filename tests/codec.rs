use am_presence::codec::{pack, unpack};
use am_presence::RichPresenceError;

#[test]
fn pack_is_little_endian_tag_then_length() {
    assert_eq!(pack(1, 0x0102_0304), vec![1, 0, 0, 0, 4, 3, 2, 1]);
    assert_eq!(pack(0xdead_beef, 0), vec![0xef, 0xbe, 0xad, 0xde, 0, 0, 0, 0]);
}

#[test]
fn pack_always_yields_eight_bytes() {
    for (tag, length) in [(0u32, 0u32), (2, 17), (u32::MAX, u32::MAX)] {
        assert_eq!(pack(tag, length).len(), 8);
    }
}

#[test]
fn unpack_inverts_pack() {
    for (tag, length) in [(0u32, 0u32), (1, 42), (2, 65_536), (u32::MAX, 7), (9, u32::MAX)] {
        assert_eq!(unpack(&pack(tag, length)), Ok((tag, length)));
    }
}

#[test]
fn unpack_refuses_wrong_sizes() {
    assert_eq!(unpack(&[0u8; 7]), Err(RichPresenceError::RecvInvalidPacket));
    assert_eq!(unpack(&[0u8; 9]), Err(RichPresenceError::RecvInvalidPacket));
    assert_eq!(unpack(&[]), Err(RichPresenceError::RecvInvalidPacket));
}
