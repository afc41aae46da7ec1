use subimg::error::ExtractError;
use subimg::header::{bytes_to_size, iter_to_size, size_to_bytes, word_to_bytes, ByteOrder};

#[test]
fn header_is_eight_bytes() {
    assert_eq!(size_to_bytes(ByteOrder::Little, 7, 9).len(), 8);
}

#[test]
fn bytes_to_size_reads_width_then_height() {
    assert_eq!(
        bytes_to_size(ByteOrder::Little, &[0x80, 0x02, 0, 0, 0xe0, 0x01, 0, 0]),
        Ok((640, 480))
    );
    assert_eq!(
        bytes_to_size(ByteOrder::Big, &[0, 0, 0x02, 0x80, 0, 0, 0x01, 0xe0, 77, 78]),
        Ok((640, 480))
    );
}

#[test]
fn bytes_to_size_inverts_size_to_bytes() {
    for order in [ByteOrder::Little, ByteOrder::Big, ByteOrder::native()] {
        for (w, h) in [(0, 0), (u32::MAX, u32::MAX), (1, 0), (0, 1), (0x0102_0304, 0x0a0b_0c0d)] {
            assert_eq!(bytes_to_size(order, &size_to_bytes(order, w, h)), Ok((w, h)));
        }
    }
}

#[test]
fn bytes_to_size_fails_on_fewer_than_eight_bytes() {
    assert_eq!(
        bytes_to_size(ByteOrder::Little, &[1, 2, 3, 4, 5, 6, 7]),
        Err(ExtractError::TruncatedHeader)
    );
    assert_eq!(bytes_to_size(ByteOrder::Big, &[]), Err(ExtractError::TruncatedHeader));
}

#[test]
fn word_little_endian_bytes() {
    assert_eq!(word_to_bytes(ByteOrder::Little, 0x0102_0304), [4, 3, 2, 1]);
    assert_eq!(word_to_bytes(ByteOrder::Little, 1), [1, 0, 0, 0]);
    assert_eq!(word_to_bytes(ByteOrder::Little, 0x0102_0304), 0x0102_0304u32.to_le_bytes());
}

#[test]
fn word_big_endian_bytes() {
    assert_eq!(word_to_bytes(ByteOrder::Big, 0x0102_0304), [1, 2, 3, 4]);
    assert_eq!(word_to_bytes(ByteOrder::Big, 1), [0, 0, 0, 1]);
    assert_eq!(word_to_bytes(ByteOrder::Big, 0xdead_beef), 0xdead_beefu32.to_be_bytes());
}

#[test]
fn size_bytes_are_width_then_height() {
    assert_eq!(
        size_to_bytes(ByteOrder::Little, 640, 480),
        [0x80, 0x02, 0, 0, 0xe0, 0x01, 0, 0]
    );
    assert_eq!(
        size_to_bytes(ByteOrder::Big, 640, 480),
        [0, 0, 0x02, 0x80, 0, 0, 0x01, 0xe0]
    );
}

#[test]
fn native_order_matches_the_machine() {
    let order = ByteOrder::native();
    let bytes = size_to_bytes(order, 0x1122_3344, 0x5566_7788);
    let w = 0x1122_3344u32.to_ne_bytes();
    let h = 0x5566_7788u32.to_ne_bytes();
    assert_eq!(bytes, [w[0], w[1], w[2], w[3], h[0], h[1], h[2], h[3]]);
    let mut pos = 0usize;
    assert_eq!(
        iter_to_size(&bytes, &mut pos, order),
        Ok(u32::from_ne_bytes([bytes[0], bytes[1], bytes[2], bytes[3]]))
    );
}

#[test]
fn native_order_is_stable() {
    assert_eq!(ByteOrder::native(), ByteOrder::native());
}

fn round_trip(order: ByteOrder, width: u32, height: u32) {
    let bytes = size_to_bytes(order, width, height);
    let mut pos = 0usize;
    assert_eq!(iter_to_size(&bytes, &mut pos, order), Ok(width));
    assert_eq!(pos, 4);
    assert_eq!(iter_to_size(&bytes, &mut pos, order), Ok(height));
    assert_eq!(pos, 8);
}

#[test]
fn size_round_trip_zero() {
    round_trip(ByteOrder::Little, 0, 0);
    round_trip(ByteOrder::Big, 0, 0);
}

#[test]
fn size_round_trip_max() {
    round_trip(ByteOrder::Little, u32::MAX, u32::MAX);
    round_trip(ByteOrder::Big, u32::MAX, u32::MAX);
    assert_eq!(size_to_bytes(ByteOrder::Big, u32::MAX, u32::MAX), [255u8; 8]);
}

#[test]
fn size_round_trip_mixed() {
    round_trip(ByteOrder::Little, 1, u32::MAX);
    round_trip(ByteOrder::Big, 0x8000_0000, 255);
    round_trip(ByteOrder::native(), 1920, 1080);
    round_trip(ByteOrder::Little, 256, 65536);
    round_trip(ByteOrder::Big, 16_777_216, 16_777_215);
}

#[test]
fn orders_differ_on_asymmetric_values() {
    assert_ne!(
        size_to_bytes(ByteOrder::Little, 1, 2),
        size_to_bytes(ByteOrder::Big, 1, 2)
    );
    let bytes = size_to_bytes(ByteOrder::Little, 1, 2);
    let mut pos = 0usize;
    assert_eq!(iter_to_size(&bytes, &mut pos, ByteOrder::Big), Ok(0x0100_0000));
}

#[test]
fn iter_to_size_reads_at_position() {
    let bytes = [9u8, 9, 1, 2, 3, 4, 9];
    let mut pos = 2usize;
    assert_eq!(iter_to_size(&bytes, &mut pos, ByteOrder::Big), Ok(0x0102_0304));
    assert_eq!(pos, 6);
    let mut pos = 2usize;
    assert_eq!(iter_to_size(&bytes, &mut pos, ByteOrder::Little), Ok(0x0403_0201));
    assert_eq!(pos, 6);
}

#[test]
fn iter_to_size_fails_on_short_input() {
    let bytes = [1u8, 2, 3];
    let mut pos = 0usize;
    assert_eq!(
        iter_to_size(&bytes, &mut pos, ByteOrder::Little),
        Err(ExtractError::TruncatedHeader)
    );
    assert_eq!(pos, 3);
    let empty: [u8; 0] = [];
    let mut pos = 0usize;
    assert_eq!(
        iter_to_size(&empty, &mut pos, ByteOrder::Big),
        Err(ExtractError::TruncatedHeader)
    );
    assert_eq!(pos, 0);
}

#[test]
fn iter_to_size_uses_up_what_is_left_when_it_fails() {
    let bytes = [1u8, 2, 3];
    for start in 0..=3usize {
        let mut pos = start;
        assert_eq!(
            iter_to_size(&bytes, &mut pos, ByteOrder::Big),
            Err(ExtractError::TruncatedHeader)
        );
        assert_eq!(pos, bytes.len());
    }
    // Nothing is left to read after a failure.
    let mut pos = 1usize;
    assert!(iter_to_size(&bytes, &mut pos, ByteOrder::Little).is_err());
    assert_eq!(bytes[pos..].len(), 0);
    assert!(iter_to_size(&bytes, &mut pos, ByteOrder::Little).is_err());
    assert_eq!(pos, 3);
}

#[test]
fn iter_to_size_fails_near_the_end() {
    let bytes = [1u8, 2, 3, 4, 5];
    let mut pos = 2usize;
    assert_eq!(
        iter_to_size(&bytes, &mut pos, ByteOrder::Little),
        Err(ExtractError::TruncatedHeader)
    );
    assert_eq!(pos, 5);
    let mut pos = 1usize;
    assert_eq!(iter_to_size(&bytes, &mut pos, ByteOrder::Little), Ok(0x0504_0302));
    assert_eq!(pos, 5);
    assert_eq!(
        iter_to_size(&bytes, &mut pos, ByteOrder::Little),
        Err(ExtractError::TruncatedHeader)
    );
    assert_eq!(pos, 5);
}

#[test]
fn iter_to_size_leaves_a_position_beyond_the_end() {
    let bytes = [1u8, 2, 3, 4, 5];
    let mut pos = 9usize;
    assert_eq!(
        iter_to_size(&bytes, &mut pos, ByteOrder::Little),
        Err(ExtractError::TruncatedHeader)
    );
    assert_eq!(pos, 9);
    let mut pos = usize::MAX;
    assert_eq!(
        iter_to_size(&bytes, &mut pos, ByteOrder::Little),
        Err(ExtractError::TruncatedHeader)
    );
    assert_eq!(pos, usize::MAX);
}

#[test]
fn of_one_tells_the_order_from_the_layout_of_one() {
    assert_eq!(ByteOrder::of_one([1, 0]), ByteOrder::Little);
    assert_eq!(ByteOrder::of_one([0, 1]), ByteOrder::Big);
    assert_eq!(ByteOrder::of_one(1u16.to_le_bytes()), ByteOrder::Little);
    assert_eq!(ByteOrder::of_one(1u16.to_be_bytes()), ByteOrder::Big);
}

#[test]
fn of_one_is_big_unless_the_first_byte_is_one() {
    assert_eq!(ByteOrder::of_one([0, 0]), ByteOrder::Big);
    assert_eq!(ByteOrder::of_one([2, 0]), ByteOrder::Big);
    assert_eq!(ByteOrder::of_one([1, 1]), ByteOrder::Little);
}

#[test]
fn native_is_the_order_of_the_layout_of_one_in_memory() {
    assert_eq!(ByteOrder::native(), ByteOrder::of_one(1u16.to_ne_bytes()));
}
