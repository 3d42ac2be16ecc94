use ch32_can_rs::frame::{received_identifier, received_length};
use ch32_can_rs::{CanFrame, StandardId};

#[test]
fn standard_id_takes_eleven_bits() {
    assert_eq!(StandardId::new(0).unwrap().as_raw(), 0);
    assert_eq!(StandardId::new(0x317).unwrap().as_raw(), 0x317);
    assert_eq!(StandardId::new(0x7FF).unwrap().as_raw(), 0x7FF);
    assert_eq!(StandardId::new(0x800), None);
    assert_eq!(StandardId::new(0xFFFF), None);
}

#[test]
fn frame_takes_up_to_eight_bytes() {
    let id = StandardId::new(0x317).unwrap();
    let bytes = [1u8, 2, 3, 4, 5, 6, 7, 8, 9];
    for length in 0..=8 {
        let frame = CanFrame::new(id, &bytes[..length]).unwrap();
        assert_eq!(frame.id(), id);
        assert_eq!(frame.dlc(), length);
        assert_eq!(frame.data(), &bytes[..length]);
    }
    assert_eq!(CanFrame::new(id, &bytes), None);
    assert_eq!(CanFrame::new(id, &[0u8; 64]), None);
}

#[test]
fn frame_packs_bytes_lowest_first() {
    let id = StandardId::new(0x317).unwrap();
    let frame = CanFrame::new(id, &[0x01, 0x23, 0x45, 0x67, 0x89, 0xAB, 0xCD, 0xEF]).unwrap();
    assert_eq!(frame.data_low(), 0x6745_2301);
    assert_eq!(frame.data_high(), 0xEFCD_AB89);
}

#[test]
fn frame_packs_absent_bytes_as_zero() {
    let id = StandardId::new(1).unwrap();
    let frame = CanFrame::new(id, &[0xAA, 0xBB, 0xCC, 0xDD, 0xEE]).unwrap();
    assert_eq!(frame.data_low(), 0xDDCC_BBAA);
    assert_eq!(frame.data_high(), 0x0000_00EE);
    let frame = CanFrame::new(id, &[0xAA, 0xBB]).unwrap();
    assert_eq!(frame.data_low(), 0x0000_BBAA);
    assert_eq!(frame.data_high(), 0);
    let frame = CanFrame::new(id, &[]).unwrap();
    assert_eq!(frame.data_low(), 0);
    assert_eq!(frame.data_high(), 0);
}

#[test]
fn frame_from_registers_takes_identifier_length_and_bytes() {
    let frame = CanFrame::from_registers(0x62E0_0000, 0x0000_0008, 0x6745_2301, 0xEFCD_AB89);
    assert_eq!(frame.id().as_raw(), 0x317);
    assert_eq!(frame.dlc(), 8);
    assert_eq!(frame.data(), &[0x01, 0x23, 0x45, 0x67, 0x89, 0xAB, 0xCD, 0xEF]);
}

#[test]
fn frame_from_registers_drops_bytes_beyond_the_length() {
    let frame = CanFrame::from_registers(0xFFFF_FFFF, 0xFFFF_FFF5, 0xFFFF_FFFF, 0xFFFF_FFFF);
    assert_eq!(frame.id().as_raw(), 0x7FF);
    assert_eq!(frame.data(), &[0xFF; 5]);
    assert_eq!(frame, CanFrame::new(StandardId::new(0x7FF).unwrap(), &[0xFF; 5]).unwrap());
    assert_eq!(frame.data_high(), 0x0000_00FF);
    let empty = CanFrame::from_registers(0, 0xFFFF_FFF0, 0x1234_5678, 0x9ABC_DEF0);
    assert_eq!(empty.data(), &[] as &[u8]);
    assert_eq!(empty.data_low(), 0);
}

#[test]
fn frame_from_registers_reads_a_long_length_as_eight() {
    for field in 8..16u32 {
        let frame = CanFrame::from_registers(0x0020_0000, field, 0x0403_0201, 0x0807_0605);
        assert_eq!(frame.id().as_raw(), 1);
        assert_eq!(frame.data(), &[1, 2, 3, 4, 5, 6, 7, 8]);
    }
}

#[test]
fn frame_survives_its_registers() {
    let bytes = [0x10u8, 0x32, 0x54, 0x76, 0x98, 0xBA, 0xDC, 0xFE];
    for length in 0..=8usize {
        for raw in [0u16, 1, 0x317, 0x400, 0x7FF] {
            let frame = CanFrame::new(StandardId::new(raw).unwrap(), &bytes[..length]).unwrap();
            let back = CanFrame::from_registers(
                (raw as u32) << 21 | 1,
                0xABCD_0000 | length as u32,
                frame.data_low(),
                frame.data_high(),
            );
            assert_eq!(back, frame);
        }
    }
}

#[test]
fn received_fields_are_masked() {
    assert_eq!(received_identifier(0x62E0_0000), 0x317);
    assert_eq!(received_identifier(0x001F_FFFF), 0);
    assert_eq!(received_identifier(0xFFFF_FFFF), 0x7FF);
    assert_eq!(received_length(0x0000_0703), 3);
    assert_eq!(received_length(0xFFFF_FFF0), 0);
    assert_eq!(received_length(0x0000_0009), 8);
}
