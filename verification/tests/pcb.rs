use iso14443::type_a::pcb::{BlockType, Pcb, RBlockSubtype, SBlockSubtype};

#[test]
fn test_pcb_iblock_parsing() {
    let pcb = Pcb::try_from(0x02).unwrap(); // I-block, no chaining, block number 0
    assert_eq!(pcb.block_type, BlockType::IBlock);
    assert_eq!(pcb.block_number(), 0);
    assert!(!pcb.chaining);
    assert_eq!(pcb.r_subtype, None);
    assert_eq!(pcb.s_subtype, None);
}

#[test]
fn test_pcb_iblock_with_chaining() {
    let pcb = Pcb::try_from(0x13).unwrap(); // I-block, chaining, block number 1
    assert_eq!(pcb.block_type, BlockType::IBlock);
    assert_eq!(pcb.block_number(), 1);
    assert!(pcb.chaining);
}

#[test]
fn test_pcb_rblock_ack() {
    let pcb = Pcb::try_from(0xA2).unwrap(); // R-block ACK, block number 0
    assert_eq!(pcb.block_type, BlockType::RBlock);
    assert_eq!(pcb.r_subtype, Some(RBlockSubtype::Ack));
    assert_eq!(pcb.block_number(), 0);
    assert!(!pcb.chaining); // R-blocks should never have chaining
}

#[test]
fn test_pcb_rblock_nak() {
    let pcb = Pcb::try_from(0xB2).unwrap(); // R-block NAK, block number 0
    assert_eq!(pcb.block_type, BlockType::RBlock);
    assert_eq!(pcb.r_subtype, Some(RBlockSubtype::Nak));
    assert!(!pcb.chaining); // R-blocks should never have chaining
}

#[test]
fn test_pcb_sblock_deselect() {
    let pcb = Pcb::try_from(0xc2).unwrap(); // S-block DESELECT
    assert_eq!(pcb.block_type, BlockType::SBlock);
    assert_eq!(pcb.s_subtype, Some(SBlockSubtype::Deselect));
}

#[test]
fn test_pcb_sblock_wtx() {
    let pcb = Pcb::try_from(0xf2).unwrap(); // S-block WTX
    assert_eq!(pcb.block_type, BlockType::SBlock);
    assert_eq!(pcb.s_subtype, Some(SBlockSubtype::Wtx));
}

#[test]
fn test_pcb_roundtrip_comprehensive() {
    // Test all possible u8 values for roundtrip consistency
    for byte in 0u8..=255 {
        if let Ok(pcb) = Pcb::try_from(byte) {
            let converted: u8 = pcb.clone().into();
            assert_eq!(
                byte, converted,
                "Roundtrip failed for 0x{:02X}: got 0x{:02X}",
                byte, converted
            );
        }
        // If parsing fails, that's expected for invalid values
    }
}

#[test]
fn test_pcb_rejects_bit_1_clear() {
    // Test that PCB parsing rejects bytes with bit 1 clear (should always be set)
    let invalid_bytes = [
        0x00, 0x01, 0x04, 0x05, 0x40, 0x41, 0x44, 0x45, 0x80, 0x81, 0x84, 0x85,
    ]; // Various block types with bit 1 clear

    for &byte in &invalid_bytes {
        let result = Pcb::try_from(byte);
        assert!(
            result.is_err(),
            "Byte 0x{:02X} with bit 1 clear should be rejected",
            byte
        );
    }
}

#[test]
fn test_pcb_iblock_rejects_bit_5_set() {
    // Test that I-block PCB parsing rejects bytes with bit 5 set (should always be 0)
    let invalid_iblock_bytes = [
        0x22, 0x23, 0x26, 0x27, 0x2A, 0x2B, 0x2E, 0x2F, // Various I-blocks with bit 5 set
    ];

    for &byte in &invalid_iblock_bytes {
        let result = Pcb::try_from(byte);
        assert!(
            result.is_err(),
            "I-block byte 0x{:02X} with bit 5 set should be rejected",
            byte
        );
    }

    // Test that valid I-blocks (bit 5 = 0) are accepted
    let valid_iblock_bytes = [0x02, 0x03, 0x12, 0x13, 0x0A, 0x0B, 0x1A, 0x1B];

    for &byte in &valid_iblock_bytes {
        let result = Pcb::try_from(byte);
        assert!(
            result.is_ok(),
            "Valid I-block byte 0x{:02X} should be accepted",
            byte
        );
        if let Ok(pcb) = result {
            assert_eq!(pcb.block_type, BlockType::IBlock);
        }
    }
}

#[test]
fn test_pcb_rblock_requires_bit_5_set() {
    // Test that R-block PCB parsing rejects bytes with bit 5 clear (should always be 1)
    let invalid_rblock_bytes = [
        0x82, 0x83, 0x86, 0x87, 0x8A, 0x8B, 0x8E,
        0x8F, // Various R-blocks with bit 5 clear
    ];

    for &byte in &invalid_rblock_bytes {
        let result = Pcb::try_from(byte);
        assert!(
            result.is_err(),
            "R-block byte 0x{:02X} with bit 5 clear should be rejected",
            byte
        );
    }

    // Test that valid R-blocks (bit 5 = 1) are accepted
    let valid_rblock_bytes = [0xA2, 0xA3, 0xB2, 0xB3, 0xAA, 0xAB, 0xBA, 0xBB];

    for &byte in &valid_rblock_bytes {
        let result = Pcb::try_from(byte);
        assert!(
            result.is_ok(),
            "Valid R-block byte 0x{:02X} should be accepted",
            byte
        );
        if let Ok(pcb) = result {
            assert_eq!(pcb.block_type, BlockType::RBlock);
        }
    }
}

#[test]
fn test_pcb_builder() {
    let pcb = Pcb::new(BlockType::IBlock)
        .with_block_number(1)
        .with_chaining(true);

    assert_eq!(pcb.block_type, BlockType::IBlock);
    assert_eq!(pcb.block_number(), 1);
    assert!(pcb.chaining);
}
