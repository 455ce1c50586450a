use iso14443::type_a::block::Block;
use iso14443::type_a::pcb::{BlockType, Pcb, RBlockSubtype};
use iso14443::type_a::vec::FrameVec;
use iso14443::type_a::Cid;

fn frame_vec(data: &[u8]) -> FrameVec {
    data.to_vec()
}

#[test]
fn test_block_format_iblock_without_optional_fields() {
    let pcb = Pcb::new(BlockType::IBlock).with_block_number(0);
    let block = Block::new(pcb).with_payload(frame_vec(&[0x01, 0x02, 0x03]));
    let bytes = block.to_vec().unwrap();

    assert_eq!(bytes.len(), 6);
    assert_eq!(bytes[0], 0x02);
    assert_eq!(&bytes[1..4], &[0x01, 0x02, 0x03]);
}

#[test]
fn test_block_format_iblock_with_cid() {
    let pcb = Pcb::new(BlockType::IBlock).with_block_number(1);
    let cid = Cid::new(5).unwrap();
    let block = Block::new(pcb)
        .with_cid(cid)
        .with_payload(frame_vec(&[0x01, 0x02]));
    let bytes = block.to_vec().unwrap();

    assert_eq!(bytes.len(), 6);
    assert_eq!(bytes[0] & 0x08, 0x08);
    assert_eq!(bytes[1], 0x05);
    assert_eq!(&bytes[2..4], &[0x01, 0x02]);
}

#[test]
fn test_block_format_iblock_with_cid_and_nad() {
    let pcb = Pcb::new(BlockType::IBlock).with_block_number(0);
    let cid = Cid::new(3).unwrap();
    let block = Block::new(pcb)
        .with_cid(cid)
        .with_nad(0x12)
        .with_payload(frame_vec(&[0x01]));
    let bytes = block.to_vec().unwrap();

    assert_eq!(bytes.len(), 6);
    assert_eq!(bytes[0] & 0x08, 0x08);
    assert_eq!(bytes[0] & 0x04, 0x04);
    assert_eq!(bytes[1], 0x03);
    assert_eq!(bytes[2], 0x12);
    assert_eq!(bytes[3], 0x01);
}

#[test]
fn test_block_format_rblock_with_cid() {
    let pcb = Pcb::new(BlockType::RBlock)
        .with_block_number(1)
        .with_r_subtype(RBlockSubtype::Ack);
    let cid = Cid::new(7).unwrap();
    let block = Block::new(pcb).with_cid(cid);
    let bytes = block.to_vec().unwrap();

    assert_eq!(bytes.len(), 4);
    assert_eq!(bytes[0] & 0x08, 0x08);
    assert_eq!(bytes[0] & 0x04, 0x00);
    assert_eq!(bytes[1], 0x07);
}

#[test]
fn test_block_parsing_iblock_with_cid() {
    let data: &[u8] = &[0x0B, 0x05, 0x01, 0x02, 0x62, 0x95];

    let block = Block::try_from(data).unwrap();
    assert_eq!(block.block_type(), BlockType::IBlock);
    assert_eq!(block.block_number(), 1);
    assert!(block.cid.is_some());
    assert_eq!(block.cid.unwrap().value(), 5);
    assert_eq!(block.payload.as_slice(), &[0x01, 0x02]);
}

#[test]
fn test_block_parsing_rblock_with_cid() {
    let data: &[u8] = &[0xAA, 0x03, 0xb4, 0x7e];

    let block = Block::try_from(data).unwrap();
    assert_eq!(block.block_type(), BlockType::RBlock);
    assert_eq!(block.block_number(), 0);
    assert!(block.cid.is_some());
    assert_eq!(block.cid.unwrap().value(), 3);
    assert!(block.payload.is_empty());
}

#[test]
fn test_block_parsing_rejects_nad_without_cid() {
    let data: &[u8] = &[0x07, 0x12, 0x00, 0x00];

    let result = Block::try_from(data);
    assert!(result.is_err());
}

#[test]
fn test_block_parsing_rejects_nad_for_non_iblock() {
    let data: &[u8] = &[0xAF, 0x03, 0x12, 0x00, 0x00];

    let result = Block::try_from(data);
    assert!(result.is_err());
}
