use iso14443::type_a::block::Block;
use iso14443::type_a::pcb::{BlockType, Pcb, RBlockSubtype, SBlockSubtype};
use iso14443::type_a::protocol::{Action, ProtocolHandler};
use iso14443::type_a::vec::FrameVec;
use iso14443::type_a::Cid;

fn frame_vec(data: &[u8]) -> FrameVec {
    data.to_vec()
}

fn iblock(block_number: u8, payload: &[u8], chaining: bool) -> Block {
    let pcb = Pcb::new(BlockType::IBlock)
        .with_block_number(block_number)
        .with_chaining(chaining);
    Block::new(pcb).with_payload(frame_vec(payload))
}

fn rack(block_number: u8) -> Block {
    let pcb = Pcb::new(BlockType::RBlock)
        .with_block_number(block_number)
        .with_r_subtype(RBlockSubtype::Ack);
    Block::new(pcb)
}

fn rnak(block_number: u8) -> Block {
    let pcb = Pcb::new(BlockType::RBlock)
        .with_block_number(block_number)
        .with_r_subtype(RBlockSubtype::Nak);
    Block::new(pcb)
}

fn sblock_wtx(wtxm: u8) -> Block {
    let pcb = Pcb::new(BlockType::SBlock).with_s_subtype(SBlockSubtype::Wtx);
    Block::new(pcb).with_payload(frame_vec(&[wtxm]))
}

fn sblock_deselect() -> Block {
    let pcb = Pcb::new(BlockType::SBlock).with_s_subtype(SBlockSubtype::Deselect);
    Block::new(pcb)
}

// ── Block builder tests ─────────────────────────────────────────────

#[test]
fn build_iblock_with_cid() {
    let handler = ProtocolHandler::new(Some(Cid::new(3).unwrap()));
    let block = handler.build_iblock(&[0x01, 0x02], false).unwrap();

    assert_eq!(block.block_type(), BlockType::IBlock);
    assert_eq!(block.block_number(), 0);
    assert!(!block.is_chaining());
    assert_eq!(block.cid.unwrap().value(), 3);
    assert_eq!(block.payload.as_slice(), &[0x01, 0x02]);
}

#[test]
fn build_iblock_without_cid() {
    let handler = ProtocolHandler::new(None);
    let block = handler.build_iblock(&[0xAA], true).unwrap();

    assert!(block.cid.is_none());
    assert!(block.is_chaining());
}

#[test]
fn build_rack_with_correct_block_number() {
    let mut handler = ProtocolHandler::new(None);
    handler.toggle_block_number();
    let block = handler.build_rack().unwrap();

    assert_eq!(block.block_type(), BlockType::RBlock);
    assert_eq!(block.pcb.r_subtype, Some(RBlockSubtype::Ack));
    assert_eq!(block.block_number(), 1);
}

#[test]
fn build_rnak_with_cid() {
    let handler = ProtocolHandler::new(Some(Cid::new(7).unwrap()));
    let block = handler.build_rnak().unwrap();

    assert_eq!(block.pcb.r_subtype, Some(RBlockSubtype::Nak));
    assert_eq!(block.cid.unwrap().value(), 7);
}

#[test]
fn build_wtx_response_echoes_payload() {
    let handler = ProtocolHandler::new(None);
    let request = sblock_wtx(0x05);
    let response = handler.build_wtx_response(&request).unwrap();

    assert_eq!(response.block_type(), BlockType::SBlock);
    assert_eq!(response.pcb.s_subtype, Some(SBlockSubtype::Wtx));
    assert_eq!(response.payload.as_slice(), &[0x05]);
}

// ── Receive processing tests ────────────────────────────────────────

#[test]
fn protocol_receive_single_iblock() {
    let mut handler = ProtocolHandler::new(None);
    let block = iblock(0, &[0x01, 0x02, 0x03], false);

    match handler.process_received(block).unwrap() {
        Action::Complete(data) => assert_eq!(data.as_slice(), &[0x01, 0x02, 0x03]),
        other => panic!("expected Complete, got {:?}", other),
    }
    // Block number toggled
    assert_eq!(handler.block_number(), 1);
}

#[test]
fn receive_chained_iblocks() {
    let mut handler = ProtocolHandler::new(None);

    // First chained I-Block
    let block1 = iblock(0, &[0x01, 0x02], true);
    match handler.process_received(block1).unwrap() {
        Action::Reply(reply) => {
            assert_eq!(reply.block_type(), BlockType::RBlock);
            assert_eq!(reply.pcb.r_subtype, Some(RBlockSubtype::Ack));
        }
        other => panic!("expected Reply(R(ACK)), got {:?}", other),
    }
    assert_eq!(handler.block_number(), 1);

    // Final I-Block
    let block2 = iblock(1, &[0x03, 0x04], false);
    match handler.process_received(block2).unwrap() {
        Action::Complete(data) => assert_eq!(data.as_slice(), &[0x01, 0x02, 0x03, 0x04]),
        other => panic!("expected Complete, got {:?}", other),
    }
}

#[test]
fn receive_rack_matching_block_number() {
    let mut handler = ProtocolHandler::new(None);
    // block_number is 0, R(ACK) with 0 → ChainingAck, toggle to 1
    let block = rack(0);
    match handler.process_received(block).unwrap() {
        Action::ChainingAck => {}
        other => panic!("expected ChainingAck, got {:?}", other),
    }
    assert_eq!(handler.block_number(), 1);
}

#[test]
fn receive_rack_wrong_block_number() {
    let mut handler = ProtocolHandler::new(None);
    // block_number is 0, R(ACK) with 1 → ChainingRetransmit
    let block = rack(1);
    match handler.process_received(block).unwrap() {
        Action::ChainingRetransmit => {}
        other => panic!("expected ChainingRetransmit, got {:?}", other),
    }
    // Block number unchanged
    assert_eq!(handler.block_number(), 0);
}

#[test]
fn receive_rnak() {
    let mut handler = ProtocolHandler::new(None);
    let block = rnak(0);
    match handler.process_received(block).unwrap() {
        Action::ChainingRetransmit => {}
        other => panic!("expected ChainingRetransmit, got {:?}", other),
    }
}

#[test]
fn receive_wtx_returns_reply() {
    let mut handler = ProtocolHandler::new(None);
    let block = sblock_wtx(0x03);
    match handler.process_received(block).unwrap() {
        Action::Reply(reply) => {
            assert_eq!(reply.block_type(), BlockType::SBlock);
            assert_eq!(reply.pcb.s_subtype, Some(SBlockSubtype::Wtx));
            assert_eq!(reply.payload.as_slice(), &[0x03]);
        }
        other => panic!("expected Reply(S(WTX)), got {:?}", other),
    }
}

#[test]
fn receive_deselect_resets() {
    let mut handler = ProtocolHandler::new(None);
    handler.toggle_block_number(); // block_number = 1

    let block = sblock_deselect();
    match handler.process_received(block).unwrap() {
        Action::Reply(reply) => {
            assert_eq!(reply.block_type(), BlockType::SBlock);
            assert_eq!(reply.pcb.s_subtype, Some(SBlockSubtype::Deselect));
        }
        other => panic!("expected Reply(S(DESELECT)), got {:?}", other),
    }
    // Reset: block number back to 0, chain cleared
    assert_eq!(handler.block_number(), 0);
}

#[test]
fn reset_clears_state() {
    let mut handler = ProtocolHandler::new(Some(Cid::new(5).unwrap()));
    handler.toggle_block_number();

    // Accumulate some chain data
    let _ = handler.process_received(iblock(1, &[0x01], true));

    handler.reset();
    assert_eq!(handler.block_number(), 0);

    // Chain is cleared — next single I-Block should return only its payload
    match handler.process_received(iblock(0, &[0xAA], false)).unwrap() {
        Action::Complete(data) => assert_eq!(data.as_slice(), &[0xAA]),
        other => panic!("expected Complete, got {:?}", other),
    }
}
