use iso14443::type_a::ats::Ats;
use iso14443::type_a::block::Block;
use iso14443::type_a::pcb::{BlockType, Pcb, RBlockSubtype, SBlockSubtype};
use iso14443::type_a::pcd::{DeselectStep, ExchangeStep, PcdSession};
use iso14443::type_a::vec::FrameVec;
use iso14443::type_a::{Frame, PcdTransceiver};

// ── Mock transceiver ────────────────────────────────────────────────

#[derive(Debug)]
struct MockError;

struct MockTransceiver {
    hw_crc: bool,
    responses: Vec<FrameVec>,
    sent: Vec<FrameVec>,
    call_idx: usize,
}

impl MockTransceiver {
    fn new(hw_crc: bool, responses: Vec<FrameVec>) -> Self {
        Self {
            hw_crc,
            responses,
            sent: Vec::new(),
            call_idx: 0,
        }
    }
}

impl PcdTransceiver for MockTransceiver {
    type Error = MockError;

    fn transceive(&mut self, frame: &Frame) -> Result<FrameVec, MockError> {
        self.sent.push(frame.data().to_vec());
        if self.call_idx < self.responses.len() {
            let resp = self.responses[self.call_idx].clone();
            self.call_idx += 1;
            Ok(resp)
        } else {
            Err(MockError)
        }
    }

    fn try_enable_hw_crc(&mut self) -> Result<(), MockError> {
        if self.hw_crc {
            Ok(())
        } else {
            Err(MockError)
        }
    }
}

/// Drive an APDU exchange over the mock, as a PCD driver does.
fn exchange(
    session: &mut PcdSession,
    t: &mut MockTransceiver,
    apdu: &[u8],
) -> Result<Vec<u8>, String> {
    let (mut x, mut frame) = session.start_exchange(apdu).map_err(|e| format!("{e:?}"))?;
    loop {
        let resp = t.transceive(&frame);
        match session.exchange_step(&mut x, resp.as_ref().ok().map(|v| v.as_slice())) {
            ExchangeStep::Send(f) => frame = f,
            ExchangeStep::Done(d) => return Ok(d),
            ExchangeStep::TransceiverFailed => return Err("transceiver".to_string()),
            ExchangeStep::Failed(e) => return Err(format!("{e:?}")),
        }
    }
}

/// Drive DESELECT over the mock, as a PCD driver does.
fn deselect(session: &PcdSession, t: &mut MockTransceiver) -> Result<(), String> {
    let frame = session.deselect_frame().map_err(|e| format!("{e:?}"))?;
    let mut first = true;
    loop {
        let resp = t.transceive(&frame);
        match session.deselect_step(first, resp.as_ref().ok().map(|v| v.as_slice())) {
            DeselectStep::Done => return Ok(()),
            DeselectStep::Retry => first = false,
            DeselectStep::TransceiverFailed => return Err("transceiver".to_string()),
            DeselectStep::Failed(e) => return Err(format!("{e:?}")),
        }
    }
}

fn frame_vec(data: &[u8]) -> FrameVec {
    data.to_vec()
}

fn mock_iblock_response(block_number: u8, payload: &[u8], chaining: bool) -> FrameVec {
    let pcb = Pcb::new(BlockType::IBlock)
        .with_block_number(block_number)
        .with_chaining(chaining);
    Block::new(pcb)
        .with_payload(frame_vec(payload))
        .to_vec()
        .unwrap()
}

fn mock_rack_response(block_number: u8) -> FrameVec {
    let pcb = Pcb::new(BlockType::RBlock)
        .with_block_number(block_number)
        .with_r_subtype(RBlockSubtype::Ack);
    Block::new(pcb).to_vec().unwrap()
}

fn mock_wtx_request(wtxm: u8) -> FrameVec {
    let pcb = Pcb::new(BlockType::SBlock).with_s_subtype(SBlockSubtype::Wtx);
    Block::new(pcb)
        .with_payload(frame_vec(&[wtxm]))
        .to_vec()
        .unwrap()
}

fn mock_deselect_response() -> FrameVec {
    let pcb = Pcb::new(BlockType::SBlock).with_s_subtype(SBlockSubtype::Deselect);
    Block::new(pcb).to_vec().unwrap()
}

fn minimal_ats() -> Ats {
    let raw = &[0x05, 0x78, 0x80, 0x40, 0x02, 0x00, 0x00];
    Ats::try_from(raw.as_slice()).unwrap()
}

fn small_fsc_ats() -> Ats {
    let raw = &[0x05, 0x70, 0x80, 0x40, 0x02, 0x00, 0x00];
    Ats::try_from(raw.as_slice()).unwrap()
}

// ── Tests ───────────────────────────────────────────────────────────

#[test]
fn single_iblock_exchange() {
    let resp = mock_iblock_response(0, &[0xAA, 0xBB], false);
    let mut t = MockTransceiver::new(false, vec![resp]);
    let ats = minimal_ats();

    let mut pcd = PcdSession::new(&ats, None, false);
    let result = exchange(&mut pcd, &mut t, &[0x01, 0x02]).unwrap();

    assert_eq!(result.as_slice(), &[0xAA, 0xBB]);
}

#[test]
fn pcd_side_chaining() {
    // FSC=16, overhead=3 (PCB + CRC×2, no CID), max_inf=13
    // Send 20 bytes → 2 chunks: 13 + 7
    let ack = mock_rack_response(0);
    let resp = mock_iblock_response(0, &[0xFF], false);
    let mut t = MockTransceiver::new(false, vec![ack, resp]);
    let ats = small_fsc_ats();

    let mut pcd = PcdSession::new(&ats, None, false);
    let result = exchange(&mut pcd, &mut t, &[0x42u8; 20]).unwrap();

    assert_eq!(result.as_slice(), &[0xFF]);
    assert_eq!(t.sent.len(), 2);
}

#[test]
fn picc_side_chaining() {
    let resp1 = mock_iblock_response(0, &[0x01, 0x02], true);
    let resp2 = mock_iblock_response(1, &[0x03, 0x04], false);
    let mut t = MockTransceiver::new(false, vec![resp1, resp2]);
    let ats = minimal_ats();

    let mut pcd = PcdSession::new(&ats, None, false);
    let result = exchange(&mut pcd, &mut t, &[0xAA]).unwrap();

    assert_eq!(result.as_slice(), &[0x01, 0x02, 0x03, 0x04]);
    assert_eq!(t.sent.len(), 2);
}

#[test]
fn wtx_handling() {
    let wtx = mock_wtx_request(0x01);
    let resp = mock_iblock_response(0, &[0xCC], false);
    let mut t = MockTransceiver::new(false, vec![wtx, resp]);
    let ats = minimal_ats();

    let mut pcd = PcdSession::new(&ats, None, false);
    let result = exchange(&mut pcd, &mut t, &[0x01]).unwrap();

    assert_eq!(result.as_slice(), &[0xCC]);
    assert_eq!(t.sent.len(), 2);
}

#[test]
fn deselect_ok() {
    let resp = mock_deselect_response();
    let mut t = MockTransceiver::new(false, vec![resp]);
    let ats = minimal_ats();

    let pcd = PcdSession::new(&ats, None, false);
    deselect(&pcd, &mut t).unwrap();
}

#[test]
fn deselect_retry() {
    let bad_resp = mock_rack_response(0);
    let good_resp = mock_deselect_response();
    let mut t = MockTransceiver::new(false, vec![bad_resp, good_resp]);
    let ats = minimal_ats();

    let pcd = PcdSession::new(&ats, None, false);
    deselect(&pcd, &mut t).unwrap();
    assert_eq!(t.sent.len(), 2);
}

#[test]
fn hw_crc_single_exchange() {
    let pcb = Pcb::new(BlockType::IBlock).with_block_number(0);
    let block = Block::new(pcb).with_payload(frame_vec(&[0xDE, 0xAD]));
    let raw_no_crc = block.to_bytes_without_crc().unwrap();

    let mut t = MockTransceiver::new(true, vec![raw_no_crc]);
    let ats = minimal_ats();

    let mut pcd = PcdSession::new(&ats, None, true);
    let result = exchange(&mut pcd, &mut t, &[0x01]).unwrap();

    assert_eq!(result.as_slice(), &[0xDE, 0xAD]);
    let sent = &t.sent[0];
    assert_eq!(sent.len(), 2); // PCB + payload, no CRC
}
