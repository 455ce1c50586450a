use iso14443::type_a::atqa::BitFrameAntiCollision;
use iso14443::type_a::ats::{Ats, Fsci, Ta, Tb, Tc};
use iso14443::type_a::block::Block;
use iso14443::type_a::crc::append_crc_a;
use iso14443::type_a::pcb::{BlockType, Pcb, SBlockSubtype};
use iso14443::type_a::picc::{uid_bcc_for_level, CommandStep, PiccConfig, PiccCore, PiccState, Uid};
use iso14443::type_a::vec::FrameVec;
use iso14443::type_a::{Frame, PiccTransceiver};

#[derive(Debug)]
struct MockError;

/// Mock PiccTransceiver that replays scripted receives and records sends.
struct MockPiccTransceiver {
    receives: Vec<FrameVec>,
    sends: Vec<FrameVec>,
    recv_idx: usize,
}

impl MockPiccTransceiver {
    fn new(receives: Vec<FrameVec>) -> Self {
        Self {
            receives,
            sends: Vec::new(),
            recv_idx: 0,
        }
    }
}

impl PiccTransceiver for MockPiccTransceiver {
    type Error = MockError;

    fn receive(&mut self) -> Result<FrameVec, MockError> {
        if self.recv_idx < self.receives.len() {
            let data = self.receives[self.recv_idx].clone();
            self.recv_idx += 1;
            Ok(data)
        } else {
            Err(MockError)
        }
    }

    fn send(&mut self, frame: &Frame) -> Result<(), MockError> {
        self.sends.push(frame.data().to_vec());
        Ok(())
    }

    fn try_enable_hw_crc(&mut self) -> Result<(), MockError> {
        Err(MockError) // no HW CRC in tests
    }
}

/// A card driver over the mock, as a PICC driver runs it.
struct Picc<'t> {
    t: &'t mut MockPiccTransceiver,
    core: PiccCore,
}

#[derive(Debug)]
enum Error {
    Transceiver,
    Protocol,
    Deselected,
}

impl<'t> Picc<'t> {
    fn new(t: &'t mut MockPiccTransceiver, config: PiccConfig) -> Self {
        let hw_crc = t.try_enable_hw_crc().is_ok();
        Picc {
            t,
            core: PiccCore::new(config, hw_crc),
        }
    }

    fn wait_for_activation(&mut self) -> Result<(), Error> {
        self.core.begin_activation();
        loop {
            let raw = self.t.receive().map_err(|_| Error::Transceiver)?;
            if let Some(f) = self
                .core
                .on_activation_frame(&raw)
                .map_err(|_| Error::Protocol)?
            {
                self.t.send(&f).map_err(|_| Error::Transceiver)?;
            }
            if self.core.state() == PiccState::Active {
                return Ok(());
            }
        }
    }

    fn wait_for_rats(&mut self) -> Result<(), Error> {
        let raw = self.t.receive().map_err(|_| Error::Transceiver)?;
        if let Some(f) = self.core.on_rats_frame(&raw).map_err(|_| Error::Protocol)? {
            self.t.send(&f).map_err(|_| Error::Transceiver)?;
        }
        if self.core.state() == PiccState::Protocol {
            Ok(())
        } else {
            Err(Error::Protocol)
        }
    }

    fn receive_command(&mut self) -> Result<Vec<u8>, Error> {
        self.core.begin_command();
        loop {
            let raw = self.t.receive().map_err(|_| Error::Transceiver)?;
            match self.core.on_command_frame(&raw).map_err(|_| Error::Protocol)? {
                CommandStep::Continue(f) => self.t.send(&f).map_err(|_| Error::Transceiver)?,
                CommandStep::Complete(d) => return Ok(d),
                CommandStep::Deselected(f) => {
                    self.t.send(&f).map_err(|_| Error::Transceiver)?;
                    return Err(Error::Deselected);
                }
            }
        }
    }

    fn send_response(&mut self, data: &[u8]) -> Result<(), Error> {
        let mut s = self.core.begin_response(data).map_err(|_| Error::Protocol)?;
        while !s.is_done() {
            let f = self.core.response_frame(&s).map_err(|_| Error::Protocol)?;
            self.t.send(&f).map_err(|_| Error::Transceiver)?;
            if s.awaits_ack() {
                let raw = self.t.receive().map_err(|_| Error::Transceiver)?;
                self.core
                    .on_response_ack(&mut s, &raw)
                    .map_err(|_| Error::Protocol)?;
            } else {
                self.core.response_sent(&mut s);
            }
        }
        Ok(())
    }
}

fn frame_vec(data: &[u8]) -> FrameVec {
    data.to_vec()
}

fn test_config_4byte() -> PiccConfig {
    let mut config = PiccConfig::new(Uid::Single([0x01, 0x02, 0x03, 0x04]));
    config.set_bit_frame_anticollision(BitFrameAntiCollision::Slot4);
    config.enable_14443_4(Ats::new(
        Fsci::Fsc256,
        Ta(Ta::SAME_D_SUPP),
        Tb::default(),
        Tc(Tc::CID_SUPP),
    ));
    config
}

/// Build a SELECT command with CRC for a given SEL and UID+BCC.
fn select_cmd(sel: u8, uid_bcc: &[u8; 5]) -> FrameVec {
    let mut data = vec![sel, 0x70];
    data.extend_from_slice(uid_bcc);
    append_crc_a(&data)
}

/// Build a RATS command with CRC.
fn rats_cmd(fsdi: u8, cid: u8) -> FrameVec {
    let param = (fsdi << 4) | (cid & 0x0f);
    append_crc_a(&[0xe0, param])
}

#[test]
fn activation_4byte_uid() {
    let uid_bcc = [0x01, 0x02, 0x03, 0x04, 0x01 ^ 0x02 ^ 0x03 ^ 0x04];
    let receives = vec![
        frame_vec(&[0x26]),         // REQA
        frame_vec(&[0x93, 0x20]),   // anticollision CL1
        select_cmd(0x93, &uid_bcc), // SELECT CL1
        rats_cmd(8, 0),             // RATS (FSDI=8 → FSD=256, CID=0)
    ];

    let mut t = MockPiccTransceiver::new(receives);
    let config = test_config_4byte();
    let mut picc = Picc::new(&mut t, config);

    picc.wait_for_activation().unwrap();
    picc.wait_for_rats().unwrap();

    // Check sends: ATQA, UID+BCC, SAK+CRC, ATS+CRC
    assert_eq!(t.sends.len(), 4);
    // ATQA: UidSize::Single (0 << 6) | BitFrameAntiCollision::Slot4 (4)
    assert_eq!(t.sends[0].as_slice(), &[0x04, 0x00]);
    // UID+BCC
    assert_eq!(t.sends[1].as_slice(), &uid_bcc);
    // SAK (0x20 = ISO14443-4, uid_complete) + CRC
    assert_eq!(t.sends[2].len(), 3); // SAK + 2 CRC bytes
    assert_eq!(t.sends[2][0], 0x20);
}

#[test]
fn picc_receive_single_iblock() {
    // Set up an activated PICC, then receive a single I-Block
    let uid_bcc = [0x01, 0x02, 0x03, 0x04, 0x01 ^ 0x02 ^ 0x03 ^ 0x04];

    // Build an I-Block command from PCD
    let pcb = Pcb::new(BlockType::IBlock).with_block_number(0);
    let iblock = Block::new(pcb).with_payload(frame_vec(&[0xAA, 0xBB]));
    let iblock_bytes = append_crc_a(&iblock.to_bytes_without_crc().unwrap());

    let receives = vec![
        frame_vec(&[0x26]),
        frame_vec(&[0x93, 0x20]),
        select_cmd(0x93, &uid_bcc),
        rats_cmd(8, 0),
        iblock_bytes,
    ];

    let mut t = MockPiccTransceiver::new(receives);
    let mut picc = Picc::new(&mut t, test_config_4byte());
    picc.wait_for_activation().unwrap();
    picc.wait_for_rats().unwrap();

    let apdu = picc.receive_command().unwrap();
    assert_eq!(apdu.as_slice(), &[0xAA, 0xBB]);
}

#[test]
fn send_single_response() {
    let uid_bcc = [0x01, 0x02, 0x03, 0x04, 0x01 ^ 0x02 ^ 0x03 ^ 0x04];

    let pcb = Pcb::new(BlockType::IBlock).with_block_number(0);
    let iblock = Block::new(pcb).with_payload(frame_vec(&[0x01]));
    let iblock_bytes = append_crc_a(&iblock.to_bytes_without_crc().unwrap());

    let receives = vec![
        frame_vec(&[0x26]),
        frame_vec(&[0x93, 0x20]),
        select_cmd(0x93, &uid_bcc),
        rats_cmd(8, 0),
        iblock_bytes,
    ];

    let mut t = MockPiccTransceiver::new(receives);
    let mut picc = Picc::new(&mut t, test_config_4byte());
    picc.wait_for_activation().unwrap();
    picc.wait_for_rats().unwrap();

    let _ = picc.receive_command().unwrap();
    picc.send_response(&[0x90, 0x00]).unwrap();

    // Last send should be an I-Block with payload [0x90, 0x00]
    let last = t.sends.last().unwrap();
    // Parse it: strip CRC, parse block
    let block = Block::try_from(last.as_slice()).unwrap();
    assert_eq!(block.block_type(), BlockType::IBlock);
    assert_eq!(block.payload.as_slice(), &[0x90, 0x00]);
}

#[test]
fn deselect_handling() {
    let uid_bcc = [0x01, 0x02, 0x03, 0x04, 0x01 ^ 0x02 ^ 0x03 ^ 0x04];

    // Build S(DESELECT) from PCD
    let pcb = Pcb::new(BlockType::SBlock).with_s_subtype(SBlockSubtype::Deselect);
    let deselect = Block::new(pcb);
    let deselect_bytes = append_crc_a(&deselect.to_bytes_without_crc().unwrap());

    let receives = vec![
        frame_vec(&[0x26]),
        frame_vec(&[0x93, 0x20]),
        select_cmd(0x93, &uid_bcc),
        rats_cmd(8, 0),
        deselect_bytes,
    ];

    let mut t = MockPiccTransceiver::new(receives);
    let mut picc = Picc::new(&mut t, test_config_4byte());
    picc.wait_for_activation().unwrap();
    picc.wait_for_rats().unwrap();

    match picc.receive_command() {
        Err(Error::Deselected) => {} // expected
        other => panic!("expected Deselected, got {:?}", other),
    }
}

#[test]
fn uid_bcc_4byte() {
    let config = test_config_4byte();

    let bcc = uid_bcc_for_level(&config.uid, 0).unwrap();
    assert_eq!(bcc, [0x01, 0x02, 0x03, 0x04, 0x01 ^ 0x02 ^ 0x03 ^ 0x04]);
}

#[test]
fn uid_bcc_7byte() {
    let mut config = test_config_4byte();
    config.uid = Uid::Double([0x01, 0x02, 0x03, 0x04, 0x05, 0x06, 0x07]);

    // Level 0: cascade tag + first 3 UID bytes
    let bcc0 = uid_bcc_for_level(&config.uid, 0).unwrap();
    assert_eq!(bcc0[0], 0x88); // cascade tag
    assert_eq!(&bcc0[1..4], &[0x01, 0x02, 0x03]);
    assert_eq!(bcc0[4], 0x88 ^ 0x01 ^ 0x02 ^ 0x03);

    // Level 1: remaining 4 UID bytes
    let bcc1 = uid_bcc_for_level(&config.uid, 1).unwrap();
    assert_eq!(&bcc1[0..4], &[0x04, 0x05, 0x06, 0x07]);
    assert_eq!(bcc1[4], 0x04 ^ 0x05 ^ 0x06 ^ 0x07);
}
