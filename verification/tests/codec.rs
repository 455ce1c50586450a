use iso14443::type_a::activation::{
    anticollision_response, build_activation, select_response, ActivationPhase, ActivationSession,
    ActivationStep,
};
use iso14443::type_a::block::Block;
use iso14443::type_a::pcb::{BlockType, Pcb};
use iso14443::type_a::picc::{uid_bcc_for_level, Uid};
use iso14443::type_a::anticol_select::{Cascade, NumberOfValidBits, UidCl};
use iso14443::type_a::atqa::{AtqA, BitFrameAntiCollision, UidSize};
use iso14443::type_a::ats::{Ats, Fsci, Fwi, Sfgi, Ta, Tb, Tc};
use iso14443::type_a::crc::{append_crc_a, crc_a};
use iso14443::type_a::pps::{Dxi, PpsParam, PpsResp};
use iso14443::type_a::rats::{Fsdi, RatsParam};
use iso14443::type_a::sak::Sak;
use iso14443::type_a::{Answer, Cid, Command, Frame, TypeAError};

fn cid(v: u8) -> Cid {
    Cid::new(v).unwrap()
}

// ── Scenarios of the command-line parser ────────────────────────────

#[test]
fn parse_rats_command_example() {
    let c = Command::try_from(&[0xe0u8, 0x50, 0xbc, 0xa5][..]).unwrap();
    match c {
        Command::Rats(p) => {
            assert_eq!(p.fsdi(), Fsdi::Fsd64);
            assert_eq!(p.fsdi().fsd(), 64);
            assert_eq!(p.cid().value(), 0);
        }
        other => panic!("expected RATS, got {:?}", other),
    }
}

#[test]
fn parse_ats_answer_example() {
    let rats = Command::Rats(RatsParam::new(Fsdi::Fsd64, cid(0)));
    let a = rats
        .parse_answer(&[0x05, 0x77, 0x80, 0x80, 0x00, 0x46, 0xab])
        .unwrap();
    match a {
        Answer::Ats(ats) => {
            assert_eq!(ats.length, 5);
            assert_eq!(ats.format.fsci, Fsci::Fsc128);
            assert!(ats.format.ta_transmitted && ats.format.tb_transmitted && ats.format.tc_transmitted);
            assert_eq!(ats.ta, Ta(Ta::SAME_D_SUPP));
            assert_eq!(ats.tb.sfgi.value(), 0);
            assert_eq!(ats.tb.fwi.value(), 8);
            assert_eq!(ats.tb.fwi.fwt().as_micros(), 77312);
            assert_eq!(ats.tc, Tc(0));
            assert!(ats.historical_bytes.is_empty());
        }
        other => panic!("expected ATS, got {:?}", other),
    }
}

// ── Commands: what the reader sends, the card parses back ───────────

#[test]
fn command_roundtrip_short_frames() {
    assert_eq!(Command::ReqA.to_vec().unwrap(), vec![0x26]);
    assert_eq!(Command::WupA.to_vec().unwrap(), vec![0x52]);
    assert!(matches!(Command::try_from(&[0x26u8][..]), Ok(Command::ReqA)));
    assert!(matches!(Command::try_from(&[0x52u8][..]), Ok(Command::WupA)));
}

#[test]
fn command_roundtrip_hlta() {
    let v = Command::HltA.to_vec().unwrap();
    assert_eq!(v, vec![0x50, 0x00, 0x57, 0xcd]);
    assert!(matches!(Command::try_from(v.as_slice()), Ok(Command::HltA)));
}

#[test]
fn command_roundtrip_rats() {
    let p = RatsParam::new(Fsdi::Fsd256, cid(3));
    let v = Command::Rats(p).to_vec().unwrap();
    assert_eq!(&v[..2], &[0xe0, 0x83]);
    match Command::try_from(v.as_slice()).unwrap() {
        Command::Rats(q) => assert_eq!(q, p),
        other => panic!("expected RATS, got {:?}", other),
    }
}

#[test]
fn command_roundtrip_pps() {
    let p = PpsParam { cid: cid(2), dri: Dxi::Dx4, dsi: Dxi::Dx2 };
    let v = Command::Pps(p).to_vec().unwrap();
    assert_eq!(&v[..3], &[0xd2, 0x11, 0x06]);
    match Command::try_from(v.as_slice()).unwrap() {
        Command::Pps(q) => assert_eq!(q, p),
        other => panic!("expected PPS, got {:?}", other),
    }
}

#[test]
fn command_roundtrip_select() {
    let c = Cascade::Level2(UidCl::Final(0x11, 0x22, 0x33, 0x44));
    let v = Command::Select(c).to_vec().unwrap();
    assert_eq!(v.len(), 9);
    assert_eq!(&v[..7], &[0x95, 0x70, 0x11, 0x22, 0x33, 0x44, 0x11 ^ 0x22 ^ 0x33 ^ 0x44]);
    match Command::try_from(v.as_slice()).unwrap() {
        Command::Select(d) => assert_eq!(d, c),
        other => panic!("expected SELECT, got {:?}", other),
    }
}

#[test]
fn command_anticollision_two_bytes() {
    match Command::try_from(&[0x93u8, 0x20][..]).unwrap() {
        Command::AntiCollision((c, nvb)) => {
            assert_eq!(c.code(), 0x93);
            assert_eq!(u8::from(&nvb), 0x20);
        }
        other => panic!("expected ANTICOLLISION, got {:?}", other),
    }
}

#[test]
fn command_errors() {
    assert_eq!(Command::try_from(&[][..]).unwrap_err(), TypeAError::InvalidLength);
    // HLTA with a wrong CRC: the error carries the expected CRC.
    assert_eq!(
        Command::try_from(&[0x50u8, 0x00, 0x12, 0x34][..]).unwrap_err(),
        TypeAError::InvalidCrc((0x57, 0xcd))
    );
    // HLTA with a (0, 0) CRC stands for a CRC already checked by hardware.
    assert!(matches!(Command::try_from(&[0x50u8, 0x00, 0x00, 0x00][..]), Ok(Command::HltA)));
    // Neither a standard command nor a block.
    assert_eq!(Command::try_from(&[0x01u8][..]).unwrap_err(), TypeAError::UnknownOpcode(0x01));
}

#[test]
fn hlta_has_no_answer_frame_but_a_frame() {
    let f = Command::HltA.to_frame().unwrap();
    assert_eq!(f.data(), &[0x50, 0x00, 0x57, 0xcd]);
}

// ── Answers ─────────────────────────────────────────────────────────

#[test]
fn atqa_roundtrip_and_errors() {
    let a = AtqA { uid_size: UidSize::Double, bit_frame_ac: BitFrameAntiCollision::Slot1, proprietary_coding: 0x3 };
    let b = a.to_bytes();
    assert_eq!(b, [0x41, 0x03]);
    assert_eq!(AtqA::try_from(&b[..]).unwrap(), a);
    assert_eq!(AtqA::try_from(&[0x44u8][..]).unwrap_err(), TypeAError::InvalidLength);
    match Command::ReqA.parse_answer(&[0x44, 0x00]).unwrap() {
        Answer::AtqA(x) => {
            assert_eq!(x.uid_size, UidSize::Double);
            assert_eq!(x.bit_frame_ac, BitFrameAntiCollision::Slot4);
        }
        other => panic!("expected ATQA, got {:?}", other),
    }
}

#[test]
fn sak_roundtrip() {
    for s in [
        Sak { uid_complete: true, iso14443_4_compliant: true },
        Sak { uid_complete: false, iso14443_4_compliant: false },
    ] {
        assert_eq!(Sak::from_raw(s.to_byte()), s);
    }
    assert_eq!(Sak { uid_complete: true, iso14443_4_compliant: true }.to_byte(), 0x20);
    assert_eq!(Sak { uid_complete: false, iso14443_4_compliant: false }.to_byte(), 0x04);
}

#[test]
fn uid_cl_roundtrip_and_bcc_error() {
    let f = UidCl::Final(1, 2, 3, 4);
    assert_eq!(UidCl::try_from(&[1u8, 2, 3, 4, 4][..]).unwrap(), f);
    assert_eq!(UidCl::try_from(&[0x88u8, 5, 6, 7, 0x88 ^ 5 ^ 6 ^ 7][..]).unwrap(), UidCl::Next(5, 6, 7));
    assert_eq!(UidCl::try_from(&[1u8, 2, 3, 4, 5][..]).unwrap_err(), TypeAError::InvalidBcc);
    assert_eq!(UidCl::try_from(&[1u8, 2, 3][..]).unwrap_err(), TypeAError::InvalidLength);
}

#[test]
fn nvb_roundtrip() {
    assert_eq!(u8::from(&NumberOfValidBits::anticollision()), 0x20);
    assert_eq!(u8::from(&NumberOfValidBits::select()), 0x70);
    assert!(NumberOfValidBits::try_from(0x70).unwrap().has_40_data_bits());
    assert!(!NumberOfValidBits::try_from(0x20).unwrap().has_40_data_bits());
    assert_eq!(NumberOfValidBits::try_from(0x10).unwrap_err(), TypeAError::UnknownOpcode(1));
    assert_eq!(NumberOfValidBits::try_from(0x29).unwrap_err(), TypeAError::UnknownOpcode(9));
}

#[test]
fn pps_response_parse() {
    let v = append_crc_a(&[0xd5]);
    assert_eq!(PpsResp::try_from(v.as_slice()).unwrap(), PpsResp(cid(5)));
    assert_eq!(PpsResp::try_from(&[0xd5u8, 0x00][..]).unwrap_err(), TypeAError::InvalidLength);
}

#[test]
fn ats_roundtrip() {
    let ats = Ats::new(Fsci::Fsc32, Ta(Ta::SAME_D_SUPP), Tb { sfgi: Sfgi::try_from(2).unwrap(), fwi: Fwi::try_from(9).unwrap() }, Tc(Tc::CID_SUPP));
    let bytes = ats.to_bytes().unwrap();
    assert_eq!(bytes, vec![5, 0x72, 0x80, 0x92, 0x02]);
    // The bytes followed by their CRC_A parse back to the same ATS.
    let with_crc = append_crc_a(&bytes);
    assert_eq!(Ats::try_from(with_crc.as_slice()).unwrap(), ats);
    // A CRC already checked and stripped by hardware reads as (0, 0).
    let mut hw = bytes.clone();
    hw.extend_from_slice(&[0, 0]);
    assert_eq!(Ats::try_from(hw.as_slice()).unwrap(), ats);
    // Without the CRC the length byte does not match.
    assert_eq!(Ats::try_from(bytes.as_slice()).unwrap_err(), TypeAError::InvalidLength);
}

#[test]
fn ats_errors() {
    assert_eq!(Ats::try_from(&[][..]).unwrap_err(), TypeAError::InvalidLength);
    // TL says five bytes, only three present.
    assert_eq!(Ats::try_from(&[0x05u8, 0x77, 0x80][..]).unwrap_err(), TypeAError::InvalidLength);
    // Wrong CRC after a complete ATS.
    let good = crc_a(&[0x05, 0x77, 0x80, 0x80, 0x00]);
    assert_eq!(
        Ats::try_from(&[0x05u8, 0x77, 0x80, 0x80, 0x00, 0x01, 0x02][..]).unwrap_err(),
        TypeAError::InvalidCrc(good)
    );
}

#[test]
fn sfgi_fwi_ranges() {
    assert!(Sfgi::try_from(15).is_err());
    assert!(Fwi::try_from(15).is_err());
    assert_eq!(Fwi::try_from(0).unwrap().fwt().as_micros(), 302);
    assert_eq!(Sfgi::try_from(0).unwrap().sfgt().as_micros(), 0);
    assert_eq!(Sfgi::try_from(1).unwrap().sfgt().as_micros(), 604);
}

#[test]
fn dxi_and_fsdi_values() {
    assert_eq!(Dxi::Dx8.dx(), 8);
    assert_eq!(u8::from(Dxi::Dx4), 2);
    assert_eq!(Dxi::try_from(4).unwrap_err(), 4);
    assert_eq!(Fsdi::Fsd256.fsd(), 256);
    assert_eq!(Fsci::Fsc24.fsc(), 24);
    assert_eq!(RatsParam::try_from(0xf0).unwrap_err(), TypeAError::Other);
    assert_eq!(RatsParam::try_from(0x0f).unwrap_err(), TypeAError::Other);
    assert!(Cid::new(15).is_none());
}

// ── Activation steps ────────────────────────────────────────────────

#[test]
fn anticollision_answer_checks() {
    assert_eq!(anticollision_response(&[1, 2, 3, 4, 4]).unwrap(), [1, 2, 3, 4, 4]);
    assert_eq!(anticollision_response(&[1, 2, 3, 4, 0]).unwrap_err(), TypeAError::InvalidBcc);
    assert_eq!(anticollision_response(&[1, 2, 3, 4]).unwrap_err(), TypeAError::InvalidLength);
}

#[test]
fn select_answer_checks() {
    let sak = select_response(&append_crc_a(&[0x20]), false).unwrap();
    assert!(sak.uid_complete && sak.iso14443_4_compliant);
    let sak = select_response(&[0x04], true).unwrap();
    assert!(!sak.uid_complete);
    assert_eq!(select_response(&[0x20, 0x00], true).unwrap_err(), TypeAError::InvalidLength);
}

#[test]
fn uid_from_cascade_levels() {
    let atqa = AtqA { uid_size: UidSize::Double, bit_frame_ac: BitFrameAntiCollision::Slot1, proprietary_coding: 0 };
    let sak = Sak { uid_complete: true, iso14443_4_compliant: false };
    let levels = [[0x88, 1, 2, 3, 0x88 ^ 1 ^ 2 ^ 3], [4, 5, 6, 7, 4 ^ 5 ^ 6 ^ 7]];
    let a = build_activation(atqa, sak, &levels, 2).unwrap();
    assert_eq!(a.uid, vec![1, 2, 3, 4, 5, 6, 7]);
    assert_eq!(a.atqa, atqa);
}

// ── Minimal ATS, block command frames, CRC residue ──────────────────

#[test]
fn minimal_ats_tl_only() {
    let v = append_crc_a(&[0x01]);
    let ats = Ats::try_from(v.as_slice()).unwrap();
    assert_eq!(ats.length, 1);
    assert_eq!(ats.format.fsci, Fsci::Fsc32);
    assert_eq!(ats.format.fsci.fsc(), 32);
    assert!(!ats.format.ta_transmitted && !ats.format.tb_transmitted && !ats.format.tc_transmitted);
    assert!(ats.historical_bytes.is_empty());
    // The same with a CRC already checked by hardware.
    assert_eq!(Ats::try_from(&[0x01u8, 0x00, 0x00][..]).unwrap(), ats);
    // TL 0 is no ATS.
    assert_eq!(Ats::try_from(&[0x00u8, 0x00][..]).unwrap_err(), TypeAError::InvalidLength);
}

#[test]
fn block_command_frame_has_one_crc() {
    let b = Block::new(Pcb::new(BlockType::IBlock).with_block_number(1))
        .with_payload(vec![0xAA, 0xBB]);
    let body = b.to_bytes_without_crc().unwrap();
    let v = Command::IBlock(b).to_vec().unwrap();
    assert_eq!(v.len(), body.len() + 2);
    assert_eq!(v, append_crc_a(&body));
    assert_eq!(crc_a(&v), (0, 0));
    let f = Command::RBlock(Block::new(Pcb::new(BlockType::RBlock))).to_frame().unwrap();
    assert_eq!(f.data().len(), 3);
}

#[test]
fn crc_over_data_and_its_crc_is_zero() {
    assert_eq!(append_crc_a(&[0x12, 0x34]), vec![0x12, 0x34, 0x26, 0xCF]);
    assert_eq!(crc_a(&[0xc2]), (0xe0, 0xb4));
    assert_eq!(crc_a(&[0xc2, 0xe0, 0xb4]), (0, 0));
    for data in [&[][..], &[0x50, 0x00][..], &[0xe0, 0x80][..], &[1, 2, 3, 4, 5, 6, 7][..]] {
        assert_eq!(crc_a(&append_crc_a(data)), (0, 0));
    }
}

#[test]
fn block_with_nad_roundtrip() {
    let b = Block::new(Pcb::new(BlockType::IBlock).with_chaining(true))
        .with_cid(cid(4))
        .with_nad(0x21)
        .with_payload(vec![1, 2, 3]);
    let body = b.to_bytes_without_crc().unwrap();
    let p = Block::try_from(append_crc_a(&body).as_slice()).unwrap();
    assert_eq!(p.block_type(), BlockType::IBlock);
    assert!(p.is_chaining());
    assert_eq!(p.block_number(), 0);
    assert_eq!(p.cid, Some(cid(4)));
    assert_eq!(p.nad, Some(0x21));
    assert_eq!(p.payload, vec![1, 2, 3]);
    assert_eq!(p.crc, crc_a(&body));
}

#[test]
fn rebuilt_uid_from_card_answers() {
    let u = [0x01, 0x02, 0x03, 0x04, 0x05, 0x06, 0x07, 0x08, 0x09, 0x0A];
    let uid = Uid::Triple(u);
    let levels: Vec<[u8; 5]> = (0..3).map(|l| uid_bcc_for_level(&uid, l).unwrap()).collect();
    let atqa = AtqA { uid_size: UidSize::Triple, bit_frame_ac: BitFrameAntiCollision::Slot1, proprietary_coding: 0 };
    let sak = Sak { uid_complete: true, iso14443_4_compliant: true };
    let a = build_activation(atqa, sak, &levels, 3).unwrap();
    assert_eq!(a.uid.as_slice(), uid.as_slice());
}

// ── Activation steps ────────────────────────────────────────────────

#[test]
fn activation_request_frames() {
    let (_, f) = ActivationSession::start(false, false);
    assert!(matches!(f, Frame::Short(_)));
    assert_eq!(f.data(), &[0x26]);
    let (_, f) = ActivationSession::start(true, false);
    assert!(matches!(f, Frame::Short(_)));
    assert_eq!(f.data(), &[0x52]);
}

#[test]
fn activation_session_double_uid() {
    let (mut s, _) = ActivationSession::start(true, false);
    // ATQA → ANTICOLLISION CL1
    let f = match s.step(&[0x44, 0x00]) {
        ActivationStep::Send(f) => f,
        other => panic!("unexpected {:?}", other),
    };
    assert!(matches!(f, Frame::BitOriented(_)));
    assert_eq!(f.data(), &[0x93, 0x20]);
    assert_eq!(s.phase(), ActivationPhase::AwaitUid { level: 0 });
    // UID CL1 (cascade tag) → SELECT CL1
    let cl1 = [0x88, 1, 2, 3, 0x88 ^ 1 ^ 2 ^ 3];
    let f = match s.step(&cl1) {
        ActivationStep::Send(f) => f,
        other => panic!("unexpected {:?}", other),
    };
    assert!(matches!(f, Frame::Standard(_)));
    let mut sel = vec![0x93, 0x70];
    sel.extend_from_slice(&cl1);
    assert_eq!(f.data(), append_crc_a(&sel).as_slice());
    // SAK: UID not complete → ANTICOLLISION CL2
    let f = match s.step(&append_crc_a(&[0x04])) {
        ActivationStep::Send(f) => f,
        other => panic!("unexpected {:?}", other),
    };
    assert_eq!(f.data(), &[0x95, 0x20]);
    let cl2 = [4, 5, 6, 7, 4 ^ 5 ^ 6 ^ 7];
    match s.step(&cl2) {
        ActivationStep::Send(f) => assert_eq!(f.data()[0], 0x95),
        other => panic!("unexpected {:?}", other),
    }
    match s.step(&append_crc_a(&[0x20])) {
        ActivationStep::Done(a) => {
            assert_eq!(a.uid, vec![1, 2, 3, 4, 5, 6, 7]);
            assert!(a.sak.uid_complete && a.sak.iso14443_4_compliant);
            assert_eq!(a.atqa.uid_size, UidSize::Double);
        }
        other => panic!("unexpected {:?}", other),
    }
    assert_eq!(s.phase(), ActivationPhase::Finished);
}

#[test]
fn activation_session_errors() {
    let (mut s, _) = ActivationSession::start(false, false);
    assert!(matches!(s.step(&[0x44]), ActivationStep::Failed(TypeAError::InvalidLength)));
    assert!(matches!(s.step(&[0x44, 0x00]), ActivationStep::Failed(TypeAError::Other)));
    let (mut s, _) = ActivationSession::start(false, true);
    assert!(matches!(s.step(&[0x04, 0x00]), ActivationStep::Send(_)));
    assert!(matches!(s.step(&[1, 2, 3, 4, 5]), ActivationStep::Failed(TypeAError::InvalidBcc)));
}

#[test]
fn wake_and_request_differ_only_in_request() {
    let answers: Vec<Vec<u8>> = vec![
        vec![0x44, 0x00],
        vec![0x88, 1, 2, 3, 0x88 ^ 1 ^ 2 ^ 3],
        append_crc_a(&[0x04]),
        vec![4, 5, 6, 7, 4 ^ 5 ^ 6 ^ 7],
        append_crc_a(&[0x20]),
    ];
    let run = |wake: bool| {
        let (mut s, first) = ActivationSession::start(wake, false);
        let mut frames = vec![first.data().to_vec()];
        let mut uid = Vec::new();
        for a in &answers {
            match s.step(a) {
                ActivationStep::Send(f) => frames.push(f.data().to_vec()),
                ActivationStep::Done(act) => uid = act.uid,
                ActivationStep::Failed(e) => panic!("unexpected {:?}", e),
            }
        }
        (frames, uid)
    };
    let (wf, wu) = run(true);
    let (rf, ru) = run(false);
    assert_eq!(wf[0], vec![0x52]);
    assert_eq!(rf[0], vec![0x26]);
    assert_eq!(wf[1..], rf[1..]);
    assert_eq!(wu, ru);
    assert_eq!(wu, vec![1, 2, 3, 4, 5, 6, 7]);
}

#[test]
fn pcb_block_number_is_a_bit() {
    let p = Pcb::new(BlockType::IBlock).with_block_number(3);
    assert_eq!(p.block_number(), 1);
    let p = Pcb::new(BlockType::IBlock).with_block_number(2);
    assert_eq!(p.block_number(), 0);
}
