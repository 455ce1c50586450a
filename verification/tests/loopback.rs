use iso14443::type_a::activation::{activate, wakeup};
use iso14443::type_a::ats::{Ats, Fsci, Ta, Tb, Tc};
use iso14443::type_a::pcd::{DeselectStep, ExchangeStep, PcdSession};
use iso14443::type_a::picc::{CommandStep, PiccConfig, PiccCore, PiccState, Uid};
use iso14443::type_a::vec::FrameVec;
use iso14443::type_a::{Cid, Frame, Fsdi, PcdTransceiver};

/// A reader transceiver wired straight to a card core in the same thread:
/// during activation each frame goes to the card's activation handler,
/// once the card is active to its RATS handler.
struct Wire {
    card: PiccCore,
}

impl PcdTransceiver for Wire {
    type Error = ();

    fn transceive(&mut self, frame: &Frame) -> Result<FrameVec, ()> {
        let answer = if self.card.state() == PiccState::Active {
            self.card.on_rats_frame(frame.data())
        } else {
            self.card.on_activation_frame(frame.data())
        };
        match answer {
            Ok(Some(f)) => Ok(f.data().to_vec()),
            _ => Err(()),
        }
    }

    fn try_enable_hw_crc(&mut self) -> Result<(), ()> {
        Err(())
    }
}

fn card(uid: Uid, fsci: Fsci) -> PiccCore {
    let mut config = PiccConfig::new(uid);
    config.enable_14443_4(Ats::new(fsci, Ta(Ta::SAME_D_SUPP), Tb::default(), Tc(Tc::CID_SUPP)));
    let mut core = PiccCore::new(config, false);
    core.begin_activation();
    core
}

/// Activate the card and open an ISO14443-4 session with it.
fn connect(wire: &mut Wire, fsdi: Fsdi) -> (PcdSession, Ats) {
    activate(wire).unwrap();
    let cid = Cid::new(0).unwrap();
    let rats = PcdSession::rats_frame(fsdi, cid, false).unwrap();
    let ats = wire.transceive(&rats).unwrap();
    PcdSession::connect_response(&ats, false, cid).unwrap()
}

/// One APDU exchange between the session and the card, both sides driven
/// here; returns what the card received and what the reader got back.
fn exchange(session: &mut PcdSession, card: &mut PiccCore, apdu: &[u8], answer: &[u8]) -> (Vec<u8>, Vec<u8>) {
    let (mut x, mut frame) = session.start_exchange(apdu).unwrap();
    card.begin_command();
    let received = loop {
        match card.on_command_frame(frame.data()).unwrap() {
            CommandStep::Continue(ack) => match session.exchange_step(&mut x, Some(ack.data())) {
                ExchangeStep::Send(f) => frame = f,
                other => panic!("unexpected reader step {:?}", other),
            },
            CommandStep::Complete(d) => break d,
            CommandStep::Deselected(_) => panic!("unexpected DESELECT"),
        }
    };
    let mut s = card.begin_response(answer).unwrap();
    let got = loop {
        let f = card.response_frame(&s).unwrap();
        let step = session.exchange_step(&mut x, Some(f.data()));
        if s.awaits_ack() {
            match step {
                ExchangeStep::Send(ack) => card.on_response_ack(&mut s, ack.data()).unwrap(),
                other => panic!("unexpected reader step {:?}", other),
            }
        } else {
            card.response_sent(&mut s);
            match step {
                ExchangeStep::Done(d) => break d,
                other => panic!("unexpected reader step {:?}", other),
            }
        }
    };
    (received, got)
}

#[test]
fn loopback_activation_single_uid() {
    let uid = [0x11, 0x22, 0x33, 0x44];
    let mut wire = Wire { card: card(Uid::Single(uid), Fsci::Fsc256) };
    let a = activate(&mut wire).unwrap();
    assert_eq!(a.uid.as_slice(), &uid);
    assert!(a.sak.uid_complete);
    assert!(a.sak.iso14443_4_compliant);
    assert_eq!(wire.card.state(), PiccState::Active);
}

#[test]
fn loopback_activation_double_uid() {
    let uid = [0x04, 0xA1, 0xB2, 0xC3, 0xD4, 0xE5, 0xF6];
    let mut wire = Wire { card: card(Uid::Double(uid), Fsci::Fsc256) };
    let a = activate(&mut wire).unwrap();
    assert_eq!(a.uid.as_slice(), &uid);
    assert!(a.sak.uid_complete);
}

#[test]
fn loopback_activation_triple_uid() {
    let uid = [0x01, 0x02, 0x03, 0x04, 0x05, 0x06, 0x07, 0x08, 0x09, 0x0A];
    let mut wire = Wire { card: card(Uid::Triple(uid), Fsci::Fsc256) };
    let a = activate(&mut wire).unwrap();
    assert_eq!(a.uid.as_slice(), &uid);
    assert!(a.sak.uid_complete);
    assert_eq!(wire.card.state(), PiccState::Active);
}

#[test]
fn loopback_rats_gives_card_ats() {
    let mut wire = Wire { card: card(Uid::Single([1, 2, 3, 4]), Fsci::Fsc64) };
    let (_session, ats) = connect(&mut wire, Fsdi::Fsd256);
    assert_eq!(ats.format.fsci, Fsci::Fsc64);
    assert!(ats.ta == Ta(Ta::SAME_D_SUPP));
    assert!(ats.tc == Tc(Tc::CID_SUPP));
    assert_eq!(wire.card.state(), PiccState::Protocol);
}

#[test]
fn loopback_short_exchange() {
    let mut wire = Wire { card: card(Uid::Double([1, 2, 3, 4, 5, 6, 7]), Fsci::Fsc256) };
    let (mut session, _) = connect(&mut wire, Fsdi::Fsd256);
    let apdu = [0x00, 0xA4, 0x04, 0x00, 0x02, 0x3F, 0x00];
    let (received, got) = exchange(&mut session, &mut wire.card, &apdu, &[0x90, 0x00]);
    assert_eq!(received, apdu.to_vec());
    assert_eq!(got, vec![0x90, 0x00]);
}

#[test]
fn loopback_chained_exchange_both_ways() {
    // Small frame sizes on both sides force chaining in both directions.
    let mut wire = Wire { card: card(Uid::Single([9, 8, 7, 6]), Fsci::Fsc16) };
    let (mut session, _) = connect(&mut wire, Fsdi::Fsd16);
    let apdu: Vec<u8> = (0u8..50).collect();
    let answer: Vec<u8> = (100u8..160).collect();
    let (received, got) = exchange(&mut session, &mut wire.card, &apdu, &answer);
    assert_eq!(received, apdu);
    assert_eq!(got, answer);
    // A second exchange on the same session still works (block numbers agree).
    let (received, got) = exchange(&mut session, &mut wire.card, &[0x01, 0x02], &[0x03]);
    assert_eq!(received, vec![0x01, 0x02]);
    assert_eq!(got, vec![0x03]);
}

#[test]
fn loopback_deselect_halts_then_wakeup() {
    let uid = [0x0A, 0x0B, 0x0C, 0x0D];
    let mut wire = Wire { card: card(Uid::Single(uid), Fsci::Fsc256) };
    let (session, _) = connect(&mut wire, Fsdi::Fsd256);
    let frame = session.deselect_frame().unwrap();
    wire.card.begin_command();
    let answer = match wire.card.on_command_frame(frame.data()).unwrap() {
        CommandStep::Deselected(f) => f,
        _ => panic!("expected DESELECT answer"),
    };
    assert!(matches!(session.deselect_step(true, Some(answer.data())), DeselectStep::Done));
    assert_eq!(wire.card.state(), PiccState::Halted);
    // Waiting for activation again keeps the card halted.
    wire.card.begin_activation();
    assert_eq!(wire.card.state(), PiccState::Halted);
    // A halted card ignores REQA but answers WUPA.
    assert!(activate(&mut wire).is_err());
    let a = wakeup(&mut wire).unwrap();
    assert_eq!(a.uid.as_slice(), &uid);
}
