use iso14443::type_a::ats::{Fwi, Sfgi};
use std::time::Duration;

#[test]
fn sfgt() {
    let sfgi = Sfgi::default();
    assert_eq!(sfgi.sfgt(), Duration::from_micros(0));
    let sfgi = Sfgi::try_from(1u8).unwrap();
    assert_eq!(sfgi.sfgt(), Duration::from_micros(604));
    let sfgi = Sfgi::try_from(14u8).unwrap();
    assert_eq!(sfgi.sfgt(), Duration::from_micros(4947968));
    assert!(Fwi::try_from(15u8).is_err());
}

#[test]
fn fwt() {
    let fwi = Fwi::default();
    assert_eq!(fwi.fwt(), Duration::from_micros(4832));
    let fwi = Fwi::try_from(0u8).unwrap();
    assert_eq!(fwi.fwt(), Duration::from_micros(302));
    let fwi = Fwi::try_from(14u8).unwrap();
    assert_eq!(fwi.fwt(), Duration::from_micros(4947968));
    assert!(Fwi::try_from(15u8).is_err());
}
