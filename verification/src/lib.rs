//! ISO/IEC 14443 Type A proximity card protocol: frame codecs, the
//! ISO14443-4 block protocol, and the reader (PCD) and card (PICC) logic,
//! with their contracts proved by Verus.

pub mod type_a;
