use parsedns::{take_bit, take_nibble, take_u16, ErrorKind, Fault, Header, IByteInput, IndexedInput, OpCode, ParserError, RCode};

fn eof(p: usize) -> Fault {
    Fault::Error(ParserError { position: p, kind: Some(ErrorKind::Eof), err_type: None })
}

#[test]
fn test_bit() {
    let bytes = [1u8, 255, 3, 0, 5, 1, 9];
    let i = IndexedInput::new(bytes.as_ref()).to_bits();
    let i = i.take(8).unwrap();
    assert_eq!(i.1, 1);
    let i = i.0.take(3).unwrap();
    assert_eq!(i.1, 7);
    let i2 = i.0.to_bytes();
    assert_eq!(i2.idx(), 2);
    let i = i.0.take(4).unwrap();
    assert_eq!(i.1, 15);
    let i = i.0.take(4).unwrap();
    assert_eq!(i.1, 8);
    assert_eq!(i.0.to_bytes().idx(), 3);
}

#[test]
fn bit_reads_past_the_end_fail() {
    let bytes = [0xABu8];
    let i = IndexedInput::new(bytes.as_ref()).to_bits();
    let (i, v) = i.take(3).unwrap();
    assert_eq!(v, 0b101);
    assert_eq!(i.take(6).err().unwrap(), eof(1));
    let (i, v) = i.take(5).unwrap();
    assert_eq!(v, 0b01011);
    assert_eq!(i.to_bytes().idx(), 1);
    assert_eq!(i.take(1).err().unwrap(), eof(1));
    assert_eq!(i.take(0).unwrap().1, 0);
}

#[test]
fn bit_helpers_read_their_widths() {
    let bytes = [0b1011_0110u8, 0x12, 0x34];
    let i = IndexedInput::new(bytes.as_ref()).to_bits();
    let (i, b) = take_bit(i).unwrap();
    assert!(b);
    let (i, n) = take_nibble(i).unwrap();
    assert_eq!(n, 0b0110);
    let (i, w) = take_u16(i).unwrap();
    assert_eq!(w, 0b110_0001_0010_0011_0);
    assert_eq!(i.to_bytes().idx(), 3);
}

#[test]
fn header_decodes_wire_bits() {
    let bytes = [0x00, 0x01, 0x81, 0x80, 0x00, 0x01, 0x00, 0x01, 0x00, 0x00, 0x00, 0x00];
    let (rest, h) = Header::parse(IByteInput::new(&bytes)).unwrap();
    assert_eq!(rest.idx(), 12);
    assert_eq!(h.id, 1);
    assert!(h.qr);
    assert_eq!(h.opcode, OpCode::Query);
    assert!(h.rd);
    assert!(h.ra);
    assert!(!h.aa && !h.tc && !h.z && !h.ad && !h.cd);
    assert_eq!(h.rcode, RCode::NoError);
    assert_eq!(h.qdcount, 1);
    assert_eq!(h.ancount, 1);
    assert_eq!(h.nscount, 0);
    assert_eq!(h.arcount, 0);
}

#[test]
fn header_counts_follow_wire_order() {
    let bytes = [0xBE, 0xEF, 0x7E, 0x7C, 0x00, 0x02, 0x00, 0x03, 0x00, 0x04, 0x01, 0x05];
    let (_, h) = Header::parse(IByteInput::new(&bytes)).unwrap();
    assert_eq!(h.id, 0xBEEF);
    assert!(!h.qr);
    assert_eq!(h.opcode, OpCode::Unknown(15));
    assert!(h.aa && h.tc && !h.rd);
    assert!(!h.ra && h.z && h.ad && h.cd);
    assert_eq!(h.rcode, RCode::Unknown(12));
    assert_eq!(h.ancount, 2);
    assert_eq!(h.qdcount, 3);
    assert_eq!(h.nscount, 4);
    assert_eq!(h.arcount, 0x0105);
}

#[test]
fn short_header_ends_at_first_missing_field() {
    let bytes = [0u8; 12];
    let cases = [(0usize, 0usize), (1, 0), (2, 2), (3, 3), (4, 4), (5, 4), (9, 8), (11, 10)];
    for (n, at) in cases {
        let r = Header::parse(IByteInput::new(&bytes[..n]));
        assert_eq!(r.err().unwrap(), eof(at));
    }
}

#[test]
fn header_new_is_all_zero() {
    let h = Header::new();
    let (_, z) = Header::parse(IByteInput::new(&[0u8; 12])).unwrap();
    assert_eq!(h, z);
}

#[test]
fn codes_map_through_their_tables() {
    assert_eq!(RCode::from(3), RCode::NXDomain);
    assert_eq!(RCode::from(11), RCode::DSOTYPENI);
    assert_eq!(RCode::from(12), RCode::Unknown(12));
    assert_eq!(RCode::from(23), RCode::BADCOOKIE);
    assert_eq!(OpCode::from(3), OpCode::Unknown(3));
    assert_eq!(OpCode::from(6), OpCode::DSO);
}

#[test]
fn cursor_views_and_reanchors() {
    let bytes = [9u8, 8, 7, 6, 5];
    let i = IByteInput::new(&bytes);
    assert_eq!(i.idx(), 0);
    assert_eq!(i.input(), &bytes[..]);
    let (rest, v) = i.be_u16().unwrap();
    assert_eq!(v, 0x0908);
    assert_eq!(rest.idx(), 2);
    assert_eq!(rest.input(), &bytes[2..]);
    let back = rest.offset_original(1);
    assert_eq!(back.idx(), 1);
    assert_eq!(back.input(), &bytes[1..]);
    let (after, taken) = back.take_split(2).unwrap();
    assert_eq!(taken.input(), &bytes[1..3]);
    assert_eq!(after.idx(), 3);
    assert_eq!(after.be_u32().err().unwrap(), eof(3));
    assert_eq!(IByteInput::new(&bytes[..0]).be_u8().err().unwrap(), eof(0));
    assert_eq!(after.take_split(3).err().unwrap(), eof(3));
    assert_eq!(i.be_u32().unwrap().1, 0x09080706);
    assert_eq!(i.peek_u8().unwrap(), 9);
}

#[test]
fn original_slice_reaches_back_to_the_start() {
    let bytes = [1u8, 2, 3, 4, 5, 6];
    let i = IByteInput::new(&bytes);
    let (rest, region) = i.be_u8().unwrap().0.take_split(3).unwrap();
    assert_eq!(region.input(), &bytes[1..4]);
    assert_eq!(region.get_original_slice(), &bytes[..4]);
    assert_eq!(rest.get_original_slice(), &bytes[..]);
    let again = region.offset_original(0);
    assert_eq!(again.input(), &bytes[..4]);
}
