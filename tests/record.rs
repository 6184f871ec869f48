use parsedns::{ErrorKind, Fault, IByteInput, ParserError, ParserErrorType, Record, RecordClass, RecordData, RecordQClass, RecordType, TTL};

fn eof(p: usize) -> Fault {
    Fault::Error(ParserError { position: p, kind: Some(ErrorKind::Eof), err_type: None })
}

fn fatal(position: usize, e: ParserErrorType) -> Fault {
    Fault::Failure(ParserError { position, kind: None, err_type: Some(e) })
}

/// Owner "a", then TYPE, CLASS, TTL and RDATA.
fn record_bytes(rtype: u16, class: u16, ttl: u32, rdata: &[u8]) -> Vec<u8> {
    let mut b = vec![0x01, b'a', 0x00];
    b.extend_from_slice(&rtype.to_be_bytes());
    b.extend_from_slice(&class.to_be_bytes());
    b.extend_from_slice(&ttl.to_be_bytes());
    b.extend_from_slice(&(rdata.len() as u16).to_be_bytes());
    b.extend_from_slice(rdata);
    b
}

#[test]
fn a_record_decodes() {
    let bytes = record_bytes(1, 1, 3600, &[127, 0, 0, 1]);
    let (rest, r) = Record::parse(IByteInput::new(&bytes)).ok().unwrap();
    assert_eq!(rest.idx(), bytes.len());
    assert_eq!(r.name.to_labels(), vec![b"a".to_vec()]);
    assert_eq!(r.rtype, RecordType::A);
    assert_eq!(r.class, RecordClass::IN);
    assert_eq!(r.ttl, 3600);
    match r.rdata {
        RecordData::A(a) => assert_eq!(a.address(), 0x7F00_0001),
        _ => panic!("expected A data"),
    }
}

#[test]
fn ttl_with_top_bit_set_is_zero() {
    let bytes = record_bytes(1, 1, 0x8000_0005, &[1, 2, 3, 4]);
    let (_, r) = Record::parse(IByteInput::new(&bytes)).ok().unwrap();
    assert_eq!(r.ttl, 0);
    let bytes = record_bytes(1, 1, 0x7FFF_FFFF, &[1, 2, 3, 4]);
    let (_, r) = Record::parse(IByteInput::new(&bytes)).ok().unwrap();
    assert_eq!(r.ttl, 0x7FFF_FFFF);
    let (_, t) = TTL::parse(IByteInput::new(&[0xFF, 0, 0, 1])).unwrap();
    assert_eq!(u32::from(t), 0);
    let (_, t) = TTL::parse(IByteInput::new(&[0x00, 0, 1, 1])).unwrap();
    assert_eq!(u32::from(t), 257);
    assert_eq!(TTL::parse(IByteInput::new(&[0, 0, 1])).err().unwrap(), eof(0));
}

#[test]
fn soa_record_decodes_with_pointer() {
    let mut rdata = vec![0x02, b'n', b's', 0x00, 0xC0, 0x00];
    for v in [1u32, 2, 3, 4, 0x8000_0000] {
        rdata.extend_from_slice(&v.to_be_bytes());
    }
    let bytes = record_bytes(6, 3, 60, &rdata);
    let (rest, r) = Record::parse(IByteInput::new(&bytes)).ok().unwrap();
    assert_eq!(rest.idx(), bytes.len());
    assert_eq!(r.rtype, RecordType::SOA);
    assert_eq!(r.class, RecordClass::CH);
    match r.rdata {
        RecordData::SOA(soa) => {
            assert_eq!(soa.mname().to_labels(), vec![b"ns".to_vec()]);
            assert_eq!(soa.rname().to_labels(), vec![b"a".to_vec()]);
            assert_eq!(soa.serial(), 1);
            assert_eq!(soa.refresh(), 2);
            assert_eq!(soa.retry(), 3);
            assert_eq!(soa.expire(), 4);
            assert_eq!(u32::from(soa.minimum()), 0);
        }
        _ => panic!("expected SOA data"),
    }
}

#[test]
fn soa_rdata_cut_short_fails_at_missing_integer() {
    let mut rdata = vec![0x00, 0x00];
    rdata.extend_from_slice(&[0, 0, 0, 1, 0, 0, 0, 2, 0, 0]);
    let bytes = record_bytes(6, 1, 60, &rdata);
    // RDATA starts at 13: two root names, then integers at 15 and 19; 23 is cut.
    assert_eq!(Record::parse(IByteInput::new(&bytes)).err().unwrap(), eof(23));
}

#[test]
fn other_type_class_pairs_are_unimplemented() {
    for (t, c, rt, rc) in [
        (2u16, 1u16, RecordType::NS, RecordClass::IN),
        (15, 1, RecordType::MX, RecordClass::IN),
        (1, 3, RecordType::A, RecordClass::CH),
        (16, 4, RecordType::TXT, RecordClass::HS),
    ] {
        let bytes = record_bytes(t, c, 1, &[1, 2, 3, 4]);
        assert_eq!(Record::parse(IByteInput::new(&bytes)).err().unwrap(),
            fatal(13, ParserErrorType::UnimplementedRecordData { rtype: rt, class: rc }));
    }
}

#[test]
fn unknown_codes_are_fatal() {
    let bytes = record_bytes(255, 1, 1, &[1, 2, 3, 4]);
    assert_eq!(Record::parse(IByteInput::new(&bytes)).err().unwrap(),
        fatal(3, ParserErrorType::UnrecognizedRecordType(255)));
    let bytes = record_bytes(1, 5, 1, &[1, 2, 3, 4]);
    assert_eq!(Record::parse(IByteInput::new(&bytes)).err().unwrap(),
        fatal(5, ParserErrorType::UnrecognizedClassCode(5)));
}

#[test]
fn rdata_is_bounded_by_rdlength() {
    let bytes = record_bytes(1, 1, 1, &[1, 2, 3]);
    assert_eq!(Record::parse(IByteInput::new(&bytes)).err().unwrap(), eof(13));
    let mut bytes = record_bytes(1, 1, 1, &[1, 2, 3, 4]);
    bytes.truncate(bytes.len() - 1);
    assert_eq!(Record::parse(IByteInput::new(&bytes)).err().unwrap(), eof(13));
    let mut bytes = record_bytes(1, 1, 1, &[1, 2, 3, 4, 5, 6]);
    bytes.push(0xEE);
    let (rest, _) = Record::parse(IByteInput::new(&bytes)).ok().unwrap();
    assert_eq!(rest.idx(), bytes.len() - 1);
}

#[test]
fn truncated_record_fields_end_of_input() {
    let full = record_bytes(1, 1, 1, &[1, 2, 3, 4]);
    for (n, at) in [(3usize, 3usize), (4, 3), (5, 5), (6, 5), (7, 7), (10, 7), (11, 11), (12, 11)] {
        let r = Record::parse(IByteInput::new(&full[..n]));
        assert_eq!(r.err().unwrap(), eof(at));
    }
}

#[test]
fn classes_decode() {
    let (_, c) = RecordQClass::parse(IByteInput::new(&[0x00, 0xFF])).unwrap();
    assert_eq!(c, RecordQClass::Any);
    let (_, c) = RecordQClass::parse(IByteInput::new(&[0x00, 0x01])).unwrap();
    assert_eq!(c, RecordQClass::RecordClass(RecordClass::IN));
    let (rest, c) = RecordQClass::parse(IByteInput::new(&[0x00, 0x09])).unwrap();
    assert_eq!(c, RecordQClass::RecordClass(RecordClass::Unknown(9)));
    assert_eq!(rest.idx(), 2);
    assert_eq!(RecordQClass::parse(IByteInput::new(&[0x00])).err().unwrap(), eof(0));
    let (_, c) = RecordClass::parse(IByteInput::new(&[0x00, 0xFE])).unwrap();
    assert_eq!(c, RecordClass::NONE);
    assert_eq!(RecordClass::parse(IByteInput::new(&[0x00, 0xFF])).err().unwrap(),
        fatal(0, ParserErrorType::UnrecognizedClassCode(255)));
    assert_eq!(RecordClass::from(7), RecordClass::Unknown(7));
    assert_eq!(RecordType::from(21), RecordType::RT);
    assert_eq!(RecordType::from(28), RecordType::Unknown(28));
    let (_, t) = RecordType::parse(IByteInput::new(&[0x00, 0x0F])).unwrap();
    assert_eq!(t, RecordType::MX);
    assert_eq!(RecordType::parse(IByteInput::new(&[0x00])).err().unwrap(), eof(0));
}

#[test]
fn ttl_and_rdata_steps_decode_directly() {
    let (rest, ttl) = Record::parse_ttl(IByteInput::new(&[0x80, 0, 0, 9, 0xAA])).unwrap();
    assert_eq!(ttl, 0);
    assert_eq!(rest.idx(), 4);
    assert_eq!(rest.input(), &[0xAAu8][..]);
    let (_, ttl) = Record::parse_ttl(IByteInput::new(&[0x00, 0, 1, 0])).unwrap();
    assert_eq!(ttl, 256);

    let bytes = [0x00, 0x04, 1, 2, 3, 4, 0xFF];
    let r = Record::parse_rdata(IByteInput::new(&bytes), &RecordType::NS, &RecordClass::IN);
    assert_eq!(r.err().unwrap(),
        fatal(2, ParserErrorType::UnimplementedRecordData { rtype: RecordType::NS, class: RecordClass::IN }));
    let (rest, data) = Record::parse_rdata(IByteInput::new(&bytes), &RecordType::A, &RecordClass::IN).ok().unwrap();
    assert_eq!(rest.idx(), 6);
    match data {
        RecordData::A(a) => assert_eq!(a.address(), 0x0102_0304),
        _ => panic!("expected A data"),
    }
    let short = [0x00, 0x05, 1, 2, 3, 4];
    let r = Record::parse_rdata(IByteInput::new(&short), &RecordType::A, &RecordClass::IN);
    assert_eq!(r.err().unwrap(), eof(2));
}
