use parsedns::{route, ErrorKind, Message, ParserError, ParserErrorType, RecordClass, RecordData, RecordQClass, RecordType, Route};

fn response_bytes() -> Vec<u8> {
    let mut b = vec![
        0x12, 0x34, 0x81, 0x80, // id, flags
        0x00, 0x01, // ANCOUNT
        0x00, 0x01, // QDCOUNT
        0x00, 0x00, 0x00, 0x00, // NSCOUNT, ARCOUNT
    ];
    // Question at 12: "ex.com" A IN.
    b.extend_from_slice(&[2, b'e', b'x', 3, b'c', b'o', b'm', 0, 0x00, 0x01, 0x00, 0x01]);
    // Answer: pointer to the question's name, A IN, TTL 300, 10.0.0.7.
    b.extend_from_slice(&[0xC0, 0x0C, 0x00, 0x01, 0x00, 0x01, 0x00, 0x00, 0x01, 0x2C, 0x00, 0x04, 10, 0, 0, 7]);
    b
}

#[test]
fn message_with_compressed_answer_decodes() {
    let bytes = response_bytes();
    let m = Message::parse(&bytes).ok().unwrap();
    assert_eq!(m.header.id, 0x1234);
    assert_eq!(m.header.qdcount, 1);
    assert_eq!(m.header.ancount, 1);
    assert_eq!(m.questions.len(), 1);
    let q = &m.questions[0];
    assert_eq!(q.name.to_labels(), vec![b"ex".to_vec(), b"com".to_vec()]);
    assert_eq!(q.qtype, RecordType::A);
    assert_eq!(q.qclass, RecordQClass::RecordClass(RecordClass::IN));
    assert_eq!(m.answers.len(), 1);
    let a = &m.answers[0];
    assert_eq!(a.name.to_labels(), vec![b"ex".to_vec(), b"com".to_vec()]);
    assert_eq!(a.ttl, 300);
    match &a.rdata {
        RecordData::A(addr) => assert_eq!(addr.address(), 0x0A00_0007),
        _ => panic!("expected A data"),
    }
    assert!(m.authorities.is_empty() && m.additionals.is_empty());
}

#[test]
fn message_faults_carry_positions() {
    let bytes = response_bytes();
    let err = Message::parse(&bytes[..7]).err().unwrap();
    assert_eq!(err, ParserError { position: 6, kind: Some(ErrorKind::Eof), err_type: None });
    let err = Message::parse(&bytes[..bytes.len() - 2]).err().unwrap();
    assert_eq!(err, ParserError { position: 36, kind: Some(ErrorKind::Eof), err_type: None });
    let mut bad = bytes.clone();
    bad[26] = 0x00;
    bad[27] = 0x02; // NS IN answer
    let err = Message::parse(&bad).err().unwrap();
    assert_eq!(err, ParserError {
        position: 36,
        kind: None,
        err_type: Some(ParserErrorType::UnimplementedRecordData { rtype: RecordType::NS, class: RecordClass::IN }),
    });
}

#[test]
fn question_with_wildcard_class_decodes() {
    let mut bytes = vec![0, 0, 0, 0, 0, 0, 0, 1, 0, 0, 0, 0];
    bytes.extend_from_slice(&[0, 0x00, 0x02, 0x00, 0xFF]);
    let m = Message::parse(&bytes).ok().unwrap();
    assert_eq!(m.questions[0].qclass, RecordQClass::Any);
    assert_eq!(m.questions[0].qtype, RecordType::NS);
    assert!(m.answers.is_empty());
}

#[test]
fn routes_follow_the_pending_table() {
    assert_eq!(route(true, false, true, 1), Route::Ignore);
    assert_eq!(route(true, true, false, 1), Route::Discard);
    assert_eq!(route(true, true, true, 0), Route::Relay);
    assert_eq!(route(false, false, false, 1), Route::Forward);
    assert_eq!(route(false, true, true, 1), Route::Forward);
    assert_eq!(route(false, false, false, 2), Route::Reject);
    assert_eq!(route(false, false, false, 0), Route::Reject);
    assert!(Route::Relay.removes_entry() && Route::Discard.removes_entry());
    assert!(!Route::Ignore.removes_entry() && !Route::Forward.removes_entry());
    assert!(Route::Forward.inserts_entry() && !Route::Reject.inserts_entry());
}

#[test]
fn question_with_unknown_class_passes_through() {
    let mut bytes = vec![0, 0, 0, 0, 0, 0, 0, 1, 0, 0, 0, 0];
    bytes.extend_from_slice(&[0, 0x00, 0x01, 0x00, 0x07]);
    let m = Message::parse(&bytes).ok().unwrap();
    assert_eq!(m.questions[0].qclass, RecordQClass::RecordClass(RecordClass::Unknown(7)));
}
