use parsedns::{ErrorKind, Fault, IByteInput, Name, ParserError, ParserErrorType};

fn fatal(position: usize, kind: Option<ErrorKind>, e: ParserErrorType) -> Fault {
    Fault::Failure(ParserError { position, kind, err_type: Some(e) })
}

fn decode(bytes: &[u8]) -> Result<(usize, Vec<Vec<u8>>), Fault> {
    match Name::parse(IByteInput::new(bytes)) {
        Ok((rest, name)) => Ok((rest.idx(), name.to_labels())),
        Err(f) => Err(f),
    }
}

#[test]
fn test_pointer_with_pointer_ending_labels() {
    // "b" + pointer to "a" + pointer to the root byte at 0.
    let bytes = vec![0x00, 0x01, b'a', 0xC0, 0x00, 0x01, b'b', 0xC0, 0x01];
    let i = IByteInput::new(&bytes).offset_original(5);
    let mut name = Name::root();
    let (rest, ()) = name.parse_label(i, None).ok().unwrap();
    assert_eq!(rest.idx(), 9);
    assert_eq!(name.to_labels(), vec![b"b".to_vec(), b"a".to_vec()]);
    assert!(name.is_fqdn());
    assert_eq!(name.len(), 4);
}

#[test]
fn test_recursive_pointer() {
    // Points to an invalid beginning label marker
    let bytes = vec![0xC0, 0x01];
    let i = IByteInput::new(&bytes);

    let mut name = Name::root();
    assert!(name.parse_label(i, None).is_err());

    // Recurse back on itself
    let bytes = vec![0xC0, 0x00];
    let i = IByteInput::new(&bytes);
    assert!(name.parse_label(i, None).is_err());

    // Recurse back on itself
    let bytes = vec![0x01, 0x41, 0xC0, 0x00];
    let i = IByteInput::new(&bytes);
    assert!(name.parse_label(i, None).is_err());

    // Recurse by going past the end, then back to the beginning
    let bytes = vec![0xC0, 0x02, 0xC0, 0x00];
    let i = IByteInput::new(&bytes);
    assert!(name.parse_label(i, None).is_err());
}

#[test]
fn forward_pointer_is_refused() {
    let r = decode(&[0xC0, 0x01]);
    assert_eq!(r.err().unwrap(), fatal(0, Some(ErrorKind::MapRes),
        ParserErrorType::PointerNotPriorToLabel { idx: 0, ptr: 1 }));
}

#[test]
fn self_pointer_is_refused() {
    let r = decode(&[0xC0, 0x00]);
    assert_eq!(r.err().unwrap(), fatal(0, Some(ErrorKind::MapRes),
        ParserErrorType::PointerNotPriorToLabel { idx: 0, ptr: 0 }));
}

#[test]
fn label_then_pointer_to_itself_overlaps() {
    // The pointer at 2 jumps to 0, the start of the name it ends.
    let r = decode(&[0x01, 0x41, 0xC0, 0x00]);
    assert_eq!(r.err().unwrap(), fatal(0, None,
        ParserErrorType::LabelOverlapsWithOther { label: 0, other: 0 }));
}

#[test]
fn pointer_chain_jumping_forward_fails() {
    let r = decode(&[0xC0, 0x02, 0xC0, 0x00]);
    assert_eq!(r.err().unwrap(), fatal(0, Some(ErrorKind::MapRes),
        ParserErrorType::PointerNotPriorToLabel { idx: 0, ptr: 2 }));
}

#[test]
fn pointer_into_own_name_overlaps() {
    // A name at 4 points to a label at 2 that runs up to 4 again.
    let bytes = [0x00, 0x00, 0x01, b'a', 0xC0, 0x02];
    let i = IByteInput::new(&bytes).offset_original(4);
    let r = Name::parse(i);
    assert_eq!(r.err().unwrap(), fatal(4, None,
        ParserErrorType::LabelOverlapsWithOther { label: 4, other: 4 }));
}

#[test]
fn pointer_uses_fourteen_offset_bits() {
    let mut bytes = vec![0u8; 0x0105];
    bytes[0x0100] = 1;
    bytes[0x0101] = b'x';
    bytes[0x0102] = 0;
    bytes[0x0103] = 0xC1;
    bytes[0x0104] = 0x00;
    let i = IByteInput::new(&bytes).offset_original(0x0103);
    let (rest, name) = Name::parse(i).ok().unwrap();
    assert_eq!(rest.idx(), 0x0105);
    assert_eq!(name.to_labels(), vec![b"x".to_vec()]);
}

#[test]
fn plain_name_decodes() {
    let bytes = [3, b'w', b'w', b'w', 7, b'e', b'x', b'a', b'm', b'p', b'l', b'e', 3, b'c', b'o', b'm', 0, 0xFF];
    let (next, labels) = decode(&bytes).unwrap();
    assert_eq!(next, 17);
    assert_eq!(labels, vec![b"www".to_vec(), b"example".to_vec(), b"com".to_vec()]);
}

#[test]
fn root_name_has_length_one() {
    let (rest, name) = Name::parse(IByteInput::new(&[0u8])).ok().unwrap();
    assert_eq!(rest.idx(), 1);
    assert_eq!(name.len(), 1);
    assert!(name.to_labels().is_empty());
    assert!(!Name::new().is_fqdn());
    assert!(Name::root().is_fqdn());
}

#[test]
fn label_of_63_bytes_is_accepted() {
    let mut bytes = vec![63u8];
    bytes.extend(std::iter::repeat(b'a').take(63));
    bytes.push(0);
    let (next, labels) = decode(&bytes).unwrap();
    assert_eq!(next, 65);
    assert_eq!(labels[0].len(), 63);
}

#[test]
fn length_byte_of_64_is_refused() {
    // As a label type, 0x40 has the reserved top bits 01.
    let mut bytes = vec![64u8];
    bytes.extend(std::iter::repeat(b'a').take(64));
    bytes.push(0);
    assert_eq!(decode(&bytes).err().unwrap(), fatal(0, Some(ErrorKind::MapRes),
        ParserErrorType::UnknownLabelType(0x40)));
    // As a label length, it is too long.
    let r = Name::parse_seq_label(IByteInput::new(&bytes));
    assert_eq!(r.err().unwrap(), fatal(0, Some(ErrorKind::MapRes),
        ParserErrorType::LabelBytesTooLong(64)));
    let mut ok = vec![63u8];
    ok.extend(std::iter::repeat(b'a').take(63));
    ok.push(0);
    let (rest, label) = Name::parse_seq_label(IByteInput::new(&ok)).ok().unwrap();
    assert_eq!(rest.idx(), 64);
    assert_eq!(rest.input(), &[0u8][..]);
    assert_eq!(label.idx(), 1);
    assert_eq!(label.input(), &ok[1..64]);
    assert_eq!(label.get_original_slice(), &ok[..64]);
}

fn name_of(sizes: &[usize]) -> Vec<u8> {
    let mut bytes = Vec::new();
    for &n in sizes {
        bytes.push(n as u8);
        bytes.extend(std::iter::repeat(b'z').take(n));
    }
    bytes.push(0);
    bytes
}

#[test]
fn name_of_length_255_is_accepted() {
    // 63 + 63 + 63 + 62 label bytes and four separators.
    let bytes = name_of(&[63, 63, 63, 62]);
    let (rest, name) = Name::parse(IByteInput::new(&bytes)).ok().unwrap();
    assert_eq!(name.len(), 255);
    assert_eq!(rest.idx(), bytes.len());
}

#[test]
fn name_of_length_256_is_refused() {
    let bytes = name_of(&[63, 63, 63, 63]);
    assert_eq!(decode(&bytes).err().unwrap(), fatal(256, None,
        ParserErrorType::DomainNameTooLong(256)));
}

#[test]
fn unknown_label_type_is_refused() {
    assert_eq!(decode(&[0x80, 0x00]).err().unwrap(), fatal(0, Some(ErrorKind::MapRes),
        ParserErrorType::UnknownLabelType(0x80)));
}

#[test]
fn truncated_names_end_of_input() {
    let eof = |p: usize| Fault::Error(ParserError { position: p, kind: Some(ErrorKind::Eof), err_type: None });
    assert_eq!(decode(&[]).err().unwrap(), eof(0));
    assert_eq!(decode(&[3, b'a']).err().unwrap(), eof(1));
    assert_eq!(decode(&[1, b'a']).err().unwrap(), eof(2));
    let bytes = [0x00, 0xC0];
    let r = Name::parse(IByteInput::new(&bytes).offset_original(1));
    assert_eq!(r.err().unwrap(), eof(1));
}

#[test]
fn failed_walk_leaves_the_name_unchanged() {
    let first = [1u8, b'q', 0];
    let mut name = Name::root();
    name.parse_label(IByteInput::new(&first), None).ok().unwrap();
    // Two labels are read, then the pointer at 4 is refused.
    let bytes = [1u8, b'a', 1, b'b', 0xC0, 0x09];
    assert!(name.parse_label(IByteInput::new(&bytes), None).is_err());
    assert_eq!(name.to_labels(), vec![b"q".to_vec()]);
    // A bad first byte.
    let mut bad = vec![0x40u8];
    bad.extend(std::iter::repeat(b'a').take(64));
    bad.push(0);
    assert_eq!(name.parse_label(IByteInput::new(&bad), None).err().unwrap(),
        fatal(0, Some(ErrorKind::MapRes), ParserErrorType::UnknownLabelType(0x40)));
    assert_eq!(name.to_labels(), vec![b"q".to_vec()]);
    // A read at the bound.
    let i = IByteInput::new(&bytes).offset_original(2);
    assert_eq!(name.parse_label(i, Some(2)).err().unwrap(),
        fatal(2, None, ParserErrorType::LabelOverlapsWithOther { label: 2, other: 2 }));
    assert_eq!(name.to_labels(), vec![b"q".to_vec()]);
    assert_eq!(name.len(), 2);
    // Too long: three labels fit, the fourth does not.
    let mut long = Name::root();
    let mut ok = Vec::new();
    for _ in 0..3 {
        ok.push(63u8);
        ok.extend(std::iter::repeat(b'z').take(63));
    }
    ok.push(63);
    ok.extend(std::iter::repeat(b'z').take(63));
    ok.push(0);
    assert!(long.parse_label(IByteInput::new(&ok), None).is_err());
    assert!(long.to_labels().is_empty());
}
