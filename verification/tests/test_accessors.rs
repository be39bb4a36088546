use dnssector::DNSSector;
use dnssector::DSError;
use dnssector::DNS_FLAG_DO;
use dnssector::Section;

// A minimal query: one question with an empty name, type A, class IN.
fn minimal_query() -> Vec<u8> {
    vec![0, 0, 0, 0, 0, 1, 0, 0, 0, 0, 0, 0, 0, 0, 1, 0, 1]
}

// A query with an OPT record in the additional section: question
// "c9x.org" TXT, then an OPT with payload size 1280 and one 7-byte
// client-subnet option.
fn edns_query() -> Vec<u8> {
    vec![
        0x43, 0x96, 0x01, 0x00, 0x00, 0x01, 0x00, 0x00, 0x00, 0x00, 0x00, 0x01, 0x03, 0x63,
        0x39, 0x78, 0x03, 0x6f, 0x72, 0x67, 0x00, 0x00, 0x10, 0x00, 0x01, 0x00, 0x00, 0x29,
        0x05, 0x00, 0x00, 0x00, 0x00, 0x00, 0x00, 0x0b, 0x00, 0x08, 0x00, 0x07, 0x00, 0x01,
        0x18, 0x00, 0xa3, 0x05, 0x01,
    ]
}

#[test]
fn test_minimal_query_truncated_class_fails() {
    // the 17-byte minimal query parses; the same buffer with the trailing
    // class byte dropped runs out of bytes
    let mut data = minimal_query();
    data.pop();
    let dns_sector = DNSSector::new(data).unwrap();
    match dns_sector.parse().err().expect("error") {
        DSError::PacketTooSmall => {}
        a => panic!("type: {:?}", a),
    }
}

#[test]
fn test_trailing_garbage_fails() {
    let mut data = minimal_query();
    data.push(0);
    let dns_sector = DNSSector::new(data).unwrap();
    match dns_sector.parse().err().expect("error") {
        DSError::InternalError(_) => {}
        a => panic!("type: {:?}", a),
    }
}

#[test]
fn test_flags_roundtrip_without_opt() {
    let parsed = DNSSector::new(minimal_query()).unwrap().parse().unwrap();
    let mut parsed = parsed;
    parsed.set_flags(0xffff_ffff);
    // without an OPT record only the low 16 bits are representable
    assert_eq!(parsed.flags(), 0xffff);
    parsed.set_flags(0x8123);
    assert_eq!(parsed.flags(), 0x8123);
}

#[test]
fn test_flags_roundtrip_with_opt() {
    let mut parsed = DNSSector::new(edns_query()).unwrap().parse().unwrap();
    assert_eq!(parsed.flags(), 0x100);
    parsed.set_flags(0x8000_8123);
    assert_eq!(parsed.flags(), 0x8000_8123);
    assert_eq!(parsed.flags() & DNS_FLAG_DO, DNS_FLAG_DO);
    parsed.set_flags(0x0000_8123);
    assert_eq!(parsed.flags(), 0x8123);
}

#[test]
fn test_rcode_roundtrip() {
    let mut parsed = DNSSector::new(minimal_query()).unwrap().parse().unwrap();
    assert_eq!(parsed.rcode(), 0);
    parsed.set_rcode(3);
    assert_eq!(parsed.rcode(), 3);
    // only the low four bits belong to the rcode
    parsed.set_rcode(0x13);
    assert_eq!(parsed.rcode(), 3);
    // the flags' other bits stay untouched
    assert_eq!(parsed.flags() & 0xfff0, 0);
}

#[test]
fn test_opcode_roundtrip() {
    let mut parsed = DNSSector::new(minimal_query()).unwrap().parse().unwrap();
    assert_eq!(parsed.opcode(), 0);
    parsed.set_opcode(5);
    assert_eq!(parsed.opcode(), 5);
    parsed.set_opcode(0x15);
    assert_eq!(parsed.opcode(), 5);
    assert_eq!(parsed.rcode(), 0);
}

#[test]
fn test_into_packet_returns_buffer() {
    let data = minimal_query();
    let parsed = DNSSector::new(data.clone()).unwrap().parse().unwrap();
    assert_eq!(parsed.into_packet(), data);
}

#[test]
fn test_question_iterator() {
    let data = edns_query();
    let parsed = DNSSector::new(data).unwrap().parse().unwrap();
    let it = parsed.into_iter_question().expect("question item");
    assert_eq!(it.rr_type(), 16);
    assert_eq!(it.rr_class(), 1);
    assert_eq!(it.name(), b"\x03c9x\x03org\x00".to_vec());
    assert!(it.next().is_none());
}

#[test]
fn test_answer_iterator() {
    // one question "foo.bar" and one A answer whose name points back at it
    let mut data = vec![0, 0, 0, 0, 0, 1, 0, 1, 0, 0, 0, 0];
    data.extend(b"\x03foo\x03bar\x00");
    data.extend(vec![0, 1, 0, 1]);
    data.extend(vec![0xc0, 0x0c, 0, 1, 0, 1, 0, 0, 0, 60, 0, 4, 10, 0, 0, 1]);
    let parsed = DNSSector::new(data).unwrap().parse().unwrap();
    let it = parsed.into_iter_answer().expect("answer item");
    assert_eq!(it.section, Section::Answer);
    assert_eq!(it.rr_type(), 1);
    assert_eq!(it.rr_class(), 1);
    assert_eq!(it.rr_ttl(), 60);
    assert_eq!(it.rr_rdlen(), 4);
    assert_eq!(it.rdata_offset(), 37);
    assert_eq!(it.name(), b"\x03foo\x03bar\x00".to_vec());
    assert!(it.next().is_none());
    assert!(parsed.into_iter_nameservers().is_none());
    assert!(parsed.into_iter_additional().is_none());
}

#[test]
fn test_iterators_walk_declared_counts() {
    // a response with one MX answer, two NS records and three A glue
    // records
    let data = vec![
        0x45, 0x69, 0x85, 0x00, 0x00, 0x01, 0x00, 0x01, 0x00, 0x02, 0x00, 0x03, 0x03, 0x63,
        0x39, 0x78, 0x03, 0x6f, 0x72, 0x67, 0x00, 0x00, 0x0f, 0x00, 0x01, 0xc0, 0x0c, 0x00,
        0x0f, 0x00, 0x01, 0x00, 0x00, 0xa8, 0xc0, 0x00, 0x0f, 0x00, 0x0a, 0x07, 0x72, 0x65,
        0x63, 0x69, 0x74, 0x61, 0x6c, 0x02, 0x6d, 0x78, 0xc0, 0x0c, 0xc0, 0x0c, 0x00, 0x02,
        0x00, 0x01, 0x00, 0x01, 0x5b, 0xd2, 0x00, 0x0a, 0x04, 0x66, 0x72, 0x65, 0x65, 0x02,
        0x6e, 0x73, 0xc0, 0x0c, 0xc0, 0x0c, 0x00, 0x02, 0x00, 0x01, 0x00, 0x01, 0x5b, 0xd2,
        0x00, 0x0a, 0x07, 0x72, 0x65, 0x63, 0x69, 0x74, 0x61, 0x6c, 0xc0, 0x45, 0xc0, 0x27,
        0x00, 0x01, 0x00, 0x01, 0x00, 0x00, 0xa8, 0xc0, 0x00, 0x04, 0x25, 0x3b, 0xee, 0xd5,
        0xc0, 0x40, 0x00, 0x01, 0x00, 0x01, 0x00, 0x00, 0xa8, 0xc0, 0x00, 0x04, 0x4e, 0xc2,
        0xdb, 0x01, 0xc0, 0x56, 0x00, 0x01, 0x00, 0x01, 0x00, 0x00, 0xa8, 0xc0, 0x00, 0x04,
        0x25, 0x3b, 0xee, 0xd5,
    ];
    let parsed = DNSSector::new(data).unwrap().parse().unwrap();

    let mut types: Vec<u16> = Vec::new();
    let mut it = parsed.into_iter_answer();
    while let Some(item) = it {
        types.push(item.rr_type());
        it = item.next();
    }
    assert_eq!(types, vec![15]);

    let mut types: Vec<u16> = Vec::new();
    let mut it = parsed.into_iter_nameservers();
    while let Some(item) = it {
        types.push(item.rr_type());
        it = item.next();
    }
    assert_eq!(types, vec![2, 2]);

    let mut types: Vec<u16> = Vec::new();
    let mut it = parsed.into_iter_additional();
    while let Some(item) = it {
        types.push(item.rr_type());
        it = item.next();
    }
    assert_eq!(types, vec![1, 1, 1]);
}

#[test]
fn test_edns_iterator() {
    let parsed = DNSSector::new(edns_query()).unwrap().parse().unwrap();
    let it = parsed.into_iter_edns().expect("edns option item");
    assert_eq!(it.max_payload(), 1280);
    assert_eq!(it.ext_rcode(), 0);
    assert_eq!(it.version(), 0);
    assert_eq!(it.ext_flags(), 0);
    assert_eq!(it.option_code(), 8);
    assert_eq!(it.option_len(), 7);
    assert_eq!(it.option_data_offset(), 40);
    assert!(it.next().is_none());
}

#[test]
fn test_edns_iterator_walks_every_option() {
    // an OPT record carrying two options: an empty one with code 8 and a
    // two-byte one with code 10
    let mut data = vec![0x43, 0x96, 0x01, 0x00, 0x00, 0x01, 0x00, 0x00, 0x00, 0x00, 0x00, 0x01];
    data.extend(b"\x03c9x\x03org\x00");
    data.extend(vec![0x00, 0x10, 0x00, 0x01]);
    data.extend(vec![0x00, 0x00, 0x29, 0x10, 0x00, 0x00, 0x00, 0x00, 0x00, 0x00, 0x0a]);
    data.extend(vec![0x00, 0x08, 0x00, 0x00]);
    data.extend(vec![0x00, 0x0a, 0x00, 0x02, 0x01, 0x02]);
    let parsed = DNSSector::new(data).unwrap().parse().unwrap();
    let it = parsed.into_iter_edns().expect("first option");
    assert_eq!(it.option_code(), 8);
    assert_eq!(it.option_len(), 0);
    let it = it.next().expect("second option");
    assert_eq!(it.option_code(), 10);
    assert_eq!(it.option_len(), 2);
    assert_eq!(it.option_data_offset(), 44);
    assert!(it.next().is_none());
}

#[test]
fn test_edns_iterator_absent_without_opt() {
    let parsed = DNSSector::new(minimal_query()).unwrap().parse().unwrap();
    assert!(parsed.into_iter_edns().is_none());
}

#[test]
fn test_duplicate_opt_rejected() {
    let mut data = vec![0, 0, 0, 0, 0, 1, 0, 0, 0, 0, 0, 2];
    data.extend(vec![0, 0, 1, 0, 1]);
    data.extend(vec![0, 0, 41, 2, 0, 0, 0, 0, 0, 0, 0]);
    data.extend(vec![0, 0, 41, 2, 0, 0, 0, 0, 0, 0, 0]);
    let dns_sector = DNSSector::new(data).unwrap();
    match dns_sector.parse().err().expect("error") {
        DSError::InvalidPacket(_) => {}
        a => panic!("type: {:?}", a),
    }
}

#[test]
fn test_bogus_ipv4_length_rejected() {
    let mut data = vec![0, 0, 0, 0, 0, 1, 0, 1, 0, 0, 0, 0];
    data.extend(vec![0, 0, 1, 0, 1]);
    data.extend(vec![0, 0, 1, 0, 1, 0, 0, 0, 0, 0, 6, 1, 2, 3, 4, 5, 6]);
    let dns_sector = DNSSector::new(data).unwrap();
    match dns_sector.parse().err().expect("error") {
        DSError::InvalidPacket("A record doesn't include a 4 bytes IP address") => {}
        a => panic!("type: {:?}", a),
    }
}

#[test]
fn test_forward_pointer_rejected() {
    // a name whose compression pointer does not jump strictly backward
    let mut data = vec![0, 0, 0, 0, 0, 1, 0, 0, 0, 0, 0, 0];
    data.extend(vec![0xc0, 0x0c, 0, 1, 0, 1]);
    let dns_sector = DNSSector::new(data).unwrap();
    match dns_sector.parse().err().expect("error") {
        DSError::InvalidName(_) => {}
        a => panic!("type: {:?}", a),
    }
}
