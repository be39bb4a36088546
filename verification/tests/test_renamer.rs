use dnssector::DNSSector;
use dnssector::Renamer;
use dnssector::RenameError;

// One question "foo.bar" and one A answer whose name is compressed down to
// a pointer at the question's name.
fn query_with_compressed_answer() -> Vec<u8> {
    let mut data = vec![0, 0, 0, 0, 0, 1, 0, 1, 0, 0, 0, 0];
    data.extend(b"\x03foo\x03bar\x00");
    data.extend(vec![0, 1, 0, 1]);
    data.extend(vec![0xc0, 0x0c, 0, 1, 0, 1, 0, 0, 0, 60, 0, 4, 10, 0, 0, 1]);
    data
}

#[test]
fn test_rename_to_itself_is_identity() {
    let data = query_with_compressed_answer();
    let parsed = DNSSector::new(data.clone()).unwrap().parse().unwrap();
    let renamed = Renamer::rename_with_raw_names(
        &parsed,
        &b"\x03foo\x03bar\x00".to_vec(),
        &b"\x03foo\x03bar\x00".to_vec(),
        true,
    )
    .expect("No match");
    assert_eq!(renamed, data);
}

#[test]
fn test_rename_and_back_restores_packet() {
    let data = query_with_compressed_answer();
    let parsed = DNSSector::new(data.clone()).unwrap().parse().unwrap();
    let renamed = Renamer::rename_with_raw_names(
        &parsed,
        &b"\x03foo\x03bar\x00".to_vec(),
        &b"\x03fXo\x03bYr\x00".to_vec(),
        true,
    )
    .expect("No match");
    assert_ne!(renamed, data);
    // the renamed packet still parses, and both names now read the new one
    let reparsed = DNSSector::new(renamed).unwrap().parse().expect("renamed packet parses");
    let q = reparsed.into_iter_question().expect("question item");
    assert_eq!(q.name(), b"\x03fXo\x03bYr\x00".to_vec());
    let a = reparsed.into_iter_answer().expect("answer item");
    assert_eq!(a.name(), b"\x03fXo\x03bYr\x00".to_vec());
    // renaming back restores the original bytes exactly
    let restored = Renamer::rename_with_raw_names(
        &reparsed,
        &b"\x03fXo\x03bYr\x00".to_vec(),
        &b"\x03foo\x03bar\x00".to_vec(),
        true,
    )
    .expect("No match");
    assert_eq!(restored, data);
}

#[test]
fn test_rename_absent_name_reports_no_match() {
    let data = query_with_compressed_answer();
    let parsed = DNSSector::new(data).unwrap().parse().unwrap();
    let ret = Renamer::rename_with_raw_names(
        &parsed,
        &b"\x03baz\x03qux\x00".to_vec(),
        &b"\x03quo\x03zap\x00".to_vec(),
        true,
    );
    assert_eq!(ret, Err(RenameError::NoMatch));
}

#[test]
fn test_rename_absent_name_tolerated_when_not_required() {
    let data = query_with_compressed_answer();
    let parsed = DNSSector::new(data.clone()).unwrap().parse().unwrap();
    let ret = Renamer::rename_with_raw_names(
        &parsed,
        &b"\x03baz\x03qux\x00".to_vec(),
        &b"\x03quo\x03zap\x00".to_vec(),
        false,
    )
    .expect("zero matches are acceptable here");
    assert_eq!(ret, data);
}

#[test]
fn test_rename_rejects_malformed_names() {
    let data = query_with_compressed_answer();
    let parsed = DNSSector::new(data).unwrap().parse().unwrap();
    // a label length byte above 63 is not a valid raw name
    let ret = Renamer::rename_with_raw_names(
        &parsed,
        &vec![64, 97, 0],
        &vec![64, 98, 0],
        false,
    );
    assert_eq!(ret, Err(RenameError::InvalidRawName));
    // a missing terminator is not a valid raw name either
    let ret = Renamer::rename_with_raw_names(
        &parsed,
        &b"\x03foo".to_vec(),
        &b"\x03bar".to_vec(),
        false,
    );
    assert_eq!(ret, Err(RenameError::InvalidRawName));
}

#[test]
fn test_rename_rejects_differing_shapes() {
    let data = query_with_compressed_answer();
    let parsed = DNSSector::new(data).unwrap().parse().unwrap();
    // equal total length but different label lengths: an in-place
    // substitution would tear the compression chain apart
    let ret = Renamer::rename_with_raw_names(
        &parsed,
        &b"\x03foo\x03bar\x00".to_vec(),
        &b"\x02fo\x04obar\x00".to_vec(),
        false,
    );
    assert_eq!(ret, Err(RenameError::InvalidRawName));
    // differing total lengths would force every later offset to move
    let ret = Renamer::rename_with_raw_names(
        &parsed,
        &b"\x03foo\x03bar\x00".to_vec(),
        &b"\x06foobar\x00".to_vec(),
        false,
    );
    assert_eq!(ret, Err(RenameError::InvalidRawName));
}

#[test]
fn test_rename_leaves_other_names_alone() {
    // two questions are impossible, so use an answer with its own name
    let mut data = vec![0, 0, 0, 0, 0, 1, 0, 1, 0, 0, 0, 0];
    data.extend(b"\x03foo\x03bar\x00");
    data.extend(vec![0, 1, 0, 1]);
    data.extend(b"\x03yyy\x03zzz\x00");
    data.extend(vec![0, 1, 0, 1, 0, 0, 0, 60, 0, 4, 10, 0, 0, 1]);
    let parsed = DNSSector::new(data).unwrap().parse().unwrap();
    let renamed = Renamer::rename_with_raw_names(
        &parsed,
        &b"\x03foo\x03bar\x00".to_vec(),
        &b"\x03abc\x03def\x00".to_vec(),
        true,
    )
    .expect("No match");
    let reparsed = DNSSector::new(renamed).unwrap().parse().unwrap();
    let q = reparsed.into_iter_question().expect("question item");
    assert_eq!(q.name(), b"\x03abc\x03def\x00".to_vec());
    let a = reparsed.into_iter_answer().expect("answer item");
    assert_eq!(a.name(), b"\x03yyy\x03zzz\x00".to_vec());
}
