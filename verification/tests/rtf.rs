use outlook_pst::compressed_rtf::dictionary::{DictionaryReference, Error, TokenDictionary};

#[test]
fn references_pack_offset_and_length() {
    let r = DictionaryReference::try_from_match(0x123, 5).unwrap();
    assert_eq!(r.offset(), 0x123);
    assert_eq!(r.length(), 5);
    let mut out = Vec::new();
    r.write(&mut out);
    assert_eq!(out, vec![0x12, 0x33]);
    assert_eq!(DictionaryReference::read(&out), Ok(r));
    assert_eq!(DictionaryReference::read(&out[..1]), Err(Error::UnexpectedEndOfData));

    let max = DictionaryReference::try_from_match(0x0FFF, 17).unwrap();
    assert_eq!(max.offset(), 0x0FFF);
    assert_eq!(max.length(), 17);

    assert_eq!(
        DictionaryReference::try_from_match(0x1000, 2),
        Err(Error::InvalidDictionaryReferenceOffset(0x1000))
    );
    assert_eq!(
        DictionaryReference::try_from_match(0, 18),
        Err(Error::InvalidDictionaryReferenceLength(18))
    );
    assert_eq!(
        DictionaryReference::try_from_match(0, 1),
        Err(Error::InvalidDictionaryReferenceLength(1))
    );
}

#[test]
fn reading_a_reference_copies_from_the_initial_text() {
    let mut dict = TokenDictionary::new();
    let r = DictionaryReference::try_from_match(0, 6).unwrap();
    assert_eq!(dict.read_reference(r), Some(b"{\\rtf1".to_vec()));
    // The copied bytes were appended at the write offset (207).
    let copy = DictionaryReference::try_from_match(207, 6).unwrap();
    assert_eq!(dict.read_reference(copy), Some(b"{\\rtf1".to_vec()));
}

#[test]
fn a_reference_to_the_write_offset_ends_the_stream() {
    let mut dict = TokenDictionary::default();
    let end = DictionaryReference::try_from_match(207, 2).unwrap();
    assert_eq!(dict.read_reference(end), None);
    let dict = TokenDictionary::new();
    let last = dict.final_reference();
    assert_eq!(last.offset(), 207);
    assert_eq!(last.length(), 2);
}

#[test]
fn written_bytes_move_the_write_offset() {
    let mut dict = TokenDictionary::new();
    dict.write_byte(b'x');
    dict.write_byte(b'y');
    let last = dict.final_reference();
    assert_eq!(last.offset(), 209);
    let mut dict = TokenDictionary::new();
    dict.write_byte(b'x');
    dict.write_byte(b'y');
    let r = DictionaryReference::try_from_match(207, 2).unwrap();
    assert_eq!(dict.read_reference(r), Some(b"xy".to_vec()));
}

#[test]
fn longest_match_of_the_initial_text() {
    let mut dict = TokenDictionary::new();
    let found = dict.find_longest_match(b"{\\rtf1\\ansi\\mac\\deff0\\deftab").unwrap();
    let r = found.unwrap();
    assert_eq!(r.offset(), 0);
    assert_eq!(r.length(), 17);
    assert_eq!(dict.final_reference().offset(), 207 + 17);
}

#[test]
fn longest_match_picks_the_longer_candidate() {
    let mut dict = TokenDictionary::new();
    // "\\par" occurs first at offset 170, but "\\pard\\" only at offset 175.
    let r = dict.find_longest_match(b"\\pard\\x").unwrap().unwrap();
    assert_eq!(r.length(), 6);
    assert_eq!(r.offset(), 175);
    assert_eq!(dict.final_reference().offset(), 213);
}

#[test]
fn no_match_adds_the_first_byte() {
    let mut dict = TokenDictionary::new();
    assert_eq!(dict.find_longest_match(b"Z").unwrap(), None);
    let r = DictionaryReference::try_from_match(207, 2).unwrap();
    assert_eq!(dict.read_reference(r).unwrap()[0], b'Z');
    let mut dict = TokenDictionary::new();
    assert_eq!(dict.find_longest_match(b"Z").unwrap(), None);
    assert_eq!(dict.final_reference().offset(), 208);
}

#[test]
fn a_single_byte_match_gives_no_reference() {
    let mut dict = TokenDictionary::new();
    assert_eq!(dict.find_longest_match(b"{Q").unwrap(), None);
    assert_eq!(dict.final_reference().offset(), 208);
}

#[test]
fn a_reference_may_copy_its_own_output() {
    // The last byte of the initial text, 'x', sits at offset 206, just before the
    // write offset 207: copying 3 bytes from there reads back what it writes.
    let mut dict = TokenDictionary::new();
    let r = DictionaryReference::try_from_match(206, 3).unwrap();
    assert_eq!(dict.read_reference(r), Some(b"xxx".to_vec()));
    let end = DictionaryReference::try_from_match(210, 2).unwrap();
    assert_eq!(dict.read_reference(end), None);
}

#[test]
fn longest_match_may_run_past_the_write_offset() {
    // The only 'x' of the initial text sits at offset 206, just before the write
    // offset: the match there reads back the bytes it adds.
    let mut dict = TokenDictionary::new();
    let r = dict.find_longest_match(b"xxxx").unwrap().unwrap();
    assert_eq!(r.offset(), 206);
    assert_eq!(r.length(), 4);
    assert_eq!(dict.final_reference().offset(), 211);
}
