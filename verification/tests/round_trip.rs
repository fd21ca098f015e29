use oaf::builder::ArchiveBuilder;
use oaf::{Archive, ArchiveEntry, Error, Signature};

fn fields<'a>(entry: &ArchiveEntry<'a>) -> (Signature, &'a str, &'a [u8], &'a [u8]) {
    (entry.signature(), entry.name(), entry.extra_data(), entry.data())
}

#[test]
fn file_and_directory_scenario() {
    let mut builder = ArchiveBuilder::new();
    builder.push_entry(Signature::File, "a.txt", &[], b"hi");
    builder.push_entry(Signature::Directory, "d", &[1, 2], &[]);
    let bytes = builder.finish();

    let archive = Archive::new(&bytes).unwrap();
    assert_eq!(archive.entry_count(), 2);
    // "a.txt" takes five bytes and "d" one
    assert_eq!(archive.names_size(), 6);
    assert_eq!(archive.extra_data_size(), 2);
    assert_eq!(archive.uncompressed_size(), bytes.len() as u64);
    assert_eq!(archive.version(), oaf::VERSION_0_0_1_0);

    let mut iter = archive.iter();
    assert_eq!(iter.len(), 2);
    let first = iter.next().unwrap().unwrap();
    assert_eq!(fields(&first), (Signature::File, "a.txt", &[][..], &b"hi"[..]));
    let second = iter.next().unwrap().unwrap();
    assert_eq!(fields(&second), (Signature::Directory, "d", &[1u8, 2][..], &[][..]));
    assert!(iter.next().is_none());
    assert!(iter.next_back().is_none());
}

#[test]
fn file_and_directory_scenario_exact_bytes() {
    let mut builder = ArchiveBuilder::new();
    builder.push_entry(Signature::File, "a.txt", &[], b"hi");
    builder.push_entry(Signature::Directory, "d", &[1, 2], &[]);
    let bytes = builder.finish();

    let mut expected: Vec<u8> = Vec::new();
    expected.extend_from_slice(b"OARCHIVE");
    expected.extend_from_slice(&[0, 0, 1, 0]);
    expected.extend_from_slice(&[2, 0, 0, 0]);
    expected.extend_from_slice(&[6, 0, 0, 0, 0, 0, 0, 0]);
    expected.extend_from_slice(&[2, 0, 0, 0, 0, 0, 0, 0]);
    expected.extend_from_slice(&[162, 0, 0, 0, 0, 0, 0, 0]);
    // the file: tag 0, code 0, name 0..5, auxiliary data 0..0, payload 0..2
    expected.extend_from_slice(&[0, 0, 0, 0, 0, 0, 0, 0]);
    for field in [0u64, 5, 0, 0, 0, 2] {
        expected.extend_from_slice(&field.to_le_bytes());
    }
    // the directory: tag 1, code 0, name 5..6, auxiliary data 0..2, payload 2..2
    expected.extend_from_slice(&[1, 0, 0, 0, 0, 0, 0, 0]);
    for field in [5u64, 1, 0, 2, 2, 0] {
        expected.extend_from_slice(&field.to_le_bytes());
    }
    expected.extend_from_slice(b"a.txtd");
    expected.extend_from_slice(&[1, 2]);
    expected.extend_from_slice(b"hi");

    assert_eq!(bytes.len(), 40 + 2 * 56 + 6 + 2 + 2);
    assert_eq!(bytes, expected);
}

#[test]
fn empty_builder_gives_valid_empty_archive() {
    let builder = ArchiveBuilder::new();
    assert_eq!(builder.len(), 0);
    let bytes = builder.finish();
    assert_eq!(bytes.len(), 40);
    assert_eq!(&bytes[..8], b"OARCHIVE");
    assert_eq!(&bytes[32..40], &40u64.to_le_bytes());

    let archive = Archive::new(&bytes).unwrap();
    assert_eq!(archive.entry_count(), 0);
    assert_eq!(archive.names_size(), 0);
    assert_eq!(archive.extra_data_size(), 0);
    assert_eq!(archive.uncompressed_size(), 40);
    let mut iter = archive.iter();
    assert_eq!(iter.len(), 0);
    assert!(iter.next().is_none());
    assert!(iter.next_back().is_none());
}

fn sample_records() -> Vec<(Signature, String, Vec<u8>, Vec<u8>)> {
    vec![
        (Signature::File, "readme.md".to_string(), vec![], b"# hello\n".to_vec()),
        (Signature::Directory, "src".to_string(), vec![7, 7, 7], vec![]),
        (Signature::OS(0xdead_beef), "".to_string(), vec![0xff], vec![0, 1, 2, 3, 4]),
        (Signature::OS(0), "na\u{ef}ve \u{65e5}\u{672c}\u{8a9e} \u{1f980}".to_string(), vec![], vec![]),
        (Signature::File, "a/b/c".to_string(), (0..=255).collect(), vec![0; 1000]),
        (Signature::OS(u32::MAX), "last".to_string(), vec![9], vec![9]),
    ]
}

fn build(records: &[(Signature, String, Vec<u8>, Vec<u8>)]) -> Vec<u8> {
    let mut builder = ArchiveBuilder::new();
    for (signature, name, extra_data, data) in records {
        builder.push_entry(*signature, name, extra_data, data);
    }
    assert_eq!(builder.len(), records.len());
    builder.finish()
}

#[test]
fn round_trip_keeps_every_record_in_order() {
    let records = sample_records();
    let bytes = build(&records);
    let archive = Archive::new(&bytes).unwrap();
    assert_eq!(archive.entry_count() as usize, records.len());
    assert_eq!(archive.uncompressed_size(), bytes.len() as u64);

    let mut iter = archive.iter();
    for (signature, name, extra_data, data) in &records {
        let entry = iter.next().unwrap().unwrap();
        assert_eq!(entry.signature(), *signature);
        assert_eq!(entry.name(), name.as_str());
        assert_eq!(entry.extra_data(), extra_data.as_slice());
        assert_eq!(entry.data(), data.as_slice());
    }
    assert!(iter.next().is_none());
}

#[test]
fn header_sizes_are_sums_of_what_was_pushed() {
    let records = sample_records();
    let bytes = build(&records);
    let archive = Archive::new(&bytes).unwrap();
    let names: usize = records.iter().map(|r| r.1.len()).sum();
    let extra: usize = records.iter().map(|r| r.2.len()).sum();
    let data: usize = records.iter().map(|r| r.3.len()).sum();
    assert_eq!(archive.names_size(), names as u64);
    assert_eq!(archive.extra_data_size(), extra as u64);
    assert_eq!(bytes.len(), 40 + 56 * records.len() + names + extra + data);
    assert_eq!(archive.header().uncompressed_size(), bytes.len() as u64);
}

#[test]
fn backward_iteration_is_forward_iteration_reversed() {
    let records = sample_records();
    let bytes = build(&records);
    let archive = Archive::new(&bytes).unwrap();

    let mut forward = Vec::new();
    let mut iter = archive.iter();
    while let Some(entry) = iter.next() {
        forward.push(entry.unwrap().name().to_string());
    }
    let mut backward = Vec::new();
    let mut iter = archive.iter();
    while let Some(entry) = iter.next_back() {
        backward.push(entry.unwrap().name().to_string());
    }
    assert_eq!(forward.len(), records.len());
    backward.reverse();
    assert_eq!(forward, backward);
}

#[test]
fn len_counts_what_is_left_from_both_ends() {
    let records = sample_records();
    let bytes = build(&records);
    let archive = Archive::new(&bytes).unwrap();
    let mut iter = archive.iter();
    assert_eq!(iter.len(), 6);
    assert_eq!(iter.next().unwrap().unwrap().name(), "readme.md");
    assert_eq!(iter.len(), 5);
    assert_eq!(iter.next_back().unwrap().unwrap().name(), "last");
    assert_eq!(iter.len(), 4);
    assert_eq!(iter.next_back().unwrap().unwrap().name(), "a/b/c");
    assert_eq!(iter.len(), 3);
    assert_eq!(iter.next().unwrap().unwrap().name(), "src");
    assert_eq!(iter.len(), 2);
    assert_eq!(iter.next().unwrap().unwrap().signature(), Signature::OS(0xdead_beef));
    assert_eq!(iter.len(), 1);
    assert_eq!(iter.next_back().unwrap().unwrap().signature(), Signature::OS(0));
    assert_eq!(iter.len(), 0);
    assert!(iter.next().is_none());
    assert!(iter.next_back().is_none());
    assert_eq!(iter.len(), 0);
}

#[test]
fn iterators_of_one_archive_do_not_share_a_cursor() {
    let bytes = build(&sample_records());
    let archive = Archive::new(&bytes).unwrap();
    let mut first = archive.iter();
    let mut second = archive.iter();
    assert_eq!(first.next().unwrap().unwrap().name(), "readme.md");
    assert_eq!(second.next().unwrap().unwrap().name(), "readme.md");
    assert_eq!(first.len(), 5);
    assert_eq!(second.len(), 5);
}

#[test]
fn entries_borrow_from_the_buffer() {
    let bytes = build(&sample_records());
    let archive = Archive::new(&bytes).unwrap();
    let entry = archive.iter().next().unwrap().unwrap();
    let range = bytes.as_ptr_range();
    assert!(range.contains(&entry.name().as_ptr()));
    assert!(range.contains(&entry.data().as_ptr()));
}

#[test]
fn error_names_are_variant_names() {
    assert_eq!(Error::InvalidMagic.name(), "InvalidMagic");
    assert_eq!(Error::InvalidVersion.name(), "InvalidVersion");
    assert_eq!(Error::InvalidSignature.name(), "InvalidSignature");
    assert_eq!(Error::InternalError.name(), "InternalError");
    assert_eq!(Error::IncompleteHeader.name(), "IncompleteHeader");
    assert_eq!(Error::InvalidSizeSum.name(), "InvalidSizeSum");
    assert_eq!(Error::IncompleteData.name(), "IncompleteData");
    assert_eq!(Error::InvalidEntryTable.name(), "InvalidEntryTable");
    assert_eq!(format!("{:?}", Error::IncompleteData), Error::IncompleteData.name());
}
