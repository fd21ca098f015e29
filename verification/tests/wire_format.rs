use oaf::wire::{push_u32_le, push_u64_le, read_u32_le, read_u64_le, set_u64_le};
use oaf::{ArchiveHeader, ArchiveTableEntry, Signature};

#[test]
fn u32_is_little_endian() {
    let mut out = vec![0xaa];
    push_u32_le(&mut out, 0x0102_0304);
    assert_eq!(out, [0xaa, 4, 3, 2, 1]);
    assert_eq!(read_u32_le(&out, 1), 0x0102_0304);
    assert_eq!(read_u32_le(&[0xff, 0xff, 0xff, 0xff], 0), u32::MAX);
    assert_eq!(read_u32_le(&[0, 0, 1, 0], 0), 65536);
}

#[test]
fn u64_is_little_endian() {
    let mut out = Vec::new();
    push_u64_le(&mut out, 0x0102_0304_0506_0708);
    assert_eq!(out, [8, 7, 6, 5, 4, 3, 2, 1]);
    assert_eq!(read_u64_le(&out, 0), 0x0102_0304_0506_0708);
    push_u64_le(&mut out, u64::MAX);
    assert_eq!(&out[8..], &[0xff; 8]);
    assert_eq!(read_u64_le(&out, 8), u64::MAX);
    assert_eq!(read_u64_le(&out, 4), 0xffff_ffff_0102_0304);
}

#[test]
fn u64_is_overwritten_in_place() {
    let mut out: Vec<u8> = (0..12).collect();
    set_u64_le(&mut out, 2, 0x1122_3344_5566_7788);
    assert_eq!(out, [0, 1, 0x88, 0x77, 0x66, 0x55, 0x44, 0x33, 0x22, 0x11, 10, 11]);
}

#[test]
fn integers_agree_with_std_and_with_a_cast_of_their_memory() {
    for x in [0u64, 1, 0xff, 0x100, 0x0102_0304_0506_0708, u64::MAX - 1, u64::MAX] {
        let mut out = Vec::new();
        push_u64_le(&mut out, x);
        assert_eq!(out, x.to_le_bytes());
        assert_eq!(out, bytemuck::bytes_of(&x.to_le()));
        assert_eq!(read_u64_le(&out, 0), u64::from_le(bytemuck::pod_read_unaligned::<u64>(&out)));
    }
    for x in [0u32, 1, 0xff, 0x100, 0x0102_0304, u32::MAX] {
        let mut out = Vec::new();
        push_u32_le(&mut out, x);
        assert_eq!(out, x.to_le_bytes());
        assert_eq!(out, bytemuck::bytes_of(&x.to_le()));
        assert_eq!(read_u32_le(&out, 0), u32::from_le(bytemuck::pod_read_unaligned::<u32>(&out)));
    }
}

#[test]
fn signature_takes_eight_bytes() {
    let mut out = Vec::new();
    Signature::File.write(&mut out);
    Signature::Directory.write(&mut out);
    Signature::OS(0x0a0b_0c0d).write(&mut out);
    assert_eq!(
        out,
        [
            0, 0, 0, 0, 0, 0, 0, 0, //
            1, 0, 0, 0, 0, 0, 0, 0, //
            0xff, 0xff, 0xff, 0xff, 0x0d, 0x0c, 0x0b, 0x0a,
        ]
    );
}

#[test]
fn table_entry_takes_56_bytes_and_reads_back() {
    let entry = ArchiveTableEntry::new(Signature::OS(42), 1, 2, 3, 4, 5, u64::MAX);
    let mut out = Vec::new();
    entry.write(&mut out);
    assert_eq!(out.len(), 56);
    assert_eq!(&out[..8], &[0xff, 0xff, 0xff, 0xff, 42, 0, 0, 0]);
    let fields: [u64; 6] = [1u64.to_le(), 2u64.to_le(), 3u64.to_le(), 4u64.to_le(), 5u64.to_le(), u64::MAX];
    assert_eq!(&out[8..], bytemuck::cast_slice::<u64, u8>(&fields));
    let bits: [u8; 56] = out.try_into().unwrap();
    assert_eq!(ArchiveTableEntry::from_bits(&bits), Ok(entry));
}

#[test]
fn header_takes_40_bytes_and_reads_back() {
    let header = ArchiveHeader::new(oaf::VERSION_0_0_1_0, 0x0403_0201, 0x11, 0x22, 0x33);
    let mut out = Vec::new();
    header.write(&mut out);
    assert_eq!(out.len(), 40);
    assert_eq!(&out[..8], b"OARCHIVE");
    assert_eq!(&out[8..12], &[0, 0, 1, 0]);
    assert_eq!(&out[12..16], &[1, 2, 3, 4]);
    assert_eq!(&out[16..24], &[0x11, 0, 0, 0, 0, 0, 0, 0]);
    assert_eq!(&out[24..32], &[0x22, 0, 0, 0, 0, 0, 0, 0]);
    assert_eq!(&out[32..40], &[0x33, 0, 0, 0, 0, 0, 0, 0]);
    assert_eq!(ArchiveHeader::try_from(&out), Ok(header));
}
