use tardis::device::Device;
use tardis::error::Error;
use tardis::layout::{geometry, read_u16, read_u32, read_u64, BIOS_PARAMETER_BLOCK};
use tardis::mem::MemSource;
use tardis::ntfs::{parse, FileRecord, Ntfs, Volume};
use tardis::record::{parse_attribute, walk_attributes, END_TYPE, FILE_NAME_TYPE};

fn put16(b: &mut [u8], at: usize, v: u16) {
    b[at..at + 2].copy_from_slice(&v.to_le_bytes());
}

fn put32(b: &mut [u8], at: usize, v: u32) {
    b[at..at + 4].copy_from_slice(&v.to_le_bytes());
}

fn put64(b: &mut [u8], at: usize, v: u64) {
    b[at..at + 8].copy_from_slice(&v.to_le_bytes());
}

fn boot_sector(bytes_per_sector: u16, sectors_per_cluster: u8, mft: u64, backup: u64, per_record: i8) -> Vec<u8> {
    let mut h = vec![0u8; 512];
    h[3..11].copy_from_slice(b"NTFS    ");
    put16(&mut h, 11, bytes_per_sector);
    h[13] = sectors_per_cluster;
    put64(&mut h, 48, mft);
    put64(&mut h, 56, backup);
    h[64] = per_record as u8;
    h[68] = 1;
    h[510] = 0x55;
    h[511] = 0xaa;
    h
}

fn file_name_attribute(name: &str) -> Vec<u8> {
    let units: Vec<u16> = name.encode_utf16().collect();
    let value_length = 66 + 2 * units.len();
    let record_length = (24 + value_length + 7) / 8 * 8;
    let mut a = vec![0u8; record_length];
    put32(&mut a, 0, FILE_NAME_TYPE);
    put32(&mut a, 4, record_length as u32);
    a[8] = 0;
    put32(&mut a, 16, value_length as u32);
    put16(&mut a, 20, 24);
    a[24 + 64] = units.len() as u8;
    a[24 + 65] = 1;
    for (k, u) in units.iter().enumerate() {
        put16(&mut a, 24 + 66 + 2 * k, *u);
    }
    a
}

fn record_with(attributes: &[Vec<u8>]) -> Vec<u8> {
    let mut r = vec![0u8; 1024];
    r[0..4].copy_from_slice(b"FILE");
    put16(&mut r, 20, 56);
    put32(&mut r, 24, 256);
    let mut at = 56;
    for a in attributes {
        r[at..at + a.len()].copy_from_slice(a);
        at += a.len();
    }
    put32(&mut r, at, END_TYPE);
    r
}

fn volume(primary: Option<Vec<u8>>, backup: Option<Vec<u8>>) -> Vec<u8> {
    let mut image = vec![0u8; 36864];
    image[..512].copy_from_slice(&boot_sector(512, 8, 4, 8, -10));
    if let Some(r) = primary {
        image[16384..16384 + r.len()].copy_from_slice(&r);
    }
    if let Some(r) = backup {
        image[32768..32768 + r.len()].copy_from_slice(&r);
    }
    image
}

#[test]
fn ntfs_signature_dispatch() {
    let h = boot_sector(512, 8, 4, 8, -10);
    assert!(<Ntfs<MemSource> as Volume<MemSource>>::is_supported(&h));
    let g = geometry(&h).unwrap();
    assert_eq!(g.cluster_size, 4096);
    assert_eq!(g.mft_offset, 16384);
    assert_eq!(g.backup_mft_offset, 32768);
    assert_eq!(g.record_size, 1024);
    assert_eq!(g.index_buffer_size, 4096);
}

#[test]
fn positive_record_size_counts_clusters() {
    let h = boot_sector(512, 2, 4, 8, 2);
    assert_eq!(geometry(&h).unwrap().record_size, 2048);
}

#[test]
fn oversized_record_exponent_is_invalid() {
    let h = boot_sector(512, 8, 4, 8, -64);
    assert_eq!(geometry(&h), Err(Error::InvalidData));
    let h = boot_sector(512, 8, 4, 8, -63);
    assert_eq!(geometry(&h).unwrap().record_size, 1u64 << 63);
}

#[test]
fn zero_cluster_is_invalid() {
    let h = boot_sector(0, 8, 4, 8, -10);
    assert_eq!(geometry(&h), Err(Error::InvalidData));
}

#[test]
fn overflowing_mft_offset_is_invalid() {
    let h = boot_sector(512, 8, u64::MAX / 2, 8, -10);
    assert_eq!(geometry(&h), Err(Error::InvalidData));
}

#[test]
fn bios_parameter_block_fields() {
    let h = boot_sector(4096, 1, 4, 8, -10);
    let bpb = BIOS_PARAMETER_BLOCK::decode(&h, 11);
    assert_eq!(bpb.bytes_per_sector, 4096);
    assert_eq!(bpb.sectors_per_cluster, 1);
    assert_eq!(bpb.number_of_fats, 0);
}

#[test]
fn little_endian_reads() {
    let b = [0x01u8, 0x02, 0x03, 0x04, 0x05, 0x06, 0x07, 0x08];
    assert_eq!(read_u16(&b, 0), 0x0201);
    assert_eq!(read_u32(&b, 1), 0x05040302);
    assert_eq!(read_u64(&b, 0), 0x0807060504030201);
}

#[test]
fn mft_fallback() {
    let image = volume(None, Some(record_with(&[file_name_attribute("$MFT")])));
    let device = Device::new(MemSource::new(image, 512)).unwrap();
    let ntfs = parse(device).unwrap();
    assert!(ntfs.used_backup());
    assert_eq!(ntfs.mft().offset(), 32768);
    let attributes = ntfs.mft().attributes();
    assert_eq!(attributes.len(), 1);
    assert_eq!(attributes[0].name.as_deref(), Some("$MFT"));
    assert_eq!(ntfs.geometry().cluster_size, 4096);
}

#[test]
fn primary_mft_is_used_when_valid() {
    let image = volume(Some(record_with(&[file_name_attribute("$MFT")])), None);
    let mut ntfs = parse(Device::new(MemSource::new(image, 512)).unwrap()).unwrap();
    assert!(!ntfs.used_backup());
    assert_eq!(ntfs.mft().offset(), 16384);
    assert_eq!(ntfs.refresh(), Ok(()));
    assert_eq!(ntfs.mft().attributes()[0].name.as_deref(), Some("$MFT"));
    assert_eq!(ntfs.get_ref().get_ref().position() % 512, 0);
    assert!(ntfs.get_ref().get_ref().accesses().iter().all(|a| match a {
        tardis::source::Access::Read(n) => n % 512 == 0,
        _ => true,
    }));
}

#[test]
fn both_mft_copies_bad() {
    let image = volume(None, None);
    let r = parse(Device::new(MemSource::new(image, 512)).unwrap());
    assert_eq!(r.err(), Some(Error::InvalidData));
}

#[test]
fn unsupported_filesystem() {
    let mut image = volume(None, None);
    image[3..7].copy_from_slice(b"FAT3");
    let r = parse(Device::new(MemSource::new(image, 512)).unwrap());
    assert_eq!(r.err(), Some(Error::NotFound));
}

#[test]
fn short_source_ends_early() {
    let r = parse(Device::new(MemSource::new(vec![0u8; 100], 512)).unwrap());
    assert_eq!(r.err(), Some(Error::UnexpectedEof));
}

#[test]
fn cluster_not_multiple_of_sector() {
    let image = volume(None, Some(record_with(&[file_name_attribute("$MFT")])));
    let r = <Ntfs<MemSource> as Volume<MemSource>>::with_header(MemSource::new(image.clone(), 3000), &image[..512]);
    assert_eq!(r.err(), Some(Error::InvalidInput));
}

#[test]
fn volume_new_reads_header() {
    let image = volume(Some(record_with(&[file_name_attribute("$MFT")])), None);
    let ntfs = <Ntfs<MemSource> as Volume<MemSource>>::new(MemSource::new(image, 512)).unwrap();
    assert_eq!(ntfs.mft().attributes()[0].name.as_deref(), Some("$MFT"));
    let source = ntfs.into_inner();
    assert_eq!(source.position() % 512, 0);
}

#[test]
fn unknown_attribute_skip() {
    let mut unknown = vec![0u8; 64];
    put32(&mut unknown, 0, 0x50);
    put32(&mut unknown, 4, 64);
    let mut rec = unknown.clone();
    rec.extend_from_slice(&END_TYPE.to_le_bytes());
    let attributes = walk_attributes(&rec, 0).unwrap();
    assert_eq!(attributes.len(), 1);
    assert_eq!(attributes[0].header.type_code, 0x50);
    assert_eq!(attributes[0].header.record_length, 64);
    assert!(attributes[0].resident.is_some());
    assert!(attributes[0].name.is_none());
}

#[test]
fn zero_length_attribute_is_invalid() {
    let mut rec = vec![0u8; 64];
    put32(&mut rec, 0, 0x80);
    assert_eq!(walk_attributes(&rec, 0).err(), Some(Error::InvalidData));
}

#[test]
fn attribute_past_record_is_invalid() {
    let mut rec = vec![0u8; 64];
    put32(&mut rec, 0, 0x80);
    put32(&mut rec, 4, 65);
    assert_eq!(walk_attributes(&rec, 0).err(), Some(Error::InvalidData));
}

#[test]
fn bad_form_code_is_invalid() {
    let mut rec = vec![0u8; 64];
    put32(&mut rec, 0, 0x80);
    put32(&mut rec, 4, 64);
    rec[8] = 2;
    assert_eq!(walk_attributes(&rec, 0).err(), Some(Error::InvalidData));
}

#[test]
fn non_resident_header_is_decoded() {
    let mut rec = vec![0u8; 80];
    put32(&mut rec, 0, 0x80);
    put32(&mut rec, 4, 72);
    rec[8] = 1;
    put64(&mut rec, 16 + 32, 123456);
    let a = parse_attribute(&rec, 0).unwrap().unwrap();
    assert_eq!(a.non_resident.unwrap().file_size, 123456);
}

#[test]
fn standard_information_is_decoded() {
    let mut rec = vec![0u8; 24 + 72];
    put32(&mut rec, 0, 0x10);
    put32(&mut rec, 4, 96);
    put32(&mut rec, 16, 72);
    put16(&mut rec, 20, 24);
    put32(&mut rec, 24 + 32, 0x20);
    let a = parse_attribute(&rec, 0).unwrap().unwrap();
    assert_eq!(a.standard.unwrap().permissions, 0x20);
}

#[test]
fn end_marker_ends_walk() {
    let rec = END_TYPE.to_le_bytes().to_vec();
    assert!(parse_attribute(&rec, 0).unwrap().is_none());
    assert_eq!(walk_attributes(&rec, 0).unwrap().len(), 0);
}

#[test]
fn file_name_is_decoded() {
    let a = file_name_attribute("naïve.txt");
    let parsed = parse_attribute(&a, 0).unwrap().unwrap();
    assert_eq!(parsed.name.as_deref(), Some("naïve.txt"));
    assert_eq!(parsed.file_name.unwrap().name_length, 9);
}

#[test]
fn unpaired_surrogate_is_invalid() {
    let mut a = file_name_attribute("ab");
    put16(&mut a, 24 + 66, 0xd800);
    assert_eq!(parse_attribute(&a, 0).err(), Some(Error::InvalidData));
}

#[test]
fn missing_signature_is_invalid() {
    let image = volume(None, None);
    let mut device = Device::with_block_size(MemSource::new(image, 512), 4096).unwrap();
    assert_eq!(FileRecord::new(&mut device, 16384, 1024).err(), Some(Error::InvalidData));
    assert_eq!(FileRecord::new(&mut device, 16384, 10).err(), Some(Error::InvalidData));
    assert_eq!(FileRecord::new(&mut device, 40000, 1024).err(), Some(Error::UnexpectedEof));
}

#[test]
fn record_refresh_rereads() {
    let image = volume(Some(record_with(&[file_name_attribute("$MFT")])), None);
    let mut device = Device::with_block_size(MemSource::new(image, 512), 4096).unwrap();
    let mut record = FileRecord::new(&mut device, 16384, 1024).unwrap();
    assert_eq!(record.attributes().len(), 1);
    assert_eq!(record.refresh(&mut device, 1024), Ok(()));
    assert_eq!(record.attributes().len(), 1);
}
