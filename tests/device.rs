use tardis::device::{BlockDevice, Device};
use tardis::error::Error;
use tardis::mem::MemSource;
use tardis::source::{iadd, Access, Block, SeekFrom, Stream};

fn pattern(len: usize) -> Vec<u8> {
    (0..len).map(|i| (i % 256) as u8).collect()
}

fn device(len: usize, block: usize) -> Device<MemSource> {
    Device::with_block_size(MemSource::new(pattern(len), block), block).unwrap()
}

fn reads(d: &Device<MemSource>) -> Vec<usize> {
    d.get_ref()
        .accesses()
        .iter()
        .filter_map(|a| match a {
            Access::Read(n) => Some(*n),
            _ => None,
        })
        .collect()
}

fn seek_offsets(d: &Device<MemSource>) -> Vec<i128> {
    d.get_ref()
        .accesses()
        .iter()
        .filter_map(|a| match a {
            Access::Seek(SeekFrom::Start(k)) => Some(*k as i128),
            Access::Seek(SeekFrom::End(k)) => Some(*k as i128),
            Access::Seek(SeekFrom::Current(k)) => Some(*k as i128),
            _ => None,
        })
        .collect()
}

#[test]
fn aligned_passthrough() {
    let mut d = device(4096, 512);
    assert_eq!(d.seek(SeekFrom::Start(0)), Ok(0));
    let mut buf = vec![0u8; 1024];
    assert_eq!(d.read(&mut buf), Ok(1024));
    assert_eq!(buf, pattern(4096)[0..1024].to_vec());
    assert!(reads(&d).iter().all(|n| n % 512 == 0));
    assert_eq!(reads(&d), vec![1024]);
}

#[test]
fn intra_block_backward_seek() {
    let mut d = device(4096, 512);
    let mut a = vec![0u8; 300];
    assert_eq!(d.read(&mut a), Ok(300));
    assert_eq!(d.seek(SeekFrom::Start(100)), Ok(100));
    let mut b = vec![0u8; 50];
    assert_eq!(d.read(&mut b), Ok(50));
    assert_eq!(b, pattern(4096)[100..150].to_vec());
    assert_eq!(reads(&d), vec![512]);
}

#[test]
fn large_bypass() {
    let mut d = device(8192, 512);
    let mut buf = vec![0u8; 3000];
    assert_eq!(d.read(&mut buf), Ok(2560));
    assert_eq!(reads(&d), vec![2560]);
    assert_eq!(d.buffer().len(), 0);
    assert_eq!(buf[..2560].to_vec(), pattern(8192)[..2560].to_vec());
}

#[test]
fn accesses_stay_aligned() {
    let mut d = device(8192, 512);
    let mut buf = vec![0u8; 700];
    d.seek(SeekFrom::Start(1000)).unwrap();
    d.read(&mut buf).unwrap();
    d.seek(SeekFrom::Current(-900)).unwrap();
    d.read(&mut buf).unwrap();
    d.seek(SeekFrom::End(-3)).unwrap();
    d.read(&mut buf).unwrap();
    d.seek(SeekFrom::Start(5000)).unwrap();
    d.read_exact(&mut buf).unwrap();
    assert!(reads(&d).iter().all(|n| n % 512 == 0));
    assert!(seek_offsets(&d).iter().all(|k| k % 512 == 0));
}

#[test]
fn reads_match_the_source() {
    let data = pattern(5000);
    for &(offset, length) in &[(0usize, 5000usize), (1, 1), (511, 2), (513, 1500), (4999, 1), (3000, 2000)] {
        let mut d = device(5000, 512);
        d.seek(SeekFrom::Start(offset as u64)).unwrap();
        let mut buf = vec![0u8; length];
        assert_eq!(d.read_exact(&mut buf), Ok(()));
        assert_eq!(buf, data[offset..offset + length].to_vec());
    }
}

#[test]
fn read_exact_past_end_fails() {
    let mut d = device(1000, 512);
    d.seek(SeekFrom::Start(900)).unwrap();
    let mut buf = vec![0u8; 200];
    assert_eq!(d.read_exact(&mut buf), Err(Error::UnexpectedEof));
}

#[test]
fn repeated_seek_moves_nothing() {
    let mut d = device(4096, 512);
    assert_eq!(d.seek(SeekFrom::Start(700)), Ok(700));
    let before = d.get_ref().accesses().len();
    let cached = d.buffer().to_vec();
    assert_eq!(d.seek(SeekFrom::Start(700)), Ok(700));
    let after = d.get_ref().accesses()[before..].to_vec();
    assert_eq!(after, vec![Access::Seek(SeekFrom::Current(0))]);
    assert_eq!(d.buffer().to_vec(), cached);
}

#[test]
fn seek_in_window_keeps_cache() {
    let mut d = device(4096, 512);
    let mut a = vec![0u8; 10];
    d.seek(SeekFrom::Start(1030)).unwrap();
    d.read(&mut a).unwrap();
    let before = reads(&d).len();
    for target in [1024u64, 1500, 1536, 1100] {
        assert_eq!(d.seek(SeekFrom::Start(target)), Ok(target));
    }
    let mut b = vec![0u8; 20];
    assert_eq!(d.read(&mut b), Ok(20));
    assert_eq!(b, pattern(4096)[1100..1120].to_vec());
    assert_eq!(reads(&d).len(), before);
}

#[test]
fn forward_reseek_reads_one_block() {
    let mut d = device(4096, 512);
    let mut a = vec![0u8; 100];
    d.read(&mut a).unwrap();
    let before = reads(&d).len();
    assert_eq!(d.seek(SeekFrom::Start(600)), Ok(600));
    let mut b = vec![0u8; 10];
    assert_eq!(d.read(&mut b), Ok(10));
    assert_eq!(b, pattern(4096)[600..610].to_vec());
    assert_eq!(reads(&d)[before..].to_vec(), vec![512]);
}

#[test]
fn forward_reseek_to_boundary_reads_one_block() {
    let mut d = device(4096, 512);
    let mut a = vec![0u8; 100];
    d.read(&mut a).unwrap();
    let before = reads(&d).len();
    assert_eq!(d.seek(SeekFrom::Current(412 + 512)), Ok(1024));
    let mut b = vec![0u8; 10];
    assert_eq!(d.read(&mut b), Ok(10));
    assert_eq!(b, pattern(4096)[1024..1034].to_vec());
    assert_eq!(reads(&d)[before..].to_vec(), vec![512]);
}

#[test]
fn empty_read_does_nothing() {
    let mut d = device(4096, 512);
    let mut buf: Vec<u8> = Vec::new();
    assert_eq!(d.read(&mut buf), Ok(0));
    assert!(d.get_ref().accesses().is_empty());
}

#[test]
fn read_at_end_returns_zero() {
    let mut d = device(1000, 512);
    assert_eq!(d.seek(SeekFrom::Start(1000)), Ok(1000));
    let mut buf = vec![0u8; 10];
    assert_eq!(d.read(&mut buf), Ok(0));
    assert_eq!(d.seek(SeekFrom::Start(5000)), Ok(5000));
    assert_eq!(d.read(&mut buf), Ok(0));
    assert_eq!(d.seek(SeekFrom::Start(1020)), Ok(1020));
    assert_eq!(d.read(&mut buf), Ok(0));
    assert_eq!(d.seek(SeekFrom::Current(0)), Ok(1020));
}

#[test]
fn seek_to_end_returns_length() {
    let mut d = device(4096, 512);
    let mut a = vec![0u8; 10];
    d.seek(SeekFrom::Start(520)).unwrap();
    d.read(&mut a).unwrap();
    let before = d.get_ref().accesses().len();
    let raw = d.get_ref().position();
    assert_eq!(d.seek(SeekFrom::End(0)), Ok(4096));
    let after = d.get_ref().accesses()[before..].to_vec();
    assert_eq!(
        after[..3].to_vec(),
        vec![
            Access::Seek(SeekFrom::Current(0)),
            Access::Seek(SeekFrom::End(0)),
            Access::Seek(SeekFrom::Start(raw)),
        ]
    );
    assert_eq!(d.get_ref().position() % 512, 0);
    assert_eq!(d.seek(SeekFrom::Current(0)), Ok(4096));
}

#[test]
fn seek_before_start_is_invalid_input() {
    let mut d = device(4096, 512);
    assert_eq!(d.seek(SeekFrom::Current(-1)), Err(Error::InvalidInput));
    assert_eq!(d.seek(SeekFrom::End(-5000)), Err(Error::InvalidInput));
    assert_eq!(d.seek(SeekFrom::End(i64::MIN)), Err(Error::InvalidInput));
}

#[test]
fn stacked_block_sizes_must_divide() {
    let ok = Device::with_block_size(MemSource::new(pattern(8192), 512), 4096);
    assert!(ok.is_ok());
    let bad = Device::with_block_size(MemSource::new(pattern(8192), 512), 1000);
    assert_eq!(bad.err(), Some(Error::InvalidInput));
    let zero = Device::with_block_size(MemSource::new(pattern(8192), 512), 0);
    assert_eq!(zero.err(), Some(Error::InvalidInput));
}

#[test]
fn stacked_device_reads_whole_sectors() {
    let mut d: BlockDevice<MemSource> =
        BlockDevice::with_block_size(MemSource::new(pattern(16384), 512), 4096).unwrap();
    assert_eq!(d.get_block_size(), Ok(4096));
    d.seek(SeekFrom::Start(5000)).unwrap();
    let mut buf = vec![0u8; 100];
    d.read_exact(&mut buf).unwrap();
    assert_eq!(buf, pattern(16384)[5000..5100].to_vec());
    assert!(reads(&d).iter().all(|n| n % 4096 == 0 && n % 512 == 0));
    assert!(seek_offsets(&d).iter().all(|k| k % 512 == 0));
}

#[test]
fn new_takes_the_source_block_size() {
    let d = Device::new(MemSource::new(pattern(100), 256)).unwrap();
    assert_eq!(d.get_block_size(), Ok(256));
    assert_eq!(Device::new(MemSource::new(pattern(100), 0)).err(), Some(Error::InvalidInput));
    let src = d.into_inner();
    assert_eq!(src.get_block_size(), Ok(256));
}

#[test]
fn get_mut_reaches_the_source() {
    let mut d = device(4096, 512);
    assert_eq!(d.get_mut().seek(SeekFrom::Start(1024)), Ok(1024));
    assert_eq!(d.seek(SeekFrom::Current(0)), Ok(1024));
}

#[test]
fn fill_and_consume() {
    let mut d = device(4096, 512);
    d.fill_buf().unwrap();
    assert_eq!(d.buffer().to_vec(), pattern(4096)[..512].to_vec());
    d.consume(500);
    assert_eq!(d.buffer().to_vec(), pattern(4096)[500..512].to_vec());
    d.consume(100);
    assert_eq!(d.buffer().len(), 0);
}

#[test]
fn iadd_bounds() {
    assert_eq!(iadd(10, -3), Ok(7));
    assert_eq!(iadd(10, 5), Ok(15));
    assert_eq!(iadd(10, 0), Ok(10));
    assert_eq!(iadd(5, -6), Err(Error::InvalidInput));
    assert_eq!(iadd(u64::MAX, 1), Err(Error::InvalidInput));
    assert_eq!(iadd(u64::MAX, i64::MIN), Ok(u64::MAX - (1u64 << 63)));
    assert_eq!(iadd(0, i64::MIN), Err(Error::InvalidInput));
}

#[test]
fn memory_source_reads_and_seeks() {
    let mut m = MemSource::new(pattern(10), 1);
    let mut buf = vec![0u8; 4];
    assert_eq!(m.seek(SeekFrom::End(-3)), Ok(7));
    assert_eq!(m.read(&mut buf), Ok(3));
    assert_eq!(buf[..3].to_vec(), vec![7, 8, 9]);
    assert_eq!(m.read(&mut buf), Ok(0));
    assert_eq!(m.accesses().len(), 3);
}

#[test]
fn error_descriptions() {
    assert_eq!(Error::InvalidData.describe(), "invalid data");
    assert_eq!(Error::NotFound.describe(), "unsupported filesystem");
}

#[test]
fn stacked_devices_stay_aligned() {
    let data = pattern(65536);
    let inner = device(65536, 512);
    let mut outer = Device::with_block_size(inner, 4096).unwrap();
    let mut buf = vec![0u8; 700];
    outer.seek(SeekFrom::Start(5000)).unwrap();
    outer.read_exact(&mut buf).unwrap();
    assert_eq!(buf, data[5000..5700].to_vec());
    outer.seek(SeekFrom::Current(-3000)).unwrap();
    outer.read_exact(&mut buf).unwrap();
    assert_eq!(buf, data[2700..3400].to_vec());
    outer.seek(SeekFrom::End(-100)).unwrap();
    let mut big = vec![0u8; 100];
    outer.read_exact(&mut big).unwrap();
    assert_eq!(big, data[65436..].to_vec());
    let mut huge = vec![0u8; 9000];
    outer.seek(SeekFrom::Start(8192)).unwrap();
    assert_eq!(outer.read(&mut huge), Ok(8192));
    assert_eq!(huge[..8192].to_vec(), data[8192..16384].to_vec());
    let bottom = outer.get_ref().get_ref();
    for a in bottom.accesses() {
        match a {
            Access::Read(n) => assert_eq!(n % 512, 0),
            Access::Seek(SeekFrom::Start(k)) => assert_eq!(k % 512, 0),
            Access::Seek(SeekFrom::End(k)) => assert_eq!(k % 512, 0),
            Access::Seek(SeekFrom::Current(k)) => assert_eq!(k % 512, 0),
        }
    }
}

#[test]
fn stacked_block_size_must_be_multiple() {
    let r = Device::with_block_size(device(4096, 512), 1000);
    assert_eq!(r.err(), Some(Error::InvalidInput));
    let r = Device::with_block_size(device(4096, 512), 1024);
    assert_eq!(r.map(|d| d.get_block_size()).ok(), Some(Ok(1024)));
}

#[test]
fn device_as_source_reads_whole() {
    let mut d = device(2000, 512);
    let mut buf = vec![0u8; 700];
    assert_eq!(Stream::read(&mut d, &mut buf), Ok(700));
    assert_eq!(buf, pattern(2000)[..700].to_vec());
    assert_eq!(Stream::seek(&mut d, SeekFrom::Start(1800)), Ok(1800));
    assert_eq!(Stream::read(&mut d, &mut buf), Ok(200));
    assert_eq!(buf[..200].to_vec(), pattern(2000)[1800..].to_vec());
}
