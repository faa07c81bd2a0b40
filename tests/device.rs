use rust_chrdev::device::{Registration, RustChrdev, MINOR_COUNT};
use rust_chrdev::error::Error;
use rust_chrdev::file::RustFile;
use rust_chrdev::shared::SharedBuffer;
use rust_chrdev::storage::{clamp_transfer, Storage, BUFFER_SIZE};

fn read_at(f: &RustFile, offset: u64, len: usize) -> Vec<u8> {
    let mut dest = vec![0u8; len];
    let n = f.read(&mut dest, offset).unwrap();
    dest.truncate(n);
    dest
}

#[test]
fn clamp_transfer_values() {
    assert_eq!(clamp_transfer(0, 10), Some(10));
    assert_eq!(clamp_transfer(0, 5000), Some(4096));
    assert_eq!(clamp_transfer(4090, 10), Some(6));
    assert_eq!(clamp_transfer(4095, 0), Some(0));
    assert_eq!(clamp_transfer(4096, 1), None);
    assert_eq!(clamp_transfer(u64::MAX, 1), None);
}

#[test]
fn write_count_is_clamped_to_remaining_space() {
    let shared = SharedBuffer::new();
    let f = RustFile::open(&shared).unwrap();
    let data = vec![7u8; 100];
    assert_eq!(f.write(&data, 0), Ok(100));
    assert_eq!(f.write(&data, 4000), Ok(96));
    assert_eq!(f.write(&data, 3996), Ok(100));
    assert_eq!(f.write(&data, 4095), Ok(1));
    let big = vec![1u8; 5000];
    assert_eq!(f.write(&big, 0), Ok(BUFFER_SIZE));
}

#[test]
fn zero_length_write_returns_zero() {
    let shared = SharedBuffer::new();
    let f = RustFile::open(&shared).unwrap();
    assert_eq!(f.write(&[], 17), Ok(0));
    assert_eq!(read_at(&f, 17, 1), vec![0u8]);
}

#[test]
fn write_past_end_is_invalid_and_changes_nothing() {
    let shared = SharedBuffer::new();
    let f = RustFile::open(&shared).unwrap();
    assert_eq!(f.write(&[1, 2, 3], 4093), Ok(3));
    assert_eq!(f.write(&[9, 9, 9], 4096), Err(Error::InvalidArgument));
    assert_eq!(f.write(&[9], u64::MAX), Err(Error::InvalidArgument));
    assert_eq!(read_at(&f, 4093, 3), vec![1, 2, 3]);

    let mut s = Storage::new();
    assert_eq!(s.write_at(&[5, 5], 10_000), Err(Error::InvalidArgument));
    let mut dest = vec![1u8; 8];
    assert_eq!(s.read_into(&mut dest, 0), 8);
    assert_eq!(dest, vec![0u8; 8]);
}

#[test]
fn read_past_end_returns_zero_bytes() {
    let shared = SharedBuffer::new();
    let f = RustFile::open(&shared).unwrap();
    let mut dest = vec![3u8; 4];
    assert_eq!(f.read(&mut dest, 4096), Ok(0));
    assert_eq!(f.read(&mut dest, u64::MAX), Ok(0));
    assert_eq!(dest, vec![3u8; 4]);
}

#[test]
fn read_leaves_tail_of_destination() {
    let shared = SharedBuffer::new();
    let f = RustFile::open(&shared).unwrap();
    assert_eq!(f.write(&[1, 2], 4094), Ok(2));
    let mut dest = vec![9u8; 5];
    assert_eq!(f.read(&mut dest, 4094), Ok(2));
    assert_eq!(dest, vec![1, 2, 9, 9, 9]);
}

#[test]
fn write_then_read_round_trip() {
    let shared = SharedBuffer::new();
    let f = RustFile::open(&shared).unwrap();
    let s: Vec<u8> = (0..BUFFER_SIZE).map(|i| (i % 251) as u8).collect();
    assert_eq!(f.write(&s, 0), Ok(BUFFER_SIZE));
    assert_eq!(read_at(&f, 0, BUFFER_SIZE), s);
    let short = vec![42u8, 43, 44];
    assert_eq!(f.write(&short, 0), Ok(3));
    assert_eq!(read_at(&f, 0, 3), short);
}

#[test]
fn repeated_read_is_identical() {
    let shared = SharedBuffer::new();
    let f = RustFile::open(&shared).unwrap();
    assert_eq!(f.write(&[10, 20, 30, 40], 100), Ok(4));
    let first = read_at(&f, 98, 8);
    let second = read_at(&f, 98, 8);
    assert_eq!(first, vec![0, 0, 10, 20, 30, 40, 0, 0]);
    assert_eq!(first, second);
}

#[test]
fn disjoint_writers_keep_their_bytes() {
    let shared = SharedBuffer::new();
    let a = RustFile::open(&shared).unwrap();
    let b = RustFile::open(&shared).unwrap();
    let c = RustFile::open(&shared).unwrap();
    assert_eq!(c.write(&[3; 10], 20), Ok(10));
    assert_eq!(a.write(&[1; 10], 0), Ok(10));
    assert_eq!(b.write(&[2; 10], 10), Ok(10));
    assert_eq!(read_at(&a, 0, 10), vec![1u8; 10]);
    assert_eq!(read_at(&b, 10, 10), vec![2u8; 10]);
    assert_eq!(read_at(&c, 20, 10), vec![3u8; 10]);
}

#[test]
fn write_near_end_scenario() {
    let shared = SharedBuffer::new();
    let f = RustFile::open(&shared).unwrap();
    let data: Vec<u8> = (1..=10).collect();
    assert_eq!(f.write(&data, 4090), Ok(6));
    assert_eq!(f.write(&[1], 4096), Err(Error::InvalidArgument));
    let mut dest = vec![0u8; 10];
    assert_eq!(f.read(&mut dest, 4090), Ok(6));
    assert_eq!(&dest[..6], &[1, 2, 3, 4, 5, 6]);
}

#[test]
fn two_minors_share_one_buffer() {
    let module = RustChrdev::init("rust_chrdev").unwrap();
    assert_eq!(module.minor_count(), MINOR_COUNT);
    let first = module.open(0).unwrap();
    let second = module.open(1).unwrap();
    let a = vec![0xaau8; 16];
    let b = vec![0xbbu8; 16];
    assert_eq!(first.write(&a, 0), Ok(16));
    assert_eq!(second.write(&b, 0), Ok(16));
    let seen_first = read_at(&first, 0, 16);
    let seen_second = read_at(&second, 0, 16);
    assert_eq!(seen_first, seen_second);
    assert!(seen_first == a || seen_first == b);
    assert_eq!(seen_first, b);
}

#[test]
fn open_of_unbound_minor_fails() {
    let module = RustChrdev::init("rust_chrdev").unwrap();
    assert!(module.open(1).is_ok());
    assert_eq!(module.open(2).err(), Some(Error::RegistrationFailure));
}

#[test]
fn registration_binds_at_most_n_minors() {
    let mut reg: Registration<2> = Registration::new("chr", 5);
    assert_eq!(reg.register(), Ok(5));
    assert!(reg.is_bound(5));
    assert!(!reg.is_bound(6));
    assert_eq!(reg.register(), Ok(6));
    assert_eq!(reg.register(), Err(Error::RegistrationFailure));
    assert_eq!(reg.minor_count(), 2);
    assert!(!reg.is_bound(4));
    assert!(!reg.is_bound(7));
    reg.unregister();
    assert_eq!(reg.minor_count(), 0);
    assert!(!reg.is_bound(5));
    assert_eq!(reg.register(), Err(Error::RegistrationFailure));
}

#[test]
fn unload_releases_every_minor() {
    let module = RustChrdev::init("rust_chrdev").unwrap();
    let reg = module.unload();
    assert_eq!(reg.minor_count(), 0);
    assert!(!reg.is_bound(0));
    assert!(!reg.is_bound(1));
}
