use mdb_api::allocator::is_misaligned;
use mdb_api::api::{finish_readstr, finish_vread, finish_vwrite};
use mdb_api::Addr;

#[test]
fn addr_round_trip() {
    assert_eq!(Addr::new(0xfeed).as_ptr(), 0xfeed);
    assert_eq!(Addr::new(0).as_ptr(), 0);
    assert_eq!(Addr::new(u64::MAX).as_ptr(), u64::MAX);
    assert_eq!(Addr::from(0x1234u64).as_ptr(), 0x1234);
}

#[test]
fn vread_results() {
    assert_eq!(finish_vread(vec![1, 2, 3], 3), Some(vec![1, 2, 3]));
    assert_eq!(finish_vread(vec![1, 2, 3], -1), None);
    assert_eq!(finish_vread(vec![], 0), Some(vec![]));
}

#[test]
fn vwrite_results() {
    assert_eq!(finish_vwrite(-1), None);
    assert_eq!(finish_vwrite(-2), None);
    assert_eq!(finish_vwrite(0), Some(0));
    assert_eq!(finish_vwrite(16), Some(16));
}

#[test]
fn readstr_results() {
    assert_eq!(finish_readstr(b"hello\0\0\0".to_vec(), 5), Some(String::from("hello")));
    assert_eq!(finish_readstr(b"hi".to_vec(), 10), Some(String::from("hi")));
    assert_eq!(finish_readstr(b"hello".to_vec(), 0), Some(String::new()));
    assert_eq!(finish_readstr(b"hello".to_vec(), -1), None);
    assert_eq!(finish_readstr(b"hello".to_vec(), -7), None);
    assert_eq!(finish_readstr(vec![0xff, 0x41], 2), None);
    assert_eq!(finish_readstr(vec![0x41, 0xff], 1), Some(String::from("A")));
    assert_eq!(finish_readstr("é".as_bytes().to_vec(), 1), None);
}

#[test]
fn misalignment() {
    assert!(!is_misaligned(0x1000, 8));
    assert!(is_misaligned(0x1004, 8));
    assert!(!is_misaligned(0x1004, 4));
    assert!(!is_misaligned(7, 1));
    assert!(is_misaligned(0x30, 32));
}
