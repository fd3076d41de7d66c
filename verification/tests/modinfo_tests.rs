use mdb_api::modinfo::{to_null_or_native, Modinfo};
use mdb_api::sys::MDB_API_VERSION;

#[test]
fn null_terminated_lists() {
    assert_eq!(to_null_or_native(&vec![1u32, 2, 3], 0), vec![1, 2, 3, 0]);
    assert_eq!(to_null_or_native(&Vec::<u32>::new(), 0), vec![0]);
}

#[test]
fn module_tables() {
    let m: Modinfo<u32, u8> = Modinfo::new().with_dcmd(7).with_walker(1).with_dcmd(8);
    let t = m.to_native(0, 0);
    assert_eq!(t.version, MDB_API_VERSION);
    assert_eq!(t.version, 5);
    assert_eq!(t.dcmds, vec![7, 8, 0]);
    assert_eq!(t.walkers, vec![1, 0]);
    let empty: Modinfo<u32, u8> = Modinfo::default();
    let t = empty.to_native(0, 0);
    assert_eq!(t.dcmds, vec![0]);
    assert_eq!(t.walkers, vec![0]);
}
