use std::ops::ControlFlow;

use mdb_api::dcmd::{Arg, Code, Dcmd, DcmdFn, Flags};
use mdb_api::demo::{args_from_raw, demo_dispatch, Demo, RawArg, TokioTaskWalker};
use mdb_api::sys::{mdb_type_t, DCMD_OK};
use mdb_api::walk::WalkStep;
use mdb_api::Addr;

fn s(text: &str) -> Arg {
    Arg::String(String::from(text))
}

fn err(args: Vec<Arg>) -> String {
    match Demo::from_args(args) {
        Ok(d) => panic!("expected an error, got {d:?}"),
        Err(e) => e,
    }
}

#[test]
fn demo_minimal() {
    let d = Demo::from_args(vec![s("-f"), s("hello"), Arg::U64(7)]).unwrap();
    assert_eq!(d.foo, "hello");
    assert!(!d.verbose);
    assert_eq!(d.maybe_u64, None);
    assert_eq!(d.defaultable, 10);
    assert_eq!(d.positional, 7);
}

#[test]
fn demo_all_options() {
    let d = Demo::from_args(vec![
        s("--foo"),
        s("x"),
        s("-v"),
        s("3"),
        s("-m"),
        Arg::U64(9),
        s("--defaultable"),
        s("20"),
    ])
    .unwrap();
    assert_eq!(d.foo, "x");
    assert!(d.verbose);
    assert_eq!(d.maybe_u64, Some(9));
    assert_eq!(d.defaultable, 20);
    assert_eq!(d.positional, 3);
}

#[test]
fn demo_long_and_short_forms() {
    let d = Demo::from_args(vec![
        s("--verbose"),
        s("--maybe-u64"),
        s("+4"),
        s("-d"),
        Arg::U64(1),
        s("-f"),
        s("y"),
        Arg::U64(0),
    ])
    .unwrap();
    assert!(d.verbose);
    assert_eq!(d.maybe_u64, Some(4));
    assert_eq!(d.defaultable, 1);
    assert_eq!(d.foo, "y");
}

#[test]
fn demo_repeated_flags() {
    let d = Demo::from_args(vec![
        s("-v"),
        s("-v"),
        s("-d"),
        s("1"),
        s("-d"),
        s("2"),
        s("-f"),
        s("z"),
        s("5"),
    ])
    .unwrap();
    assert!(d.verbose);
    assert_eq!(d.defaultable, 2);
    assert_eq!(
        err(vec![s("-f"), s("a"), s("-f"), s("b"), Arg::U64(1)]),
        "argument 'foo' is specified multiple times"
    );
    assert_eq!(
        err(vec![s("-m"), s("1"), s("--maybe-u64"), s("2"), s("-f"), s("a"), Arg::U64(1)]),
        "argument 'maybe-u64' is specified multiple times"
    );
}

#[test]
fn demo_double_dash_makes_rest_positional() {
    let d = Demo::from_args(vec![s("-f"), s("x"), s("--"), s("9")]).unwrap();
    assert_eq!(d.positional, 9);
    assert!(!d.verbose);
    assert_eq!(
        err(vec![s("-f"), s("x"), s("--"), s("-v")]),
        "unexpected type for positional argument 'positional'"
    );
    assert_eq!(
        err(vec![s("--"), s("-f"), s("x")]),
        "unexpected type for positional argument 'positional'"
    );
    assert_eq!(err(vec![s("--"), s("1")]), "missing value for argument 'foo'");
    assert_eq!(
        err(vec![s("3"), s("-f"), s("x"), s("--"), s("4")]),
        "too many positional arguments"
    );
}

#[test]
fn demo_flag_errors() {
    assert_eq!(
        err(vec![s("-ab")]),
        "flag '-ab' is invalid, all short-form arguments must be specified alone"
    );
    assert_eq!(
        err(vec![s("-")]),
        "flag '-' is invalid, all short-form arguments must be specified alone"
    );
    assert_eq!(
        err(vec![s("-é")]),
        "flag '-é' is invalid, all short-form arguments must be specified alone"
    );
    assert_eq!(err(vec![s("--bogus")]), "unrecognized flag '--bogus'");
    assert_eq!(err(vec![s("-x")]), "unrecognized flag '-x'");
    assert_eq!(err(vec![s("---foo")]), "unrecognized flag '---foo'");
}

#[test]
fn demo_value_errors() {
    assert_eq!(err(vec![s("-f")]), "argument 'foo' requires a value");
    assert_eq!(err(vec![s("-m")]), "argument 'maybe-u64' requires a value");
    assert_eq!(err(vec![s("--defaultable")]), "argument 'defaultable' requires a value");
    assert_eq!(
        err(vec![s("-f"), Arg::U64(5)]),
        "could not convert value '5' for argument 'foo'"
    );
    assert_eq!(
        err(vec![s("-m"), s("x")]),
        "could not convert value 'x' for argument 'maybe-u64'"
    );
    assert_eq!(
        err(vec![s("-d"), s("-1")]),
        "could not convert value '-1' for argument 'defaultable'"
    );
}

#[test]
fn demo_option_value_may_look_like_a_flag() {
    let d = Demo::from_args(vec![s("-f"), s("-v"), Arg::U64(1)]).unwrap();
    assert_eq!(d.foo, "-v");
    assert!(!d.verbose);
}

#[test]
fn demo_positional_errors() {
    assert_eq!(err(vec![s("-f"), s("x")]), "missing positional argument 'positional'");
    assert_eq!(err(vec![]), "missing positional argument 'positional'");
    assert_eq!(
        err(vec![s("-f"), s("x"), s("abc")]),
        "unexpected type for positional argument 'positional'"
    );
    assert_eq!(
        err(vec![s("-f"), s("x"), Arg::U64(1), Arg::U64(2)]),
        "too many positional arguments"
    );
    assert_eq!(err(vec![Arg::U64(1)]), "missing value for argument 'foo'");
}

#[test]
fn demo_call_succeeds() {
    let d = Demo::from_args(vec![s("-f"), s("x"), Arg::U64(1)]).unwrap();
    assert!(matches!(d.call(Addr::new(0x1000), Flags::empty()), Code::Success));
}

#[test]
fn demo_dispatch_outcomes() {
    let run = demo_dispatch(0x10, 0xff, vec![s("-f"), s("x"), Arg::U64(1)]).unwrap();
    assert_eq!(run.code, DCMD_OK);
    assert_eq!(run.addr.as_ptr(), 0x10);
    assert_eq!(run.flags.bits(), 0x1f);
    assert_eq!(run.demo.foo, "x");
    assert_eq!(run.demo.positional, 1);
    let run = demo_dispatch(0, 0x21, vec![s("-f"), s("x"), Arg::U64(1)]).unwrap();
    assert_eq!(run.flags.bits(), 0x01);
    assert_eq!(
        demo_dispatch(0x10, 0x1, vec![Arg::U64(1)]).unwrap_err(),
        String::from("Failed to construct type `Demo` from mdb args: missing value for argument 'foo'")
    );
}

fn raw(a_type: mdb_type_t, text: &[u8], value: u64, ch: i32) -> RawArg {
    RawArg { a_type, text: text.to_vec(), value, ch }
}

#[test]
fn raw_arguments_convert() {
    let raws = vec![
        raw(mdb_type_t::MDB_TYPE_STRING, "héllo".as_bytes(), 0, 0),
        raw(mdb_type_t::MDB_TYPE_IMMEDIATE, b"", 0xdead, 0),
        raw(mdb_type_t::MDB_TYPE_CHAR, b"", 0, 65),
        raw(mdb_type_t::MDB_TYPE_CHAR, b"", 0, -1),
        raw(mdb_type_t::MDB_TYPE_CHAR, b"", 0, 255),
    ];
    let args = args_from_raw(&raws).unwrap();
    assert_eq!(args.len(), 5);
    assert!(matches!(&args[0], Arg::String(t) if t == "héllo"));
    assert!(matches!(args[1], Arg::U64(0xdead)));
    assert!(matches!(args[2], Arg::U64(65)));
    assert!(matches!(args[3], Arg::U64(u64::MAX)));
    assert!(matches!(args[4], Arg::U64(255)));
    assert_eq!(-1i8 as u64, u64::MAX);
    assert_eq!(255u8 as u64, 255);
}

#[test]
fn raw_arguments_reject_invalid_utf8() {
    let raws = vec![
        raw(mdb_type_t::MDB_TYPE_IMMEDIATE, b"", 1, 0),
        raw(mdb_type_t::MDB_TYPE_STRING, &[0xff, 0xfe], 0, 0),
    ];
    assert!(args_from_raw(&raws).is_none());
    assert!(args_from_raw(&vec![]).unwrap().is_empty());
}

#[test]
fn task_walker_walks_six_to_twelve() {
    let mut w = TokioTaskWalker::default();
    let mut seen = Vec::new();
    loop {
        match w.step() {
            Ok(ControlFlow::Continue(a)) => seen.push(a.as_ptr()),
            Ok(ControlFlow::Break(())) => break,
            Err(()) => panic!("step failed"),
        }
        assert!(seen.len() <= 7);
    }
    assert_eq!(seen, vec![6, 7, 8, 9, 10, 11, 12]);
    assert!(matches!(w.step(), Ok(ControlFlow::Break(()))));
    assert!(matches!(w.step(), Ok(ControlFlow::Break(()))));
}
