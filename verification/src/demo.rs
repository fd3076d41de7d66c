//! The demonstration dmod: the `demo` dcmd, which shows how a command reads
//! flags, options with values, and positional arguments, and a walker over
//! a fixed range of task addresses.

use vstd::prelude::*;
use vstd::string::*;
use vstd::utf8::{decode_utf8, encode_scalar, encode_utf8, valid_utf8};

use std::ops::ControlFlow;

use crate::dcmd::{arg_in_range, arg_text, Arg, Code, Dcmd, DcmdFn, Flags};
use vstd::std_specs::convert::TryFromSpec;
use crate::sys::mdb_type_t;
use crate::text::{starts_with_char, str_equal, string_from_utf8};
use crate::walk::{StepResult, WalkStep, Walker};
use crate::Addr;

verus! {

/// The `demo` dcmd, built from its arguments:
/// `-f | --foo FOO` (required), `-v | --verbose`, `-m | --maybe-u64 N`,
/// `-d | --defaultable N` (default 10) and one positional number.
#[derive(Debug)]
pub struct Demo {
    pub foo: String,
    pub verbose: bool,
    pub maybe_u64: Option<u64>,
    pub defaultable: u64,
    pub positional: u64,
}

/// The abstract value of a `Demo`.
pub struct DemoModel {
    pub foo: Seq<char>,
    pub verbose: bool,
    pub maybe_u64: Option<u64>,
    pub defaultable: u64,
    pub positional: u64,
}

impl View for Demo {
    type V = DemoModel;

    open spec fn view(&self) -> DemoModel {
        DemoModel {
            foo: self.foo@,
            verbose: self.verbose,
            maybe_u64: self.maybe_u64,
            defaultable: self.defaultable,
            positional: self.positional,
        }
    }
}

/// What has been read of the arguments so far.
#[verifier::ext_equal]
pub struct ScanState {
    pub foo: Option<Seq<char>>,
    pub verbose: bool,
    pub maybe_u64: Option<u64>,
    pub defaultable: u64,
    pub positionals: Seq<Arg>,
}

/// Nothing read yet: no `foo`, not verbose, no `maybe-u64`, `defaultable`
/// at its default of 10, no positionals.
pub open spec fn initial_scan() -> ScanState {
    ScanState {
        foo: None,
        verbose: false,
        maybe_u64: None,
        defaultable: 10,
        positionals: Seq::empty(),
    }
}

/// A string argument that starts with `-` names a flag (or is `--`).
pub open spec fn is_flag(s: Seq<char>) -> bool {
    s.len() > 0 && s[0] == '-'
}

/// The option a flag `s` (not `--`) names: the text after `--` for the long
/// form; for the short form the text after `-`, which must be a single byte.
pub open spec fn flag_name(s: Seq<char>) -> Result<Seq<char>, Seq<char>> {
    if s.len() >= 2 && s[1] == '-' {
        Ok(s.subrange(2, s.len() as int))
    } else if encode_utf8(s.subrange(1, s.len() as int)).len() == 1 {
        Ok(s.subrange(1, s.len() as int))
    } else {
        Err(
            "flag '"@ + s
                + "' is invalid, all short-form arguments must be specified alone"@,
        )
    }
}

/// The message for an option value that has the wrong type.
pub open spec fn conversion_error(value: Arg, option: Seq<char>) -> Seq<char> {
    "could not convert value '"@ + arg_text(value) + "' for argument '"@ + option + "'"@
}

/// `st` with one more positional argument.
pub open spec fn with_positional(st: ScanState, a: Arg) -> ScanState {
    ScanState { positionals: st.positionals.push(a), ..st }
}

/// Reads `args` in order on top of `st`: flags and their values update the
/// state, other arguments are collected as positionals, and `--` makes all
/// that follow it positionals.  `Err` holds the message for the first
/// argument that cannot be read.
pub open spec fn scan(args: Seq<Arg>, st: ScanState) -> Result<ScanState, Seq<char>>
    decreases args.len(),
{
    if args.len() == 0 {
        Ok(st)
    } else {
        let arg = args[0];
        let rest = args.drop_first();
        match arg {
            Arg::U64(_) => scan(rest, with_positional(st, arg)),
            Arg::String(s) => if !is_flag(s@) {
                scan(rest, with_positional(st, arg))
            } else if s@ == "--"@ {
                Ok(ScanState { positionals: st.positionals + rest, ..st })
            } else {
                match flag_name(s@) {
                    Err(e) => Err(e),
                    Ok(opt) => if opt == "foo"@ || opt == "f"@ {
                        if rest.len() == 0 {
                            Err("argument 'foo' requires a value"@)
                        } else {
                            match rest[0] {
                                Arg::String(v) => if st.foo is Some {
                                    Err("argument 'foo' is specified multiple times"@)
                                } else {
                                    scan(rest.drop_first(), ScanState { foo: Some(v@), ..st })
                                },
                                Arg::U64(_) => Err(conversion_error(rest[0], "foo"@)),
                            }
                        }
                    } else if opt == "verbose"@ || opt == "v"@ {
                        scan(rest, ScanState { verbose: true, ..st })
                    } else if opt == "maybe-u64"@ || opt == "m"@ {
                        if rest.len() == 0 {
                            Err("argument 'maybe-u64' requires a value"@)
                        } else {
                            match arg_in_range(rest[0], false, 0, u64::MAX as int) {
                                None => Err(conversion_error(rest[0], "maybe-u64"@)),
                                Some(v) => if st.maybe_u64 is Some {
                                    Err("argument 'maybe-u64' is specified multiple times"@)
                                } else {
                                    scan(
                                        rest.drop_first(),
                                        ScanState { maybe_u64: Some(v as u64), ..st },
                                    )
                                },
                            }
                        }
                    } else if opt == "defaultable"@ || opt == "d"@ {
                        if rest.len() == 0 {
                            Err("argument 'defaultable' requires a value"@)
                        } else {
                            match arg_in_range(rest[0], false, 0, u64::MAX as int) {
                                None => Err(conversion_error(rest[0], "defaultable"@)),
                                Some(v) => scan(
                                    rest.drop_first(),
                                    ScanState { defaultable: v as u64, ..st },
                                ),
                            }
                        }
                    } else {
                        Err("unrecognized flag '"@ + s@ + "'"@)
                    },
                }
            },
        }
    }
}

/// The `demo` command that `args` describe, or the message saying why they
/// describe none.  After the scan, exactly one positional must be present
/// and read as a `u64`, and `foo` must have been given.
pub open spec fn demo_from_args(args: Seq<Arg>) -> Result<DemoModel, Seq<char>> {
    match scan(args, initial_scan()) {
        Err(e) => Err(e),
        Ok(st) => if st.positionals.len() == 0 {
            Err("missing positional argument 'positional'"@)
        } else {
            match arg_in_range(st.positionals[0], false, 0, u64::MAX as int) {
                None => Err("unexpected type for positional argument 'positional'"@),
                Some(p) => if st.positionals.len() > 1 {
                    Err("too many positional arguments"@)
                } else {
                    match st.foo {
                        None => Err("missing value for argument 'foo'"@),
                        Some(f) => Ok(
                            DemoModel {
                                foo: f,
                                verbose: st.verbose,
                                maybe_u64: st.maybe_u64,
                                defaultable: st.defaultable,
                                positional: p as u64,
                            },
                        ),
                    }
                },
            }
        },
    }
}

/// `a` is a flag (not `--`) whose name is `long` or `short`.
pub open spec fn names_option(a: Arg, long: Seq<char>, short: Seq<char>) -> bool {
    match a {
        Arg::String(s) => is_flag(s@) && s@ != "--"@ && (flag_name(s@) == Ok::<
            Seq<char>,
            Seq<char>,
        >(long) || flag_name(s@) == Ok::<Seq<char>, Seq<char>>(short)),
        Arg::U64(_) => false,
    }
}

/// No argument of `args` is a flag naming the option `long`/`short`.
pub open spec fn never_flagged(args: Seq<Arg>, long: Seq<char>, short: Seq<char>) -> bool {
    forall|i: int| 0 <= i < args.len() ==> !#[trigger] names_option(args[i], long, short)
}

/// What holds of `args` holds of its suffixes.
proof fn lemma_never_flagged_skip(args: Seq<Arg>, k: int, long: Seq<char>, short: Seq<char>)
    requires
        0 <= k <= args.len(),
        never_flagged(args, long, short),
    ensures
        never_flagged(args.skip(k), long, short),
{
    assert forall|i: int| 0 <= i < args.skip(k).len() implies !#[trigger] names_option(
        args.skip(k)[i],
        long,
        short,
    ) by {
        assert(args.skip(k)[i] == args[i + k]);
    }
}

/// Reading arguments changes an option only through a flag that names it.
proof fn lemma_scan_keeps(args: Seq<Arg>, st: ScanState)
    ensures
        scan(args, st) matches Ok(end) ==> {
            &&& (never_flagged(args, "foo"@, "f"@) ==> end.foo == st.foo)
            &&& (never_flagged(args, "verbose"@, "v"@) ==> end.verbose == st.verbose)
            &&& (never_flagged(args, "maybe-u64"@, "m"@) ==> end.maybe_u64 == st.maybe_u64)
            &&& (never_flagged(args, "defaultable"@, "d"@) ==> end.defaultable == st.defaultable)
        },
    decreases args.len(),
{
    if args.len() > 0 {
        let arg = args[0];
        let rest = args.drop_first();
        assert(rest =~= args.skip(1));
        if never_flagged(args, "foo"@, "f"@) {
            lemma_never_flagged_skip(args, 1, "foo"@, "f"@);
        }
        if never_flagged(args, "verbose"@, "v"@) {
            lemma_never_flagged_skip(args, 1, "verbose"@, "v"@);
        }
        if never_flagged(args, "maybe-u64"@, "m"@) {
            lemma_never_flagged_skip(args, 1, "maybe-u64"@, "m"@);
        }
        if never_flagged(args, "defaultable"@, "d"@) {
            lemma_never_flagged_skip(args, 1, "defaultable"@, "d"@);
        }
        if rest.len() > 0 {
            assert(rest.drop_first() =~= args.skip(2));
            if never_flagged(args, "foo"@, "f"@) {
                lemma_never_flagged_skip(args, 2, "foo"@, "f"@);
            }
            if never_flagged(args, "verbose"@, "v"@) {
                lemma_never_flagged_skip(args, 2, "verbose"@, "v"@);
            }
            if never_flagged(args, "maybe-u64"@, "m"@) {
                lemma_never_flagged_skip(args, 2, "maybe-u64"@, "m"@);
            }
            if never_flagged(args, "defaultable"@, "d"@) {
                lemma_never_flagged_skip(args, 2, "defaultable"@, "d"@);
            }
        }
        assert(!never_flagged(args, "foo"@, "f"@) || !names_option(args[0], "foo"@, "f"@));
        assert(!never_flagged(args, "verbose"@, "v"@) || !names_option(args[0], "verbose"@, "v"@));
        assert(!never_flagged(args, "maybe-u64"@, "m"@) || !names_option(
            args[0],
            "maybe-u64"@,
            "m"@,
        ));
        assert(!never_flagged(args, "defaultable"@, "d"@) || !names_option(
            args[0],
            "defaultable"@,
            "d"@,
        ));
        match arg {
            Arg::U64(_) => {
                lemma_scan_keeps(rest, with_positional(st, arg));
            },
            Arg::String(s) => {
                if !is_flag(s@) {
                    lemma_scan_keeps(rest, with_positional(st, arg));
                } else if s@ == "--"@ {
                } else {
                    match flag_name(s@) {
                        Err(_) => {},
                        Ok(opt) => {
                            if opt == "foo"@ || opt == "f"@ {
                                if rest.len() > 0 {
                                    if let Arg::String(v) = rest[0] {
                                        lemma_scan_keeps(
                                            rest.drop_first(),
                                            ScanState { foo: Some(v@), ..st },
                                        );
                                    }
                                }
                            } else if opt == "verbose"@ || opt == "v"@ {
                                lemma_scan_keeps(rest, ScanState { verbose: true, ..st });
                            } else if opt == "maybe-u64"@ || opt == "m"@ {
                                if rest.len() > 0 {
                                    if let Some(v) = arg_in_range(
                                        rest[0],
                                        false,
                                        0,
                                        u64::MAX as int,
                                    ) {
                                        lemma_scan_keeps(
                                            rest.drop_first(),
                                            ScanState { maybe_u64: Some(v as u64), ..st },
                                        );
                                    }
                                }
                            } else if opt == "defaultable"@ || opt == "d"@ {
                                if rest.len() > 0 {
                                    if let Some(v) = arg_in_range(
                                        rest[0],
                                        false,
                                        0,
                                        u64::MAX as int,
                                    ) {
                                        lemma_scan_keeps(
                                            rest.drop_first(),
                                            ScanState { defaultable: v as u64, ..st },
                                        );
                                    }
                                }
                            }
                        },
                    }
                }
            },
        }
    }
}

/// Law: the literal `--` ends the options: every argument after it is
/// taken as a positional, whatever it looks like.
pub proof fn law_double_dash_ends_options(dash: String, rest: Seq<Arg>, st: ScanState)
    requires
        dash@ == "--"@,
    ensures
        scan(seq![Arg::String(dash)] + rest, st) == Ok::<ScanState, Seq<char>>(
            ScanState { positionals: st.positionals + rest, ..st },
        ),
{
    let args = seq![Arg::String(dash)] + rest;
    assert(args[0] == Arg::String(dash));
    assert(args.drop_first() =~= rest);
    reveal_strlit("--");
}

/// `a` is taken as a positional wherever it stands among the options: an
/// immediate, or a string that does not start with `-`.
pub open spec fn plain_positional(a: Arg) -> bool {
    match a {
        Arg::U64(_) => true,
        Arg::String(s) => !(s@.len() > 0 && s@[0] == '-'),
    }
}

/// Arguments taken as positionals ahead of the rest are collected, in order,
/// and change nothing else.
proof fn lemma_scan_positional_prefix(pre: Seq<Arg>, tail: Seq<Arg>, st: ScanState)
    requires
        forall|i: int| 0 <= i < pre.len() ==> #[trigger] plain_positional(pre[i]),
    ensures
        scan(pre + tail, st) == scan(tail, ScanState { positionals: st.positionals + pre, ..st }),
    decreases pre.len(),
{
    if pre.len() == 0 {
        assert(pre + tail =~= tail);
        assert(ScanState { positionals: st.positionals + pre, ..st } =~= st);
    } else {
        let args = pre + tail;
        assert(args[0] == pre[0]);
        assert(plain_positional(pre[0]));
        assert(args.drop_first() =~= pre.drop_first() + tail);
        let st1 = with_positional(st, pre[0]);
        assert forall|i: int| 0 <= i < pre.drop_first().len() implies #[trigger] plain_positional(
            pre.drop_first()[i],
        ) by {
            assert(pre.drop_first()[i] == pre[i + 1]);
        }
        lemma_scan_positional_prefix(pre.drop_first(), tail, st1);
        assert(ScanState { positionals: st1.positionals + pre.drop_first(), ..st1 } =~= ScanState {
            positionals: st.positionals + pre,
            ..st
        });
    }
}

/// Once given, `foo` and `maybe-u64` keep their values and `verbose` stays
/// on through the rest of a successful scan.
proof fn lemma_scan_sticky(args: Seq<Arg>, st: ScanState)
    ensures
        scan(args, st) matches Ok(end) ==> {
            &&& (st.foo is Some ==> end.foo == st.foo)
            &&& (st.verbose ==> end.verbose)
            &&& (st.maybe_u64 is Some ==> end.maybe_u64 == st.maybe_u64)
        },
    decreases args.len(),
{
    if args.len() > 0 {
        let arg = args[0];
        let rest = args.drop_first();
        match arg {
            Arg::U64(_) => {
                lemma_scan_sticky(rest, with_positional(st, arg));
            },
            Arg::String(s) => {
                if !is_flag(s@) {
                    lemma_scan_sticky(rest, with_positional(st, arg));
                } else if s@ == "--"@ {
                } else {
                    match flag_name(s@) {
                        Err(_) => {},
                        Ok(opt) => {
                            if opt == "foo"@ || opt == "f"@ {
                                if rest.len() > 0 {
                                    if let Arg::String(v) = rest[0] {
                                        lemma_scan_sticky(
                                            rest.drop_first(),
                                            ScanState { foo: Some(v@), ..st },
                                        );
                                    }
                                }
                            } else if opt == "verbose"@ || opt == "v"@ {
                                lemma_scan_sticky(rest, ScanState { verbose: true, ..st });
                            } else if opt == "maybe-u64"@ || opt == "m"@ {
                                if rest.len() > 0 {
                                    if let Some(v) = arg_in_range(
                                        rest[0],
                                        false,
                                        0,
                                        u64::MAX as int,
                                    ) {
                                        lemma_scan_sticky(
                                            rest.drop_first(),
                                            ScanState { maybe_u64: Some(v as u64), ..st },
                                        );
                                    }
                                }
                            } else if opt == "defaultable"@ || opt == "d"@ {
                                if rest.len() > 0 {
                                    if let Some(v) = arg_in_range(
                                        rest[0],
                                        false,
                                        0,
                                        u64::MAX as int,
                                    ) {
                                        lemma_scan_sticky(
                                            rest.drop_first(),
                                            ScanState { defaultable: v as u64, ..st },
                                        );
                                    }
                                }
                            }
                        },
                    }
                }
            },
        }
    }
}

/// What the spellings of the `foo`, `verbose` and `maybe-u64` flags name.
proof fn lemma_option_spellings()
    ensures
        is_flag("-f"@) && "-f"@ != "--"@ && flag_name("-f"@) == Ok::<Seq<char>, Seq<char>>("f"@),
        is_flag("--foo"@) && "--foo"@ != "--"@ && flag_name("--foo"@) == Ok::<Seq<char>, Seq<char>>(
            "foo"@,
        ),
        is_flag("-v"@) && "-v"@ != "--"@ && flag_name("-v"@) == Ok::<Seq<char>, Seq<char>>("v"@),
        is_flag("--verbose"@) && "--verbose"@ != "--"@ && flag_name("--verbose"@) == Ok::<
            Seq<char>,
            Seq<char>,
        >("verbose"@),
        is_flag("-m"@) && "-m"@ != "--"@ && flag_name("-m"@) == Ok::<Seq<char>, Seq<char>>("m"@),
        is_flag("--maybe-u64"@) && "--maybe-u64"@ != "--"@ && flag_name("--maybe-u64"@) == Ok::<
            Seq<char>,
            Seq<char>,
        >("maybe-u64"@),
        "v"@ != "foo"@ && "v"@ != "f"@ && "verbose"@ != "foo"@ && "verbose"@ != "f"@,
        "m"@ != "foo"@ && "m"@ != "f"@ && "m"@ != "verbose"@ && "m"@ != "v"@,
        "maybe-u64"@ != "foo"@ && "maybe-u64"@ != "f"@ && "maybe-u64"@ != "verbose"@
            && "maybe-u64"@ != "v"@,
        is_flag("-d"@) && "-d"@ != "--"@ && flag_name("-d"@) == Ok::<Seq<char>, Seq<char>>("d"@),
        is_flag("--defaultable"@) && "--defaultable"@ != "--"@ && flag_name("--defaultable"@)
            == Ok::<Seq<char>, Seq<char>>("defaultable"@),
        "d"@ != "foo"@ && "d"@ != "f"@ && "d"@ != "verbose"@ && "d"@ != "v"@ && "d"@ != "maybe-u64"@
            && "d"@ != "m"@,
        "defaultable"@ != "foo"@ && "defaultable"@ != "f"@ && "defaultable"@ != "verbose"@
            && "defaultable"@ != "v"@ && "defaultable"@ != "maybe-u64"@ && "defaultable"@ != "m"@,
{
    reveal_strlit("-f");
    reveal_strlit("--foo");
    reveal_strlit("-v");
    reveal_strlit("--verbose");
    reveal_strlit("-m");
    reveal_strlit("--maybe-u64");
    reveal_strlit("--");
    reveal_strlit("f");
    reveal_strlit("foo");
    reveal_strlit("v");
    reveal_strlit("verbose");
    reveal_strlit("m");
    reveal_strlit("maybe-u64");
    assert("-f"@.subrange(1, 2) =~= "f"@);
    assert("--foo"@.subrange(2, 5) =~= "foo"@);
    assert("-v"@.subrange(1, 2) =~= "v"@);
    assert("--verbose"@.subrange(2, 9) =~= "verbose"@);
    assert("-m"@.subrange(1, 2) =~= "m"@);
    assert("--maybe-u64"@.subrange(2, 11) =~= "maybe-u64"@);
    lemma_single_byte("f"@);
    lemma_single_byte("v"@);
    lemma_single_byte("m"@);
    assert("-f"@ != "--"@) by { assert("-f"@[1] != "--"@[1]); }
    assert("-v"@ != "--"@) by { assert("-v"@[1] != "--"@[1]); }
    assert("-m"@ != "--"@) by { assert("-m"@[1] != "--"@[1]); }
    assert("v"@ != "f"@) by { assert("v"@[0] != "f"@[0]); }
    assert("m"@ != "f"@) by { assert("m"@[0] != "f"@[0]); }
    assert("m"@ != "v"@) by { assert("m"@[0] != "v"@[0]); }
    assert("maybe-u64"@ != "verbose"@) by { assert("maybe-u64"@[0] != "verbose"@[0]); }
    reveal_strlit("-d");
    reveal_strlit("--defaultable");
    reveal_strlit("d");
    reveal_strlit("defaultable");
    assert("-d"@.subrange(1, 2) =~= "d"@);
    assert("--defaultable"@.subrange(2, 13) =~= "defaultable"@);
    lemma_single_byte("d"@);
    assert("-d"@ != "--"@) by { assert("-d"@[1] != "--"@[1]); }
    assert("d"@ != "f"@) by { assert("d"@[0] != "f"@[0]); }
    assert("d"@ != "v"@) by { assert("d"@[0] != "v"@[0]); }
    assert("d"@ != "m"@) by { assert("d"@[0] != "m"@[0]); }
    assert("defaultable"@ != "verbose"@) by { assert("defaultable"@[0] != "verbose"@[0]); }
    assert("defaultable"@ != "maybe-u64"@) by { assert("defaultable"@[0] != "maybe-u64"@[0]); }
}

/// Law: an option given ahead of everything but positionals is what the
/// built command holds.  With `-f`/`--foo` followed by a string, `foo` is
/// that string; with `-v`/`--verbose`, the command is verbose; with
/// `-m`/`--maybe-u64` followed by an argument that converts to the `u64` `v`,
/// `maybe_u64` is `Some(v)`; whatever arguments follow.
pub proof fn law_given_options_are_kept(
    pre: Seq<Arg>,
    flag: String,
    value: Arg,
    rest: Seq<Arg>,
    v: u64,
)
    requires
        forall|i: int| 0 <= i < pre.len() ==> #[trigger] plain_positional(pre[i]),
    ensures
        demo_from_args(pre + (seq![Arg::String(flag), value] + rest)) matches Ok(m) ==> {
            &&& ((flag@ == "-f"@ || flag@ == "--foo"@) ==> (value matches Arg::String(x) ==> m.foo
                == x@))
            &&& ((flag@ == "-v"@ || flag@ == "--verbose"@) ==> m.verbose)
            &&& ((flag@ == "-m"@ || flag@ == "--maybe-u64"@) && <u64 as TryFromSpec<&Arg>>::try_from_spec(
                &value,
            ) == Ok::<u64, ()>(v) ==> m.maybe_u64 == Some(v))
        },
{
    let tail = seq![Arg::String(flag), value] + rest;
    lemma_scan_positional_prefix(pre, tail, initial_scan());
    let st1 = ScanState { positionals: initial_scan().positionals + pre, ..initial_scan() };
    lemma_option_spellings();
    assert(tail[0] == Arg::String(flag));
    assert(tail.drop_first() =~= seq![value] + rest);
    assert(tail.drop_first()[0] == value);
    assert(tail.drop_first().drop_first() =~= rest);
    if flag@ == "-f"@ || flag@ == "--foo"@ {
        if let Arg::String(x) = value {
            lemma_scan_sticky(rest, ScanState { foo: Some(x@), ..st1 });
        }
    }
    if flag@ == "-v"@ || flag@ == "--verbose"@ {
        lemma_scan_sticky(tail.drop_first(), ScanState { verbose: true, ..st1 });
    }
    if flag@ == "-m"@ || flag@ == "--maybe-u64"@ {
        if let Some(n) = arg_in_range(value, false, 0, u64::MAX as int) {
            lemma_scan_sticky(rest, ScanState { maybe_u64: Some(n as u64), ..st1 });
        }
    }
}

/// Law: `-d`/`--defaultable` followed by an argument that converts to the
/// `u64` `v`, with only positionals before and after it, builds a command
/// whose `defaultable` is `v`.
pub proof fn law_defaultable_given(pre: Seq<Arg>, flag: String, value: Arg, post: Seq<Arg>, v: u64)
    requires
        forall|i: int| 0 <= i < pre.len() ==> #[trigger] plain_positional(pre[i]),
        forall|i: int| 0 <= i < post.len() ==> #[trigger] plain_positional(post[i]),
        flag@ == "-d"@ || flag@ == "--defaultable"@,
        <u64 as TryFromSpec<&Arg>>::try_from_spec(&value) == Ok::<u64, ()>(v),
    ensures
        demo_from_args(pre + (seq![Arg::String(flag), value] + post)) matches Ok(m) ==> m.defaultable
            == v,
{
    let tail = seq![Arg::String(flag), value] + post;
    lemma_scan_positional_prefix(pre, tail, initial_scan());
    let st1 = ScanState { positionals: initial_scan().positionals + pre, ..initial_scan() };
    lemma_option_spellings();
    assert(tail[0] == Arg::String(flag));
    assert(tail.drop_first() =~= seq![value] + post);
    assert(tail.drop_first()[0] == value);
    assert(tail.drop_first().drop_first() =~= post);
    let st2 = ScanState { defaultable: v, ..st1 };
    lemma_scan_positional_prefix(post, Seq::empty(), st2);
    assert(post + Seq::<Arg>::empty() =~= post);
}

/// Law: `foo` must be given, and the other options keep their defaults
/// (not verbose, no `maybe-u64`, `defaultable` of 10) unless a flag names
/// them.
pub proof fn law_demo_defaults(args: Seq<Arg>)
    ensures
        demo_from_args(args) matches Ok(m) ==> {
            &&& !never_flagged(args, "foo"@, "f"@)
            &&& (never_flagged(args, "verbose"@, "v"@) ==> !m.verbose)
            &&& (never_flagged(args, "maybe-u64"@, "m"@) ==> m.maybe_u64 is None)
            &&& (never_flagged(args, "defaultable"@, "d"@) ==> m.defaultable == 10)
        },
{
    lemma_scan_keeps(args, initial_scan());
}

/// The scan state held by the reader's variables.
spec fn scan_model(
    foo: Option<String>,
    verbose: bool,
    maybe_u64: Option<u64>,
    defaultable: u64,
    positionals: Seq<usize>,
    args: Seq<Arg>,
) -> ScanState {
    ScanState {
        foo: match foo {
            Some(s) => Some(s@),
            None => None,
        },
        verbose,
        maybe_u64,
        defaultable,
        positionals: Seq::new(positionals.len(), |k: int| args[positionals[k] as int]),
    }
}

/// What the scan of the arguments leaves: the option values and the
/// indices of the positional arguments.
struct Scanned {
    foo: Option<String>,
    verbose: bool,
    maybe_u64: Option<u64>,
    defaultable: u64,
    positionals: Vec<usize>,
}

/// The option that the flag `s` names (see `flag_name`).
fn read_flag_name(s: &str) -> (r: Result<&str, String>)
    requires
        is_flag(s@),
    ensures
        match (r, flag_name(s@)) {
            (Ok(o), Ok(m)) => o@ == m,
            (Err(e), Err(m)) => e@ == m,
            _ => false,
        },
{
    let n = s.unicode_len();
    if n >= 2 && s.get_char(1) == '-' {
        Ok(s.substring_char(2, n))
    } else {
        let short = s.substring_char(1, n);
        proof {
            lemma_single_byte(short@);
        }
        if short.unicode_len() == 1 && (short.get_char(0) as u32) < 0x80 {
            Ok(short)
        } else {
            let mut e = String::from_str("flag '");
            e.append(s);
            e.append("' is invalid, all short-form arguments must be specified alone");
            Err(e)
        }
    }
}

/// A string is one byte long in UTF-8 exactly when it is a single ASCII
/// character.
proof fn lemma_single_byte(s: Seq<char>)
    ensures
        encode_utf8(s).len() == 1 <==> (s.len() == 1 && (s[0] as u32) < 0x80),
{
    if s.len() > 0 {
        lemma_encode_scalar_len(s[0] as u32);
        lemma_encode_utf8_len(s.drop_first());
        assert(encode_utf8(s) == encode_scalar(s[0] as u32) + encode_utf8(s.drop_first()));
    }
}

/// A scalar takes at least one byte, and exactly one when it is ASCII.
proof fn lemma_encode_scalar_len(v: u32)
    ensures
        encode_scalar(v).len() >= 1,
        encode_scalar(v).len() == 1 <==> v < 0x80,
{
}

/// Every character takes at least one byte in UTF-8.
proof fn lemma_encode_utf8_len(s: Seq<char>)
    ensures
        encode_utf8(s).len() >= s.len(),
    decreases s.len(),
{
    if s.len() > 0 {
        lemma_encode_utf8_len(s.drop_first());
    }
}

/// The message for an option value of the wrong type.
fn conversion_message(value: &Arg, option: &str) -> (e: String)
    ensures
        e@ == conversion_error(*value, option@),
{
    let mut e = String::from_str("could not convert value '");
    let text = value.to_string();
    e.append(text.as_str());
    e.append("' for argument '");
    e.append(option);
    e.append("'");
    e
}

/// Reads all arguments as `scan` does, starting from `initial_scan()`.
fn scan_args(args: &Vec<Arg>) -> (r: Result<Scanned, String>)
    ensures
        match (r, scan(args@, initial_scan())) {
            (Ok(sc), Ok(st)) => {
                &&& scan_model(
                    sc.foo,
                    sc.verbose,
                    sc.maybe_u64,
                    sc.defaultable,
                    sc.positionals@,
                    args@,
                ) == st
                &&& forall|k: int|
                    0 <= k < sc.positionals@.len() ==> #[trigger] sc.positionals@[k] < args@.len()
            },
            (Err(e), Err(m)) => e@ == m,
            _ => false,
        },
{
    let n = args.len();
    let mut foo: Option<String> = None;
    let mut verbose = false;
    let mut maybe_u64: Option<u64> = None;
    let mut defaultable: u64 = 10;
    let mut positionals: Vec<usize> = Vec::new();
    let mut i: usize = 0;
    assert(args@.skip(0) =~= args@);
    assert(scan_model(foo, verbose, maybe_u64, defaultable, positionals@, args@) =~= initial_scan());
    while i < n
        invariant
            n == args@.len(),
            i <= n,
            forall|k: int| 0 <= k < positionals@.len() ==> #[trigger] positionals@[k] < n,
            scan(args@, initial_scan()) == scan(
                args@.skip(i as int),
                scan_model(foo, verbose, maybe_u64, defaultable, positionals@, args@),
            ),
        decreases n - i,
    {
        let ghost st = scan_model(foo, verbose, maybe_u64, defaultable, positionals@, args@);
        let ghost rest = args@.skip(i as int);
        assert(rest[0] == args@[i as int]);
        assert(rest.drop_first() =~= args@.skip(i + 1));
        let arg = &args[i];
        let is_positional = match arg {
            Arg::U64(_) => true,
            Arg::String(s) => !starts_with_char(s.as_str(), '-'),
        };
        if is_positional {
            positionals.push(i);
            assert(scan_model(foo, verbose, maybe_u64, defaultable, positionals@, args@)
                =~= with_positional(st, args@[i as int]));
            i = i + 1;
        } else {
            let s = match arg {
                Arg::String(s) => s,
                Arg::U64(_) => {
                    assert(false);
                    return Err(String::new());
                },
            };
            if str_equal(s.as_str(), "--") {
                let mut j = i + 1;
                while j < n
                    invariant
                        n == args@.len(),
                        i < j <= n,
                        forall|k: int| 0 <= k < positionals@.len() ==> #[trigger] positionals@[k] < n,
                        scan_model(foo, verbose, maybe_u64, defaultable, positionals@, args@).positionals
                            =~= st.positionals + args@.subrange(i + 1, j as int),
                    decreases n - j,
                {
                    let ghost before = positionals@;
                    let ghost old_model = scan_model(foo, verbose, maybe_u64, defaultable, positionals@, args@).positionals;
                    positionals.push(j);
                    assert(positionals@ == before.push(j));
                    assert(scan_model(foo, verbose, maybe_u64, defaultable, positionals@, args@).positionals
                        =~= old_model.push(args@[j as int]));
                    assert(args@.subrange(i + 1, j + 1) =~= args@.subrange(i + 1, j as int).push(args@[j as int]));
                    assert(scan_model(foo, verbose, maybe_u64, defaultable, positionals@, args@).positionals
                        =~= st.positionals + args@.subrange(i + 1, j + 1));
                    j = j + 1;
                }
                assert(args@.subrange(i + 1, n as int) =~= rest.drop_first());
                assert(args@.skip(n as int) =~= Seq::<Arg>::empty());
                i = n;
            } else {
                let opt = match read_flag_name(s.as_str()) {
                    Ok(o) => o,
                    Err(e) => {
                        return Err(e);
                    },
                };
                if str_equal(opt, "foo") || str_equal(opt, "f") {
                    if i + 1 >= n {
                        return Err(String::from_str("argument 'foo' requires a value"));
                    }
                    assert(rest.drop_first()[0] == args@[i + 1]);
                    assert(rest.drop_first().drop_first() =~= args@.skip(i + 2));
                    let value = &args[i + 1];
                    let val = match String::try_from(value) {
                        Ok(v) => v,
                        Err(_) => {
                            return Err(conversion_message(value, "foo"));
                        },
                    };
                    if foo.is_some() {
                        return Err(String::from_str("argument 'foo' is specified multiple times"));
                    }
                    foo = Some(val);
                    assert(scan_model(foo, verbose, maybe_u64, defaultable, positionals@, args@)
                        =~= ScanState { foo: Some(val@), ..st });
                    i = i + 2;
                } else if str_equal(opt, "verbose") || str_equal(opt, "v") {
                    verbose = true;
                    assert(scan_model(foo, verbose, maybe_u64, defaultable, positionals@, args@)
                        =~= ScanState { verbose: true, ..st });
                    i = i + 1;
                } else if str_equal(opt, "maybe-u64") || str_equal(opt, "m") {
                    if i + 1 >= n {
                        return Err(String::from_str("argument 'maybe-u64' requires a value"));
                    }
                    assert(rest.drop_first()[0] == args@[i + 1]);
                    assert(rest.drop_first().drop_first() =~= args@.skip(i + 2));
                    let value = &args[i + 1];
                    let val = match u64::try_from(value) {
                        Ok(v) => v,
                        Err(_) => {
                            return Err(conversion_message(value, "maybe-u64"));
                        },
                    };
                    if maybe_u64.is_some() {
                        return Err(
                            String::from_str("argument 'maybe-u64' is specified multiple times"),
                        );
                    }
                    maybe_u64 = Some(val);
                    assert(scan_model(foo, verbose, maybe_u64, defaultable, positionals@, args@)
                        =~= ScanState { maybe_u64: Some(val), ..st });
                    i = i + 2;
                } else if str_equal(opt, "defaultable") || str_equal(opt, "d") {
                    if i + 1 >= n {
                        return Err(String::from_str("argument 'defaultable' requires a value"));
                    }
                    assert(rest.drop_first()[0] == args@[i + 1]);
                    assert(rest.drop_first().drop_first() =~= args@.skip(i + 2));
                    let value = &args[i + 1];
                    let val = match u64::try_from(value) {
                        Ok(v) => v,
                        Err(_) => {
                            return Err(conversion_message(value, "defaultable"));
                        },
                    };
                    defaultable = val;
                    assert(scan_model(foo, verbose, maybe_u64, defaultable, positionals@, args@)
                        =~= ScanState { defaultable: val, ..st });
                    i = i + 2;
                } else {
                    let mut e = String::from_str("unrecognized flag '");
                    e.append(s.as_str());
                    e.append("'");
                    return Err(e);
                }
            }
        }
    }
    assert(args@.skip(n as int) =~= Seq::<Arg>::empty());
    Ok(Scanned { foo, verbose, maybe_u64, defaultable, positionals })
}

impl DcmdFn for Demo {
    /// Runs the command; it always succeeds.
    fn call(&self, addr: Addr, flags: Flags) -> (c: Code)
        ensures
            c == Code::Success,
    {
        Code::Success
    }
}

impl Dcmd for Demo {
    fn from_args(args: Vec<Arg>) -> (r: Result<Self, String>)
        where Self: Sized
        ensures
            match (r, demo_from_args(args@)) {
                (Ok(d), Ok(m)) => d@ == m,
                (Err(e), Err(m)) => e@ == m,
                _ => false,
            },
    {
        let sc = match scan_args(&args) {
            Ok(sc) => sc,
            Err(e) => {
                return Err(e);
            },
        };
        let ghost st = scan_model(sc.foo, sc.verbose, sc.maybe_u64, sc.defaultable, sc.positionals@, args@);
        if sc.positionals.len() == 0 {
            return Err(String::from_str("missing positional argument 'positional'"));
        }
        let first = &args[sc.positionals[0]];
        assert(st.positionals[0] == *first);
        let positional = match u64::try_from(first) {
            Ok(p) => p,
            Err(_) => {
                return Err(String::from_str("unexpected type for positional argument 'positional'"));
            },
        };
        if sc.positionals.len() > 1 {
            return Err(String::from_str("too many positional arguments"));
        }
        match sc.foo {
            None => Err(String::from_str("missing value for argument 'foo'")),
            Some(foo) => Ok(
                Demo {
                    foo,
                    verbose: sc.verbose,
                    maybe_u64: sc.maybe_u64,
                    defaultable: sc.defaultable,
                    positional,
                },
            ),
        }
    }
}

/// A native dcmd argument as MDB passes it: its kind and, for each kind,
/// the payload it would hold (the bytes of a C string, an immediate value,
/// or a C `char`).  Only the payload that `a_type` selects is read.  The C
/// `char` is held by its numeric value, which lies in `-128..=127` where the
/// platform's `char` is signed and in `0..=255` where it is unsigned.
pub struct RawArg {
    pub a_type: mdb_type_t,
    pub text: Vec<u8>,
    pub value: u64,
    pub ch: i32,
}

/// The raw argument can be read: a string argument must hold UTF-8.
pub open spec fn raw_readable(raw: RawArg) -> bool {
    match raw.a_type {
        mdb_type_t::MDB_TYPE_STRING => valid_utf8(raw.text@),
        _ => true,
    }
}

/// `a` is what the raw argument reads as: the decoded text of a string, the
/// immediate value, or the `char` converted to a `u64` as `as` converts a
/// C `char`: a negative value wraps around, a nonnegative one is kept.
pub open spec fn raw_reads_as(raw: RawArg, a: Arg) -> bool {
    match raw.a_type {
        mdb_type_t::MDB_TYPE_STRING => a matches Arg::String(s) && s@ == decode_utf8(raw.text@),
        mdb_type_t::MDB_TYPE_IMMEDIATE => a == Arg::U64(raw.value),
        mdb_type_t::MDB_TYPE_CHAR => a == Arg::U64(raw.ch as u64),
    }
}

/// Reads one native argument; `None` when a string argument is not UTF-8.
pub fn arg_from_raw(raw: &RawArg) -> (r: Option<Arg>)
    ensures
        r is Some <==> raw_readable(*raw),
        r matches Some(a) ==> raw_reads_as(*raw, a),
        raw.a_type is MDB_TYPE_STRING ==> (r is Some <==> valid_utf8(raw.text@)),
        raw.a_type is MDB_TYPE_STRING ==> (r matches Some(a) ==> (a matches Arg::String(s) && s@
            == decode_utf8(raw.text@))),
        raw.a_type is MDB_TYPE_IMMEDIATE ==> r == Some(Arg::U64(raw.value)),
        raw.a_type is MDB_TYPE_CHAR ==> r == Some(Arg::U64(raw.ch as u64)),
{
    match raw.a_type {
        mdb_type_t::MDB_TYPE_STRING => match string_from_utf8(raw.text.as_slice()) {
            Some(s) => Some(Arg::String(s)),
            None => None,
        },
        mdb_type_t::MDB_TYPE_IMMEDIATE => Some(Arg::U64(raw.value)),
        mdb_type_t::MDB_TYPE_CHAR => Some(Arg::U64(raw.ch as u64)),
    }
}

/// Law: what a native argument reads as depends only on its kind and that
/// kind's payload: a string argument is always read as a string holding the
/// characters its bytes decode to, whatever those characters are (digits
/// included); an immediate is read as its value; a `char` as its number.
pub proof fn law_raw_arguments_keep_their_kind(raw: RawArg, a: Arg)
    requires
        raw_reads_as(raw, a),
    ensures
        raw.a_type is MDB_TYPE_STRING ==> (a matches Arg::String(s) && s@ == decode_utf8(raw.text@)),
        raw.a_type is MDB_TYPE_IMMEDIATE ==> a == Arg::U64(raw.value),
        raw.a_type is MDB_TYPE_CHAR ==> a == Arg::U64(raw.ch as u64),
{
}

/// Reads all native arguments, in order; `None` when any string argument
/// is not UTF-8.
pub fn args_from_raw(raws: &Vec<RawArg>) -> (r: Option<Vec<Arg>>)
    ensures
        r is Some <==> forall|i: int| 0 <= i < raws@.len() ==> #[trigger] raw_readable(raws@[i]),
        r matches Some(args) ==> {
            &&& args@.len() == raws@.len()
            &&& forall|i: int| 0 <= i < raws@.len() ==> #[trigger] raw_reads_as(raws@[i], args@[i])
            &&& forall|i: int|
                0 <= i < raws@.len() && raws@[i].a_type is MDB_TYPE_STRING ==> (#[trigger] args@[i] matches Arg::String(
                    s,
                ) && s@ == decode_utf8(raws@[i].text@))
        },
{
    let mut out: Vec<Arg> = Vec::new();
    let n = raws.len();
    let mut i: usize = 0;
    while i < n
        invariant
            n == raws@.len(),
            i <= n,
            out@.len() == i,
            forall|k: int| 0 <= k < i ==> #[trigger] raw_readable(raws@[k]),
            forall|k: int| 0 <= k < i ==> #[trigger] raw_reads_as(raws@[k], out@[k]),
            forall|k: int|
                0 <= k < i && raws@[k].a_type is MDB_TYPE_STRING ==> (#[trigger] out@[k] matches Arg::String(
                    s,
                ) && s@ == decode_utf8(raws@[k].text@)),
        decreases n - i,
    {
        match arg_from_raw(&raws[i]) {
            Some(a) => {
                out.push(a);
            },
            None => {
                return None;
            },
        }
        i = i + 1;
    }
    Some(out)
}

/// A run of the `demo` dcmd: the command built from the arguments, the
/// address and flags its `call` received, and the native code it returned.
#[derive(Debug)]
pub struct DemoRun {
    pub demo: Demo,
    pub addr: Addr,
    pub flags: Flags,
    pub code: i32,
}

/// What the `demo` dcmd does with its arguments and flags.  When the
/// arguments describe a `demo` command it is built and called with the
/// address `addr` and the flags of `flags` that MDB defines (the others
/// dropped), and `Ok` holds that run, whose code is `DCMD_OK`.  Otherwise
/// `Err` holds the warning to print before failing with `DCMD_ERR`.
pub fn demo_dispatch(addr: u64, flags: u32, args: Vec<Arg>) -> (r: Result<DemoRun, String>)
    ensures
        match (r, demo_from_args(args@)) {
            (Ok(run), Ok(m)) => {
                &&& run.demo@ == m
                &&& run.addr@ == addr
                &&& run.flags@ == flags & crate::dcmd::FLAG_MASK
                &&& run.code == crate::sys::DCMD_OK
            },
            (Err(w), Err(m)) => w@ == "Failed to construct type `Demo` from mdb args: "@ + m,
            _ => false,
        },
{
    let flags = Flags::from_bits_truncate(flags);
    match Demo::from_args(args) {
        Ok(demo) => {
            let addr = Addr::new(addr);
            let code = demo.call(addr, flags).to_int();
            Ok(DemoRun { demo, addr, flags, code })
        },
        Err(e) => {
            let mut w = String::from_str("Failed to construct type `Demo` from mdb args: ");
            w.append(e.as_str());
            Err(w)
        },
    }
}

/// Walks the (stand-in) addresses of Tokio tasks: each step moves `current`
/// one closer to `end` and yields it, until the two meet.
pub struct TokioTaskWalker {
    current: u32,
    end: u32,
}

impl View for TokioTaskWalker {
    type V = (u32, u32);

    /// The position reached and the position where the walk ends.
    closed spec fn view(&self) -> (u32, u32) {
        (self.current, self.end)
    }
}

impl Default for TokioTaskWalker {
    fn default() -> (w: Self)
        ensures
            w@ == (5u32, 12u32),
    {
        Self { current: 5, end: 12 }
    }
}

impl Walker for TokioTaskWalker {}

/// One step of the task walk from position `current` towards `end`: the
/// next state, and the address yielded (`None` once the walk is complete).
pub open spec fn task_step(state: (u32, u32)) -> ((u32, u32), Option<u64>) {
    if state.0 >= state.1 {
        (state, None)
    } else {
        (((state.0 + 1) as u32, state.1), Some((state.0 + 1) as u64))
    }
}

/// The addresses a walk from `state` yields until it completes.
pub open spec fn task_walk(state: (u32, u32)) -> Seq<u64>
    decreases state.1 - state.0,
{
    if state.0 >= state.1 {
        Seq::empty()
    } else {
        seq![(state.0 + 1) as u64] + task_walk(task_step(state).0)
    }
}

/// Law: a task walk from `current` to `end` yields `current + 1`, ...,
/// `end`, in order, each once.
pub proof fn law_task_walk_addresses(current: u32, end: u32)
    ensures
        task_walk((current, end)).len() == if current < end {
            end - current
        } else {
            0
        },
        forall|k: int|
            0 <= k < task_walk((current, end)).len() ==> #[trigger] task_walk((current, end))[k]
                == current + 1 + k,
    decreases end - current,
{
    if current < end {
        law_task_walk_addresses((current + 1) as u32, end);
        let rest = task_walk(((current + 1) as u32, end));
        assert forall|k: int| 0 <= k < task_walk((current, end)).len() implies #[trigger] task_walk(
            (current, end),
        )[k] == current + 1 + k by {
            if k > 0 {
                assert(task_walk((current, end))[k] == rest[k - 1]);
            }
        }
    }
}

/// Law: once a task walk is complete, every further step reports
/// completion and leaves the walker as it is.
pub proof fn law_task_walk_stays_done(state: (u32, u32))
    requires
        state.0 >= state.1,
    ensures
        task_step(state) == (state, None::<u64>),
        task_walk(state).len() == 0,
{
}

impl WalkStep for TokioTaskWalker {
    /// Moves one position on and yields it, or reports that the walk is
    /// complete (see `task_step`).
    fn step(&mut self) -> (r: StepResult)
        ensures
            final(self)@ == task_step(old(self)@).0,
            match task_step(old(self)@).1 {
                None => r == Ok::<ControlFlow<(), Addr>, ()>(ControlFlow::Break(())),
                Some(a) => r matches Ok(ControlFlow::Continue(x)) && x@ == a,
            },
    {
        if self.current >= self.end {
            Ok(ControlFlow::Break(()))
        } else {
            self.current = self.current + 1;
            Ok(ControlFlow::Continue(Addr::new(self.current as u64)))
        }
    }
}

} // verus!
