//! Decimal numerals and small string helpers used when reading dcmd
//! arguments and when writing messages about them.

use vstd::prelude::*;
use vstd::string::*;
use vstd::utf8::{decode_utf8, valid_utf8};

verus! {

/// `c` is one of the ASCII digits `0`..`9`.
pub open spec fn is_digit(c: char) -> bool {
    '0' <= c && c <= '9'
}

/// The value of an ASCII digit.
pub open spec fn digit_value(c: char) -> nat {
    (c as int - '0' as int) as nat
}

/// Every character of `s` is an ASCII digit.
pub open spec fn all_digits(s: Seq<char>) -> bool {
    forall|i: int| 0 <= i < s.len() ==> #[trigger] is_digit(s[i])
}

/// The number that the digit string `s` denotes in base ten.
pub open spec fn digits_value(s: Seq<char>) -> nat
    decreases s.len(),
{
    if s.len() == 0 {
        0
    } else {
        digits_value(s.drop_last()) * 10 + digit_value(s.last())
    }
}

/// A nonempty run of digits, read as a number.
pub open spec fn unsigned_numeral(s: Seq<char>) -> Option<int> {
    if s.len() > 0 && all_digits(s) {
        Some(digits_value(s) as int)
    } else {
        None
    }
}

/// The integer that `s` denotes as a decimal numeral, the way the integer
/// types' `from_str` read it: an optional `+`, or `-` where the target type
/// is signed, followed by one or more ASCII digits.  `None` where `s` is not
/// such a numeral; the value itself is not bounded here.
pub open spec fn numeral_value(s: Seq<char>, signed: bool) -> Option<int> {
    if s.len() > 0 && s[0] == '+' {
        unsigned_numeral(s.drop_first())
    } else if signed && s.len() > 0 && s[0] == '-' {
        match unsigned_numeral(s.drop_first()) {
            Some(v) => Some(-v),
            None => None,
        }
    } else {
        unsigned_numeral(s)
    }
}

/// The value of `s` as a numeral when it lies in `lo..=hi`.
pub open spec fn numeral_in_range(s: Seq<char>, signed: bool, lo: int, hi: int) -> Option<int> {
    match numeral_value(s, signed) {
        Some(v) => if lo <= v && v <= hi {
            Some(v)
        } else {
            None
        },
        None => None,
    }
}

/// The ASCII digit for `d < 10`.
pub open spec fn digit_char(d: nat) -> char {
    ('0' as int + d) as char
}

/// The shortest decimal numeral of `n`, as `Display` writes an unsigned integer.
pub open spec fn decimal(n: nat) -> Seq<char>
    decreases n,
{
    if n < 10 {
        seq![digit_char(n)]
    } else {
        decimal(n / 10).push(digit_char(n % 10))
    }
}

/// Appending digits never makes a digit string denote less.
proof fn lemma_digits_value_prefix(s: Seq<char>, j: int, k: int)
    requires
        0 <= j <= k <= s.len(),
    ensures
        digits_value(s.take(j)) <= digits_value(s.take(k)),
    decreases k - j,
{
    if j < k {
        lemma_digits_value_prefix(s, j, k - 1);
        assert(s.take(k).drop_last() =~= s.take(k - 1));
    }
}

/// Reads the digits of `s` from char index `start` on.  `Some(v)` exactly
/// when they form a nonempty digit run whose value `v` fits in a `u64`.
fn read_digits(s: &str, start: usize) -> (r: Option<u64>)
    requires
        start <= s@.len(),
    ensures
        r matches Some(v) ==> unsigned_numeral(s@.skip(start as int)) == Some(v as int),
        r is None ==> match unsigned_numeral(s@.skip(start as int)) {
            Some(v) => v > u64::MAX,
            None => true,
        },
{
    let n = s.unicode_len();
    let ghost body = s@.skip(start as int);
    if start >= n {
        return None;
    }
    let mut acc: u64 = 0;
    let mut i = start;
    while i < n
        invariant
            n == s@.len(),
            start <= i <= n,
            start < n,
            body == s@.skip(start as int),
            all_digits(body.take(i - start)),
            acc as int == digits_value(body.take(i - start)) as int,
        decreases n - i,
    {
        let c = s.get_char(i);
        assert(c == body[i - start]);
        if !('0' <= c && c <= '9') {
            assert(!is_digit(body[i - start]));
            assert(!all_digits(body));
            return None;
        }
        let d = (c as u32 - '0' as u32) as u64;
        assert(body.take(i - start + 1).drop_last() =~= body.take(i - start));
        assert(body.take(i - start + 1).last() == c);
        assert(d as int == digit_value(c));
        if acc > (u64::MAX - d) / 10 {
            proof {
                assert(digits_value(body.take(i - start + 1)) > u64::MAX) by (nonlinear_arith)
                    requires
                        acc > (u64::MAX - d) / 10,
                        digits_value(body.take(i - start + 1)) == acc * 10 + d,
                        d <= 9,
                ;
                lemma_digits_value_prefix(body, i - start + 1, body.len() as int);
                assert(body.take(body.len() as int) =~= body);
            }
            return None;
        }
        acc = acc * 10 + d;
        i = i + 1;
        assert forall|k: int| 0 <= k < body.take(i - start).len() implies #[trigger] is_digit(
            body.take(i - start)[k],
        ) by {
            if k < i - start - 1 {
                assert(body.take(i - start)[k] == body.take(i - start - 1)[k]);
            }
        }
    }
    assert(body.take(n - start) =~= body);
    Some(acc)
}

/// Reads `s` as a decimal numeral (see `numeral_value`).  `Some((neg, m))`
/// gives the sign and magnitude of its value when the magnitude fits in a
/// `u64`; `None` when `s` is no numeral or its magnitude does not fit.
pub fn read_numeral(s: &str, signed: bool) -> (r: Option<(bool, u64)>)
    ensures
        r matches Some((neg, m)) ==> numeral_value(s@, signed) == Some(
            if neg {
                -(m as int)
            } else {
                m as int
            },
        ),
        r is None ==> match numeral_value(s@, signed) {
            Some(v) => v > u64::MAX || v < -(u64::MAX as int),
            None => true,
        },
{
    let n = s.unicode_len();
    if n > 0 && s.get_char(0) == '+' {
        assert(s@.drop_first() =~= s@.skip(1));
        match read_digits(s, 1) {
            Some(v) => Some((false, v)),
            None => None,
        }
    } else if signed && n > 0 && s.get_char(0) == '-' {
        assert(s@.drop_first() =~= s@.skip(1));
        match read_digits(s, 1) {
            Some(v) => Some((true, v)),
            None => None,
        }
    } else {
        assert(s@ =~= s@.skip(0));
        match read_digits(s, 0) {
            Some(v) => Some((false, v)),
            None => None,
        }
    }
}

/// Reads `s` as a numeral of a type whose values are `lo..=hi`.
pub fn read_numeral_in_range(s: &str, signed: bool, lo: i128, hi: i128) -> (r: Option<i128>)
    requires
        -(u64::MAX as int) <= lo,
        hi <= u64::MAX,
    ensures
        r matches Some(v) ==> numeral_in_range(s@, signed, lo as int, hi as int) == Some(v as int),
        r is None ==> numeral_in_range(s@, signed, lo as int, hi as int) is None,
{
    match read_numeral(s, signed) {
        Some((neg, m)) => {
            let v: i128 = if neg {
                -(m as i128)
            } else {
                m as i128
            };
            if lo <= v && v <= hi {
                Some(v)
            } else {
                None
            }
        },
        None => None,
    }
}

/// The one-character string of the digit `d`.
fn digit_str(d: u64) -> (r: &'static str)
    requires
        d < 10,
    ensures
        r@ == seq![digit_char(d as nat)],
{
    proof {
        reveal_strlit("0");
        reveal_strlit("1");
        reveal_strlit("2");
        reveal_strlit("3");
        reveal_strlit("4");
        reveal_strlit("5");
        reveal_strlit("6");
        reveal_strlit("7");
        reveal_strlit("8");
        reveal_strlit("9");
    }
    if d == 0 {
        "0"
    } else if d == 1 {
        "1"
    } else if d == 2 {
        "2"
    } else if d == 3 {
        "3"
    } else if d == 4 {
        "4"
    } else if d == 5 {
        "5"
    } else if d == 6 {
        "6"
    } else if d == 7 {
        "7"
    } else if d == 8 {
        "8"
    } else {
        "9"
    }
}

/// Writes `n` in decimal, as `Display` does for an unsigned integer.
pub fn format_u64(n: u64) -> (s: String)
    ensures
        s@ == decimal(n as nat),
    decreases n,
{
    if n < 10 {
        String::from_str(digit_str(n))
    } else {
        let mut s = format_u64(n / 10);
        s.append(digit_str(n % 10));
        s
    }
}

/// Law: reading back what `format_u64` writes gives the number again, for
/// unsigned and signed readers alike.
pub proof fn law_decimal_round_trip(n: nat, signed: bool)
    ensures
        numeral_value(decimal(n), signed) == Some(n as int),
    decreases n,
{
    lemma_decimal_digits(n);
    let s = decimal(n);
    assert(s[0] != '+' && s[0] != '-');
}

/// The decimal numeral of an integer: a `-` before the digits of a negative
/// one, as `Display` writes a signed integer.
pub open spec fn signed_decimal(n: int) -> Seq<char> {
    if n < 0 {
        seq!['-'] + decimal((-n) as nat)
    } else {
        decimal(n as nat)
    }
}

/// Law: a signed reader reads every integer's numeral back as that integer,
/// with or without a `+` before a nonnegative one; an unsigned reader reads
/// a nonnegative integer's numeral and rejects a negative one.
pub proof fn law_signed_decimal_round_trip(n: int)
    ensures
        numeral_value(signed_decimal(n), true) == Some(n),
        numeral_value(signed_decimal(n), false) == if n >= 0 {
            Some(n)
        } else {
            None::<int>
        },
        n >= 0 ==> numeral_value(seq!['+'] + decimal(n as nat), true) == Some(n),
        n >= 0 ==> numeral_value(seq!['+'] + decimal(n as nat), false) == Some(n),
{
    if n < 0 {
        let d = decimal((-n) as nat);
        lemma_decimal_digits((-n) as nat);
        let s = seq!['-'] + d;
        assert(s.drop_first() =~= d);
        assert(s[0] == '-');
        assert(!is_digit(s[0]));
        assert(!all_digits(s));
    } else {
        law_decimal_round_trip(n as nat, true);
        law_decimal_round_trip(n as nat, false);
        let d = decimal(n as nat);
        lemma_decimal_digits(n as nat);
        let s = seq!['+'] + d;
        assert(s.drop_first() =~= d);
    }
}

/// `decimal(n)` is a nonempty digit run, starting with a digit, of value `n`.
proof fn lemma_decimal_digits(n: nat)
    ensures
        decimal(n).len() > 0,
        all_digits(decimal(n)),
        digits_value(decimal(n)) == n,
        is_digit(decimal(n)[0]),
    decreases n,
{
    if n < 10 {
        let s = decimal(n);
        assert(s.drop_last() =~= Seq::<char>::empty());
        assert(digits_value(s.drop_last()) == 0);
    } else {
        lemma_decimal_digits(n / 10);
        let s = decimal(n);
        let p = decimal(n / 10);
        assert(s.drop_last() =~= p);
        assert(s[0] == p[0]);
        assert forall|i: int| 0 <= i < s.len() implies #[trigger] is_digit(s[i]) by {
            if i < p.len() {
                assert(s[i] == p[i]);
            }
        }
        assert((n / 10) * 10 + n % 10 == n) by (nonlinear_arith);
    }
}

/// `s` begins with the character `c`.
pub fn starts_with_char(s: &str, c: char) -> (r: bool)
    ensures
        r == (s@.len() > 0 && s@[0] == c),
{
    s.unicode_len() > 0 && s.get_char(0) == c
}

/// The two strings hold the same characters.
pub fn str_equal(a: &str, b: &str) -> (r: bool)
    ensures
        r == (a@ == b@),
{
    let n = a.unicode_len();
    if n != b.unicode_len() {
        return false;
    }
    let mut i: usize = 0;
    while i < n
        invariant
            n == a@.len(),
            n == b@.len(),
            i <= n,
            forall|k: int| 0 <= k < i ==> a@[k] == b@[k],
        decreases n - i,
    {
        if a.get_char(i) != b.get_char(i) {
            return false;
        }
        i = i + 1;
    }
    assert(a@ =~= b@);
    true
}

/// Trusted: std's `String::from_utf8`, on a copy of `bytes`.  Its
/// documentation says it fails exactly when the bytes are not valid UTF-8;
/// the contract says so with vstd's definitions of valid UTF-8 and of the
/// characters that valid bytes decode to.
#[verifier::external_body]
pub(crate) fn string_from_utf8(bytes: &[u8]) -> (r: Option<String>)
    ensures
        r is Some <==> valid_utf8(bytes@),
        r matches Some(s) ==> s@ == decode_utf8(bytes@),
{
    String::from_utf8(bytes.to_vec()).ok()
}

} // verus!
