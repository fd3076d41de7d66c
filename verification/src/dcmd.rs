//! Implement dcmds for an MDB dmod.

use vstd::prelude::*;

use vstd::std_specs::convert::{TryFromSpec, TryFromSpecImpl};

use crate::sys::{
    DCMD_ABORT, DCMD_ADDRSPEC, DCMD_ERR, DCMD_LOOP, DCMD_LOOPFIRST, DCMD_NEXT, DCMD_OK,
    DCMD_PIPE, DCMD_PIPE_OUT, DCMD_USAGE,
};
use crate::text::{
    decimal, format_u64, law_decimal_round_trip, law_signed_decimal_round_trip, numeral_value,
    read_numeral_in_range, signed_decimal,
};
use crate::Addr;

verus! {

/// The return code from a dcmd.
#[derive(Clone, Copy, Debug)]
pub enum Code {
    /// Command completed successfully.
    Success,
    /// Command failed.
    Failure,
    /// Invalid arguments specified, automatically print usage.
    Usage,
    /// Automatically invoke the next dcmd with the same arguments.
    Next,
    /// Command failed, and the pipeline or loop should be aborted.
    Abort,
}

/// The native value of each return code.
pub open spec fn code_value(c: Code) -> i32 {
    match c {
        Code::Success => DCMD_OK,
        Code::Failure => DCMD_ERR,
        Code::Usage => DCMD_USAGE,
        Code::Next => DCMD_NEXT,
        Code::Abort => DCMD_ABORT,
    }
}

impl Code {
    /// The native integer MDB expects for this code.
    pub fn to_int(self) -> (r: i32)
        ensures
            r == code_value(self),
    {
        match self {
            Code::Success => DCMD_OK,
            Code::Failure => DCMD_ERR,
            Code::Usage => DCMD_USAGE,
            Code::Next => DCMD_NEXT,
            Code::Abort => DCMD_ABORT,
        }
    }
}


/// All flag bits that MDB defines for a dcmd invocation.
pub const FLAG_MASK: u32 = 0x1f;

/// Flags passed to a dcmd.  Only the bits of `FLAG_MASK` are ever set.
#[derive(Clone, Copy, Debug)]
pub struct Flags {
    bits: u32,
}

impl View for Flags {
    type V = u32;

    /// The raw flag bits.
    closed spec fn view(&self) -> u32 {
        self.bits
    }
}

impl Flags {
    #[verifier::type_invariant]
    spec fn only_known_bits(self) -> bool {
        self.bits & FLAG_MASK == self.bits
    }

    /// No flag set.
    pub fn empty() -> (f: Flags)
        ensures
            f@ == 0,
    {
        assert(0u32 & FLAG_MASK == 0u32) by (bit_vector);
        Flags { bits: 0 }
    }

    /// Every defined flag set.
    pub fn all() -> (f: Flags)
        ensures
            f@ == FLAG_MASK,
    {
        assert(FLAG_MASK & FLAG_MASK == FLAG_MASK) by (bit_vector);
        Flags { bits: FLAG_MASK }
    }

    /// An explicit address was specified for the dcmd.
    pub fn addr_spec() -> (f: Flags)
        ensures
            f@ == DCMD_ADDRSPEC,
    {
        assert(DCMD_ADDRSPEC & FLAG_MASK == DCMD_ADDRSPEC) by (bit_vector);
        Flags { bits: DCMD_ADDRSPEC }
    }

    /// The dcmd was invoked in a loop.
    pub fn in_loop() -> (f: Flags)
        ensures
            f@ == DCMD_LOOP,
    {
        assert(DCMD_LOOP & FLAG_MASK == DCMD_LOOP) by (bit_vector);
        Flags { bits: DCMD_LOOP }
    }

    /// This is the first invocation of the dcmd in a loop.
    pub fn loop_first() -> (f: Flags)
        ensures
            f@ == DCMD_LOOPFIRST,
    {
        assert(DCMD_LOOPFIRST & FLAG_MASK == DCMD_LOOPFIRST) by (bit_vector);
        Flags { bits: DCMD_LOOPFIRST }
    }

    /// The dcmd was invoked with input from a pipeline.
    pub fn pipe() -> (f: Flags)
        ensures
            f@ == DCMD_PIPE,
    {
        assert(DCMD_PIPE & FLAG_MASK == DCMD_PIPE) by (bit_vector);
        Flags { bits: DCMD_PIPE }
    }

    /// The dcmd was invoked with output set to a pipeline.
    pub fn pipe_out() -> (f: Flags)
        ensures
            f@ == DCMD_PIPE_OUT,
    {
        assert(DCMD_PIPE_OUT & FLAG_MASK == DCMD_PIPE_OUT) by (bit_vector);
        Flags { bits: DCMD_PIPE_OUT }
    }

    /// Keeps the defined bits of `bits` and drops the others.
    pub fn from_bits_truncate(bits: u32) -> (f: Flags)
        ensures
            f@ == bits & FLAG_MASK,
    {
        let b = bits & FLAG_MASK;
        assert(b & FLAG_MASK == b) by (bit_vector)
            requires
                b == bits & FLAG_MASK,
        ;
        Flags { bits: b }
    }

    /// The flags of `bits`, or `None` when `bits` holds an undefined bit.
    pub fn from_bits(bits: u32) -> (f: Option<Flags>)
        ensures
            f is Some <==> bits & FLAG_MASK == bits,
            f matches Some(g) ==> g@ == bits,
    {
        if bits & FLAG_MASK == bits {
            Some(Flags { bits })
        } else {
            None
        }
    }

    /// The raw bits of these flags.
    pub fn bits(&self) -> (b: u32)
        ensures
            b == self@,
            b & FLAG_MASK == b,
    {
        proof {
            use_type_invariant(self);
        }
        self.bits
    }

    /// Every flag of `other` is set in `self`.
    pub fn contains(&self, other: Flags) -> (r: bool)
        ensures
            r == (self@ & other@ == other@),
    {
        self.bits & other.bits == other.bits
    }

    /// The flags set in either.
    pub fn union(self, other: Flags) -> (f: Flags)
        ensures
            f@ == self@ | other@,
    {
        proof {
            use_type_invariant(&self);
            use_type_invariant(&other);
        }
        let b = self.bits | other.bits;
        let x = self.bits;
        let y = other.bits;
        assert(b & FLAG_MASK == b) by (bit_vector)
            requires
                b == x | y,
                x & FLAG_MASK == x,
                y & FLAG_MASK == y,
        ;
        Flags { bits: b }
    }

    /// No flag is set.
    pub fn is_empty(&self) -> (r: bool)
        ensures
            r == (self@ == 0),
    {
        self.bits == 0
    }

    /// Every defined flag is set.
    pub fn is_all(&self) -> (r: bool)
        ensures
            r == (self@ == FLAG_MASK),
    {
        self.bits == FLAG_MASK
    }

    /// Some flag is set in both.
    pub fn intersects(&self, other: Flags) -> (r: bool)
        ensures
            r == (self@ & other@ != 0),
    {
        self.bits & other.bits != 0
    }

    /// The flags set in both.
    pub fn intersection(self, other: Flags) -> (f: Flags)
        ensures
            f@ == self@ & other@,
    {
        proof {
            use_type_invariant(&self);
        }
        let x = self.bits;
        let y = other.bits;
        let b = x & y;
        assert(b & FLAG_MASK == b) by (bit_vector)
            requires
                b == x & y,
                x & FLAG_MASK == x,
        ;
        Flags { bits: b }
    }

    /// The flags set in `self` and not in `other`.
    pub fn difference(self, other: Flags) -> (f: Flags)
        ensures
            f@ == self@ & !other@,
    {
        proof {
            use_type_invariant(&self);
        }
        let x = self.bits;
        let y = other.bits;
        let b = x & !y;
        assert(b & FLAG_MASK == b) by (bit_vector)
            requires
                b == x & !y,
                x & FLAG_MASK == x,
        ;
        Flags { bits: b }
    }

    /// The flags set in exactly one of the two.
    pub fn symmetric_difference(self, other: Flags) -> (f: Flags)
        ensures
            f@ == self@ ^ other@,
    {
        proof {
            use_type_invariant(&self);
            use_type_invariant(&other);
        }
        let x = self.bits;
        let y = other.bits;
        let b = x ^ y;
        assert(b & FLAG_MASK == b) by (bit_vector)
            requires
                b == x ^ y,
                x & FLAG_MASK == x,
                y & FLAG_MASK == y,
        ;
        Flags { bits: b }
    }

    /// The defined flags not set in `self`.
    pub fn complement(self) -> (f: Flags)
        ensures
            f@ == !self@ & FLAG_MASK,
    {
        let x = self.bits;
        let b = !x & FLAG_MASK;
        assert(b & FLAG_MASK == b) by (bit_vector)
            requires
                b == !x & FLAG_MASK,
        ;
        Flags { bits: b }
    }

    /// Sets the flags of `other`.
    pub fn insert(&mut self, other: Flags)
        ensures
            final(self)@ == old(self)@ | other@,
    {
        let u = self.union(other);
        *self = u;
    }

    /// Clears the flags of `other`.
    pub fn remove(&mut self, other: Flags)
        ensures
            final(self)@ == old(self)@ & !other@,
    {
        let d = self.difference(other);
        *self = d;
    }

    /// Flips the flags of `other`.
    pub fn toggle(&mut self, other: Flags)
        ensures
            final(self)@ == old(self)@ ^ other@,
    {
        let t = self.symmetric_difference(other);
        *self = t;
    }

    /// Sets the flags of `other` when `value` holds, clears them otherwise.
    pub fn set(&mut self, other: Flags, value: bool)
        ensures
            final(self)@ == if value {
                old(self)@ | other@
            } else {
                old(self)@ & !other@
            },
    {
        if value {
            self.insert(other);
        } else {
            self.remove(other);
        }
    }
}

/// A generic argument to a dcmd.
#[derive(Clone, Debug)]
pub enum Arg {
    String(String),
    U64(u64),
}

/// How an argument reads when displayed: the text itself, or the number in
/// decimal.
pub open spec fn arg_text(a: Arg) -> Seq<char> {
    match a {
        Arg::String(s) => s@,
        Arg::U64(x) => decimal(x as nat),
    }
}

/// The integer an argument stands for: an immediate value as it is, a
/// string read as a decimal numeral (see `numeral_value`).
pub open spec fn arg_value(a: Arg, signed: bool) -> Option<int> {
    match a {
        Arg::String(s) => numeral_value(s@, signed),
        Arg::U64(x) => Some(x as int),
    }
}

/// The integer an argument stands for, when it lies in `lo..=hi`.
pub open spec fn arg_in_range(a: Arg, signed: bool, lo: int, hi: int) -> Option<int> {
    match arg_value(a, signed) {
        Some(v) => if lo <= v && v <= hi {
            Some(v)
        } else {
            None
        },
        None => None,
    }
}

impl Arg {
    /// The argument as `Display` would show it.
    pub fn to_string(&self) -> (s: String)
        ensures
            s@ == arg_text(*self),
    {
        match self {
            Arg::String(s) => s.clone(),
            Arg::U64(x) => format_u64(*x),
        }
    }
}

/// The integer `a` stands for, when it lies in `lo..=hi`.
fn int_in_range(a: &Arg, signed: bool, lo: i128, hi: i128) -> (r: Option<i128>)
    requires
        -(u64::MAX as int) <= lo,
        hi <= u64::MAX,
    ensures
        r matches Some(v) ==> arg_in_range(*a, signed, lo as int, hi as int) == Some(v as int),
        r is None ==> arg_in_range(*a, signed, lo as int, hi as int) is None,
{
    match a {
        Arg::String(s) => read_numeral_in_range(s.as_str(), signed, lo, hi),
        Arg::U64(x) => {
            let v = *x as i128;
            if lo <= v && v <= hi {
                Some(v)
            } else {
                None
            }
        },
    }
}

impl TryFrom<Arg> for String {
    type Error = ();

    fn try_from(value: Arg) -> (r: Result<Self, Self::Error>) {
        match value {
            Arg::String(s) => Ok(s),
            Arg::U64(_) => Err(()),
        }
    }
}

impl TryFromSpecImpl<Arg> for String {
    open spec fn obeys_try_from_spec() -> bool {
        true
    }

    open spec fn try_from_spec(v: Arg) -> Result<Self, Self::Error> {
        match v {
            Arg::String(s) => Ok(s),
            Arg::U64(_) => Err(()),
        }
    }
}

impl<'a> TryFrom<&'a Arg> for String {
    type Error = ();

    fn try_from(value: &'a Arg) -> (r: Result<Self, Self::Error>) {
        match value {
            Arg::String(s) => Ok(s.clone()),
            Arg::U64(_) => Err(()),
        }
    }
}

impl<'a> TryFromSpecImpl<&'a Arg> for String {
    open spec fn obeys_try_from_spec() -> bool {
        true
    }

    open spec fn try_from_spec(v: &'a Arg) -> Result<Self, Self::Error> {
        match *v {
            Arg::String(s) => Ok(s),
            Arg::U64(_) => Err(()),
        }
    }
}

impl TryFrom<Arg> for u8 {
    type Error = ();

    fn try_from(value: Arg) -> (r: Result<Self, Self::Error>) {
        match int_in_range(&value, false, 0, 255) {
            Some(v) => Ok(v as u8),
            None => Err(()),
        }
    }
}

impl TryFromSpecImpl<Arg> for u8 {
    open spec fn obeys_try_from_spec() -> bool {
        true
    }

    open spec fn try_from_spec(v: Arg) -> Result<Self, Self::Error> {
        match arg_in_range(v, false, 0, 255) {
            Some(n) => Ok(n as u8),
            None => Err(()),
        }
    }
}

impl<'a> TryFrom<&'a Arg> for u8 {
    type Error = ();

    fn try_from(value: &'a Arg) -> (r: Result<Self, Self::Error>) {
        match int_in_range(value, false, 0, 255) {
            Some(v) => Ok(v as u8),
            None => Err(()),
        }
    }
}

impl<'a> TryFromSpecImpl<&'a Arg> for u8 {
    open spec fn obeys_try_from_spec() -> bool {
        true
    }

    open spec fn try_from_spec(v: &'a Arg) -> Result<Self, Self::Error> {
        match arg_in_range(*v, false, 0, 255) {
            Some(n) => Ok(n as u8),
            None => Err(()),
        }
    }
}

impl TryFrom<Arg> for u16 {
    type Error = ();

    fn try_from(value: Arg) -> (r: Result<Self, Self::Error>) {
        match int_in_range(&value, false, 0, 65535) {
            Some(v) => Ok(v as u16),
            None => Err(()),
        }
    }
}

impl TryFromSpecImpl<Arg> for u16 {
    open spec fn obeys_try_from_spec() -> bool {
        true
    }

    open spec fn try_from_spec(v: Arg) -> Result<Self, Self::Error> {
        match arg_in_range(v, false, 0, 65535) {
            Some(n) => Ok(n as u16),
            None => Err(()),
        }
    }
}

impl<'a> TryFrom<&'a Arg> for u16 {
    type Error = ();

    fn try_from(value: &'a Arg) -> (r: Result<Self, Self::Error>) {
        match int_in_range(value, false, 0, 65535) {
            Some(v) => Ok(v as u16),
            None => Err(()),
        }
    }
}

impl<'a> TryFromSpecImpl<&'a Arg> for u16 {
    open spec fn obeys_try_from_spec() -> bool {
        true
    }

    open spec fn try_from_spec(v: &'a Arg) -> Result<Self, Self::Error> {
        match arg_in_range(*v, false, 0, 65535) {
            Some(n) => Ok(n as u16),
            None => Err(()),
        }
    }
}

impl TryFrom<Arg> for u32 {
    type Error = ();

    fn try_from(value: Arg) -> (r: Result<Self, Self::Error>) {
        match int_in_range(&value, false, 0, 4294967295) {
            Some(v) => Ok(v as u32),
            None => Err(()),
        }
    }
}

impl TryFromSpecImpl<Arg> for u32 {
    open spec fn obeys_try_from_spec() -> bool {
        true
    }

    open spec fn try_from_spec(v: Arg) -> Result<Self, Self::Error> {
        match arg_in_range(v, false, 0, 4294967295) {
            Some(n) => Ok(n as u32),
            None => Err(()),
        }
    }
}

impl<'a> TryFrom<&'a Arg> for u32 {
    type Error = ();

    fn try_from(value: &'a Arg) -> (r: Result<Self, Self::Error>) {
        match int_in_range(value, false, 0, 4294967295) {
            Some(v) => Ok(v as u32),
            None => Err(()),
        }
    }
}

impl<'a> TryFromSpecImpl<&'a Arg> for u32 {
    open spec fn obeys_try_from_spec() -> bool {
        true
    }

    open spec fn try_from_spec(v: &'a Arg) -> Result<Self, Self::Error> {
        match arg_in_range(*v, false, 0, 4294967295) {
            Some(n) => Ok(n as u32),
            None => Err(()),
        }
    }
}

impl TryFrom<Arg> for u64 {
    type Error = ();

    fn try_from(value: Arg) -> (r: Result<Self, Self::Error>) {
        match int_in_range(&value, false, 0, 18446744073709551615) {
            Some(v) => Ok(v as u64),
            None => Err(()),
        }
    }
}

impl TryFromSpecImpl<Arg> for u64 {
    open spec fn obeys_try_from_spec() -> bool {
        true
    }

    open spec fn try_from_spec(v: Arg) -> Result<Self, Self::Error> {
        match arg_in_range(v, false, 0, 18446744073709551615) {
            Some(n) => Ok(n as u64),
            None => Err(()),
        }
    }
}

impl<'a> TryFrom<&'a Arg> for u64 {
    type Error = ();

    fn try_from(value: &'a Arg) -> (r: Result<Self, Self::Error>) {
        match int_in_range(value, false, 0, 18446744073709551615) {
            Some(v) => Ok(v as u64),
            None => Err(()),
        }
    }
}

impl<'a> TryFromSpecImpl<&'a Arg> for u64 {
    open spec fn obeys_try_from_spec() -> bool {
        true
    }

    open spec fn try_from_spec(v: &'a Arg) -> Result<Self, Self::Error> {
        match arg_in_range(*v, false, 0, 18446744073709551615) {
            Some(n) => Ok(n as u64),
            None => Err(()),
        }
    }
}

impl TryFrom<Arg> for i8 {
    type Error = ();

    fn try_from(value: Arg) -> (r: Result<Self, Self::Error>) {
        match int_in_range(&value, true, -128, 127) {
            Some(v) => Ok(v as i8),
            None => Err(()),
        }
    }
}

impl TryFromSpecImpl<Arg> for i8 {
    open spec fn obeys_try_from_spec() -> bool {
        true
    }

    open spec fn try_from_spec(v: Arg) -> Result<Self, Self::Error> {
        match arg_in_range(v, true, -128, 127) {
            Some(n) => Ok(n as i8),
            None => Err(()),
        }
    }
}

impl<'a> TryFrom<&'a Arg> for i8 {
    type Error = ();

    fn try_from(value: &'a Arg) -> (r: Result<Self, Self::Error>) {
        match int_in_range(value, true, -128, 127) {
            Some(v) => Ok(v as i8),
            None => Err(()),
        }
    }
}

impl<'a> TryFromSpecImpl<&'a Arg> for i8 {
    open spec fn obeys_try_from_spec() -> bool {
        true
    }

    open spec fn try_from_spec(v: &'a Arg) -> Result<Self, Self::Error> {
        match arg_in_range(*v, true, -128, 127) {
            Some(n) => Ok(n as i8),
            None => Err(()),
        }
    }
}

impl TryFrom<Arg> for i16 {
    type Error = ();

    fn try_from(value: Arg) -> (r: Result<Self, Self::Error>) {
        match int_in_range(&value, true, -32768, 32767) {
            Some(v) => Ok(v as i16),
            None => Err(()),
        }
    }
}

impl TryFromSpecImpl<Arg> for i16 {
    open spec fn obeys_try_from_spec() -> bool {
        true
    }

    open spec fn try_from_spec(v: Arg) -> Result<Self, Self::Error> {
        match arg_in_range(v, true, -32768, 32767) {
            Some(n) => Ok(n as i16),
            None => Err(()),
        }
    }
}

impl<'a> TryFrom<&'a Arg> for i16 {
    type Error = ();

    fn try_from(value: &'a Arg) -> (r: Result<Self, Self::Error>) {
        match int_in_range(value, true, -32768, 32767) {
            Some(v) => Ok(v as i16),
            None => Err(()),
        }
    }
}

impl<'a> TryFromSpecImpl<&'a Arg> for i16 {
    open spec fn obeys_try_from_spec() -> bool {
        true
    }

    open spec fn try_from_spec(v: &'a Arg) -> Result<Self, Self::Error> {
        match arg_in_range(*v, true, -32768, 32767) {
            Some(n) => Ok(n as i16),
            None => Err(()),
        }
    }
}

impl TryFrom<Arg> for i32 {
    type Error = ();

    fn try_from(value: Arg) -> (r: Result<Self, Self::Error>) {
        match int_in_range(&value, true, -2147483648, 2147483647) {
            Some(v) => Ok(v as i32),
            None => Err(()),
        }
    }
}

impl TryFromSpecImpl<Arg> for i32 {
    open spec fn obeys_try_from_spec() -> bool {
        true
    }

    open spec fn try_from_spec(v: Arg) -> Result<Self, Self::Error> {
        match arg_in_range(v, true, -2147483648, 2147483647) {
            Some(n) => Ok(n as i32),
            None => Err(()),
        }
    }
}

impl<'a> TryFrom<&'a Arg> for i32 {
    type Error = ();

    fn try_from(value: &'a Arg) -> (r: Result<Self, Self::Error>) {
        match int_in_range(value, true, -2147483648, 2147483647) {
            Some(v) => Ok(v as i32),
            None => Err(()),
        }
    }
}

impl<'a> TryFromSpecImpl<&'a Arg> for i32 {
    open spec fn obeys_try_from_spec() -> bool {
        true
    }

    open spec fn try_from_spec(v: &'a Arg) -> Result<Self, Self::Error> {
        match arg_in_range(*v, true, -2147483648, 2147483647) {
            Some(n) => Ok(n as i32),
            None => Err(()),
        }
    }
}

impl TryFrom<Arg> for i64 {
    type Error = ();

    fn try_from(value: Arg) -> (r: Result<Self, Self::Error>) {
        match int_in_range(&value, true, -9223372036854775808, 9223372036854775807) {
            Some(v) => Ok(v as i64),
            None => Err(()),
        }
    }
}

impl TryFromSpecImpl<Arg> for i64 {
    open spec fn obeys_try_from_spec() -> bool {
        true
    }

    open spec fn try_from_spec(v: Arg) -> Result<Self, Self::Error> {
        match arg_in_range(v, true, -9223372036854775808, 9223372036854775807) {
            Some(n) => Ok(n as i64),
            None => Err(()),
        }
    }
}

impl<'a> TryFrom<&'a Arg> for i64 {
    type Error = ();

    fn try_from(value: &'a Arg) -> (r: Result<Self, Self::Error>) {
        match int_in_range(value, true, -9223372036854775808, 9223372036854775807) {
            Some(v) => Ok(v as i64),
            None => Err(()),
        }
    }
}

impl<'a> TryFromSpecImpl<&'a Arg> for i64 {
    open spec fn obeys_try_from_spec() -> bool {
        true
    }

    open spec fn try_from_spec(v: &'a Arg) -> Result<Self, Self::Error> {
        match arg_in_range(*v, true, -9223372036854775808, 9223372036854775807) {
            Some(n) => Ok(n as i64),
            None => Err(()),
        }
    }
}
/// Law: each return code has its own native value, one of 0 to 4.
pub proof fn law_code_values(a: Code, b: Code)
    ensures
        0 <= code_value(a) <= 4,
        code_value(a) == code_value(b) ==> a == b,
{
}

/// Law: dropping undefined bits twice drops no more than once, so every
/// `Flags` value comes back unchanged from `from_bits_truncate(f.bits())`;
/// and `from_bits` accepts exactly the bits with no undefined bit set.
pub proof fn law_flags_truncate(bits: u32)
    ensures
        (bits & FLAG_MASK) & FLAG_MASK == bits & FLAG_MASK,
        (bits & FLAG_MASK == bits) <==> (bits & !FLAG_MASK == 0),
{
    assert((bits & FLAG_MASK) & FLAG_MASK == bits & FLAG_MASK) by (bit_vector);
    assert((bits & FLAG_MASK == bits) <==> (bits & !FLAG_MASK == 0)) by (bit_vector);
}

/// Law: an immediate argument, shown as text and given back as a string
/// argument, stands for the same number.
pub proof fn law_arg_text_round_trip(x: u64, s: String, signed: bool)
    requires
        s@ == arg_text(Arg::U64(x)),
    ensures
        arg_value(Arg::String(s), signed) == Some(x as int),
        arg_value(Arg::String(s), signed) == arg_value(Arg::U64(x), signed),
{
    law_decimal_round_trip(x as nat, signed);
}

/// Law: a string argument holding an integer's decimal numeral converts to
/// that integer for every target type whose range holds it, and fails for
/// every other target; in particular a negative numeral converts to each
/// signed type that holds it and to no unsigned type.
pub proof fn law_numeral_arguments_convert(s: String, n: int)
    requires
        s@ == signed_decimal(n),
    ensures
        <u8 as TryFromSpec<Arg>>::try_from_spec(Arg::String(s)) == if 0 <= n && n <= 255 {
            Ok::<u8, ()>(n as u8)
        } else {
            Err::<u8, ()>(())
        },
        <u8 as TryFromSpec<&Arg>>::try_from_spec(&Arg::String(s)) == if 0 <= n && n <= 255 {
            Ok::<u8, ()>(n as u8)
        } else {
            Err::<u8, ()>(())
        },
        <u16 as TryFromSpec<Arg>>::try_from_spec(Arg::String(s)) == if 0 <= n && n <= 65535 {
            Ok::<u16, ()>(n as u16)
        } else {
            Err::<u16, ()>(())
        },
        <u16 as TryFromSpec<&Arg>>::try_from_spec(&Arg::String(s)) == if 0 <= n && n <= 65535 {
            Ok::<u16, ()>(n as u16)
        } else {
            Err::<u16, ()>(())
        },
        <u32 as TryFromSpec<Arg>>::try_from_spec(Arg::String(s)) == if 0 <= n && n <= 4294967295 {
            Ok::<u32, ()>(n as u32)
        } else {
            Err::<u32, ()>(())
        },
        <u32 as TryFromSpec<&Arg>>::try_from_spec(&Arg::String(s)) == if 0 <= n && n <= 4294967295 {
            Ok::<u32, ()>(n as u32)
        } else {
            Err::<u32, ()>(())
        },
        <u64 as TryFromSpec<Arg>>::try_from_spec(Arg::String(s)) == if 0 <= n && n <= 18446744073709551615 {
            Ok::<u64, ()>(n as u64)
        } else {
            Err::<u64, ()>(())
        },
        <u64 as TryFromSpec<&Arg>>::try_from_spec(&Arg::String(s)) == if 0 <= n && n <= 18446744073709551615 {
            Ok::<u64, ()>(n as u64)
        } else {
            Err::<u64, ()>(())
        },
        <i8 as TryFromSpec<Arg>>::try_from_spec(Arg::String(s)) == if -128 <= n && n <= 127 {
            Ok::<i8, ()>(n as i8)
        } else {
            Err::<i8, ()>(())
        },
        <i8 as TryFromSpec<&Arg>>::try_from_spec(&Arg::String(s)) == if -128 <= n && n <= 127 {
            Ok::<i8, ()>(n as i8)
        } else {
            Err::<i8, ()>(())
        },
        <i16 as TryFromSpec<Arg>>::try_from_spec(Arg::String(s)) == if -32768 <= n && n <= 32767 {
            Ok::<i16, ()>(n as i16)
        } else {
            Err::<i16, ()>(())
        },
        <i16 as TryFromSpec<&Arg>>::try_from_spec(&Arg::String(s)) == if -32768 <= n && n <= 32767 {
            Ok::<i16, ()>(n as i16)
        } else {
            Err::<i16, ()>(())
        },
        <i32 as TryFromSpec<Arg>>::try_from_spec(Arg::String(s)) == if -2147483648 <= n && n <= 2147483647 {
            Ok::<i32, ()>(n as i32)
        } else {
            Err::<i32, ()>(())
        },
        <i32 as TryFromSpec<&Arg>>::try_from_spec(&Arg::String(s)) == if -2147483648 <= n && n <= 2147483647 {
            Ok::<i32, ()>(n as i32)
        } else {
            Err::<i32, ()>(())
        },
        <i64 as TryFromSpec<Arg>>::try_from_spec(Arg::String(s)) == if -9223372036854775808 <= n && n <= 9223372036854775807 {
            Ok::<i64, ()>(n as i64)
        } else {
            Err::<i64, ()>(())
        },
        <i64 as TryFromSpec<&Arg>>::try_from_spec(&Arg::String(s)) == if -9223372036854775808 <= n && n <= 9223372036854775807 {
            Ok::<i64, ()>(n as i64)
        } else {
            Err::<i64, ()>(())
        },
{
    law_signed_decimal_round_trip(n);
}

/// Law: converting an argument by reference gives what converting it by
/// value gives, for every target type.
pub proof fn law_conversions_by_reference(a: Arg)
    ensures
        <String as TryFromSpec<Arg>>::try_from_spec(a) == <String as TryFromSpec<&Arg>>::try_from_spec(&a),
        <u8 as TryFromSpec<Arg>>::try_from_spec(a) == <u8 as TryFromSpec<&Arg>>::try_from_spec(&a),
        <u16 as TryFromSpec<Arg>>::try_from_spec(a) == <u16 as TryFromSpec<&Arg>>::try_from_spec(&a),
        <u32 as TryFromSpec<Arg>>::try_from_spec(a) == <u32 as TryFromSpec<&Arg>>::try_from_spec(&a),
        <u64 as TryFromSpec<Arg>>::try_from_spec(a) == <u64 as TryFromSpec<&Arg>>::try_from_spec(&a),
        <i8 as TryFromSpec<Arg>>::try_from_spec(a) == <i8 as TryFromSpec<&Arg>>::try_from_spec(&a),
        <i16 as TryFromSpec<Arg>>::try_from_spec(a) == <i16 as TryFromSpec<&Arg>>::try_from_spec(&a),
        <i32 as TryFromSpec<Arg>>::try_from_spec(a) == <i32 as TryFromSpec<&Arg>>::try_from_spec(&a),
        <i64 as TryFromSpec<Arg>>::try_from_spec(a) == <i64 as TryFromSpec<&Arg>>::try_from_spec(&a),
{
}

/// An MDB dcmd: a command that can be built from its arguments.
pub trait Dcmd: DcmdFn {
    /// Builds the command from the arguments it was invoked with, or says
    /// why they do not fit.
    fn from_args(args: Vec<Arg>) -> Result<Self, String>
        where Self: Sized
    ;

    /// Extra help text; a command that gives none has the empty text.
    fn help() -> (h: &'static str)
        default_ensures
            h@ == Seq::<char>::empty(),
    {
        proof {
            reveal_strlit("");
        }
        ""
    }
}

/// Trait implementing the actual dcmd operation.
pub trait DcmdFn {
    fn call(&self, addr: Addr, flags: Flags) -> Code;
}

} // verus!
