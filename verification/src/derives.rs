//! The decisions behind the `Walker` and `Dcmd` derives: which names and
//! descriptions a walker registers under, and which argument kinds the
//! fields of a dcmd struct map to.  The token handling around them is done
//! by the macro layer, which describes the input item with the plain types
//! here.

use vstd::prelude::*;
use vstd::string::*;
use vstd::utf8::encode_utf8;

use crate::text::str_equal;

verus! {

/// What heck's snake-case conversion (`heck::AsSnakeCase`) writes for `s`.
pub uninterp spec fn heck_snake_case(s: Seq<char>) -> Seq<char>;

/// Trusted: formats `heck::AsSnakeCase(s)`.  The contract claims only that
/// the result is a function of the characters of `s`, named
/// `heck_snake_case`; heck's word-splitting rules are not restated.
#[verifier::external_body]
fn snake_case(s: &str) -> (r: String)
    ensures
        r@ == heck_snake_case(s@),
{
    heck::AsSnakeCase(s).to_string()
}

/// Whether `c` has the Unicode `White_Space` property, as std's
/// `char::is_whitespace` reports it.
pub uninterp spec fn unicode_white_space(c: char) -> bool;

/// Trusted: std's `char::is_whitespace`.  Its documentation defines the
/// result as the Unicode `White_Space` property of `c`, which the contract
/// names rather than lists.
#[verifier::external_body]
fn char_is_whitespace(c: char) -> (r: bool)
    ensures
        r == unicode_white_space(c),
{
    c.is_whitespace()
}

/// An attribute of the item being derived: the identifiers of its path, and
/// for a `path = value` attribute the value's tokens as text.
pub struct AttrInfo {
    pub path: Vec<String>,
    pub value: Option<String>,
}

/// The text of a doc attribute (`doc = "..."`, with a one-segment path).
pub open spec fn doc_value(a: AttrInfo) -> Option<Seq<char>> {
    match a.value {
        Some(v) => if a.path@.len() == 1 && a.path@[0]@ == "doc"@ {
            Some(v@)
        } else {
            None
        },
        None => None,
    }
}

/// The text of the first doc attribute, or the empty string.
pub open spec fn first_doc(attrs: Seq<AttrInfo>) -> Seq<char>
    decreases attrs.len(),
{
    if attrs.len() == 0 {
        Seq::empty()
    } else {
        match doc_value(attrs[0]) {
            Some(v) => v,
            None => first_doc(attrs.drop_first()),
        }
    }
}

/// A character trimmed from the ends of a description: a quote or white space.
pub open spec fn trimmed_char(c: char) -> bool {
    c == '"' || unicode_white_space(c)
}

/// `s` without its leading trimmed characters.
pub open spec fn trim_start(s: Seq<char>) -> Seq<char>
    decreases s.len(),
{
    if s.len() > 0 && trimmed_char(s[0]) {
        trim_start(s.drop_first())
    } else {
        s
    }
}

/// `s` without its trailing trimmed characters.
pub open spec fn trim_end(s: Seq<char>) -> Seq<char>
    decreases s.len(),
{
    if s.len() > 0 && trimmed_char(s.last()) {
        trim_end(s.drop_last())
    } else {
        s
    }
}

/// `s` with quotes and white space removed from both ends.
pub open spec fn trimmed(s: Seq<char>) -> Seq<char> {
    trim_end(trim_start(s))
}

/// `trim_start` drops exactly the run of trimmed characters at the front.
proof fn lemma_trim_start_split(s: Seq<char>) -> (i: int)
    ensures
        0 <= i <= s.len(),
        trim_start(s) == s.skip(i),
        forall|k: int| 0 <= k < i ==> #[trigger] trimmed_char(s[k]),
        i < s.len() ==> !trimmed_char(s[i]),
    decreases s.len(),
{
    if s.len() > 0 && trimmed_char(s[0]) {
        let j = lemma_trim_start_split(s.drop_first());
        assert(s.drop_first().skip(j) =~= s.skip(j + 1));
        assert forall|k: int| 0 <= k < j + 1 implies #[trigger] trimmed_char(s[k]) by {
            if k > 0 {
                assert(s[k] == s.drop_first()[k - 1]);
            }
        }
        j + 1
    } else {
        assert(s.skip(0) =~= s);
        0
    }
}

/// `trim_end` drops exactly the run of trimmed characters at the back.
proof fn lemma_trim_end_split(s: Seq<char>) -> (j: int)
    ensures
        0 <= j <= s.len(),
        trim_end(s) == s.take(j),
        forall|k: int| j <= k < s.len() ==> #[trigger] trimmed_char(s[k]),
        j > 0 ==> !trimmed_char(s[j - 1]),
    decreases s.len(),
{
    if s.len() > 0 && trimmed_char(s.last()) {
        let j = lemma_trim_end_split(s.drop_last());
        assert(s.drop_last().take(j) =~= s.take(j));
        assert forall|k: int| j <= k < s.len() implies #[trigger] trimmed_char(s[k]) by {
            if k < s.len() - 1 {
                assert(s[k] == s.drop_last()[k]);
            }
        }
        j
    } else {
        assert(s.take(s.len() as int) =~= s);
        s.len() as int
    }
}

/// Law: trimming a description removes only quotes and white space: the
/// result is the stretch of `s` from its first to its last character that is
/// neither a quote nor white space, so every other character, wherever it
/// stands, is kept.
pub proof fn law_trim_removes_only_quotes_and_space(s: Seq<char>)
    ensures
        exists|i: int, j: int|
            {
                &&& 0 <= i <= j <= s.len()
                &&& trimmed(s) == s.subrange(i, j)
                &&& forall|k: int|
                    0 <= k < i ==> #[trigger] s[k] == '"' || unicode_white_space(s[k])
                &&& forall|k: int|
                    j <= k < s.len() ==> #[trigger] s[k] == '"' || unicode_white_space(s[k])
                &&& i < j ==> !(s[i] == '"' || unicode_white_space(s[i]))
                &&& i < j ==> !(s[j - 1] == '"' || unicode_white_space(s[j - 1]))
            },
{
    let i = lemma_trim_start_split(s);
    let t = s.skip(i);
    let j = lemma_trim_end_split(t);
    assert(t.take(j) =~= s.subrange(i, i + j));
    assert forall|k: int| 0 <= k < i implies #[trigger] s[k] == '"' || unicode_white_space(s[k]) by {
        assert(trimmed_char(s[k]));
    }
    assert forall|k: int| i + j <= k < s.len() implies #[trigger] s[k] == '"' || unicode_white_space(
        s[k],
    ) by {
        assert(s[k] == t[k - i]);
        assert(trimmed_char(t[k - i]));
    }
    if j > 0 {
        assert(s[i + j - 1] == t[j - 1]);
        assert(s[i] == t[0]);
        if j == 1 {
        } else {
            assert(t[0] == s[i]);
        }
    }
    assert(i < i + j ==> !(s[i] == '"' || unicode_white_space(s[i])));
    assert(i < i + j ==> !(s[i + j - 1] == '"' || unicode_white_space(s[i + j - 1])));
}

/// The text of the first doc attribute of `attrs`, or "" when none.
pub fn doc_string(attrs: &Vec<AttrInfo>) -> (r: String)
    ensures
        r@ == first_doc(attrs@),
{
    let n = attrs.len();
    let mut i: usize = 0;
    assert(attrs@.skip(0) =~= attrs@);
    while i < n
        invariant
            n == attrs@.len(),
            i <= n,
            first_doc(attrs@) == first_doc(attrs@.skip(i as int)),
        decreases n - i,
    {
        assert(attrs@.skip(i as int)[0] == attrs@[i as int]);
        assert(attrs@.skip(i as int).drop_first() =~= attrs@.skip(i + 1));
        let a = &attrs[i];
        if let Some(v) = &a.value {
            if a.path.len() == 1 && str_equal(a.path[0].as_str(), "doc") {
                return v.clone();
            }
        }
        i = i + 1;
    }
    assert(attrs@.skip(n as int) =~= Seq::<AttrInfo>::empty());
    String::new()
}

/// `trim_start` of a suffix is `trim_start` of the whole, once the part in
/// front consists of trimmed characters only.
proof fn lemma_trim_start_skip(s: Seq<char>, i: int)
    requires
        0 <= i <= s.len(),
        forall|k: int| 0 <= k < i ==> #[trigger] trimmed_char(s[k]),
    ensures
        trim_start(s) == trim_start(s.skip(i)),
    decreases i,
{
    if i > 0 {
        assert(s.drop_first().skip(i - 1) =~= s.skip(i));
        lemma_trim_start_skip(s.drop_first(), i - 1);
    } else {
        assert(s.skip(0) =~= s);
    }
}

/// Symmetrically for the end.
proof fn lemma_trim_end_take(s: Seq<char>, j: int)
    requires
        0 <= j <= s.len(),
        forall|k: int| j <= k < s.len() ==> #[trigger] trimmed_char(s[k]),
    ensures
        trim_end(s) == trim_end(s.take(j)),
    decreases s.len() - j,
{
    if j < s.len() {
        assert(s.drop_last().take(j) =~= s.take(j));
        lemma_trim_end_take(s.drop_last(), j);
    } else {
        assert(s.take(j) =~= s);
    }
}

/// `s` with quotes and white space removed from both ends, as
/// `str::trim_matches` does with that pattern.
pub fn trim_doc(s: &str) -> (r: String)
    ensures
        r@ == trimmed(s@),
{
    let n = s.unicode_len();
    let mut start: usize = 0;
    while start < n && (s.get_char(start) == '"' || char_is_whitespace(s.get_char(start)))
        invariant
            n == s@.len(),
            start <= n,
            forall|k: int| 0 <= k < start ==> #[trigger] trimmed_char(s@[k]),
        decreases n - start,
    {
        start = start + 1;
    }
    proof {
        lemma_trim_start_skip(s@, start as int);
        if start < n {
            assert(!trimmed_char(s@.skip(start as int)[0]));
        } else {
            assert(s@.skip(start as int) =~= Seq::<char>::empty());
        }
    }
    let ghost rest = s@.skip(start as int);
    assert(trim_start(s@) == rest);
    let mut end: usize = n;
    while end > start && (s.get_char(end - 1) == '"' || char_is_whitespace(s.get_char(end - 1)))
        invariant
            n == s@.len(),
            start <= end <= n,
            rest == s@.skip(start as int),
            forall|k: int| end - start <= k < rest.len() ==> #[trigger] trimmed_char(rest[k]),
        decreases end - start,
    {
        assert(rest[end - 1 - start] == s@[end - 1]);
        end = end - 1;
    }
    proof {
        lemma_trim_end_take(rest, end - start);
        let t = rest.take(end - start);
        if end > start {
            assert(t.last() == s@[end - 1]);
            assert(!trimmed_char(t.last()));
        } else {
            assert(t =~= Seq::<char>::empty());
        }
        assert(t =~= s@.subrange(start as int, end as int));
    }
    String::from_str(s.substring_char(start, end))
}

/// The UTF-8 bytes of `s` followed by a NUL byte, as C expects a string.
pub fn nul_terminated(s: &str) -> (r: Vec<u8>)
    ensures
        r@ == encode_utf8(s@).push(0),
{
    let mut bytes = s.as_bytes_vec();
    bytes.push(0);
    bytes
}

/// The names a walker registers under: the name of its init function, its
/// walk name, and its description, the last two as C strings.
pub struct WalkerNames {
    pub init_fn: String,
    pub walk_name: Vec<u8>,
    pub walk_descr: Vec<u8>,
}

/// The names of a walker whose type name in snake case is `snake`: the
/// init function `<snake>_init`, the walk name `snake`, and as description
/// the first doc attribute with quotes and white space trimmed.
pub fn walker_names_from_snake(snake: &str, attrs: &Vec<AttrInfo>) -> (r: WalkerNames)
    ensures
        r.init_fn@ == snake@ + "_init"@,
        r.walk_name@ == encode_utf8(snake@).push(0),
        r.walk_descr@ == encode_utf8(trimmed(first_doc(attrs@))).push(0),
{
    let mut init_fn = String::from_str(snake);
    init_fn.append("_init");
    let doc = doc_string(attrs);
    let descr = trim_doc(doc.as_str());
    WalkerNames {
        init_fn,
        walk_name: nul_terminated(snake),
        walk_descr: nul_terminated(descr.as_str()),
    }
}

/// The names a walker type called `ident` registers under: its name in
/// snake case (by heck) takes the place of `snake` above.
pub fn walker_names(ident: &str, attrs: &Vec<AttrInfo>) -> (r: WalkerNames)
    ensures
        r.init_fn@ == heck_snake_case(ident@) + "_init"@,
        r.walk_name@ == encode_utf8(heck_snake_case(ident@)).push(0),
        r.walk_descr@ == encode_utf8(trimmed(first_doc(attrs@))).push(0),
{
    let snake = snake_case(ident);
    walker_names_from_snake(snake.as_str(), attrs)
}

/// The type of a field of the struct a dcmd is derived for: a path type
/// with the identifiers of its segments, or a type of another form.
pub enum FieldType {
    Path(Vec<String>),
    Other,
}

/// The shape of the item a dcmd is derived for.
pub enum ItemShape {
    /// A struct with named fields, with their types in order.
    NamedStruct(Vec<FieldType>),
    /// A tuple struct or a unit struct.
    UnnamedStruct,
    /// An enum or a union.
    NotStruct,
}

/// The kind of value a dcmd field takes.
#[derive(Clone, Copy, Debug, PartialEq, Eq)]
pub enum DcmdArgType {
    U64,
    String,
    Char,
}

/// Why a dcmd cannot be derived.
#[derive(Clone, Copy, Debug, PartialEq, Eq)]
pub enum DeriveError {
    /// The item is not a struct.
    NotStruct,
    /// The struct's fields are not named.
    UnnamedFields,
    /// The field at this index has a type other than `u64`, `String` or `char`.
    UnsupportedField(usize),
}

impl DeriveError {
    /// The compile error to report.
    pub fn message(&self) -> (m: String)
        ensures
            m@ == derive_error_message(*self),
    {
        match self {
            DeriveError::NotStruct => String::from_str("Dcmd can only be derived for structs"),
            DeriveError::UnnamedFields => String::from_str(
                "Dcmd can only be derived for structs with named fields",
            ),
            DeriveError::UnsupportedField(_) => String::from_str(
                "Unsupported walker type, must be a u64, char, or string",
            ),
        }
    }
}

/// The text of each derive error.
pub open spec fn derive_error_message(e: DeriveError) -> Seq<char> {
    match e {
        DeriveError::NotStruct => "Dcmd can only be derived for structs"@,
        DeriveError::UnnamedFields => "Dcmd can only be derived for structs with named fields"@,
        DeriveError::UnsupportedField(_) => "Unsupported walker type, must be a u64, char, or string"@,
    }
}

/// The argument kind of a field type: a one-segment path `u64`, `String`
/// or `char`.
pub open spec fn field_arg_type(t: FieldType) -> Option<DcmdArgType> {
    match t {
        FieldType::Path(segs) => if segs@.len() == 1 && segs@[0]@ == "u64"@ {
            Some(DcmdArgType::U64)
        } else if segs@.len() == 1 && segs@[0]@ == "String"@ {
            Some(DcmdArgType::String)
        } else if segs@.len() == 1 && segs@[0]@ == "char"@ {
            Some(DcmdArgType::Char)
        } else {
            None
        },
        FieldType::Other => None,
    }
}

/// Law: a field type is accepted only as a one-segment path named exactly
/// `u64`, `String` or `char`, and each of the three names gives its own kind:
/// `u64` an immediate, `String` a string, `char` a character.
pub proof fn law_field_kinds(t: FieldType)
    ensures
        field_arg_type(t) is Some ==> (t matches FieldType::Path(segs) && segs@.len() == 1 && (
        segs@[0]@ == "u64"@ || segs@[0]@ == "String"@ || segs@[0]@ == "char"@)),
        field_arg_type(t) == Some(DcmdArgType::U64) ==> (t matches FieldType::Path(segs)
            && segs@.len() == 1 && segs@[0]@ == "u64"@),
        field_arg_type(t) == Some(DcmdArgType::String) ==> (t matches FieldType::Path(segs)
            && segs@.len() == 1 && segs@[0]@ == "String"@),
        field_arg_type(t) == Some(DcmdArgType::Char) ==> (t matches FieldType::Path(segs)
            && segs@.len() == 1 && segs@[0]@ == "char"@),
        (t matches FieldType::Path(segs) && segs@.len() == 1 && segs@[0]@ == "u64"@) ==> field_arg_type(t)
            == Some(DcmdArgType::U64),
        (t matches FieldType::Path(segs) && segs@.len() == 1 && segs@[0]@ == "String"@)
            ==> field_arg_type(t) == Some(DcmdArgType::String),
        (t matches FieldType::Path(segs) && segs@.len() == 1 && segs@[0]@ == "char"@) ==> field_arg_type(t)
            == Some(DcmdArgType::Char),
{
    reveal_strlit("u64");
    reveal_strlit("String");
    reveal_strlit("char");
    assert("String"@ != "u64"@) by {
        assert("String"@[0] != "u64"@[0]);
    }
    assert("char"@ != "u64"@) by {
        assert("char"@[0] != "u64"@[0]);
    }
    assert("char"@ != "String"@) by {
        assert("char"@[0] != "String"@[0]);
    }
}

/// The argument kind of one field type.
pub fn arg_type_of(t: &FieldType) -> (r: Option<DcmdArgType>)
    ensures
        r == field_arg_type(*t),
{
    match t {
        FieldType::Path(segs) => {
            if segs.len() != 1 {
                None
            } else if str_equal(segs[0].as_str(), "u64") {
                Some(DcmdArgType::U64)
            } else if str_equal(segs[0].as_str(), "String") {
                Some(DcmdArgType::String)
            } else if str_equal(segs[0].as_str(), "char") {
                Some(DcmdArgType::Char)
            } else {
                None
            }
        },
        FieldType::Other => None,
    }
}

/// The argument kinds of a struct's fields, in order, or why a dcmd cannot
/// be derived for the item: it is no struct, its fields are unnamed, or a
/// field (the first such) has an unsupported type.
pub fn dcmd_arg_types(item: &ItemShape) -> (r: Result<Vec<DcmdArgType>, DeriveError>)
    ensures
        *item is NotStruct ==> r == Err::<Vec<DcmdArgType>, DeriveError>(DeriveError::NotStruct),
        *item is UnnamedStruct ==> r == Err::<Vec<DcmdArgType>, DeriveError>(
            DeriveError::UnnamedFields,
        ),
        *item matches ItemShape::NamedStruct(fields) ==> match r {
            Ok(kinds) => {
                &&& kinds@.len() == fields@.len()
                &&& forall|i: int|
                    0 <= i < fields@.len() ==> field_arg_type(fields@[i]) == Some(
                        #[trigger] kinds@[i],
                    )
                &&& forall|i: int|
                    0 <= i < fields@.len() ==> (#[trigger] fields@[i] matches FieldType::Path(segs)
                        && segs@.len() == 1 && (segs@[0]@ == "u64"@ || segs@[0]@ == "String"@
                        || segs@[0]@ == "char"@))
            },
            Err(DeriveError::UnsupportedField(i)) => {
                &&& i < fields@.len()
                &&& field_arg_type(fields@[i as int]) is None
                &&& forall|k: int| 0 <= k < i ==> #[trigger] field_arg_type(fields@[k]) is Some
            },
            Err(_) => false,
        },
{
    match item {
        ItemShape::NotStruct => Err(DeriveError::NotStruct),
        ItemShape::UnnamedStruct => Err(DeriveError::UnnamedFields),
        ItemShape::NamedStruct(fields) => {
            let n = fields.len();
            let mut kinds: Vec<DcmdArgType> = Vec::new();
            let mut i: usize = 0;
            while i < n
                invariant
                    *item == ItemShape::NamedStruct(*fields),
                    n == fields@.len(),
                    i <= n,
                    kinds@.len() == i,
                    forall|k: int|
                        0 <= k < i ==> field_arg_type(fields@[k]) == Some(#[trigger] kinds@[k]),
                    forall|k: int|
                        0 <= k < i ==> (#[trigger] fields@[k] matches FieldType::Path(segs)
                            && segs@.len() == 1 && (segs@[0]@ == "u64"@ || segs@[0]@ == "String"@
                            || segs@[0]@ == "char"@)),
                decreases n - i,
            {
                proof {
                    law_field_kinds(fields@[i as int]);
                }
                match arg_type_of(&fields[i]) {
                    Some(t) => {
                        kinds.push(t);
                    },
                    None => {
                        assert forall|k: int| 0 <= k < i implies #[trigger] field_arg_type(
                            fields@[k],
                        ) is Some by {
                            assert(field_arg_type(fields@[k]) == Some(kinds@[k]));
                        }
                        return Err(DeriveError::UnsupportedField(i));
                    },
                }
                i = i + 1;
            }
            Ok(kinds)
        },
    }
}

} // verus!
