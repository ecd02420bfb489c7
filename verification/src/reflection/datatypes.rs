//! Normalized SQL datatypes, their parser, and the total projections into
//! JSON-shape and native-type descriptions.

use crate::strutil::clone_string_vec;
use crate::strutil::{
    contains_char, contains_unsigned, find_char, find_unsigned, first_index_of, last_index_of,
    parse_u32, rfind_char, spec_parse_u32, split_commas, split_options, split_trimmed, str_eq,
    trim_quotes,
};
use vstd::prelude::*;

verus! {

/// Signedness of a numeric SQL type.
#[derive(Clone, Copy, Debug, PartialEq, Eq, Structural)]
pub enum SqlSigned {
    Signed,
    Unsigned,
}

impl Default for SqlSigned {
    /// Numeric types are signed unless the descriptor says otherwise.
    fn default() -> (r: SqlSigned)
        ensures
            r == SqlSigned::Signed,
    {
        SqlSigned::Signed
    }
}

/// Marker for a descriptor string the parser does not understand.
#[derive(Clone, Copy, Debug, PartialEq, Eq, Structural)]
pub struct ParseDatatypeError;

/// A normalized SQL column datatype.
#[derive(Debug, PartialEq)]
pub enum SqlDatatype {
    Tinyint(u32, SqlSigned),
    Smallint(u32, SqlSigned),
    Mediumint(u32, SqlSigned),
    Int(u32, SqlSigned),
    Bigint(u32, SqlSigned),
    Float(u32, u32, SqlSigned),
    Double(u32, u32, SqlSigned),
    Decimal(u32, u32, SqlSigned),
    Date,
    Time,
    Datetime,
    Timestamp,
    Char(u32),
    Varchar(u32),
    Text(u32),
    Binary(u32),
    Varbinary(u32),
    Enum(Vec<String>),
    SetType(Vec<String>),
}

/// The abstract value of a [`SqlDatatype`]: option lists become sequences
/// of character sequences.
pub enum SqlDatatypeView {
    Tinyint(u32, SqlSigned),
    Smallint(u32, SqlSigned),
    Mediumint(u32, SqlSigned),
    Int(u32, SqlSigned),
    Bigint(u32, SqlSigned),
    Float(u32, u32, SqlSigned),
    Double(u32, u32, SqlSigned),
    Decimal(u32, u32, SqlSigned),
    Date,
    Time,
    Datetime,
    Timestamp,
    Char(u32),
    Varchar(u32),
    Text(u32),
    Binary(u32),
    Varbinary(u32),
    Enum(Seq<Seq<char>>),
    SetType(Seq<Seq<char>>),
}

impl View for SqlDatatype {
    type V = SqlDatatypeView;

    open spec fn view(&self) -> SqlDatatypeView {
        match self {
            SqlDatatype::Tinyint(l, s) => SqlDatatypeView::Tinyint(*l, *s),
            SqlDatatype::Smallint(l, s) => SqlDatatypeView::Smallint(*l, *s),
            SqlDatatype::Mediumint(l, s) => SqlDatatypeView::Mediumint(*l, *s),
            SqlDatatype::Int(l, s) => SqlDatatypeView::Int(*l, *s),
            SqlDatatype::Bigint(l, s) => SqlDatatypeView::Bigint(*l, *s),
            SqlDatatype::Float(l, d, s) => SqlDatatypeView::Float(*l, *d, *s),
            SqlDatatype::Double(l, d, s) => SqlDatatypeView::Double(*l, *d, *s),
            SqlDatatype::Decimal(l, d, s) => SqlDatatypeView::Decimal(*l, *d, *s),
            SqlDatatype::Date => SqlDatatypeView::Date,
            SqlDatatype::Time => SqlDatatypeView::Time,
            SqlDatatype::Datetime => SqlDatatypeView::Datetime,
            SqlDatatype::Timestamp => SqlDatatypeView::Timestamp,
            SqlDatatype::Char(l) => SqlDatatypeView::Char(*l),
            SqlDatatype::Varchar(l) => SqlDatatypeView::Varchar(*l),
            SqlDatatype::Text(l) => SqlDatatypeView::Text(*l),
            SqlDatatype::Binary(l) => SqlDatatypeView::Binary(*l),
            SqlDatatype::Varbinary(l) => SqlDatatypeView::Varbinary(*l),
            SqlDatatype::Enum(v) => SqlDatatypeView::Enum(v.deep_view()),
            SqlDatatype::SetType(v) => SqlDatatypeView::SetType(v.deep_view()),
        }
    }
}

impl Clone for SqlDatatype {
    fn clone(&self) -> (res: Self)
        ensures
            res@ == self@,
    {
        match self {
            SqlDatatype::Tinyint(l, s) => SqlDatatype::Tinyint(*l, *s),
            SqlDatatype::Smallint(l, s) => SqlDatatype::Smallint(*l, *s),
            SqlDatatype::Mediumint(l, s) => SqlDatatype::Mediumint(*l, *s),
            SqlDatatype::Int(l, s) => SqlDatatype::Int(*l, *s),
            SqlDatatype::Bigint(l, s) => SqlDatatype::Bigint(*l, *s),
            SqlDatatype::Float(l, d, s) => SqlDatatype::Float(*l, *d, *s),
            SqlDatatype::Double(l, d, s) => SqlDatatype::Double(*l, *d, *s),
            SqlDatatype::Decimal(l, d, s) => SqlDatatype::Decimal(*l, *d, *s),
            SqlDatatype::Date => SqlDatatype::Date,
            SqlDatatype::Time => SqlDatatype::Time,
            SqlDatatype::Datetime => SqlDatatype::Datetime,
            SqlDatatype::Timestamp => SqlDatatype::Timestamp,
            SqlDatatype::Char(l) => SqlDatatype::Char(*l),
            SqlDatatype::Varchar(l) => SqlDatatype::Varchar(*l),
            SqlDatatype::Text(l) => SqlDatatype::Text(*l),
            SqlDatatype::Binary(l) => SqlDatatype::Binary(*l),
            SqlDatatype::Varbinary(l) => SqlDatatype::Varbinary(*l),
            SqlDatatype::Enum(v) => SqlDatatype::Enum(clone_string_vec(v)),
            SqlDatatype::SetType(v) => SqlDatatype::SetType(clone_string_vec(v)),
        }
    }
}

impl Default for SqlDatatype {
    /// The structural default type, used only as an explicit fallback.
    fn default() -> (r: SqlDatatype)
        ensures
            r@ == SqlDatatypeView::Varchar(45),
    {
        SqlDatatype::Varchar(45)
    }
}

/// A JSON-compatible value, as a catalog default literal is recorded.
#[derive(Debug, PartialEq)]
pub enum JsonValue {
    Null,
    Bool(bool),
    Num(i64),
    Str(String),
}

/// The abstract value of a [`JsonValue`].
pub enum JsonValueView {
    Null,
    Bool(bool),
    Num(i64),
    Str(Seq<char>),
}

impl View for JsonValue {
    type V = JsonValueView;

    open spec fn view(&self) -> JsonValueView {
        match self {
            JsonValue::Null => JsonValueView::Null,
            JsonValue::Bool(b) => JsonValueView::Bool(*b),
            JsonValue::Num(n) => JsonValueView::Num(*n),
            JsonValue::Str(s) => JsonValueView::Str(s@),
        }
    }
}

impl Clone for JsonValue {
    fn clone(&self) -> (res: Self)
        ensures
            res@ == self@,
    {
        match self {
            JsonValue::Null => JsonValue::Null,
            JsonValue::Bool(b) => JsonValue::Bool(*b),
            JsonValue::Num(n) => JsonValue::Num(*n),
            JsonValue::Str(s) => JsonValue::Str(s.clone()),
        }
    }
}

/// A column's default value: either the SQL `NULL` or a literal.
#[derive(Debug, PartialEq)]
pub enum DefaultValue {
    Null,
    Value(JsonValue),
}

/// The abstract value of a [`DefaultValue`].
pub enum DefaultValueView {
    Null,
    Value(JsonValueView),
}

impl View for DefaultValue {
    type V = DefaultValueView;

    open spec fn view(&self) -> DefaultValueView {
        match self {
            DefaultValue::Null => DefaultValueView::Null,
            DefaultValue::Value(v) => DefaultValueView::Value(v@),
        }
    }
}

impl Clone for DefaultValue {
    fn clone(&self) -> (res: Self)
        ensures
            res@ == self@,
    {
        match self {
            DefaultValue::Null => DefaultValue::Null,
            DefaultValue::Value(v) => DefaultValue::Value(v.clone()),
        }
    }
}

impl Default for DefaultValue {
    /// Absent catalog defaults are recorded as the SQL `NULL`.
    fn default() -> (r: DefaultValue)
        ensures
            r@ == DefaultValueView::Null,
    {
        DefaultValue::Null
    }
}

/// JSON number shapes.
#[derive(Clone, Copy, Debug, PartialEq, Eq, Structural)]
pub enum JsonNumber {
    Number,
    BigInt,
    Int,
    Float,
}

/// JSON string shapes.
#[derive(Clone, Copy, Debug, PartialEq, Eq, Structural)]
pub enum JsonString {
    String,
    Datetime,
    Date,
    Time,
    Json,
}

/// The JSON-shape description of a column datatype.
#[derive(Debug, PartialEq)]
pub enum JsonDatatype {
    Number(JsonNumber),
    String(JsonString, Option<u32>),
    Boolean,
    Array(Vec<String>),
    Object(JsonValue),
}

/// The abstract value of a [`JsonDatatype`].
pub enum JsonDatatypeView {
    Number(JsonNumber),
    String(JsonString, Option<u32>),
    Boolean,
    Array(Seq<Seq<char>>),
    Object(JsonValueView),
}

impl View for JsonDatatype {
    type V = JsonDatatypeView;

    open spec fn view(&self) -> JsonDatatypeView {
        match self {
            JsonDatatype::Number(n) => JsonDatatypeView::Number(*n),
            JsonDatatype::String(s, l) => JsonDatatypeView::String(*s, *l),
            JsonDatatype::Boolean => JsonDatatypeView::Boolean,
            JsonDatatype::Array(v) => JsonDatatypeView::Array(v.deep_view()),
            JsonDatatype::Object(v) => JsonDatatypeView::Object(v@),
        }
    }
}

impl Clone for JsonDatatype {
    fn clone(&self) -> (res: Self)
        ensures
            res@ == self@,
    {
        match self {
            JsonDatatype::Number(n) => JsonDatatype::Number(*n),
            JsonDatatype::String(s, l) => JsonDatatype::String(*s, *l),
            JsonDatatype::Boolean => JsonDatatype::Boolean,
            JsonDatatype::Array(v) => JsonDatatype::Array(clone_string_vec(v)),
            JsonDatatype::Object(v) => JsonDatatype::Object(v.clone()),
        }
    }
}

impl Default for JsonDatatype {
    /// The default JSON shape: an unbounded plain string.
    fn default() -> (r: JsonDatatype)
        ensures
            r@ == JsonDatatypeView::String(JsonString::String, None::<u32>),
    {
        JsonDatatype::String(JsonString::String, None)
    }
}

/// name of the native string type
pub const RUST_TYPE_STRING: &'static str = "String";

/// name of the native signed 32-bit integer type
pub const RUST_TYPE_I32: &'static str = "i32";

/// name of the native signed 64-bit integer type
pub const RUST_TYPE_I64: &'static str = "i64";

/// name of the native unsigned 32-bit integer type
pub const RUST_TYPE_U32: &'static str = "u32";

/// name of the native unsigned 64-bit integer type
pub const RUST_TYPE_U64: &'static str = "u64";

/// name of the native 32-bit float type
pub const RUST_TYPE_F32: &'static str = "f32";

/// name of the native 64-bit float type
pub const RUST_TYPE_F64: &'static str = "f64";

/// name of the native boolean type
pub const RUST_TYPE_BOOL: &'static str = "bool";

/// name of the native string list type
pub const RUST_TYPE_VEC: &'static str = "Vec<String>";

/// The native-type description of a column datatype: a primitive type
/// name plus an optional auxiliary length or precision.
#[derive(Debug, PartialEq)]
pub struct RustDatatype(pub String, pub Option<u32>);

impl View for RustDatatype {
    type V = (Seq<char>, Option<u32>);

    open spec fn view(&self) -> (Seq<char>, Option<u32>) {
        (self.0@, self.1)
    }
}

impl Clone for RustDatatype {
    fn clone(&self) -> (res: Self)
        ensures
            res@ == self@,
    {
        RustDatatype(self.0.clone(), self.1)
    }
}

impl Default for RustDatatype {
    /// The default native type: an unbounded string.
    fn default() -> (r: RustDatatype)
        ensures
            r@ == (RUST_TYPE_STRING@, None::<u32>),
    {
        RustDatatype(RUST_TYPE_STRING.to_owned(), None)
    }
}

/// `n` reduced to 32 bits the way a narrowing cast reduces it.
pub open spec fn as_u32(n: int) -> u32 {
    n as u32
}

/// Signedness of a datatype, where it has one.
pub open spec fn spec_sign(dt: SqlDatatypeView) -> Option<SqlSigned> {
    match dt {
        SqlDatatypeView::Tinyint(_, s) => Some(s),
        SqlDatatypeView::Smallint(_, s) => Some(s),
        SqlDatatypeView::Mediumint(_, s) => Some(s),
        SqlDatatypeView::Int(_, s) => Some(s),
        SqlDatatypeView::Bigint(_, s) => Some(s),
        SqlDatatypeView::Float(_, _, s) => Some(s),
        SqlDatatypeView::Double(_, _, s) => Some(s),
        SqlDatatypeView::Decimal(_, _, s) => Some(s),
        _ => None,
    }
}

/// Declared length of a datatype, where it has one; for option lists it
/// is the option count.
pub open spec fn spec_len(dt: SqlDatatypeView) -> Option<u32> {
    match dt {
        SqlDatatypeView::Tinyint(l, _) => Some(l),
        SqlDatatypeView::Smallint(l, _) => Some(l),
        SqlDatatypeView::Mediumint(l, _) => Some(l),
        SqlDatatypeView::Int(l, _) => Some(l),
        SqlDatatypeView::Bigint(l, _) => Some(l),
        SqlDatatypeView::Float(l, _, _) => Some(l),
        SqlDatatypeView::Double(l, _, _) => Some(l),
        SqlDatatypeView::Decimal(l, _, _) => Some(l),
        SqlDatatypeView::Char(l) => Some(l),
        SqlDatatypeView::Varchar(l) => Some(l),
        SqlDatatypeView::Text(l) => Some(l),
        SqlDatatypeView::Binary(l) => Some(l),
        SqlDatatypeView::Varbinary(l) => Some(l),
        SqlDatatypeView::Enum(v) => Some(as_u32(v.len() as int)),
        SqlDatatypeView::SetType(v) => Some(as_u32(v.len() as int)),
        _ => None,
    }
}

/// The datatype is one of the character types.
pub open spec fn spec_is_text(dt: SqlDatatypeView) -> bool {
    match dt {
        SqlDatatypeView::Text(_) => true,
        SqlDatatypeView::Varchar(_) => true,
        SqlDatatypeView::Char(_) => true,
        _ => false,
    }
}

impl SqlDatatype {
    /// Get datatype sign
    pub fn sign(&self) -> (r: Option<SqlSigned>)
        ensures
            r == spec_sign(self@),
    {
        match self {
            SqlDatatype::Tinyint(_, s) => Some(*s),
            SqlDatatype::Smallint(_, s) => Some(*s),
            SqlDatatype::Mediumint(_, s) => Some(*s),
            SqlDatatype::Int(_, s) => Some(*s),
            SqlDatatype::Bigint(_, s) => Some(*s),
            SqlDatatype::Float(_, _, s) => Some(*s),
            SqlDatatype::Double(_, _, s) => Some(*s),
            SqlDatatype::Decimal(_, _, s) => Some(*s),
            _ => None,
        }
    }

    /// Get datatype length
    pub fn len(&self) -> (r: Option<u32>)
        ensures
            r == spec_len(self@),
    {
        match self {
            SqlDatatype::Tinyint(l, _) => Some(*l),
            SqlDatatype::Smallint(l, _) => Some(*l),
            SqlDatatype::Mediumint(l, _) => Some(*l),
            SqlDatatype::Int(l, _) => Some(*l),
            SqlDatatype::Bigint(l, _) => Some(*l),
            SqlDatatype::Float(l, _, _) => Some(*l),
            SqlDatatype::Double(l, _, _) => Some(*l),
            SqlDatatype::Decimal(l, _, _) => Some(*l),
            SqlDatatype::Char(l) => Some(*l),
            SqlDatatype::Varchar(l) => Some(*l),
            SqlDatatype::Text(l) => Some(*l),
            SqlDatatype::Binary(l) => Some(*l),
            SqlDatatype::Varbinary(l) => Some(*l),
            SqlDatatype::Enum(v) => Some(#[verifier::truncate] (v.len() as u32)),
            SqlDatatype::SetType(v) => Some(#[verifier::truncate] (v.len() as u32)),
            _ => None,
        }
    }

    /// Check if column datatype is one of the character types
    pub fn is_text(&self) -> (r: bool)
        ensures
            r == spec_is_text(self@),
    {
        match self {
            SqlDatatype::Text(_) => true,
            SqlDatatype::Varchar(_) => true,
            SqlDatatype::Char(_) => true,
            _ => false,
        }
    }
}

/// The JSON shape of every SQL datatype: `tinyint(1) unsigned` is a
/// boolean, other small integers are numbers, `bigint` a big integer,
/// inexact numerics are floats, temporal types are strings with a fixed
/// canonical length, character and binary types are strings with their
/// declared length, and option lists become arrays.
pub open spec fn spec_json_of(dt: SqlDatatypeView) -> JsonDatatypeView {
    match dt {
        SqlDatatypeView::Tinyint(l, s) => if l == 1 && s == SqlSigned::Unsigned {
            JsonDatatypeView::Boolean
        } else {
            JsonDatatypeView::Number(JsonNumber::Int)
        },
        SqlDatatypeView::Smallint(_, _) => JsonDatatypeView::Number(JsonNumber::Int),
        SqlDatatypeView::Mediumint(_, _) => JsonDatatypeView::Number(JsonNumber::Int),
        SqlDatatypeView::Int(_, _) => JsonDatatypeView::Number(JsonNumber::Int),
        SqlDatatypeView::Bigint(_, _) => JsonDatatypeView::Number(JsonNumber::BigInt),
        SqlDatatypeView::Float(_, _, _) => JsonDatatypeView::Number(JsonNumber::Float),
        SqlDatatypeView::Double(_, _, _) => JsonDatatypeView::Number(JsonNumber::Float),
        SqlDatatypeView::Decimal(_, _, _) => JsonDatatypeView::Number(JsonNumber::Float),
        SqlDatatypeView::Date => JsonDatatypeView::String(JsonString::Date, Some(10)),
        SqlDatatypeView::Time => JsonDatatypeView::String(JsonString::Time, Some(8)),
        SqlDatatypeView::Datetime => JsonDatatypeView::String(JsonString::Datetime, Some(20)),
        SqlDatatypeView::Timestamp => JsonDatatypeView::String(JsonString::Datetime, Some(20)),
        SqlDatatypeView::Char(l) => JsonDatatypeView::String(JsonString::String, Some(l)),
        SqlDatatypeView::Varchar(l) => JsonDatatypeView::String(JsonString::String, Some(l)),
        SqlDatatypeView::Text(l) => JsonDatatypeView::String(JsonString::String, Some(l)),
        SqlDatatypeView::Binary(l) => JsonDatatypeView::String(JsonString::String, Some(l)),
        SqlDatatypeView::Varbinary(l) => JsonDatatypeView::String(JsonString::String, Some(l)),
        SqlDatatypeView::Enum(v) => JsonDatatypeView::Array(v),
        SqlDatatypeView::SetType(v) => JsonDatatypeView::Array(v),
    }
}

/// Length in characters of the longest option literal, reduced to 32
/// bits.
pub open spec fn spec_longest_option(opts: Seq<Seq<char>>) -> u32
    decreases opts.len(),
{
    if opts.len() == 0 {
        0
    } else {
        let rest = spec_longest_option(opts.drop_last());
        let l = as_u32(opts.last().len() as int);
        if l > rest {
            l
        } else {
            rest
        }
    }
}

/// The native type of every SQL datatype: `tinyint(1)` of either sign is
/// a boolean, other integers map to 32- or 64-bit integers of the
/// declared sign with the declared length as auxiliary, inexact numerics
/// map to floats carrying the scale, temporal types to strings with the
/// canonical length, character and binary types to strings with the
/// declared length, an enumeration to a string as wide as its longest
/// option, and a set to a list of strings carrying the option count.
pub open spec fn spec_rust_of(dt: SqlDatatypeView) -> (Seq<char>, Option<u32>) {
    match dt {
        SqlDatatypeView::Tinyint(l, s) => if l == 1 {
            (RUST_TYPE_BOOL@, None)
        } else if s == SqlSigned::Unsigned {
            (RUST_TYPE_U32@, Some(l))
        } else {
            (RUST_TYPE_I32@, Some(l))
        },
        SqlDatatypeView::Smallint(l, s) => if s == SqlSigned::Unsigned {
            (RUST_TYPE_U32@, Some(l))
        } else {
            (RUST_TYPE_I32@, Some(l))
        },
        SqlDatatypeView::Mediumint(l, s) => if s == SqlSigned::Unsigned {
            (RUST_TYPE_U32@, Some(l))
        } else {
            (RUST_TYPE_I32@, Some(l))
        },
        SqlDatatypeView::Int(l, s) => if s == SqlSigned::Unsigned {
            (RUST_TYPE_U32@, Some(l))
        } else {
            (RUST_TYPE_I32@, Some(l))
        },
        SqlDatatypeView::Bigint(l, s) => if s == SqlSigned::Unsigned {
            (RUST_TYPE_U64@, Some(l))
        } else {
            (RUST_TYPE_I64@, Some(l))
        },
        SqlDatatypeView::Float(_, d, _) => (RUST_TYPE_F32@, Some(d)),
        SqlDatatypeView::Double(_, d, _) => (RUST_TYPE_F64@, Some(d)),
        SqlDatatypeView::Decimal(_, d, _) => (RUST_TYPE_F64@, Some(d)),
        SqlDatatypeView::Date => (RUST_TYPE_STRING@, Some(10)),
        SqlDatatypeView::Time => (RUST_TYPE_STRING@, Some(8)),
        SqlDatatypeView::Datetime => (RUST_TYPE_STRING@, Some(20)),
        SqlDatatypeView::Timestamp => (RUST_TYPE_STRING@, Some(20)),
        SqlDatatypeView::Char(l) => (RUST_TYPE_STRING@, Some(l)),
        SqlDatatypeView::Varchar(l) => (RUST_TYPE_STRING@, Some(l)),
        SqlDatatypeView::Text(l) => (RUST_TYPE_STRING@, Some(l)),
        SqlDatatypeView::Binary(l) => (RUST_TYPE_STRING@, Some(l)),
        SqlDatatypeView::Varbinary(l) => (RUST_TYPE_STRING@, Some(l)),
        SqlDatatypeView::Enum(v) => (RUST_TYPE_STRING@, Some(spec_longest_option(v))),
        SqlDatatypeView::SetType(v) => (RUST_TYPE_VEC@, Some(as_u32(v.len() as int))),
    }
}

impl JsonDatatype {
    /// The JSON-shape description of `dt`, following `spec_json_of`.
    pub fn from_sql(dt: &SqlDatatype) -> (r: JsonDatatype)
        ensures
            r@ == spec_json_of(dt@),
    {
        match dt {
            SqlDatatype::Tinyint(l, s) => {
                if *l == 1 && matches!(s, SqlSigned::Unsigned) {
                    JsonDatatype::Boolean
                } else {
                    JsonDatatype::Number(JsonNumber::Int)
                }
            },
            SqlDatatype::Smallint(_, _) => JsonDatatype::Number(JsonNumber::Int),
            SqlDatatype::Mediumint(_, _) => JsonDatatype::Number(JsonNumber::Int),
            SqlDatatype::Int(_, _) => JsonDatatype::Number(JsonNumber::Int),
            SqlDatatype::Bigint(_, _) => JsonDatatype::Number(JsonNumber::BigInt),
            SqlDatatype::Float(_, _, _) => JsonDatatype::Number(JsonNumber::Float),
            SqlDatatype::Double(_, _, _) => JsonDatatype::Number(JsonNumber::Float),
            SqlDatatype::Decimal(_, _, _) => JsonDatatype::Number(JsonNumber::Float),
            SqlDatatype::Date => JsonDatatype::String(JsonString::Date, Some(10)),
            SqlDatatype::Time => JsonDatatype::String(JsonString::Time, Some(8)),
            SqlDatatype::Datetime => JsonDatatype::String(JsonString::Datetime, Some(20)),
            SqlDatatype::Timestamp => JsonDatatype::String(JsonString::Datetime, Some(20)),
            SqlDatatype::Char(l) => JsonDatatype::String(JsonString::String, Some(*l)),
            SqlDatatype::Varchar(l) => JsonDatatype::String(JsonString::String, Some(*l)),
            SqlDatatype::Text(l) => JsonDatatype::String(JsonString::String, Some(*l)),
            SqlDatatype::Binary(l) => JsonDatatype::String(JsonString::String, Some(*l)),
            SqlDatatype::Varbinary(l) => JsonDatatype::String(JsonString::String, Some(*l)),
            SqlDatatype::Enum(v) => JsonDatatype::Array(clone_string_vec(v)),
            SqlDatatype::SetType(v) => JsonDatatype::Array(clone_string_vec(v)),
        }
    }
}

/// Length in characters of the longest string in `v`, reduced to 32 bits.
fn longest_option(v: &Vec<String>) -> (r: u32)
    ensures
        r == spec_longest_option(v.deep_view()),
{
    let n = v.len();
    let mut ac: u32 = 0;
    let mut i: usize = 0;
    proof {
        assert(v.deep_view().subrange(0, 0) =~= Seq::<Seq<char>>::empty());
    }
    while i < n
        invariant
            n == v@.len(),
            0 <= i <= n,
            ac == spec_longest_option(v.deep_view().subrange(0, i as int)),
        decreases n - i,
    {
        let l = #[verifier::truncate] (v[i].as_str().unicode_len() as u32);
        proof {
            let dv = v.deep_view();
            assert(dv[i as int] == v@[i as int]@);
            assert(dv.subrange(0, i as int + 1).drop_last() =~= dv.subrange(0, i as int));
            assert(dv.subrange(0, i as int + 1).last() == dv[i as int]);
        }
        if l > ac {
            ac = l;
        }
        i = i + 1;
    }
    proof {
        assert(v.deep_view().subrange(0, n as int) =~= v.deep_view());
    }
    ac
}

impl RustDatatype {
    /// The native-type description of `dt`, following `spec_rust_of`.
    pub fn from_sql(dt: &SqlDatatype) -> (r: RustDatatype)
        ensures
            r@ == spec_rust_of(dt@),
    {
        match dt {
            SqlDatatype::Tinyint(l, s) => {
                if *l == 1 {
                    RustDatatype(RUST_TYPE_BOOL.to_owned(), None)
                } else if matches!(s, SqlSigned::Unsigned) {
                    RustDatatype(RUST_TYPE_U32.to_owned(), Some(*l))
                } else {
                    RustDatatype(RUST_TYPE_I32.to_owned(), Some(*l))
                }
            },
            SqlDatatype::Smallint(l, s) => {
                if matches!(s, SqlSigned::Unsigned) {
                    RustDatatype(RUST_TYPE_U32.to_owned(), Some(*l))
                } else {
                    RustDatatype(RUST_TYPE_I32.to_owned(), Some(*l))
                }
            },
            SqlDatatype::Mediumint(l, s) => {
                if matches!(s, SqlSigned::Unsigned) {
                    RustDatatype(RUST_TYPE_U32.to_owned(), Some(*l))
                } else {
                    RustDatatype(RUST_TYPE_I32.to_owned(), Some(*l))
                }
            },
            SqlDatatype::Int(l, s) => {
                if matches!(s, SqlSigned::Unsigned) {
                    RustDatatype(RUST_TYPE_U32.to_owned(), Some(*l))
                } else {
                    RustDatatype(RUST_TYPE_I32.to_owned(), Some(*l))
                }
            },
            SqlDatatype::Bigint(l, s) => {
                if matches!(s, SqlSigned::Unsigned) {
                    RustDatatype(RUST_TYPE_U64.to_owned(), Some(*l))
                } else {
                    RustDatatype(RUST_TYPE_I64.to_owned(), Some(*l))
                }
            },
            SqlDatatype::Float(_, d, _) => RustDatatype(RUST_TYPE_F32.to_owned(), Some(*d)),
            SqlDatatype::Double(_, d, _) => RustDatatype(RUST_TYPE_F64.to_owned(), Some(*d)),
            SqlDatatype::Decimal(_, d, _) => RustDatatype(RUST_TYPE_F64.to_owned(), Some(*d)),
            SqlDatatype::Date => RustDatatype(RUST_TYPE_STRING.to_owned(), Some(10)),
            SqlDatatype::Time => RustDatatype(RUST_TYPE_STRING.to_owned(), Some(8)),
            SqlDatatype::Datetime => RustDatatype(RUST_TYPE_STRING.to_owned(), Some(20)),
            SqlDatatype::Timestamp => RustDatatype(RUST_TYPE_STRING.to_owned(), Some(20)),
            SqlDatatype::Char(l) => RustDatatype(RUST_TYPE_STRING.to_owned(), Some(*l)),
            SqlDatatype::Varchar(l) => RustDatatype(RUST_TYPE_STRING.to_owned(), Some(*l)),
            SqlDatatype::Text(l) => RustDatatype(RUST_TYPE_STRING.to_owned(), Some(*l)),
            SqlDatatype::Binary(l) => RustDatatype(RUST_TYPE_STRING.to_owned(), Some(*l)),
            SqlDatatype::Varbinary(l) => RustDatatype(RUST_TYPE_STRING.to_owned(), Some(*l)),
            SqlDatatype::Enum(v) => RustDatatype(
                RUST_TYPE_STRING.to_owned(),
                Some(longest_option(v)),
            ),
            SqlDatatype::SetType(v) => RustDatatype(
                RUST_TYPE_VEC.to_owned(),
                Some(#[verifier::truncate] (v.len() as u32)),
            ),
        }
    }
}

/// The signedness a descriptor declares: `unsigned` anywhere in the
/// string means unsigned.
pub open spec fn spec_sign_of(s: Seq<char>) -> SqlSigned {
    if contains_unsigned(s) {
        SqlSigned::Unsigned
    } else {
        SqlSigned::Signed
    }
}

/// The clause of a descriptor: the characters after the first `(` and
/// before the last `)` that follows it, or nothing when no `)` follows.
pub open spec fn spec_clause(s: Seq<char>) -> Seq<char> {
    let tail = s.subrange(first_index_of(s, '(') + 1, s.len() as int);
    if contains_char(tail, ')') {
        tail.subrange(0, last_index_of(tail, ')'))
    } else {
        Seq::empty()
    }
}

/// The value of a precision or scale component: unparsable components
/// default to zero rather than failing.
pub open spec fn spec_num_or_zero(s: Seq<char>) -> u32 {
    match spec_parse_u32(s) {
        Some(v) => v,
        None => 0,
    }
}

/// The datatype of a length-bearing type group, if the group is known.
pub open spec fn spec_parse_sized(group: Seq<char>, n: u32, sign: SqlSigned) -> Option<
    SqlDatatypeView,
> {
    if group == "tinyint"@ {
        Some(SqlDatatypeView::Tinyint(n, sign))
    } else if group == "int"@ {
        Some(SqlDatatypeView::Int(n, sign))
    } else if group == "smallint"@ {
        Some(SqlDatatypeView::Smallint(n, sign))
    } else if group == "mediumint"@ {
        Some(SqlDatatypeView::Mediumint(n, sign))
    } else if group == "bigint"@ {
        Some(SqlDatatypeView::Bigint(n, sign))
    } else if group == "char"@ {
        Some(SqlDatatypeView::Char(n))
    } else if group == "varchar"@ {
        Some(SqlDatatypeView::Varchar(n))
    } else if group == "text"@ {
        Some(SqlDatatypeView::Text(n))
    } else if group == "binary"@ {
        Some(SqlDatatypeView::Binary(n))
    } else if group == "varbinary"@ {
        Some(SqlDatatypeView::Varbinary(n))
    } else {
        None
    }
}

/// What a type descriptor string denotes, or nothing when it is not a
/// recognized descriptor.
///
/// A descriptor with both `(` and `)` splits into the type group before
/// the first `(` and the clause up to the last `)`. `set` and `enum`
/// split the clause on commas into quote-trimmed options and never fail;
/// `float`, `double` and `decimal` read precision and scale around the
/// first comma, each falling back to zero; the remaining length-bearing
/// groups demand an unsigned decimal clause. Without parentheses, only
/// the fixed vocabulary of `text` (with its implied length) and the
/// temporal types is recognized.
pub open spec fn spec_parse(s: Seq<char>) -> Option<SqlDatatypeView> {
    if contains_char(s, '(') && contains_char(s, ')') {
        let sign = spec_sign_of(s);
        let group = s.subrange(0, first_index_of(s, '('));
        let clause = spec_clause(s);
        if group == "set"@ {
            Some(SqlDatatypeView::SetType(split_trimmed(clause)))
        } else if group == "enum"@ {
            Some(SqlDatatypeView::Enum(split_trimmed(clause)))
        } else if group == "float"@ || group == "double"@ || group == "decimal"@ {
            let has = contains_char(clause, ',');
            let left = if has {
                clause.subrange(0, first_index_of(clause, ','))
            } else {
                clause
            };
            let right = if has {
                clause.subrange(first_index_of(clause, ',') + 1, clause.len() as int)
            } else {
                clause
            };
            let p = spec_num_or_zero(left);
            let d = spec_num_or_zero(right);
            if group == "float"@ {
                Some(SqlDatatypeView::Float(p, d, sign))
            } else if group == "double"@ {
                Some(SqlDatatypeView::Double(p, d, sign))
            } else {
                Some(SqlDatatypeView::Decimal(p, d, sign))
            }
        } else {
            match spec_parse_u32(clause) {
                Some(n) => spec_parse_sized(group, n, sign),
                None => None,
            }
        }
    } else {
        if s == "text"@ {
            Some(SqlDatatypeView::Text(65535))
        } else if s == "date"@ {
            Some(SqlDatatypeView::Date)
        } else if s == "time"@ {
            Some(SqlDatatypeView::Time)
        } else if s == "datetime"@ {
            Some(SqlDatatypeView::Datetime)
        } else if s == "timestamp"@ {
            Some(SqlDatatypeView::Timestamp)
        } else {
            None
        }
    }
}

impl SqlDatatype {
    /// Parse an engine type descriptor string. The result is exactly what
    /// [`spec_parse`] denotes; a failure never substitutes the structural
    /// default type.
    pub fn parse(s: &str) -> (r: Result<SqlDatatype, ParseDatatypeError>)
        ensures
            r matches Ok(dt) ==> spec_parse(s@) == Some(dt@),
            r is Err ==> spec_parse(s@) is None,
    {
        let n = s.unicode_len();
        let oi = find_char(s, '(');
        let ci = find_char(s, ')');
        if oi < n && ci < n {
            let sign = if find_unsigned(s) {
                SqlSigned::Unsigned
            } else {
                SqlSigned::Signed
            };
            proof {
                assert(sign == spec_sign_of(s@));
            }
            let group = s.substring_char(0, oi);
            let tail = s.substring_char(oi + 1, n);
            let clause = match rfind_char(tail, ')') {
                Some(j) => tail.substring_char(0, j),
                None => tail.substring_char(0, 0),
            };
            proof {
                assert(group@ == s@.subrange(0, first_index_of(s@, '(')));
                assert(clause@ =~= spec_clause(s@));
            }
            if str_eq(group, "set") {
                Ok(SqlDatatype::SetType(split_options(clause)))
            } else if str_eq(group, "enum") {
                Ok(SqlDatatype::Enum(split_options(clause)))
            } else if str_eq(group, "float") || str_eq(group, "double") || str_eq(
                group,
                "decimal",
            ) {
                let m = clause.unicode_len();
                let di = find_char(clause, ',');
                let left = if di < m {
                    clause.substring_char(0, di)
                } else {
                    clause
                };
                let right = if di < m {
                    clause.substring_char(di + 1, m)
                } else {
                    clause
                };
                let p = match parse_u32(left) {
                    Some(v) => v,
                    None => 0,
                };
                let d = match parse_u32(right) {
                    Some(v) => v,
                    None => 0,
                };
                if str_eq(group, "float") {
                    Ok(SqlDatatype::Float(p, d, sign))
                } else if str_eq(group, "double") {
                    Ok(SqlDatatype::Double(p, d, sign))
                } else {
                    Ok(SqlDatatype::Decimal(p, d, sign))
                }
            } else {
                match parse_u32(clause) {
                    Some(len_val) => {
                        if str_eq(group, "tinyint") {
                            Ok(SqlDatatype::Tinyint(len_val, sign))
                        } else if str_eq(group, "int") {
                            Ok(SqlDatatype::Int(len_val, sign))
                        } else if str_eq(group, "smallint") {
                            Ok(SqlDatatype::Smallint(len_val, sign))
                        } else if str_eq(group, "mediumint") {
                            Ok(SqlDatatype::Mediumint(len_val, sign))
                        } else if str_eq(group, "bigint") {
                            Ok(SqlDatatype::Bigint(len_val, sign))
                        } else if str_eq(group, "char") {
                            Ok(SqlDatatype::Char(len_val))
                        } else if str_eq(group, "varchar") {
                            Ok(SqlDatatype::Varchar(len_val))
                        } else if str_eq(group, "text") {
                            Ok(SqlDatatype::Text(len_val))
                        } else if str_eq(group, "binary") {
                            Ok(SqlDatatype::Binary(len_val))
                        } else if str_eq(group, "varbinary") {
                            Ok(SqlDatatype::Varbinary(len_val))
                        } else {
                            Err(ParseDatatypeError)
                        }
                    },
                    None => Err(ParseDatatypeError),
                }
            }
        } else {
            if str_eq(s, "text") {
                Ok(SqlDatatype::Text(65535))
            } else if str_eq(s, "date") {
                Ok(SqlDatatype::Date)
            } else if str_eq(s, "time") {
                Ok(SqlDatatype::Time)
            } else if str_eq(s, "datetime") {
                Ok(SqlDatatype::Datetime)
            } else if str_eq(s, "timestamp") {
                Ok(SqlDatatype::Timestamp)
            } else {
                Err(ParseDatatypeError)
            }
        }
    }
}

} // verus!
