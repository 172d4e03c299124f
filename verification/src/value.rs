use vstd::prelude::*;

use crate::big_number::compare_decimals;

verus! {

/// The runtime data type of a stored metadata value.
#[derive(Debug, Clone, Copy, PartialEq, Eq, Structural)]
pub enum DataType {
    /// Boolean.
    Bool,
    /// Unicode scalar value.
    Char,
    /// 8-bit signed integer.
    Int8,
    /// 16-bit signed integer.
    Int16,
    /// 32-bit signed integer.
    Int32,
    /// 64-bit signed integer.
    Int64,
    /// 128-bit signed integer.
    Int128,
    /// 8-bit unsigned integer.
    UInt8,
    /// 16-bit unsigned integer.
    UInt16,
    /// 32-bit unsigned integer.
    UInt32,
    /// 64-bit unsigned integer.
    UInt64,
    /// 128-bit unsigned integer.
    UInt128,
    /// 32-bit floating-point number.
    Float32,
    /// 64-bit floating-point number.
    Float64,
    /// UTF-8 string.
    String,
    /// Calendar date.
    Date,
    /// Time of day.
    Time,
    /// Date and time.
    DateTime,
    /// UTC instant.
    Instant,
    /// Arbitrary-precision integer.
    BigInteger,
    /// Arbitrary-precision decimal.
    BigDecimal,
    /// Duration.
    Duration,
    /// URL.
    Url,
    /// Map with string keys and values.
    StringMap,
    /// JSON value.
    Json,
}

impl DataType {
    /// Whether the type belongs to the numeric family.
    pub open spec fn spec_is_numeric(self) -> bool {
        match self {
            DataType::Int8 | DataType::Int16 | DataType::Int32 | DataType::Int64 | DataType::Int128
            | DataType::UInt8 | DataType::UInt16 | DataType::UInt32 | DataType::UInt64
            | DataType::UInt128 | DataType::Float32 | DataType::Float64 | DataType::BigInteger
            | DataType::BigDecimal => true,
            _ => false,
        }
    }

    /// Reports whether the type belongs to the numeric family.
    #[verifier::when_used_as_spec(spec_is_numeric)]
    pub fn is_numeric(self) -> (r: bool)
        ensures
            r == self.spec_is_numeric(),
    {
        match self {
            DataType::Int8 | DataType::Int16 | DataType::Int32 | DataType::Int64 | DataType::Int128
            | DataType::UInt8 | DataType::UInt16 | DataType::UInt32 | DataType::UInt64
            | DataType::UInt128 | DataType::Float32 | DataType::Float64 | DataType::BigInteger
            | DataType::BigDecimal => true,
            _ => false,
        }
    }
}

/// A value type whose filter semantics is identity of a canonical encoding:
/// such values are never ordered and never numeric.
#[derive(Debug, Clone, Copy, PartialEq, Eq, Structural)]
pub enum EncodedType {
    /// Calendar date.
    Date,
    /// Time of day.
    Time,
    /// Date and time.
    DateTime,
    /// UTC instant.
    Instant,
    /// Duration.
    Duration,
    /// URL.
    Url,
    /// Map with string keys and values.
    StringMap,
    /// JSON value.
    Json,
}

impl EncodedType {
    /// The data type of values of this kind.
    pub open spec fn spec_data_type(self) -> DataType {
        match self {
            EncodedType::Date => DataType::Date,
            EncodedType::Time => DataType::Time,
            EncodedType::DateTime => DataType::DateTime,
            EncodedType::Instant => DataType::Instant,
            EncodedType::Duration => DataType::Duration,
            EncodedType::Url => DataType::Url,
            EncodedType::StringMap => DataType::StringMap,
            EncodedType::Json => DataType::Json,
        }
    }

    /// Returns the data type of values of this kind.
    #[verifier::when_used_as_spec(spec_data_type)]
    pub fn data_type(self) -> (r: DataType)
        ensures
            r == self.spec_data_type(),
    {
        match self {
            EncodedType::Date => DataType::Date,
            EncodedType::Time => DataType::Time,
            EncodedType::DateTime => DataType::DateTime,
            EncodedType::Instant => DataType::Instant,
            EncodedType::Duration => DataType::Duration,
            EncodedType::Url => DataType::Url,
            EncodedType::StringMap => DataType::StringMap,
            EncodedType::Json => DataType::Json,
        }
    }
}

/// An arbitrary-precision integer as a sign and the little-endian base-256
/// digits of its magnitude.
#[derive(Debug, PartialEq)]
pub struct BigDigits {
    /// Whether the number is below zero (ignored for a zero magnitude).
    pub negative: bool,
    /// The magnitude, least significant byte first.
    pub magnitude: Vec<u8>,
}

/// The value of little-endian base-256 digits.
pub open spec fn magnitude_value(s: Seq<u8>) -> nat
    decreases s.len(),
{
    if s.len() == 0 {
        0
    } else {
        (s[0] + 256 * magnitude_value(s.drop_first())) as nat
    }
}

impl BigDigits {
    /// The signed integer these digits stand for.
    pub open spec fn value(self) -> int {
        if self.negative {
            -magnitude_value(self.magnitude@)
        } else {
            magnitude_value(self.magnitude@) as int
        }
    }
}

/// Digits and a scale as an (unscaled integer, scale) pair.
pub open spec fn digits_parts(d: BigDigits, scale: i64) -> (int, int) {
    (d.value(), scale as int)
}

impl Clone for BigDigits {
    /// Copies the sign and the digits.
    fn clone(&self) -> (r: Self)
        ensures
            r.negative == self.negative,
            r.magnitude@ == self.magnitude@,
    {
        BigDigits { negative: self.negative, magnitude: self.magnitude.clone() }
    }
}

/// The little-endian base-256 digits of `x`, with no trailing zero byte.
fn magnitude_bytes(x: u128) -> (r: Vec<u8>)
    ensures
        magnitude_value(r@) == x,
    decreases x,
{
    if x == 0 {
        Vec::new()
    } else {
        let low = (x % 256) as u8;
        let mut r = magnitude_bytes(x / 256);
        let ghost rest = r@;
        r.insert(0, low);
        proof {
            assert(r@.drop_first() =~= rest);
        }
        r
    }
}

/// The digits of a widened integer.
fn wide_digits(w: WideInt) -> (r: BigDigits)
    ensures
        r.value() == wide_value(w),
{
    match w {
        WideInt::Unsigned(v) => BigDigits { negative: false, magnitude: magnitude_bytes(v) },
        WideInt::Signed(v) => if v < 0 {
            let m = (-(v + 1)) as u128 + 1;
            BigDigits { negative: true, magnitude: magnitude_bytes(m) }
        } else {
            BigDigits { negative: false, magnitude: magnitude_bytes(v as u128) }
        },
    }
}

/// The digits and scale of a numeric value.
fn exact_parts(v: &MetadataValue) -> (r: (BigDigits, i64))
    requires
        v@.is_numeric(),
    ensures
        digits_parts(r.0, r.1) == v@.decimal_parts(),
{
    match v {
        MetadataValue::BigInteger(d) => (d.clone(), 0),
        MetadataValue::BigDecimal(d, scale) => (d.clone(), *scale),
        _ => (wide_digits(widen(v)), 0),
    }
}

/// Orders two numeric values by their mathematical values.
fn compare_numbers(left: &MetadataValue, right: &MetadataValue) -> (r: ValueOrdering)
    requires
        left@.is_numeric(),
        right@.is_numeric(),
    ensures
        r == decimal_order(left@.decimal_parts(), right@.decimal_parts()),
{
    if is_big(left) || is_big(right) {
        let (a, a_scale) = exact_parts(left);
        let (b, b_scale) = exact_parts(right);
        compare_decimals(&a, a_scale, &b, b_scale)
    } else {
        compare_wide(widen(left), widen(right))
    }
}

/// Whether a value is an arbitrary-precision number.
fn is_big(v: &MetadataValue) -> (r: bool)
    ensures
        r == (v@ is BigInteger || v@ is BigDecimal),
{
    matches!(v, MetadataValue::BigInteger(_) | MetadataValue::BigDecimal(_, _))
}

/// One stored metadata value, or an unset value that keeps its declared type.
#[derive(Debug, PartialEq)]
pub enum MetadataValue {
    /// No concrete value; only the declared type is kept.
    Unset(DataType),
    /// Boolean value.
    Bool(bool),
    /// Character value.
    Char(char),
    /// 8-bit signed integer.
    Int8(i8),
    /// 16-bit signed integer.
    Int16(i16),
    /// 32-bit signed integer.
    Int32(i32),
    /// 64-bit signed integer.
    Int64(i64),
    /// 128-bit signed integer.
    Int128(i128),
    /// 8-bit unsigned integer.
    UInt8(u8),
    /// 16-bit unsigned integer.
    UInt16(u16),
    /// 32-bit unsigned integer.
    UInt32(u32),
    /// 64-bit unsigned integer.
    UInt64(u64),
    /// 128-bit unsigned integer.
    UInt128(u128),
    /// String value.
    String(String),
    /// Arbitrary-precision integer.
    BigInteger(BigDigits),
    /// Arbitrary-precision decimal: the integer scaled by ten to the power of
    /// minus the scale.
    BigDecimal(BigDigits, i64),
    /// A value identified by the canonical encoding of its payload.
    Encoded(EncodedType, Vec<u8>),
}

/// The result of ordering two comparable values.
#[derive(Debug, Clone, Copy, PartialEq, Eq, Structural)]
pub enum ValueOrdering {
    /// Left is smaller.
    Less,
    /// Both are equal.
    Equal,
    /// Left is larger.
    Greater,
}

/// Policy for comparing numeric values of different representations.
///
/// Both policies coincide on the integer representations held here.
#[derive(Debug, Clone, Copy, PartialEq, Eq, Structural)]
pub enum NumericComparisonPolicy {
    /// Preserves exact mathematical values.
    Exact,
    /// Projects floating-point participants to `f64`.
    Approximate,
}

/// Orders two mathematical integers.
pub open spec fn int_order(a: int, b: int) -> ValueOrdering {
    if a < b {
        ValueOrdering::Less
    } else if a == b {
        ValueOrdering::Equal
    } else {
        ValueOrdering::Greater
    }
}

/// Lexicographic byte order, the order of Rust `str`.
pub open spec fn lex_order(a: Seq<u8>, b: Seq<u8>) -> ValueOrdering
    decreases a.len(),
{
    if a.len() == 0 {
        if b.len() == 0 {
            ValueOrdering::Equal
        } else {
            ValueOrdering::Less
        }
    } else if b.len() == 0 {
        ValueOrdering::Greater
    } else if a[0] < b[0] {
        ValueOrdering::Less
    } else if a[0] > b[0] {
        ValueOrdering::Greater
    } else {
        lex_order(a.drop_first(), b.drop_first())
    }
}

/// The UTF-8 bytes of a string.
pub open spec fn str_bytes(s: Seq<char>) -> Seq<u8> {
    vstd::utf8::encode_utf8(s)
}

/// The mathematical model of a [`MetadataValue`]: the same variants, with
/// strings and encodings as sequences.
pub enum ValueModel {
    /// No concrete value; only the declared type is kept.
    Unset(DataType),
    /// Boolean value.
    Bool(bool),
    /// Character value.
    Char(char),
    /// 8-bit signed integer.
    Int8(i8),
    /// 16-bit signed integer.
    Int16(i16),
    /// 32-bit signed integer.
    Int32(i32),
    /// 64-bit signed integer.
    Int64(i64),
    /// 128-bit signed integer.
    Int128(i128),
    /// 8-bit unsigned integer.
    UInt8(u8),
    /// 16-bit unsigned integer.
    UInt16(u16),
    /// 32-bit unsigned integer.
    UInt32(u32),
    /// 64-bit unsigned integer.
    UInt64(u64),
    /// 128-bit unsigned integer.
    UInt128(u128),
    /// String value.
    String(Seq<char>),
    /// Arbitrary-precision integer.
    BigInteger(int),
    /// Arbitrary-precision decimal: the unscaled integer and the scale.
    BigDecimal(int, int),
    /// A value identified by the canonical encoding of its payload.
    Encoded(EncodedType, Seq<u8>),
}

impl ValueModel {
    /// The data type of this value, declared for an unset value.
    pub open spec fn data_type(self) -> DataType {
        match self {
            ValueModel::Unset(t) => t,
            ValueModel::Bool(_) => DataType::Bool,
            ValueModel::Char(_) => DataType::Char,
            ValueModel::Int8(_) => DataType::Int8,
            ValueModel::Int16(_) => DataType::Int16,
            ValueModel::Int32(_) => DataType::Int32,
            ValueModel::Int64(_) => DataType::Int64,
            ValueModel::Int128(_) => DataType::Int128,
            ValueModel::UInt8(_) => DataType::UInt8,
            ValueModel::UInt16(_) => DataType::UInt16,
            ValueModel::UInt32(_) => DataType::UInt32,
            ValueModel::UInt64(_) => DataType::UInt64,
            ValueModel::UInt128(_) => DataType::UInt128,
            ValueModel::String(_) => DataType::String,
            ValueModel::BigInteger(_) => DataType::BigInteger,
            ValueModel::BigDecimal(_, _) => DataType::BigDecimal,
            ValueModel::Encoded(k, _) => k.spec_data_type(),
        }
    }

    /// Whether this value has no concrete payload.
    pub open spec fn is_unset(self) -> bool {
        self is Unset
    }

    /// Whether this is a concrete value of a numeric type.
    pub open spec fn is_numeric(self) -> bool {
        !self.is_unset() && self.data_type().spec_is_numeric()
    }

    /// The mathematical value of an integer payload (zero for other values).
    pub open spec fn int_value(self) -> int {
        match self {
            ValueModel::Int8(v) => v as int,
            ValueModel::Int16(v) => v as int,
            ValueModel::Int32(v) => v as int,
            ValueModel::Int64(v) => v as int,
            ValueModel::Int128(v) => v as int,
            ValueModel::UInt8(v) => v as int,
            ValueModel::UInt16(v) => v as int,
            ValueModel::UInt32(v) => v as int,
            ValueModel::UInt64(v) => v as int,
            ValueModel::UInt128(v) => v as int,
            _ => 0,
        }
    }

    /// A numeric value as an unscaled integer and a scale: the value is the
    /// integer times ten to the power of minus the scale.
    pub open spec fn decimal_parts(self) -> (int, int) {
        match self {
            ValueModel::BigInteger(n) => (n, 0),
            ValueModel::BigDecimal(n, scale) => (n, scale),
            _ => (self.int_value(), 0),
        }
    }
}

/// Ten to the power of `n`.
pub open spec fn pow10(n: nat) -> int
    decreases n,
{
    if n == 0 {
        1
    } else {
        10 * pow10((n - 1) as nat)
    }
}

/// Orders two decimals given as (unscaled integer, scale) by their
/// mathematical values, bringing both to the larger scale.
pub open spec fn decimal_order(a: (int, int), b: (int, int)) -> ValueOrdering {
    if a.1 == b.1 {
        int_order(a.0, b.0)
    } else if a.1 < b.1 {
        int_order(a.0 * pow10((b.1 - a.1) as nat), b.0)
    } else {
        int_order(a.0, b.0 * pow10((a.1 - b.1) as nat))
    }
}

impl View for MetadataValue {
    type V = ValueModel;

    open spec fn view(&self) -> ValueModel {
        match self {
            MetadataValue::Unset(t) => ValueModel::Unset(*t),
            MetadataValue::Bool(v) => ValueModel::Bool(*v),
            MetadataValue::Char(v) => ValueModel::Char(*v),
            MetadataValue::Int8(v) => ValueModel::Int8(*v),
            MetadataValue::Int16(v) => ValueModel::Int16(*v),
            MetadataValue::Int32(v) => ValueModel::Int32(*v),
            MetadataValue::Int64(v) => ValueModel::Int64(*v),
            MetadataValue::Int128(v) => ValueModel::Int128(*v),
            MetadataValue::UInt8(v) => ValueModel::UInt8(*v),
            MetadataValue::UInt16(v) => ValueModel::UInt16(*v),
            MetadataValue::UInt32(v) => ValueModel::UInt32(*v),
            MetadataValue::UInt64(v) => ValueModel::UInt64(*v),
            MetadataValue::UInt128(v) => ValueModel::UInt128(*v),
            MetadataValue::String(v) => ValueModel::String(v@),
            MetadataValue::BigInteger(d) => ValueModel::BigInteger(d.value()),
            MetadataValue::BigDecimal(d, scale) => ValueModel::BigDecimal(d.value(), *scale as int),
            MetadataValue::Encoded(k, p) => ValueModel::Encoded(*k, p@),
        }
    }
}

impl MetadataValue {
    /// Returns the data type of this value.
    pub fn data_type(&self) -> (r: DataType)
        ensures
            r == self@.data_type(),
    {
        match self {
            MetadataValue::Unset(t) => *t,
            MetadataValue::Bool(_) => DataType::Bool,
            MetadataValue::Char(_) => DataType::Char,
            MetadataValue::Int8(_) => DataType::Int8,
            MetadataValue::Int16(_) => DataType::Int16,
            MetadataValue::Int32(_) => DataType::Int32,
            MetadataValue::Int64(_) => DataType::Int64,
            MetadataValue::Int128(_) => DataType::Int128,
            MetadataValue::UInt8(_) => DataType::UInt8,
            MetadataValue::UInt16(_) => DataType::UInt16,
            MetadataValue::UInt32(_) => DataType::UInt32,
            MetadataValue::UInt64(_) => DataType::UInt64,
            MetadataValue::UInt128(_) => DataType::UInt128,
            MetadataValue::String(_) => DataType::String,
            MetadataValue::BigInteger(_) => DataType::BigInteger,
            MetadataValue::BigDecimal(_, _) => DataType::BigDecimal,
            MetadataValue::Encoded(k, _) => k.data_type(),
        }
    }

    /// Tests whether this value has no concrete payload.
    pub fn is_unset(&self) -> (r: bool)
        ensures
            r == self@.is_unset(),
    {
        matches!(self, MetadataValue::Unset(_))
    }

    /// Tests whether this is a concrete value of a numeric type.
    pub fn is_numeric(&self) -> (r: bool)
        ensures
            r == self@.is_numeric(),
    {
        !self.is_unset() && self.data_type().is_numeric()
    }
}

impl Clone for MetadataValue {
    fn clone(&self) -> (r: Self)
        ensures
            r@ == self@,
    {
        match self {
            MetadataValue::Unset(t) => MetadataValue::Unset(*t),
            MetadataValue::Bool(v) => MetadataValue::Bool(*v),
            MetadataValue::Char(v) => MetadataValue::Char(*v),
            MetadataValue::Int8(v) => MetadataValue::Int8(*v),
            MetadataValue::Int16(v) => MetadataValue::Int16(*v),
            MetadataValue::Int32(v) => MetadataValue::Int32(*v),
            MetadataValue::Int64(v) => MetadataValue::Int64(*v),
            MetadataValue::Int128(v) => MetadataValue::Int128(*v),
            MetadataValue::UInt8(v) => MetadataValue::UInt8(*v),
            MetadataValue::UInt16(v) => MetadataValue::UInt16(*v),
            MetadataValue::UInt32(v) => MetadataValue::UInt32(*v),
            MetadataValue::UInt64(v) => MetadataValue::UInt64(*v),
            MetadataValue::UInt128(v) => MetadataValue::UInt128(*v),
            MetadataValue::String(v) => MetadataValue::String(v.clone()),
            MetadataValue::BigInteger(d) => MetadataValue::BigInteger(d.clone()),
            MetadataValue::BigDecimal(d, scale) => MetadataValue::BigDecimal(d.clone(), *scale),
            MetadataValue::Encoded(k, p) => MetadataValue::Encoded(*k, p.clone()),
        }
    }
}

/// Equality under filter semantics: numeric values compare mathematically,
/// values of different data types are incomparable (`None`), and other values
/// of one data type are equal when their representations are identical.
pub open spec fn spec_values_equal(left: ValueModel, right: ValueModel) -> Option<bool> {
    if left.is_numeric() && right.is_numeric() {
        Some(decimal_order(left.decimal_parts(), right.decimal_parts()) == ValueOrdering::Equal)
    } else if left.data_type() != right.data_type() {
        None
    } else {
        Some(left == right)
    }
}

/// Ordering under filter semantics: numeric values compare mathematically,
/// strings compare by their bytes, and all other pairs are unordered (`None`).
pub open spec fn spec_compare_values(left: ValueModel, right: ValueModel) -> Option<ValueOrdering> {
    if left.is_numeric() && right.is_numeric() {
        Some(decimal_order(left.decimal_parts(), right.decimal_parts()))
    } else {
        match (left, right) {
            (ValueModel::String(a), ValueModel::String(b)) => Some(lex_order(str_bytes(a), str_bytes(b))),
            _ => None,
        }
    }
}

/// An integer widened without loss to a signed or unsigned 128-bit integer.
enum WideInt {
    Signed(i128),
    Unsigned(u128),
}

spec fn wide_value(w: WideInt) -> int {
    match w {
        WideInt::Signed(v) => v as int,
        WideInt::Unsigned(v) => v as int,
    }
}

/// Widens an integer payload.
fn widen(v: &MetadataValue) -> (w: WideInt)
    requires
        v@.is_numeric(),
        !(v@ is BigInteger),
        !(v@ is BigDecimal),
    ensures
        wide_value(w) == v@.int_value(),
{
    match v {
        MetadataValue::Int8(x) => WideInt::Signed(*x as i128),
        MetadataValue::Int16(x) => WideInt::Signed(*x as i128),
        MetadataValue::Int32(x) => WideInt::Signed(*x as i128),
        MetadataValue::Int64(x) => WideInt::Signed(*x as i128),
        MetadataValue::Int128(x) => WideInt::Signed(*x),
        MetadataValue::UInt8(x) => WideInt::Unsigned(*x as u128),
        MetadataValue::UInt16(x) => WideInt::Unsigned(*x as u128),
        MetadataValue::UInt32(x) => WideInt::Unsigned(*x as u128),
        MetadataValue::UInt64(x) => WideInt::Unsigned(*x as u128),
        MetadataValue::UInt128(x) => WideInt::Unsigned(*x),
        _ => WideInt::Unsigned(0),
    }
}

/// Orders two widened integers by their mathematical values.
fn compare_wide(a: WideInt, b: WideInt) -> (r: ValueOrdering)
    ensures
        r == int_order(wide_value(a), wide_value(b)),
{
    match (a, b) {
        (WideInt::Signed(x), WideInt::Signed(y)) => if x < y {
            ValueOrdering::Less
        } else if x == y {
            ValueOrdering::Equal
        } else {
            ValueOrdering::Greater
        },
        (WideInt::Unsigned(x), WideInt::Unsigned(y)) => if x < y {
            ValueOrdering::Less
        } else if x == y {
            ValueOrdering::Equal
        } else {
            ValueOrdering::Greater
        },
        (WideInt::Signed(x), WideInt::Unsigned(y)) => if x < 0 {
            ValueOrdering::Less
        } else if (x as u128) < y {
            ValueOrdering::Less
        } else if (x as u128) == y {
            ValueOrdering::Equal
        } else {
            ValueOrdering::Greater
        },
        (WideInt::Unsigned(x), WideInt::Signed(y)) => if y < 0 {
            ValueOrdering::Greater
        } else if x < (y as u128) {
            ValueOrdering::Less
        } else if x == (y as u128) {
            ValueOrdering::Equal
        } else {
            ValueOrdering::Greater
        },
    }
}

proof fn lemma_lex_order_step(a: Seq<u8>, b: Seq<u8>, i: int)
    requires
        0 <= i < a.len(),
        i < b.len(),
        a[i] == b[i],
    ensures
        lex_order(a.skip(i), b.skip(i)) == lex_order(a.skip(i + 1), b.skip(i + 1)),
{
    assert(a.skip(i).drop_first() =~= a.skip(i + 1));
    assert(b.skip(i).drop_first() =~= b.skip(i + 1));
}

/// Orders two byte strings lexicographically.
pub fn compare_bytes(a: &[u8], b: &[u8]) -> (r: ValueOrdering)
    ensures
        r == lex_order(a@, b@),
{
    let mut i: usize = 0;
    assert(a@.skip(0) =~= a@);
    assert(b@.skip(0) =~= b@);
    while i < a.len() && i < b.len()
        invariant
            i <= a.len(),
            i <= b.len(),
            lex_order(a@, b@) == lex_order(a@.skip(i as int), b@.skip(i as int)),
        decreases a.len() - i,
    {
        if a[i] < b[i] {
            return ValueOrdering::Less;
        }
        if a[i] > b[i] {
            return ValueOrdering::Greater;
        }
        proof {
            lemma_lex_order_step(a@, b@, i as int);
        }
        i = i + 1;
    }
    if i < b.len() {
        ValueOrdering::Less
    } else if i < a.len() {
        ValueOrdering::Greater
    } else {
        ValueOrdering::Equal
    }
}

/// Tests two byte strings for equality.
pub fn bytes_equal(a: &[u8], b: &[u8]) -> (r: bool)
    ensures
        r == (a@ == b@),
{
    if a.len() != b.len() {
        return false;
    }
    let mut i: usize = 0;
    while i < a.len()
        invariant
            i <= a.len(),
            a.len() == b.len(),
            forall|j: int| 0 <= j < i ==> a@[j] == b@[j],
        decreases a.len() - i,
    {
        if a[i] != b[i] {
            return false;
        }
        i = i + 1;
    }
    assert(a@ =~= b@);
    true
}

/// Orders two strings by their UTF-8 bytes, the order of Rust `str`.
pub fn compare_str(a: &str, b: &str) -> (r: ValueOrdering)
    ensures
        r == lex_order(str_bytes(a@), str_bytes(b@)),
{
    compare_bytes(a.as_bytes(), b.as_bytes())
}

/// Two strings are equal exactly when their UTF-8 bytes are.
pub proof fn lemma_str_bytes_injective(a: Seq<char>, b: Seq<char>)
    ensures
        (str_bytes(a) == str_bytes(b)) <==> (a == b),
{
    vstd::utf8::encode_utf8_decode_utf8(a);
    vstd::utf8::encode_utf8_decode_utf8(b);
}

/// Tests two strings for equality through their UTF-8 bytes.
pub fn str_equal(a: &str, b: &str) -> (r: bool)
    ensures
        r == (a@ == b@),
{
    let r = bytes_equal(a.as_bytes(), b.as_bytes());
    proof {
        lemma_str_bytes_injective(a@, b@);
    }
    r
}

impl MetadataValue {
    /// Tests representation identity: same variant and same payload.
    pub fn same_as(&self, other: &MetadataValue) -> (r: bool)
        ensures
            r == (self@ == other@),
    {
        match (self, other) {
            (MetadataValue::Unset(a), MetadataValue::Unset(b)) => *a == *b,
            (MetadataValue::Bool(a), MetadataValue::Bool(b)) => *a == *b,
            (MetadataValue::Char(a), MetadataValue::Char(b)) => *a == *b,
            (MetadataValue::Int8(a), MetadataValue::Int8(b)) => *a == *b,
            (MetadataValue::Int16(a), MetadataValue::Int16(b)) => *a == *b,
            (MetadataValue::Int32(a), MetadataValue::Int32(b)) => *a == *b,
            (MetadataValue::Int64(a), MetadataValue::Int64(b)) => *a == *b,
            (MetadataValue::Int128(a), MetadataValue::Int128(b)) => *a == *b,
            (MetadataValue::UInt8(a), MetadataValue::UInt8(b)) => *a == *b,
            (MetadataValue::UInt16(a), MetadataValue::UInt16(b)) => *a == *b,
            (MetadataValue::UInt32(a), MetadataValue::UInt32(b)) => *a == *b,
            (MetadataValue::UInt64(a), MetadataValue::UInt64(b)) => *a == *b,
            (MetadataValue::UInt128(a), MetadataValue::UInt128(b)) => *a == *b,
            (MetadataValue::String(a), MetadataValue::String(b)) => str_equal(a.as_str(), b.as_str()),
            (MetadataValue::BigInteger(a), MetadataValue::BigInteger(b)) => {
                let ord = compare_decimals(a, 0, b, 0);
                matches!(ord, ValueOrdering::Equal)
            },
            (MetadataValue::BigDecimal(a, sa), MetadataValue::BigDecimal(b, sb)) => {
                if *sa != *sb {
                    false
                } else {
                    let ord = compare_decimals(a, 0, b, 0);
                    matches!(ord, ValueOrdering::Equal)
                }
            },
            (MetadataValue::Encoded(k1, p1), MetadataValue::Encoded(k2, p2)) => {
                let r = *k1 == *k2 && bytes_equal(p1.as_slice(), p2.as_slice());
                r
            },
            _ => false,
        }
    }
}

/// Compares two values for equality under filter semantics.
pub fn values_equal(left: &MetadataValue, right: &MetadataValue, policy: NumericComparisonPolicy) -> (r:
    Option<bool>)
    ensures
        r == spec_values_equal(left@, right@),
{
    if left.is_numeric() && right.is_numeric() {
        let ord = compare_numbers(left, right);
        return Some(matches!(ord, ValueOrdering::Equal));
    }
    if left.data_type() != right.data_type() {
        return None;
    }
    Some(left.same_as(right))
}

/// Orders two numeric values or two strings.
pub fn compare_values(left: &MetadataValue, right: &MetadataValue, policy: NumericComparisonPolicy) -> (r:
    Option<ValueOrdering>)
    ensures
        r == spec_compare_values(left@, right@),
{
    if left.is_numeric() && right.is_numeric() {
        return Some(compare_numbers(left, right));
    }
    match (left, right) {
        (MetadataValue::String(a), MetadataValue::String(b)) => Some(compare_str(a.as_str(), b.as_str())),
        _ => None,
    }
}

/// Lexicographic byte order is a strict total order: equality coincides with
/// `Equal`, `Less` and `Greater` are converse, and `Less` is transitive.
pub proof fn lemma_lex_order_equal(a: Seq<u8>, b: Seq<u8>)
    ensures
        (lex_order(a, b) == ValueOrdering::Equal) <==> (a == b),
    decreases a.len(),
{
    if a.len() == 0 {
        if b.len() != 0 {
            assert(a.len() != b.len());
        } else {
            assert(a =~= b);
        }
    } else if b.len() == 0 {
        assert(a.len() != b.len());
    } else if a[0] != b[0] {
        assert(a != b);
    } else {
        lemma_lex_order_equal(a.drop_first(), b.drop_first());
        if a.drop_first() == b.drop_first() {
            assert forall|i: int| 0 <= i < a.len() implies a[i] == b[i] by {
                if i > 0 {
                    assert(a[i] == a.drop_first()[i - 1]);
                    assert(b[i] == b.drop_first()[i - 1]);
                }
            }
            assert(a =~= b);
        } else {
            assert(a != b);
        }
    }
}

/// `Less` one way is `Greater` the other way.
pub proof fn lemma_lex_order_converse(a: Seq<u8>, b: Seq<u8>)
    ensures
        (lex_order(a, b) == ValueOrdering::Less) <==> (lex_order(b, a) == ValueOrdering::Greater),
    decreases a.len(),
{
    if a.len() > 0 && b.len() > 0 && a[0] == b[0] {
        lemma_lex_order_converse(a.drop_first(), b.drop_first());
    }
}

/// `Less` is transitive.
pub proof fn lemma_lex_order_transitive(a: Seq<u8>, b: Seq<u8>, c: Seq<u8>)
    requires
        lex_order(a, b) == ValueOrdering::Less,
        lex_order(b, c) == ValueOrdering::Less,
    ensures
        lex_order(a, c) == ValueOrdering::Less,
    decreases a.len(),
{
    if a.len() > 0 && b.len() > 0 && c.len() > 0 && a[0] == b[0] && b[0] == c[0] {
        lemma_lex_order_transitive(a.drop_first(), b.drop_first(), c.drop_first());
    }
}

} // verus!
