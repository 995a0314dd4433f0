use vstd::prelude::*;

verus! {

/// Calendar date, as the host hands it over: year, month and day as plain
/// numbers. Rendered as `YYYY-MM-DD`, fixed width, zero-padded.
#[derive(Clone, Copy, Debug)]
pub struct Date {
    pub year: u16,
    pub month: u8,
    pub day: u8,
}

/// Wall-clock time. `has_tzinfo` records whether the host value carried
/// timezone information; such a value is rejected by the encoder.
#[derive(Clone, Copy, Debug)]
pub struct Time {
    pub hour: u8,
    pub minute: u8,
    pub second: u8,
    pub microsecond: u32,
    pub has_tzinfo: bool,
}

/// Timezone attached to a date-time value.
#[derive(Clone, Copy, Debug)]
pub enum Zone {
    /// No timezone information: rendered with no suffix.
    Naive,
    /// UTC: rendered as the suffix `Z`.
    Utc,
    /// Fixed offset in minutes east of UTC: rendered as `+HH:MM` or `-HH:MM`.
    Fixed(i32),
    /// A timezone representation the encoder does not understand.
    Unsupported,
}

/// Combined date and time with optional timezone.
#[derive(Clone, Copy, Debug)]
pub struct DateTime {
    pub year: u16,
    pub month: u8,
    pub day: u8,
    pub hour: u8,
    pub minute: u8,
    pub second: u8,
    pub microsecond: u32,
    pub zone: Zone,
}

/// One value of the host's dynamically-typed value graph, reduced to the
/// plain data the encoder reads from it. Containers own their children;
/// insertion and declaration order of the host value is kept.
pub enum Value {
    /// A host string with well-formed text.
    Str(String),
    /// A host string whose bytes could not be decoded; encoding it fails.
    StrInvalid,
    /// A host integer that fits 64 signed bits.
    Int(i64),
    /// A host integer wider than 64 bits; encoding it fails.
    IntBig,
    /// A host double, carried as its decimal rendering. The caller supplies
    /// the text for the finite double; non-finite renderings pass through
    /// unchanged, as the host's own JSON semantics leave them to the caller.
    Float(String),
    Bool(bool),
    Null,
    /// Ordered sequence, rendered as a JSON array.
    List(Vec<Value>),
    /// Immutable ordered sequence, also rendered as a JSON array.
    Tuple(Vec<Value>),
    /// Key-value container in insertion order; keys must be strings.
    Dict(Vec<(Value, Value)>),
    DateTime(DateTime),
    Date(Date),
    Time(Time),
    /// 128-bit identifier, rendered in canonical hyphenated hexadecimal.
    Identifier(u128),
    /// Record with a declared, ordered field set.
    Record(Vec<(String, Value)>),
    /// A value of a kind the encoder does not know, carrying its type name.
    Unrecognized(String),
}

/// The name of the host type a value stands for, as it appears in error
/// messages.
pub open spec fn type_name_spec(v: Value) -> Seq<char> {
    match v {
        Value::Str(_) => "str"@,
        Value::StrInvalid => "str"@,
        Value::Int(_) => "int"@,
        Value::IntBig => "int"@,
        Value::Float(_) => "float"@,
        Value::Bool(_) => "bool"@,
        Value::Null => "NoneType"@,
        Value::List(_) => "list"@,
        Value::Tuple(_) => "tuple"@,
        Value::Dict(_) => "dict"@,
        Value::DateTime(_) => "datetime.datetime"@,
        Value::Date(_) => "datetime.date"@,
        Value::Time(_) => "datetime.time"@,
        Value::Identifier(_) => "UUID"@,
        Value::Record(_) => "dataclass"@,
        Value::Unrecognized(name) => name@,
    }
}

} // verus!
