//! Human-readable text of decode errors.
use vstd::prelude::*;
use crate::decode::{error_model, DeError, ErrorModel, IntWidth, MarkerKind, Request};
use crate::temporal::TimeUnit;
use crate::value::BoltKind;

verus! {

pub open spec fn digit_char(d: nat) -> char {
    if d == 0 {
        '0'
    } else if d == 1 {
        '1'
    } else if d == 2 {
        '2'
    } else if d == 3 {
        '3'
    } else if d == 4 {
        '4'
    } else if d == 5 {
        '5'
    } else if d == 6 {
        '6'
    } else if d == 7 {
        '7'
    } else if d == 8 {
        '8'
    } else {
        '9'
    }
}

/// The decimal digits of `n`, most significant first.
pub open spec fn digits(n: nat) -> Seq<char>
    decreases n,
{
    if n < 10 {
        seq![digit_char(n)]
    } else {
        digits(n / 10).push(digit_char(n % 10))
    }
}

/// The decimal text of `i`, with a leading minus sign when negative.
pub open spec fn decimal(i: int) -> Seq<char> {
    if i < 0 {
        seq!['-'] + digits((-i) as nat)
    } else {
        digits(i as nat)
    }
}

fn digit_str(d: u64) -> (r: &'static str)
    requires
        d < 10,
    ensures
        r@ == seq![digit_char(d as nat)],
{
    proof {
        reveal_strlit("0");
        reveal_strlit("1");
        reveal_strlit("2");
        reveal_strlit("3");
        reveal_strlit("4");
        reveal_strlit("5");
        reveal_strlit("6");
        reveal_strlit("7");
        reveal_strlit("8");
        reveal_strlit("9");
    }
    match d {
        0 => "0",
        1 => "1",
        2 => "2",
        3 => "3",
        4 => "4",
        5 => "5",
        6 => "6",
        7 => "7",
        8 => "8",
        _ => "9",
    }
}

fn push_digits(s: &mut String, n: u64)
    ensures
        final(s)@ == old(s)@ + digits(n as nat),
    decreases n,
{
    if n >= 10 {
        push_digits(s, n / 10);
    }
    s.append(digit_str(n % 10));
    proof {
        if n >= 10 {
            assert(old(s)@ + digits((n / 10) as nat) + seq![digit_char((n % 10) as nat)] =~= old(s)@ + digits(
                n as nat,
            ));
        } else {
            assert(n % 10 == n);
        }
    }
}

/// The decimal text of an integer.
pub fn decimal_text(i: i64) -> (r: String)
    ensures
        r@ == decimal(i as int),
{
    let mut s = String::new();
    if i < 0 {
        s.append("-");
        let magnitude: u64 = (0i128 - i as i128) as u64;
        push_digits(&mut s, magnitude);
        proof {
            reveal_strlit("-");
        }
    } else {
        push_digits(&mut s, i as u64);
    }
    s
}

pub open spec fn kind_name(k: BoltKind) -> Seq<char> {
    match k {
        BoltKind::Null => "Null"@,
        BoltKind::Boolean => "Boolean"@,
        BoltKind::Integer => "Integer"@,
        BoltKind::Float => "Float"@,
        BoltKind::String => "String"@,
        BoltKind::Bytes => "Bytes"@,
        BoltKind::List => "List"@,
        BoltKind::Dict => "Map"@,
        BoltKind::Node => "Node"@,
        BoltKind::Relation => "Relation"@,
        BoltKind::UnboundedRelation => "UnboundedRelation"@,
        BoltKind::Path => "Path"@,
        BoltKind::Point2D => "Point2D"@,
        BoltKind::Point3D => "Point3D"@,
        BoltKind::Duration => "Duration"@,
        BoltKind::Date => "Date"@,
        BoltKind::Time => "Time"@,
        BoltKind::LocalTime => "LocalTime"@,
        BoltKind::DateTime => "DateTime"@,
        BoltKind::LocalDateTime => "LocalDateTime"@,
        BoltKind::DateTimeZoneId => "DateTimeZoneId"@,
    }
}

fn kind_str(k: BoltKind) -> (r: &'static str)
    ensures
        r@ == kind_name(k),
{
    match k {
        BoltKind::Null => "Null",
        BoltKind::Boolean => "Boolean",
        BoltKind::Integer => "Integer",
        BoltKind::Float => "Float",
        BoltKind::String => "String",
        BoltKind::Bytes => "Bytes",
        BoltKind::List => "List",
        BoltKind::Dict => "Map",
        BoltKind::Node => "Node",
        BoltKind::Relation => "Relation",
        BoltKind::UnboundedRelation => "UnboundedRelation",
        BoltKind::Path => "Path",
        BoltKind::Point2D => "Point2D",
        BoltKind::Point3D => "Point3D",
        BoltKind::Duration => "Duration",
        BoltKind::Date => "Date",
        BoltKind::Time => "Time",
        BoltKind::LocalTime => "LocalTime",
        BoltKind::DateTime => "DateTime",
        BoltKind::LocalDateTime => "LocalDateTime",
        BoltKind::DateTimeZoneId => "DateTimeZoneId",
    }
}

pub open spec fn width_name(w: IntWidth) -> Seq<char> {
    match w {
        IntWidth::I8 => "i8"@,
        IntWidth::I16 => "i16"@,
        IntWidth::I32 => "i32"@,
        IntWidth::I64 => "i64"@,
        IntWidth::U8 => "u8"@,
        IntWidth::U16 => "u16"@,
        IntWidth::U32 => "u32"@,
        IntWidth::U64 => "u64"@,
    }
}

fn width_str(w: IntWidth) -> (r: &'static str)
    ensures
        r@ == width_name(w),
{
    match w {
        IntWidth::I8 => "i8",
        IntWidth::I16 => "i16",
        IntWidth::I32 => "i32",
        IntWidth::I64 => "i64",
        IntWidth::U8 => "u8",
        IntWidth::U16 => "u16",
        IntWidth::U32 => "u32",
        IntWidth::U64 => "u64",
    }
}

pub open spec fn request_name(r: Request) -> Seq<char> {
    match r {
        Request::Unit => "unit"@,
        Request::Bool => "a boolean"@,
        Request::Int(w) => width_name(w),
        Request::Timestamp(TimeUnit::Seconds) => "a timestamp in seconds"@,
        Request::Timestamp(TimeUnit::Millis) => "a timestamp in milliseconds"@,
        Request::Timestamp(TimeUnit::Micros) => "a timestamp in microseconds"@,
        Request::Timestamp(TimeUnit::Nanos) => "a timestamp in nanoseconds"@,
        Request::Float => "a float"@,
        Request::Str => "a string"@,
        Request::Bytes => "bytes"@,
        Request::Optional => "an option"@,
        Request::Sequence => "a sequence"@,
        Request::Tuple(_) => "a tuple"@,
        Request::Entries => "a map"@,
        Request::Struct => "a struct"@,
        Request::Marker(MarkerKind::Id) => "an element id"@,
        Request::Marker(MarkerKind::StartNodeId) => "a start node id"@,
        Request::Marker(MarkerKind::EndNodeId) => "an end node id"@,
        Request::Marker(MarkerKind::Labels) => "labels"@,
        Request::Marker(MarkerKind::Type) => "a relationship type"@,
        Request::Marker(MarkerKind::Keys) => "property keys"@,
        Request::Value => "a wire value"@,
    }
}

fn request_str(r: Request) -> (s: &'static str)
    ensures
        s@ == request_name(r),
{
    match r {
        Request::Unit => "unit",
        Request::Bool => "a boolean",
        Request::Int(w) => width_str(w),
        Request::Timestamp(TimeUnit::Seconds) => "a timestamp in seconds",
        Request::Timestamp(TimeUnit::Millis) => "a timestamp in milliseconds",
        Request::Timestamp(TimeUnit::Micros) => "a timestamp in microseconds",
        Request::Timestamp(TimeUnit::Nanos) => "a timestamp in nanoseconds",
        Request::Float => "a float",
        Request::Str => "a string",
        Request::Bytes => "bytes",
        Request::Optional => "an option",
        Request::Sequence => "a sequence",
        Request::Tuple(_) => "a tuple",
        Request::Entries => "a map",
        Request::Struct => "a struct",
        Request::Marker(MarkerKind::Id) => "an element id",
        Request::Marker(MarkerKind::StartNodeId) => "a start node id",
        Request::Marker(MarkerKind::EndNodeId) => "an end node id",
        Request::Marker(MarkerKind::Labels) => "labels",
        Request::Marker(MarkerKind::Type) => "a relationship type",
        Request::Marker(MarkerKind::Keys) => "property keys",
        Request::Value => "a wire value",
    }
}

/// The text of a decode error: it names the offending kind, the requested
/// target and, for a bounds violation, the value.
pub open spec fn message_of(e: ErrorModel) -> Seq<char> {
    match e {
        ErrorModel::KindMismatch(k, r) => "invalid type: "@ + kind_name(k) + ", expected "@ + request_name(r),
        ErrorModel::IntegerOutOfBounds(v, w) => "Could not convert the integer `"@ + decimal(v)
            + "` to the target type "@ + width_name(w),
        ErrorModel::DateTimeOutOfBounds(r) => "Could not convert the date-time into "@ + request_name(r),
        ErrorModel::UnknownField(name) => "unknown field `"@ + name + "`"@,
        ErrorModel::MissingField(name) => "missing field `"@ + name + "`"@,
        ErrorModel::UnsupportedShape(k, r) => "unsupported: "@ + kind_name(k) + " cannot be decoded into "@
            + request_name(r),
    }
}

impl DeError {
    /// The text of this error.
    pub fn to_string(&self) -> (r: String)
        ensures
            r@ == message_of(error_model(*self)),
    {
        let mut s = String::new();
        match self {
            DeError::KindMismatch { found, expected } => {
                s.append("invalid type: ");
                s.append(kind_str(*found));
                s.append(", expected ");
                s.append(request_str(*expected));
            },
            DeError::IntegerOutOfBounds { value, target } => {
                s.append("Could not convert the integer `");
                let digits = decimal_text(*value);
                s.append(digits.as_str());
                s.append("` to the target type ");
                s.append(width_str(*target));
            },
            DeError::DateTimeOutOfBounds { expected } => {
                s.append("Could not convert the date-time into ");
                s.append(request_str(*expected));
            },
            DeError::UnknownField { name } => {
                s.append("unknown field `");
                s.append(name.as_str());
                s.append("`");
            },
            DeError::MissingField { name } => {
                s.append("missing field `");
                s.append(name.as_str());
                s.append("`");
            },
            DeError::UnsupportedShape { found, expected } => {
                s.append("unsupported: ");
                s.append(kind_str(*found));
                s.append(" cannot be decoded into ");
                s.append(request_str(*expected));
            },
        }
        s
    }
}

} // verus!
