//! Target shapes, decoded results, decode errors, and what decoding a value into
//! a shape yields.
use vstd::prelude::*;
use crate::markers::{EndNodeId, Id, Keys, Labels, StartNodeId, Type};
use crate::temporal::{datetime_text, timestamp_of, TimeUnit};
use crate::value::{
    is_opaque_temporal, BoltKind, BoltPoint2D, BoltPoint3D, BoltType, contains_opaque, keys_of, kind_of, lookup,
    MapModel, NodeModel, strings_model, UnboundedRelationModel, ValueModel,
};

verus! {

/// The integer types a value can be narrowed into.
#[derive(Clone, Copy, Debug, PartialEq, Eq, Structural)]
pub enum IntWidth {
    I8,
    I16,
    I32,
    I64,
    U8,
    U16,
    U32,
    U64,
}

pub open spec fn width_min(w: IntWidth) -> int {
    match w {
        IntWidth::I8 => i8::MIN as int,
        IntWidth::I16 => i16::MIN as int,
        IntWidth::I32 => i32::MIN as int,
        IntWidth::I64 => i64::MIN as int,
        _ => 0,
    }
}

pub open spec fn width_max(w: IntWidth) -> int {
    match w {
        IntWidth::I8 => i8::MAX as int,
        IntWidth::I16 => i16::MAX as int,
        IntWidth::I32 => i32::MAX as int,
        IntWidth::I64 => i64::MAX as int,
        IntWidth::U8 => u8::MAX as int,
        IntWidth::U16 => u16::MAX as int,
        IntWidth::U32 => u32::MAX as int,
        IntWidth::U64 => u64::MAX as int,
    }
}

/// The structural metadata a marker field takes from a graph entity.
#[derive(Clone, Copy, Debug, PartialEq, Eq, Structural)]
pub enum MarkerKind {
    Id,
    StartNodeId,
    EndNodeId,
    Labels,
    Type,
    Keys,
}

/// A description of the target a value is decoded into.
#[derive(Debug)]
pub enum Shape {
    Unit,
    Bool,
    Int(IntWidth),
    /// An integer, or the instant of a date-time as a timestamp in the unit.
    Timestamp(TimeUnit),
    Float,
    Str,
    Bytes,
    /// Null is absent; anything else is decoded into the inner shape.
    Optional(Box<Shape>),
    /// Any number of elements of one shape.
    Sequence(Box<Shape>),
    /// A fixed number of positional elements.
    Tuple(Vec<Shape>),
    /// Key, value pairs with values of one shape.
    Entries(Box<Shape>),
    /// Named fields; with the flag set, unknown keys are rejected.
    Struct(Vec<(String, Shape)>, bool),
    Marker(MarkerKind),
    /// The wire value itself.
    Value,
}

/// What a shape asks for, without its parts: used to report errors.
#[derive(Clone, Copy, Debug, PartialEq, Eq, Structural)]
pub enum Request {
    Unit,
    Bool,
    Int(IntWidth),
    Timestamp(TimeUnit),
    Float,
    Str,
    Bytes,
    Optional,
    Sequence,
    Tuple(usize),
    Entries,
    Struct,
    Marker(MarkerKind),
    Value,
}

pub open spec fn request_of(s: Shape) -> Request {
    match s {
        Shape::Unit => Request::Unit,
        Shape::Bool => Request::Bool,
        Shape::Int(w) => Request::Int(w),
        Shape::Timestamp(u) => Request::Timestamp(u),
        Shape::Float => Request::Float,
        Shape::Str => Request::Str,
        Shape::Bytes => Request::Bytes,
        Shape::Optional(_) => Request::Optional,
        Shape::Sequence(_) => Request::Sequence,
        Shape::Tuple(ts) => Request::Tuple(ts@.len() as usize),
        Shape::Entries(_) => Request::Entries,
        Shape::Struct(_, _) => Request::Struct,
        Shape::Marker(k) => Request::Marker(k),
        Shape::Value => Request::Value,
    }
}

impl Shape {
    pub fn request(&self) -> (r: Request)
        ensures
            r == request_of(*self),
    {
        match self {
            Shape::Unit => Request::Unit,
            Shape::Bool => Request::Bool,
            Shape::Int(w) => Request::Int(*w),
            Shape::Timestamp(u) => Request::Timestamp(*u),
            Shape::Float => Request::Float,
            Shape::Str => Request::Str,
            Shape::Bytes => Request::Bytes,
            Shape::Optional(_) => Request::Optional,
            Shape::Sequence(_) => Request::Sequence,
            Shape::Tuple(ts) => Request::Tuple(ts.len()),
            Shape::Entries(_) => Request::Entries,
            Shape::Struct(_, _) => Request::Struct,
            Shape::Marker(k) => Request::Marker(*k),
            Shape::Value => Request::Value,
        }
    }
}

/// Why a value could not be decoded.
#[derive(Debug, PartialEq)]
pub enum DeError {
    /// The value's kind does not serve the request.
    KindMismatch { found: BoltKind, expected: Request },
    /// The integer does not fit the target type.
    IntegerOutOfBounds { value: i64, target: IntWidth },
    /// The date-time cannot be given in the requested form.
    DateTimeOutOfBounds { expected: Request },
    /// A key the strict target does not declare.
    UnknownField { name: String },
    /// A field the target declares and the value lacks.
    MissingField { name: String },
    /// The request is deliberately not served for this kind.
    UnsupportedShape { found: BoltKind, expected: Request },
}

pub enum ErrorModel {
    KindMismatch(BoltKind, Request),
    IntegerOutOfBounds(int, IntWidth),
    DateTimeOutOfBounds(Request),
    UnknownField(Seq<char>),
    MissingField(Seq<char>),
    UnsupportedShape(BoltKind, Request),
}

pub open spec fn error_model(e: DeError) -> ErrorModel {
    match e {
        DeError::KindMismatch { found, expected } => ErrorModel::KindMismatch(found, expected),
        DeError::IntegerOutOfBounds { value, target } => ErrorModel::IntegerOutOfBounds(value as int, target),
        DeError::DateTimeOutOfBounds { expected } => ErrorModel::DateTimeOutOfBounds(expected),
        DeError::UnknownField { name } => ErrorModel::UnknownField(name@),
        DeError::MissingField { name } => ErrorModel::MissingField(name@),
        DeError::UnsupportedShape { found, expected } => ErrorModel::UnsupportedShape(found, expected),
    }
}

impl View for DeError {
    type V = ErrorModel;

    open spec fn view(&self) -> ErrorModel {
        error_model(*self)
    }
}

/// A decoded result.
#[derive(Debug, PartialEq)]
pub enum Decoded {
    Unit,
    Bool(bool),
    Int(i64),
    /// An IEEE-754 bit pattern.
    Float(u64),
    Str(String),
    Bytes(Vec<u8>),
    Absent,
    Present(Box<Decoded>),
    Sequence(Vec<Decoded>),
    Entries(Vec<(String, Decoded)>),
    /// Struct fields in declared order.
    Record(Vec<Decoded>),
    Id(Id),
    StartNodeId(StartNodeId),
    EndNodeId(EndNodeId),
    Labels(Labels),
    Type(Type),
    Keys(Keys),
    Value(BoltType),
}

pub enum DecodedModel {
    Unit,
    Bool(bool),
    Int(int),
    Float(u64),
    Str(Seq<char>),
    Bytes(Seq<u8>),
    Absent,
    Present(Box<DecodedModel>),
    Sequence(Seq<DecodedModel>),
    Entries(Seq<(Seq<char>, DecodedModel)>),
    Record(Seq<DecodedModel>),
    Id(int),
    StartNodeId(int),
    EndNodeId(int),
    Labels(Seq<Seq<char>>),
    Type(Seq<char>),
    Keys(Seq<Seq<char>>),
    Value(ValueModel),
}

pub open spec fn decoded_seq_model(v: Seq<Decoded>) -> Seq<DecodedModel>
    decreases v,
{
    Seq::new(v.len(), |i: int| if 0 <= i < v.len() { decoded_model(v[i]) } else { DecodedModel::Unit })
}

pub open spec fn decoded_entries_model(v: Seq<(String, Decoded)>) -> Seq<(Seq<char>, DecodedModel)>
    decreases v,
{
    Seq::new(
        v.len(),
        |i: int|
            if 0 <= i < v.len() {
                (v[i].0@, decoded_model(v[i].1))
            } else {
                (Seq::empty(), DecodedModel::Unit)
            },
    )
}

pub open spec fn decoded_model(d: Decoded) -> DecodedModel
    decreases d,
{
    match d {
        Decoded::Unit => DecodedModel::Unit,
        Decoded::Bool(b) => DecodedModel::Bool(b),
        Decoded::Int(i) => DecodedModel::Int(i as int),
        Decoded::Float(f) => DecodedModel::Float(f),
        Decoded::Str(s) => DecodedModel::Str(s@),
        Decoded::Bytes(b) => DecodedModel::Bytes(b@),
        Decoded::Absent => DecodedModel::Absent,
        Decoded::Present(inner) => DecodedModel::Present(Box::new(decoded_model(*inner))),
        Decoded::Sequence(items) => DecodedModel::Sequence(decoded_seq_model(items@)),
        Decoded::Entries(items) => DecodedModel::Entries(decoded_entries_model(items@)),
        Decoded::Record(items) => DecodedModel::Record(decoded_seq_model(items@)),
        Decoded::Id(i) => DecodedModel::Id(i.0 as int),
        Decoded::StartNodeId(i) => DecodedModel::StartNodeId(i.0 as int),
        Decoded::EndNodeId(i) => DecodedModel::EndNodeId(i.0 as int),
        Decoded::Labels(l) => DecodedModel::Labels(strings_model(l.0@)),
        Decoded::Type(t) => DecodedModel::Type(t.0@),
        Decoded::Keys(k) => DecodedModel::Keys(strings_model(k.0@)),
        Decoded::Value(v) => DecodedModel::Value(v@),
    }
}

impl View for Decoded {
    type V = DecodedModel;

    open spec fn view(&self) -> DecodedModel {
        decoded_model(*self)
    }
}

pub open spec fn result_model(r: Result<Decoded, DeError>) -> Result<DecodedModel, ErrorModel> {
    match r {
        Ok(d) => Ok(d@),
        Err(e) => Err(e@),
    }
}

pub open spec fn mismatch(v: ValueModel, s: Shape) -> Result<DecodedModel, ErrorModel> {
    Err(ErrorModel::KindMismatch(kind_of(v), request_of(s)))
}

/// An integer narrowed into `w`, or the bounds error naming the value and the type.
pub open spec fn narrow(i: int, w: IntWidth) -> Result<DecodedModel, ErrorModel> {
    if width_min(w) <= i <= width_max(w) {
        Ok(DecodedModel::Int(i))
    } else {
        Err(ErrorModel::IntegerOutOfBounds(i, w))
    }
}

/// The fields a point shows to a struct target.
pub open spec fn point2d_fields(p: BoltPoint2D) -> MapModel {
    seq![
        ("sr_id"@, ValueModel::Integer(p.sr_id as int)),
        ("x"@, ValueModel::Float(p.x)),
        ("y"@, ValueModel::Float(p.y)),
    ]
}

pub open spec fn point3d_fields(p: BoltPoint3D) -> MapModel {
    seq![
        ("sr_id"@, ValueModel::Integer(p.sr_id as int)),
        ("x"@, ValueModel::Float(p.x)),
        ("y"@, ValueModel::Float(p.y)),
        ("z"@, ValueModel::Float(p.z)),
    ]
}

/// The coordinates of a point, in order.
pub open spec fn coordinates(v: ValueModel) -> Seq<ValueModel> {
    match v {
        ValueModel::Point2D(p) => seq![ValueModel::Float(p.x), ValueModel::Float(p.y)],
        ValueModel::Point3D(p) => seq![ValueModel::Float(p.x), ValueModel::Float(p.y), ValueModel::Float(p.z)],
        _ => Seq::empty(),
    }
}

pub open spec fn string_values(v: Seq<Seq<char>>) -> Seq<ValueModel> {
    Seq::new(v.len(), |i: int| ValueModel::String(v[i]))
}

/// The elements a tuple target reads by position: those of a list, the
/// coordinates of a point, or the fixed fields of a graph entity.
pub open spec fn positional(v: ValueModel) -> Option<Seq<ValueModel>> {
    match v {
        ValueModel::List(items) => Some(items),
        ValueModel::Point2D(_) => Some(coordinates(v)),
        ValueModel::Point3D(_) => Some(coordinates(v)),
        ValueModel::Node(n) => Some(
            seq![
                ValueModel::Integer(n.id),
                ValueModel::List(string_values(n.labels)),
                ValueModel::Dict(n.properties),
            ],
        ),
        ValueModel::Relation(r) => Some(
            seq![
                ValueModel::Integer(r.id),
                ValueModel::Integer(r.start_node_id),
                ValueModel::Integer(r.end_node_id),
                ValueModel::String(r.typ),
                ValueModel::Dict(r.properties),
            ],
        ),
        ValueModel::UnboundedRelation(r) => Some(
            seq![ValueModel::Integer(r.id), ValueModel::String(r.typ), ValueModel::Dict(r.properties)],
        ),
        _ => None,
    }
}

pub open spec fn byte_values(b: Seq<u8>) -> Seq<ValueModel> {
    Seq::new(b.len(), |i: int| ValueModel::Integer(b[i] as int))
}

/// The fields a path shows to a struct or map target: its nodes and its
/// relationships, each as a list.
pub open spec fn path_fields(nodes: Seq<NodeModel>, rels: Seq<UnboundedRelationModel>) -> MapModel {
    seq![
        ("nodes"@, ValueModel::List(Seq::new(nodes.len(), |i: int| ValueModel::Node(nodes[i])))),
        ("rels"@, ValueModel::List(Seq::new(rels.len(), |i: int| ValueModel::UnboundedRelation(rels[i])))),
    ]
}

/// The key, value pairs a struct or map target reads, for the kinds that have them.
pub open spec fn struct_source(v: ValueModel) -> Option<MapModel> {
    match v {
        ValueModel::Path(nodes, rels) => Some(path_fields(nodes, rels)),
        ValueModel::Dict(m) => Some(m),
        ValueModel::Node(n) => Some(n.properties),
        ValueModel::Relation(r) => Some(r.properties),
        ValueModel::UnboundedRelation(r) => Some(r.properties),
        ValueModel::Point2D(p) => Some(point2d_fields(p)),
        ValueModel::Point3D(p) => Some(point3d_fields(p)),
        _ => None,
    }
}

pub open spec fn identifier(i: int, k: MarkerKind) -> Result<DecodedModel, ErrorModel> {
    if i < 0 {
        Err(ErrorModel::IntegerOutOfBounds(i, IntWidth::U64))
    } else {
        Ok(
            match k {
                MarkerKind::StartNodeId => DecodedModel::StartNodeId(i),
                MarkerKind::EndNodeId => DecodedModel::EndNodeId(i),
                _ => DecodedModel::Id(i),
            },
        )
    }
}

/// The structural metadata `k` of a graph entity.
pub open spec fn marker_model(v: ValueModel, k: MarkerKind) -> Result<DecodedModel, ErrorModel> {
    let miss = Err(ErrorModel::KindMismatch(kind_of(v), Request::Marker(k)));
    match (k, v) {
        (MarkerKind::Id, ValueModel::Node(n)) => identifier(n.id, k),
        (MarkerKind::Id, ValueModel::Relation(r)) => identifier(r.id, k),
        (MarkerKind::Id, ValueModel::UnboundedRelation(r)) => identifier(r.id, k),
        (MarkerKind::StartNodeId, ValueModel::Relation(r)) => identifier(r.start_node_id, k),
        (MarkerKind::EndNodeId, ValueModel::Relation(r)) => identifier(r.end_node_id, k),
        (MarkerKind::Labels, ValueModel::Node(n)) => Ok(DecodedModel::Labels(n.labels)),
        (MarkerKind::Type, ValueModel::Relation(r)) => Ok(DecodedModel::Type(r.typ)),
        (MarkerKind::Type, ValueModel::UnboundedRelation(r)) => Ok(DecodedModel::Type(r.typ)),
        (MarkerKind::Keys, ValueModel::Node(n)) => Ok(DecodedModel::Keys(keys_of(n.properties))),
        (MarkerKind::Keys, ValueModel::Relation(r)) => Ok(DecodedModel::Keys(keys_of(r.properties))),
        (MarkerKind::Keys, ValueModel::UnboundedRelation(r)) => Ok(
            DecodedModel::Keys(keys_of(r.properties)),
        ),
        _ => miss,
    }
}

pub open spec fn field_names(fields: Seq<(String, Shape)>) -> Seq<Seq<char>> {
    Seq::new(fields.len(), |i: int| fields[i].0@)
}

/// The first key, in stored order, that is not among `names`.
pub open spec fn first_unknown(keys: Seq<Seq<char>>, names: Seq<Seq<char>>) -> Option<Seq<char>>
    decreases keys.len(),
{
    if keys.len() == 0 {
        None
    } else if !names.contains(keys[0]) {
        Some(keys[0])
    } else {
        first_unknown(keys.subrange(1, keys.len() as int), names)
    }
}

pub open spec fn as_sequence(r: Result<Seq<DecodedModel>, ErrorModel>) -> Result<DecodedModel, ErrorModel> {
    match r {
        Ok(items) => Ok(DecodedModel::Sequence(items)),
        Err(e) => Err(e),
    }
}

/// What decoding `v` into `s` yields.
pub open spec fn decode_model(v: ValueModel, s: Shape) -> Result<DecodedModel, ErrorModel>
    decreases s, 0int,
{
    match s {
        Shape::Unit => if v is Null {
            Ok(DecodedModel::Unit)
        } else {
            mismatch(v, s)
        },
        Shape::Bool => match v {
            ValueModel::Boolean(b) => Ok(DecodedModel::Bool(b)),
            _ => mismatch(v, s),
        },
        Shape::Int(w) => match v {
            ValueModel::Integer(i) => narrow(i, w),
            ValueModel::DateTime(d) => match timestamp_of(d, TimeUnit::Nanos) {
                Some(t) => narrow(t, w),
                None => Err(ErrorModel::DateTimeOutOfBounds(Request::Int(w))),
            },
            _ => mismatch(v, s),
        },
        Shape::Timestamp(u) => match v {
            ValueModel::Integer(i) => Ok(DecodedModel::Int(i)),
            ValueModel::DateTime(d) => match timestamp_of(d, u) {
                Some(t) => Ok(DecodedModel::Int(t)),
                None => Err(ErrorModel::DateTimeOutOfBounds(Request::Timestamp(u))),
            },
            _ => mismatch(v, s),
        },
        Shape::Float => match v {
            ValueModel::Float(f) => Ok(DecodedModel::Float(f)),
            _ => mismatch(v, s),
        },
        Shape::Str => match v {
            ValueModel::String(t) => Ok(DecodedModel::Str(t)),
            ValueModel::DateTime(d) => match datetime_text(d) {
                Some(t) => Ok(DecodedModel::Str(t)),
                None => Err(ErrorModel::DateTimeOutOfBounds(Request::Str)),
            },
            _ => mismatch(v, s),
        },
        Shape::Bytes => match v {
            ValueModel::Bytes(b) => Ok(DecodedModel::Bytes(b)),
            _ => mismatch(v, s),
        },
        Shape::Optional(inner) => if v is Null {
            Ok(DecodedModel::Absent)
        } else {
            match decode_model(v, *inner) {
                Ok(d) => Ok(DecodedModel::Present(Box::new(d))),
                Err(e) => Err(e),
            }
        },
        Shape::Sequence(e) => match v {
            ValueModel::List(items) => as_sequence(decode_items(items, *e, items.len() as int)),
            ValueModel::Bytes(b) => as_sequence(decode_items(byte_values(b), *e, b.len() as int)),
            ValueModel::Point2D(_) => as_sequence(decode_items(coordinates(v), *e, 2)),
            ValueModel::Point3D(_) => as_sequence(decode_items(coordinates(v), *e, 3)),
            _ => mismatch(v, s),
        },
        Shape::Tuple(ts) => match v {
            ValueModel::Dict(_) => Err(ErrorModel::UnsupportedShape(BoltKind::Dict, request_of(s))),
            _ => match positional(v) {
                Some(items) => if items.len() == ts@.len() {
                    as_sequence(decode_tuple(items, ts@, ts@.len() as int))
                } else {
                    mismatch(v, s)
                },
                None => mismatch(v, s),
            },
        },
        Shape::Entries(e) => match struct_source(v) {
            Some(m) => match decode_entries(m, *e, m.len() as int) {
                Ok(items) => Ok(DecodedModel::Entries(items)),
                Err(x) => Err(x),
            },
            None => mismatch(v, s),
        },
        Shape::Struct(fields, strict) => match struct_source(v) {
            Some(props) => if strict && first_unknown(keys_of(props), field_names(fields@)) is Some {
                Err(ErrorModel::UnknownField(first_unknown(keys_of(props), field_names(fields@))->0))
            } else {
                match decode_fields(v, props, fields@, fields@.len() as int) {
                    Ok(items) => Ok(DecodedModel::Record(items)),
                    Err(x) => Err(x),
                }
            },
            None => mismatch(v, s),
        },
        Shape::Marker(k) => marker_model(v, k),
        Shape::Value => if contains_opaque(v) {
            Err(ErrorModel::UnsupportedShape(kind_of(v), Request::Value))
        } else {
            Ok(DecodedModel::Value(v))
        },
    }
}

/// The first `n` items decoded into `e`, or the first error among them.
pub open spec fn decode_items(items: Seq<ValueModel>, e: Shape, n: int) -> Result<Seq<DecodedModel>, ErrorModel>
    decreases e, n,
{
    if n <= 0 {
        Ok(Seq::empty())
    } else {
        match decode_items(items, e, n - 1) {
            Ok(prefix) => match decode_model(items[n - 1], e) {
                Ok(d) => Ok(prefix.push(d)),
                Err(x) => Err(x),
            },
            Err(x) => Err(x),
        }
    }
}

/// The first `n` items each decoded into its own shape, or the first error.
pub open spec fn decode_tuple(items: Seq<ValueModel>, ts: Seq<Shape>, n: int) -> Result<Seq<DecodedModel>, ErrorModel>
    decreases ts, n,
{
    if n <= 0 || n > ts.len() {
        Ok(Seq::empty())
    } else {
        match decode_tuple(items, ts, n - 1) {
            Ok(prefix) => match decode_model(items[n - 1], ts[n - 1]) {
                Ok(d) => Ok(prefix.push(d)),
                Err(x) => Err(x),
            },
            Err(x) => Err(x),
        }
    }
}

/// The first `n` entries with their values decoded into `e`, or the first error.
pub open spec fn decode_entries(m: MapModel, e: Shape, n: int) -> Result<Seq<(Seq<char>, DecodedModel)>, ErrorModel>
    decreases e, n,
{
    if n <= 0 {
        Ok(Seq::empty())
    } else {
        match decode_entries(m, e, n - 1) {
            Ok(prefix) => match decode_model(m[n - 1].1, e) {
                Ok(d) => Ok(prefix.push((m[n - 1].0, d))),
                Err(x) => Err(x),
            },
            Err(x) => Err(x),
        }
    }
}

/// One declared field of a struct target read from `v`, whose keyed values are `props`.
pub open spec fn decode_field(v: ValueModel, props: MapModel, f: (String, Shape)) -> Result<DecodedModel, ErrorModel>
    decreases f, 1int,
{
    match f.1 {
        Shape::Marker(k) => marker_model(v, k),
        _ => match lookup(props, f.0@) {
            Some(x) => decode_model(x, f.1),
            None => if f.1 is Optional {
                Ok(DecodedModel::Absent)
            } else {
                Err(ErrorModel::MissingField(f.0@))
            },
        },
    }
}

/// The first `n` declared fields, or the first error among them.
pub open spec fn decode_fields(v: ValueModel, props: MapModel, fields: Seq<(String, Shape)>, n: int) -> Result<Seq<DecodedModel>, ErrorModel>
    decreases fields, n,
{
    if n <= 0 || n > fields.len() {
        Ok(Seq::empty())
    } else {
        match decode_fields(v, props, fields, n - 1) {
            Ok(prefix) => match decode_field(v, props, fields[n - 1]) {
                Ok(d) => Ok(prefix.push(d)),
                Err(x) => Err(x),
            },
            Err(x) => Err(x),
        }
    }
}

/// Decoding a value into the wire value type gives the value back, unless it
/// is, or holds, a duration, date, time, local time, local date-time or
/// zone-id date-time: then it fails as an unsupported shape.
pub proof fn lemma_round_trip(v: ValueModel)
    ensures
        !contains_opaque(v) ==> decode_model(v, Shape::Value) == Ok::<DecodedModel, ErrorModel>(
            DecodedModel::Value(v),
        ),
        contains_opaque(v) ==> decode_model(v, Shape::Value) == Err::<DecodedModel, ErrorModel>(
            ErrorModel::UnsupportedShape(kind_of(v), Request::Value),
        ),
        is_opaque_temporal(kind_of(v)) ==> decode_model(v, Shape::Value) is Err,
{
}

/// Decoding a map into a tuple target always fails as an unsupported shape,
/// whatever the number or order of its entries and of the tuple's elements.
pub proof fn lemma_tuple_from_map_unsupported(m: MapModel, ts: Vec<Shape>)
    ensures
        decode_model(ValueModel::Dict(m), Shape::Tuple(ts)) == Err::<DecodedModel, ErrorModel>(
            ErrorModel::UnsupportedShape(BoltKind::Dict, Request::Tuple(ts@.len() as usize)),
        ),
{
}

/// The entries of `m` whose key is among `names`.
pub open spec fn restrict(m: MapModel, names: Seq<Seq<char>>) -> MapModel {
    m.filter(|e: (Seq<char>, ValueModel)| names.contains(e.0))
}

proof fn lemma_restrict_lookup(m: MapModel, names: Seq<Seq<char>>, key: Seq<char>)
    requires
        names.contains(key),
    ensures
        lookup(restrict(m, names), key) == lookup(m, key),
    decreases m.len(),
{
    if m.len() > 0 {
        let rest = m.subrange(1, m.len() as int);
        lemma_restrict_lookup(rest, names, key);
        let f = |e: (Seq<char>, ValueModel)| names.contains(e.0);
        assert(m =~= seq![m[0]] + rest);
        rest.lemma_filter_prepend(m[0], f);
        let r = restrict(m, names);
        if f(m[0]) {
            assert(r =~= seq![m[0]] + rest.filter(f));
            assert(r[0] == m[0]);
            assert(r.subrange(1, r.len() as int) =~= rest.filter(f));
        } else {
            assert(r =~= rest.filter(f));
            assert(m[0].0 != key);
        }
    }
}

proof fn lemma_fields_ignore_extras(m: MapModel, fields: Seq<(String, Shape)>, n: int)
    requires
        0 <= n <= fields.len(),
    ensures
        decode_fields(ValueModel::Dict(m), m, fields, n) == decode_fields(
            ValueModel::Dict(restrict(m, field_names(fields))),
            restrict(m, field_names(fields)),
            fields,
            n,
        ),
    decreases n,
{
    if n > 0 {
        lemma_fields_ignore_extras(m, fields, n - 1);
        let names = field_names(fields);
        assert(names[n - 1] == fields[n - 1].0@);
        lemma_restrict_lookup(m, names, fields[n - 1].0@);
        let r = restrict(m, names);
        let f = fields[n - 1];
        if let Shape::Marker(k) = f.1 {
            assert(marker_model(ValueModel::Dict(m), k) == marker_model(ValueModel::Dict(r), k));
        }
        assert(decode_field(ValueModel::Dict(m), m, f) == decode_field(ValueModel::Dict(r), r, f));
    }
}

/// A strict struct target rejects a map holding a key it does not declare,
/// naming the first such key; the same target without strictness decodes the
/// map as it would decode the map without those keys.
pub proof fn lemma_strict_rejects_extra_keys(m: MapModel, fields: Vec<(String, Shape)>)
    requires
        exists|i: int| 0 <= i < m.len() && !field_names(fields@).contains(#[trigger] m[i].0),
    ensures
        decode_model(ValueModel::Dict(m), Shape::Struct(fields, true)) matches Err(
            ErrorModel::UnknownField(name),
        ) && keys_of(m).contains(name) && !field_names(fields@).contains(name),
        decode_model(ValueModel::Dict(m), Shape::Struct(fields, false)) == decode_model(
            ValueModel::Dict(restrict(m, field_names(fields@))),
            Shape::Struct(fields, false),
        ),
{
    let names = field_names(fields@);
    let i = choose|i: int| 0 <= i < m.len() && !names.contains(#[trigger] m[i].0);
    lemma_first_unknown(keys_of(m), names, i);
    lemma_fields_ignore_extras(m, fields@, fields@.len() as int);
}

proof fn lemma_first_unknown(keys: Seq<Seq<char>>, names: Seq<Seq<char>>, i: int)
    requires
        0 <= i < keys.len(),
        !names.contains(keys[i]),
    ensures
        first_unknown(keys, names) matches Some(k) && keys.contains(k) && !names.contains(k),
    decreases keys.len(),
{
    if names.contains(keys[0]) {
        let rest = keys.subrange(1, keys.len() as int);
        assert(rest[i - 1] == keys[i]);
        lemma_first_unknown(rest, names, i - 1);
        let k = first_unknown(rest, names)->0;
        let j = choose|j: int| 0 <= j < rest.len() && rest[j] == k;
        assert(keys[j + 1] == k);
    } else {
        assert(keys[0] == keys[0]);
    }
}

} // verus!
