use boltwire::{
    decode, BoltDateTime, BoltDuration, BoltKind, BoltMap, BoltNode, BoltPath, BoltPoint2D, BoltPoint3D, BoltRelation,
    BoltType, BoltTypeDeserializer, BoltUnboundedRelation, DeError, Decoded, EndNodeId, Id, IntWidth, Keys,
    Labels, MarkerKind, Request, Shape, StartNodeId, TimeUnit, Type,
};
use chrono::{DateTime, FixedOffset, Utc};
use std::collections::HashSet;

fn text(x: &str) -> BoltType {
    BoltType::String(x.to_string())
}

fn integer(x: i64) -> BoltType {
    BoltType::Integer(x)
}

fn float(x: f64) -> BoltType {
    BoltType::Float(x.to_bits())
}

fn map(entries: Vec<(&str, BoltType)>) -> BoltMap {
    BoltMap { value: entries.into_iter().map(|(k, v)| (k.to_string(), v)).collect() }
}

fn fields(fs: Vec<(&str, Shape)>) -> Vec<(String, Shape)> {
    fs.into_iter().map(|(k, s)| (k.to_string(), s)).collect()
}

fn person(strict: bool) -> Shape {
    Shape::Struct(fields(vec![("name", Shape::Str), ("age", Shape::Int(IntWidth::U8))]), strict)
}

fn st(x: &str) -> Decoded {
    Decoded::Str(x.to_string())
}

fn date_time(dt: DateTime<FixedOffset>) -> BoltType {
    BoltType::DateTime(BoltDateTime {
        seconds: dt.timestamp(),
        nanoseconds: dt.timestamp_subsec_nanos() as i64,
        tz_offset_seconds: dt.offset().local_minus_utc() as i64,
    })
}

fn alice_props() -> BoltMap {
    map(vec![("name", text("Alice")), ("age", integer(42))])
}

fn key_set(keys: &Keys) -> HashSet<String> {
    keys.0.iter().cloned().collect()
}

fn record(d: Decoded) -> Vec<Decoded> {
    match d {
        Decoded::Record(items) => items,
        other => panic!("not a record: {:?}", other),
    }
}

#[test]
fn map_with_extra_fields() {
    let m = BoltType::Dict(map(vec![("name", text("Alice")), ("age", integer(42)), ("bar", integer(1337))]));
    let actual = decode(&m, &person(false)).unwrap();
    assert_eq!(actual, Decoded::Record(vec![st("Alice"), Decoded::Int(42)]));
}

#[test]
fn map_with_extra_fields_fails_for_deny_unknown_fields() {
    let m = BoltType::Dict(map(vec![("name", text("Alice")), ("age", integer(42)), ("bar", integer(1337))]));
    assert!(decode(&m, &person(true)).is_err());
}

#[test]
fn simple_struct() {
    let m = BoltType::Dict(alice_props());
    let actual = decode(&m, &person(false)).unwrap();
    assert_eq!(actual, Decoded::Record(vec![st("Alice"), Decoded::Int(42)]));
}

#[test]
fn tuple_struct_from_list() {
    let list = BoltType::List(vec![text("Alice"), integer(42)]);
    let shape = Shape::Tuple(vec![Shape::Str, Shape::Int(IntWidth::U8)]);
    let actual = decode(&list, &shape).unwrap();
    assert_eq!(actual, Decoded::Sequence(vec![st("Alice"), Decoded::Int(42)]));
}

#[test]
fn tuple_struct_from_map_fails() {
    // Maps are unordered, so their values cannot be matched to positions.
    let m = BoltType::Dict(alice_props());
    let shape = Shape::Tuple(vec![Shape::Str, Shape::Int(IntWidth::U8)]);
    assert!(decode(&m, &shape).is_err());
}

#[test]
fn node() {
    let node = BoltType::Node(BoltNode { id: 1337, labels: vec!["Person".to_string()], properties: alice_props() });
    let shape = Shape::Struct(
        fields(vec![
            ("id", Shape::Marker(MarkerKind::Id)),
            ("labels", Shape::Marker(MarkerKind::Labels)),
            ("keys", Shape::Marker(MarkerKind::Keys)),
            ("name", Shape::Str),
            ("age", Shape::Int(IntWidth::U8)),
        ]),
        false,
    );
    let items = record(decode(&node, &shape).unwrap());
    assert_eq!(items.len(), 5);
    assert_eq!(items[0], Decoded::Id(Id(1337)));
    assert_eq!(items[1], Decoded::Labels(Labels(vec!["Person".to_string()])));
    match &items[2] {
        Decoded::Keys(k) => {
            assert_eq!(key_set(k), ["name".to_string(), "age".to_string()].into_iter().collect::<HashSet<_>>())
        },
        other => panic!("not keys: {:?}", other),
    }
    assert_eq!(items[3], st("Alice"));
    assert_eq!(items[4], Decoded::Int(42));
}

#[test]
fn relation() {
    let relation = BoltType::Relation(BoltRelation {
        id: 1337,
        start_node_id: 21,
        end_node_id: 84,
        typ: "Person".to_string(),
        properties: alice_props(),
    });
    let shape = Shape::Struct(
        fields(vec![
            ("id", Shape::Marker(MarkerKind::Id)),
            ("start", Shape::Marker(MarkerKind::StartNodeId)),
            ("end", Shape::Marker(MarkerKind::EndNodeId)),
            ("typ", Shape::Marker(MarkerKind::Type)),
            ("keys", Shape::Marker(MarkerKind::Keys)),
            ("name", Shape::Str),
            ("age", Shape::Int(IntWidth::U8)),
        ]),
        false,
    );
    let items = record(decode(&relation, &shape).unwrap());
    assert_eq!(items[0], Decoded::Id(Id(1337)));
    assert_eq!(items[1], Decoded::StartNodeId(StartNodeId(21)));
    assert_eq!(items[2], Decoded::EndNodeId(EndNodeId(84)));
    assert_eq!(items[3], Decoded::Type(Type("Person".to_string())));
    match &items[4] {
        Decoded::Keys(k) => {
            assert_eq!(key_set(k), ["name".to_string(), "age".to_string()].into_iter().collect::<HashSet<_>>())
        },
        other => panic!("not keys: {:?}", other),
    }
    assert_eq!(items[5], st("Alice"));
    assert_eq!(items[6], Decoded::Int(42));
}

#[test]
fn unbounded_relation() {
    let relation = BoltType::UnboundedRelation(BoltUnboundedRelation {
        id: 1337,
        typ: "Person".to_string(),
        properties: alice_props(),
    });
    let shape = Shape::Struct(
        fields(vec![
            ("id", Shape::Marker(MarkerKind::Id)),
            ("typ", Shape::Marker(MarkerKind::Type)),
            ("keys", Shape::Marker(MarkerKind::Keys)),
            ("name", Shape::Str),
            ("age", Shape::Int(IntWidth::U8)),
        ]),
        false,
    );
    let items = record(decode(&relation, &shape).unwrap());
    assert_eq!(items[0], Decoded::Id(Id(1337)));
    assert_eq!(items[1], Decoded::Type(Type("Person".to_string())));
    match &items[2] {
        Decoded::Keys(k) => {
            assert_eq!(key_set(k), ["name".to_string(), "age".to_string()].into_iter().collect::<HashSet<_>>())
        },
        other => panic!("not keys: {:?}", other),
    }
    assert_eq!(items[3], st("Alice"));
    assert_eq!(items[4], Decoded::Int(42));
}

#[test]
fn tuple() {
    let list = BoltType::List(vec![text("Alice"), integer(42)]);
    let shape = Shape::Tuple(vec![Shape::Str, Shape::Int(IntWidth::U8)]);
    let actual = decode(&list, &shape).unwrap();
    assert_eq!(actual, Decoded::Sequence(vec![st("Alice"), Decoded::Int(42)]));
}

#[test]
fn borrowing_struct() {
    let m = BoltType::Dict(alice_props());
    let actual = BoltTypeDeserializer::new(&m).deserialize(&person(false)).unwrap();
    assert_eq!(actual, Decoded::Record(vec![st("Alice"), Decoded::Int(42)]));
}

#[test]
fn various_types() {
    let m = BoltType::Dict(map(vec![
        ("borrowed", text("I am borrowed")),
        ("owned", text("I am cloned and owned")),
        ("float", float(13.37)),
        ("int", integer(42)),
        ("long", integer(1337)),
        ("boolean", BoltType::Boolean(true)),
        ("unit", BoltType::Null),
    ]));
    let shape = Shape::Struct(
        fields(vec![
            ("borrowed", Shape::Str),
            ("owned", Shape::Str),
            ("float", Shape::Float),
            ("int", Shape::Int(IntWidth::I32)),
            ("long", Shape::Int(IntWidth::I64)),
            ("boolean", Shape::Bool),
            ("unit", Shape::Unit),
        ]),
        false,
    );
    let actual = decode(&m, &shape).unwrap();
    assert_eq!(
        actual,
        Decoded::Record(vec![
            st("I am borrowed"),
            st("I am cloned and owned"),
            Decoded::Float(13.37f64.to_bits()),
            Decoded::Int(42),
            Decoded::Int(1337),
            Decoded::Bool(true),
            Decoded::Unit,
        ])
    );
}

fn bytes_shape(names: &[&str]) -> Shape {
    Shape::Struct(names.iter().map(|n| (n.to_string(), Shape::Bytes)).collect(), false)
}

#[test]
fn std_bytes() {
    let m = BoltType::Dict(map(vec![
        ("bytes", BoltType::Bytes(vec![4, 2])),
        ("slice", BoltType::Bytes(vec![1, 3, 3, 7])),
    ]));
    let actual = decode(&m, &bytes_shape(&["bytes", "slice"])).unwrap();
    assert_eq!(actual, Decoded::Record(vec![Decoded::Bytes(vec![4, 2]), Decoded::Bytes(vec![1, 3, 3, 7])]));
}

#[test]
fn serde_bytes_bytes() {
    let m = BoltType::Dict(map(vec![
        ("bytes", BoltType::Bytes(vec![4, 2])),
        ("slice", BoltType::Bytes(vec![1, 3, 3, 7])),
    ]));
    let actual = decode(&m, &bytes_shape(&["bytes", "slice"])).unwrap();
    assert_eq!(actual, Decoded::Record(vec![Decoded::Bytes(vec![4, 2]), Decoded::Bytes(vec![1, 3, 3, 7])]));
}

#[test]
fn serde_with_bytes() {
    let m = BoltType::Dict(map(vec![
        ("array", BoltType::Bytes(vec![1, 3, 3, 7])),
        ("boxed", BoltType::Bytes(vec![4, 2])),
        ("cow", BoltType::Bytes(vec![1, 3, 3, 7])),
        ("cow_array", BoltType::Bytes(vec![4, 2])),
        ("bytes", BoltType::Bytes(vec![1, 3, 3, 7])),
        ("slice", BoltType::Bytes(vec![4, 2])),
    ]));
    let actual = decode(&m, &bytes_shape(&["array", "boxed", "cow", "cow_array", "bytes", "slice"])).unwrap();
    assert_eq!(
        actual,
        Decoded::Record(vec![
            Decoded::Bytes(vec![1, 3, 3, 7]),
            Decoded::Bytes(vec![4, 2]),
            Decoded::Bytes(vec![1, 3, 3, 7]),
            Decoded::Bytes(vec![4, 2]),
            Decoded::Bytes(vec![1, 3, 3, 7]),
            Decoded::Bytes(vec![4, 2]),
        ])
    );
}

#[test]
fn nested_struct() {
    let m = BoltType::Dict(map(vec![
        ("p0", BoltType::Dict(map(vec![("name", text("Alice")), ("age", integer(42))]))),
        ("p1", BoltType::Dict(map(vec![("name", text("Bob")), ("age", integer(1337))]))),
    ]));
    let person = || Shape::Struct(fields(vec![("name", Shape::Str), ("age", Shape::Int(IntWidth::U32))]), false);
    let shape = Shape::Struct(fields(vec![("p0", person()), ("p1", person())]), false);
    let actual = decode(&m, &shape).unwrap();
    assert_eq!(
        actual,
        Decoded::Record(vec![
            Decoded::Record(vec![st("Alice"), Decoded::Int(42)]),
            Decoded::Record(vec![st("Bob"), Decoded::Int(1337)]),
        ])
    );
}

#[test]
fn list() {
    let list = BoltType::List(vec![integer(42), integer(1337)]);
    let actual = decode(&list, &Shape::Sequence(Box::new(Shape::Int(IntWidth::I64)))).unwrap();
    assert_eq!(actual, Decoded::Sequence(vec![Decoded::Int(42), Decoded::Int(1337)]));
}

#[test]
fn nested_list() {
    let data = BoltType::Dict(map(vec![("bars", BoltType::List(vec![integer(42), integer(1337)]))]));
    let shape = Shape::Struct(
        fields(vec![("bars", Shape::Sequence(Box::new(Shape::Int(IntWidth::I64))))]),
        false,
    );
    let actual = decode(&data, &shape).unwrap();
    assert_eq!(actual, Decoded::Record(vec![Decoded::Sequence(vec![Decoded::Int(42), Decoded::Int(1337)])]));
}

fn expected_instant() -> DateTime<FixedOffset> {
    DateTime::parse_from_rfc3339("1999-07-14T13:37:42+02:00").unwrap()
}

#[test]
fn datetime() {
    let expected = expected_instant();
    let datetime = date_time(expected);
    let actual = match decode(&datetime, &Shape::Str).unwrap() {
        Decoded::Str(s) => DateTime::parse_from_rfc3339(&s).unwrap(),
        other => panic!("not a string: {:?}", other),
    };
    assert_eq!(actual, expected);
}

fn timestamp_of(d: Decoded) -> i64 {
    match d {
        Decoded::Int(i) => i,
        Decoded::Present(inner) => timestamp_of(*inner),
        other => panic!("not an integer: {:?}", other),
    }
}

#[test]
fn datetime_nanoseconds() {
    let expected = expected_instant();
    let n = timestamp_of(decode(&date_time(expected), &Shape::Timestamp(TimeUnit::Nanos)).unwrap());
    let actual: DateTime<Utc> = DateTime::from_timestamp_nanos(n);
    assert_eq!(actual, expected);
}

#[test]
fn datetime_opt_nanoseconds() {
    let expected = expected_instant();
    let shape = Shape::Optional(Box::new(Shape::Timestamp(TimeUnit::Nanos)));
    let n = timestamp_of(decode(&date_time(expected), &shape).unwrap());
    let actual: DateTime<Utc> = DateTime::from_timestamp_nanos(n);
    assert_eq!(actual, expected);
}

#[test]
fn datetime_microseconds() {
    let expected = expected_instant();
    let n = timestamp_of(decode(&date_time(expected), &Shape::Timestamp(TimeUnit::Micros)).unwrap());
    let actual: DateTime<Utc> = DateTime::from_timestamp_micros(n).unwrap();
    assert_eq!(actual, expected);
}

#[test]
fn datetime_opt_microseconds() {
    let expected = expected_instant();
    let shape = Shape::Optional(Box::new(Shape::Timestamp(TimeUnit::Micros)));
    let n = timestamp_of(decode(&date_time(expected), &shape).unwrap());
    let actual: DateTime<Utc> = DateTime::from_timestamp_micros(n).unwrap();
    assert_eq!(actual, expected);
}

#[test]
fn datetime_milliseconds() {
    let expected = expected_instant();
    let n = timestamp_of(decode(&date_time(expected), &Shape::Timestamp(TimeUnit::Millis)).unwrap());
    let actual: DateTime<Utc> = DateTime::from_timestamp_millis(n).unwrap();
    assert_eq!(actual, expected);
}

#[test]
fn datetime_opt_milliseconds() {
    let expected = expected_instant();
    let shape = Shape::Optional(Box::new(Shape::Timestamp(TimeUnit::Millis)));
    let n = timestamp_of(decode(&date_time(expected), &shape).unwrap());
    let actual: DateTime<Utc> = DateTime::from_timestamp_millis(n).unwrap();
    assert_eq!(actual, expected);
}

#[test]
fn datetime_seconds() {
    let expected = expected_instant();
    let n = timestamp_of(decode(&date_time(expected), &Shape::Timestamp(TimeUnit::Seconds)).unwrap());
    let actual: DateTime<Utc> = DateTime::from_timestamp(n, 0).unwrap();
    assert_eq!(actual, expected);
}

#[test]
fn datetime_opt_seconds() {
    let expected = expected_instant();
    let shape = Shape::Optional(Box::new(Shape::Timestamp(TimeUnit::Seconds)));
    let n = timestamp_of(decode(&date_time(expected), &shape).unwrap());
    let actual: DateTime<Utc> = DateTime::from_timestamp(n, 0).unwrap();
    assert_eq!(actual, expected);
}

#[test]
fn point_2d() {
    let point = BoltType::Point2D(BoltPoint2D { sr_id: 420, x: 42.0f64.to_bits(), y: 13.37f64.to_bits() });
    let shape = Shape::Struct(fields(vec![("x", Shape::Float), ("y", Shape::Float)]), false);
    let actual = decode(&point, &shape).unwrap();
    assert_eq!(
        actual,
        Decoded::Record(vec![Decoded::Float(42.0f64.to_bits()), Decoded::Float(13.37f64.to_bits())])
    );
}

#[test]
fn point_3d() {
    let point = BoltType::Point3D(BoltPoint3D {
        sr_id: 420,
        x: 42.0f64.to_bits(),
        y: 13.37f64.to_bits(),
        z: 84.0f64.to_bits(),
    });
    let shape = Shape::Struct(fields(vec![("x", Shape::Float), ("y", Shape::Float), ("z", Shape::Float)]), false);
    let actual = decode(&point, &shape).unwrap();
    assert_eq!(
        actual,
        Decoded::Record(vec![
            Decoded::Float(42.0f64.to_bits()),
            Decoded::Float(13.37f64.to_bits()),
            Decoded::Float(84.0f64.to_bits()),
        ])
    );
}

#[test]
fn type_convert() {
    let i = integer(42);
    assert_eq!(decode(&i, &Shape::Int(IntWidth::I8)).unwrap(), Decoded::Int(42));
}

#[test]
fn type_convert_error() {
    let i = integer(1337);
    assert_eq!(
        decode(&i, &Shape::Int(IntWidth::I8)).unwrap_err().to_string(),
        "Could not convert the integer `1337` to the target type i8"
    );
}

#[test]
fn deserialize_roundtrips() {
    let m = BoltType::Dict(map(vec![
        ("age", integer(42)),
        ("awesome", BoltType::Boolean(true)),
        ("values", BoltType::List(vec![float(13.37), float(42.84)])),
        ("payload", BoltType::Bytes(b"Hello, World!".to_vec())),
        ("secret", BoltType::Null),
        ("event", date_time(expected_instant())),
    ]));
    let actual = decode(&m, &Shape::Value).unwrap();
    assert_eq!(actual, Decoded::Value(m));
}

#[test]
fn round_trip_rejects_duration() {
    let d = BoltType::Duration(BoltDuration { months: 1, days: 2, seconds: 3, nanoseconds: 4 });
    assert_eq!(
        decode(&d, &Shape::Value).unwrap_err(),
        DeError::UnsupportedShape { found: BoltKind::Duration, expected: Request::Value }
    );
}

#[test]
fn round_trip_rejects_nested_duration() {
    let d = BoltType::Duration(BoltDuration { months: 1, days: 2, seconds: 3, nanoseconds: 4 });
    let list = BoltType::List(vec![integer(1), d]);
    assert_eq!(
        decode(&list, &Shape::Value).unwrap_err(),
        DeError::UnsupportedShape { found: BoltKind::List, expected: Request::Value }
    );
}

#[test]
fn round_trip_keeps_node_and_point() {
    let node = BoltType::Node(BoltNode { id: 7, labels: vec!["A".to_string()], properties: alice_props() });
    assert_eq!(
        decode(&node, &Shape::Value).unwrap(),
        Decoded::Value(BoltType::Node(BoltNode { id: 7, labels: vec!["A".to_string()], properties: alice_props() }))
    );
    let p = BoltType::Point2D(BoltPoint2D { sr_id: 1, x: 2, y: 3 });
    assert_eq!(decode(&p, &Shape::Value).unwrap(), Decoded::Value(BoltType::Point2D(BoltPoint2D { sr_id: 1, x: 2, y: 3 })));
}

#[test]
fn strict_mode_names_first_unknown_key() {
    let m = BoltType::Dict(map(vec![("name", text("Alice")), ("bar", integer(1)), ("age", integer(42))]));
    assert_eq!(decode(&m, &person(true)).unwrap_err(), DeError::UnknownField { name: "bar".to_string() });
    assert_eq!(decode(&m, &person(false)).unwrap(), Decoded::Record(vec![st("Alice"), Decoded::Int(42)]));
}

#[test]
fn strict_mode_accepts_exact_keys() {
    let m = BoltType::Dict(alice_props());
    assert_eq!(decode(&m, &person(true)).unwrap(), Decoded::Record(vec![st("Alice"), Decoded::Int(42)]));
}

#[test]
fn tuple_from_map_is_unsupported_whatever_the_length() {
    let m = BoltType::Dict(alice_props());
    for n in 0..4 {
        let shape = Shape::Tuple((0..n).map(|_| Shape::Str).collect());
        assert_eq!(
            decode(&m, &shape).unwrap_err(),
            DeError::UnsupportedShape { found: BoltKind::Dict, expected: Request::Tuple(n) }
        );
    }
}

#[test]
fn tuple_of_wrong_length_is_a_kind_mismatch() {
    let list = BoltType::List(vec![text("Alice"), integer(42)]);
    let shape = Shape::Tuple(vec![Shape::Str]);
    assert_eq!(
        decode(&list, &shape).unwrap_err(),
        DeError::KindMismatch { found: BoltKind::List, expected: Request::Tuple(1) }
    );
}

#[test]
fn narrowing_reports_value_and_type() {
    assert_eq!(
        decode(&integer(1337), &Shape::Int(IntWidth::I8)).unwrap_err(),
        DeError::IntegerOutOfBounds { value: 1337, target: IntWidth::I8 }
    );
    assert_eq!(
        decode(&integer(-5), &Shape::Int(IntWidth::U8)).unwrap_err().to_string(),
        "Could not convert the integer `-5` to the target type u8"
    );
    assert_eq!(decode(&integer(255), &Shape::Int(IntWidth::U8)).unwrap(), Decoded::Int(255));
    assert_eq!(decode(&integer(i64::MIN), &Shape::Int(IntWidth::I64)).unwrap(), Decoded::Int(i64::MIN));
}

#[test]
fn kind_mismatch_names_kind_and_request() {
    let err = decode(&text("x"), &Shape::Bool).unwrap_err();
    assert_eq!(err, DeError::KindMismatch { found: BoltKind::String, expected: Request::Bool });
    assert_eq!(err.to_string(), "invalid type: String, expected a boolean");
}

#[test]
fn missing_field_and_optional_field() {
    let m = BoltType::Dict(map(vec![("name", text("Alice"))]));
    assert_eq!(decode(&m, &person(false)).unwrap_err(), DeError::MissingField { name: "age".to_string() });
    let shape = Shape::Struct(
        fields(vec![("name", Shape::Str), ("age", Shape::Optional(Box::new(Shape::Int(IntWidth::U8))))]),
        false,
    );
    assert_eq!(decode(&m, &shape).unwrap(), Decoded::Record(vec![st("Alice"), Decoded::Absent]));
}

#[test]
fn null_is_absent_and_values_are_present() {
    let shape = Shape::Optional(Box::new(Shape::Int(IntWidth::I64)));
    assert_eq!(decode(&BoltType::Null, &shape).unwrap(), Decoded::Absent);
    assert_eq!(decode(&integer(3), &shape).unwrap(), Decoded::Present(Box::new(Decoded::Int(3))));
}

#[test]
fn datetime_renders_rfc3339_with_offset() {
    let dt = date_time(expected_instant());
    assert_eq!(decode(&dt, &Shape::Str).unwrap(), st("1999-07-14T13:37:42+02:00"));
}

#[test]
fn datetime_timestamps_are_exact() {
    let dt = date_time(expected_instant());
    assert_eq!(decode(&dt, &Shape::Timestamp(TimeUnit::Seconds)).unwrap(), Decoded::Int(931952262));
    assert_eq!(decode(&dt, &Shape::Timestamp(TimeUnit::Millis)).unwrap(), Decoded::Int(931952262000));
    assert_eq!(decode(&dt, &Shape::Int(IntWidth::I64)).unwrap(), Decoded::Int(931952262000000000));
    assert_eq!(
        decode(&dt, &Shape::Int(IntWidth::I32)).unwrap_err(),
        DeError::IntegerOutOfBounds { value: 931952262000000000, target: IntWidth::I32 }
    );
}

#[test]
fn datetime_with_invalid_offset_cannot_be_rendered() {
    let dt = BoltType::DateTime(BoltDateTime { seconds: 0, nanoseconds: 0, tz_offset_seconds: 90_000 });
    assert_eq!(
        decode(&dt, &Shape::Str).unwrap_err(),
        DeError::DateTimeOutOfBounds { expected: Request::Str }
    );
}

#[test]
fn bytes_stream_as_integers_and_points_as_coordinates() {
    let b = BoltType::Bytes(vec![1, 200]);
    assert_eq!(
        decode(&b, &Shape::Sequence(Box::new(Shape::Int(IntWidth::U8)))).unwrap(),
        Decoded::Sequence(vec![Decoded::Int(1), Decoded::Int(200)])
    );
    let p = BoltType::Point2D(BoltPoint2D { sr_id: 1, x: 5, y: 6 });
    assert_eq!(
        decode(&p, &Shape::Tuple(vec![Shape::Float, Shape::Float])).unwrap(),
        Decoded::Sequence(vec![Decoded::Float(5), Decoded::Float(6)])
    );
}

#[test]
fn markers_need_a_graph_entity() {
    let m = BoltType::Dict(alice_props());
    assert_eq!(
        decode(&m, &Shape::Marker(MarkerKind::Id)).unwrap_err(),
        DeError::KindMismatch { found: BoltKind::Dict, expected: Request::Marker(MarkerKind::Id) }
    );
    let node = BoltType::Node(BoltNode { id: -1, labels: vec![], properties: alice_props() });
    assert_eq!(
        decode(&node, &Shape::Marker(MarkerKind::Id)).unwrap_err(),
        DeError::IntegerOutOfBounds { value: -1, target: IntWidth::U64 }
    );
}

#[test]
fn entries_of_node_properties() {
    let node = BoltType::Node(BoltNode { id: 1, labels: vec![], properties: map(vec![("a", integer(1)), ("b", integer(2))]) });
    assert_eq!(
        decode(&node, &Shape::Entries(Box::new(Shape::Int(IntWidth::I64)))).unwrap(),
        Decoded::Entries(vec![("a".to_string(), Decoded::Int(1)), ("b".to_string(), Decoded::Int(2))])
    );
}

#[test]
fn path_shows_nodes_and_relationships() {
    let node = |id: i64| BoltNode { id, labels: vec!["Person".to_string()], properties: map(vec![]) };
    let rel = BoltUnboundedRelation { id: 10, typ: "KNOWS".to_string(), properties: map(vec![]) };
    let path = BoltType::Path(BoltPath { nodes: vec![node(1), node(2)], rels: vec![rel] });
    let shape = Shape::Struct(
        fields(vec![
            ("nodes", Shape::Sequence(Box::new(Shape::Marker(MarkerKind::Id)))),
            ("rels", Shape::Sequence(Box::new(Shape::Marker(MarkerKind::Type)))),
        ]),
        true,
    );
    assert_eq!(
        decode(&path, &shape).unwrap(),
        Decoded::Record(vec![
            Decoded::Sequence(vec![Decoded::Id(Id(1)), Decoded::Id(Id(2))]),
            Decoded::Sequence(vec![Decoded::Type(Type("KNOWS".to_string()))]),
        ])
    );
}

#[test]
fn node_fields_by_position() {
    let node = BoltType::Node(BoltNode { id: 5, labels: vec!["Person".to_string()], properties: alice_props() });
    let shape = Shape::Tuple(vec![
        Shape::Int(IntWidth::I64),
        Shape::Sequence(Box::new(Shape::Str)),
        Shape::Struct(fields(vec![("name", Shape::Str)]), false),
    ]);
    assert_eq!(
        decode(&node, &shape).unwrap(),
        Decoded::Sequence(vec![
            Decoded::Int(5),
            Decoded::Sequence(vec![st("Person")]),
            Decoded::Record(vec![st("Alice")]),
        ])
    );
}
