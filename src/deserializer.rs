//! Decoding a wire value into a target shape.
use vstd::prelude::*;
use crate::decode::{
    as_sequence, byte_values, coordinates, decode_entries, decode_field, decode_fields, decode_items,
    decode_model, decode_tuple, decoded_entries_model, decoded_seq_model, field_names, first_unknown,
    identifier, marker_model, mismatch, narrow, path_fields, point2d_fields, point3d_fields, positional,
    result_model, string_values, struct_source, DeError, Decoded, DecodedModel, ErrorModel, IntWidth,
    MarkerKind, Request, Shape,
};
use crate::markers::{EndNodeId, Id, Keys, Labels, StartNodeId, Type};
use crate::temporal::{rfc3339, timestamp, TimeUnit};
use crate::value::{
    clone_strings, contains_opaque, keys_of, lemma_entity_model, node_model, strings_model, unbounded_model,
    values_model, BoltKind, BoltMap, BoltPath, BoltType, MapModel, ValueModel,
};

verus! {

broadcast use vstd::std_specs::vec::group_vec_axioms;

/// Decodes one borrowed wire value.
pub struct BoltTypeDeserializer<'de> {
    value: &'de BoltType,
}

impl<'de> BoltTypeDeserializer<'de> {
    pub fn new(value: &'de BoltType) -> (r: Self)
        ensures
            r.value() == value,
    {
        Self { value }
    }

    pub closed spec fn value(&self) -> &'de BoltType {
        self.value
    }

    /// The value decoded into `shape`, or the error that stops it.
    pub fn deserialize(self, shape: &Shape) -> (r: Result<Decoded, DeError>)
        ensures
            result_model(r) == decode_model(self.value()@, *shape),
    {
        decode(self.value, shape)
    }
}

fn kind_mismatch(v: &BoltType, s: &Shape) -> (e: DeError)
    ensures
        Err::<DecodedModel, ErrorModel>(e@) == mismatch(v@, *s),
{
    DeError::KindMismatch { found: v.kind(), expected: s.request() }
}

/// An integer narrowed into `w`.
pub fn narrow_integer(i: i64, w: IntWidth) -> (r: Result<Decoded, DeError>)
    ensures
        result_model(r) == narrow(i as int, w),
{
    let fits = match w {
        IntWidth::I8 => -128 <= i && i <= 127,
        IntWidth::I16 => -32768 <= i && i <= 32767,
        IntWidth::I32 => -2147483648 <= i && i <= 2147483647,
        IntWidth::I64 => true,
        IntWidth::U8 => 0 <= i && i <= 255,
        IntWidth::U16 => 0 <= i && i <= 65535,
        IntWidth::U32 => 0 <= i && i <= 4294967295,
        IntWidth::U64 => 0 <= i,
    };
    if fits {
        Ok(Decoded::Int(i))
    } else {
        Err(DeError::IntegerOutOfBounds { value: i, target: w })
    }
}

fn identifier_of(i: i64, k: MarkerKind) -> (r: Result<Decoded, DeError>)
    ensures
        result_model(r) == identifier(i as int, k),
{
    if i < 0 {
        Err(DeError::IntegerOutOfBounds { value: i, target: IntWidth::U64 })
    } else {
        Ok(
            match k {
                MarkerKind::StartNodeId => Decoded::StartNodeId(StartNodeId(i as u64)),
                MarkerKind::EndNodeId => Decoded::EndNodeId(EndNodeId(i as u64)),
                _ => Decoded::Id(Id(i as u64)),
            },
        )
    }
}

fn keys_vec(m: &BoltMap) -> (r: Vec<String>)
    ensures
        strings_model(r@) == keys_of(m@),
{
    let mut out: Vec<String> = Vec::new();
    let mut k: usize = 0;
    while k < m.value.len()
        invariant
            k <= m.value@.len(),
            out@.len() == k,
            forall|j: int| 0 <= j < k ==> (#[trigger] out@[j])@ == m@[j].0,
        decreases m.value@.len() - k,
    {
        out.push(m.value[k].0.clone());
        k = k + 1;
    }
    assert(strings_model(out@) =~= keys_of(m@));
    out
}

/// The structural metadata `k` of a graph entity.
pub fn decode_marker(v: &BoltType, k: MarkerKind) -> (r: Result<Decoded, DeError>)
    ensures
        result_model(r) == marker_model(v@, k),
{
    proof {
        lemma_entity_model(*v);
    }
    match (k, v) {
        (MarkerKind::Id, BoltType::Node(n)) => identifier_of(n.id, k),
        (MarkerKind::Id, BoltType::Relation(r)) => identifier_of(r.id, k),
        (MarkerKind::Id, BoltType::UnboundedRelation(r)) => identifier_of(r.id, k),
        (MarkerKind::StartNodeId, BoltType::Relation(r)) => identifier_of(r.start_node_id, k),
        (MarkerKind::EndNodeId, BoltType::Relation(r)) => identifier_of(r.end_node_id, k),
        (MarkerKind::Labels, BoltType::Node(n)) => Ok(Decoded::Labels(Labels(clone_strings(&n.labels)))),
        (MarkerKind::Type, BoltType::Relation(r)) => Ok(Decoded::Type(Type(r.typ.clone()))),
        (MarkerKind::Type, BoltType::UnboundedRelation(r)) => Ok(Decoded::Type(Type(r.typ.clone()))),
        (MarkerKind::Keys, BoltType::Node(n)) => Ok(Decoded::Keys(Keys(keys_vec(&n.properties)))),
        (MarkerKind::Keys, BoltType::Relation(r)) => Ok(Decoded::Keys(Keys(keys_vec(&r.properties)))),
        (MarkerKind::Keys, BoltType::UnboundedRelation(r)) => Ok(
            Decoded::Keys(Keys(keys_vec(&r.properties))),
        ),
        _ => Err(DeError::KindMismatch { found: v.kind(), expected: Request::Marker(k) }),
    }
}

proof fn lemma_items_error_stays(items: Seq<ValueModel>, e: Shape, k: int, n: int)
    requires
        0 <= k <= n,
        decode_items(items, e, k) is Err,
    ensures
        decode_items(items, e, n) == decode_items(items, e, k),
    decreases n - k,
{
    if n > k {
        lemma_items_error_stays(items, e, k, n - 1);
    }
}

proof fn lemma_tuple_error_stays(items: Seq<ValueModel>, ts: Seq<Shape>, k: int, n: int)
    requires
        0 <= k <= n <= ts.len(),
        decode_tuple(items, ts, k) is Err,
    ensures
        decode_tuple(items, ts, n) == decode_tuple(items, ts, k),
    decreases n - k,
{
    if n > k {
        lemma_tuple_error_stays(items, ts, k, n - 1);
    }
}

proof fn lemma_entries_error_stays(m: MapModel, e: Shape, k: int, n: int)
    requires
        0 <= k <= n,
        decode_entries(m, e, k) is Err,
    ensures
        decode_entries(m, e, n) == decode_entries(m, e, k),
    decreases n - k,
{
    if n > k {
        lemma_entries_error_stays(m, e, k, n - 1);
    }
}

proof fn lemma_fields_error_stays(
    v: ValueModel,
    props: MapModel,
    fields: Seq<(String, Shape)>,
    k: int,
    n: int,
)
    requires
        0 <= k <= n <= fields.len(),
        decode_fields(v, props, fields, k) is Err,
    ensures
        decode_fields(v, props, fields, n) == decode_fields(v, props, fields, k),
    decreases n - k,
{
    if n > k {
        lemma_fields_error_stays(v, props, fields, k, n - 1);
    }
}

/// Each item decoded into `e`, or the first error.
fn decode_list(items: &Vec<BoltType>, e: &Shape) -> (r: Result<Vec<Decoded>, DeError>)
    ensures
        match r {
            Ok(out) => decode_items(values_model(items@), *e, items@.len() as int) == Ok::<
                Seq<DecodedModel>,
                ErrorModel,
            >(decoded_seq_model(out@)),
            Err(x) => decode_items(values_model(items@), *e, items@.len() as int) == Err::<
                Seq<DecodedModel>,
                ErrorModel,
            >(x@),
        },
    decreases e, 1int,
{
    let ghost vm = values_model(items@);
    let mut out: Vec<Decoded> = Vec::new();
    let mut k: usize = 0;
    assert(decoded_seq_model(out@) =~= Seq::<DecodedModel>::empty());
    while k < items.len()
        invariant
            vm == values_model(items@),
            k <= items@.len(),
            decode_items(vm, *e, k as int) == Ok::<Seq<DecodedModel>, ErrorModel>(decoded_seq_model(out@)),
        decreases items@.len() - k,
    {
        match decode(&items[k], e) {
            Ok(d) => {
                let ghost before = out@;
                out.push(d);
                assert(decoded_seq_model(out@) =~= decoded_seq_model(before).push(d@));
            },
            Err(x) => {
                proof {
                    lemma_items_error_stays(vm, *e, k + 1, items@.len() as int);
                }
                return Err(x);
            },
        }
        k = k + 1;
    }
    Ok(out)
}

/// Each item decoded into the shape at its position, or the first error.
fn decode_positional(items: &Vec<BoltType>, ts: &Vec<Shape>) -> (r: Result<Vec<Decoded>, DeError>)
    requires
        items@.len() == ts@.len(),
    ensures
        match r {
            Ok(out) => decode_tuple(values_model(items@), ts@, ts@.len() as int) == Ok::<
                Seq<DecodedModel>,
                ErrorModel,
            >(decoded_seq_model(out@)),
            Err(x) => decode_tuple(values_model(items@), ts@, ts@.len() as int) == Err::<
                Seq<DecodedModel>,
                ErrorModel,
            >(x@),
        },
    decreases ts@, 1int,
{
    let ghost vm = values_model(items@);
    let mut out: Vec<Decoded> = Vec::new();
    let mut k: usize = 0;
    assert(decoded_seq_model(out@) =~= Seq::<DecodedModel>::empty());
    while k < items.len()
        invariant
            vm == values_model(items@),
            items@.len() == ts@.len(),
            k <= items@.len(),
            decode_tuple(vm, ts@, k as int) == Ok::<Seq<DecodedModel>, ErrorModel>(decoded_seq_model(out@)),
        decreases items@.len() - k,
    {
        proof {
            assert(decreases_to!(ts@ => ts@[k as int]));
        }
        match decode(&items[k], &ts[k]) {
            Ok(d) => {
                let ghost before = out@;
                out.push(d);
                assert(decoded_seq_model(out@) =~= decoded_seq_model(before).push(d@));
            },
            Err(x) => {
                proof {
                    lemma_tuple_error_stays(vm, ts@, k + 1, ts@.len() as int);
                }
                return Err(x);
            },
        }
        k = k + 1;
    }
    Ok(out)
}

/// Each entry with its value decoded into `e`, or the first error.
fn decode_map_entries(m: &BoltMap, e: &Shape) -> (r: Result<Vec<(String, Decoded)>, DeError>)
    ensures
        match r {
            Ok(out) => decode_entries(m@, *e, m@.len() as int) == Ok::<
                Seq<(Seq<char>, DecodedModel)>,
                ErrorModel,
            >(decoded_entries_model(out@)),
            Err(x) => decode_entries(m@, *e, m@.len() as int) == Err::<
                Seq<(Seq<char>, DecodedModel)>,
                ErrorModel,
            >(x@),
        },
    decreases e, 1int,
{
    let mut out: Vec<(String, Decoded)> = Vec::new();
    let mut k: usize = 0;
    assert(decoded_entries_model(out@) =~= Seq::<(Seq<char>, DecodedModel)>::empty());
    while k < m.value.len()
        invariant
            k <= m.value@.len(),
            decode_entries(m@, *e, k as int) == Ok::<Seq<(Seq<char>, DecodedModel)>, ErrorModel>(
                decoded_entries_model(out@),
            ),
        decreases m.value@.len() - k,
    {
        assert(m@[k as int] == (m.value@[k as int].0@, m.value@[k as int].1@));
        match decode(&m.value[k].1, e) {
            Ok(d) => {
                let ghost before = out@;
                out.push((m.value[k].0.clone(), d));
                assert(decoded_entries_model(out@) =~= decoded_entries_model(before).push(
                    (m@[k as int].0, d@),
                ));
            },
            Err(x) => {
                proof {
                    lemma_entries_error_stays(m@, *e, k + 1, m@.len() as int);
                }
                return Err(x);
            },
        }
        k = k + 1;
    }
    Ok(out)
}

/// The first key of `props`, in stored order, that no field declares.
fn find_unknown(props: &BoltMap, fields: &Vec<(String, Shape)>) -> (r: Option<String>)
    ensures
        r is Some <==> first_unknown(keys_of(props@), field_names(fields@)) is Some,
        r matches Some(name) ==> first_unknown(keys_of(props@), field_names(fields@)) == Some(name@),
{
    let ghost keys = keys_of(props@);
    let ghost names = field_names(fields@);
    let mut k: usize = 0;
    assert(keys.subrange(0, keys.len() as int) =~= keys);
    while k < props.value.len()
        invariant
            keys == keys_of(props@),
            names == field_names(fields@),
            k <= props.value@.len(),
            first_unknown(keys, names) == first_unknown(keys.subrange(k as int, keys.len() as int), names),
        decreases props.value@.len() - k,
    {
        let ghost rest = keys.subrange(k as int, keys.len() as int);
        assert(rest.subrange(1, rest.len() as int) =~= keys.subrange(k + 1, keys.len() as int));
        assert(rest[0] == props.value@[k as int].0@);
        let mut declared = false;
        let mut j: usize = 0;
        while j < fields.len()
            invariant
                names == field_names(fields@),
                k < props.value@.len(),
                j <= fields@.len(),
                declared <==> exists|i: int| 0 <= i < j && names[i] == props.value@[k as int].0@,
            decreases fields@.len() - j,
        {
            assert(names[j as int] == fields@[j as int].0@);
            if fields[j].0 == props.value[k].0 {
                declared = true;
            }
            j = j + 1;
        }
        if !declared {
            assert(!names.contains(rest[0]));
            return Some(props.value[k].0.clone());
        }
        assert(names.contains(rest[0]));
        k = k + 1;
    }
    None
}

/// The declared fields read from `v`, whose keyed values are `props`.
fn decode_record(v: &BoltType, props: &BoltMap, fields: &Vec<(String, Shape)>) -> (r: Result<Vec<Decoded>, DeError>)
    ensures
        match r {
            Ok(out) => decode_fields(v@, props@, fields@, fields@.len() as int) == Ok::<
                Seq<DecodedModel>,
                ErrorModel,
            >(decoded_seq_model(out@)),
            Err(x) => decode_fields(v@, props@, fields@, fields@.len() as int) == Err::<
                Seq<DecodedModel>,
                ErrorModel,
            >(x@),
        },
    decreases fields@, 1int,
{
    let mut out: Vec<Decoded> = Vec::new();
    let mut k: usize = 0;
    assert(decoded_seq_model(out@) =~= Seq::<DecodedModel>::empty());
    while k < fields.len()
        invariant
            k <= fields@.len(),
            decode_fields(v@, props@, fields@, k as int) == Ok::<Seq<DecodedModel>, ErrorModel>(
                decoded_seq_model(out@),
            ),
        decreases fields@.len() - k,
    {
        let f = &fields[k];
        let one = match &f.1 {
            Shape::Marker(mk) => decode_marker(v, *mk),
            _ => match props.get(&f.0) {
                Some(x) => {
                    proof {
                        assert(decreases_to!(fields@ => fields@[k as int]));
                        assert(decreases_to!(fields@[k as int] => fields@[k as int].1));
                    }
                    decode(x, &f.1)
                },
                None => match &f.1 {
                    Shape::Optional(_) => Ok(Decoded::Absent),
                    _ => Err(DeError::MissingField { name: f.0.clone() }),
                },
            },
        };
        assert(result_model(one) == decode_field(v@, props@, *f));
        match one {
            Ok(d) => {
                let ghost before = out@;
                out.push(d);
                assert(decoded_seq_model(out@) =~= decoded_seq_model(before).push(d@));
            },
            Err(x) => {
                proof {
                    lemma_fields_error_stays(v@, props@, fields@, k + 1, fields@.len() as int);
                }
                return Err(x);
            },
        }
        k = k + 1;
    }
    Ok(out)
}

fn named_entry(key: &str, value: BoltType) -> (r: (String, BoltType))
    ensures
        r.0@ == key@,
        r.1 == value,
{
    (String::from_str(key), value)
}

/// The nodes of a path, each as a wire value.
fn node_values(p: &BoltPath) -> (r: Vec<BoltType>)
    ensures
        values_model(r@) == Seq::new(p.nodes@.len(), |i: int| ValueModel::Node(node_model(p.nodes@[i]))),
{
    let mut out: Vec<BoltType> = Vec::new();
    let mut k: usize = 0;
    while k < p.nodes.len()
        invariant
            k <= p.nodes@.len(),
            out@.len() == k,
            forall|j: int| 0 <= j < k ==> (#[trigger] out@[j])@ == ValueModel::Node(node_model(p.nodes@[j])),
        decreases p.nodes@.len() - k,
    {
        let v = BoltType::Node(p.nodes[k].deep_clone());
        proof {
            lemma_entity_model(v);
        }
        out.push(v);
        k = k + 1;
    }
    assert(values_model(out@) =~= Seq::new(p.nodes@.len(), |i: int| ValueModel::Node(node_model(p.nodes@[i]))));
    out
}

/// The relationships of a path, each as a wire value.
fn rel_values(p: &BoltPath) -> (r: Vec<BoltType>)
    ensures
        values_model(r@) == Seq::new(
            p.rels@.len(),
            |i: int| ValueModel::UnboundedRelation(unbounded_model(p.rels@[i])),
        ),
{
    let mut out: Vec<BoltType> = Vec::new();
    let mut k: usize = 0;
    while k < p.rels.len()
        invariant
            k <= p.rels@.len(),
            out@.len() == k,
            forall|j: int|
                0 <= j < k ==> (#[trigger] out@[j])@ == ValueModel::UnboundedRelation(unbounded_model(p.rels@[j])),
        decreases p.rels@.len() - k,
    {
        let v = BoltType::UnboundedRelation(p.rels[k].deep_clone());
        proof {
            lemma_entity_model(v);
        }
        out.push(v);
        k = k + 1;
    }
    assert(values_model(out@) =~= Seq::new(
        p.rels@.len(),
        |i: int| ValueModel::UnboundedRelation(unbounded_model(p.rels@[i])),
    ));
    out
}

/// The key, value pairs a struct or map target reads from `v`, built where
/// `v` has no map of its own.
fn built_source(v: &BoltType) -> (r: Option<BoltMap>)
    requires
        v is Point2D || v is Point3D || v is Path,
    ensures
        r matches Some(m) && struct_source(v@) == Some(m@),
{
    match v {
        BoltType::Path(p) => {
            let nv = node_values(p);
            let rv = rel_values(p);
            let ghost nvg = nv;
            let ghost rvg = rv;
            let nodes = BoltType::List(nv);
            let rels = BoltType::List(rv);
            assert(nodes@->List_0 =~= values_model(nvg@));
            assert(rels@->List_0 =~= values_model(rvg@));
            let m = BoltMap { value: vec![named_entry("nodes", nodes), named_entry("rels", rels)] };
            proof {
                let ghost ns = Seq::new(p.nodes@.len(), |i: int| node_model(p.nodes@[i]));
                let ghost rs = Seq::new(p.rels@.len(), |i: int| unbounded_model(p.rels@[i]));
                assert(v@ == ValueModel::Path(ns, rs)) by {
                    assert(v@->Path_0 =~= ns);
                    assert(v@->Path_1 =~= rs);
                }
                assert(nodes@->List_0 =~= Seq::new(ns.len(), |i: int| ValueModel::Node(ns[i])));
                assert(rels@->List_0 =~= Seq::new(rs.len(), |i: int| ValueModel::UnboundedRelation(rs[i])));
                assert(m@ =~= path_fields(ns, rs));
            }
            Some(m)
        },
        BoltType::Point2D(p) => {
            let m = BoltMap {
                value: vec![
                    named_entry("sr_id", BoltType::Integer(p.sr_id)),
                    named_entry("x", BoltType::Float(p.x)),
                    named_entry("y", BoltType::Float(p.y)),
                ],
            };
            assert(m@ =~= point2d_fields(*p));
            Some(m)
        },
        BoltType::Point3D(p) => {
            let m = BoltMap {
                value: vec![
                    named_entry("sr_id", BoltType::Integer(p.sr_id)),
                    named_entry("x", BoltType::Float(p.x)),
                    named_entry("y", BoltType::Float(p.y)),
                    named_entry("z", BoltType::Float(p.z)),
                ],
            };
            assert(m@ =~= point3d_fields(*p));
            Some(m)
        },
        _ => None,
    }
}

/// The coordinates of a point as float values.
fn coordinate_values(v: &BoltType) -> (r: Vec<BoltType>)
    requires
        v is Point2D || v is Point3D,
    ensures
        values_model(r@) == coordinates(v@),
{
    let r = match v {
        BoltType::Point2D(p) => vec![BoltType::Float(p.x), BoltType::Float(p.y)],
        BoltType::Point3D(p) => vec![BoltType::Float(p.x), BoltType::Float(p.y), BoltType::Float(p.z)],
        _ => Vec::new(),
    };
    assert(values_model(r@) =~= coordinates(v@));
    r
}

fn string_list(v: &Vec<String>) -> (r: BoltType)
    ensures
        r@ == ValueModel::List(string_values(strings_model(v@))),
{
    let mut out: Vec<BoltType> = Vec::new();
    let mut k: usize = 0;
    while k < v.len()
        invariant
            k <= v@.len(),
            out@.len() == k,
            forall|j: int| 0 <= j < k ==> (#[trigger] out@[j])@ == ValueModel::String(v@[j]@),
        decreases v@.len() - k,
    {
        out.push(BoltType::String(v[k].clone()));
        k = k + 1;
    }
    let ghost og = out;
    let r = BoltType::List(out);
    assert(r@->List_0 =~= string_values(strings_model(v@)));
    r
}

/// The elements a tuple target reads by position, as wire values.
fn positional_values(v: &BoltType) -> (r: Option<Vec<BoltType>>)
    ensures
        r is Some <==> positional(v@) is Some,
        r matches Some(items) ==> positional(v@) == Some(values_model(items@)),
{
    proof {
        lemma_entity_model(*v);
    }
    match v {
        BoltType::List(items) => {
            let mut out: Vec<BoltType> = Vec::new();
            let mut k: usize = 0;
            while k < items.len()
                invariant
                    k <= items@.len(),
                    out@.len() == k,
                    forall|j: int| 0 <= j < k ==> (#[trigger] out@[j])@ == items@[j]@,
                decreases items@.len() - k,
            {
                out.push(items[k].deep_clone());
                k = k + 1;
            }
            assert(values_model(out@) =~= v@->List_0);
            Some(out)
        },
        BoltType::Point2D(_) | BoltType::Point3D(_) => Some(coordinate_values(v)),
        BoltType::Node(n) => {
            let out = vec![BoltType::Integer(n.id), string_list(&n.labels), BoltType::Dict(n.properties.deep_clone())];
            assert(values_model(out@) =~= positional(v@)->0);
            Some(out)
        },
        BoltType::Relation(r) => {
            let out = vec![
                BoltType::Integer(r.id),
                BoltType::Integer(r.start_node_id),
                BoltType::Integer(r.end_node_id),
                BoltType::String(r.typ.clone()),
                BoltType::Dict(r.properties.deep_clone()),
            ];
            assert(values_model(out@) =~= positional(v@)->0);
            Some(out)
        },
        BoltType::UnboundedRelation(r) => {
            let out = vec![
                BoltType::Integer(r.id),
                BoltType::String(r.typ.clone()),
                BoltType::Dict(r.properties.deep_clone()),
            ];
            assert(values_model(out@) =~= positional(v@)->0);
            Some(out)
        },
        _ => None,
    }
}

/// The bytes as integer values.
fn byte_list(b: &Vec<u8>) -> (r: Vec<BoltType>)
    ensures
        values_model(r@) == byte_values(b@),
{
    let mut out: Vec<BoltType> = Vec::new();
    let mut k: usize = 0;
    while k < b.len()
        invariant
            k <= b@.len(),
            out@.len() == k,
            forall|j: int| 0 <= j < k ==> (#[trigger] out@[j])@ == ValueModel::Integer(b@[j] as int),
        decreases b@.len() - k,
    {
        out.push(BoltType::Integer(b[k] as i64));
        k = k + 1;
    }
    assert(values_model(out@) =~= byte_values(b@));
    out
}

fn into_sequence(r: Result<Vec<Decoded>, DeError>) -> (d: Result<Decoded, DeError>)
    ensures
        result_model(d) == as_sequence(
            match r {
                Ok(out) => Ok(decoded_seq_model(out@)),
                Err(x) => Err(x@),
            },
        ),
{
    match r {
        Ok(out) => Ok(Decoded::Sequence(out)),
        Err(x) => Err(x),
    }
}

/// `v` decoded into `s`.
pub fn decode(v: &BoltType, s: &Shape) -> (r: Result<Decoded, DeError>)
    ensures
        result_model(r) == decode_model(v@, *s),
    decreases s, 0int,
{
    match s {
        Shape::Unit => match v {
            BoltType::Null => Ok(Decoded::Unit),
            _ => Err(kind_mismatch(v, s)),
        },
        Shape::Bool => match v {
            BoltType::Boolean(b) => Ok(Decoded::Bool(*b)),
            _ => Err(kind_mismatch(v, s)),
        },
        Shape::Int(w) => match v {
            BoltType::Integer(i) => narrow_integer(*i, *w),
            BoltType::DateTime(d) => match timestamp(d, TimeUnit::Nanos) {
                Some(t) => narrow_integer(t, *w),
                None => Err(DeError::DateTimeOutOfBounds { expected: Request::Int(*w) }),
            },
            _ => Err(kind_mismatch(v, s)),
        },
        Shape::Timestamp(u) => match v {
            BoltType::Integer(i) => Ok(Decoded::Int(*i)),
            BoltType::DateTime(d) => match timestamp(d, *u) {
                Some(t) => Ok(Decoded::Int(t)),
                None => Err(DeError::DateTimeOutOfBounds { expected: Request::Timestamp(*u) }),
            },
            _ => Err(kind_mismatch(v, s)),
        },
        Shape::Float => match v {
            BoltType::Float(f) => Ok(Decoded::Float(*f)),
            _ => Err(kind_mismatch(v, s)),
        },
        Shape::Str => match v {
            BoltType::String(t) => Ok(Decoded::Str(t.clone())),
            BoltType::DateTime(d) => match rfc3339(d) {
                Some(t) => Ok(Decoded::Str(t)),
                None => Err(DeError::DateTimeOutOfBounds { expected: Request::Str }),
            },
            _ => Err(kind_mismatch(v, s)),
        },
        Shape::Bytes => match v {
            BoltType::Bytes(b) => {
                let c = b.clone();
                assert(c@ =~= b@);
                Ok(Decoded::Bytes(c))
            },
            _ => Err(kind_mismatch(v, s)),
        },
        Shape::Optional(inner) => match v {
            BoltType::Null => Ok(Decoded::Absent),
            _ => match decode(v, inner) {
                Ok(d) => Ok(Decoded::Present(Box::new(d))),
                Err(x) => Err(x),
            },
        },
        Shape::Sequence(e) => match v {
            BoltType::List(items) => {
                assert(v@->List_0 =~= values_model(items@));
                into_sequence(decode_list(items, e))
            },
            BoltType::Bytes(b) => {
                let vals = byte_list(b);
                assert(vals@.len() == values_model(vals@).len());
                assert(v@ == ValueModel::Bytes(b@));
                into_sequence(decode_list(&vals, e))
            },
            BoltType::Point2D(_) | BoltType::Point3D(_) => {
                let coords = coordinate_values(v);
                assert(coords@.len() == values_model(coords@).len());
                assert(v is Point2D ==> coordinates(v@).len() == 2);
                assert(v is Point3D ==> coordinates(v@).len() == 3);
                into_sequence(decode_list(&coords, e))
            },
            _ => Err(kind_mismatch(v, s)),
        },
        Shape::Tuple(ts) => match v {
            BoltType::Dict(_) => Err(DeError::UnsupportedShape { found: BoltKind::Dict, expected: s.request() }),
            _ => match positional_values(v) {
                Some(items) => {
                    if items.len() == ts.len() {
                        proof {
                            let ghost sv = *s;
                            assert(decreases_to!(sv => sv->Tuple_0));
                            assert(decreases_to!(sv->Tuple_0 => sv->Tuple_0@));
                        }
                        into_sequence(decode_positional(&items, ts))
                    } else {
                        Err(kind_mismatch(v, s))
                    }
                },
                None => Err(kind_mismatch(v, s)),
            },
        },
        Shape::Entries(e) => {
            proof {
                lemma_entity_model(*v);
            }
            let built: Option<BoltMap> = match v {
                BoltType::Point2D(_) | BoltType::Point3D(_) | BoltType::Path(_) => built_source(v),
                _ => None,
            };
            let m: &BoltMap = match v {
                BoltType::Dict(m) => m,
                BoltType::Node(n) => &n.properties,
                BoltType::Relation(r) => &r.properties,
                BoltType::UnboundedRelation(r) => &r.properties,
                _ => match &built {
                    Some(m) => m,
                    None => {
                        return Err(kind_mismatch(v, s));
                    },
                },
            };
            assert(struct_source(v@) == Some(m@));
            match decode_map_entries(m, e) {
                Ok(out) => Ok(Decoded::Entries(out)),
                Err(x) => Err(x),
            }
        },
        Shape::Struct(fields, strict) => {
            proof {
                lemma_entity_model(*v);
            }
            let built: Option<BoltMap> = match v {
                BoltType::Point2D(_) | BoltType::Point3D(_) | BoltType::Path(_) => built_source(v),
                _ => None,
            };
            let props: &BoltMap = match v {
                BoltType::Dict(m) => m,
                BoltType::Node(n) => &n.properties,
                BoltType::Relation(r) => &r.properties,
                BoltType::UnboundedRelation(r) => &r.properties,
                _ => match &built {
                    Some(m) => m,
                    None => {
                        return Err(kind_mismatch(v, s));
                    },
                },
            };
            assert(struct_source(v@) == Some(props@));
            if *strict {
                match find_unknown(props, fields) {
                    Some(name) => {
                        return Err(DeError::UnknownField { name });
                    },
                    None => {},
                }
            }
            proof {
                let ghost sv = *s;
                assert(decreases_to!(sv => sv->Struct_0));
                assert(decreases_to!(sv->Struct_0 => sv->Struct_0@));
            }
            match decode_record(v, props, fields) {
                Ok(out) => Ok(Decoded::Record(out)),
                Err(x) => Err(x),
            }
        },
        Shape::Marker(k) => decode_marker(v, *k),
        Shape::Value => {
            if v.contains_opaque() {
                Err(DeError::UnsupportedShape { found: v.kind(), expected: Request::Value })
            } else {
                Ok(Decoded::Value(v.deep_clone()))
            }
        },
    }
}

} // verus!
