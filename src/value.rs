//! The tagged union of every value the protocol carries, and its mathematical model.
use vstd::prelude::*;

verus! {

broadcast use vstd::std_specs::vec::group_vec_axioms;

/// The kind of a wire value: exactly one per value.
#[derive(Clone, Copy, Debug, PartialEq, Eq, Structural)]
pub enum BoltKind {
    Null,
    Boolean,
    Integer,
    Float,
    String,
    Bytes,
    List,
    Dict,
    Node,
    Relation,
    UnboundedRelation,
    Path,
    Point2D,
    Point3D,
    Duration,
    Date,
    Time,
    LocalTime,
    DateTime,
    LocalDateTime,
    DateTimeZoneId,
}

/// A map from string keys to wire values; its keys are unique (see `BoltMap::wf`).
#[derive(Debug, PartialEq)]
pub struct BoltMap {
    pub value: Vec<(String, BoltType)>,
}

/// A graph node: identifier, labels in the order received, properties.
#[derive(Debug, PartialEq)]
pub struct BoltNode {
    pub id: i64,
    pub labels: Vec<String>,
    pub properties: BoltMap,
}

/// A relationship with both endpoints.
#[derive(Debug, PartialEq)]
pub struct BoltRelation {
    pub id: i64,
    pub start_node_id: i64,
    pub end_node_id: i64,
    pub typ: String,
    pub properties: BoltMap,
}

/// A relationship whose endpoints follow from the path it sits in.
#[derive(Debug, PartialEq)]
pub struct BoltUnboundedRelation {
    pub id: i64,
    pub typ: String,
    pub properties: BoltMap,
}

/// A walk through the graph: one more node than relationships.
#[derive(Debug, PartialEq)]
pub struct BoltPath {
    pub nodes: Vec<BoltNode>,
    pub rels: Vec<BoltUnboundedRelation>,
}

/// A two-dimensional point; coordinates are IEEE-754 bit patterns.
#[derive(Clone, Copy, Debug, PartialEq, Eq, Structural)]
pub struct BoltPoint2D {
    pub sr_id: i64,
    pub x: u64,
    pub y: u64,
}

/// A three-dimensional point; coordinates are IEEE-754 bit patterns.
#[derive(Clone, Copy, Debug, PartialEq, Eq, Structural)]
pub struct BoltPoint3D {
    pub sr_id: i64,
    pub x: u64,
    pub y: u64,
    pub z: u64,
}

#[derive(Clone, Copy, Debug, PartialEq, Eq, Structural)]
pub struct BoltDuration {
    pub months: i64,
    pub days: i64,
    pub seconds: i64,
    pub nanoseconds: i64,
}

/// Days since the Unix epoch.
#[derive(Clone, Copy, Debug, PartialEq, Eq, Structural)]
pub struct BoltDate {
    pub days: i64,
}

#[derive(Clone, Copy, Debug, PartialEq, Eq, Structural)]
pub struct BoltTime {
    pub nanoseconds: i64,
    pub tz_offset_seconds: i64,
}

#[derive(Clone, Copy, Debug, PartialEq, Eq, Structural)]
pub struct BoltLocalTime {
    pub nanoseconds: i64,
}

/// An instant: seconds since the Unix epoch (UTC), the nanoseconds within that
/// second, and the offset from UTC in seconds that it is shown in.
#[derive(Clone, Copy, Debug, PartialEq, Eq, Structural)]
pub struct BoltDateTime {
    pub seconds: i64,
    pub nanoseconds: i64,
    pub tz_offset_seconds: i64,
}

#[derive(Clone, Copy, Debug, PartialEq, Eq, Structural)]
pub struct BoltLocalDateTime {
    pub seconds: i64,
    pub nanoseconds: i64,
}

#[derive(Debug, PartialEq)]
pub struct BoltDateTimeZoneId {
    pub seconds: i64,
    pub nanoseconds: i64,
    pub tz_id: String,
}

/// A wire value. Floats are held as their IEEE-754 bit pattern.
#[derive(Debug, PartialEq)]
pub enum BoltType {
    Null,
    Boolean(bool),
    Integer(i64),
    Float(u64),
    String(String),
    Bytes(Vec<u8>),
    List(Vec<BoltType>),
    Dict(BoltMap),
    Node(BoltNode),
    Relation(BoltRelation),
    UnboundedRelation(BoltUnboundedRelation),
    Path(BoltPath),
    Point2D(BoltPoint2D),
    Point3D(BoltPoint3D),
    Duration(BoltDuration),
    Date(BoltDate),
    Time(BoltTime),
    LocalTime(BoltLocalTime),
    DateTime(BoltDateTime),
    LocalDateTime(BoltLocalDateTime),
    DateTimeZoneId(BoltDateTimeZoneId),
}

/// The mathematical model of a property map: key, value pairs in stored order.
pub type MapModel = Seq<(Seq<char>, ValueModel)>;

pub struct NodeModel {
    pub id: int,
    pub labels: Seq<Seq<char>>,
    pub properties: MapModel,
}

pub struct RelationModel {
    pub id: int,
    pub start_node_id: int,
    pub end_node_id: int,
    pub typ: Seq<char>,
    pub properties: MapModel,
}

pub struct UnboundedRelationModel {
    pub id: int,
    pub typ: Seq<char>,
    pub properties: MapModel,
}

/// The mathematical model of a wire value.
pub enum ValueModel {
    Null,
    Boolean(bool),
    Integer(int),
    Float(u64),
    String(Seq<char>),
    Bytes(Seq<u8>),
    List(Seq<ValueModel>),
    Dict(MapModel),
    Node(NodeModel),
    Relation(RelationModel),
    UnboundedRelation(UnboundedRelationModel),
    Path(Seq<NodeModel>, Seq<UnboundedRelationModel>),
    Point2D(BoltPoint2D),
    Point3D(BoltPoint3D),
    Duration(BoltDuration),
    Date(BoltDate),
    Time(BoltTime),
    LocalTime(BoltLocalTime),
    DateTime(BoltDateTime),
    LocalDateTime(BoltLocalDateTime),
    DateTimeZoneId(int, int, Seq<char>),
}

/// The models of a list of values, in order.
pub open spec fn values_model(items: Seq<BoltType>) -> Seq<ValueModel> {
    Seq::new(items.len(), |i: int| items[i]@)
}

pub open spec fn strings_model(v: Seq<String>) -> Seq<Seq<char>> {
    Seq::new(v.len(), |i: int| v[i]@)
}

pub open spec fn map_model(m: BoltMap) -> MapModel
    decreases m,
{
    Seq::new(
        m.value@.len(),
        |i: int|
            if 0 <= i < m.value@.len() {
                (m.value@[i].0@, value_model(m.value@[i].1))
            } else {
                (Seq::empty(), ValueModel::Null)
            },
    )
}

pub open spec fn node_model(n: BoltNode) -> NodeModel
    decreases n,
{
    NodeModel { id: n.id as int, labels: strings_model(n.labels@), properties: map_model(n.properties) }
}

pub open spec fn relation_model(r: BoltRelation) -> RelationModel
    decreases r,
{
    RelationModel {
        id: r.id as int,
        start_node_id: r.start_node_id as int,
        end_node_id: r.end_node_id as int,
        typ: r.typ@,
        properties: map_model(r.properties),
    }
}

pub open spec fn unbounded_model(r: BoltUnboundedRelation) -> UnboundedRelationModel
    decreases r,
{
    UnboundedRelationModel { id: r.id as int, typ: r.typ@, properties: map_model(r.properties) }
}

pub open spec fn value_model(v: BoltType) -> ValueModel
    decreases v,
{
    match v {
        BoltType::Null => ValueModel::Null,
        BoltType::Boolean(b) => ValueModel::Boolean(b),
        BoltType::Integer(i) => ValueModel::Integer(i as int),
        BoltType::Float(f) => ValueModel::Float(f),
        BoltType::String(s) => ValueModel::String(s@),
        BoltType::Bytes(b) => ValueModel::Bytes(b@),
        BoltType::List(items) => ValueModel::List(
            Seq::new(
                items@.len(),
                |i: int|
                    if 0 <= i < items@.len() {
                        value_model(items@[i])
                    } else {
                        ValueModel::Null
                    },
            ),
        ),
        BoltType::Dict(m) => ValueModel::Dict(map_model(m)),
        BoltType::Node(n) => ValueModel::Node(node_model(n)),
        BoltType::Relation(r) => ValueModel::Relation(relation_model(r)),
        BoltType::UnboundedRelation(r) => ValueModel::UnboundedRelation(unbounded_model(r)),
        BoltType::Path(p) => ValueModel::Path(
            Seq::new(
                p.nodes@.len(),
                |i: int|
                    if 0 <= i < p.nodes@.len() {
                        node_model(p.nodes@[i])
                    } else {
                        NodeModel { id: 0, labels: Seq::empty(), properties: Seq::empty() }
                    },
            ),
            Seq::new(
                p.rels@.len(),
                |i: int|
                    if 0 <= i < p.rels@.len() {
                        unbounded_model(p.rels@[i])
                    } else {
                        UnboundedRelationModel { id: 0, typ: Seq::empty(), properties: Seq::empty() }
                    },
            ),
        ),
        BoltType::Point2D(p) => ValueModel::Point2D(p),
        BoltType::Point3D(p) => ValueModel::Point3D(p),
        BoltType::Duration(d) => ValueModel::Duration(d),
        BoltType::Date(d) => ValueModel::Date(d),
        BoltType::Time(t) => ValueModel::Time(t),
        BoltType::LocalTime(t) => ValueModel::LocalTime(t),
        BoltType::DateTime(d) => ValueModel::DateTime(d),
        BoltType::LocalDateTime(d) => ValueModel::LocalDateTime(d),
        BoltType::DateTimeZoneId(d) => ValueModel::DateTimeZoneId(
            d.seconds as int,
            d.nanoseconds as int,
            d.tz_id@,
        ),
    }
}

/// The model of a graph entity, one level down.
pub proof fn lemma_entity_model(v: BoltType)
    ensures
        v matches BoltType::Node(n) ==> v@ == ValueModel::Node(node_model(n)) && node_model(n).id == n.id
            && node_model(n).labels == strings_model(n.labels@) && node_model(n).properties == n.properties@,
        v matches BoltType::Relation(r) ==> v@ == ValueModel::Relation(relation_model(r))
            && relation_model(r).id == r.id && relation_model(r).start_node_id == r.start_node_id
            && relation_model(r).end_node_id == r.end_node_id && relation_model(r).typ == r.typ@
            && relation_model(r).properties == r.properties@,
        v matches BoltType::UnboundedRelation(r) ==> v@ == ValueModel::UnboundedRelation(unbounded_model(r))
            && unbounded_model(r).id == r.id && unbounded_model(r).typ == r.typ@
            && unbounded_model(r).properties == r.properties@,
        v matches BoltType::Dict(m) ==> v@ == ValueModel::Dict(m@),
{
}

impl View for BoltType {
    type V = ValueModel;

    open spec fn view(&self) -> ValueModel {
        value_model(*self)
    }
}

impl BoltMap {
    /// Each key stands once.
    pub open spec fn wf(&self) -> bool {
        keys_unique(self@)
    }
}

impl View for BoltMap {
    type V = MapModel;

    open spec fn view(&self) -> MapModel {
        map_model(*self)
    }
}

/// The kind of a modelled value.
pub open spec fn kind_of(v: ValueModel) -> BoltKind {
    match v {
        ValueModel::Null => BoltKind::Null,
        ValueModel::Boolean(_) => BoltKind::Boolean,
        ValueModel::Integer(_) => BoltKind::Integer,
        ValueModel::Float(_) => BoltKind::Float,
        ValueModel::String(_) => BoltKind::String,
        ValueModel::Bytes(_) => BoltKind::Bytes,
        ValueModel::List(_) => BoltKind::List,
        ValueModel::Dict(_) => BoltKind::Dict,
        ValueModel::Node(_) => BoltKind::Node,
        ValueModel::Relation(_) => BoltKind::Relation,
        ValueModel::UnboundedRelation(_) => BoltKind::UnboundedRelation,
        ValueModel::Path(_, _) => BoltKind::Path,
        ValueModel::Point2D(_) => BoltKind::Point2D,
        ValueModel::Point3D(_) => BoltKind::Point3D,
        ValueModel::Duration(_) => BoltKind::Duration,
        ValueModel::Date(_) => BoltKind::Date,
        ValueModel::Time(_) => BoltKind::Time,
        ValueModel::LocalTime(_) => BoltKind::LocalTime,
        ValueModel::DateTime(_) => BoltKind::DateTime,
        ValueModel::LocalDateTime(_) => BoltKind::LocalDateTime,
        ValueModel::DateTimeZoneId(_, _, _) => BoltKind::DateTimeZoneId,
    }
}

/// The kinds that have no structured decode path of their own.
pub open spec fn is_opaque_temporal(k: BoltKind) -> bool {
    k == BoltKind::Duration || k == BoltKind::Date || k == BoltKind::Time || k
        == BoltKind::LocalTime || k == BoltKind::LocalDateTime || k == BoltKind::DateTimeZoneId
}

/// The keys of a map model, in stored order.
pub open spec fn keys_of(m: MapModel) -> Seq<Seq<char>> {
    Seq::new(m.len(), |i: int| m[i].0)
}

/// Keys are unique.
pub open spec fn keys_unique(m: MapModel) -> bool {
    forall|i: int, j: int| 0 <= i < j < m.len() ==> m[i].0 != m[j].0
}

/// The value stored under `key`, the first such entry.
pub open spec fn lookup(m: MapModel, key: Seq<char>) -> Option<ValueModel>
    decreases m.len(),
{
    if m.len() == 0 {
        None
    } else if m[0].0 == key {
        Some(m[0].1)
    } else {
        lookup(m.subrange(1, m.len() as int), key)
    }
}

impl BoltType {
    /// The kind of this value.
    pub fn kind(&self) -> (k: BoltKind)
        ensures
            k == kind_of(self@),
    {
        match self {
            BoltType::Null => BoltKind::Null,
            BoltType::Boolean(_) => BoltKind::Boolean,
            BoltType::Integer(_) => BoltKind::Integer,
            BoltType::Float(_) => BoltKind::Float,
            BoltType::String(_) => BoltKind::String,
            BoltType::Bytes(_) => BoltKind::Bytes,
            BoltType::List(_) => BoltKind::List,
            BoltType::Dict(_) => BoltKind::Dict,
            BoltType::Node(_) => BoltKind::Node,
            BoltType::Relation(_) => BoltKind::Relation,
            BoltType::UnboundedRelation(_) => BoltKind::UnboundedRelation,
            BoltType::Path(_) => BoltKind::Path,
            BoltType::Point2D(_) => BoltKind::Point2D,
            BoltType::Point3D(_) => BoltKind::Point3D,
            BoltType::Duration(_) => BoltKind::Duration,
            BoltType::Date(_) => BoltKind::Date,
            BoltType::Time(_) => BoltKind::Time,
            BoltType::LocalTime(_) => BoltKind::LocalTime,
            BoltType::DateTime(_) => BoltKind::DateTime,
            BoltType::LocalDateTime(_) => BoltKind::LocalDateTime,
            BoltType::DateTimeZoneId(_) => BoltKind::DateTimeZoneId,
        }
    }
}

/// Some value inside `v`, or `v` itself, is of a kind with no structured decode path.
pub open spec fn contains_opaque(v: ValueModel) -> bool
    decreases v,
{
    is_opaque_temporal(kind_of(v)) || match v {
        ValueModel::List(items) => exists|i: int| 0 <= i < items.len() && contains_opaque(#[trigger] items[i]),
        ValueModel::Dict(m) => map_contains_opaque(m),
        ValueModel::Node(n) => map_contains_opaque(n.properties),
        ValueModel::Relation(r) => map_contains_opaque(r.properties),
        ValueModel::UnboundedRelation(r) => map_contains_opaque(r.properties),
        ValueModel::Path(nodes, rels) => (exists|i: int|
            0 <= i < nodes.len() && map_contains_opaque(#[trigger] nodes[i].properties)) || (exists|i: int|
            0 <= i < rels.len() && map_contains_opaque(#[trigger] rels[i].properties)),
        _ => false,
    }
}

/// Some value of the map model is, or holds, an opaque kind.
pub open spec fn map_contains_opaque(m: MapModel) -> bool
    decreases m,
{
    exists|i: int| 0 <= i < m.len() && contains_opaque(#[trigger] m[i].1)
}

/// A copy of a list of strings.
pub fn clone_strings(v: &Vec<String>) -> (r: Vec<String>)
    ensures
        strings_model(r@) == strings_model(v@),
        r@.len() == v@.len(),
{
    let mut out: Vec<String> = Vec::new();
    let mut k: usize = 0;
    while k < v.len()
        invariant
            k <= v@.len(),
            out@.len() == k,
            forall|j: int| 0 <= j < k ==> (#[trigger] out@[j])@ == v@[j]@,
        decreases v@.len() - k,
    {
        out.push(v[k].clone());
        k = k + 1;
    }
    assert(strings_model(out@) =~= strings_model(v@));
    out
}

impl BoltMap {
    /// A deep copy.
    pub fn deep_clone(&self) -> (r: BoltMap)
        ensures
            r@ == self@,
        decreases self, 1int,
    {
        let mut out: Vec<(String, BoltType)> = Vec::new();
        let mut k: usize = 0;
        while k < self.value.len()
            invariant
                k <= self.value@.len(),
                out@.len() == k,
                forall|j: int|
                    0 <= j < k ==> (#[trigger] out@[j]).0@ == self.value@[j].0@ && out@[j].1@
                        == self.value@[j].1@,
            decreases self.value@.len() - k,
        {
            proof {
                assert(decreases_to!(self.value => self.value@));
                assert(decreases_to!(self.value@ => self.value@[k as int]));
                assert(decreases_to!(self.value@[k as int] => self.value@[k as int].1));
            }
            let key = self.value[k].0.clone();
            let val = self.value[k].1.deep_clone();
            out.push((key, val));
            k = k + 1;
        }
        let r = BoltMap { value: out };
        assert(r@ =~= self@);
        r
    }

    /// The value stored under `key`.
    pub fn get(&self, key: &String) -> (r: Option<&BoltType>)
        ensures
            r is Some <==> lookup(self@, key@) is Some,
            r matches Some(x) ==> lookup(self@, key@) == Some(x@),
    {
        let mut k: usize = 0;
        assert(self@.subrange(0, self@.len() as int) =~= self@);
        while k < self.value.len()
            invariant
                k <= self.value@.len(),
                lookup(self@, key@) == lookup(self@.subrange(k as int, self@.len() as int), key@),
            decreases self.value@.len() - k,
        {
            let ghost rest = self@.subrange(k as int, self@.len() as int);
            assert(rest[0] == self@[k as int]);
            assert(rest.subrange(1, rest.len() as int) =~= self@.subrange(k + 1, self@.len() as int));
            if self.value[k].0 == *key {
                return Some(&self.value[k].1);
            }
            k = k + 1;
        }
        None
    }

    /// Some value in the map is, or holds, an opaque kind.
    pub fn contains_opaque(&self) -> (r: bool)
        ensures
            r == map_contains_opaque(self@),
        decreases self, 1int,
    {
        let mut k: usize = 0;
        while k < self.value.len()
            invariant
                k <= self.value@.len(),
                forall|j: int| 0 <= j < k ==> !contains_opaque(#[trigger] self@[j].1),
            decreases self.value@.len() - k,
        {
            proof {
                assert(decreases_to!(self.value => self.value@));
                assert(decreases_to!(self.value@ => self.value@[k as int]));
                assert(decreases_to!(self.value@[k as int] => self.value@[k as int].1));
            }
            if self.value[k].1.contains_opaque() {
                assert(contains_opaque(self@[k as int].1));
                return true;
            }
            k = k + 1;
        }
        false
    }
}

impl BoltNode {
    /// A deep copy.
    pub fn deep_clone(&self) -> (r: BoltNode)
        ensures
            node_model(r) == node_model(*self),
        decreases self, 2int,
    {
        BoltNode { id: self.id, labels: clone_strings(&self.labels), properties: self.properties.deep_clone() }
    }
}

impl BoltRelation {
    /// A deep copy.
    pub fn deep_clone(&self) -> (r: BoltRelation)
        ensures
            relation_model(r) == relation_model(*self),
        decreases self, 2int,
    {
        BoltRelation {
            id: self.id,
            start_node_id: self.start_node_id,
            end_node_id: self.end_node_id,
            typ: self.typ.clone(),
            properties: self.properties.deep_clone(),
        }
    }
}

impl BoltUnboundedRelation {
    /// A deep copy.
    pub fn deep_clone(&self) -> (r: BoltUnboundedRelation)
        ensures
            unbounded_model(r) == unbounded_model(*self),
        decreases self, 2int,
    {
        BoltUnboundedRelation { id: self.id, typ: self.typ.clone(), properties: self.properties.deep_clone() }
    }
}

impl BoltType {
    /// A deep copy, equal to `self` in every field.
    pub fn deep_clone(&self) -> (r: BoltType)
        ensures
            r@ == self@,
        decreases self, 3int,
    {
        match self {
            BoltType::Null => {
                let r = BoltType::Null;
                assert(r@ == self@);
                r
            },
            BoltType::Boolean(b) => {
                let r = BoltType::Boolean(*b);
                assert(r@ == self@);
                r
            },
            BoltType::Integer(i) => {
                let r = BoltType::Integer(*i);
                assert(r@ == self@);
                r
            },
            BoltType::Float(f) => {
                let r = BoltType::Float(*f);
                assert(r@ == self@);
                r
            },
            BoltType::String(s) => {
                let r = BoltType::String(s.clone());
                assert(r@ == self@);
                r
            },
            BoltType::Bytes(b) => {
                let c = b.clone();
                assert(c@ =~= b@);
                BoltType::Bytes(c)
            },
            BoltType::List(items) => {
                let mut out: Vec<BoltType> = Vec::new();
                let mut k: usize = 0;
                while k < items.len()
                    invariant
                        *self == BoltType::List(*items),
                        k <= items@.len(),
                        out@.len() == k,
                        forall|j: int| 0 <= j < k ==> (#[trigger] out@[j])@ == items@[j]@,
                    decreases items@.len() - k,
                {
                    proof {
                        let ghost me = *self;
                        assert(decreases_to!(me => me->List_0));
                        assert(decreases_to!(me->List_0 => me->List_0@));
                    }
                    out.push(items[k].deep_clone());
                    k = k + 1;
                }
                let r = BoltType::List(out);
                assert(r@ == self@) by {
                    assert(r@->List_0 =~= self@->List_0);
                }
                r
            },
            BoltType::Dict(m) => {
                proof {
                    let ghost me = *self;
                    assert(decreases_to!(me => me->Dict_0));
                }
                let r = BoltType::Dict(m.deep_clone());
                assert(r@ == self@);
                r
            },
            BoltType::Node(n) => {
                proof {
                    let ghost me = *self;
                    assert(decreases_to!(me => me->Node_0));
                }
                BoltType::Node(n.deep_clone())
            },
            BoltType::Relation(r) => {
                proof {
                    let ghost me = *self;
                    assert(decreases_to!(me => me->Relation_0));
                }
                BoltType::Relation(r.deep_clone())
            },
            BoltType::UnboundedRelation(r) => {
                proof {
                    let ghost me = *self;
                    assert(decreases_to!(me => me->UnboundedRelation_0));
                }
                BoltType::UnboundedRelation(r.deep_clone())
            },
            BoltType::Path(p) => {
                let mut nodes: Vec<BoltNode> = Vec::new();
                let mut k: usize = 0;
                while k < p.nodes.len()
                    invariant
                        *self == BoltType::Path(*p),
                        k <= p.nodes@.len(),
                        nodes@.len() == k,
                        forall|j: int| 0 <= j < k ==> node_model(#[trigger] nodes@[j]) == node_model(p.nodes@[j]),
                    decreases p.nodes@.len() - k,
                {
                    proof {
                        let ghost me = *self;
                        assert(decreases_to!(me => me->Path_0));
                        assert(decreases_to!(me->Path_0 => me->Path_0.nodes));
                        assert(decreases_to!(me->Path_0.nodes => me->Path_0.nodes@));
                    }
                    nodes.push(p.nodes[k].deep_clone());
                    k = k + 1;
                }
                let mut rels: Vec<BoltUnboundedRelation> = Vec::new();
                let mut k: usize = 0;
                while k < p.rels.len()
                    invariant
                        *self == BoltType::Path(*p),
                        k <= p.rels@.len(),
                        rels@.len() == k,
                        forall|j: int| 0 <= j < k ==> unbounded_model(#[trigger] rels@[j]) == unbounded_model(p.rels@[j]),
                    decreases p.rels@.len() - k,
                {
                    proof {
                        let ghost me = *self;
                        assert(decreases_to!(me => me->Path_0));
                        assert(decreases_to!(me->Path_0 => me->Path_0.rels));
                        assert(decreases_to!(me->Path_0.rels => me->Path_0.rels@));
                    }
                    rels.push(p.rels[k].deep_clone());
                    k = k + 1;
                }
                let r = BoltType::Path(BoltPath { nodes, rels });
                assert(r@ == self@) by {
                    assert(r@->Path_0 =~= self@->Path_0);
                    assert(r@->Path_1 =~= self@->Path_1);
                }
                r
            },
            BoltType::Point2D(p) => {
                let r = BoltType::Point2D(*p);
                assert(r@ == self@);
                r
            },
            BoltType::Point3D(p) => {
                let r = BoltType::Point3D(*p);
                assert(r@ == self@);
                r
            },
            BoltType::Duration(d) => {
                let r = BoltType::Duration(*d);
                assert(r@ == self@);
                r
            },
            BoltType::Date(d) => {
                let r = BoltType::Date(*d);
                assert(r@ == self@);
                r
            },
            BoltType::Time(t) => {
                let r = BoltType::Time(*t);
                assert(r@ == self@);
                r
            },
            BoltType::LocalTime(t) => {
                let r = BoltType::LocalTime(*t);
                assert(r@ == self@);
                r
            },
            BoltType::DateTime(d) => {
                let r = BoltType::DateTime(*d);
                assert(r@ == self@);
                r
            },
            BoltType::LocalDateTime(d) => {
                let r = BoltType::LocalDateTime(*d);
                assert(r@ == self@);
                r
            },
            BoltType::DateTimeZoneId(d) => {
                let r = BoltType::DateTimeZoneId(
                    BoltDateTimeZoneId { seconds: d.seconds, nanoseconds: d.nanoseconds, tz_id: d.tz_id.clone() },
                );
                assert(r@ == self@);
                r
            },
        }
    }

    /// This value, or one inside it, is of a kind with no structured decode path.
    pub fn contains_opaque(&self) -> (r: bool)
        ensures
            r == contains_opaque(self@),
        decreases self, 2int,
    {
        match self {
            BoltType::Duration(_) | BoltType::Date(_) | BoltType::Time(_) | BoltType::LocalTime(_)
            | BoltType::LocalDateTime(_) | BoltType::DateTimeZoneId(_) => {
                assert(is_opaque_temporal(kind_of(self@)));
                true
            },
            BoltType::List(items) => {
                let mut k: usize = 0;
                while k < items.len()
                    invariant
                        *self == BoltType::List(*items),
                        k <= items@.len(),
                        forall|j: int| 0 <= j < k ==> !contains_opaque(#[trigger] items@[j]@),
                    decreases items@.len() - k,
                {
                    proof {
                        let ghost me = *self;
                        assert(decreases_to!(me => me->List_0));
                        assert(decreases_to!(me->List_0 => me->List_0@));
                    }
                    if items[k].contains_opaque() {
                        assert(self@->List_0[k as int] == items@[k as int]@);
                        assert(contains_opaque(self@->List_0[k as int]));
                        return true;
                    }
                    k = k + 1;
                }
                assert forall|i: int| 0 <= i < self@->List_0.len() implies !contains_opaque(
                    #[trigger] self@->List_0[i],
                ) by {
                    assert(self@->List_0[i] == items@[i]@);
                }
                false
            },
            BoltType::Dict(m) => {
                proof {
                    let ghost me = *self;
                    assert(decreases_to!(me => me->Dict_0));
                }
                m.contains_opaque()
            },
            BoltType::Node(n) => {
                proof {
                    let ghost me = *self;
                    assert(decreases_to!(me => me->Node_0));
                    assert(decreases_to!(me->Node_0 => me->Node_0.properties));
                }
                assert(self@ == ValueModel::Node(node_model(*n)));
                assert(node_model(*n).properties == n.properties@);
                n.properties.contains_opaque()
            },
            BoltType::Relation(r) => {
                proof {
                    let ghost me = *self;
                    assert(decreases_to!(me => me->Relation_0));
                    assert(decreases_to!(me->Relation_0 => me->Relation_0.properties));
                }
                assert(self@ == ValueModel::Relation(relation_model(*r)));
                assert(relation_model(*r).properties == r.properties@);
                r.properties.contains_opaque()
            },
            BoltType::UnboundedRelation(r) => {
                proof {
                    let ghost me = *self;
                    assert(decreases_to!(me => me->UnboundedRelation_0));
                    assert(decreases_to!(me->UnboundedRelation_0 => me->UnboundedRelation_0.properties));
                }
                assert(self@ == ValueModel::UnboundedRelation(unbounded_model(*r)));
                assert(unbounded_model(*r).properties == r.properties@);
                r.properties.contains_opaque()
            },
            BoltType::Path(p) => {
                let mut k: usize = 0;
                while k < p.nodes.len()
                    invariant
                        *self == BoltType::Path(*p),
                        k <= p.nodes@.len(),
                        forall|j: int| 0 <= j < k ==> !map_contains_opaque(#[trigger] node_model(p.nodes@[j]).properties),
                    decreases p.nodes@.len() - k,
                {
                    proof {
                        let ghost me = *self;
                        assert(decreases_to!(me => me->Path_0));
                        assert(decreases_to!(me->Path_0 => me->Path_0.nodes));
                        assert(decreases_to!(me->Path_0.nodes => me->Path_0.nodes@));
                        assert(decreases_to!(me->Path_0.nodes@ => me->Path_0.nodes@[k as int]));
                        assert(decreases_to!(me->Path_0.nodes@[k as int] => me->Path_0.nodes@[k as int].properties));
                    }
                    if p.nodes[k].properties.contains_opaque() {
                        assert(self@->Path_0[k as int] == node_model(p.nodes@[k as int]));
                        assert(map_contains_opaque(self@->Path_0[k as int].properties));
                        return true;
                    }
                    k = k + 1;
                }
                let mut k: usize = 0;
                while k < p.rels.len()
                    invariant
                        *self == BoltType::Path(*p),
                        k <= p.rels@.len(),
                        forall|j: int| 0 <= j < k ==> !map_contains_opaque(#[trigger] unbounded_model(p.rels@[j]).properties),
                    decreases p.rels@.len() - k,
                {
                    proof {
                        let ghost me = *self;
                        assert(decreases_to!(me => me->Path_0));
                        assert(decreases_to!(me->Path_0 => me->Path_0.rels));
                        assert(decreases_to!(me->Path_0.rels => me->Path_0.rels@));
                        assert(decreases_to!(me->Path_0.rels@ => me->Path_0.rels@[k as int]));
                        assert(decreases_to!(me->Path_0.rels@[k as int] => me->Path_0.rels@[k as int].properties));
                    }
                    if p.rels[k].properties.contains_opaque() {
                        assert(self@->Path_1[k as int] == unbounded_model(p.rels@[k as int]));
                        assert(map_contains_opaque(self@->Path_1[k as int].properties));
                        return true;
                    }
                    k = k + 1;
                }
                assert forall|i: int| 0 <= i < self@->Path_0.len() implies !map_contains_opaque(
                    #[trigger] self@->Path_0[i].properties,
                ) by {
                    assert(self@->Path_0[i] == node_model(p.nodes@[i]));
                }
                assert forall|i: int| 0 <= i < self@->Path_1.len() implies !map_contains_opaque(
                    #[trigger] self@->Path_1[i].properties,
                ) by {
                    assert(self@->Path_1[i] == unbounded_model(p.rels@[i]));
                }
                false
            },
            _ => false,
        }
    }
}

} // verus!
