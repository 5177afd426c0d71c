
pub mod decode;
pub mod deserializer;
pub mod connection;
pub mod markers;
pub mod messages;
pub mod stream;
pub mod temporal;
pub mod text;
pub mod txn;
pub mod value;

pub use decode::{DeError, Decoded, IntWidth, MarkerKind, Request, Shape};
pub use deserializer::{decode, BoltTypeDeserializer};
pub use markers::{EndNodeId, Id, Keys, Labels, StartNodeId, Type};
pub use messages::{BoltRequest, BoltResponse, Counters, Error, Exchange, Query, RunResult, Summary};
pub use stream::{RowStream, Step};
pub use temporal::TimeUnit;
pub use txn::{Closing, Handle, Operation, TransactionHandle, Txn};
pub use value::{
    BoltDate, BoltDateTime, BoltDateTimeZoneId, BoltDuration, BoltKind, BoltLocalDateTime, BoltLocalTime,
    BoltMap, BoltNode, BoltPath, BoltPoint2D, BoltPoint3D, BoltRelation, BoltTime, BoltType,
    BoltUnboundedRelation,
};
pub use connection::ManagedConnection;
