//! Core of a single-node broker speaking a subset of the Kafka wire protocol:
//! the byte-level codec primitives, the record-batch codec with CRC-32C,
//! the cluster-metadata queries, and the request/response builders.

pub mod error;
pub mod fetch;
pub mod meta;
pub mod partition;
pub mod pb;
pub mod request;
pub mod response;
pub mod topic;
pub mod types;
