//! A query engine's schema over one namespace of an Iceberg catalog.
//!
//! [`IcebergSchemaProvider`] keeps the names of the tables in the namespace and
//! decides, step by step, what a lookup, the creation of a table or the
//! dropping of one asks of the catalog. See [`schema`] for the operations,
//! [`names`] for how tables and their metadata tables are named, [`answers`] for
//! what the operations answer, character by character, and [`laws`] for what
//! holds throughout.
pub mod answers;
pub mod cache;
pub mod conversion;
pub mod emptiness;
pub mod error;
pub mod laws;
pub mod metadata;
pub mod names;
pub mod schema;

pub use crate::emptiness::{ensure_table_is_empty, PartitionReply, ScanReply};
pub use crate::error::{ErrorKind, ExternalError, LoadError, SchemaError};
pub use crate::metadata::MetadataTableType;
pub use crate::schema::{creation_finished, drop_finished, metadata_table_loaded};
pub use crate::schema::{snapshot_taken, table_scanned};
pub use crate::schema::{Creation, Dropping, IcebergSchemaProvider, Registration};
pub use crate::schema::{TableIdent, TableReply, TableRequest};
