//! The steps of the schema on plain values, without a catalog.
use std::collections::HashMap;

use datafusion::arrow::datatypes::{DataType, Field, Schema as ArrowSchema};

use iceberg_schema_provider::names::{list_with_metadata, split_name};
use iceberg_schema_provider::{
    creation_finished, drop_finished, ensure_table_is_empty, metadata_table_loaded,
    snapshot_taken, table_scanned, Creation, Dropping, ErrorKind, ExternalError, IcebergSchemaProvider, LoadError, MetadataTableType,
    PartitionReply, Registration, ScanReply, SchemaError, TableIdent, TableReply,
};

type Batches = Vec<Result<usize, String>>;

fn ident(name: &str) -> TableIdent {
    TableIdent { namespace: vec!["lake".to_string(), "raw".to_string()], name: name.to_string() }
}

fn schema_of(names: &[&str]) -> IcebergSchemaProvider {
    let listed = Ok::<Vec<TableIdent>, String>(names.iter().map(|name| ident(name)).collect());
    IcebergSchemaProvider::try_new(vec!["lake".to_string(), "raw".to_string()], listed).unwrap()
}

fn sorted(mut names: Vec<String>) -> Vec<String> {
    names.sort();
    names
}

fn refused(reply: ScanReply<String>) -> Option<String> {
    match ensure_table_is_empty::<String, String>(reply) {
        Ok(()) => None,
        Err(ExternalError::Unexpected(text)) => Some(text),
        Err(ExternalError::Reported(text)) => panic!("not reported by anyone: {text}"),
    }
}

fn one_partition(batches: Batches) -> ScanReply<String> {
    ScanReply::Partitions(vec![PartitionReply::Batches(batches)])
}

fn dropping(name: &str) -> Dropping<u32> {
    snapshot_taken::<u32, String>(ident(name), Ok(1))
}

fn missing(error: &str) -> LoadError<String> {
    LoadError { kind: ErrorKind::TableNotFound, error: error.to_string() }
}

#[test]
fn names_split_at_the_first_separator() {
    assert_eq!(split_name("orders"), None);
    assert_eq!(split_name(""), None);
    assert_eq!(split_name("orders$snapshots"), Some(("orders", "snapshots")));
    assert_eq!(split_name("a$b$c"), Some(("a", "b$c")));
    assert_eq!(split_name("$"), Some(("", "")));
    assert_eq!(split_name("\u{e9}t\u{e9}$\u{df}"), Some(("\u{e9}t\u{e9}", "\u{df}")));
}

#[test]
fn each_table_is_listed_with_its_metadata_tables() {
    let listed = list_with_metadata(&vec!["b".to_string(), "a".to_string()]);
    assert_eq!(
        listed,
        vec!["b", "b$snapshots", "b$manifests", "a", "a$snapshots", "a$manifests"],
    );
    assert!(list_with_metadata(&vec![]).is_empty());
}

#[test]
fn schema_lists_every_table_once() {
    let schema = schema_of(&["b", "a", "b"]);
    assert_eq!(
        sorted(schema.table_names()),
        vec!["a", "a$manifests", "a$snapshots", "b", "b$manifests", "b$snapshots"],
    );
    assert!(schema_of(&[]).table_names().is_empty());
}

#[test]
fn listing_error_is_handed_back() {
    let listed = Err::<Vec<TableIdent>, String>("no catalog".to_string());
    let made = IcebergSchemaProvider::try_new(vec!["lake".to_string()], listed);
    assert_eq!(made.unwrap_err(), "no catalog");
}

#[test]
fn names_exist_with_known_metadata_tables_only() {
    let schema = schema_of(&["orders"]);
    assert!(schema.table_exist("orders"));
    assert!(schema.table_exist("orders$snapshots"));
    assert!(schema.table_exist("orders$manifests"));
    assert!(!schema.table_exist("orders$files"));
    assert!(!schema.table_exist("orders$"));
    assert!(!schema.table_exist("orders$snapshots$manifests"));
    assert!(!schema.table_exist("orders$Snapshots"));
    assert!(!schema.table_exist("Orders"));
    assert!(!schema.table_exist("parts$snapshots"));
    assert!(!schema.table_exist(""));
}

#[test]
fn every_listed_name_exists_and_can_be_looked_up() {
    let schema = schema_of(&["orders", "parts"]);
    for name in schema.table_names() {
        assert!(schema.table_exist(&name));
        assert!(schema.table::<String>(&name).unwrap().is_some());
    }
}

#[test]
fn table_with_a_separator_in_its_name_is_listed_but_not_found() {
    let schema = schema_of(&["a$b"]);
    assert!(schema.table_names().contains(&"a$b".to_string()));
    assert!(!schema.table_exist("a$b"));
}

#[test]
fn lookup_asks_for_the_table_in_its_namespace() {
    let schema = schema_of(&["orders"]);
    let request = schema.table::<String>("orders").unwrap().unwrap();
    assert_eq!(request.ident.namespace, vec!["lake", "raw"]);
    assert_eq!(request.ident.name, "orders");
    assert_eq!(request.metadata, None);
    let request = schema.table::<String>("orders$snapshots").unwrap().unwrap();
    assert_eq!(request.ident.namespace, vec!["lake", "raw"]);
    assert_eq!(request.ident.name, "orders");
    assert_eq!(request.metadata, Some(MetadataTableType::Snapshots));
    let asked = schema.load_table_provider("orders").unwrap();
    assert_eq!((asked.namespace, asked.name), (request.ident.namespace, request.ident.name));
}

#[test]
fn lookup_of_an_unknown_table_ends_at_once() {
    let schema = schema_of(&["orders"]);
    assert!(schema.table::<String>("parts").unwrap().is_none());
    assert!(schema.table::<String>("parts$manifests").unwrap().is_none());
    assert!(schema.load_table_provider("parts").is_none());
    assert!(schema.load_table_provider("orders$snapshots").is_none());
}

#[test]
fn lookup_of_an_unknown_metadata_table_is_a_planning_error() {
    let schema = schema_of(&["orders"]);
    for name in ["orders$files", "parts$files"] {
        match schema.table::<String>(name).unwrap_err() {
            SchemaError::Plan(text) => assert_eq!(text, "invalid metadata table type: files"),
            err => panic!("expected a planning error, got: {err:?}"),
        }
    }
}

#[test]
fn loaded_table_is_handed_on() {
    let mut schema = schema_of(&["orders"]);
    let request = schema.table::<String>("orders").unwrap().unwrap();
    match schema.table_loaded::<u32, String>(request, Ok(7)).unwrap() {
        TableReply::Table(provider) => assert_eq!(provider, 7),
        reply => panic!("expected the table, got: {reply:?}"),
    }
    let request = schema.table::<String>("orders$manifests").unwrap().unwrap();
    match schema.table_loaded::<u32, String>(request, Ok(8)).unwrap() {
        TableReply::Inspect(provider, kind) => {
            assert_eq!((provider, kind), (8, MetadataTableType::Manifests));
        }
        reply => panic!("expected a metadata table to build, got: {reply:?}"),
    }
    assert_eq!(schema.provider_loaded::<u32, String>("orders", Ok(9)).unwrap(), Some(9));
    assert!(schema.table_exist("orders"));
}

#[test]
fn only_a_missing_table_is_forgotten() {
    let others = [
        ErrorKind::PreconditionFailed,
        ErrorKind::Unexpected,
        ErrorKind::DataInvalid,
        ErrorKind::NamespaceAlreadyExists,
        ErrorKind::TableAlreadyExists,
        ErrorKind::NamespaceNotFound,
        ErrorKind::FeatureUnsupported,
        ErrorKind::CatalogCommitConflicts,
        ErrorKind::Other,
    ];
    let mut schema = schema_of(&["orders", "parts"]);
    for kind in others {
        let request = schema.table::<String>("orders").unwrap().unwrap();
        let reply = Err::<u32, _>(LoadError { kind, error: "busy".to_string() });
        match schema.table_loaded(request, reply).unwrap_err() {
            SchemaError::External(ExternalError::Reported(text)) => assert_eq!(text, "busy"),
            err => panic!("expected the catalog's error, got: {err:?}"),
        }
        assert!(schema.table_exist("orders"));
    }
    let request = schema.table::<String>("orders$snapshots").unwrap().unwrap();
    let reply = schema.table_loaded(request, Err::<u32, _>(missing("gone"))).unwrap();
    assert!(matches!(reply, TableReply::Missing));
    assert!(!schema.table_exist("orders"));
    assert!(!schema.table_exist("orders$snapshots"));
    assert!(schema.table_exist("parts"));
    let loaded = schema.provider_loaded("parts", Err::<u32, _>(missing("gone")));
    assert_eq!(loaded.unwrap(), None);
    assert!(schema.table_names().is_empty());
}

#[test]
fn metadata_table_reply_ends_the_lookup() {
    assert_eq!(metadata_table_loaded::<u32, String>(Ok(4)).unwrap(), Some(4));
    match metadata_table_loaded::<u32, String>(Err("broken".to_string())).unwrap_err() {
        SchemaError::External(ExternalError::Reported(text)) => assert_eq!(text, "broken"),
        err => panic!("expected the catalog's error, got: {err:?}"),
    }
}

#[test]
fn registration_converts_the_schema() {
    let schema = schema_of(&["orders"]);
    let input = ArrowSchema::new(vec![
        Field::new("z", DataType::Utf8, true),
        Field::new("a", DataType::Int64, false),
        Field::new("m", DataType::Boolean, true),
    ]);
    let registration = schema.register_table("parts".to_string(), &input).unwrap();
    assert_eq!(registration.ident.namespace, vec!["lake", "raw"]);
    assert_eq!(registration.ident.name, "parts");
    let fields = registration.schema.as_struct().fields();
    let fields: Vec<_> = fields.iter().map(|f| (f.id, f.name.as_str(), f.required)).collect();
    assert_eq!(fields, vec![(1, "z", false), (2, "a", true), (3, "m", false)]);
    assert_eq!(registration.schema.schema_id(), 0);
    assert_eq!(registration.schema.identifier_field_ids().count(), 0);
}

#[test]
fn doc_of_a_field_is_carried_over() {
    let doc = |text: &str| HashMap::from([("doc".to_string(), text.to_string())]);
    let inner = Field::new("x", DataType::Int64, false).with_metadata(doc("inside"));
    let input = ArrowSchema::new(vec![
        Field::new("a", DataType::Utf8, true).with_metadata(doc("what it is")),
        Field::new("b", DataType::Struct(vec![inner].into()), true),
    ]);
    let registration = schema_of(&[]).register_table("parts".to_string(), &input).unwrap();
    let doc_of = |name: &str| registration.schema.field_by_name(name).unwrap().doc.clone();
    assert_eq!(doc_of("a"), Some("what it is".to_string()));
    assert_eq!(doc_of("b"), None);
    assert_eq!(doc_of("b.x"), Some("inside".to_string()));
}

#[test]
fn repeated_field_name_is_reported() {
    let schema = schema_of(&[]);
    let input = ArrowSchema::new(vec![
        Field::new("a", DataType::Int64, false),
        Field::new("a", DataType::Utf8, true),
    ]);
    match schema.register_table("parts".to_string(), &input).unwrap_err() {
        SchemaError::External(ExternalError::Reported(error)) => {
            assert!(error.message().contains("multiple fields for name a"));
        }
        err => panic!("expected the conversion error, got: {err:?}"),
    }
}

#[test]
fn schema_without_fields_can_be_registered() {
    let registration = schema_of(&[]).register_table("parts".to_string(), &ArrowSchema::empty());
    assert!(registration.unwrap().schema.as_struct().fields().is_empty());
}

#[test]
fn existing_name_cannot_be_registered() {
    let schema = schema_of(&["orders"]);
    let input = ArrowSchema::empty();
    for name in ["orders", "orders$snapshots"] {
        match schema.register_table(name.to_string(), &input).unwrap_err() {
            SchemaError::Execution(text) => {
                assert_eq!(text, format!("Table {name} already exists"));
            }
            err => panic!("expected an execution error, got: {err:?}"),
        }
    }
    assert!(schema.register_table("orders$files".to_string(), &input).is_ok());
}

#[test]
fn conversion_result_decides_the_registration() {
    let schema = schema_of(&[]);
    let begun = schema.schema_converted::<u8, String>("t".to_string(), Ok(3)).unwrap();
    assert_eq!((begun.ident.name.as_str(), begun.schema), ("t", 3));
    let begun = schema.schema_converted::<u8, String>("t".to_string(), Err("no".to_string()));
    match begun.unwrap_err() {
        SchemaError::External(ExternalError::Reported(text)) => assert_eq!(text, "no"),
        err => panic!("expected the conversion error, got: {err:?}"),
    }
}

#[test]
fn input_with_rows_is_refused() {
    let with_data = Some("register_table does not support tables with data.".to_string());
    let unread = || Err("unreadable".to_string());
    assert_eq!(refused(one_partition(vec![])), None);
    assert_eq!(refused(one_partition(vec![Ok(0), Ok(0)])), None);
    assert_eq!(refused(one_partition(vec![unread(), Ok(0)])), None);
    assert_eq!(refused(one_partition(vec![Ok(3)])), with_data);
    assert_eq!(refused(one_partition(vec![Ok(0), unread(), Ok(1)])), with_data);
}

#[test]
fn input_that_cannot_be_scanned_is_refused() {
    assert_eq!(
        refused(ScanReply::ScanFailed("no plan".to_string())),
        Some("Failed to scan table: no plan".to_string()),
    );
    let reply = PartitionReply::ExecuteFailed("no partition".to_string());
    assert_eq!(
        refused(ScanReply::Partitions(vec![reply])),
        Some("Failed to execute scan: no partition".to_string()),
    );
}

#[test]
fn first_partition_against_the_input_decides() {
    let empty = || PartitionReply::Batches(vec![Ok(0)]);
    let rows = || PartitionReply::Batches(vec![Ok(2)]);
    let failed = || PartitionReply::ExecuteFailed("lost".to_string());
    let with_data = Some("register_table does not support tables with data.".to_string());
    let lost = Some("Failed to execute scan: lost".to_string());
    assert_eq!(refused(ScanReply::Partitions(vec![])), None);
    assert_eq!(refused(ScanReply::Partitions(vec![empty(), empty()])), None);
    assert_eq!(refused(ScanReply::Partitions(vec![empty(), rows()])), with_data);
    assert_eq!(refused(ScanReply::Partitions(vec![rows(), failed()])), with_data);
    assert_eq!(refused(ScanReply::Partitions(vec![empty(), failed(), rows()])), lost);
}

#[test]
fn empty_input_leads_to_creation() {
    let registration = Registration { ident: ident("parts"), schema: 5u8 };
    let empty = one_partition(vec![Ok(0)]);
    let creation: Creation<u8> = table_scanned::<u8, String, String>(registration, empty).unwrap();
    assert_eq!(creation.ident.namespace, vec!["lake", "raw"]);
    assert_eq!((creation.ident.name.as_str(), creation.schema), ("parts", 5));
    let registration = Registration { ident: ident("parts"), schema: 5u8 };
    let rows = one_partition(vec![Ok(2)]);
    let next = table_scanned::<u8, String, String>(registration, rows);
    match next.unwrap_err() {
        SchemaError::External(ExternalError::Unexpected(text)) => {
            assert_eq!(text, "register_table does not support tables with data.");
        }
        err => panic!("expected a refusal, got: {err:?}"),
    }
}

#[test]
fn dropping_undoes_creating() {
    let mut schema = schema_of(&["orders"]);
    let before = sorted(schema.table_names());
    let done = schema.table_created::<(), u32, String>(ident("parts"), Ok(()));
    assert_eq!(done.unwrap(), None);
    assert!(schema.table_exist("parts"));
    assert!(schema.table_exist("parts$manifests"));
    assert!(schema.table_exist("orders"));
    let target = schema.deregister_table("parts").unwrap();
    assert_eq!(target.namespace, vec!["lake", "raw"]);
    assert_eq!(target.name, "parts");
    let dropping = snapshot_taken::<u32, String>(target, Ok(1));
    assert_eq!(dropping.ident.namespace, vec!["lake", "raw"]);
    assert_eq!((dropping.ident.name.as_str(), dropping.removed), ("parts", Some(1)));
    let done = schema.table_dropped::<u32, (), String>(dropping, Ok(()));
    assert_eq!(done.unwrap(), Some(1));
    assert!(!schema.table_exist("parts"));
    assert!(!schema.table_exist("parts$manifests"));
    assert_eq!(sorted(schema.table_names()), before);
}

#[test]
fn creating_undoes_dropping() {
    let mut schema = schema_of(&["orders", "parts"]);
    let before = sorted(schema.table_names());
    let gone = Err::<u32, String>("gone".to_string());
    let dropping = snapshot_taken(ident("orders"), gone);
    let done = schema.table_dropped::<u32, (), String>(dropping, Ok(()));
    assert_eq!(done.unwrap(), None);
    assert!(!schema.table_exist("orders"));
    schema.table_created::<(), u32, String>(ident("orders"), Ok(())).unwrap();
    assert_eq!(sorted(schema.table_names()), before);
}

#[test]
fn operations_on_different_tables_can_end_in_either_order() {
    let mut one = schema_of(&["orders"]);
    one.table_created::<(), u32, String>(ident("parts"), Ok(())).unwrap();
    one.table_dropped::<u32, (), String>(dropping("orders"), Ok(())).unwrap();
    let mut other = schema_of(&["orders"]);
    other.table_dropped::<u32, (), String>(dropping("orders"), Ok(())).unwrap();
    other.table_created::<(), u32, String>(ident("parts"), Ok(())).unwrap();
    assert_eq!(sorted(one.table_names()), sorted(other.table_names()));
    assert_eq!(sorted(one.table_names()), vec!["parts", "parts$manifests", "parts$snapshots"]);
}

#[test]
fn failed_creation_or_drop_changes_nothing() {
    let mut schema = schema_of(&["orders"]);
    let before = sorted(schema.table_names());
    let refusal = || Err::<(), String>("denied".to_string());
    match schema.table_created::<(), u32, String>(ident("parts"), refusal()).unwrap_err() {
        SchemaError::External(ExternalError::Reported(text)) => assert_eq!(text, "denied"),
        err => panic!("expected the catalog's error, got: {err:?}"),
    }
    assert_eq!(sorted(schema.table_names()), before);
    let done = schema.table_dropped::<u32, (), String>(dropping("orders"), refusal());
    match done.unwrap_err() {
        SchemaError::External(ExternalError::Reported(text)) => assert_eq!(text, "denied"),
        err => panic!("expected the catalog's error, got: {err:?}"),
    }
    assert_eq!(sorted(schema.table_names()), before);
}

#[test]
fn unknown_table_is_not_dropped() {
    let schema = schema_of(&["orders"]);
    assert!(schema.deregister_table("parts").is_none());
    assert!(schema.deregister_table("orders$files").is_none());
    assert_eq!(schema.deregister_table("orders$snapshots").unwrap().name, "orders$snapshots");
}

#[test]
fn table_created_with_a_separator_in_its_name_is_not_found() {
    let mut schema = schema_of(&["a"]);
    schema.table_created::<(), u32, String>(ident("a$b"), Ok(())).unwrap();
    assert!(!schema.table_exist("a$b"));
    schema
        .table_dropped::<u32, (), String>(dropping("a$snapshots"), Ok(()))
        .unwrap();
    assert!(schema.table_exist("a$snapshots"));
}

#[test]
fn broken_off_tasks_are_execution_errors() {
    let whole = Ok::<Result<u32, SchemaError<String>>, String>(Ok(6));
    assert_eq!(creation_finished(whole).unwrap(), 6);
    let whole = Ok::<Result<u32, SchemaError<String>>, String>(Ok(7));
    assert_eq!(drop_finished(whole).unwrap(), 7);
    let broken = || Err::<Result<u32, SchemaError<String>>, String>("cancelled".to_string());
    match creation_finished(broken()).unwrap_err() {
        SchemaError::Execution(text) => {
            assert_eq!(text, "Failed to create Iceberg table: cancelled");
        }
        err => panic!("expected an execution error, got: {err:?}"),
    }
    match drop_finished(broken()).unwrap_err() {
        SchemaError::Execution(text) => {
            assert_eq!(text, "Failed to drop Iceberg table: cancelled");
        }
        err => panic!("expected an execution error, got: {err:?}"),
    }
    let inner = Ok::<Result<u32, SchemaError<String>>, String>(Err(SchemaError::Plan(
        "inner".to_string(),
    )));
    assert!(matches!(creation_finished(inner), Err(SchemaError::Plan(_))));
}
