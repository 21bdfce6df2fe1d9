//! A schema over one namespace of an Iceberg catalog.
//!
//! The schema remembers which tables the namespace has and decides what to ask
//! of the catalog. It does not talk to the catalog itself: each operation is a
//! chain of steps, and between two steps the caller does what the first one
//! calls for and hands the reply to the second.
//!
//! - looking up a table: [`IcebergSchemaProvider::table`], then load the table,
//!   then [`IcebergSchemaProvider::table_loaded`], and where that asks for a
//!   metadata table, build it, then [`metadata_table_loaded`];
//! - creating a table: [`IcebergSchemaProvider::register_table`], then scan the
//!   input, then [`table_scanned`], then create the table, then
//!   [`IcebergSchemaProvider::table_created`];
//! - dropping a table: [`IcebergSchemaProvider::deregister_table`], then load
//!   the table, then [`snapshot_taken`], then drop the table, then
//!   [`IcebergSchemaProvider::table_dropped`].
//!
//! Tables that come and go by other means are not noticed, except that a lookup
//! forgets a table that the catalog no longer knows. Building the schema anew
//! with [`IcebergSchemaProvider::try_new`] refreshes what it remembers.
use dashmap::DashSet;
use datafusion::arrow::datatypes::Schema as ArrowSchema;
use iceberg::spec::Schema;
use vstd::prelude::*;

use crate::answers::{how_names_are_made, what_a_name_stands_for};
use crate::answers::{which_names_are_listed, which_names_exist};
use crate::cache::{cached_names, collect_names, contains_name};
use crate::cache::{insert_name, remove_name, walk_names};
use crate::conversion::{arrow_fields, assign_field_ids, converted_fields};
use crate::conversion::{distinct_names, field_aliases, iceberg_fields};
use crate::conversion::{identifier_field_ids, numbered_from, schema_id};
use crate::emptiness::{ensure_table_is_empty, refusal, PartitionReply, ScanReply};
use crate::error::{already_exists, already_exists_message, joined};
use crate::error::{ErrorKind, ExternalError, LoadError, SchemaError};
use crate::metadata::{metadata_name_leads_back, MetadataTableType};
use crate::names::{list_with_metadata, listing, parts, spelled, split_name, target};

verus! {

/// A table of the catalog: the namespace it is in, level by level, and its name
/// there.
#[derive(Debug)]
pub struct TableIdent {
    pub namespace: Vec<String>,
    pub name: String,
}

impl View for TableIdent {
    type V = (Seq<Seq<char>>, Seq<char>);

    open spec fn view(&self) -> (Seq<Seq<char>>, Seq<char>) {
        (spelled(self.namespace@), self.name@)
    }
}

/// The names of some tables.
pub open spec fn names_of(tables: Seq<TableIdent>) -> Seq<Seq<char>> {
    Seq::new(tables.len(), |i: int| tables[i].name@)
}

/// A table to load, and the metadata table to make of it, if that is what was
/// asked for.
#[derive(Debug)]
pub struct TableRequest {
    pub ident: TableIdent,
    pub metadata: Option<MetadataTableType>,
}

/// How a lookup goes on once the catalog has answered.
#[derive(Debug)]
pub enum TableReply<P> {
    /// There is no such table.
    Missing,
    /// This is the table.
    Table(P),
    /// The table is there; the lookup is for this metadata table of it.
    Inspect(P, MetadataTableType),
}

/// A table about to be created, if the input that describes it has no rows.
#[derive(Debug)]
pub struct Registration<S> {
    pub ident: TableIdent,
    pub schema: S,
}

/// A table to create.
#[derive(Debug)]
pub struct Creation<S> {
    pub ident: TableIdent,
    pub schema: S,
}

/// A table to drop, and the table as it was loaded just before, if it could be
/// loaded.
#[derive(Debug)]
pub struct Dropping<P> {
    pub ident: TableIdent,
    pub removed: Option<P>,
}

/// What a schema stands for: its namespace and the tables it knows there.
pub struct SchemaView {
    pub namespace: Seq<Seq<char>>,
    pub names: Set<Seq<char>>,
}

impl SchemaView {
    /// Whether the name stands for a known table, or for a metadata table of
    /// one.
    pub open spec fn has_table(self, name: Seq<char>) -> bool {
        target(name) matches Some((table, _)) && self.names.contains(table)
    }

    /// The same schema, with this table known.
    pub open spec fn with(self, name: Seq<char>) -> SchemaView {
        SchemaView { namespace: self.namespace, names: self.names.insert(name) }
    }

    /// The same schema, with this table forgotten.
    pub open spec fn without(self, name: Seq<char>) -> SchemaView {
        SchemaView { namespace: self.namespace, names: self.names.remove(name) }
    }
}

/// The message when the task that creates a table does not come to its end.
pub open spec fn creation_broke_off(reason: Seq<char>) -> Seq<char> {
    "Failed to create Iceberg table: "@ + reason
}

/// The message when the task that drops a table does not come to its end.
pub open spec fn drop_broke_off(reason: Seq<char>) -> Seq<char> {
    "Failed to drop Iceberg table: "@ + reason
}

/// A schema over one namespace of an Iceberg catalog.
///
/// Only the names of the tables are kept. A table itself is loaded from the
/// catalog each time it is looked up, so that a query sees its latest metadata.
#[derive(Debug)]
pub struct IcebergSchemaProvider {
    /// The namespace, level by level.
    namespace: Vec<String>,
    /// The tables known to be in the namespace.
    table_names: DashSet<String>,
}

impl View for IcebergSchemaProvider {
    type V = SchemaView;

    closed spec fn view(&self) -> SchemaView {
        SchemaView {
            namespace: spelled(self.namespace@),
            names: cached_names(self.table_names),
        }
    }
}

impl IcebergSchemaProvider {
    /// Builds a schema from the catalog's list of the tables in the namespace.
    pub fn try_new<E>(
        namespace: Vec<String>,
        listed: Result<Vec<TableIdent>, E>,
    ) -> (made: Result<Self, E>)
        ensures
            match listed {
                Ok(tables) => made matches Ok(schema) && schema@ == (SchemaView {
                    namespace: spelled(namespace@),
                    names: names_of(tables@).to_set(),
                }) && (forall|name: Seq<char>| #[trigger]
                    schema@.names.contains(name) <==> exists|i: int|
                        0 <= i < tables@.len() && #[trigger] tables@[i].name@ == name),
                Err(error) => made == Err::<Self, E>(error),
            },
    {
        let tables: Vec<TableIdent> = match listed {
            Ok(tables) => tables,
            Err(error) => {
                return Err(error);
            },
        };
        let mut names: Vec<String> = Vec::new();
        let mut i: usize = 0;
        while i < tables.len()
            invariant
                i <= tables.len(),
                names.len() == i,
                forall|k: int| 0 <= k < i ==> #[trigger] names@[k]@ == tables@[k].name@,
            decreases tables.len() - i,
        {
            names.push(tables[i].name.clone());
            i = i + 1;
        }
        proof {
            assert(spelled(names@) =~= names_of(tables@));
            assert forall|name: Seq<char>| #[trigger]
                names_of(tables@).to_set().contains(name) <==> exists|i: int|
                    0 <= i < tables@.len() && #[trigger] tables@[i].name@ == name by {
                which_names_are_listed(tables@, name);
            }
        }
        Ok(IcebergSchemaProvider { namespace, table_names: collect_names(names) })
    }

    /// The identifier of a table of this schema.
    fn ident(&self, name: &str) -> (ident: TableIdent)
        ensures
            ident@ == (self@.namespace, name@),
    {
        let namespace: Vec<String> = self.namespace.clone();
        proof {
            assert(spelled(namespace@) =~= spelled(self.namespace@));
        }
        TableIdent { namespace, name: name.to_owned() }
    }

    /// Which table to load for a name: that table, if it is known.
    pub fn load_table_provider(&self, name: &str) -> (asked: Option<TableIdent>)
        ensures
            match asked {
                Some(ident) => {
                    &&& self@.names.contains(name@)
                    &&& ident@ == (self@.namespace, name@)
                },
                None => !self@.names.contains(name@),
            },
    {
        if !contains_name(&self.table_names, name) {
            return None;
        }
        Some(self.ident(name))
    }

    /// Takes the catalog's answer to the loading of a table. A table that the
    /// catalog does not know is forgotten.
    pub fn provider_loaded<P, E>(
        &mut self,
        name: &str,
        reply: Result<P, LoadError<E>>,
    ) -> (loaded: Result<Option<P>, SchemaError<E>>)
        ensures
            match reply {
                Ok(provider) => {
                    &&& loaded == Ok::<_, SchemaError<E>>(Some(provider))
                    &&& final(self)@ == old(self)@
                },
                Err(failure) => if failure.kind == ErrorKind::TableNotFound {
                    &&& loaded == Ok::<_, SchemaError<E>>(None::<P>)
                    &&& final(self)@ == old(self)@.without(name@)
                } else {
                    &&& loaded == Err::<Option<P>, _>(SchemaError::reported(failure.error))
                    &&& final(self)@ == old(self)@
                },
            },
    {
        match reply {
            Ok(provider) => Ok(Some(provider)),
            Err(failure) => {
                if failure.kind == ErrorKind::TableNotFound {
                    remove_name(&mut self.table_names, name);
                    Ok(None)
                } else {
                    Err(SchemaError::from_reported(failure.error))
                }
            },
        }
    }

    /// The names of all tables, each followed by the names of its metadata
    /// tables. The tables come in no particular order.
    pub fn table_names(&self) -> (listed: Vec<String>)
        ensures
            exists|order: Seq<Seq<char>>|
                {
                    &&& order.no_duplicates()
                    &&& order.to_set() == self@.names
                    &&& spelled(listed@) == #[trigger] listing(order)
                    &&& listed@.len() == 3 * order.len()
                    &&& forall|i: int|
                        0 <= i < order.len() ==> {
                            &&& listed@[3 * i]@ == #[trigger] order[i]
                            &&& listed@[3 * i + 1]@ == order[i] + "$snapshots"@
                            &&& listed@[3 * i + 2]@ == order[i] + "$manifests"@
                        }
                },
    {
        let names: Vec<String> = walk_names(&self.table_names);
        let listed: Vec<String> = list_with_metadata(&names);
        proof {
            let order = spelled(names@);
            assert forall|i: int| 0 <= i < order.len() implies {
                &&& listed@[3 * i]@ == #[trigger] order[i]
                &&& listed@[3 * i + 1]@ == order[i] + "$snapshots"@
                &&& listed@[3 * i + 2]@ == order[i] + "$manifests"@
            } by {
                assert(order[i] == names@[i]@);
            }
            assert(spelled(listed@) == listing(order));
        }
        listed
    }

    /// Whether the name stands for a known table, or for a metadata table of
    /// one.
    pub fn table_exist(&self, name: &str) -> (found: bool)
        ensures
            found == self@.has_table(name@),
            !name@.contains('$') ==> found == self@.names.contains(name@),
            forall|at: int|
                0 <= at < name@.len() && #[trigger] name@[at] == '$' && !name@.take(at).contains('$')
                    ==> found == (self@.names.contains(name@.take(at)) && (name@.skip(at + 1)
                    == "snapshots"@ || name@.skip(at + 1) == "manifests"@)),
    {
        proof {
            which_names_exist(self@, name@, 0);
            assert forall|at: int|
                0 <= at < name@.len() && #[trigger] name@[at] == '$' && !name@.take(at).contains(
                    '$',
                ) implies self@.has_table(name@) == (self@.names.contains(name@.take(at)) && (
            name@.skip(at + 1) == "snapshots"@ || name@.skip(at + 1) == "manifests"@)) by {
                which_names_exist(self@, name@, at);
            }
        }
        match split_name(name) {
            Some((table, rest)) => contains_name(&self.table_names, table)
                && MetadataTableType::parse(rest).is_ok(),
            None => contains_name(&self.table_names, name),
        }
    }

    /// Begins a lookup: which table to load, and what to make of it. Nothing,
    /// if the table is not known.
    pub fn table<E>(&self, name: &str) -> (asked: Result<Option<TableRequest>, SchemaError<E>>)
        ensures
            asked matches Ok(Some(_)) <==> self@.has_table(name@),
            match target(name@) {
                Some((table, metadata)) => if self@.names.contains(table) {
                    asked matches Ok(Some(request)) && request.ident@ == (
                        self@.namespace,
                        table,
                    ) && request.metadata == metadata
                } else {
                    asked == Ok::<_, SchemaError<E>>(None::<TableRequest>)
                },
                None => asked matches Err(error) && error.is_plan(
                    MetadataTableType::invalid_name(parts(name@).unwrap().1),
                ),
            },
            !name@.contains('$') ==> (if self@.names.contains(name@) {
                asked matches Ok(Some(request)) && request.ident.name@ == name@
                    && request.metadata is None
            } else {
                asked matches Ok(None)
            }),
            forall|at: int|
                0 <= at < name@.len() && #[trigger] name@[at] == '$' && !name@.take(at).contains('$')
                    ==> (if name@.skip(at + 1) == "snapshots"@ || name@.skip(at + 1)
                    == "manifests"@ {
                    if self@.names.contains(name@.take(at)) {
                        asked matches Ok(Some(request)) && request.ident.name@ == name@.take(at)
                            && (request.metadata == Some(MetadataTableType::Snapshots) <==> name@.skip(
                            at + 1,
                        ) == "snapshots"@) && (request.metadata == Some(
                            MetadataTableType::Manifests,
                        ) <==> name@.skip(at + 1) == "manifests"@)
                    } else {
                        asked matches Ok(None)
                    }
                } else {
                    asked matches Err(SchemaError::Plan(text)) && text@
                        == "invalid metadata table type: "@ + name@.skip(at + 1)
                }),
    {
        proof {
            what_a_name_stands_for(name@, 0);
            assert forall|at: int|
                0 <= at < name@.len() && #[trigger] name@[at] == '$' && !name@.take(at).contains(
                    '$',
                ) implies parts(name@) == Some((name@.take(at), name@.skip(at + 1))) && target(name@)
                == (if name@.skip(at + 1) == "snapshots"@ {
                Some((name@.take(at), Some(MetadataTableType::Snapshots)))
            } else if name@.skip(at + 1) == "manifests"@ {
                Some((name@.take(at), Some(MetadataTableType::Manifests)))
            } else {
                None
            }) by {
                how_names_are_made(name@, at);
                what_a_name_stands_for(name@, at);
            }
            metadata_name_leads_back(MetadataTableType::Manifests);
        }
        match split_name(name) {
            Some((table, rest)) => match MetadataTableType::parse(rest) {
                Ok(kind) => match self.load_table_provider(table) {
                    Some(ident) => Ok(Some(TableRequest { ident, metadata: Some(kind) })),
                    None => Ok(None),
                },
                Err(complaint) => Err(SchemaError::Plan(complaint)),
            },
            None => match self.load_table_provider(name) {
                Some(ident) => Ok(Some(TableRequest { ident, metadata: None })),
                None => Ok(None),
            },
        }
    }

    /// Goes on with a lookup once the catalog has answered.
    pub fn table_loaded<P, E>(
        &mut self,
        request: TableRequest,
        reply: Result<P, LoadError<E>>,
    ) -> (found: Result<TableReply<P>, SchemaError<E>>)
        ensures
            match reply {
                Ok(provider) => {
                    &&& found == Ok::<_, SchemaError<E>>(
                        match request.metadata {
                            Some(kind) => TableReply::Inspect(provider, kind),
                            None => TableReply::Table(provider),
                        },
                    )
                    &&& final(self)@ == old(self)@
                },
                Err(failure) => if failure.kind == ErrorKind::TableNotFound {
                    &&& found == Ok::<_, SchemaError<E>>(TableReply::<P>::Missing)
                    &&& final(self)@ == old(self)@.without(request.ident.name@)
                } else {
                    &&& found == Err::<TableReply<P>, _>(SchemaError::reported(failure.error))
                    &&& final(self)@ == old(self)@
                },
            },
    {
        match self.provider_loaded(request.ident.name.as_str(), reply) {
            Ok(Some(provider)) => match request.metadata {
                Some(kind) => Ok(TableReply::Inspect(provider, kind)),
                None => Ok(TableReply::Table(provider)),
            },
            Ok(None) => Ok(TableReply::Missing),
            Err(error) => Err(error),
        }
    }

    /// Begins the creation of a table with the schema of an input table, unless
    /// a table of that name is known or the schema has no Iceberg counterpart.
    /// The input has to be scanned next: only an
    /// empty one describes a table to create.
    pub fn register_table(
        &self,
        name: String,
        schema: &ArrowSchema,
    ) -> (begun: Result<Registration<Schema>, SchemaError<iceberg::Error>>)
        ensures
            if self@.has_table(name@) {
                begun matches Err(error) && error.is_execution(already_exists(name@))
            } else {
                match begun {
                    Ok(registration) => {
                        &&& registration.ident@ == (self@.namespace, name@)
                        &&& converted_fields(arrow_fields(*schema)) == Some(
                            iceberg_fields(registration.schema),
                        )
                        &&& numbered_from(
                            iceberg_fields(registration.schema),
                            arrow_fields(*schema),
                        )
                        &&& distinct_names(arrow_fields(*schema))
                        &&& schema_id(registration.schema) == 0
                        &&& identifier_field_ids(registration.schema) == Set::<int>::empty()
                        &&& field_aliases(registration.schema) == Map::<Seq<char>, int>::empty()
                    },
                    Err(error) => {
                        &&& converted_fields(arrow_fields(*schema)) is None
                        &&& error matches SchemaError::External(ExternalError::Reported(_))
                        &&& arrow_fields(*schema).len() > 0
                    },
                }
            },
    {
        if self.table_exist(name.as_str()) {
            return Err(SchemaError::Execution(already_exists_message(name.as_str())));
        }
        self.schema_converted(name, assign_field_ids(schema))
    }

    /// Goes on with the creation of a table once the schema of the input is
    /// converted.
    pub fn schema_converted<S, E>(
        &self,
        name: String,
        converted: Result<S, E>,
    ) -> (begun: Result<Registration<S>, SchemaError<E>>)
        ensures
            match converted {
                Ok(schema) => begun matches Ok(registration) && registration.ident@ == (
                    self@.namespace,
                    name@,
                ) && registration.schema == schema,
                Err(error) => begun == Err::<Registration<S>, _>(SchemaError::reported(error)),
            },
    {
        match converted {
            Ok(schema) => Ok(Registration { ident: self.ident(name.as_str()), schema }),
            Err(error) => Err(SchemaError::from_reported(error)),
        }
    }

    /// Ends the creation of a table: a table that the catalog has created is
    /// known from now on. There is no earlier table to give back.
    pub fn table_created<T, P, E>(
        &mut self,
        ident: TableIdent,
        reply: Result<T, E>,
    ) -> (done: Result<Option<P>, SchemaError<E>>)
        ensures
            match reply {
                Ok(_) => {
                    &&& done == Ok::<_, SchemaError<E>>(None::<P>)
                    &&& final(self)@ == old(self)@.with(ident.name@)
                },
                Err(error) => {
                    &&& done == Err::<Option<P>, _>(SchemaError::reported(error))
                    &&& final(self)@ == old(self)@
                },
            },
    {
        match reply {
            Ok(_) => {
                insert_name(&mut self.table_names, ident.name);
                Ok(None)
            },
            Err(error) => Err(SchemaError::from_reported(error)),
        }
    }

    /// Begins the dropping of a table: which table to load and then to drop, if
    /// the name exists.
    pub fn deregister_table(&self, name: &str) -> (asked: Option<TableIdent>)
        ensures
            match asked {
                Some(ident) => {
                    &&& self@.has_table(name@)
                    &&& ident@ == (self@.namespace, name@)
                },
                None => !self@.has_table(name@),
            },
    {
        if !self.table_exist(name) {
            return None;
        }
        Some(self.ident(name))
    }

    /// Ends the dropping of a table: a table that the catalog has dropped is
    /// forgotten and given back as it was loaded before.
    pub fn table_dropped<P, T, E>(
        &mut self,
        dropping: Dropping<P>,
        reply: Result<T, E>,
    ) -> (done: Result<Option<P>, SchemaError<E>>)
        ensures
            match reply {
                Ok(_) => {
                    &&& done == Ok::<_, SchemaError<E>>(dropping.removed)
                    &&& final(self)@ == old(self)@.without(dropping.ident.name@)
                },
                Err(error) => {
                    &&& done == Err::<Option<P>, _>(SchemaError::reported(error))
                    &&& final(self)@ == old(self)@
                },
            },
    {
        match reply {
            Ok(_) => {
                remove_name(&mut self.table_names, dropping.ident.name.as_str());
                Ok(dropping.removed)
            },
            Err(error) => Err(SchemaError::from_reported(error)),
        }
    }
}

/// Goes on with the dropping of a table once the catalog has answered to the
/// loading of it: the table can be dropped now, and what was loaded is kept to
/// be given back. A table that could not be loaded is dropped all the same.
pub fn snapshot_taken<P, F>(ident: TableIdent, snapshot: Result<P, F>) -> (next: Dropping<P>)
    ensures
        next.ident == ident,
        next.removed == (match snapshot {
            Ok(provider) => Some(provider),
            Err(_) => None,
        }),
{
    let removed: Option<P> = match snapshot {
        Ok(provider) => Some(provider),
        Err(_) => None,
    };
    Dropping { ident, removed }
}

/// Ends a lookup for a metadata table.
pub fn metadata_table_loaded<M, E>(
    reply: Result<M, E>,
) -> (found: Result<Option<M>, SchemaError<E>>)
    ensures
        found == (match reply {
            Ok(table) => Ok::<_, SchemaError<E>>(Some(table)),
            Err(error) => Err::<Option<M>, _>(SchemaError::reported(error)),
        }),
{
    match reply {
        Ok(table) => Ok(Some(table)),
        Err(error) => Err(SchemaError::from_reported(error)),
    }
}

/// Goes on with the creation of a table once the input has been scanned: an
/// input with rows in it, or one that cannot be scanned, is refused.
pub fn table_scanned<S, D, E>(
    registration: Registration<S>,
    reply: ScanReply<D>,
) -> (next: Result<Creation<S>, SchemaError<E>>)
    ensures
        match refusal(reply) {
            Some(message) => next matches Err(error) && error.is_unexpected(message),
            None => next == Ok::<_, SchemaError<E>>(
                Creation { ident: registration.ident, schema: registration.schema },
            ),
        },
        next is Ok <==> (reply matches ScanReply::Partitions(partitions) && forall|i: int|
            0 <= i < partitions@.len() ==> (#[trigger] partitions@[i] matches PartitionReply::Batches(
                batches,
            ) && forall|j: int|
                0 <= j < batches@.len() ==> (#[trigger] batches@[j] matches Ok(rows) ==> rows
                    == 0))),
{
    match ensure_table_is_empty::<D, E>(reply) {
        Ok(()) => Ok(Creation { ident: registration.ident, schema: registration.schema }),
        Err(error) => Err(SchemaError::External(error)),
    }
}

/// What the creation of a table comes to, given that the task it runs in may
/// break off with a reason of its own.
pub fn creation_finished<T, E>(
    outcome: Result<Result<T, SchemaError<E>>, String>,
) -> (done: Result<T, SchemaError<E>>)
    ensures
        match outcome {
            Ok(result) => done == result,
            Err(reason) => done matches Err(error) && error.is_execution(
                creation_broke_off(reason@),
            ),
        },
{
    match outcome {
        Ok(result) => result,
        Err(reason) => Err(
            SchemaError::Execution(joined("Failed to create Iceberg table: ", reason.as_str())),
        ),
    }
}

/// What the dropping of a table comes to, given that the task it runs in may
/// break off with a reason of its own.
pub fn drop_finished<T, E>(
    outcome: Result<Result<T, SchemaError<E>>, String>,
) -> (done: Result<T, SchemaError<E>>)
    ensures
        match outcome {
            Ok(result) => done == result,
            Err(reason) => done matches Err(error) && error.is_execution(drop_broke_off(reason@)),
        },
{
    match outcome {
        Ok(result) => result,
        Err(reason) => Err(
            SchemaError::Execution(joined("Failed to drop Iceberg table: ", reason.as_str())),
        ),
    }
}

} // verus!
