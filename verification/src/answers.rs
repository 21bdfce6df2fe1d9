//! What the operations answer, spelled out on characters, counts and texts.
//!
//! The contracts of the operations speak through spec functions. Each law here
//! says what such a function comes to on the inputs themselves, without leaning
//! on another one.
use vstd::prelude::*;

use crate::conversion::{distinct_names, numbered_from};
use crate::emptiness::{accepted_if_no_partition_refuses, first_refusing_partition_decides};
use crate::emptiness::{has_data, has_rows};
use crate::emptiness::{partition_refusal, refusal, PartitionReply, ScanReply};
use crate::error::{already_exists, ExternalError, SchemaError};
use crate::metadata::MetadataTableType;
use crate::names::{entries, is_plain, listing, parts, parts_are_unique, qualified};
use crate::names::{spelled, splits_into, target};
use crate::schema::{creation_broke_off, drop_broke_off, names_of, SchemaView, TableIdent};

verus! {

/// A dollar sign and the word after it, read as one text.
proof fn suffix_texts()
    ensures
        "$snapshots"@ == seq!['$'] + "snapshots"@,
        "$manifests"@ == seq!['$'] + "manifests"@,
{
    reveal_strlit("$snapshots");
    reveal_strlit("snapshots");
    reveal_strlit("$manifests");
    reveal_strlit("manifests");
    assert forall|k: int| 0 <= k < 10 implies #[trigger] "$snapshots"@[k] == (seq!['$']
        + "snapshots"@)[k] by {
        if k == 0 {
        } else if k == 1 {
        } else if k == 2 {
        } else if k == 3 {
        } else if k == 4 {
        } else if k == 5 {
        } else if k == 6 {
        } else if k == 7 {
        } else if k == 8 {
        } else {
            assert(k == 9);
        }
    }
    assert("$snapshots"@ =~= seq!['$'] + "snapshots"@);
    assert forall|k: int| 0 <= k < 10 implies #[trigger] "$manifests"@[k] == (seq!['$']
        + "manifests"@)[k] by {
        if k == 0 {
        } else if k == 1 {
        } else if k == 2 {
        } else if k == 3 {
        } else if k == 4 {
        } else if k == 5 {
        } else if k == 6 {
        } else if k == 7 {
        } else if k == 8 {
        } else {
            assert(k == 9);
        }
    }
    assert("$manifests"@ =~= seq!['$'] + "manifests"@);
}

/// The two words differ.
proof fn words_differ()
    ensures
        "snapshots"@ != "manifests"@,
{
    reveal_strlit("snapshots");
    reveal_strlit("manifests");
    assert("snapshots"@[0] == 's' && "manifests"@[0] == 'm');
}

/// A name without a dollar sign stands for the table of that name. A name whose
/// first dollar sign is followed by `snapshots` or by `manifests`, and by no
/// more, stands for that metadata table of the table named before it. Any other
/// name stands for nothing.
pub proof fn what_a_name_stands_for(name: Seq<char>, at: int)
    ensures
        !name.contains('$') ==> target(name) == Some((name, None::<MetadataTableType>)),
        0 <= at < name.len() && name[at] == '$' && !name.take(at).contains('$') ==> target(name)
            == (if name.skip(at + 1) == "snapshots"@ {
            Some((name.take(at), Some(MetadataTableType::Snapshots)))
        } else if name.skip(at + 1) == "manifests"@ {
            Some((name.take(at), Some(MetadataTableType::Manifests)))
        } else {
            None
        }),
{
    parts_are_unique(name);
    words_differ();
    if 0 <= at < name.len() && name[at] == '$' && !name.take(at).contains('$') {
        assert(name =~= name.take(at).push('$') + name.skip(at + 1));
        assert(splits_into(name, name.take(at), name.skip(at + 1)));
    }
}

/// A table's name followed by `$snapshots` or `$manifests` stands for that
/// metadata table of it, if the table's own name has no dollar sign in it.
pub proof fn what_a_suffix_asks_for(table: Seq<char>)
    requires
        !table.contains('$'),
    ensures
        target(table + "$snapshots"@) == Some((table, Some(MetadataTableType::Snapshots))),
        target(table + "$manifests"@) == Some((table, Some(MetadataTableType::Manifests))),
{
    suffix_texts();
    let at = table.len() as int;
    let first = table + "$snapshots"@;
    let second = table + "$manifests"@;
    assert(first.take(at) =~= table && second.take(at) =~= table);
    assert(first.skip(at + 1) =~= "snapshots"@);
    assert(second.skip(at + 1) =~= "manifests"@);
    words_differ();
    what_a_name_stands_for(first, at);
    what_a_name_stands_for(second, at);
}

/// A name without a dollar sign exists if and only if it is known. A name with
/// one exists if and only if what stands before the first is known and what
/// stands after it is `snapshots` or `manifests`.
pub proof fn which_names_exist(schema: SchemaView, name: Seq<char>, at: int)
    ensures
        !name.contains('$') ==> schema.has_table(name) == schema.names.contains(name),
        0 <= at < name.len() && name[at] == '$' && !name.take(at).contains('$')
            ==> schema.has_table(name) == (schema.names.contains(name.take(at)) && (name.skip(
            at + 1,
        ) == "snapshots"@ || name.skip(at + 1) == "manifests"@)),
{
    what_a_name_stands_for(name, at);
}

/// A table and its two metadata tables exist together or not at all, if the
/// table's own name has no dollar sign in it.
pub proof fn metadata_tables_exist_with_their_table(schema: SchemaView, table: Seq<char>)
    requires
        !table.contains('$'),
    ensures
        schema.has_table(table) == schema.names.contains(table),
        schema.has_table(table + "$snapshots"@) == schema.names.contains(table),
        schema.has_table(table + "$manifests"@) == schema.names.contains(table),
{
    what_a_name_stands_for(table, 0);
    what_a_suffix_asks_for(table);
}

/// A listing gives, for each table in turn, its name, its name followed by
/// `$snapshots`, and its name followed by `$manifests`, and nothing else.
pub proof fn what_a_listing_gives(tables: Seq<Seq<char>>, i: int)
    ensures
        listing(tables).len() == 3 * tables.len(),
        0 <= i < tables.len() ==> {
            &&& listing(tables)[3 * i] == tables[i]
            &&& listing(tables)[3 * i + 1] == tables[i] + "$snapshots"@
            &&& listing(tables)[3 * i + 2] == tables[i] + "$manifests"@
        },
    decreases tables.len(),
{
    if tables.len() > 0 {
        let front = tables.drop_last();
        let last = tables.last();
        what_a_listing_gives(front, i);
        suffix_texts();
        assert(entries(last)[1] == qualified(last, MetadataTableType::Snapshots));
        assert(entries(last)[2] == qualified(last, MetadataTableType::Manifests));
        assert(entries(last)[1] =~= last + "$snapshots"@);
        assert(entries(last)[2] =~= last + "$manifests"@);
    }
}

/// Every table is listed with its metadata tables, and every listed name is a
/// table's own or that of one of its metadata tables.
pub proof fn what_is_listed(tables: Seq<Seq<char>>, table: Seq<char>, name: Seq<char>)
    ensures
        tables.contains(table) ==> {
            &&& listing(tables).contains(table)
            &&& listing(tables).contains(table + "$snapshots"@)
            &&& listing(tables).contains(table + "$manifests"@)
        },
        listing(tables).contains(name) ==> exists|i: int|
            0 <= i < tables.len() && (name == #[trigger] tables[i] || name == tables[i]
                + "$snapshots"@ || name == tables[i] + "$manifests"@),
{
    if tables.contains(table) {
        let i = tables.index_of(table);
        what_a_listing_gives(tables, i);
        assert(listing(tables)[3 * i] == table);
        assert(listing(tables)[3 * i + 1] == table + "$snapshots"@);
        assert(listing(tables)[3 * i + 2] == table + "$manifests"@);
    }
    if listing(tables).contains(name) {
        let k = listing(tables).index_of(name);
        let i = k / 3;
        what_a_listing_gives(tables, i);
        assert(k == 3 * i || k == 3 * i + 1 || k == 3 * i + 2);
        assert(name == tables[i] || name == tables[i] + "$snapshots"@ || name == tables[i]
            + "$manifests"@);
    }
}

/// An input is accepted if and only if its scan could be planned, each partition
/// of it could be started, and each batch that could be read has no rows.
pub proof fn which_inputs_are_accepted<D>(reply: ScanReply<D>)
    ensures
        refusal(reply) is None <==> (reply matches ScanReply::Partitions(partitions) && forall|
            i: int,
        |
            0 <= i < partitions@.len() ==> (#[trigger] partitions@[i] matches PartitionReply::Batches(
                batches,
            ) && forall|j: int|
                0 <= j < batches@.len() ==> (#[trigger] batches@[j] matches Ok(rows) ==> rows
                    == 0))),
{
    if let ScanReply::Partitions(partitions) = reply {
        accepted_if_no_partition_refuses(partitions@);
        assert forall|i: int| 0 <= i < partitions@.len() implies (partition_refusal(
            #[trigger] partitions@[i],
        ) is None) == (partitions@[i] matches PartitionReply::Batches(batches) && forall|j: int|
            0 <= j < batches@.len() ==> (#[trigger] batches@[j] matches Ok(rows) ==> rows
                == 0)) by {
            if let PartitionReply::Batches(batches) = partitions@[i] {
                assert(forall|j: int|
                    0 <= j < batches@.len() ==> has_rows(#[trigger] batches@[j]) == (batches@[j]
                        matches Ok(rows) && rows > 0));
                if has_data(batches@) {
                    let j = choose|j: int|
                        0 <= j < batches@.len() && has_rows(#[trigger] batches@[j]);
                    assert(batches@[j] matches Ok(rows) && rows != 0);
                }
            }
        }
    }
}

/// One batch with a row in it is enough for an input to be refused, whatever
/// else the scan gives.
pub proof fn one_row_is_enough<D>(reply: ScanReply<D>, i: int, j: int, rows: usize)
    requires
        rows >= 1,
        reply matches ScanReply::Partitions(partitions) && 0 <= i < partitions@.len() && (
        partitions@[i] matches PartitionReply::Batches(batches) && 0 <= j < batches@.len()
            && batches@[j] == Ok::<usize, D>(rows)),
    ensures
        refusal(reply) is Some,
{
    which_inputs_are_accepted(reply);
    if let ScanReply::Partitions(partitions) = reply {
        if let PartitionReply::Batches(batches) = partitions@[i] {
            assert(batches@[j] matches Ok(n) && n != 0);
        }
    }
}

/// The reasons for a refusal, word for word: a scan that could not be planned; a
/// partition that could not be started; or rows. What the first partition that
/// is not read as empty gives is the reason.
pub proof fn why_an_input_is_refused<D>(reply: ScanReply<D>, at: int)
    ensures
        reply matches ScanReply::ScanFailed(reason) ==> refusal(reply) == Some(
            "Failed to scan table: "@ + reason@,
        ),
        reply matches ScanReply::Partitions(partitions) ==> (0 <= at < partitions@.len() && (forall|
            i: int,
        |
            0 <= i < at ==> (#[trigger] partitions@[i] matches PartitionReply::Batches(batches)
                && forall|j: int|
                0 <= j < batches@.len() ==> (#[trigger] batches@[j] matches Ok(rows) ==> rows == 0)))
            ==> match partitions@[at] {
            PartitionReply::ExecuteFailed(reason) => refusal(reply) == Some(
                "Failed to execute scan: "@ + reason@,
            ),
            PartitionReply::Batches(batches) => (exists|j: int|
                0 <= j < batches@.len() && (#[trigger] batches@[j] matches Ok(rows) && rows >= 1))
                ==> refusal(reply) == Some(
                "register_table does not support tables with data."@,
            ),
        }),
{
    if let ScanReply::Partitions(partitions) = reply {
        if 0 <= at < partitions@.len() && forall|i: int|
            0 <= i < at ==> (#[trigger] partitions@[i] matches PartitionReply::Batches(batches)
                && forall|j: int|
                0 <= j < batches@.len() ==> (#[trigger] batches@[j] matches Ok(rows) ==> rows
                    == 0)) {
            assert forall|i: int| 0 <= i < at implies partition_refusal(
                #[trigger] partitions@[i],
            ) is None by {
                if let PartitionReply::Batches(batches) = partitions@[i] {
                    if has_data(batches@) {
                        let j = choose|j: int|
                            0 <= j < batches@.len() && has_rows(#[trigger] batches@[j]);
                        assert(batches@[j] matches Ok(rows) && rows != 0);
                    }
                }
            }
            match partitions@[at] {
                PartitionReply::ExecuteFailed(reason) => {
                    first_refusing_partition_decides(partitions@, at);
                },
                PartitionReply::Batches(batches) => {
                    if exists|j: int|
                        0 <= j < batches@.len() && (#[trigger] batches@[j] matches Ok(rows) && rows
                            >= 1) {
                        let j = choose|j: int|
                            0 <= j < batches@.len() && (#[trigger] batches@[j] matches Ok(rows)
                                && rows >= 1);
                        assert(has_rows(batches@[j]));
                        assert(has_data(batches@));
                        first_refusing_partition_decides(partitions@, at);
                    }
                },
            }
        }
    }
}

/// The names of listed tables are those that some listed table has.
pub proof fn which_names_are_listed(tables: Seq<TableIdent>, name: Seq<char>)
    ensures
        names_of(tables).to_set().contains(name) <==> exists|i: int|
            0 <= i < tables.len() && #[trigger] tables[i].name@ == name,
{
    if names_of(tables).contains(name) {
        let i = names_of(tables).index_of(name);
        assert(tables[i].name@ == name);
    }
    if exists|i: int| 0 <= i < tables.len() && #[trigger] tables[i].name@ == name {
        let i = choose|i: int| 0 <= i < tables.len() && #[trigger] tables[i].name@ == name;
        assert(names_of(tables)[i] == name);
    }
}

/// Strings are spelled one by one, and an identifier shows every level of its
/// namespace, and its name.
pub proof fn what_an_identifier_shows(ident: TableIdent, texts: Seq<String>, i: int)
    ensures
        spelled(texts).len() == texts.len(),
        0 <= i < texts.len() ==> spelled(texts)[i] == texts[i]@,
        ident@.1 == ident.name@,
        ident@.0.len() == ident.namespace@.len(),
        0 <= i < ident.namespace@.len() ==> ident@.0[i] == ident.namespace@[i]@,
{
}

/// A schema that learns of a table knows that table and what it knew before; one
/// that forgets a table knows what it knew before, less that table. The
/// namespace stays.
pub proof fn what_a_schema_knows(schema: SchemaView, table: Seq<char>, name: Seq<char>)
    ensures
        schema.with(table).names.contains(name) <==> (name == table || schema.names.contains(name)),
        schema.without(table).names.contains(name) <==> (name != table && schema.names.contains(
            name,
        )),
        schema.with(table).namespace == schema.namespace,
        schema.without(table).namespace == schema.namespace,
{
}

/// The metadata tables, their names, and the complaint about any other name.
pub proof fn which_metadata_tables_there_are(name: Seq<char>)
    ensures
        MetadataTableType::all() == seq![MetadataTableType::Snapshots, MetadataTableType::Manifests],
        MetadataTableType::Snapshots.name() == "snapshots"@,
        MetadataTableType::Manifests.name() == "manifests"@,
        MetadataTableType::named(name) == (if name == "snapshots"@ {
            Some(MetadataTableType::Snapshots)
        } else if name == "manifests"@ {
            Some(MetadataTableType::Manifests)
        } else {
            None
        }),
        MetadataTableType::invalid_name(name) == "invalid metadata table type: "@ + name,
{
}

/// How names are made and taken apart: a name without a dollar sign is plain and
/// has no parts; the parts of any other are what stands before and after its
/// first dollar sign; and a qualified name is the table's, followed by
/// `$snapshots` or `$manifests`.
pub proof fn how_names_are_made(name: Seq<char>, at: int)
    ensures
        is_plain(name) <==> !name.contains('$'),
        !name.contains('$') ==> parts(name) is None,
        0 <= at < name.len() && name[at] == '$' && !name.take(at).contains('$') ==> parts(name)
            == Some((name.take(at), name.skip(at + 1))),
        qualified(name, MetadataTableType::Snapshots) == name + "$snapshots"@,
        qualified(name, MetadataTableType::Manifests) == name + "$manifests"@,
        entries(name) == seq![name, name + "$snapshots"@, name + "$manifests"@],
{
    parts_are_unique(name);
    suffix_texts();
    if 0 <= at < name.len() && name[at] == '$' && !name.take(at).contains('$') {
        assert(name =~= name.take(at).push('$') + name.skip(at + 1));
        assert(splits_into(name, name.take(at), name.skip(at + 1)));
    }
    assert(qualified(name, MetadataTableType::Snapshots) =~= name + "$snapshots"@);
    assert(qualified(name, MetadataTableType::Manifests) =~= name + "$manifests"@);
    assert(entries(name) =~= seq![name, name + "$snapshots"@, name + "$manifests"@]);
}

/// What the errors are and say, word for word.
pub proof fn what_errors_say<E>(
    error: SchemaError<E>,
    external: ExternalError<E>,
    source: E,
    text: Seq<char>,
)
    ensures
        already_exists(text) == "Table "@ + text + " already exists"@,
        creation_broke_off(text) == "Failed to create Iceberg table: "@ + text,
        drop_broke_off(text) == "Failed to drop Iceberg table: "@ + text,
        error.is_plan(text) <==> (error matches SchemaError::Plan(said) && said@ == text),
        error.is_execution(text) <==> (error matches SchemaError::Execution(said) && said@ == text),
        error.is_unexpected(text) <==> (error matches SchemaError::External(
            ExternalError::Unexpected(said),
        ) && said@ == text),
        external.is_unexpected(text) <==> (external matches ExternalError::Unexpected(said) && said@
            == text),
        SchemaError::reported(source) == SchemaError::External(ExternalError::Reported(source)),
{
}

/// The fields of a converted schema against those it was made of: as many, in
/// the same order, numbered from one, with the same names and docs, each
/// required where null is not allowed. And what it is for names to be distinct.
pub proof fn how_fields_are_numbered(
    made: Seq<(int, Seq<char>, bool, Seq<char>, Option<Seq<char>>)>,
    fields: Seq<(Seq<char>, bool, Seq<char>, Option<Seq<char>>)>,
    i: int,
    j: int,
)
    ensures
        numbered_from(made, fields) ==> made.len() == fields.len() && (0 <= i < fields.len() ==> (
        made[i].0 == i + 1 && made[i].1 == fields[i].0 && made[i].2 == !fields[i].1 && made[i].4
            == fields[i].3)),
        distinct_names(fields) && 0 <= i < j < fields.len() ==> fields[i].0 != fields[j].0,
{
}

} // verus!
