//! What holds of a schema as a whole, whichever of its operations are used.
use vstd::prelude::*;

use crate::metadata::{metadata_name_leads_back, MetadataTableType};
use crate::names::{entries, is_plain, listing, parts, parts_are_unique, qualified};
use crate::names::{splits_into, target};
use crate::schema::SchemaView;

verus! {

/// A name without a separator stands for the table of that name.
pub proof fn plain_name_is_its_table(name: Seq<char>)
    requires
        is_plain(name),
    ensures
        target(name) == Some((name, None::<MetadataTableType>)),
{
    parts_are_unique(name);
}

/// The name listed for a metadata table stands for that metadata table, if the
/// table's own name has no separator in it.
pub proof fn qualified_name_is_its_metadata_table(table: Seq<char>, kind: MetadataTableType)
    requires
        is_plain(table),
    ensures
        target(qualified(table, kind)) == Some((table, Some(kind))),
{
    let name = qualified(table, kind);
    parts_are_unique(name);
    assert(splits_into(name, table, kind.name()));
    metadata_name_leads_back(kind);
}

/// The table a name stands for has no separator in its name, and the name is
/// one of those listed for that table.
pub proof fn target_is_plain_and_lists_the_name(name: Seq<char>)
    ensures
        target(name) matches Some((table, _)) ==> is_plain(table) && entries(table).contains(name),
{
    parts_are_unique(name);
    if let Some((table, metadata)) = target(name) {
        match metadata {
            Some(kind) => {
                let rest = parts(name).unwrap().1;
                assert(splits_into(name, table, rest));
                assert(rest == kind.name());
                metadata_name_leads_back(kind);
                let i = MetadataTableType::all().index_of(kind);
                assert(entries(table)[i + 1] == qualified(table, kind));
            },
            None => {
                assert(entries(table)[0] == name);
            },
        }
    }
}

/// The names listed for a table all stand for that table or a metadata table of
/// it, if the table's own name has no separator in it.
pub proof fn entries_lead_to_their_table(table: Seq<char>, name: Seq<char>)
    requires
        is_plain(table),
        entries(table).contains(name),
    ensures
        target(name) matches Some((found, _)) && found == table,
{
    let i = entries(table).index_of(name);
    if i == 0 {
        plain_name_is_its_table(name);
    } else {
        qualified_name_is_its_metadata_table(table, MetadataTableType::all()[i - 1]);
    }
}

/// A name is listed if and only if it is listed for one of the tables.
pub proof fn listing_is_that_of_its_tables(tables: Seq<Seq<char>>, name: Seq<char>)
    ensures
        listing(tables).contains(name) <==> exists|i: int|
            0 <= i < tables.len() && entries(#[trigger] tables[i]).contains(name),
    decreases tables.len(),
{
    if tables.len() > 0 {
        let front = tables.drop_last();
        let last = tables.last();
        listing_is_that_of_its_tables(front, name);
        let whole = listing(front) + entries(last);
        if whole.contains(name) {
            let k = whole.index_of(name);
            if k < listing(front).len() {
                assert(listing(front)[k] == name);
                let i = choose|i: int|
                    0 <= i < front.len() && entries(#[trigger] front[i]).contains(name);
                assert(tables[i] == front[i]);
            } else {
                assert(entries(last)[k - listing(front).len()] == name);
                assert(tables[tables.len() - 1] == last);
            }
        }
        if exists|i: int| 0 <= i < tables.len() && entries(#[trigger] tables[i]).contains(name) {
            let i = choose|i: int|
                0 <= i < tables.len() && entries(#[trigger] tables[i]).contains(name);
            if i < front.len() {
                assert(front[i] == tables[i]);
                let k = listing(front).index_of(name);
                assert(whole[k] == name);
            } else {
                let k = entries(last).index_of(name);
                assert(whole[listing(front).len() + k] == name);
            }
        }
    }
}

/// Every name that exists is listed.
pub proof fn existing_name_is_listed(schema: SchemaView, order: Seq<Seq<char>>, name: Seq<char>)
    requires
        order.to_set() == schema.names,
        schema.has_table(name),
    ensures
        listing(order).contains(name),
{
    target_is_plain_and_lists_the_name(name);
    listing_is_that_of_its_tables(order, name);
    let (table, _) = target(name).unwrap();
    assert(order.to_set().contains(table));
    let i = order.index_of(table);
    assert(entries(order[i]).contains(name));
}

/// Every name that is listed for a known table exists, if the table's own name
/// has no separator in it.
pub proof fn listed_name_exists(schema: SchemaView, table: Seq<char>, name: Seq<char>)
    requires
        schema.names.contains(table),
        is_plain(table),
        entries(table).contains(name),
    ensures
        schema.has_table(name),
{
    entries_lead_to_their_table(table, name);
}

/// Where no known table has a separator in its name, the names listed are
/// exactly those that exist, and none is listed twice.
pub proof fn listing_is_what_exists(schema: SchemaView, order: Seq<Seq<char>>)
    requires
        order.no_duplicates(),
        order.to_set() == schema.names,
        forall|table: Seq<char>| schema.names.contains(table) ==> is_plain(table),
    ensures
        forall|name: Seq<char>| listing(order).contains(name) <==> schema.has_table(name),
        listing(order).no_duplicates(),
{
    assert forall|name: Seq<char>| listing(order).contains(name) <==> schema.has_table(name) by {
        if schema.has_table(name) {
            existing_name_is_listed(schema, order, name);
        }
        if listing(order).contains(name) {
            listing_is_that_of_its_tables(order, name);
            let i = choose|i: int|
                0 <= i < order.len() && entries(#[trigger] order[i]).contains(name);
            assert(order.to_set().contains(order[i]));
            listed_name_exists(schema, order[i], name);
        }
    }
    assert forall|i: int| 0 <= i < order.len() implies is_plain(#[trigger] order[i]) by {
        assert(order.to_set().contains(order[i]));
    }
    listing_repeats_nothing(order);
}

/// Distinct tables without a separator in their names are listed without
/// repetition.
pub proof fn listing_repeats_nothing(tables: Seq<Seq<char>>)
    requires
        tables.no_duplicates(),
        forall|i: int| 0 <= i < tables.len() ==> is_plain(#[trigger] tables[i]),
    ensures
        listing(tables).no_duplicates(),
    decreases tables.len(),
{
    if tables.len() > 0 {
        let front = tables.drop_last();
        let last = tables.last();
        assert forall|i: int| 0 <= i < front.len() implies is_plain(#[trigger] front[i]) by {
            assert(front[i] == tables[i]);
        }
        listing_repeats_nothing(front);
        let head = listing(front);
        let tail = entries(last);
        assert forall|i: int, j: int| 0 <= i < tail.len() && 0 <= j < tail.len() && i != j implies
            tail[i] != tail[j] by {
            assert(is_plain(tables[tables.len() - 1]));
            entry_target(last, i);
            entry_target(last, j);
        }
        assert forall|i: int, j: int| 0 <= i < head.len() && 0 <= j < tail.len() implies head[i]
            != tail[j] by {
            if head[i] == tail[j] {
                let name = head[i];
                assert(head.contains(name));
                listing_is_that_of_its_tables(front, name);
                let k = choose|k: int|
                    0 <= k < front.len() && entries(#[trigger] front[k]).contains(name);
                assert(is_plain(tables[k]) && is_plain(tables[tables.len() - 1]));
                entries_lead_to_their_table(front[k], name);
                assert(tail.contains(name));
                entries_lead_to_their_table(last, name);
                assert(tables[k] == tables[tables.len() - 1]);
            }
        }
    }
}

/// What the listed names of a table stand for, one by one.
proof fn entry_target(table: Seq<char>, i: int)
    requires
        is_plain(table),
        0 <= i < entries(table).len(),
    ensures
        target(entries(table)[i]) == (if i == 0 {
            Some((table, None))
        } else {
            Some((table, Some(MetadataTableType::all()[i - 1])))
        }),
{
    if i == 0 {
        plain_name_is_its_table(table);
    } else {
        qualified_name_is_its_metadata_table(table, MetadataTableType::all()[i - 1]);
    }
}

/// Each table is listed once for itself and once for each metadata table.
pub proof fn listing_length(tables: Seq<Seq<char>>)
    ensures
        listing(tables).len() == tables.len() * (1 + MetadataTableType::all().len()),
    decreases tables.len(),
{
    if tables.len() > 0 {
        listing_length(tables.drop_last());
        let front = tables.len() - 1;
        let each = 1 + MetadataTableType::all().len();
        assert(front * each + each == (front + 1) * each) by (nonlinear_arith);
    }
}

/// Learning of a table adds the names that stand for it or for a metadata table
/// of it, and no others.
pub proof fn learning_a_table(schema: SchemaView, table: Seq<char>, name: Seq<char>)
    ensures
        schema.with(table).namespace == schema.namespace,
        schema.with(table).has_table(name) <==> (schema.has_table(name) || (target(name) matches Some(
            (found, _),
        ) && found == table)),
{
}

/// Forgetting a table takes away the names that stand for it or for a metadata
/// table of it, and no others.
pub proof fn forgetting_a_table(schema: SchemaView, table: Seq<char>, name: Seq<char>)
    ensures
        schema.without(table).namespace == schema.namespace,
        schema.without(table).has_table(name) <==> (schema.has_table(name) && !(target(
            name,
        ) matches Some((found, _)) && found == table)),
{
}

/// Once a table has been created it exists, and so does each metadata table of
/// it; a second table of that name is therefore refused. This is so if the name
/// has no separator in it.
pub proof fn created_table_exists(schema: SchemaView, name: Seq<char>, kind: MetadataTableType)
    requires
        is_plain(name),
    ensures
        schema.with(name).has_table(name),
        schema.with(name).has_table(qualified(name, kind)),
{
    plain_name_is_its_table(name);
    qualified_name_is_its_metadata_table(name, kind);
}

/// Once a table has been dropped it does not exist, and neither does any
/// metadata table of it, if the name has no separator in it.
pub proof fn dropped_table_is_gone(schema: SchemaView, name: Seq<char>, kind: MetadataTableType)
    requires
        is_plain(name),
    ensures
        !schema.without(name).has_table(name),
        !schema.without(name).has_table(qualified(name, kind)),
{
    plain_name_is_its_table(name);
    qualified_name_is_its_metadata_table(name, kind);
}

/// Once a lookup has found that the catalog does not know the table, the name
/// that was looked up does not exist, nor does any other name that stands for
/// that table or a metadata table of it.
pub proof fn missing_table_is_gone(schema: SchemaView, table: Seq<char>, name: Seq<char>)
    requires
        target(name) matches Some((found, _)) && found == table,
    ensures
        !schema.without(table).has_table(name),
{
}

/// Dropping a table undoes its creation, if it was not known before.
pub proof fn dropping_undoes_creating(schema: SchemaView, name: Seq<char>)
    requires
        !schema.names.contains(name),
    ensures
        schema.with(name).without(name) == schema,
{
    assert(schema.names.insert(name).remove(name) =~= schema.names);
}

/// Creating a table again undoes its dropping.
pub proof fn creating_undoes_dropping(schema: SchemaView, name: Seq<char>)
    requires
        schema.names.contains(name),
    ensures
        schema.without(name).with(name) == schema,
{
    assert(schema.names.remove(name).insert(name) =~= schema.names);
}

/// Operations on different tables do not get in each other's way: whichever of
/// them ends first, the schema comes out the same.
pub proof fn different_tables_are_independent(schema: SchemaView, a: Seq<char>, b: Seq<char>)
    requires
        a != b,
    ensures
        schema.with(a).with(b) == schema.with(b).with(a),
        schema.with(a).without(b) == schema.without(b).with(a),
        schema.without(a).without(b) == schema.without(b).without(a),
{
    assert(schema.with(a).with(b).names =~= schema.with(b).with(a).names);
    assert(schema.with(a).without(b).names =~= schema.without(b).with(a).names);
    assert(schema.without(a).without(b).names =~= schema.without(b).without(a).names);
}

} // verus!
