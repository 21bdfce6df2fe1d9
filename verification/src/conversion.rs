//! From the Arrow schema of an input table to the schema an Iceberg table is
//! created with.
use datafusion::arrow::datatypes::Schema as ArrowSchema;
use iceberg::arrow::arrow_schema_to_schema_auto_assign_ids;
use iceberg::spec::Schema;
use vstd::prelude::*;

verus! {

/// The schema of an Arrow table, an ordered collection of fields; see
/// [`arrow_fields`].
#[verifier::external_type_specification]
#[verifier::external_body]
pub struct ExArrowSchema(ArrowSchema);

/// The schema of an Iceberg table, an ordered collection of fields; see
/// [`iceberg_fields`].
#[verifier::external_type_specification]
#[verifier::external_body]
pub struct ExSchema(Schema);

/// An error of the `iceberg` crate, carried through as it is.
#[verifier::external_type_specification]
#[verifier::external_body]
pub struct ExError(iceberg::Error);

/// The top-level fields of an Arrow schema, in order: the name of each, whether
/// it may be null, its type written out in full, and its doc, which is what the
/// field's metadata has under the key `doc`. A written type spells out all that
/// the type is made of: units, time zones, widths, precision, and of each field
/// nested in it the name, whether it may be null, its type, and its doc. Any
/// other metadata is left out.
pub uninterp spec fn arrow_fields(
    schema: ArrowSchema,
) -> Seq<(Seq<char>, bool, Seq<char>, Option<Seq<char>>)>;

/// The top-level fields of an Iceberg schema, in order: the field id of each,
/// its name, whether it is required, its type written out in full together with
/// the default values of the field, if it has any, and its doc. A written type
/// spells out all that the type is made of, and of each field nested in it the
/// same five things.
pub uninterp spec fn iceberg_fields(
    schema: Schema,
) -> Seq<(int, Seq<char>, bool, Seq<char>, Option<Seq<char>>)>;

/// The number by which a table tells an Iceberg schema from its other schemas.
pub uninterp spec fn schema_id(schema: Schema) -> int;

/// The ids of the fields that together identify a row of an Iceberg table.
pub uninterp spec fn identifier_field_ids(schema: Schema) -> Set<int>;

/// The further names by which fields of an Iceberg schema go, each with the id
/// of the field.
pub uninterp spec fn field_aliases(schema: Schema) -> Map<Seq<char>, int>;

/// The top-level fields of the Iceberg schema that
/// `iceberg::arrow::arrow_schema_to_schema_auto_assign_ids` makes of an Arrow
/// schema with these top-level fields, if it makes one.
pub uninterp spec fn converted_fields(
    fields: Seq<(Seq<char>, bool, Seq<char>, Option<Seq<char>>)>,
) -> Option<Seq<(int, Seq<char>, bool, Seq<char>, Option<Seq<char>>)>>;

/// `made` has the names and the docs of `fields` in the same order, is numbered
/// from one, and requires a field where null is not allowed.
pub open spec fn numbered_from(
    made: Seq<(int, Seq<char>, bool, Seq<char>, Option<Seq<char>>)>,
    fields: Seq<(Seq<char>, bool, Seq<char>, Option<Seq<char>>)>,
) -> bool {
    &&& made.len() == fields.len()
    &&& forall|i: int|
        0 <= i < fields.len() ==> {
            &&& (#[trigger] made[i]).0 == i + 1
            &&& made[i].1 == fields[i].0
            &&& made[i].2 == !fields[i].1
            &&& made[i].4 == fields[i].3
        }
}

/// No two of the fields have the same name.
pub open spec fn distinct_names(
    fields: Seq<(Seq<char>, bool, Seq<char>, Option<Seq<char>>)>,
) -> bool {
    forall|i: int, j: int|
        0 <= i < j < fields.len() ==> #[trigger] fields[i].0 != #[trigger] fields[j].0
}

/// Calls `iceberg::arrow::arrow_schema_to_schema_auto_assign_ids`: whether a
/// schema comes out, and which fields it then has, is settled by the fields that
/// went in; see [`converted_fields`]. A schema that comes out has the top-level
/// fields of the one that went in, with their docs, numbered from one; its own
/// number is zero, no fields identify a row, and no field goes by another name.
/// None comes out where two of the top-level fields have the same name; one does
/// where there are no fields at all. Of the error, which carries a backtrace,
/// nothing is said.
#[verifier::external_body]
pub(crate) fn assign_field_ids(schema: &ArrowSchema) -> (converted: Result<Schema, iceberg::Error>)
    ensures
        converted_fields(arrow_fields(*schema)) == (match converted {
            Ok(made) => Some(iceberg_fields(made)),
            Err(_) => None,
        }),
        converted matches Ok(made) ==> {
            &&& numbered_from(iceberg_fields(made), arrow_fields(*schema))
            &&& distinct_names(arrow_fields(*schema))
            &&& schema_id(made) == 0
            &&& identifier_field_ids(made) == Set::<int>::empty()
            &&& field_aliases(made) == Map::<Seq<char>, int>::empty()
        },
        arrow_fields(*schema).len() == 0 ==> converted is Ok,
{
    arrow_schema_to_schema_auto_assign_ids(schema)
}

} // verus!
