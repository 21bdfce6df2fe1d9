//! The metadata tables that every Iceberg table comes with.
use vstd::prelude::*;

verus! {

/// A metadata table: a table that shows the history or the files of another.
#[derive(Clone, Copy, Debug, PartialEq, Eq, Structural)]
pub enum MetadataTableType {
    /// One row for each snapshot of the table.
    Snapshots,
    /// One row for each manifest of the current snapshot.
    Manifests,
}

impl MetadataTableType {
    /// The name of the metadata table.
    pub open spec fn name(self) -> Seq<char> {
        match self {
            MetadataTableType::Snapshots => "snapshots"@,
            MetadataTableType::Manifests => "manifests"@,
        }
    }

    /// All metadata tables, in the order in which they are listed.
    pub open spec fn all() -> Seq<MetadataTableType> {
        seq![MetadataTableType::Snapshots, MetadataTableType::Manifests]
    }

    /// The metadata table of the given name, if there is one.
    pub open spec fn named(name: Seq<char>) -> Option<MetadataTableType> {
        if name == MetadataTableType::Snapshots.name() {
            Some(MetadataTableType::Snapshots)
        } else if name == MetadataTableType::Manifests.name() {
            Some(MetadataTableType::Manifests)
        } else {
            None
        }
    }

    /// The complaint about a name that no metadata table has.
    pub open spec fn invalid_name(name: Seq<char>) -> Seq<char> {
        "invalid metadata table type: "@ + name
    }

    /// Calls `iceberg::inspect::MetadataTableType::all_types`: each metadata
    /// table once, in the order of their declaration.
    #[verifier::external_body]
    pub(crate) fn all_types() -> (types: Vec<MetadataTableType>)
        ensures
            types@ == MetadataTableType::all(),
    {
        iceberg::inspect::MetadataTableType::all_types()
            .map(|kind| match kind {
                iceberg::inspect::MetadataTableType::Snapshots => MetadataTableType::Snapshots,
                iceberg::inspect::MetadataTableType::Manifests => MetadataTableType::Manifests,
            })
            .collect()
    }

    /// Calls `iceberg::inspect::MetadataTableType::as_str`: the name of the
    /// metadata table.
    #[verifier::external_body]
    pub(crate) fn as_string(self) -> (name: String)
        ensures
            name@ == self.name(),
    {
        match self {
            MetadataTableType::Snapshots => iceberg::inspect::MetadataTableType::Snapshots,
            MetadataTableType::Manifests => iceberg::inspect::MetadataTableType::Manifests,
        }
        .as_str()
        .to_string()
    }

    /// Calls `iceberg::inspect::MetadataTableType::try_from`: the metadata
    /// table of that name, or a complaint that quotes the name.
    #[verifier::external_body]
    pub(crate) fn parse(name: &str) -> (parsed: Result<MetadataTableType, String>)
        ensures
            match parsed {
                Ok(kind) => MetadataTableType::named(name@) == Some(kind),
                Err(complaint) => {
                    &&& MetadataTableType::named(name@) is None
                    &&& complaint@ == MetadataTableType::invalid_name(name@)
                },
            },
    {
        match iceberg::inspect::MetadataTableType::try_from(name) {
            Ok(iceberg::inspect::MetadataTableType::Snapshots) => Ok(MetadataTableType::Snapshots),
            Ok(iceberg::inspect::MetadataTableType::Manifests) => Ok(MetadataTableType::Manifests),
            Err(complaint) => Err(complaint),
        }
    }
}

/// The name of each metadata table leads back to it.
pub proof fn metadata_name_leads_back(kind: MetadataTableType)
    ensures
        MetadataTableType::named(kind.name()) == Some(kind),
        MetadataTableType::all().contains(kind),
{
    reveal_strlit("snapshots");
    reveal_strlit("manifests");
    assert("snapshots"@[0] == 's' && "manifests"@[0] == 'm');
    assert(MetadataTableType::all()[0] == MetadataTableType::Snapshots);
    assert(MetadataTableType::all()[1] == MetadataTableType::Manifests);
}

} // verus!
