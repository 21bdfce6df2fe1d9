//! How tables are named within a schema.
//!
//! A name with a `$` in it asks for a metadata table: what stands before the
//! first `$` is the table, what stands after it the metadata table. Any other
//! name is the name of a table.
use vstd::prelude::*;
use vstd::string::{StrSliceExecFns, StringExecFns};

use crate::answers::what_a_listing_gives;
use crate::metadata::MetadataTableType;

verus! {

/// What parts a table's name from that of its metadata table.
pub const SEPARATOR: char = '$';

/// What each of some strings spells.
pub open spec fn spelled(names: Seq<String>) -> Seq<Seq<char>> {
    Seq::new(names.len(), |i: int| names[i]@)
}

/// Whether the name has no separator in it, so that it stands for a table.
pub open spec fn is_plain(name: Seq<char>) -> bool {
    !name.contains(SEPARATOR)
}

/// `name` is `table`, a separator and `rest`, and that separator is the first.
pub open spec fn splits_into(name: Seq<char>, table: Seq<char>, rest: Seq<char>) -> bool {
    &&& is_plain(table)
    &&& name == table.push(SEPARATOR) + rest
}

/// The two parts of a name with a separator in it.
pub open spec fn parts(name: Seq<char>) -> Option<(Seq<char>, Seq<char>)> {
    match name.index_of_first(SEPARATOR) {
        Some(at) => Some((name.take(at), name.skip(at + 1))),
        None => None,
    }
}

/// The name under which a metadata table of a table is found.
pub open spec fn qualified(table: Seq<char>, kind: MetadataTableType) -> Seq<char> {
    table.push(SEPARATOR) + kind.name()
}

/// What a name stands for: a table and, where the name has a separator, one of
/// the table's metadata tables. `None` if there is no such metadata table.
pub open spec fn target(name: Seq<char>) -> Option<(Seq<char>, Option<MetadataTableType>)> {
    match parts(name) {
        Some((table, rest)) => match MetadataTableType::named(rest) {
            Some(kind) => Some((table, Some(kind))),
            None => None,
        },
        None => Some((name, None)),
    }
}

/// The names listed for one table: its own, then that of each metadata table.
pub open spec fn entries(table: Seq<char>) -> Seq<Seq<char>> {
    seq![table] + Seq::new(
        MetadataTableType::all().len(),
        |i: int| qualified(table, MetadataTableType::all()[i]),
    )
}

/// The names listed for some tables, one table after the other.
pub open spec fn listing(tables: Seq<Seq<char>>) -> Seq<Seq<char>>
    decreases tables.len(),
{
    if tables.len() == 0 {
        Seq::empty()
    } else {
        listing(tables.drop_last()) + entries(tables.last())
    }
}

/// A name with a separator has exactly one pair of parts; one without has none.
pub proof fn parts_are_unique(name: Seq<char>)
    ensures
        parts(name) is None <==> is_plain(name),
        forall|table: Seq<char>, rest: Seq<char>|
            #[trigger] splits_into(name, table, rest) <==> parts(name) == Some((table, rest)),
{
    name.index_of_first_ensures(SEPARATOR);
    assert forall|table: Seq<char>, rest: Seq<char>| #[trigger]
        splits_into(name, table, rest) implies parts(name) == Some((table, rest)) by {
        let at = table.len() as int;
        assert(name[at] == SEPARATOR);
        assert(name.contains(SEPARATOR));
        let first = name.index_of_first(SEPARATOR).unwrap();
        if first < at {
            assert(table[first] == SEPARATOR);
        }
        assert(first == at);
        assert(name.take(at) =~= table);
        assert(name.skip(at + 1) =~= rest);
    }
    assert forall|table: Seq<char>, rest: Seq<char>|
        parts(name) == Some((table, rest)) implies #[trigger] splits_into(name, table, rest) by {
        let first = name.index_of_first(SEPARATOR).unwrap();
        assert(name =~= table.push(SEPARATOR) + rest);
        if table.contains(SEPARATOR) {
            let i = table.index_of(SEPARATOR);
            assert(name[i] == SEPARATOR);
        }
    }
}

/// Splits a name at its first separator.
pub fn split_name(name: &str) -> (split: Option<(&str, &str)>)
    ensures
        match split {
            Some((table, rest)) => parts(name@) == Some((table@, rest@)),
            None => parts(name@) is None,
        },
        match split {
            Some((table, rest)) => {
                &&& !table@.contains('$')
                &&& name@ == table@ + seq!['$'] + rest@
            },
            None => !name@.contains('$'),
        },
{
    let mut at: usize = 0;
    let len: usize = name.unicode_len();
    for c in it: name.chars()
        invariant
            at == it.index(),
            it.seq() == name@,
            len == name@.len(),
            forall|i: int| 0 <= i < at ==> name@[i] != SEPARATOR,
    {
        if c == SEPARATOR {
            let table = name.substring_char(0, at);
            let rest = name.substring_char(at + 1, len);
            proof {
                parts_are_unique(name@);
                assert(name@ =~= table@.push(SEPARATOR) + rest@);
                assert(splits_into(name@, table@, rest@));
                assert(name@ =~= table@ + seq!['$'] + rest@);
            }
            return Some((table, rest));
        }
        at = at + 1;
    }
    proof {
        parts_are_unique(name@);
    }
    None
}

/// Lists the given tables, each followed by its metadata tables.
pub fn list_with_metadata(tables: &Vec<String>) -> (listed: Vec<String>)
    ensures
        spelled(listed@) == listing(spelled(tables@)),
        listed@.len() == 3 * tables@.len(),
        forall|i: int|
            0 <= i < tables@.len() ==> {
                &&& listed@[3 * i]@ == (#[trigger] tables@[i])@
                &&& listed@[3 * i + 1]@ == tables@[i]@ + "$snapshots"@
                &&& listed@[3 * i + 2]@ == tables@[i]@ + "$manifests"@
            },
{
    let kinds: Vec<MetadataTableType> = MetadataTableType::all_types();
    let mut listed: Vec<String> = Vec::new();
    let mut i: usize = 0;
    while i < tables.len()
        invariant
            i <= tables.len(),
            kinds@ == MetadataTableType::all(),
            spelled(listed@) == listing(spelled(tables@).take(i as int)),
        decreases tables.len() - i,
    {
        let table: &String = &tables[i];
        let ghost before = spelled(listed@);
        listed.push(table.clone());
        let mut j: usize = 0;
        while j < kinds.len()
            invariant
                j <= kinds.len(),
                kinds@ == MetadataTableType::all(),
                spelled(listed@) == before + entries(table@).take(j + 1),
            decreases kinds.len() - j,
        {
            let mut name: String = table.clone();
            name.append("$");
            let kind: String = kinds[j].as_string();
            name.append(kind.as_str());
            proof {
                reveal_strlit("$");
                assert(name@ =~= qualified(table@, kinds@[j as int]));
            }
            let ghost known = listed@;
            listed.push(name);
            proof {
                assert(spelled(listed@) =~= spelled(known).push(name@));
                assert(entries(table@).take(j + 2) =~= entries(table@).take(j + 1).push(name@));
            }
            j = j + 1;
        }
        proof {
            assert(entries(table@).take(j + 1) =~= entries(table@));
            let done = spelled(tables@).take(i + 1);
            assert(done.drop_last() =~= spelled(tables@).take(i as int));
            assert(done.last() == table@);
        }
        i = i + 1;
    }
    proof {
        assert(spelled(tables@).take(i as int) =~= spelled(tables@));
        assert(listed@.len() == spelled(listed@).len());
        what_a_listing_gives(spelled(tables@), 0);
        assert forall|k: int| 0 <= k < tables@.len() implies {
            &&& listed@[3 * k]@ == (#[trigger] tables@[k])@
            &&& listed@[3 * k + 1]@ == tables@[k]@ + "$snapshots"@
            &&& listed@[3 * k + 2]@ == tables@[k]@ + "$manifests"@
        } by {
            what_a_listing_gives(spelled(tables@), k);
            assert(spelled(listed@)[3 * k] == listed@[3 * k]@);
            assert(spelled(listed@)[3 * k + 1] == listed@[3 * k + 1]@);
            assert(spelled(listed@)[3 * k + 2] == listed@[3 * k + 2]@);
        }
    }
    listed
}

} // verus!
