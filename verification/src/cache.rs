//! The set of table names a schema remembers, kept in a [`DashSet`].
//!
//! A `DashSet` can be changed through a shared reference. The functions here
//! change one only through `&mut`, and the set never leaves the schema that
//! owns it, so what a shared reference shows stays put for as long as it is
//! borrowed.
use dashmap::DashSet;
use vstd::prelude::*;

use crate::names::spelled;

verus! {

/// The concurrent set of `dashmap`. Its inside is not visible here; what it
/// holds is given by [`cached_names`].
#[verifier::external_type_specification]
#[verifier::external_body]
#[verifier::reject_recursive_types(K)]
#[verifier::reject_recursive_types(S)]
pub struct ExDashSet<K, S>(DashSet<K, S>);

/// The names that the set holds.
pub uninterp spec fn cached_names(set: DashSet<String>) -> Set<Seq<char>>;

/// Calls `DashSet::from_iter`: the set of the given names, each of them once
/// however often it is given.
#[verifier::external_body]
pub(crate) fn collect_names(names: Vec<String>) -> (set: DashSet<String>)
    ensures
        cached_names(set) == spelled(names@).to_set(),
{
    names.into_iter().collect()
}

/// Calls `DashSet::contains`: whether the name is in the set.
#[verifier::external_body]
pub(crate) fn contains_name(set: &DashSet<String>, name: &str) -> (found: bool)
    ensures
        found == cached_names(*set).contains(name@),
{
    set.contains(name)
}

/// Calls `DashSet::insert`: the name is in the set afterwards and no other
/// name came or went; the result says whether it was missing before.
#[verifier::external_body]
pub(crate) fn insert_name(set: &mut DashSet<String>, name: String) -> (fresh: bool)
    ensures
        cached_names(*final(set)) == cached_names(*old(set)).insert(name@),
        fresh == !cached_names(*old(set)).contains(name@),
{
    set.insert(name)
}

/// Calls `DashSet::remove`: the name is not in the set afterwards and no other
/// name came or went; the result is the removed name, if it was there.
#[verifier::external_body]
pub(crate) fn remove_name(set: &mut DashSet<String>, name: &str) -> (removed: Option<String>)
    ensures
        cached_names(*final(set)) == cached_names(*old(set)).remove(name@),
        removed is Some == cached_names(*old(set)).contains(name@),
        removed matches Some(gone) ==> gone@ == name@,
{
    set.remove(name)
}

/// Calls `DashSet::iter` and copies out the key of each entry: every name of
/// the set, once. The order is whatever the shards and the hasher make of it;
/// nothing is said of it.
#[verifier::external_body]
pub(crate) fn walk_names(set: &DashSet<String>) -> (names: Vec<String>)
    ensures
        spelled(names@).no_duplicates(),
        spelled(names@).to_set() == cached_names(*set),
{
    set.iter().map(|entry| entry.key().clone()).collect()
}

} // verus!
