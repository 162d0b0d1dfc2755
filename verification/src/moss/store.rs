//! The concurrent maps that hold the Blackboard's gaps, name index and evidence log.
//! Each map's contents are named by a spec function, and every operation the Blackboard
//! uses is a wrapper whose contract speaks of those contents.
use dashmap::DashMap;
use vstd::prelude::*;
use crate::moss::types::{Evidence, Gap};

verus! {

#[verifier::external_type_specification]
#[verifier::external_body]
#[verifier::reject_recursive_types(K)]
#[verifier::reject_recursive_types(V)]
#[verifier::reject_recursive_types(S)]
pub struct ExDashMap<K, V, S>(DashMap<K, V, S>);

/// The entries of a gap table, by gap id.
pub uninterp spec fn gap_entries(m: DashMap<u128, Gap>) -> Map<u128, Gap>;

/// The entries of a name index, by the name's characters.
pub uninterp spec fn name_entries(m: DashMap<String, u128>) -> Map<Seq<char>, u128>;

/// The entries of an evidence log, by gap id.
pub uninterp spec fn evidence_entries(m: DashMap<u128, Vec<Evidence>>) -> Map<u128, Seq<Evidence>>;

pub open spec fn empty_gap_entries() -> Map<u128, Gap> {
    Map::empty()
}

pub open spec fn empty_name_entries() -> Map<Seq<char>, u128> {
    Map::empty()
}

pub open spec fn empty_evidence_entries() -> Map<u128, Seq<Evidence>> {
    Map::empty()
}

/// `DashMap::new`: the new map is empty.
#[verifier::external_body]
pub(crate) fn gaps_new() -> (fresh: DashMap<u128, Gap>)
    ensures
        gap_entries(fresh) == empty_gap_entries(),
{
    DashMap::new()
}

/// `DashMap::get`, cloning the stored gap: the entry under `id`, if there is one.
#[verifier::external_body]
pub(crate) fn gaps_get(m: &DashMap<u128, Gap>, id: u128) -> (r: Option<Gap>)
    ensures
        r == (if gap_entries(*m).contains_key(id) {
            Some(gap_entries(*m)[id])
        } else {
            None
        }),
{
    m.get(&id).map(|e| e.value().clone())
}

/// `DashMap::insert`: the entry under `id` becomes `g`; the others stay.
#[verifier::external_body]
pub(crate) fn gaps_insert(m: &mut DashMap<u128, Gap>, id: u128, g: Gap)
    ensures
        gap_entries(*final(m)) == gap_entries(*old(m)).insert(id, g),
{
    m.insert(id, g);
}

/// `DashMap::iter`, keeping the keys: every key once, in an order the source leaves open.
#[verifier::external_body]
pub(crate) fn gaps_keys(m: &DashMap<u128, Gap>) -> (ks: Vec<u128>)
    ensures
        ks@.no_duplicates(),
        forall|k: u128| ks@.contains(k) <==> gap_entries(*m).contains_key(k),
{
    m.iter().map(|e| *e.key()).collect()
}

/// `DashMap::new`: the new index is empty.
#[verifier::external_body]
pub(crate) fn names_new() -> (m: DashMap<String, u128>)
    ensures
        name_entries(m) == empty_name_entries(),
{
    DashMap::new()
}

/// `DashMap::get`: the id indexed under `name`, if there is one.
#[verifier::external_body]
pub(crate) fn names_get(m: &DashMap<String, u128>, name: &str) -> (r: Option<u128>)
    ensures
        r == (if name_entries(*m).contains_key(name@) {
            Some(name_entries(*m)[name@])
        } else {
            None
        }),
{
    m.get(name).map(|e| *e.value())
}

/// `DashMap::insert`: `name` is indexed to `id`; the other names stay.
#[verifier::external_body]
pub(crate) fn names_insert(m: &mut DashMap<String, u128>, name: String, id: u128)
    ensures
        name_entries(*final(m)) == name_entries(*old(m)).insert(name@, id),
{
    m.insert(name, id);
}

/// `DashMap::new`: the new log is empty.
#[verifier::external_body]
pub(crate) fn evidence_new() -> (m: DashMap<u128, Vec<Evidence>>)
    ensures
        evidence_entries(m) == empty_evidence_entries(),
{
    DashMap::new()
}

/// `DashMap::get`, cloning the stored list: the evidence under `id`, if there is any.
#[verifier::external_body]
pub(crate) fn evidence_get(m: &DashMap<u128, Vec<Evidence>>, id: u128) -> (r: Option<Vec<Evidence>>)
    ensures
        r matches Some(v) ==> evidence_entries(*m).contains_key(id) && v@ == evidence_entries(
            *m,
        )[id],
        r is None ==> !evidence_entries(*m).contains_key(id),
{
    m.get(&id).map(|e| e.value().clone())
}

/// `DashMap::insert`: the list under `id` becomes `v`; the others stay.
#[verifier::external_body]
pub(crate) fn evidence_insert(m: &mut DashMap<u128, Vec<Evidence>>, id: u128, v: Vec<Evidence>)
    ensures
        evidence_entries(*final(m)) == evidence_entries(*old(m)).insert(id, v@),
{
    m.insert(id, v);
}

/// `DashMap::iter`, keeping the keys: every key once, in an order the source leaves open.
#[verifier::external_body]
pub(crate) fn evidence_keys(m: &DashMap<u128, Vec<Evidence>>) -> (ks: Vec<u128>)
    ensures
        ks@.no_duplicates(),
        forall|k: u128| ks@.contains(k) <==> evidence_entries(*m).contains_key(k),
{
    m.iter().map(|e| *e.key()).collect()
}

} // verus!
