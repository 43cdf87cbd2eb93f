//! The slot table that holds the registered instances.

use vstd::prelude::*;
use crate::instance::Instance;
use slab::Slab;

verus! {

/// `slab::Slab`, taken as an opaque type: what it holds is known through
/// `slab_entries` and `slab_vacant_key` only.
#[verifier::external_type_specification]
#[verifier::external_body]
#[verifier::reject_recursive_types(T)]
pub struct ExSlab<T>(slab::Slab<T>);

/// The occupied slots of a slab, each with the instance it holds.
pub uninterp spec fn slab_entries(slab: Slab<Instance>) -> Map<usize, Instance>;

/// The slot that the next insertion into a slab takes.
pub uninterp spec fn slab_vacant_key(slab: Slab<Instance>) -> usize;

/// `Slab::new`: a slab without occupied slots.
#[verifier::external_body]
pub(crate) fn slab_new() -> (res: Slab<Instance>)
    ensures
        forall|key: usize| !slab_entries(res).contains_key(key),
{
    Slab::new()
}

/// `Slab::get`: the instance in slot `key`, where that slot is occupied.
#[verifier::external_body]
pub(crate) fn slab_get(slab: &Slab<Instance>, key: usize) -> (res: Option<&Instance>)
    ensures
        res is Some <==> slab_entries(*slab).contains_key(key),
        res is Some ==> *res->0 == slab_entries(*slab)[key],
{
    slab.get(key)
}

/// `Slab::get_mut`: the instance in slot `key`, where that slot is occupied,
/// for changing it in place. No other slot changes, and the slot that the
/// next insertion takes stays the same.
#[verifier::external_body]
pub(crate) fn slab_get_mut(slab: &mut Slab<Instance>, key: usize) -> (res: Option<
    &mut Instance,
>)
    ensures
        res is Some <==> slab_entries(*old(slab)).contains_key(key),
        res is Some ==> *res->0 == slab_entries(*old(slab))[key],
        res is Some ==> slab_entries(*final(slab)) == slab_entries(*old(slab)).insert(
            key,
            *final(res->0),
        ),
        res is None ==> slab_entries(*final(slab)) == slab_entries(*old(slab)),
        slab_vacant_key(*final(slab)) == slab_vacant_key(*old(slab)),
{
    slab.get_mut(key)
}

/// `Slab::vacant_key`: the slot that the next insertion takes. It is not
/// occupied.
#[verifier::external_body]
pub(crate) fn slab_next_key(slab: &Slab<Instance>) -> (res: usize)
    ensures
        res == slab_vacant_key(*slab),
        !slab_entries(*slab).contains_key(res),
{
    slab.vacant_key()
}

/// `Slab::insert`: puts the instance into the vacant slot announced by
/// `Slab::vacant_key` and returns that slot. The other slots keep what they
/// hold. Which slot the insertion after this one takes is left open.
#[verifier::external_body]
pub(crate) fn slab_insert(slab: &mut Slab<Instance>, value: Instance) -> (res: usize)
    ensures
        res == slab_vacant_key(*old(slab)),
        !slab_entries(*old(slab)).contains_key(res),
        slab_entries(*final(slab)) == slab_entries(*old(slab)).insert(res, value),
{
    slab.insert(value)
}

/// `Slab::remove`: empties slot `key` and returns the instance it held. The
/// other slots keep what they hold, and the emptied slot is the one that the
/// next insertion takes.
#[verifier::external_body]
pub(crate) fn slab_remove(slab: &mut Slab<Instance>, key: usize) -> (res: Instance)
    requires
        slab_entries(*old(slab)).contains_key(key),
    ensures
        res == slab_entries(*old(slab))[key],
        slab_entries(*final(slab)) == slab_entries(*old(slab)).remove(key),
        slab_vacant_key(*final(slab)) == key,
{
    slab.remove(key)
}

/// `Slab::iter`, keys only: the occupied slots in increasing order.
#[verifier::external_body]
pub(crate) fn slab_keys(slab: &Slab<Instance>) -> (res: Vec<usize>)
    ensures
        forall|i: int, j: int| 0 <= i < j < res.len() ==> res[i] < res[j],
        forall|k: usize| res@.contains(k) <==> slab_entries(*slab).contains_key(k),
{
    slab.iter().map(|(key, _)| key).collect()
}

} // verus!
