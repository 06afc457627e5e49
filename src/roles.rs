//! The set of multicast roles a connection subscribes to, held in
//! tinyset's `Set64`.
use tinyset::Set64;
use vstd::prelude::*;

verus! {

/// A connection's role subscriptions. The `Set64` sits behind this struct
/// because Verus cannot declare it directly (its parameter is bound by
/// tinyset's own `Fits64` trait).
#[verifier::external_body]
pub struct RoleSet {
    inner: Set64<u64>,
}

/// The roles that a `RoleSet` holds.
pub uninterp spec fn roles_of(s: RoleSet) -> Set<u64>;

/// Relies on `tinyset::Set64::new`: the set starts empty.
#[verifier::external_body]
pub(crate) fn empty_roles() -> (r: RoleSet)
    ensures
        roles_of(r) == Set::<u64>::empty(),
{
    RoleSet { inner: Set64::new() }
}

/// Relies on `tinyset::Set64::insert`: the value is added; the result says
/// whether it was absent before.
#[verifier::external_body]
pub(crate) fn insert_role(s: &mut RoleSet, role: u64) -> (r: bool)
    ensures
        roles_of(*final(s)) == roles_of(*old(s)).insert(role),
        r == !roles_of(*old(s)).contains(role),
{
    s.inner.insert(role)
}

/// Relies on `tinyset::Set64::remove`: the value is taken out; the result
/// says whether it was present.
#[verifier::external_body]
pub(crate) fn remove_role(s: &mut RoleSet, role: u64) -> (r: bool)
    ensures
        roles_of(*final(s)) == roles_of(*old(s)).remove(role),
        r == roles_of(*old(s)).contains(role),
{
    s.inner.remove(&role)
}

/// Relies on `tinyset::Set64::contains`: membership of the value.
#[verifier::external_body]
pub(crate) fn has_role(s: &RoleSet, role: u64) -> (r: bool)
    ensures
        r == roles_of(*s).contains(role),
{
    s.inner.contains(role)
}

} // verus!
