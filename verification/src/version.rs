//! The version triple, its order, and the two policies that are decided by that order.

use std::cmp::Ordering;
use vstd::prelude::*;

verus! {

/// A version: three unsigned components, compared in the order major, minor, patch.
#[derive(Clone, Copy, Debug, PartialEq, Eq, PartialOrd, Ord, Hash, Structural)]
pub struct Version {
    pub major: u32,
    pub minor: u32,
    pub patch: u32,
}

/// `a` comes strictly before `b`: at the first component in which they differ, `a` is smaller.
pub open spec fn precedes(a: Version, b: Version) -> bool {
    a.major < b.major || (a.major == b.major && (a.minor < b.minor || (a.minor == b.minor
        && a.patch < b.patch)))
}

/// How `a` stands to `b` in the order of versions.
pub open spec fn ordering(a: Version, b: Version) -> Ordering {
    if precedes(a, b) {
        Ordering::Less
    } else if a == b {
        Ordering::Equal
    } else {
        Ordering::Greater
    }
}

/// Compares two versions: by major, then by minor, then by patch.
pub fn compare(a: Version, b: Version) -> (order: Ordering)
    ensures
        order == ordering(a, b),
{
    if a.major < b.major {
        Ordering::Less
    } else if a.major > b.major {
        Ordering::Greater
    } else if a.minor < b.minor {
        Ordering::Less
    } else if a.minor > b.minor {
        Ordering::Greater
    } else if a.patch < b.patch {
        Ordering::Less
    } else if a.patch > b.patch {
        Ordering::Greater
    } else {
        Ordering::Equal
    }
}

/// The pairwise policy: a pair passes only when the first version strictly precedes the
/// second. Equal versions do not pass.
pub fn compare_pass(a: Version, b: Version) -> (pass: bool)
    ensures
        pass == precedes(a, b),
{
    match compare(a, b) {
        Ordering::Less => true,
        Ordering::Equal => false,
        Ordering::Greater => false,
    }
}

/// The policy for a change between two revisions: the change is valid only when the version
/// it comes from is strictly newer than the version it goes to. Equal versions are not valid.
pub fn valid_version(from: Version, to: Version) -> (valid: bool)
    ensures
        valid == precedes(to, from),
{
    match compare(from, to) {
        Ordering::Less => false,
        Ordering::Equal => false,
        Ordering::Greater => true,
    }
}

/// The order is total and strict: of two versions exactly one holds, the first precedes the
/// second, they are the same, or the second precedes the first.
pub proof fn lemma_order_total(a: Version, b: Version)
    ensures
        precedes(a, b) || a == b || precedes(b, a),
        !(precedes(a, b) && precedes(b, a)),
        !(precedes(a, b) && a == b),
{
}

/// What precedes a version also precedes all that this version precedes.
pub proof fn lemma_order_transitive(a: Version, b: Version, c: Version)
    requires
        precedes(a, b),
        precedes(b, c),
    ensures
        precedes(a, c),
{
}

/// `compare` tells the three cases of the order apart.
pub proof fn lemma_ordering_cases(a: Version, b: Version)
    ensures
        ordering(a, b) == Ordering::Less <==> precedes(a, b),
        ordering(a, b) == Ordering::Equal <==> a == b,
        ordering(a, b) == Ordering::Greater <==> precedes(b, a),
        ordering(a, b) == Ordering::Less <==> ordering(b, a) == Ordering::Greater,
{
}

} // verus!
