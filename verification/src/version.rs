//! Versions of `cargo` and `rustc`, and the order between them.

use core::cmp::Ordering;
use vstd::prelude::*;
use vstd::std_specs::cmp::PartialEqSpec;
use vstd::std_specs::cmp::PartialEqSpecImpl;
use vstd::std_specs::cmp::PartialOrdSpec;
use vstd::std_specs::cmp::PartialOrdSpecImpl;

verus! {

/// The version of a toolchain: its release number, and whether it is a nightly
/// build.
///
/// Versions are ordered and compared by the release number alone. Whether a
/// version is a nightly says which features it offers, not how recent it is.
#[derive(Clone, Copy, Debug)]
pub struct Version {
    pub major: u32,
    pub minor: u32,
    pub patch: u32,
    pub is_nightly: bool,
}

impl Version {
    /// Both versions are of the same release.
    pub open spec fn same_release(self, other: Version) -> bool {
        self.major == other.major && self.minor == other.minor && self.patch == other.patch
    }

    /// `self` is of an earlier release than `other`.
    pub open spec fn older_than(self, other: Version) -> bool {
        self.major < other.major || (self.major == other.major && (self.minor < other.minor || (
        self.minor == other.minor && self.patch < other.patch)))
    }

    /// `self` is of the same release as `other` or of a later one.
    pub open spec fn at_least(self, other: Version) -> bool {
        !self.older_than(other)
    }

    pub fn new(major: u32, minor: u32, patch: u32, is_nightly: bool) -> (v: Version)
        ensures
            v == (Version { major, minor, patch, is_nightly }),
    {
        Version { major, minor, patch, is_nightly }
    }

    /// Whether this is a stable version.
    pub fn is_stable(&self) -> (stable: bool)
        ensures
            stable == !self.is_nightly,
    {
        !self.is_nightly
    }

    /// Whether `self` is of the same release as `other` or of a later one.
    pub fn is_at_least(&self, other: &Version) -> (r: bool)
        ensures
            r == self.at_least(*other),
    {
        if self.major != other.major {
            self.major > other.major
        } else if self.minor != other.minor {
            self.minor > other.minor
        } else {
            self.patch >= other.patch
        }
    }
}

impl PartialEq for Version {
    fn eq(&self, other: &Version) -> (r: bool) {
        self.major == other.major && self.minor == other.minor && self.patch == other.patch
    }
}

impl Eq for Version {

}

impl PartialEqSpecImpl for Version {
    open spec fn obeys_eq_spec() -> bool {
        true
    }

    open spec fn eq_spec(&self, other: &Version) -> bool {
        self.same_release(*other)
    }
}

impl PartialOrd for Version {
    fn partial_cmp(&self, other: &Version) -> (r: Option<Ordering>) {
        if self.major < other.major {
            Some(Ordering::Less)
        } else if self.major > other.major {
            Some(Ordering::Greater)
        } else if self.minor < other.minor {
            Some(Ordering::Less)
        } else if self.minor > other.minor {
            Some(Ordering::Greater)
        } else if self.patch < other.patch {
            Some(Ordering::Less)
        } else if self.patch > other.patch {
            Some(Ordering::Greater)
        } else {
            Some(Ordering::Equal)
        }
    }
}

impl PartialOrdSpecImpl for Version {
    open spec fn obeys_partial_cmp_spec() -> bool {
        true
    }

    open spec fn partial_cmp_spec(&self, other: &Version) -> Option<Ordering> {
        if self.older_than(*other) {
            Some(Ordering::Less)
        } else if self.same_release(*other) {
            Some(Ordering::Equal)
        } else {
            Some(Ordering::Greater)
        }
    }
}

/// The order of versions does not look at the nightly flag: two versions of
/// the same release number are equal, and neither precedes the other,
/// whichever of them is a nightly.
pub proof fn lemma_order_ignores_nightly(
    major: u32,
    minor: u32,
    patch: u32,
    first: bool,
    second: bool,
)
    ensures
        ({
            let a = Version { major, minor, patch, is_nightly: first };
            let b = Version { major, minor, patch, is_nightly: second };
            &&& PartialEqSpec::eq_spec(&a, &b)
            &&& PartialOrdSpec::partial_cmp_spec(&a, &b) == Some(Ordering::Equal)
            &&& !a.older_than(b) && !b.older_than(a)
        }),
{
}

/// How a version compares to others depends on its release number alone.
pub proof fn lemma_order_goes_by_release(a: Version, b: Version, c: Version)
    requires
        a.same_release(b),
    ensures
        a.older_than(c) == b.older_than(c),
        c.older_than(a) == c.older_than(b),
        PartialOrdSpec::partial_cmp_spec(&a, &c) == PartialOrdSpec::partial_cmp_spec(&b, &c),
        PartialOrdSpec::partial_cmp_spec(&c, &a) == PartialOrdSpec::partial_cmp_spec(&c, &b),
{
}

/// The order of versions is total: of two versions exactly one of three
/// holds, that the first is older, that the second is older, or that they
/// are of the same release.
pub proof fn lemma_order_is_total(a: Version, b: Version)
    ensures
        a.older_than(b) || b.older_than(a) || a.same_release(b),
        !(a.older_than(b) && b.older_than(a)),
        !(a.older_than(b) && a.same_release(b)),
        !(b.older_than(a) && a.same_release(b)),
        a.at_least(b) || b.at_least(a),
{
}

/// The order of versions is transitive.
pub proof fn lemma_order_is_transitive(a: Version, b: Version, c: Version)
    ensures
        a.older_than(b) && b.older_than(c) ==> a.older_than(c),
        a.at_least(b) && b.at_least(c) ==> a.at_least(c),
        a.older_than(b) && c.at_least(b) ==> a.older_than(c),
{
}

} // verus!
