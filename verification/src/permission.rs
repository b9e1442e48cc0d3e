use vstd::prelude::*;

verus! {

/// What a task may do with a mapped page: a set over reading, writing,
/// executing and access from user mode.
#[derive(Clone, Copy, Debug, PartialEq, Eq, Structural)]
pub struct MapPermission {
    pub readable: bool,
    pub writable: bool,
    pub executable: bool,
    pub user: bool,
}

impl MapPermission {
    /// The set with every member of `self` and every member of `other`.
    pub open spec fn spec_union(self, other: MapPermission) -> MapPermission {
        MapPermission {
            readable: self.readable || other.readable,
            writable: self.writable || other.writable,
            executable: self.executable || other.executable,
            user: self.user || other.user,
        }
    }

    /// Whether every member of `other` is a member of `self`.
    pub open spec fn spec_contains(self, other: MapPermission) -> bool {
        &&& other.readable ==> self.readable
        &&& other.writable ==> self.writable
        &&& other.executable ==> self.executable
        &&& other.user ==> self.user
    }

    /// Whether the hardware can hold this set in a page-table entry: a page
    /// that can be written can also be read.
    pub open spec fn legal(self) -> bool {
        self.writable ==> self.readable
    }

    /// The set without members.
    pub fn empty() -> (p: MapPermission)
        ensures
            p == (MapPermission { readable: false, writable: false, executable: false, user: false }),
    {
        MapPermission { readable: false, writable: false, executable: false, user: false }
    }

    /// The set that holds reading alone.
    pub fn read() -> (p: MapPermission)
        ensures
            p == (MapPermission { readable: true, writable: false, executable: false, user: false }),
    {
        MapPermission { readable: true, writable: false, executable: false, user: false }
    }

    /// The set that holds writing alone.
    pub fn write() -> (p: MapPermission)
        ensures
            p == (MapPermission { readable: false, writable: true, executable: false, user: false }),
    {
        MapPermission { readable: false, writable: true, executable: false, user: false }
    }

    /// The set that holds executing alone.
    pub fn execute() -> (p: MapPermission)
        ensures
            p == (MapPermission { readable: false, writable: false, executable: true, user: false }),
    {
        MapPermission { readable: false, writable: false, executable: true, user: false }
    }

    /// The set that holds access from user mode alone.
    pub fn user() -> (p: MapPermission)
        ensures
            p == (MapPermission { readable: false, writable: false, executable: false, user: true }),
    {
        MapPermission { readable: false, writable: false, executable: false, user: true }
    }

    #[verifier::when_used_as_spec(spec_union)]
    pub fn union(self, other: MapPermission) -> (p: MapPermission)
        ensures
            p == self.spec_union(other),
    {
        MapPermission {
            readable: self.readable || other.readable,
            writable: self.writable || other.writable,
            executable: self.executable || other.executable,
            user: self.user || other.user,
        }
    }

    #[verifier::when_used_as_spec(spec_contains)]
    pub fn contains(self, other: MapPermission) -> (yes: bool)
        ensures
            yes == self.spec_contains(other),
    {
        (!other.readable || self.readable) && (!other.writable || self.writable) && (
        !other.executable || self.executable) && (!other.user || self.user)
    }
}

} // verus!
