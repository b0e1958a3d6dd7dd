//! Access rights of a user page.

use vstd::prelude::*;

verus! {

/// A set over the flags user, read, write and execute.
#[derive(Clone, Copy, Debug, PartialEq, Eq, Structural)]
pub struct MapPermission {
    pub user: bool,
    pub read: bool,
    pub write: bool,
    pub execute: bool,
}

impl MapPermission {
    /// The set holding only the user flag.
    pub fn u() -> (r: MapPermission)
        ensures
            r.user && !r.read && !r.write && !r.execute,
    {
        MapPermission { user: true, read: false, write: false, execute: false }
    }

    /// The set holding only the read flag.
    pub fn r() -> (r: MapPermission)
        ensures
            r == read_flag(),
    {
        MapPermission { user: false, read: true, write: false, execute: false }
    }

    /// The set holding only the write flag.
    pub fn w() -> (r: MapPermission)
        ensures
            r == write_flag(),
    {
        MapPermission { user: false, read: false, write: true, execute: false }
    }

    /// The set holding only the execute flag.
    pub fn x() -> (r: MapPermission)
        ensures
            !r.user && !r.read && !r.write && r.execute,
    {
        MapPermission { user: false, read: false, write: false, execute: true }
    }

    /// Set union.
    pub fn union(&self, other: &MapPermission) -> (r: MapPermission)
        ensures
            r.user == (self.user || other.user),
            r.read == (self.read || other.read),
            r.write == (self.write || other.write),
            r.execute == (self.execute || other.execute),
    {
        MapPermission {
            user: self.user || other.user,
            read: self.read || other.read,
            write: self.write || other.write,
            execute: self.execute || other.execute,
        }
    }

    /// Whether every flag of `other` is in `self`.
    pub fn contains(&self, other: &MapPermission) -> (r: bool)
        ensures
            r == self.spec_contains(*other),
    {
        (self.user || !other.user) && (self.read || !other.read) && (self.write || !other.write)
            && (self.execute || !other.execute)
    }

    pub open spec fn spec_contains(self, other: MapPermission) -> bool {
        &&& other.user ==> self.user
        &&& other.read ==> self.read
        &&& other.write ==> self.write
        &&& other.execute ==> self.execute
    }
}

/// The set holding only the read flag.
pub open spec fn read_flag() -> MapPermission {
    MapPermission { user: false, read: true, write: false, execute: false }
}

/// The set holding only the write flag.
pub open spec fn write_flag() -> MapPermission {
    MapPermission { user: false, read: false, write: true, execute: false }
}

/// Whether `port` is a valid permission request: no bit above the low three,
/// and at least one of them.
pub open spec fn port_valid(port: usize) -> bool {
    port & !0x7usize == 0 && port & 0x7usize != 0
}

/// The permission that a valid `port` asks for: bit 0 read, bit 1 write,
/// bit 2 execute, and always user.
pub open spec fn port_permission(port: usize) -> MapPermission {
    MapPermission {
        user: true,
        read: port & 0x1usize != 0,
        write: port & 0x2usize != 0,
        execute: port & 0x4usize != 0,
    }
}

/// Decodes the permission bits of a mapping request; `None` when bits other
/// than the low three are set or none of them is.
pub fn decode_port(port: usize) -> (r: Option<MapPermission>)
    ensures
        r == (if port_valid(port) { Some(port_permission(port)) } else { None::<MapPermission> }),
{
    if port & !0x7 != 0 || port & 0x7 == 0 {
        return None;
    }
    let mut permission = MapPermission::u();
    if port & 0x1 != 0 {
        permission = permission.union(&MapPermission::r());
    }
    if port & 0x2 != 0 {
        permission = permission.union(&MapPermission::w());
    }
    if port & 0x4 != 0 {
        permission = permission.union(&MapPermission::x());
    }
    Some(permission)
}

} // verus!
