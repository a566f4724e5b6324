//! Role and group classifications shared across the service.

use vstd::prelude::*;

verus! {

/// The privilege level a user account holds.
#[derive(Clone, Copy, Debug, PartialEq, Eq, Structural)]
pub enum UserRole {
    ADMIN,
    SUPER,
    NORMAL,
}

/// The flavour of a messaging group.
#[derive(Clone, Copy, Debug, PartialEq, Eq, Structural)]
pub enum GroupType {
    CHANNEL,
    ROOM,
    TEAM,
}

} // verus!
