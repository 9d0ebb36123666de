//! Permission flags and their stored integer codes.

use vstd::prelude::*;
use crate::error::DbFault;

verus! {

/// A capability flag that an adventurer may hold.
#[derive(Debug, Copy, Clone, PartialEq, Eq, Structural)]
pub enum PermissionType {
    SuperUser,
    Approved,
    GuildLeaderEligible,
    Rejected,
}

impl PermissionType {
    /// The integer under which this flag is stored.
    pub open spec fn spec_code(self) -> int {
        match self {
            PermissionType::SuperUser => 0,
            PermissionType::Approved => 1,
            PermissionType::GuildLeaderEligible => 2,
            PermissionType::Rejected => 3,
        }
    }

    /// The flag stored under `x`, if `x` is one of the four codes.
    pub open spec fn spec_extract(x: int) -> Option<PermissionType> {
        if x == 0 {
            Some(PermissionType::SuperUser)
        } else if x == 1 {
            Some(PermissionType::Approved)
        } else if x == 2 {
            Some(PermissionType::GuildLeaderEligible)
        } else if x == 3 {
            Some(PermissionType::Rejected)
        } else {
            None
        }
    }

    /// The integer under which this flag is stored.
    pub fn code(self) -> (c: i64)
        ensures
            c == self.spec_code(),
    {
        match self {
            PermissionType::SuperUser => 0,
            PermissionType::Approved => 1,
            PermissionType::GuildLeaderEligible => 2,
            PermissionType::Rejected => 3,
        }
    }

    /// The flag that cannot be held together with this one.
    pub open spec fn spec_conflict(self) -> Option<PermissionType> {
        match self {
            PermissionType::Approved => Some(PermissionType::Rejected),
            PermissionType::Rejected => Some(PermissionType::Approved),
            _ => None,
        }
    }

    /// The flag that cannot be held together with this one.
    pub fn conflict(self) -> (c: Option<PermissionType>)
        ensures
            c == self.spec_conflict(),
    {
        match self {
            PermissionType::Approved => Some(PermissionType::Rejected),
            PermissionType::Rejected => Some(PermissionType::Approved),
            _ => None,
        }
    }

    /// Reads a stored integer as a flag, refusing anything but the four
    /// codes.
    pub fn column_result(code: i64) -> (r: Result<PermissionType, DbFault>)
        ensures
            r == match Self::spec_extract(code as int) {
                Some(perm) => Ok::<PermissionType, DbFault>(perm),
                None => Err(DbFault::OutOfRange(code)),
            },
    {
        match Self::extract(code) {
            Some(perm) => Ok(perm),
            None => Err(DbFault::OutOfRange(code)),
        }
    }

    /// A flag is stored under the code from which it is read back.
    pub proof fn lemma_code_round_trip(self)
        ensures
            Self::spec_extract(self.spec_code()) == Some(self),
    {
    }

    /// Decodes a stored integer; `None` for anything but the four codes.
    pub fn extract(x: i64) -> (r: Option<PermissionType>)
        ensures
            r == Self::spec_extract(x as int),
    {
        if x == 0 {
            Some(PermissionType::SuperUser)
        } else if x == 1 {
            Some(PermissionType::Approved)
        } else if x == 2 {
            Some(PermissionType::GuildLeaderEligible)
        } else if x == 3 {
            Some(PermissionType::Rejected)
        } else {
            None
        }
    }
}

} // verus!
