//! Collaborator roles and what they allow.

use vstd::prelude::*;
use vstd::string::*;
use crate::text::{lowercase, lower_of, str_eq, str_contains, seq_contains};

verus! {

/// A user's permission level on a repository.
#[derive(Debug, Clone, Copy, PartialEq, Eq, Structural)]
pub enum CollaboratorRole {
    Admin,
    Maintain,
    Write,
    Triage,
    Read,
    NoRole,
}

impl CollaboratorRole {
    pub open spec fn spec_has_write_access(self) -> bool {
        self == CollaboratorRole::Admin || self == CollaboratorRole::Maintain || self
            == CollaboratorRole::Write
    }

    pub open spec fn spec_is_maintainer(self) -> bool {
        self == CollaboratorRole::Admin || self == CollaboratorRole::Maintain
    }

    /// Admin, maintain or write.
    pub fn has_write_access(&self) -> (r: bool)
        ensures
            r == self.spec_has_write_access(),
    {
        match self {
            CollaboratorRole::Admin | CollaboratorRole::Maintain | CollaboratorRole::Write => true,
            _ => false,
        }
    }

    /// Admin or maintain.
    pub fn is_maintainer(&self) -> (r: bool)
        ensures
            r == self.spec_is_maintainer(),
    {
        match self {
            CollaboratorRole::Admin | CollaboratorRole::Maintain => true,
            _ => false,
        }
    }
}

/// The role a lower-case permission name denotes.
pub open spec fn role_named(p: Seq<char>) -> CollaboratorRole {
    if p == "admin"@ {
        CollaboratorRole::Admin
    } else if p == "maintain"@ {
        CollaboratorRole::Maintain
    } else if p == "write"@ || p == "push"@ {
        CollaboratorRole::Write
    } else if p == "triage"@ {
        CollaboratorRole::Triage
    } else if p == "read"@ || p == "pull"@ {
        CollaboratorRole::Read
    } else {
        CollaboratorRole::NoRole
    }
}

/// The role that the forge's permission name gives, case aside; an unknown
/// name gives no role.
pub fn role_from_permission(permission: &str) -> (r: CollaboratorRole)
    ensures
        r == role_named(lower_of(permission@)),
{
    let p = lowercase(permission);
    role_from_lower(p.as_str())
}

/// The role an already lower-cased permission name denotes.
pub fn role_from_lower(p: &str) -> (r: CollaboratorRole)
    ensures
        r == role_named(p@),
{
    if str_eq(p, "admin") {
        CollaboratorRole::Admin
    } else if str_eq(p, "maintain") {
        CollaboratorRole::Maintain
    } else if str_eq(p, "write") || str_eq(p, "push") {
        CollaboratorRole::Write
    } else if str_eq(p, "triage") {
        CollaboratorRole::Triage
    } else if str_eq(p, "read") || str_eq(p, "pull") {
        CollaboratorRole::Read
    } else {
        CollaboratorRole::NoRole
    }
}

/// What the forge answered to a permission query.
#[derive(Debug, Clone)]
pub enum RoleLookup {
    /// The user's permission name.
    Permission(String),
    /// The forge refused the query with this message.
    ApiError(String),
    /// The query did not reach the forge.
    Transport(String),
}

/// Why no role could be resolved.
#[derive(Debug, Clone)]
pub enum RoleError {
    Unresolved(String),
}

/// A refusal that means the user is not a collaborator.
pub open spec fn is_not_found(message: Seq<char>) -> bool {
    seq_contains(message, "404"@) || seq_contains(message, "Not Found"@)
}

/// The role a permission query yields: the named permission; no role when
/// the forge answers that the user is not a collaborator; none otherwise.
pub open spec fn resolved_role(lookup: RoleLookup) -> Option<CollaboratorRole> {
    match lookup {
        RoleLookup::Permission(p) => Some(role_named(lower_of(p@))),
        RoleLookup::ApiError(m) => if is_not_found(m@) {
            Some(CollaboratorRole::NoRole)
        } else {
            None
        },
        RoleLookup::Transport(_) => None,
    }
}

/// Resolve a permission query; an unresolved one is an error, which callers
/// treat as untrusted.
pub fn resolve_role(lookup: &RoleLookup) -> (r: Result<CollaboratorRole, RoleError>)
    ensures
        resolved_role(*lookup) matches Some(ro) ==> r matches Ok(got) && got == ro,
        resolved_role(*lookup) is None ==> r is Err,
{
    match lookup {
        RoleLookup::Permission(p) => Ok(role_from_permission(p.as_str())),
        RoleLookup::ApiError(m) => {
            if str_contains(m.as_str(), "404") || str_contains(m.as_str(), "Not Found") {
                Ok(CollaboratorRole::NoRole)
            } else {
                Err(RoleError::Unresolved(m.clone()))
            }
        },
        RoleLookup::Transport(m) => Err(RoleError::Unresolved(m.clone())),
    }
}

/// The role the pipelines act on: a failed lookup counts as untrusted.
pub fn trusted_role(lookup: &RoleLookup) -> (r: Option<CollaboratorRole>)
    ensures
        r == resolved_role(*lookup),
{
    match resolve_role(lookup) {
        Ok(ro) => Some(ro),
        Err(_) => None,
    }
}

} // verus!
