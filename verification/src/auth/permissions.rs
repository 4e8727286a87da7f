//! Instance roles and what each role may do.
use vstd::prelude::*;

use crate::instances::{ErrorKind, InstanceError};

verus! {

/// A member's role on one instance.
#[derive(Clone, Copy, PartialEq, Eq, Debug)]
pub enum Role {
    Owner,
    Operator,
    Viewer,
}

/// An operation that needs a permission.
#[derive(Clone, Copy, PartialEq, Eq, Debug)]
pub enum Permission {
    View,
    Control,
    Download,
    Delete,
}

/// What a role may do.
#[derive(Clone, Copy, PartialEq, Eq, Debug)]
pub struct Permissions {
    pub view: bool,
    pub control: bool,
    pub download: bool,
    pub delete: bool,
    pub manage_access: bool,
}

/// Every role may view; owners and operators may control; only owners may
/// download, delete and manage access.
pub open spec fn role_permissions(role: Role) -> Permissions {
    Permissions {
        view: true,
        control: role == Role::Owner || role == Role::Operator,
        download: role == Role::Owner,
        delete: role == Role::Owner,
        manage_access: role == Role::Owner,
    }
}

/// Whether `permissions` grant `permission`.
pub open spec fn grants(permissions: Permissions, permission: Permission) -> bool {
    match permission {
        Permission::View => permissions.view,
        Permission::Control => permissions.control,
        Permission::Download => permissions.download,
        Permission::Delete => permissions.delete,
    }
}

/// The role a stored role name stands for: `owner`, `operator` or `viewer`.
pub open spec fn role_named(name: Seq<char>) -> Option<Role> {
    if name == "owner"@ {
        Some(Role::Owner)
    } else if name == "operator"@ {
        Some(Role::Operator)
    } else if name == "viewer"@ {
        Some(Role::Viewer)
    } else {
        None
    }
}

/// The rank of a role: a role may do everything a lower-ranked role may.
pub open spec fn rank(role: Role) -> int {
    match role {
        Role::Viewer => 0,
        Role::Operator => 1,
        Role::Owner => 2,
    }
}

impl Role {
    /// What this role may do.
    pub fn permissions(self) -> (r: Permissions)
        ensures
            r == role_permissions(self),
    {
        Permissions {
            view: true,
            control: match self {
                Role::Owner | Role::Operator => true,
                Role::Viewer => false,
            },
            download: match self {
                Role::Owner => true,
                _ => false,
            },
            delete: match self {
                Role::Owner => true,
                _ => false,
            },
            manage_access: match self {
                Role::Owner => true,
                _ => false,
            },
        }
    }
}

impl Permissions {
    /// Whether these permissions grant `permission`.
    pub fn allows(&self, permission: Permission) -> (r: bool)
        ensures
            r == grants(*self, permission),
    {
        match permission {
            Permission::View => self.view,
            Permission::Control => self.control,
            Permission::Download => self.download,
            Permission::Delete => self.delete,
        }
    }
}

/// The role a stored role name stands for.
pub fn parse_role(name: &str) -> (r: Option<Role>)
    ensures
        r == role_named(name@),
{
    if crate::text::str_eq(name, "owner") {
        Some(Role::Owner)
    } else if crate::text::str_eq(name, "operator") {
        Some(Role::Operator)
    } else if crate::text::str_eq(name, "viewer") {
        Some(Role::Viewer)
    } else {
        None
    }
}

/// The message for an instance that the caller is not a member of.
pub open spec fn no_such_instance() -> Seq<char> {
    "No such instance"@
}

/// The message for a role that does not permit an operation.
pub open spec fn role_forbids() -> Seq<char> {
    "Your role does not permit this operation"@
}

/// Decides an access check from the caller's stored role on the instance
/// (`None` when the caller is neither owner nor member, or the instance does
/// not exist): an unknown or missing role is answered as a missing instance,
/// a role that lacks `permission` as forbidden, and otherwise the role is
/// returned.
pub fn check_access(role_name: Option<&str>, permission: Permission) -> (r: Result<Role, InstanceError>)
    ensures
        match role_name {
            Some(name) => role_named(name@) is Some,
            None => false,
        } ==> {
            let role = role_named(role_name->0@)->0;
            if grants(role_permissions(role), permission) {
                r == Ok::<Role, InstanceError>(role)
            } else {
                r matches Err(e) && e.kind == ErrorKind::Forbidden && e.message@ == role_forbids()
            }
        },
        !(match role_name {
            Some(name) => role_named(name@) is Some,
            None => false,
        }) ==> (r matches Err(e) && e.kind == ErrorKind::NotFound && e.message@ == no_such_instance()),
{
    let role = match role_name {
        Some(name) => parse_role(name),
        None => None,
    };
    let role = match role {
        Some(role) => role,
        None => {
            return Err(InstanceError { kind: ErrorKind::NotFound, message: String::from_str("No such instance") });
        },
    };
    let permissions = role.permissions();
    if !permissions.allows(permission) {
        return Err(
            InstanceError {
                kind: ErrorKind::Forbidden,
                message: String::from_str("Your role does not permit this operation"),
            },
        );
    }
    Ok(role)
}

/// Roles are ordered: a role permits everything that a lower-ranked role
/// permits, and every role may view.
pub proof fn lemma_roles_are_ordered(lower: Role, higher: Role, permission: Permission)
    requires
        rank(lower) <= rank(higher),
        grants(role_permissions(lower), permission),
    ensures
        grants(role_permissions(higher), permission),
        grants(role_permissions(lower), Permission::View),
{
}

/// The owner may do everything; a viewer may only view.
pub proof fn lemma_owner_all_viewer_view_only(permission: Permission)
    ensures
        grants(role_permissions(Role::Owner), permission),
        role_permissions(Role::Owner).manage_access,
        grants(role_permissions(Role::Viewer), permission) <==> permission == Permission::View,
        !role_permissions(Role::Viewer).manage_access,
        !role_permissions(Role::Operator).manage_access,
{
}

} // verus!
