//! Dynamic roles: named bundles of permissions, managed as a collection.
//!
//! A [`Role`] pairs a name with the permissions it grants; a [`RoleManager`]
//! keeps the collection of roles and supports creation, lookup, update and
//! deletion by name.

use vstd::prelude::*;

verus! {

broadcast use {vstd::seq_lib::group_seq_lib_default, vstd::seq::Seq::lemma_filter_push};

/// A permission a role may grant.
#[derive(Debug, Clone)]
pub enum Permission {
    /// Full access.
    ALL,
    /// Group-level access.
    GROUP,
    /// Access for others.
    OTHERS,
    /// Owner-only access.
    OWNER,
    /// A dynamically named custom permission.
    Custom(String),
}

/// The mathematical value of a [`Permission`].
#[verifier::ext_equal]
pub enum PermView {
    All,
    Group,
    Others,
    Owner,
    Custom(Seq<char>),
}

impl View for Permission {
    type V = PermView;

    open spec fn view(&self) -> PermView {
        match self {
            Permission::ALL => PermView::All,
            Permission::GROUP => PermView::Group,
            Permission::OTHERS => PermView::Others,
            Permission::OWNER => PermView::Owner,
            Permission::Custom(s) => PermView::Custom(s@),
        }
    }
}

impl PartialEq for Permission {
    fn eq(&self, other: &Permission) -> (r: bool) {
        match (self, other) {
            (Permission::ALL, Permission::ALL) => true,
            (Permission::GROUP, Permission::GROUP) => true,
            (Permission::OTHERS, Permission::OTHERS) => true,
            (Permission::OWNER, Permission::OWNER) => true,
            (Permission::Custom(a), Permission::Custom(b)) => *a == *b,
            _ => false,
        }
    }
}

impl vstd::std_specs::cmp::PartialEqSpecImpl for Permission {
    open spec fn obeys_eq_spec() -> bool {
        true
    }

    open spec fn eq_spec(&self, other: &Permission) -> bool {
        self@ == other@
    }
}

impl Permission {
    /// Copies the permission, custom name included.
    pub fn clone_permission(&self) -> (copy: Permission)
        ensures
            copy@ == self@,
    {
        match self {
            Permission::ALL => Permission::ALL,
            Permission::GROUP => Permission::GROUP,
            Permission::OTHERS => Permission::OTHERS,
            Permission::OWNER => Permission::OWNER,
            Permission::Custom(s) => Permission::Custom(s.clone()),
        }
    }
}

/// The view of a permission sequence.
pub open spec fn perms_view(s: Seq<Permission>) -> Seq<PermView> {
    s.map_values(|p: Permission| p@)
}

/// A role: a name and the permissions it grants.
#[derive(Debug, Clone)]
pub struct Role {
    name: String,
    permissions: Vec<Permission>,
}

/// The mathematical value of a [`Role`].
#[verifier::ext_equal]
pub struct RoleView {
    /// The role's name.
    pub name: Seq<char>,
    /// The permissions the role grants.
    pub perms: Seq<PermView>,
}

impl View for Role {
    type V = RoleView;

    closed spec fn view(&self) -> RoleView {
        RoleView { name: self.name@, perms: perms_view(self.permissions@) }
    }
}

impl Role {
    /// Creates a new role with the given name and permissions.
    pub fn new(name: &str, permissions: Vec<Permission>) -> (role: Role)
        ensures
            role@.name == name@,
            role@.perms == perms_view(permissions@),
    {
        Role { name: name.to_owned(), permissions }
    }

    /// Checks whether the role grants a specific permission.
    pub fn can_access(&self, permission: &Permission) -> (granted: bool)
        ensures
            granted == self@.perms.contains(permission@),
    {
        let mut i: usize = 0;
        while i < self.permissions.len()
            invariant
                i <= self.permissions@.len(),
                forall|j: int| 0 <= j < i ==> self@.perms[j] != permission@,
            decreases self.permissions@.len() - i,
        {
            if &self.permissions[i] == permission {
                assert(self@.perms[i as int] == permission@);
                return true;
            }
            i += 1;
        }
        false
    }

    /// Adds a permission to the role, unless it is already granted.
    pub fn add_permission(&mut self, permission: Permission)
        ensures
            old(self)@.perms.contains(permission@) ==> final(self)@ == old(self)@,
            !old(self)@.perms.contains(permission@) ==> {
                &&& final(self)@.name == old(self)@.name
                &&& final(self)@.perms == old(self)@.perms.push(permission@)
            },
    {
        if !self.can_access(&permission) {
            self.permissions.push(permission);
            assert(self@.perms =~= old(self)@.perms.push(permission@));
        }
    }

    /// Removes every occurrence of a permission from the role.
    pub fn remove_permission(&mut self, permission: &Permission)
        ensures
            final(self)@.name == old(self)@.name,
            final(self)@.perms == old(self)@.perms.filter(|p: PermView| p != permission@),
    {
        let ghost pred = |p: PermView| p != permission@;
        let mut kept: Vec<Permission> = Vec::new();
        let mut i: usize = 0;
        while i < self.permissions.len()
            invariant
                i <= self.permissions@.len(),
                perms_view(kept@) == self@.perms.subrange(0, i as int).filter(pred),
                pred == (|p: PermView| p != permission@),
            decreases self.permissions@.len() - i,
        {
            let ghost prefix = self@.perms.subrange(0, i as int);
            let ghost kept_before = perms_view(kept@);
            assert(self@.perms.subrange(0, i as int + 1) =~= prefix.push(
                self@.perms[i as int],
            ));
            if !(&self.permissions[i] == permission) {
                kept.push(self.permissions[i].clone_permission());
                assert(perms_view(kept@) =~= kept_before.push(self@.perms[i as int]));
            }
            i += 1;
        }
        assert(self@.perms.subrange(0, self@.perms.len() as int) =~= self@.perms);
        self.permissions = kept;
    }

    /// Returns the role's name.
    pub fn name(&self) -> (name: &str)
        ensures
            name@ == self@.name,
    {
        self.name.as_str()
    }

    /// Returns the role's permissions.
    pub fn permissions(&self) -> (perms: &Vec<Permission>)
        ensures
            perms_view(perms@) == self@.perms,
    {
        &self.permissions
    }

    /// Copies the role, name and permissions included.
    pub fn clone_role(&self) -> (copy: Role)
        ensures
            copy@ == self@,
    {
        let mut perms: Vec<Permission> = Vec::new();
        let mut i: usize = 0;
        while i < self.permissions.len()
            invariant
                i <= self.permissions@.len(),
                perms_view(perms@) == self@.perms.subrange(0, i as int),
            decreases self.permissions@.len() - i,
        {
            let ghost before = perms_view(perms@);
            perms.push(self.permissions[i].clone_permission());
            assert(perms_view(perms@) =~= before.push(self@.perms[i as int]));
            assert(self@.perms.subrange(0, i as int + 1) =~= self@.perms.subrange(
                0,
                i as int,
            ).push(self@.perms[i as int]));
            i += 1;
        }
        assert(self@.perms.subrange(0, self@.perms.len() as int) =~= self@.perms);
        let copy = Role { name: self.name.clone(), permissions: perms };
        assert(copy@ =~= self@);
        copy
    }
}

/// Manages a collection of roles.
#[derive(Debug)]
pub struct RoleManager {
    roles: Vec<Role>,
}

impl View for RoleManager {
    type V = Seq<RoleView>;

    closed spec fn view(&self) -> Seq<RoleView> {
        self.roles@.map_values(|r: Role| r@)
    }
}

impl RoleManager {
    /// Creates an empty manager.
    pub fn new() -> (manager: RoleManager)
        ensures
            manager@ == Seq::<RoleView>::empty(),
    {
        let manager = RoleManager { roles: Vec::new() };
        assert(manager@ =~= Seq::<RoleView>::empty());
        manager
    }

    /// Adds a new role and returns a reference to it.
    pub fn create_role(&mut self, name: &str, permissions: Vec<Permission>) -> (role: &Role)
        ensures
            final(self)@ == old(self)@.push(role@),
            role@.name == name@,
            role@.perms == perms_view(permissions@),
    {
        let role = Role::new(name, permissions);
        self.roles.push(role);
        assert(self@ =~= old(self)@.push(self.roles@[self.roles@.len() - 1]@));
        let last = self.roles.len() - 1;
        &self.roles[last]
    }

    /// Finds the first role with the given name.
    pub fn get_role(&self, name: &str) -> (found: Option<&Role>)
        ensures
            match found {
                Some(role) => exists|i: int|
                    0 <= i < self@.len() && self@[i] == role@ && #[trigger] self@[i].name == name@,
                None => forall|i: int| 0 <= i < self@.len() ==> self@[i].name != name@,
            },
    {
        let want: String = name.to_owned();
        let mut i: usize = 0;
        while i < self.roles.len()
            invariant
                i <= self@.len(),
                want@ == name@,
                forall|j: int| 0 <= j < i ==> self@[j].name != name@,
            decreases self@.len() - i,
        {
            if self.roles[i].name == want {
                assert(self@[i as int].name == name@);
                return Some(&self.roles[i]);
            }
            i += 1;
        }
        None
    }

    /// Replaces the permissions of the first role with the given name.
    /// Returns whether such a role exists.
    pub fn update_role_permissions(&mut self, name: &str, permissions: Vec<Permission>) -> (updated:
        bool)
        ensures
            updated == exists|i: int|
                0 <= i < old(self)@.len() && #[trigger] old(self)@[i].name == name@,
            !updated ==> final(self)@ == old(self)@,
            updated ==> exists|i: int|
                {
                    &&& 0 <= i < old(self)@.len()
                    &&& #[trigger] old(self)@[i].name == name@
                    &&& forall|j: int| 0 <= j < i ==> old(self)@[j].name != name@
                    &&& final(self)@ == old(self)@.update(
                        i,
                        RoleView { name: old(self)@[i].name, perms: perms_view(permissions@) },
                    )
                },
    {
        let want: String = name.to_owned();
        let mut i: usize = 0;
        while i < self.roles.len()
            invariant
                i <= self@.len(),
                want@ == name@,
                self@ == old(self)@,
                forall|j: int| 0 <= j < i ==> self@[j].name != name@,
            decreases self@.len() - i,
        {
            if self.roles[i].name == want {
                assert(old(self)@[i as int].name == name@);
                let updated_role = Role { name: self.roles[i].name.clone(), permissions };
                self.roles[i] = updated_role;
                assert(self@ =~= old(self)@.update(
                    i as int,
                    RoleView { name: old(self)@[i as int].name, perms: perms_view(permissions@) },
                ));
                return true;
            }
            i += 1;
        }
        false
    }

    /// Deletes every role with the given name. Returns whether any was removed.
    pub fn delete_role(&mut self, name: &str) -> (deleted: bool)
        ensures
            final(self)@ == old(self)@.filter(|r: RoleView| r.name != name@),
            deleted == exists|i: int|
                0 <= i < old(self)@.len() && #[trigger] old(self)@[i].name == name@,
    {
        let ghost pred = |r: RoleView| r.name != name@;
        let want: String = name.to_owned();
        let mut kept: Vec<Role> = Vec::new();
        let mut found = false;
        let mut i: usize = 0;
        while i < self.roles.len()
            invariant
                i <= self@.len(),
                want@ == name@,
                kept@.map_values(|r: Role| r@) == self@.subrange(0, i as int).filter(pred),
                pred == (|r: RoleView| r.name != name@),
                found == exists|j: int| 0 <= j < i && #[trigger] self@[j].name == name@,
            decreases self@.len() - i,
        {
            let ghost prefix = self@.subrange(0, i as int);
            let ghost kept_before = kept@.map_values(|r: Role| r@);
            assert(self@.subrange(0, i as int + 1) =~= prefix.push(self@[i as int]));
            if self.roles[i].name == want {
                assert(self@[i as int].name == name@);
                found = true;
            } else {
                kept.push(self.roles[i].clone_role());
                assert(kept@.map_values(|r: Role| r@) =~= kept_before.push(self@[i as int]));
            }
            i += 1;
        }
        assert(self@.subrange(0, self@.len() as int) =~= self@);
        self.roles = kept;
        found
    }

    /// Lists all roles.
    pub fn list_roles(&self) -> (roles: &Vec<Role>)
        ensures
            roles@.map_values(|r: Role| r@) == self@,
    {
        &self.roles
    }
}

impl Default for RoleManager {
    /// An empty manager.
    fn default() -> (manager: RoleManager)
        ensures
            manager@ == Seq::<RoleView>::empty(),
    {
        RoleManager::new()
    }
}

} // verus!
