use filecoin_rs::roles::{Permission, Role, RoleManager};

#[test]
fn test_dynamic_roles() {
    let mut manager = RoleManager::new();

    // Create a role dynamically
    let admin_perms = vec![Permission::ALL, Permission::OWNER];
    manager.create_role("admin", admin_perms);

    // Create another role
    let user_perms = vec![Permission::GROUP, Permission::OTHERS];
    manager.create_role("user", user_perms);

    // Check permissions
    let admin = manager.get_role("admin").unwrap();
    assert!(admin.can_access(&Permission::ALL));
    assert!(!admin.can_access(&Permission::GROUP));

    let user = manager.get_role("user").unwrap();
    assert!(user.can_access(&Permission::GROUP));
    assert!(!user.can_access(&Permission::ALL));

    // Update a role
    manager.update_role_permissions("user", vec![Permission::ALL]);
    let updated_user = manager.get_role("user").unwrap();
    assert!(updated_user.can_access(&Permission::ALL));
}

#[test]
fn role_add_and_remove_permission() {
    let mut role = Role::new("ops", vec![Permission::GROUP]);
    assert_eq!(role.name(), "ops");
    assert!(!role.can_access(&Permission::ALL));

    role.add_permission(Permission::ALL);
    assert!(role.can_access(&Permission::ALL));
    assert_eq!(role.permissions().len(), 2);

    // Adding a granted permission is a no-op.
    role.add_permission(Permission::ALL);
    assert_eq!(role.permissions().len(), 2);

    role.remove_permission(&Permission::ALL);
    assert!(!role.can_access(&Permission::ALL));
    assert!(role.can_access(&Permission::GROUP));
}

#[test]
fn custom_permissions_compare_by_name() {
    let role = Role::new("audit", vec![Permission::Custom(String::from("read-logs"))]);
    assert!(role.can_access(&Permission::Custom(String::from("read-logs"))));
    assert!(!role.can_access(&Permission::Custom(String::from("write-logs"))));
    assert!(!role.can_access(&Permission::OWNER));
}

#[test]
fn delete_role_removes_by_name() {
    let mut manager = RoleManager::new();
    manager.create_role("a", vec![Permission::ALL]);
    manager.create_role("b", vec![Permission::GROUP]);
    assert_eq!(manager.list_roles().len(), 2);

    assert!(manager.delete_role("a"));
    assert!(manager.get_role("a").is_none());
    assert_eq!(manager.list_roles().len(), 1);

    // Deleting an absent role reports false and changes nothing.
    assert!(!manager.delete_role("a"));
    assert_eq!(manager.list_roles().len(), 1);
}

#[test]
fn update_missing_role_reports_false() {
    let mut manager = RoleManager::new();
    assert!(!manager.update_role_permissions("ghost", vec![Permission::ALL]));
    assert!(manager.get_role("ghost").is_none());
}

#[test]
fn clone_role_is_deep() {
    let role = Role::new("ops", vec![Permission::OWNER, Permission::Custom(String::from("x"))]);
    let copy = role.clone_role();
    assert_eq!(copy.name(), "ops");
    assert!(copy.can_access(&Permission::OWNER));
    assert!(copy.can_access(&Permission::Custom(String::from("x"))));
}
