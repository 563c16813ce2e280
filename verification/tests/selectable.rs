use add_user_to_group::group::contains_group_id;
use add_user_to_group::group::derive_selectable_list;
use add_user_to_group::group::find_group_by_id;
use add_user_to_group::Group;

fn g(id: i64, name: &str) -> Group {
    Group { id, display_name: name.to_string() }
}

#[test]
fn scenario_catalog_minus_assigned() {
    let catalog = vec![g(1, "Admins"), g(2, "Users"), g(3, "Guests")];
    let assigned = vec![g(2, "Users")];
    let selectable = derive_selectable_list(&catalog, &assigned);
    assert_eq!(selectable, vec![g(1, "Admins"), g(3, "Guests")]);
}

#[test]
fn selectable_excludes_by_id_only() {
    // membership is by identity: a differing display name does not matter
    let catalog = vec![g(1, "Admins"), g(2, "Users")];
    let assigned = vec![g(2, "Renamed")];
    let selectable = derive_selectable_list(&catalog, &assigned);
    assert_eq!(selectable, vec![g(1, "Admins")]);
}

#[test]
fn selectable_preserves_catalog_order() {
    let catalog = vec![g(5, "E"), g(3, "C"), g(4, "D"), g(1, "A"), g(2, "B")];
    let assigned = vec![g(3, "C"), g(1, "A")];
    let selectable = derive_selectable_list(&catalog, &assigned);
    assert_eq!(selectable, vec![g(5, "E"), g(4, "D"), g(2, "B")]);
}

#[test]
fn selectable_size_is_catalog_minus_intersection() {
    let catalog = vec![g(1, "A"), g(2, "B"), g(3, "C"), g(4, "D")];
    let assigned = vec![g(2, "B"), g(4, "D"), g(9, "unrelated")];
    let selectable = derive_selectable_list(&catalog, &assigned);
    assert_eq!(selectable.len(), catalog.len() - 2);
}

#[test]
fn selectable_of_empty_catalog_is_empty() {
    let selectable = derive_selectable_list(&Vec::new(), &vec![g(1, "A")]);
    assert!(selectable.is_empty());
}

#[test]
fn selectable_with_nothing_assigned_is_whole_catalog() {
    let catalog = vec![g(1, "A"), g(2, "B")];
    let selectable = derive_selectable_list(&catalog, &Vec::new());
    assert_eq!(selectable, catalog);
}

#[test]
fn selectable_with_everything_assigned_is_empty() {
    let catalog = vec![g(1, "A"), g(2, "B")];
    let selectable = derive_selectable_list(&catalog, &catalog);
    assert!(selectable.is_empty());
}

#[test]
fn contains_group_id_reports_membership() {
    let groups = vec![g(1, "A"), g(3, "C")];
    assert!(contains_group_id(&groups, 3));
    assert!(!contains_group_id(&groups, 2));
    assert!(!contains_group_id(&Vec::new(), 1));
}

#[test]
fn find_group_by_id_returns_first_match() {
    let groups = vec![g(1, "A"), g(3, "C")];
    assert_eq!(find_group_by_id(&groups, 3), Some(g(3, "C")));
    assert_eq!(find_group_by_id(&groups, 2), None);
}
