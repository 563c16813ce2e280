use add_user_to_group::AddUserToGroupComponent;
use add_user_to_group::Effect;
use add_user_to_group::Group;
use add_user_to_group::Msg;
use add_user_to_group::Props;

fn g(id: i64, name: &str) -> Group {
    Group { id, display_name: name.to_string() }
}

fn props() -> Props {
    Props { username: "bob".to_string(), groups: vec![g(2, "Users")] }
}

fn catalog() -> Vec<Group> {
    vec![g(1, "Admins"), g(2, "Users"), g(3, "Guests")]
}

/// A component whose catalog has arrived: bob is in Users, so Admins and
/// Guests are selectable.
fn loaded() -> AddUserToGroupComponent {
    let (mut c, effect) = AddUserToGroupComponent::create(props());
    assert_eq!(effect, Effect::FetchGroupList);
    let (redraw, effect) = c.update(Msg::GroupListResponse(Ok(catalog())));
    assert!(redraw);
    assert_eq!(effect, Effect::NoEffect);
    c
}

#[test]
fn create_starts_loading_and_fetches_once() {
    let (c, effect) = AddUserToGroupComponent::create(props());
    assert_eq!(effect, Effect::FetchGroupList);
    assert!(c.is_loading());
    assert!(c.is_task_running());
    assert!(c.selected_group.is_none());
    assert!(!c.can_submit());
}

#[test]
fn catalog_response_ends_loading() {
    let c = loaded();
    assert!(!c.is_loading());
    assert!(!c.is_task_running());
    assert_eq!(c.group_list, Some(catalog()));
}

#[test]
fn selectable_list_from_loaded_component() {
    let c = loaded();
    let list = c.get_selectable_group_list(c.group_list.as_ref().unwrap());
    assert_eq!(list, vec![g(1, "Admins"), g(3, "Guests")]);
}

#[test]
fn select_resolves_group_from_the_list() {
    let mut c = loaded();
    let redraw = c.select(Some(3));
    assert!(redraw);
    assert_eq!(c.selected_group, Some(g(3, "Guests")));
    assert!(c.can_submit());
}

#[test]
fn select_none_clears_selection() {
    let mut c = loaded();
    c.select(Some(1));
    let redraw = c.select(None);
    assert!(redraw);
    assert!(c.selected_group.is_none());
    assert!(!c.can_submit());
}

#[test]
fn select_same_group_twice_needs_no_redraw() {
    let mut c = loaded();
    let first = c.select(Some(1));
    assert!(first);
    let selected_after_first = c.selected_group.clone();
    let second = c.select(Some(1));
    assert!(!second);
    assert_eq!(c.selected_group, selected_after_first);
}

#[test]
fn switching_selection_needs_no_redraw_while_present() {
    let mut c = loaded();
    assert!(c.select(Some(1)));
    // presence did not flip, so no redraw of the submit affordance
    assert!(!c.select(Some(3)));
    assert_eq!(c.selected_group, Some(g(3, "Guests")));
}

#[test]
fn submit_without_selection_is_a_no_op() {
    let mut c = loaded();
    let (redraw, effect) = c.submit_add_group();
    assert!(!redraw);
    assert_eq!(effect, Effect::NoEffect);
    assert!(!c.is_task_running());
}

#[test]
fn submit_while_in_flight_issues_no_second_mutation() {
    let mut c = loaded();
    c.select(Some(1));
    let (_, effect) = c.submit_add_group();
    assert_eq!(
        effect,
        Effect::SubmitAddUserToGroup { username: "bob".to_string(), group_id: 1 }
    );
    let (redraw, effect) = c.submit_add_group();
    assert!(!redraw);
    assert_eq!(effect, Effect::NoEffect);
}

#[test]
fn scenario_successful_submission() {
    let mut c = loaded();
    c.select(Some(3));
    let (redraw, effect) = c.update(Msg::SubmitAddGroup);
    assert!(redraw);
    assert_eq!(
        effect,
        Effect::SubmitAddUserToGroup { username: "bob".to_string(), group_id: 3 }
    );
    assert!(c.is_task_running());
    let (redraw, effect) = c.update(Msg::AddGroupResponse(Ok(())));
    assert!(redraw);
    assert_eq!(effect, Effect::UserAddedToGroup(g(3, "Guests")));
    assert!(!c.is_task_running());
    assert!(c.selected_group.is_none());
}

#[test]
fn scenario_failed_submission_keeps_selection() {
    let mut c = loaded();
    c.select(Some(1));
    let (_, effect) = c.update(Msg::SubmitAddGroup);
    assert_eq!(
        effect,
        Effect::SubmitAddUserToGroup { username: "bob".to_string(), group_id: 1 }
    );
    let (redraw, effect) = c.update(Msg::AddGroupResponse(Err(
        "permission denied".to_string(),
    )));
    assert!(redraw);
    match effect {
        Effect::ReportError(message) => assert!(message.contains("permission denied")),
        other => panic!("expected an error report, got {:?}", other),
    }
    assert_eq!(c.selected_group, Some(g(1, "Admins")));
    assert!(!c.is_task_running());
}

#[test]
fn scenario_failed_fetch_stays_loading() {
    let (mut c, effect) = AddUserToGroupComponent::create(props());
    assert_eq!(effect, Effect::FetchGroupList);
    let (redraw, effect) = c.update(Msg::GroupListResponse(Err(
        "network error".to_string(),
    )));
    assert!(redraw);
    match effect {
        Effect::ReportError(message) => assert!(message.contains("network error")),
        other => panic!("expected an error report, got {:?}", other),
    }
    assert!(c.is_loading());
    assert!(c.group_list.is_none());
    assert!(!c.is_task_running());
}

#[test]
fn change_with_equal_props_needs_no_redraw() {
    let mut c = loaded();
    c.select(Some(1));
    let redraw = c.change(props());
    assert!(!redraw);
    assert_eq!(c.selected_group, Some(g(1, "Admins")));
}

#[test]
fn change_reports_differing_props() {
    let mut c = loaded();
    let redraw = c.change(Props { username: "alice".to_string(), groups: vec![g(2, "Users")] });
    assert!(redraw);
    assert_eq!(c.username, "alice");
}

#[test]
fn change_clears_a_selection_that_became_assigned() {
    let mut c = loaded();
    c.select(Some(3));
    let redraw = c.change(Props {
        username: "bob".to_string(),
        groups: vec![g(2, "Users"), g(3, "Guests")],
    });
    assert!(redraw);
    assert!(c.selected_group.is_none());
}

#[test]
fn change_keeps_a_selection_that_is_still_selectable() {
    let mut c = loaded();
    c.select(Some(1));
    let redraw = c.change(Props { username: "bob".to_string(), groups: Vec::new() });
    assert!(redraw);
    assert_eq!(c.selected_group, Some(g(1, "Admins")));
}

#[test]
fn owner_removing_assigned_group_shrinks_the_list() {
    // after a successful submission the owner adds the group to the
    // assigned set it supplies; the next derivation drops it
    let mut c = loaded();
    c.select(Some(3));
    c.update(Msg::SubmitAddGroup);
    let (_, effect) = c.update(Msg::AddGroupResponse(Ok(())));
    assert_eq!(effect, Effect::UserAddedToGroup(g(3, "Guests")));
    let redraw = c.change(Props {
        username: "bob".to_string(),
        groups: vec![g(2, "Users"), g(3, "Guests")],
    });
    assert!(redraw);
    let list = c.get_selectable_group_list(c.group_list.as_ref().unwrap());
    assert_eq!(list, vec![g(1, "Admins")]);
}
